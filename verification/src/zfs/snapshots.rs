//! Snapshots as `zfs list -t snapshot` shows them.
use vstd::prelude::*;
use crate::text::{
    chars_of, lines, parse_u64_chars, parse_u64_or_zero, piece_or, piece_or_string, split_lines,
    split_words, starts_with, starts_with_chars, views, words,
};

verus! {

#[derive(Clone)]
pub struct Snapshot {
    pub name: String,
    pub used: String,
    /// Creation time, in seconds since the epoch.
    pub created: u64,
}

/// What a snapshot holds, as plain values.
pub struct SnapshotView {
    pub name: Seq<char>,
    pub used: Seq<char>,
    pub created: u64,
}

impl View for Snapshot {
    type V = SnapshotView;

    open spec fn view(&self) -> SnapshotView {
        SnapshotView { name: self.name@, used: self.used@, created: self.created }
    }
}

pub open spec fn snapshot_views(s: Seq<Snapshot>) -> Seq<SnapshotView> {
    s.map_values(|x: Snapshot| x@)
}

/// The snapshot that a line of
/// `zfs list -t snapshot -o name,used,creation -H -p` describes: its first
/// two columns (empty where missing) and its creation time (0 where missing or
/// not a number).
pub open spec fn snapshot_of_line(line: Seq<char>) -> SnapshotView {
    let w = words(line);
    SnapshotView {
        name: piece_or(w, 0, ""@),
        used: piece_or(w, 1, ""@),
        created: parse_u64_or_zero(piece_or(w, 2, ""@)),
    }
}

/// The snapshots that the output lists for `dataset`: the lines that start
/// with the dataset's name, in the order of the output.
pub open spec fn listed_snapshots(text: Seq<char>, dataset: Seq<char>) -> Seq<SnapshotView> {
    lines(text).filter(|l: Seq<char>| starts_with(l, dataset)).map_values(
        |l: Seq<char>| snapshot_of_line(l),
    )
}

/// The snapshot that a line describes.
fn snapshot_from_line(line: &Vec<char>) -> (sn: Snapshot)
    ensures
        sn@ == snapshot_of_line(line@),
{
    let w = split_words(line);
    let created = if w.len() > 2 {
        match parse_u64_chars(&w[2]) {
            Some(v) => v,
            None => 0,
        }
    } else {
        proof {
            assert(""@ =~= Seq::<char>::empty()) by {
                reveal_strlit("");
            }
        }
        0
    };
    Snapshot { name: piece_or_string(&w, 0, ""), used: piece_or_string(&w, 1, ""), created }
}

/// The snapshots of `dataset` in the output of
/// `zfs list -t snapshot -o name,used,creation -H -p -s creation -r <dataset>`:
/// the lines that start with the dataset's name, newest first, those created
/// at the same second in the order of the output.
pub fn parse_snapshot_list(text: &str, dataset: &str) -> (snaps: Vec<Snapshot>)
    ensures
        sorted_newest_first(snapshot_views(snaps@), listed_snapshots(text@, dataset@)),
{
    let cs = chars_of(text);
    let ds = chars_of(dataset);
    let ls = split_lines(&cs);
    let ghost keep = |l: Seq<char>| starts_with(l, dataset@);
    let ghost conv = |l: Seq<char>| snapshot_of_line(l);
    let ghost all = lines(text@);
    let n = ls.len();
    let mut found: Vec<Snapshot> = Vec::new();
    assert(all.take(0) =~= Seq::<Seq<char>>::empty());
    proof {
        reveal_with_fuel(Seq::filter, 1);
    }
    assert(snapshot_views(found@) =~= all.take(0).filter(keep).map_values(conv));
    for k in 0..n
        invariant
            n == ls@.len(),
            views(ls@) == all,
            all == lines(text@),
            ds@ == dataset@,
            keep == (|l: Seq<char>| starts_with(l, dataset@)),
            conv == (|l: Seq<char>| snapshot_of_line(l)),
            snapshot_views(found@) == all.take(k as int).filter(keep).map_values(conv),
    {
        proof {
            reveal_with_fuel(Seq::filter, 1);
        }
        assert(all.take(k + 1).drop_last() =~= all.take(k as int));
        assert(all.take(k + 1).last() == ls@[k as int]@);
        if starts_with_chars(&ls[k], &ds) {
            let sn = snapshot_from_line(&ls[k]);
            let ghost prev = found@;
            found.push(sn);
            assert(all.take(k + 1).filter(keep) == all.take(k as int).filter(keep).push(ls@[k as int]@));
            assert(snapshot_views(found@) =~= snapshot_views(prev).push(sn@));
            assert(all.take(k + 1).filter(keep).map_values(conv) =~= all.take(k as int).filter(
                keep,
            ).map_values(conv).push(conv(ls@[k as int]@)));
        } else {
            assert(all.take(k + 1).filter(keep) == all.take(k as int).filter(keep));
        }
    }
    assert(all.take(n as int) =~= all);
    sort_newest_first(found)
}

/// Newest first: creation times never increase along the sequence.
pub open spec fn newest_first(s: Seq<SnapshotView>) -> bool {
    forall|i: int, j: int| 0 <= i < j < s.len() ==> s[i].created >= s[j].created
}

/// The snapshots created at time `t`, in order.
pub open spec fn created_at(s: Seq<SnapshotView>, t: u64) -> Seq<SnapshotView> {
    s.filter(|x: SnapshotView| x.created == t)
}

/// `b` holds the snapshots of `a` ordered newest first, snapshots created at
/// the same time keeping their order (a stable sort).
pub open spec fn sorted_newest_first(b: Seq<SnapshotView>, a: Seq<SnapshotView>) -> bool {
    &&& newest_first(b)
    &&& forall|t: u64| #[trigger] created_at(b, t) == created_at(a, t)
}

proof fn lemma_filter_none(s: Seq<SnapshotView>, t: u64)
    requires
        forall|i: int| 0 <= i < s.len() ==> s[i].created != t,
    ensures
        created_at(s, t) == Seq::<SnapshotView>::empty(),
    decreases s.len(),
{
    reveal_with_fuel(Seq::filter, 1);
    if s.len() > 0 {
        lemma_filter_none(s.drop_last(), t);
    }
    assert(created_at(s, t) =~= Seq::<SnapshotView>::empty());
}

proof fn lemma_insert_filter(s: Seq<SnapshotView>, p: int, x: SnapshotView, t: u64)
    requires
        0 <= p <= s.len(),
        forall|i: int| p <= i < s.len() ==> s[i].created < x.created,
    ensures
        created_at(s.insert(p, x), t) == created_at(s, t) + (if x.created == t {
            seq![x]
        } else {
            Seq::empty()
        }),
{
    reveal_with_fuel(Seq::filter, 2);
    let pred = |y: SnapshotView| y.created == t;
    let a = s.take(p);
    let b = s.skip(p);
    assert(s.insert(p, x) =~= a + seq![x] + b);
    assert(s =~= a + b);
    Seq::filter_distributes_over_add(a + seq![x], b, pred);
    Seq::filter_distributes_over_add(a, seq![x], pred);
    Seq::filter_distributes_over_add(a, b, pred);
    assert(seq![x].drop_last() =~= Seq::<SnapshotView>::empty());
    if x.created == t {
        lemma_filter_none(b, t);
        assert(created_at(s, t) =~= created_at(a, t));
        assert(created_at(s.insert(p, x), t) =~= created_at(a, t) + seq![x]);
    } else {
        assert(seq![x].filter(pred) =~= Seq::<SnapshotView>::empty());
        assert(created_at(s.insert(p, x), t) =~= created_at(s, t));
    }
}

/// Orders snapshots newest first; those created at the same time keep their
/// order.
pub fn sort_newest_first(v: Vec<Snapshot>) -> (r: Vec<Snapshot>)
    ensures
        sorted_newest_first(snapshot_views(r@), snapshot_views(v@)),
{
    let ghost src = snapshot_views(v@);
    let ghost n = v@.len();
    let mut rest = v;
    let mut out: Vec<Snapshot> = Vec::new();
    assert(src.take(0) =~= Seq::<SnapshotView>::empty());
    assert(rest@ =~= v@.skip(0));
    assert forall|t: u64| #[trigger] created_at(snapshot_views(out@), t) == created_at(src.take(0), t) by {
        reveal_with_fuel(Seq::filter, 1);
        assert(snapshot_views(out@) =~= Seq::<SnapshotView>::empty());
    }
    while rest.len() > 0
        invariant
            n == v@.len(),
            src == snapshot_views(v@),
            rest@.len() <= n,
            rest@ == v@.skip(n - rest@.len()),
            newest_first(snapshot_views(out@)),
            forall|t: u64| #[trigger] created_at(snapshot_views(out@), t) == created_at(src.take(n - rest@.len()), t),
        decreases rest@.len(),
    {
        let ghost i = n - rest@.len();
        let x = rest.remove(0);
        assert(x@ == src[i]);
        assert(rest@ =~= v@.skip(i + 1));
        let key = x.created;
        let m = out.len();
        let mut p: usize = 0;
        while p < m && out[p].created >= key
            invariant
                p <= m == out@.len(),
                forall|j: int| 0 <= j < p ==> out@[j].created >= key,
            decreases m - p,
        {
            p += 1;
        }
        let ghost before = snapshot_views(out@);
        assert forall|j: int| p <= j < before.len() implies before[j].created < key by {
            if before[j].created >= key {
                assert(before[p as int].created >= before[j].created);
            }
        }
        out.insert(p, x);
        assert(snapshot_views(out@) =~= before.insert(p as int, src[i]));
        assert forall|a: int, b: int| 0 <= a < b < out@.len() implies snapshot_views(out@)[a].created
            >= snapshot_views(out@)[b].created by {
            assert(newest_first(before));
        }
        assert forall|t: u64| #[trigger] created_at(snapshot_views(out@), t) == created_at(src.take(i + 1), t) by {
            lemma_insert_filter(before, p as int, src[i], t);
            reveal_with_fuel(Seq::filter, 1);
            assert(src.take(i + 1).drop_last() =~= src.take(i));
            assert(src.take(i + 1).last() == src[i]);
            if src[i].created == t {
                assert(created_at(src.take(i + 1), t) == created_at(src.take(i), t).push(src[i]));
                assert(created_at(src.take(i), t).push(src[i]) =~= created_at(src.take(i), t) + seq![src[i]]);
            } else {
                assert(created_at(src.take(i + 1), t) == created_at(src.take(i), t));
                assert(created_at(src.take(i), t) + Seq::empty() =~= created_at(src.take(i), t));
            }
        }
    }
    assert(src.take(n as int) =~= src);
    out
}

} // verus!
