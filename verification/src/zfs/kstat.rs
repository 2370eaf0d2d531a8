//! The `name type data` tables that ZFS publishes under /proc/spl/kstat.
use vstd::prelude::*;
use crate::text::{words, lines, parse_u64_or_zero, views, chars_of, chars_eq, split_words, parse_u64_chars, split_lines};

verus! {

/// The value that the table gives `key`: the third column of the last line
/// of at least three columns whose first column is `key`, read as a number
/// (0 where it does not parse); 0 where no line names the key.
pub open spec fn kstat_value(ls: Seq<Seq<char>>, key: Seq<char>) -> u64
    decreases ls.len(),
{
    if ls.len() == 0 {
        0
    } else {
        let w = words(ls.last());
        if w.len() >= 3 && w[0] == key {
            parse_u64_or_zero(w[2])
        } else {
            kstat_value(ls.drop_last(), key)
        }
    }
}

/// Line `i` of `ls` names `key`: it has at least three columns and the
/// first is `key`.
pub open spec fn names_key(ls: Seq<Seq<char>>, key: Seq<char>, i: int) -> bool {
    0 <= i < ls.len() && words(ls[i]).len() >= 3 && words(ls[i])[0] == key
}

/// `v` is what the table says of `key`: the number in the third column of
/// the last line that names `key` (0 where it is not a number), or 0 where no
/// line names it.
pub open spec fn table_gives(ls: Seq<Seq<char>>, key: Seq<char>, v: u64) -> bool {
    ||| (forall|j: int| 0 <= j < ls.len() ==> !#[trigger] names_key(ls, key, j)) && v == 0
    ||| exists|i: int|
        #![trigger names_key(ls, key, i)]
        names_key(ls, key, i) && (forall|j: int| i < j < ls.len() ==> !#[trigger] names_key(ls, key, j))
            && v == parse_u64_or_zero(words(ls[i])[2])
}

/// The value read for a key is the one its last line gives.
pub proof fn lemma_table_gives(ls: Seq<Seq<char>>, key: Seq<char>)
    ensures
        table_gives(ls, key, kstat_value(ls, key)),
    decreases ls.len(),
{
    if ls.len() > 0 {
        let n = ls.len() - 1;
        let init = ls.drop_last();
        if names_key(ls, key, n) {
            assert(table_gives(ls, key, kstat_value(ls, key)));
        } else {
            lemma_table_gives(init, key);
            assert forall|j: int| 0 <= j < init.len() implies names_key(init, key, j) == names_key(ls, key, j) by {
                assert(init[j] == ls[j]);
            }
            if forall|j: int| 0 <= j < init.len() ==> !#[trigger] names_key(init, key, j) {
                assert forall|j: int| 0 <= j < ls.len() implies !#[trigger] names_key(ls, key, j) by {
                    if j < n {
                        assert(!names_key(init, key, j));
                    }
                }
            } else {
                let i = choose|i: int|
                    #![trigger names_key(init, key, i)]
                    names_key(init, key, i) && (forall|j: int| i < j < init.len() ==> !#[trigger] names_key(init, key, j))
                        && kstat_value(init, key) == parse_u64_or_zero(words(init[i])[2]);
                assert(names_key(ls, key, i));
                assert forall|j: int| i < j < ls.len() implies !#[trigger] names_key(ls, key, j) by {
                    if j < n {
                        assert(!names_key(init, key, j));
                    }
                }
            }
        }
    }
}

/// The values that a kstat table gives each of `keys`, in the order of the keys.
pub fn kstat_values(text: &str, keys: &Vec<Vec<char>>) -> (vals: Vec<u64>)
    ensures
        vals@.len() == keys@.len(),
        forall|i: int| 0 <= i < keys@.len() ==> #[trigger] vals@[i] == kstat_value(lines(text@), keys@[i]@),
{
    let cs = chars_of(text);
    let ls = split_lines(&cs);
    let ghost all = lines(text@);
    let nk = keys.len();
    let mut vals: Vec<u64> = Vec::new();
    for i in 0..nk
        invariant
            nk == keys@.len(),
            vals@.len() == i,
            forall|j: int| 0 <= j < i ==> vals@[j] == 0,
    {
        vals.push(0);
    }
    assert(all.take(0) =~= Seq::<Seq<char>>::empty());
    let n = ls.len();
    for k in 0..n
        invariant
            n == ls@.len(),
            views(ls@) == all,
            all == lines(text@),
            nk == keys@.len(),
            vals@.len() == nk,
            forall|i: int| 0 <= i < nk ==> #[trigger] vals@[i] == kstat_value(all.take(k as int), keys@[i]@),
    {
        assert(all.take(k + 1).drop_last() =~= all.take(k as int));
        assert(all.take(k + 1).last() == ls@[k as int]@);
        let w = split_words(&ls[k]);
        if w.len() >= 3 {
            let v = match parse_u64_chars(&w[2]) {
                Some(v) => v,
                None => 0,
            };
            for i in 0..nk
                invariant
                    nk == keys@.len(),
                    vals@.len() == nk,
                    k < n,
                    n == all.len(),
                    all.take(k + 1).drop_last() == all.take(k as int),
                    views(w@) == words(all.take(k + 1).last()),
                    w@.len() >= 3,
                    v == parse_u64_or_zero(w@[2]@),
                    forall|j: int| 0 <= j < i ==> #[trigger] vals@[j] == kstat_value(all.take(k + 1), keys@[j]@),
                    forall|j: int| i <= j < nk ==> #[trigger] vals@[j] == kstat_value(all.take(k as int), keys@[j]@),
            {
                assert(w@[0]@ == words(all.take(k + 1).last())[0]);
                if chars_eq(&w[0], &keys[i]) {
                    vals.set(i, v);
                }
            }
        } else {
            assert forall|i: int| 0 <= i < nk implies #[trigger] vals@[i] == kstat_value(all.take(k + 1), keys@[i]@) by {}
        }
    }
    assert(all.take(n as int) =~= all);
    vals
}

} // verus!
