//! The progress of a scrub, as `zpool status` reports it.
use vstd::prelude::*;
use crate::text::{
    before_first, before_first_chars, chars_of, contains, contains_chars, lemma_contains_occurs, lines, occurs_at, replace_all,
    replace_chars, second_piece, second_piece_chars, split_char, split_lines, split_on,
    split_words, string_of, trim, trim_chars, views, words, Sep,
};

verus! {

/// A scrub in progress. `progress_percent` is the text of the percentage
/// done (`"12.5"` for `12.5% done`), empty where the report gives none.
pub struct ScrubStatus {
    pub pool: String,
    pub state: String,
    pub progress_percent: String,
    pub scanned: String,
    pub total: String,
    pub issued: String,
    pub speed: String,
    pub repaired: String,
    pub eta: String,
}

/// The figures read from a report so far.
pub struct ScrubFields {
    pub scanned: Seq<char>,
    pub total: Seq<char>,
    pub issued: Seq<char>,
    pub speed: Seq<char>,
    pub repaired: Seq<char>,
    pub progress: Seq<char>,
    pub eta: Seq<char>,
}

/// A line such as `1.2T scanned at 500M/s, 800G issued at 300M/s, 2T total`:
/// the first comma-separated part gives the scanned and total amounts (its
/// first and third words), the second the issued amount (its first word) and
/// the speed (what follows its first `at`, trimmed).
pub open spec fn scan_step(f: ScrubFields, line: Seq<char>) -> ScrubFields {
    let parts = split_char(line, ',');
    if parts.len() >= 2 {
        let scan = trim(parts[0]);
        let issued = trim(parts[1]);
        let sw = words(scan);
        let iw = words(issued);
        let f1 = if sw.len() >= 3 {
            ScrubFields { scanned: sw[0], total: sw[2], ..f }
        } else {
            f
        };
        let f2 = if iw.len() >= 3 {
            ScrubFields { issued: iw[0], ..f1 }
        } else {
            f1
        };
        if contains(issued, "at"@) {
            ScrubFields { speed: trim(second_piece(issued, "at"@)), ..f2 }
        } else {
            f2
        }
    } else {
        f
    }
}

/// A line such as `0B repaired, 45.50% done, 01:02:03 to go`: what comes
/// before `repaired`, the percentage before `%`, and the third part without
/// `to go`, each trimmed.
pub open spec fn repair_step(f: ScrubFields, line: Seq<char>) -> ScrubFields {
    let parts = split_char(line, ',');
    if parts.len() >= 3 {
        ScrubFields {
            repaired: trim(before_first(parts[0], "repaired"@)),
            progress: trim(before_first(parts[1], "%"@)),
            eta: trim(replace_all(parts[2], "to go"@, ""@)),
            ..f
        }
    } else {
        f
    }
}

/// The figures after one more line of the report (taken trimmed).
pub open spec fn scrub_step(f: ScrubFields, raw: Seq<char>) -> ScrubFields {
    let line = trim(raw);
    let f1 = if contains(line, "scanned"@) && contains(line, "issued"@) {
        scan_step(f, line)
    } else {
        f
    };
    if contains(line, "repaired"@) && contains(line, "done"@) {
        repair_step(f1, line)
    } else {
        f1
    }
}

pub open spec fn no_fields() -> ScrubFields {
    ScrubFields {
        scanned: Seq::empty(),
        total: Seq::empty(),
        issued: Seq::empty(),
        speed: Seq::empty(),
        repaired: Seq::empty(),
        progress: Seq::empty(),
        eta: Seq::empty(),
    }
}

/// The figures of a report: each is given by the last line that sets it.
pub open spec fn scrub_fields(ls: Seq<Seq<char>>) -> ScrubFields
    decreases ls.len(),
{
    if ls.len() == 0 {
        no_fields()
    } else {
        scrub_step(scrub_fields(ls.drop_last()), ls.last())
    }
}

/// A report describes a scrub in progress when it says `scrub in progress`.
pub open spec fn scrub_in_progress(text: Seq<char>) -> bool {
    contains(text, "scrub in progress"@)
}

/// A report describes a running scrub exactly when the words
/// `scrub in progress` stand somewhere in it; a report of a finished scrub
/// (`scrub repaired ... on ...`) alone does not.
pub proof fn lemma_scrub_running_phrase(text: Seq<char>)
    ensures
        scrub_in_progress(text) <==> exists|i: int| occurs_at(text, "scrub in progress"@, i),
{
    lemma_contains_occurs(text, "scrub in progress"@);
}

/// The figures come from the lines that carry them: where no line (trimmed)
/// mentions `scanned`, the scanned, total and issued amounts and the speed
/// stay empty; where none mentions `done`, the repaired amount, the
/// percentage and the time to go stay empty.
pub proof fn lemma_scrub_fields_from_their_lines(ls: Seq<Seq<char>>)
    ensures
        (forall|i: int| 0 <= i < ls.len() ==> !contains(#[trigger] trim(ls[i]), "scanned"@)) ==> {
            let f = scrub_fields(ls);
            f.scanned.len() == 0 && f.total.len() == 0 && f.issued.len() == 0 && f.speed.len() == 0
        },
        (forall|i: int| 0 <= i < ls.len() ==> !contains(#[trigger] trim(ls[i]), "done"@)) ==> {
            let f = scrub_fields(ls);
            f.repaired.len() == 0 && f.progress.len() == 0 && f.eta.len() == 0
        },
    decreases ls.len(),
{
    if ls.len() > 0 {
        let init = ls.drop_last();
        lemma_scrub_fields_from_their_lines(init);
        if forall|i: int| 0 <= i < ls.len() ==> !contains(#[trigger] trim(ls[i]), "scanned"@) {
            assert forall|i: int| 0 <= i < init.len() implies !contains(#[trigger] trim(init[i]), "scanned"@) by {
                assert(init[i] == ls[i]);
            }
            assert(!contains(trim(ls[ls.len() - 1]), "scanned"@));
        }
        if forall|i: int| 0 <= i < ls.len() ==> !contains(#[trigger] trim(ls[i]), "done"@) {
            assert forall|i: int| 0 <= i < init.len() implies !contains(#[trigger] trim(init[i]), "done"@) by {
                assert(init[i] == ls[i]);
            }
            assert(!contains(trim(ls[ls.len() - 1]), "done"@));
        }
    }
}

/// `s` is the status of the scrub of `pool` that the report `text` describes.
pub open spec fn scrub_status_of(s: ScrubStatus, pool: Seq<char>, text: Seq<char>) -> bool {
    let f = scrub_fields(lines(text));
    &&& s.pool@ == pool
    &&& s.state@ == "scrubbing"@
    &&& s.progress_percent@ == f.progress
    &&& s.scanned@ == f.scanned
    &&& s.total@ == f.total
    &&& s.issued@ == f.issued
    &&& s.speed@ == f.speed
    &&& s.repaired@ == f.repaired
    &&& s.eta@ == f.eta
}

struct Fields {
    scanned: Vec<char>,
    total: Vec<char>,
    issued: Vec<char>,
    speed: Vec<char>,
    repaired: Vec<char>,
    progress: Vec<char>,
    eta: Vec<char>,
}

impl Fields {
    spec fn model(self) -> ScrubFields {
        ScrubFields {
            scanned: self.scanned@,
            total: self.total@,
            issued: self.issued@,
            speed: self.speed@,
            repaired: self.repaired@,
            progress: self.progress@,
            eta: self.eta@,
        }
    }
}

fn apply_scan(f: &mut Fields, line: &Vec<char>)
    ensures
        final(f).model() == scan_step(old(f).model(), line@),
{
    let parts = split_on(line, Sep::Char(','));
    if parts.len() >= 2 {
        let scan = trim_chars(&parts[0]);
        let issued = trim_chars(&parts[1]);
        let sw = split_words(&scan);
        let iw = split_words(&issued);
        if sw.len() >= 3 {
            f.scanned = sw[0].clone();
            f.total = sw[2].clone();
            assert(sw@[0]@ == words(scan@)[0]);
            assert(sw@[2]@ == words(scan@)[2]);
        }
        if iw.len() >= 3 {
            f.issued = iw[0].clone();
            assert(iw@[0]@ == words(issued@)[0]);
        }
        let at = chars_of("at");
        if contains_chars(&issued, &at) {
            let sp = second_piece_chars(&issued, &at);
            f.speed = trim_chars(&sp);
        }
    }
}

fn apply_repair(f: &mut Fields, line: &Vec<char>)
    ensures
        final(f).model() == repair_step(old(f).model(), line@),
{
    let parts = split_on(line, Sep::Char(','));
    if parts.len() >= 3 {
        let rep = before_first_chars(&parts[0], &chars_of("repaired"));
        let pct = before_first_chars(&parts[1], &chars_of("%"));
        let to_go = chars_of("to go");
        proof {
            reveal_strlit("to go");
        }
        let eta = replace_chars(&parts[2], &to_go, &chars_of(""));
        f.repaired = trim_chars(&rep);
        f.progress = trim_chars(&pct);
        f.eta = trim_chars(&eta);
    }
}

/// The status of the scrub of `pool` in its `zpool status` report; `None`
/// where no scrub is in progress.
pub fn parse_scrub_status(text: &str, pool: &str) -> (s: Option<ScrubStatus>)
    ensures
        s is Some <==> scrub_in_progress(text@),
        s is Some <==> exists|i: int| occurs_at(text@, "scrub in progress"@, i),
        s matches Some(st) ==> scrub_status_of(st, pool@, text@),
        s matches Some(st) ==> st.pool@ == pool@ && st.state@ == "scrubbing"@,
        s matches Some(st) ==> ((forall|i: int|
            0 <= i < lines(text@).len() ==> !contains(#[trigger] trim(lines(text@)[i]), "scanned"@))
            ==> st.scanned@.len() == 0 && st.total@.len() == 0 && st.issued@.len() == 0 && st.speed@.len() == 0),
        s matches Some(st) ==> ((forall|i: int|
            0 <= i < lines(text@).len() ==> !contains(#[trigger] trim(lines(text@)[i]), "done"@))
            ==> st.repaired@.len() == 0 && st.progress_percent@.len() == 0 && st.eta@.len() == 0),
{
    proof {
        lemma_scrub_running_phrase(text@);
        lemma_scrub_fields_from_their_lines(lines(text@));
    }
    let cs = chars_of(text);
    if !contains_chars(&cs, &chars_of("scrub in progress")) {
        return None;
    }
    let ls = split_lines(&cs);
    let ghost all = lines(text@);
    let mut f = Fields {
        scanned: Vec::new(),
        total: Vec::new(),
        issued: Vec::new(),
        speed: Vec::new(),
        repaired: Vec::new(),
        progress: Vec::new(),
        eta: Vec::new(),
    };
    assert(all.take(0) =~= Seq::<Seq<char>>::empty());
    assert(f.model() == no_fields());
    let n = ls.len();
    for k in 0..n
        invariant
            n == ls@.len(),
            views(ls@) == all,
            all == lines(text@),
            f.model() == scrub_fields(all.take(k as int)),
    {
        assert(all.take(k + 1).drop_last() =~= all.take(k as int));
        assert(all.take(k + 1).last() == ls@[k as int]@);
        let line = trim_chars(&ls[k]);
        if contains_chars(&line, &chars_of("scanned")) && contains_chars(&line, &chars_of("issued")) {
            apply_scan(&mut f, &line);
        }
        if contains_chars(&line, &chars_of("repaired")) && contains_chars(&line, &chars_of("done")) {
            apply_repair(&mut f, &line);
        }
    }
    assert(all.take(n as int) =~= all);
    let pool_chars = chars_of(pool);
    Some(
        ScrubStatus {
            pool: string_of(&pool_chars),
            state: string_of(&chars_of("scrubbing")),
            progress_percent: string_of(&f.progress),
            scanned: string_of(&f.scanned),
            total: string_of(&f.total),
            issued: string_of(&f.issued),
            speed: string_of(&f.speed),
            repaired: string_of(&f.repaired),
            eta: string_of(&f.eta),
        },
    )
}

} // verus!
