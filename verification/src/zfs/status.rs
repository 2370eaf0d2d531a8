//! The lines of `zpool status` that the status view shows.
use vstd::prelude::*;
use crate::text::{
    chars_of, contains, contains_chars, lines, replace_all, replace_chars, split_lines,
    starts_with, starts_with_chars, string_of, trim, trim_chars, views,
};

verus! {

/// A line is shown when, trimmed, it is not empty and it is a `state:`,
/// `scan:` or `config:` line, names a device state (`ONLINE`, `DEGRADED`,
/// `FAULTED`), or is indented (starts with a space or a tab).
pub open spec fn status_line_shown(line: Seq<char>) -> bool {
    let t = trim(line);
    &&& t.len() > 0
    &&& {
        ||| starts_with(t, "state:"@)
        ||| starts_with(t, "scan:"@)
        ||| starts_with(t, "config:"@)
        ||| contains(t, "ONLINE"@)
        ||| contains(t, "DEGRADED"@)
        ||| contains(t, "FAULTED"@)
        ||| starts_with(line, " "@)
        ||| starts_with(line, "\t"@)
    }
}

/// A shown line with each tab widened to four spaces.
pub open spec fn widen_tabs(line: Seq<char>) -> Seq<char> {
    replace_all(line, "\t"@, "    "@)
}

/// The shown lines of a `zpool status` report, in order, tabs widened.
pub open spec fn status_lines(text: Seq<char>) -> Seq<Seq<char>> {
    lines(text).filter(|l: Seq<char>| status_line_shown(l)).map_values(|l: Seq<char>| widen_tabs(l))
}

fn line_shown(line: &Vec<char>) -> (b: bool)
    ensures
        b == status_line_shown(line@),
{
    let t = trim_chars(line);
    if t.len() == 0 {
        return false;
    }
    starts_with_chars(&t, &chars_of("state:")) || starts_with_chars(&t, &chars_of("scan:"))
        || starts_with_chars(&t, &chars_of("config:")) || contains_chars(&t, &chars_of("ONLINE"))
        || contains_chars(&t, &chars_of("DEGRADED")) || contains_chars(&t, &chars_of("FAULTED"))
        || starts_with_chars(line, &chars_of(" ")) || starts_with_chars(line, &chars_of("\t"))
}

/// The lines of a `zpool status` report that the status view shows.
pub fn filter_status_lines(text: &str) -> (out: Vec<String>)
    ensures
        out@.len() == status_lines(text@).len(),
        forall|k: int| 0 <= k < out@.len() ==> #[trigger] out@[k]@ == status_lines(text@)[k],
{
    let cs = chars_of(text);
    let ls = split_lines(&cs);
    let ghost keep = |l: Seq<char>| status_line_shown(l);
    let ghost conv = |l: Seq<char>| widen_tabs(l);
    let ghost all = lines(text@);
    let tab = chars_of("\t");
    let spaces = chars_of("    ");
    proof {
        reveal_strlit("\t");
    }
    let n = ls.len();
    let mut out: Vec<String> = Vec::new();
    assert(all.take(0) =~= Seq::<Seq<char>>::empty());
    proof {
        reveal_with_fuel(Seq::filter, 1);
    }
    assert(out@.map_values(|s: String| s@) =~= all.take(0).filter(keep).map_values(conv));
    for k in 0..n
        invariant
            n == ls@.len(),
            views(ls@) == all,
            all == lines(text@),
            tab@ == "\t"@,
            tab@.len() == 1,
            spaces@ == "    "@,
            keep == (|l: Seq<char>| status_line_shown(l)),
            conv == (|l: Seq<char>| widen_tabs(l)),
            out@.map_values(|s: String| s@) == all.take(k as int).filter(keep).map_values(conv),
    {
        proof {
            reveal_with_fuel(Seq::filter, 1);
        }
        assert(all.take(k + 1).drop_last() =~= all.take(k as int));
        assert(all.take(k + 1).last() == ls@[k as int]@);
        if line_shown(&ls[k]) {
            let w = replace_chars(&ls[k], &tab, &spaces);
            let line = string_of(&w);
            let ghost prev = out@;
            out.push(line);
            assert(all.take(k + 1).filter(keep) == all.take(k as int).filter(keep).push(ls@[k as int]@));
            assert(out@.map_values(|s: String| s@) =~= prev.map_values(|s: String| s@).push(line@));
            assert(all.take(k + 1).filter(keep).map_values(conv) =~= all.take(k as int).filter(
                keep,
            ).map_values(conv).push(conv(ls@[k as int]@)));
        } else {
            assert(all.take(k + 1).filter(keep) == all.take(k as int).filter(keep));
        }
    }
    assert(all.take(n as int) =~= all);
    assert forall|k: int| 0 <= k < out@.len() implies #[trigger] out@[k]@ == status_lines(text@)[k] by {
        assert(out@.map_values(|s: String| s@)[k] == out@[k]@);
    }
    out
}

/// What the status view shows when `zpool status` cannot be run.
pub fn status_unavailable() -> (out: Vec<String>)
    ensures
        out@.len() == 1,
        out@[0]@ == "Error: Could not run zpool command"@,
{
    let mut out: Vec<String> = Vec::new();
    let line = chars_of("Error: Could not run zpool command");
    out.push(string_of(&line));
    out
}

} // verus!
