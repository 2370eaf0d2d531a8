//! The host panel: the ARC history and the uptime.
use vstd::prelude::*;
use crate::app::state::SystemState;
use crate::text::{decimal, decimal_chars, string_of, two_digit_chars, two_digits};
use crate::zfs::arc::ArcStats;
use crate::zfs::pools::{push_capped, push_sample};

verus! {

/// How many hit-ratio samples the ARC history keeps.
pub const ARC_HISTORY_LEN: usize = 120;

/// An uptime of `s` seconds as the header shows it: `Dd HHh MMm` from one
/// day on, else `HHh MMm`.
pub open spec fn uptime_text(s: nat) -> Seq<char> {
    let days = s / 86400;
    let hours = (s % 86400) / 3600;
    let minutes = (s % 3600) / 60;
    if days > 0 {
        decimal(days) + "d "@ + two_digits(hours) + "h "@ + two_digits(minutes) + "m"@
    } else {
        two_digits(hours) + "h "@ + two_digits(minutes) + "m"@
    }
}

/// An uptime of `s` seconds as text.
pub fn format_uptime(s: u64) -> (t: String)
    ensures
        t@ == uptime_text(s as nat),
{
    let days = s / 86400;
    let hours = (s % 86400) / 3600;
    let minutes = (s % 3600) / 60;
    let mut out: Vec<char> = Vec::new();
    if days > 0 {
        let mut d = decimal_chars(days);
        out.append(&mut d);
        out.push('d');
        out.push(' ');
    }
    let mut h = two_digit_chars(hours);
    out.append(&mut h);
    out.push('h');
    out.push(' ');
    let mut m = two_digit_chars(minutes);
    out.append(&mut m);
    out.push('m');
    proof {
        reveal_strlit("d ");
        reveal_strlit("h ");
        reveal_strlit("m");
        if days > 0 {
            assert(out@ =~= decimal(days as nat) + "d "@ + two_digits(hours as nat) + "h "@
                + two_digits(minutes as nat) + "m"@);
        } else {
            assert(out@ =~= two_digits(hours as nat) + "h "@ + two_digits(minutes as nat) + "m"@);
        }
    }
    string_of(&out)
}

impl SystemState {
    /// Takes fresh ARC statistics and their hit ratio (in tenths of a
    /// percent), which joins the history; the history keeps the latest 120.
    pub fn update_arc(&mut self, arc: ArcStats, sample: u64)
        ensures
            final(self).arc == arc,
            final(self).arc_history@ == push_capped(old(self).arc_history@, sample, ARC_HISTORY_LEN as nat),
            final(self).hostname == old(self).hostname,
            final(self).uptime == old(self).uptime,
    {
        self.arc = arc;
        push_sample(&mut self.arc_history, sample, ARC_HISTORY_LEN);
    }

    /// Takes the uptime in whole seconds, where it could be read; the
    /// shown uptime is kept otherwise.
    pub fn update_uptime(&mut self, seconds: Option<u64>)
        ensures
            final(self).arc == old(self).arc,
            final(self).arc_history == old(self).arc_history,
            final(self).hostname == old(self).hostname,
            match seconds {
                Some(s) => final(self).uptime@ == uptime_text(s as nat),
                None => final(self).uptime == old(self).uptime,
            },
    {
        if let Some(s) = seconds {
            self.uptime = format_uptime(s);
        }
    }
}

/// A history that is full stays full and keeps its length.
pub proof fn lemma_history_length(h: Seq<u64>, x: u64, cap: nat)
    requires
        h.len() <= cap,
        cap > 0,
    ensures
        push_capped(h, x, cap).len() <= cap,
        h.len() == cap ==> push_capped(h, x, cap).len() == cap,
        push_capped(h, x, cap).last() == x,
{
    assert(push_capped(h, x, cap).last() == h.push(x).last());
}

} // verus!
