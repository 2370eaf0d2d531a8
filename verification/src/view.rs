//! What the screen shows, decided from the state: labels, names as the
//! tables print them, and the tone in which a value is drawn.
use vstd::prelude::*;
use vstd::utf8::encode_utf8;
use crate::app::state::{Focus, Nav, NetworkSort, ZfsState};
use crate::text::{
    before_first, before_first_chars, chars_of, contains, contains_chars, find, find_chars,
    is_text, split_char, split_on, starts_with, starts_with_chars, string_of, text_string, trim,
    trim_chars, views, Sep,
};
use crate::zfs::datasets::Dataset;

verus! {

/// The tone in which a value is drawn; the terminal front end gives each a colour.
#[derive(PartialEq, Eq, Structural, Clone, Copy, Debug)]
pub enum Tone {
    Good,
    Info,
    Warning,
    Alert,
    Muted,
    Plain,
}

/// The name of the view in the footer.
pub fn view_name(nav: Nav) -> (s: String)
    ensures
        s@ == match nav {
            Nav::Snapshots => "Snapshots"@,
            Nav::Datasets => "Datasets"@,
            Nav::Scrub => "Scrub"@,
            Nav::Shares => "Shares"@,
            Nav::Network => "Interfaces"@,
            Nav::PoolStatus => "Status"@,
            Nav::Docker => "Docker"@,
        },
{
    match nav {
        Nav::Snapshots => text_string("Snapshots"),
        Nav::Datasets => text_string("Datasets"),
        Nav::Scrub => text_string("Scrub"),
        Nav::Shares => text_string("Shares"),
        Nav::Network => text_string("Interfaces"),
        Nav::PoolStatus => text_string("Status"),
        Nav::Docker => text_string("Docker"),
    }
}

/// The name of the focused pane in the footer.
pub fn focus_name(focus: Focus) -> (s: String)
    ensures
        s@ == match focus {
            Focus::Left => "Left"@,
            Focus::Right => "Right"@,
        },
{
    match focus {
        Focus::Left => text_string("Left"),
        Focus::Right => text_string("Right"),
    }
}

/// The name of the sort key in the title of the interface table.
pub fn sort_name(sort: NetworkSort) -> (s: String)
    ensures
        s@ == match sort {
            NetworkSort::Name => "Name"@,
            NetworkSort::State => "State"@,
            NetworkSort::Mtu => "MTU"@,
        },
{
    match sort {
        NetworkSort::Name => text_string("Name"),
        NetworkSort::State => text_string("State"),
        NetworkSort::Mtu => text_string("MTU"),
    }
}

/// The tone of a pool's health: good when `ONLINE`, a warning when
/// `DEGRADED`, an alert otherwise.
pub fn health_tone(health: &String) -> (t: Tone)
    ensures
        t == (if health@ == "ONLINE"@ {
            Tone::Good
        } else if health@ == "DEGRADED"@ {
            Tone::Warning
        } else {
            Tone::Alert
        }),
{
    if is_text(health, "ONLINE") {
        Tone::Good
    } else if is_text(health, "DEGRADED") {
        Tone::Warning
    } else {
        Tone::Alert
    }
}

/// The tone of the latest ARC hit ratio, given in tenths of a percent: good
/// above 90%, informative above 70%, a warning above 40%, an alert otherwise.
pub fn hit_rate_tone(sample: u64) -> (t: Tone)
    ensures
        t == (if sample > 900 {
            Tone::Good
        } else if sample > 700 {
            Tone::Info
        } else if sample > 400 {
            Tone::Warning
        } else {
            Tone::Alert
        }),
{
    if sample > 900 {
        Tone::Good
    } else if sample > 700 {
        Tone::Info
    } else if sample > 400 {
        Tone::Warning
    } else {
        Tone::Alert
    }
}

/// The tone of a container's status: good while up, an alert once exited, a
/// warning otherwise.
pub fn container_tone(status: &String) -> (t: Tone)
    ensures
        t == (if contains(status@, "Up"@) {
            Tone::Good
        } else if contains(status@, "Exited"@) {
            Tone::Alert
        } else {
            Tone::Warning
        }),
{
    let s = chars_of(status.as_str());
    if contains_chars(&s, &chars_of("Up")) {
        Tone::Good
    } else if contains_chars(&s, &chars_of("Exited")) {
        Tone::Alert
    } else {
        Tone::Warning
    }
}

/// The tone of an interface's state: good when `UP`, an alert when `DOWN`,
/// muted otherwise.
pub fn link_tone(operstate: &String) -> (t: Tone)
    ensures
        t == (if operstate@ == "UP"@ {
            Tone::Good
        } else if operstate@ == "DOWN"@ {
            Tone::Alert
        } else {
            Tone::Muted
        }),
{
    if is_text(operstate, "UP") {
        Tone::Good
    } else if is_text(operstate, "DOWN") {
        Tone::Alert
    } else {
        Tone::Muted
    }
}

/// The tone of a share property: muted when `off`, good otherwise.
pub fn share_tone(value: &String) -> (t: Tone)
    ensures
        t == (if value@ == "off"@ {
            Tone::Muted
        } else {
            Tone::Good
        }),
{
    if is_text(value, "off") {
        Tone::Muted
    } else {
        Tone::Good
    }
}

/// The tone of the amount a scrub repaired: good when nothing (`0B`), an
/// alert otherwise.
pub fn repaired_tone(repaired: &String) -> (t: Tone)
    ensures
        t == (if repaired@ == "0B"@ {
            Tone::Good
        } else {
            Tone::Alert
        }),
{
    if is_text(repaired, "0B") {
        Tone::Good
    } else {
        Tone::Alert
    }
}

/// The tone of a scrub's state: good when it says `progress`, a warning otherwise.
pub fn scrub_state_tone(state: &String) -> (t: Tone)
    ensures
        t == (if contains(state@, "progress"@) {
            Tone::Good
        } else {
            Tone::Warning
        }),
{
    let s = chars_of(state.as_str());
    if contains_chars(&s, &chars_of("progress")) {
        Tone::Good
    } else {
        Tone::Warning
    }
}

/// The tone of where a dataset property comes from: informative when set
/// locally, muted for a default, plain otherwise.
pub fn source_tone(source: &String) -> (t: Tone)
    ensures
        t == (if source@ == "local"@ {
            Tone::Info
        } else if source@ == "default"@ {
            Tone::Muted
        } else {
            Tone::Plain
        }),
{
    if is_text(source, "local") {
        Tone::Info
    } else if is_text(source, "default") {
        Tone::Muted
    } else {
        Tone::Plain
    }
}

/// `s` with every leading copy of `p` removed (`str::trim_start_matches`).
pub open spec fn strip_leading(s: Seq<char>, p: Seq<char>) -> Seq<char>
    decreases s.len(),
{
    if p.len() > 0 && starts_with(s, p) {
        strip_leading(s.skip(p.len() as int), p)
    } else {
        s
    }
}

/// `s` written `n` times.
pub open spec fn repeat(s: Seq<char>, n: nat) -> Seq<char>
    decreases n,
{
    if n == 0 {
        Seq::empty()
    } else {
        repeat(s, (n - 1) as nat) + s
    }
}

/// A dataset has children: another dataset's name starts with its name and `/`.
pub open spec fn has_children(ds: Seq<Dataset>, name: Seq<char>) -> bool {
    exists|k: int| 0 <= k < ds.len() && starts_with(#[trigger] ds[k].name@, name + "/"@)
}

/// How the dataset table names a dataset of `pool`: the pool itself behind a
/// house; any other dataset by the last part of its path below the pool,
/// indented two spaces per level below the first, behind a triangle when it
/// has children and a bullet otherwise.
pub open spec fn display_name(name: Seq<char>, pool: Seq<char>, parent: bool) -> Seq<char> {
    if name == pool {
        "🏠 "@ + name
    } else {
        let path = strip_leading(strip_leading(name, pool), "/"@);
        let parts = split_char(path, '/');
        let indent = repeat("  "@, if parts.len() >= 1 {
            (parts.len() - 1) as nat
        } else {
            0
        });
        indent + (if parent {
            "▼ "@
        } else {
            "• "@
        }) + parts.last()
    }
}

/// `s` with every leading copy of `p` removed.
pub fn strip_leading_chars(s: &[char], p: &[char]) -> (r: Vec<char>)
    ensures
        r@ == strip_leading(s@, p@),
{
    let n = s.len();
    let m = p.len();
    let mut rest: Vec<char> = crate::text::slice_chars(s, 0, n);
    assert(rest@ =~= s@);
    if m == 0 {
        return rest;
    }
    loop
        invariant
            m == p@.len(),
            m > 0,
            strip_leading(rest@, p@) == strip_leading(s@, p@),
        decreases rest@.len(),
    {
        if starts_with_chars(&rest, p) {
            let len = rest.len();
            let next = crate::text::slice_chars(&rest, m, len);
            assert(next@ =~= rest@.skip(m as int));
            rest = next;
        } else {
            return rest;
        }
    }
}

/// Whether some dataset's name starts with `name` and `/`.
pub fn dataset_has_children(ds: &Vec<Dataset>, name: &String) -> (b: bool)
    ensures
        b == has_children(ds@, name@),
{
    let mut prefix = chars_of(name.as_str());
    prefix.push('/');
    proof {
        reveal_strlit("/");
    }
    assert(prefix@ =~= name@ + "/"@);
    let n = ds.len();
    for k in 0..n
        invariant
            n == ds@.len(),
            prefix@ == name@ + "/"@,
            forall|j: int| 0 <= j < k ==> !starts_with(#[trigger] ds@[j].name@, name@ + "/"@),
    {
        let other = chars_of(ds[k].name.as_str());
        if starts_with_chars(&other, &prefix) {
            return true;
        }
    }
    false
}

/// How the dataset table names the dataset `name` of the pool `pool`.
pub fn dataset_display_name(name: &String, pool: &String, parent: bool) -> (s: String)
    ensures
        s@ == display_name(name@, pool@, parent),
{
    if *name == *pool {
        let mut cs = chars_of("🏠 ");
        let mut rest = chars_of(name.as_str());
        cs.append(&mut rest);
        return string_of(&cs);
    }
    let nm = chars_of(name.as_str());
    let pl = chars_of(pool.as_str());
    let slash = chars_of("/");
    let after_pool = strip_leading_chars(&nm, &pl);
    let path = strip_leading_chars(&after_pool, &slash);
    let parts = split_on(&path, Sep::Char('/'));
    proof {
        crate::text::lemma_split_by_len(path@, Sep::Char('/'));
    }
    let levels = parts.len() - 1;
    let mut out: Vec<char> = Vec::new();
    let ghost two = "  "@;
    proof {
        reveal_strlit("  ");
        assert(two =~= seq![' ', ' ']);
    }
    let mut i: usize = 0;
    while i < levels
        invariant
            i <= levels,
            two == "  "@,
            two == seq![' ', ' '],
            out@ == repeat(two, i as nat),
        decreases levels - i,
    {
        out.push(' ');
        out.push(' ');
        assert(out@ =~= repeat(two, (i + 1) as nat));
        i += 1;
    }
    let mut conn = if parent {
        chars_of("▼ ")
    } else {
        chars_of("• ")
    };
    out.append(&mut conn);
    let mut leaf = parts[levels].clone();
    assert(leaf@ == views(parts@).last());
    out.append(&mut leaf);
    string_of(&out)
}

/// The dataset and snapshot parts of a snapshot name (`dataset@snapshot`):
/// the first two pieces of the name split at `@`, empty where missing.
pub fn snapshot_parts(name: &String) -> (r: (String, String))
    ensures
        r.0@ == split_char(name@, '@')[0],
        r.1@ == (if split_char(name@, '@').len() > 1 {
            split_char(name@, '@')[1]
        } else {
            Seq::empty()
        }),
{
    let cs = chars_of(name.as_str());
    let parts = split_on(&cs, Sep::Char('@'));
    proof {
        crate::text::lemma_split_by_len(name@, Sep::Char('@'));
    }
    let first = string_of(&parts[0]);
    let second = if parts.len() > 1 {
        string_of(&parts[1])
    } else {
        String::new()
    };
    (first, second)
}

/// The name of the dataset whose snapshots are shown: the selected one (the
/// first where none is selected), or `none`.
pub fn snapshots_title(zfs: &ZfsState) -> (s: String)
    ensures
        ({
            let i = match zfs.dataset_state.selected {
                Some(i) => i,
                None => 0,
            };
            s@ == if i < zfs.datasets@.len() {
                zfs.datasets@[i as int].name@
            } else {
                "none"@
            }
        }),
{
    let i = match zfs.dataset_state.selected() {
        Some(i) => i,
        None => 0,
    };
    if i < zfs.datasets.len() {
        zfs.datasets[i].name.clone()
    } else {
        text_string("none")
    }
}

/// The name of the pool in the title of the scrub view: the selected one, or
/// `No Pool Selected`.
pub fn scrub_pool_label(zfs: &ZfsState) -> (s: String)
    ensures
        s@ == match zfs.pool_state.selected {
            Some(i) => if i < zfs.pools@.len() {
                zfs.pools@[i as int].name@
            } else {
                "No Pool Selected"@
            },
            None => "No Pool Selected"@,
        },
{
    match zfs.pool_state.selected() {
        Some(i) => if i < zfs.pools.len() {
            zfs.pools[i].name.clone()
        } else {
            text_string("No Pool Selected")
        },
        None => text_string("No Pool Selected"),
    }
}

/// The name of the pool in the status view: the selected one (the first
/// where none is selected), or `Unknown`.
pub fn status_pool_label(zfs: &ZfsState) -> (s: String)
    ensures
        ({
            let i = match zfs.pool_state.selected {
                Some(i) => i,
                None => 0,
            };
            s@ == if i < zfs.pools@.len() {
                zfs.pools@[i as int].name@
            } else {
                "Unknown"@
            }
        }),
{
    let i = match zfs.pool_state.selected() {
        Some(i) => i,
        None => 0,
    };
    if i < zfs.pools.len() {
        zfs.pools[i].name.clone()
    } else {
        text_string("Unknown")
    }
}

/// How the dataset table names dataset `k`: as `display_name` gives it
/// below the selected pool (the first where none is selected), or by its
/// full name where there is no such pool.
pub fn dataset_label(zfs: &ZfsState, k: usize) -> (s: String)
    requires
        k < zfs.datasets@.len(),
    ensures
        ({
            let d = zfs.datasets@[k as int];
            let p = match zfs.pool_state.selected {
                Some(i) => i,
                None => 0,
            };
            s@ == if p < zfs.pools@.len() {
                display_name(d.name@, zfs.pools@[p as int].name@, has_children(zfs.datasets@, d.name@))
            } else {
                d.name@
            }
        }),
{
    let p = match zfs.pool_state.selected() {
        Some(i) => i,
        None => 0,
    };
    let d = &zfs.datasets[k];
    if p < zfs.pools.len() {
        let parent = dataset_has_children(&zfs.datasets, &d.name);
        dataset_display_name(&d.name, &zfs.pools[p].name, parent)
    } else {
        d.name.clone()
    }
}

/// How the status view draws a line of the report.
#[derive(PartialEq, Eq, Structural, Clone, Copy, Debug)]
pub enum LineKind {
    /// Names a device that is online.
    Online,
    /// Names a degraded, faulted or offline device.
    Failed,
    /// The `state:` line.
    State,
    /// A `config:` or `pool:` heading.
    Heading,
    /// A device path or name.
    Device,
    Other,
}

/// `char::is_alphanumeric`: alphabetic or numeric in Unicode.
pub uninterp spec fn alphanumeric(c: char) -> bool;

/// `char::is_alphanumeric`. Its contract claims that the result is the
/// Unicode property, which for ASCII holds of the letters and digits alone.
#[verifier::external_body]
fn is_alphanumeric(c: char) -> (b: bool)
    ensures
        b == alphanumeric(c),
        (c as u32) < 128 ==> (b <==> (('a' <= c && c <= 'z') || ('A' <= c && c <= 'Z') || ('0' <= c
            && c <= '9'))),
{
    c.is_alphanumeric()
}

/// A device name: every character alphanumeric or `-`.
pub open spec fn device_like(t: Seq<char>) -> bool {
    forall|i: int| 0 <= i < t.len() ==> alphanumeric(#[trigger] t[i]) || t[i] == '-'
}

/// How a line of the report is drawn, judged on the line trimmed: `ONLINE`
/// first, then a failed state, the `state:` line, the headings, and device
/// lines (a path, or more than two bytes of alphanumerics and dashes).
pub open spec fn line_kind(line: Seq<char>) -> LineKind {
    let t = trim(line);
    if contains(t, "ONLINE"@) {
        LineKind::Online
    } else if contains(t, "DEGRADED"@) || contains(t, "FAULTED"@) || contains(t, "OFFLINE"@) {
        LineKind::Failed
    } else if starts_with(t, "state:"@) {
        LineKind::State
    } else if starts_with(t, "config:"@) || starts_with(t, "pool:"@) {
        LineKind::Heading
    } else if contains(t, "/"@) || ((encode_utf8(t).len() as usize) > 2 && device_like(t)) {
        LineKind::Device
    } else {
        LineKind::Other
    }
}

/// How the status view draws `line`.
pub fn status_line_kind(line: &String) -> (k: LineKind)
    ensures
        k == line_kind(line@),
{
    let cs = chars_of(line.as_str());
    let t = trim_chars(&cs);
    if contains_chars(&t, &chars_of("ONLINE")) {
        return LineKind::Online;
    }
    if contains_chars(&t, &chars_of("DEGRADED")) || contains_chars(&t, &chars_of("FAULTED"))
        || contains_chars(&t, &chars_of("OFFLINE")) {
        return LineKind::Failed;
    }
    if starts_with_chars(&t, &chars_of("state:")) {
        return LineKind::State;
    }
    if starts_with_chars(&t, &chars_of("config:")) || starts_with_chars(&t, &chars_of("pool:")) {
        return LineKind::Heading;
    }
    if contains_chars(&t, &chars_of("/")) {
        return LineKind::Device;
    }
    let ts = string_of(&t);
    let bytes = ts.as_str().len();
    if bytes > 2 {
        let n = t.len();
        let mut all = true;
        for i in 0..n
            invariant
                n == t@.len(),
                all == (forall|j: int| 0 <= j < i ==> alphanumeric(#[trigger] t@[j]) || t@[j] == '-'),
        {
            let ok = is_alphanumeric(t[i]) || t[i] == '-';
            all = all && ok;
        }
        if all {
            return LineKind::Device;
        }
    }
    LineKind::Other
}

/// The `state:` line cut at its first colon: what comes before it, and what
/// comes after it (empty where there is no colon).
pub fn state_line_parts(line: &String) -> (r: (String, String))
    ensures
        r.0@ == before_first(line@, ":"@),
        r.1@ == match find(line@, ":"@) {
            Some(i) => line@.skip(i + 1),
            None => Seq::empty(),
        },
{
    let cs = chars_of(line.as_str());
    let colon = chars_of(":");
    proof {
        reveal_strlit(":");
    }
    let head = before_first_chars(&cs, &colon);
    let n = cs.len();
    let tail = match find_chars(&cs, &colon) {
        Some(i) => {
            proof {
                crate::text::lemma_find_bounds(cs@, colon@);
            }
            let t = crate::text::slice_chars(&cs, i + 1, n);
            assert(t@ =~= line@.skip(i + 1));
            string_of(&t)
        },
        None => String::new(),
    };
    (string_of(&head), tail)
}

} // verus!
