//! Pools: the `zpool list` table and the per-pool I/O counters.
use vstd::prelude::*;
use crate::text::{words, lines, parse_u64_or_zero, views, chars_of, string_of, split_words, parse_u64_chars, split_lines};
use crate::zfs::kstat::{kstat_value, kstat_values};

verus! {

/// Cumulative bytes read and written by a pool.
pub struct PoolIO {
    pub read_bytes: u64,
    pub write_bytes: u64,
}

/// How many samples of throughput a pool keeps.
pub const IO_HISTORY_LEN: usize = 60;

/// The shortest time, in nanoseconds, between two throughput samples.
pub const MIN_SAMPLE_NANOS: u64 = 100_000_000;

/// A pool as `zpool list` shows it, with its recent throughput.
///
/// `last_update` is a reading, in nanoseconds, of a monotonic clock.
pub struct Pool {
    pub name: String,
    pub health: String,
    pub size: u64,
    pub alloc: u64,
    pub read_bps: u64,
    pub write_bps: u64,
    pub last_read: u64,
    pub last_write: u64,
    pub read_history: Vec<u64>,
    pub write_history: Vec<u64>,
    pub last_update: u64,
}

/// A line of `zpool list -H -p -o name,health,size,alloc` has at least the
/// four columns.
pub open spec fn pool_line_complete(line: Seq<char>) -> bool {
    words(line).len() >= 4
}

pub open spec fn pool_output_complete(text: Seq<char>) -> bool {
    forall|k: int| 0 <= k < lines(text).len() ==> pool_line_complete(#[trigger] lines(text)[k])
}

/// The pool that a line of `zpool list` describes, first seen at `now`.
pub open spec fn pool_from_line(p: Pool, line: Seq<char>, now: u64) -> bool {
    let w = words(line);
    &&& p.name@ == w[0]
    &&& p.health@ == w[1]
    &&& p.size == parse_u64_or_zero(w[2])
    &&& p.alloc == parse_u64_or_zero(w[3])
    &&& p.read_bps == 0
    &&& p.write_bps == 0
    &&& p.last_read == 0
    &&& p.last_write == 0
    &&& p.read_history@.len() == 0
    &&& p.write_history@.len() == 0
    &&& p.last_update == now
}

/// Whether every line of the output has the four columns that
/// `parse_pool_list` reads.
pub fn pool_list_complete(text: &str) -> (b: bool)
    ensures
        b == pool_output_complete(text@),
{
    let cs = chars_of(text);
    let ls = split_lines(&cs);
    let n = ls.len();
    for k in 0..n
        invariant
            n == ls@.len(),
            views(ls@) == lines(text@),
            forall|j: int| 0 <= j < k ==> pool_line_complete(#[trigger] lines(text@)[j]),
    {
        let w = split_words(&ls[k]);
        assert(ls@[k as int]@ == lines(text@)[k as int]);
        if w.len() < 4 {
            return false;
        }
    }
    true
}

/// The pools of `zpool list -H -p -o name,health,size,alloc`, one per line,
/// in order; a size that does not parse counts as 0.
pub fn parse_pool_list(text: &str, now: u64) -> (pools: Vec<Pool>)
    requires
        pool_output_complete(text@),
    ensures
        pools@.len() == lines(text@).len(),
        forall|k: int| 0 <= k < pools@.len() ==> pool_from_line(#[trigger] pools@[k], lines(text@)[k], now),
{
    let cs = chars_of(text);
    let ls = split_lines(&cs);
    let n = ls.len();
    let mut pools: Vec<Pool> = Vec::new();
    for k in 0..n
        invariant
            n == ls@.len(),
            views(ls@) == lines(text@),
            pool_output_complete(text@),
            pools@.len() == k,
            forall|j: int| 0 <= j < k ==> pool_from_line(#[trigger] pools@[j], lines(text@)[j], now),
    {
        assert(ls@[k as int]@ == lines(text@)[k as int]);
        assert(pool_line_complete(lines(text@)[k as int]));
        let w = split_words(&ls[k]);
        assert(w@[0]@ == words(ls@[k as int]@)[0]);
        assert(w@[1]@ == words(ls@[k as int]@)[1]);
        assert(w@[2]@ == words(ls@[k as int]@)[2]);
        assert(w@[3]@ == words(ls@[k as int]@)[3]);
        let size = match parse_u64_chars(&w[2]) {
            Some(v) => v,
            None => 0,
        };
        let alloc = match parse_u64_chars(&w[3]) {
            Some(v) => v,
            None => 0,
        };
        let p = Pool {
            name: string_of(&w[0]),
            health: string_of(&w[1]),
            size,
            alloc,
            read_bps: 0,
            write_bps: 0,
            last_read: 0,
            last_write: 0,
            read_history: Vec::new(),
            write_history: Vec::new(),
            last_update: now,
        };
        pools.push(p);
    }
    pools
}

/// The counters that the pool's `iostats` table gives: the cached and the
/// direct bytes, read and written.
pub open spec fn arc_read_of(text: Seq<char>) -> u64 {
    kstat_value(lines(text), "arc_read_bytes"@)
}

pub open spec fn arc_write_of(text: Seq<char>) -> u64 {
    kstat_value(lines(text), "arc_write_bytes"@)
}

pub open spec fn direct_read_of(text: Seq<char>) -> u64 {
    kstat_value(lines(text), "direct_read_bytes"@)
}

pub open spec fn direct_write_of(text: Seq<char>) -> u64 {
    kstat_value(lines(text), "direct_write_bytes"@)
}

/// The I/O counters of a pool from its `iostats` table: bytes read are the
/// cached and the direct reads together, and so for writes. `None` where a
/// total does not fit in a `u64`.
pub fn parse_pool_counters(text: &str) -> (io: Option<PoolIO>)
    ensures
        io is Some <==> arc_read_of(text@) + direct_read_of(text@) <= u64::MAX
            && arc_write_of(text@) + direct_write_of(text@) <= u64::MAX,
        io matches Some(c) ==> c.read_bytes == arc_read_of(text@) + direct_read_of(text@)
            && c.write_bytes == arc_write_of(text@) + direct_write_of(text@),
{
    let mut keys: Vec<Vec<char>> = Vec::new();
    keys.push(chars_of("arc_read_bytes"));
    keys.push(chars_of("arc_write_bytes"));
    keys.push(chars_of("direct_read_bytes"));
    keys.push(chars_of("direct_write_bytes"));
    let vals = kstat_values(text, &keys);
    assert(vals@[0] == arc_read_of(text@));
    assert(vals@[1] == arc_write_of(text@));
    assert(vals@[2] == direct_read_of(text@));
    assert(vals@[3] == direct_write_of(text@));
    match (vals[0].checked_add(vals[2]), vals[1].checked_add(vals[3])) {
        (Some(r), Some(w)) => Some(PoolIO { read_bytes: r, write_bytes: w }),
        _ => None,
    }
}

/// Nanoseconds from `last` to `now` on a monotonic clock; 0 where `now` is
/// not later (`Instant::duration_since` saturates).
pub open spec fn elapsed(last: u64, now: u64) -> u64 {
    if now >= last {
        (now - last) as u64
    } else {
        0
    }
}

/// `h` with `x` appended, the oldest sample dropped once more than `cap` are held.
pub open spec fn push_capped(h: Seq<u64>, x: u64, cap: nat) -> Seq<u64> {
    if h.push(x).len() > cap {
        h.push(x).drop_first()
    } else {
        h.push(x)
    }
}

/// Appends `x` to `h`, dropping the oldest sample once more than `cap` are held.
pub fn push_sample(h: &mut Vec<u64>, x: u64, cap: usize)
    ensures
        final(h)@ == push_capped(old(h)@, x, cap as nat),
{
    h.push(x);
    if h.len() > cap {
        h.remove(0);
        assert(final(h)@ =~= old(h)@.push(x).drop_first());
    }
}

/// Throughput figures for one sample: bytes per second read and written, and
/// the smoothed values that the history records.
pub struct IoRates {
    pub read_bps: u64,
    pub write_bps: u64,
    pub read_smoothed: u64,
    pub write_smoothed: u64,
}

impl Pool {
    /// Nanoseconds since the last sample, at `now`.
    pub fn elapsed_nanos(&self, now: u64) -> (e: u64)
        ensures
            e == elapsed(self.last_update, now),
    {
        if now >= self.last_update {
            now - self.last_update
        } else {
            0
        }
    }

    /// Whether a new sample is due at `now`: at least 100 ms have passed.
    pub fn sample_due(&self, now: u64) -> (b: bool)
        ensures
            b == (elapsed(self.last_update, now) >= MIN_SAMPLE_NANOS),
    {
        self.elapsed_nanos(now) >= MIN_SAMPLE_NANOS
    }

    /// Bytes read and written since the last sample; a counter that went
    /// back counts as no bytes.
    pub fn io_deltas(&self, counters: &PoolIO) -> (d: (u64, u64))
        ensures
            d.0 == (if counters.read_bytes >= self.last_read {
                counters.read_bytes - self.last_read
            } else {
                0
            }),
            d.1 == (if counters.write_bytes >= self.last_write {
                counters.write_bytes - self.last_write
            } else {
                0
            }),
    {
        (counters.read_bytes.saturating_sub(self.last_read), counters.write_bytes.saturating_sub(
            self.last_write,
        ))
    }

    /// Records a throughput sample taken at `now` from `counters`. Less than
    /// 100 ms after the last sample nothing changes; otherwise the rates are
    /// kept, the smoothed values join the histories (which hold at most 60
    /// samples), and the counters and time become the new reference.
    pub fn update_io(&mut self, counters: PoolIO, now: u64, rates: IoRates)
        ensures
            elapsed(old(self).last_update, now) < MIN_SAMPLE_NANOS ==> *final(self) == *old(self),
            elapsed(old(self).last_update, now) >= MIN_SAMPLE_NANOS ==> {
                &&& final(self).name == old(self).name
                &&& final(self).health == old(self).health
                &&& final(self).size == old(self).size
                &&& final(self).alloc == old(self).alloc
                &&& final(self).read_bps == rates.read_bps
                &&& final(self).write_bps == rates.write_bps
                &&& final(self).read_history@ == push_capped(
                    old(self).read_history@,
                    rates.read_smoothed,
                    IO_HISTORY_LEN as nat,
                )
                &&& final(self).write_history@ == push_capped(
                    old(self).write_history@,
                    rates.write_smoothed,
                    IO_HISTORY_LEN as nat,
                )
                &&& final(self).last_read == counters.read_bytes
                &&& final(self).last_write == counters.write_bytes
                &&& final(self).last_update == now
            },
    {
        if !self.sample_due(now) {
            return ;
        }
        self.read_bps = rates.read_bps;
        self.write_bps = rates.write_bps;
        push_sample(&mut self.read_history, rates.read_smoothed, IO_HISTORY_LEN);
        push_sample(&mut self.write_history, rates.write_smoothed, IO_HISTORY_LEN);
        self.last_read = counters.read_bytes;
        self.last_write = counters.write_bytes;
        self.last_update = now;
    }
}

} // verus!
