//! The ARC cache statistics (`/proc/spl/kstat/zfs/arcstats`).
use vstd::prelude::*;
use crate::text::{lines, chars_of};
use crate::zfs::kstat::{kstat_value, kstat_values, lemma_table_gives, table_gives};

verus! {

#[derive(Clone, Copy)]
pub struct ArcStats {
    pub size: u64,
    pub max: u64,
    pub hits: u64,
    pub misses: u64,
    pub demand_data_hits: u64,
    pub demand_metadata_hits: u64,
    pub prefetch_data_hits: u64,
    pub prefetch_metadata_hits: u64,
}

impl Default for ArcStats {
    fn default() -> (s: Self)
        ensures
            s == (ArcStats {
                size: 0,
                max: 0,
                hits: 0,
                misses: 0,
                demand_data_hits: 0,
                demand_metadata_hits: 0,
                prefetch_data_hits: 0,
                prefetch_metadata_hits: 0,
            }),
    {
        ArcStats {
            size: 0,
            max: 0,
            hits: 0,
            misses: 0,
            demand_data_hits: 0,
            demand_metadata_hits: 0,
            prefetch_data_hits: 0,
            prefetch_metadata_hits: 0,
        }
    }
}

impl ArcStats {
    /// The four kinds of hits together.
    pub open spec fn spec_breakdown_total(self) -> int {
        self.demand_data_hits + self.demand_metadata_hits + self.prefetch_data_hits
            + self.prefetch_metadata_hits
    }

    /// The hits of the four kinds together.
    pub fn breakdown_total(&self) -> (t: u64)
        requires
            self.spec_breakdown_total() <= u64::MAX,
        ensures
            t == self.spec_breakdown_total(),
    {
        self.demand_data_hits + self.demand_metadata_hits + self.prefetch_data_hits
            + self.prefetch_metadata_hits
    }
}

/// The statistics that the `arcstats` table gives: each field is the value
/// of its line (`size`, `c_max`, `hits`, `misses`, `demand_data_hits`,
/// `demand_metadata_hits`, `prefetch_data_hits`, `prefetch_metadata_hits`).
pub open spec fn arc_stats_of(text: Seq<char>) -> ArcStats {
    let ls = lines(text);
    ArcStats {
        size: kstat_value(ls, "size"@),
        max: kstat_value(ls, "c_max"@),
        hits: kstat_value(ls, "hits"@),
        misses: kstat_value(ls, "misses"@),
        demand_data_hits: kstat_value(ls, "demand_data_hits"@),
        demand_metadata_hits: kstat_value(ls, "demand_metadata_hits"@),
        prefetch_data_hits: kstat_value(ls, "prefetch_data_hits"@),
        prefetch_metadata_hits: kstat_value(ls, "prefetch_metadata_hits"@),
    }
}

/// Each statistic is the value of the line that carries its own name:
/// `demand_data_hits` that of the last `demand_data_hits` line, and so on.
pub proof fn lemma_arc_fields_from_their_lines(text: Seq<char>)
    ensures
        table_gives(lines(text), "size"@, arc_stats_of(text).size),
        table_gives(lines(text), "c_max"@, arc_stats_of(text).max),
        table_gives(lines(text), "hits"@, arc_stats_of(text).hits),
        table_gives(lines(text), "misses"@, arc_stats_of(text).misses),
        table_gives(lines(text), "demand_data_hits"@, arc_stats_of(text).demand_data_hits),
        table_gives(lines(text), "demand_metadata_hits"@, arc_stats_of(text).demand_metadata_hits),
        table_gives(lines(text), "prefetch_data_hits"@, arc_stats_of(text).prefetch_data_hits),
        table_gives(lines(text), "prefetch_metadata_hits"@, arc_stats_of(text).prefetch_metadata_hits),
{
    let ls = lines(text);
    lemma_table_gives(ls, "size"@);
    lemma_table_gives(ls, "c_max"@);
    lemma_table_gives(ls, "hits"@);
    lemma_table_gives(ls, "misses"@);
    lemma_table_gives(ls, "demand_data_hits"@);
    lemma_table_gives(ls, "demand_metadata_hits"@);
    lemma_table_gives(ls, "prefetch_data_hits"@);
    lemma_table_gives(ls, "prefetch_metadata_hits"@);
}

/// The ARC statistics in the text of the `arcstats` table.
pub fn parse_arc_stats(text: &str) -> (stats: ArcStats)
    ensures
        stats == arc_stats_of(text@),
        table_gives(lines(text@), "size"@, stats.size),
        table_gives(lines(text@), "c_max"@, stats.max),
        table_gives(lines(text@), "hits"@, stats.hits),
        table_gives(lines(text@), "misses"@, stats.misses),
        table_gives(lines(text@), "demand_data_hits"@, stats.demand_data_hits),
        table_gives(lines(text@), "demand_metadata_hits"@, stats.demand_metadata_hits),
        table_gives(lines(text@), "prefetch_data_hits"@, stats.prefetch_data_hits),
        table_gives(lines(text@), "prefetch_metadata_hits"@, stats.prefetch_metadata_hits),
{
    proof {
        lemma_arc_fields_from_their_lines(text@);
    }
    let mut keys: Vec<Vec<char>> = Vec::new();
    keys.push(chars_of("size"));
    keys.push(chars_of("c_max"));
    keys.push(chars_of("hits"));
    keys.push(chars_of("misses"));
    keys.push(chars_of("demand_data_hits"));
    keys.push(chars_of("demand_metadata_hits"));
    keys.push(chars_of("prefetch_data_hits"));
    keys.push(chars_of("prefetch_metadata_hits"));
    let v = kstat_values(text, &keys);
    assert(v@[0] == kstat_value(lines(text@), keys@[0]@));
    assert(v@[1] == kstat_value(lines(text@), keys@[1]@));
    assert(v@[2] == kstat_value(lines(text@), keys@[2]@));
    assert(v@[3] == kstat_value(lines(text@), keys@[3]@));
    assert(v@[4] == kstat_value(lines(text@), keys@[4]@));
    assert(v@[5] == kstat_value(lines(text@), keys@[5]@));
    assert(v@[6] == kstat_value(lines(text@), keys@[6]@));
    assert(v@[7] == kstat_value(lines(text@), keys@[7]@));
    ArcStats {
        size: v[0],
        max: v[1],
        hits: v[2],
        misses: v[3],
        demand_data_hits: v[4],
        demand_metadata_hits: v[5],
        prefetch_data_hits: v[6],
        prefetch_metadata_hits: v[7],
    }
}

} // verus!
