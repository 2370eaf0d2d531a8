//! Moving through pools, datasets, shares and snapshots, and what a change
//! of pool asks to load.
use vstd::prelude::*;
use crate::app::state::{Nav, Request, ZfsState};
use crate::selection::{next_index, next_of, previous_index, previous_of, Selection};
use crate::zfs::datasets::Dataset;
use crate::zfs::scrub::ScrubStatus;
use crate::zfs::snapshots::Snapshot;

verus! {

/// The pool after the selected one, wrapping to the first; the first where
/// none is selected.
pub open spec fn next_pool_of(sel: Option<usize>, len: nat) -> usize {
    match sel {
        Some(i) => if i >= len - 1 {
            0
        } else {
            (i + 1) as usize
        },
        None => 0,
    }
}

/// The pool before the selected one, wrapping to the last; the first where
/// none is selected.
pub open spec fn previous_pool_of(sel: Option<usize>, len: nat) -> usize {
    match sel {
        Some(i) => if i == 0 {
            (len - 1) as usize
        } else {
            (i - 1) as usize
        },
        None => 0,
    }
}

/// The snapshot after the selected one, staying on the last.
pub open spec fn next_snapshot_of(sel: Option<usize>, len: nat) -> Option<usize> {
    if len == 0 {
        sel
    } else {
        let i = match sel {
            Some(i) => i,
            None => 0,
        };
        Some(
            if i + 1 <= len - 1 {
                (i + 1) as usize
            } else {
                (len - 1) as usize
            },
        )
    }
}

/// The snapshot before the selected one, staying on the first.
pub open spec fn previous_snapshot_of(sel: Option<usize>, len: nat) -> Option<usize> {
    if len == 0 {
        sel
    } else {
        let i = match sel {
            Some(i) => i,
            None => 0,
        };
        Some(
            if i == 0 {
                0
            } else {
                (i - 1) as usize
            },
        )
    }
}

/// The share after the selected one among `count` shares, wrapping to the first.
pub open spec fn next_share_of(sel: Option<usize>, count: nat) -> Option<usize> {
    if count == 0 {
        sel
    } else {
        let i = match sel {
            Some(i) => i,
            None => 0,
        };
        Some(
            if i >= count - 1 {
                0
            } else {
                (i + 1) as usize
            },
        )
    }
}

/// The share before the selected one among `count` shares, wrapping to the last.
pub open spec fn previous_share_of(sel: Option<usize>, count: nat) -> Option<usize> {
    if count == 0 {
        sel
    } else {
        let i = match sel {
            Some(i) => i,
            None => 0,
        };
        Some(
            if i == 0 {
                (count - 1) as usize
            } else {
                (i - 1) as usize
            },
        )
    }
}

/// The datasets that are shared, in order.
pub open spec fn shares_of(ds: Seq<Dataset>) -> Seq<Dataset> {
    ds.filter(|d: Dataset| d.shared())
}

/// After new datasets are loaded the selection stays where it was, moved
/// onto the last dataset if it was past it; the first where none was
/// selected; none where there are no datasets.
pub open spec fn clamped_dataset(sel: Option<usize>, len: nat) -> Option<usize> {
    if len == 0 {
        None
    } else {
        let i = match sel {
            Some(i) => i,
            None => 0,
        };
        Some(
            if i <= len - 1 {
                i
            } else {
                (len - 1) as usize
            },
        )
    }
}

/// After new snapshots are loaded: none where there are none, the last one
/// where the selection was past the end, else unchanged.
pub open spec fn clamped_snapshot(sel: Option<usize>, len: nat) -> Option<usize> {
    let i = match sel {
        Some(i) => i,
        None => 0,
    };
    if len == 0 {
        None
    } else if i >= len {
        Some((len - 1) as usize)
    } else {
        sel
    }
}

impl ZfsState {
    /// The state that the views rely on: there is a pool and the selected
    /// one exists; no selection stands on the largest index.
    pub open spec fn wf(self) -> bool {
        &&& self.pools@.len() > 0
        &&& self.pool_state.selected matches Some(i) ==> i < self.pools@.len()
        &&& self.dataset_state.selected != Some(usize::MAX)
        &&& self.snapshot_state.selected != Some(usize::MAX)
        &&& self.share_state.selected != Some(usize::MAX)
    }

    /// The selected dataset, where the selection points at one.
    pub open spec fn selected_dataset(self) -> Option<Dataset> {
        match self.dataset_state.selected {
            Some(i) => if i < self.datasets@.len() {
                Some(self.datasets@[i as int])
            } else {
                None
            },
            None => None,
        }
    }

    /// The request that loads the snapshots of the selected dataset.
    pub open spec fn snapshots_request_of(self) -> Option<Request> {
        match self.selected_dataset() {
            Some(d) => Some(Request::Snapshots { dataset: d.name }),
            None => None,
        }
    }

    /// The name of the selected pool.
    pub open spec fn pool_name(self) -> Option<String> {
        match self.pool_state.selected {
            Some(i) => Some(self.pools@[i as int].name),
            None => None,
        }
    }

    /// What showing view `nav` asks once the datasets of the selected pool
    /// are known: the snapshots of the selected dataset, the status report of
    /// the pool (kept as the open pool), or its scrub status.
    pub open spec fn follow_up_of(self, nav: Nav) -> Option<Request> {
        match nav {
            Nav::Snapshots => self.snapshots_request_of(),
            Nav::PoolStatus => match self.pool_name() {
                Some(p) => Some(Request::PoolStatus { pool: p, remember: true }),
                None => None,
            },
            Nav::Scrub => match self.pool_name() {
                Some(p) => Some(Request::Scrub { pool: p, announce: false }),
                None => None,
            },
            _ => None,
        }
    }

    /// What a change of pool asks in view `nav`: the datasets of the selected
    /// pool first, or directly the follow-up where no pool is selected.
    pub open spec fn pool_changed_of(self, nav: Nav) -> Option<Request> {
        match self.pool_name() {
            Some(p) => Some(Request::Datasets { pool: p, then: nav }),
            None => self.follow_up_of(nav),
        }
    }

    /// Selects the next pool, wrapping around.
    pub fn next_pool(&mut self)
        requires
            old(self).wf(),
        ensures
            *final(self) == (ZfsState {
                pool_state: Selection {
                    selected: Some(next_pool_of(old(self).pool_state.selected, old(self).pools@.len())),
                },
                ..*old(self)
            }),
            final(self).wf(),
    {
        let i = match self.pool_state.selected() {
            Some(i) => if i >= self.pools.len() - 1 {
                0
            } else {
                i + 1
            },
            None => 0,
        };
        self.pool_state.select(Some(i));
    }

    /// Selects the previous pool, wrapping around.
    pub fn previous_pool(&mut self)
        requires
            old(self).wf(),
        ensures
            *final(self) == (ZfsState {
                pool_state: Selection {
                    selected: Some(
                        previous_pool_of(old(self).pool_state.selected, old(self).pools@.len()),
                    ),
                },
                ..*old(self)
            }),
            final(self).wf(),
    {
        let i = match self.pool_state.selected() {
            Some(i) => if i == 0 {
                self.pools.len() - 1
            } else {
                i - 1
            },
            None => 0,
        };
        self.pool_state.select(Some(i));
    }

    /// Selects the next dataset, wrapping around.
    pub fn next_dataset(&mut self)
        requires
            old(self).wf(),
        ensures
            *final(self) == (ZfsState {
                dataset_state: Selection {
                    selected: next_of(old(self).dataset_state.selected, old(self).datasets@.len() as usize),
                },
                ..*old(self)
            }),
            final(self).wf(),
    {
        let n = self.datasets.len();
        next_index(&mut self.dataset_state, n);
    }

    /// Selects the previous dataset, wrapping around.
    pub fn previous_dataset(&mut self)
        requires
            old(self).wf(),
        ensures
            *final(self) == (ZfsState {
                dataset_state: Selection {
                    selected: previous_of(
                        old(self).dataset_state.selected,
                        old(self).datasets@.len() as usize,
                    ),
                },
                ..*old(self)
            }),
            final(self).wf(),
    {
        let n = self.datasets.len();
        previous_index(&mut self.dataset_state, n);
    }

    /// The name of the selected dataset, if the selection points at one.
    pub fn selected_dataset_name(&self) -> (r: Option<String>)
        ensures
            r == (match self.selected_dataset() {
                Some(d) => Some(d.name),
                None => None::<String>,
            }),
    {
        match self.dataset_state.selected() {
            Some(i) => if i < self.datasets.len() {
                Some(self.datasets[i].name.clone())
            } else {
                None
            },
            None => None,
        }
    }

    /// How many datasets are shared.
    pub fn shared_count(&self) -> (c: usize)
        ensures
            c == shares_of(self.datasets@).len(),
    {
        let ghost keep = |d: Dataset| d.shared();
        let n = self.datasets.len();
        let mut c: usize = 0;
        assert(self.datasets@.take(0) =~= Seq::<Dataset>::empty());
        proof {
            reveal_with_fuel(Seq::filter, 1);
        }
        for k in 0..n
            invariant
                n == self.datasets@.len(),
                keep == (|d: Dataset| d.shared()),
                c == self.datasets@.take(k as int).filter(keep).len(),
                c <= k,
        {
            proof {
                reveal_with_fuel(Seq::filter, 1);
            }
            assert(self.datasets@.take(k + 1).drop_last() =~= self.datasets@.take(k as int));
            if self.datasets[k].is_shares() {
                c += 1;
            }
        }
        assert(self.datasets@.take(n as int) =~= self.datasets@);
        c
    }

    /// Selects the next shared dataset, wrapping around.
    pub fn next_share(&mut self)
        requires
            old(self).wf(),
        ensures
            *final(self) == (ZfsState {
                share_state: Selection {
                    selected: next_share_of(old(self).share_state.selected, shares_of(old(self).datasets@).len()),
                },
                ..*old(self)
            }),
            final(self).wf(),
    {
        let count = self.shared_count();
        if count == 0 {
            return ;
        }
        let i = match self.share_state.selected() {
            Some(i) => i,
            None => 0,
        };
        let next = if i >= count - 1 {
            0
        } else {
            i + 1
        };
        self.share_state.select(Some(next));
    }

    /// Selects the previous shared dataset, wrapping around.
    pub fn previous_share(&mut self)
        requires
            old(self).wf(),
        ensures
            *final(self) == (ZfsState {
                share_state: Selection {
                    selected: previous_share_of(
                        old(self).share_state.selected,
                        shares_of(old(self).datasets@).len(),
                    ),
                },
                ..*old(self)
            }),
            final(self).wf(),
    {
        let count = self.shared_count();
        if count == 0 {
            return ;
        }
        let i = match self.share_state.selected() {
            Some(i) => i,
            None => 0,
        };
        let prev = if i == 0 {
            count - 1
        } else {
            i - 1
        };
        self.share_state.select(Some(prev));
    }

    /// The selected shared dataset, if the selection points at one.
    pub fn selected_share(&self) -> (r: Option<&Dataset>)
        ensures
            r == (match self.share_state.selected {
                Some(i) => if i < shares_of(self.datasets@).len() {
                    Some(&shares_of(self.datasets@)[i as int])
                } else {
                    None
                },
                None => None,
            }),
    {
        let ghost keep = |d: Dataset| d.shared();
        let want = match self.share_state.selected() {
            Some(i) => i,
            None => {
                return None;
            },
        };
        let n = self.datasets.len();
        let mut seen: usize = 0;
        assert(self.datasets@.take(0) =~= Seq::<Dataset>::empty());
        proof {
            reveal_with_fuel(Seq::filter, 1);
        }
        for k in 0..n
            invariant
                n == self.datasets@.len(),
                keep == (|d: Dataset| d.shared()),
                seen == self.datasets@.take(k as int).filter(keep).len(),
                seen <= want,
                seen <= k,
                self.share_state.selected == Some(want),
        {
            proof {
                reveal_with_fuel(Seq::filter, 1);
            }
            let ghost pre = self.datasets@.take(k as int);
            assert(self.datasets@.take(k + 1).drop_last() =~= pre);
            if self.datasets[k].is_shares() {
                assert(self.datasets@.take(k + 1).filter(keep) == pre.filter(keep).push(self.datasets@[k as int]));
                if seen == want {
                    proof {
                        lemma_filter_prefix(self.datasets@, keep, k + 1);
                        let t = self.datasets@.take(k + 1).filter(keep);
                        assert(t[want as int] == self.datasets@[k as int]);
                        assert(self.datasets@.filter(keep)[want as int] == t[want as int]);
                        assert(shares_of(self.datasets@) == self.datasets@.filter(keep));
                    }
                    return Some(&self.datasets[k]);
                }
                seen += 1;
            }
        }
        assert(self.datasets@.take(n as int) =~= self.datasets@);
        None
    }

    /// Selects the next snapshot, staying on the last.
    pub fn next_snapshot(&mut self)
        requires
            old(self).wf(),
        ensures
            *final(self) == (ZfsState {
                snapshot_state: Selection {
                    selected: next_snapshot_of(old(self).snapshot_state.selected, old(self).snapshots@.len()),
                },
                ..*old(self)
            }),
            final(self).wf(),
    {
        if self.snapshots.len() == 0 {
            return ;
        }
        let i = match self.snapshot_state.selected() {
            Some(i) => i,
            None => 0,
        };
        let last = self.snapshots.len() - 1;
        let next = if i + 1 <= last {
            i + 1
        } else {
            last
        };
        self.snapshot_state.select(Some(next));
    }

    /// Selects the previous snapshot, staying on the first.
    pub fn previous_snapshot(&mut self)
        requires
            old(self).wf(),
        ensures
            *final(self) == (ZfsState {
                snapshot_state: Selection {
                    selected: previous_snapshot_of(
                        old(self).snapshot_state.selected,
                        old(self).snapshots@.len(),
                    ),
                },
                ..*old(self)
            }),
            final(self).wf(),
    {
        if self.snapshots.len() == 0 {
            return ;
        }
        let i = match self.snapshot_state.selected() {
            Some(i) => i,
            None => 0,
        };
        self.snapshot_state.select(Some(i.saturating_sub(1)));
    }

    /// Takes the datasets of the selected pool, as just listed.
    pub fn load_datasets(&mut self, datasets: Vec<Dataset>)
        requires
            old(self).wf(),
        ensures
            *final(self) == (ZfsState {
                datasets: datasets,
                dataset_state: Selection {
                    selected: clamped_dataset(old(self).dataset_state.selected, datasets@.len()),
                },
                ..*old(self)
            }),
            final(self).wf(),
    {
        self.datasets = datasets;
        if self.datasets.len() == 0 {
            self.dataset_state.select(None);
        } else {
            let i = match self.dataset_state.selected() {
                Some(i) => i,
                None => 0,
            };
            let last = self.datasets.len() - 1;
            let i = if i <= last {
                i
            } else {
                last
            };
            self.dataset_state.select(Some(i));
        }
    }

    /// Takes the snapshots of the selected dataset, as just listed.
    pub fn load_snapshots(&mut self, snapshots: Vec<Snapshot>)
        requires
            old(self).wf(),
        ensures
            *final(self) == (ZfsState {
                snapshots: snapshots,
                snapshot_state: Selection {
                    selected: clamped_snapshot(old(self).snapshot_state.selected, snapshots@.len()),
                },
                ..*old(self)
            }),
            final(self).wf(),
    {
        self.snapshots = snapshots;
        let len = self.snapshots.len();
        let selected = match self.snapshot_state.selected() {
            Some(i) => i,
            None => 0,
        };
        if len == 0 {
            self.snapshot_state.select(None);
        } else if selected >= len {
            self.snapshot_state.select(Some(len - 1));
        }
    }

    /// The request that loads the snapshots of the selected dataset, if the
    /// selection points at one.
    pub fn open_snapshots(&self) -> (r: Option<Request>)
        ensures
            r == self.snapshots_request_of(),
    {
        match self.selected_dataset_name() {
            Some(name) => Some(Request::Snapshots { dataset: name }),
            None => None,
        }
    }

    fn selected_pool_name(&self) -> (r: Option<String>)
        requires
            self.wf(),
        ensures
            r == self.pool_name(),
    {
        match self.pool_state.selected() {
            Some(i) => Some(self.pools[i].name.clone()),
            None => None,
        }
    }

    /// The request that reads the status report of the selected pool, which
    /// becomes the open pool.
    pub fn open_selected_pool(&self) -> (r: Option<Request>)
        requires
            self.wf(),
        ensures
            r == (match self.pool_name() {
                Some(p) => Some(Request::PoolStatus { pool: p, remember: true }),
                None => None,
            }),
    {
        match self.selected_pool_name() {
            Some(p) => Some(Request::PoolStatus { pool: p, remember: true }),
            None => None,
        }
    }

    /// The request that reads the scrub status of the selected pool.
    pub fn open_scrub(&self) -> (r: Option<Request>)
        requires
            self.wf(),
        ensures
            r == (match self.pool_name() {
                Some(p) => Some(Request::Scrub { pool: p, announce: false }),
                None => None,
            }),
    {
        match self.selected_pool_name() {
            Some(p) => Some(Request::Scrub { pool: p, announce: false }),
            None => None,
        }
    }

    /// What view `nav` asks once the datasets of the selected pool are known.
    pub fn follow_up(&self, nav: Nav) -> (r: Option<Request>)
        requires
            self.wf(),
        ensures
            r == self.follow_up_of(nav),
    {
        match nav {
            Nav::Snapshots => self.open_snapshots(),
            Nav::PoolStatus => self.open_selected_pool(),
            Nav::Scrub => self.open_scrub(),
            _ => None,
        }
    }

    /// What a change of pool asks in view `nav`: the datasets of the newly
    /// selected pool, then the follow-up of the view.
    pub fn on_pool_changed(&self, nav: Nav) -> (r: Option<Request>)
        requires
            self.wf(),
        ensures
            r == self.pool_changed_of(nav),
    {
        match self.selected_pool_name() {
            Some(p) => Some(Request::Datasets { pool: p, then: nav }),
            None => self.follow_up(nav),
        }
    }

    /// Takes the status report of `pool`; `remember` makes it the open pool.
    pub fn set_pool_status(&mut self, pool: String, remember: bool, lines: Vec<String>)
        ensures
            *final(self) == (ZfsState {
                pool_status: lines,
                selected_pool: if remember {
                    Some(pool)
                } else {
                    old(self).selected_pool
                },
                ..*old(self)
            }),
    {
        self.pool_status = lines;
        if remember {
            self.selected_pool = Some(pool);
        }
    }

    /// Takes the scrub status of the selected pool.
    pub fn set_scrub(&mut self, status: Option<ScrubStatus>)
        ensures
            *final(self) == (ZfsState { scrub: status, ..*old(self) }),
    {
        self.scrub = status;
    }
}

/// Once `k` items of `s` are kept, the `m`-th kept item is the same in `s`.
proof fn lemma_filter_prefix(s: Seq<Dataset>, keep: spec_fn(Dataset) -> bool, k: int)
    requires
        0 <= k <= s.len(),
    ensures
        s.take(k).filter(keep).len() <= s.filter(keep).len(),
        forall|m: int| 0 <= m < s.take(k).filter(keep).len() ==> #[trigger] s.filter(keep)[m]
            == s.take(k).filter(keep)[m],
    decreases s.len() - k,
{
    if k < s.len() {
        lemma_filter_prefix(s, keep, k + 1);
        reveal_with_fuel(Seq::filter, 1);
        assert(s.take(k + 1).drop_last() =~= s.take(k));
    } else {
        assert(s.take(k) =~= s);
    }
}

/// A request that reads the scrub status and announces a started scrub.
pub open spec fn announces_scrub(r: Option<Request>) -> bool {
    r matches Some(Request::Scrub { announce: true, .. })
}

/// A change of pool never announces a scrub, in any view: in the scrub view
/// it reads the scrub status of the selected pool quietly, as opening the
/// view does.
pub proof fn lemma_pool_change_never_announces(z: ZfsState, nav: Nav)
    ensures
        !announces_scrub(z.follow_up_of(nav)),
        !announces_scrub(z.pool_changed_of(nav)),
        z.follow_up_of(Nav::Scrub) == (match z.pool_name() {
            Some(p) => Some(Request::Scrub { pool: p, announce: false }),
            None => None::<Request>,
        }),
{
}

/// Every request that showing a view after a change of pool makes is about
/// what is selected: the snapshots of the selected dataset, the status report
/// of the selected pool (which becomes the open pool), the scrub status of
/// the selected pool; and the change itself first lists the datasets of the
/// selected pool, for the view it happens in.
pub proof fn lemma_pool_change_concerns_selection(z: ZfsState, nav: Nav)
    ensures
        z.follow_up_of(nav) matches Some(Request::Snapshots { dataset }) ==> (nav == Nav::Snapshots
            && (z.selected_dataset() matches Some(d) && d.name == dataset)),
        z.follow_up_of(nav) matches Some(Request::PoolStatus { pool, remember }) ==> nav == Nav::PoolStatus
            && remember && z.pool_name() == Some(pool),
        z.follow_up_of(nav) matches Some(Request::Scrub { pool, .. }) ==> nav == Nav::Scrub
            && z.pool_name() == Some(pool),
        !(z.follow_up_of(nav) matches Some(Request::Datasets { .. })),
        !(z.follow_up_of(nav) matches Some(Request::Run { .. })),
        z.pool_name() matches Some(p) ==> z.pool_changed_of(nav) == Some(Request::Datasets { pool: p, then: nav }),
        z.pool_name() is None ==> z.pool_changed_of(nav) == z.follow_up_of(nav),
{
}

} // verus!
