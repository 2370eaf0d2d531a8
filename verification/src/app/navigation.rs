//! Switching between views, and moving in the pane that has the focus.
use vstd::prelude::*;
use crate::app::state::{App, Focus, Nav, Request, ZfsState};
use crate::selection::{next_of, previous_of, Selection};
use crate::app::zfs::{
    next_pool_of, next_share_of, next_snapshot_of, previous_pool_of, previous_share_of,
    previous_snapshot_of, shares_of,
};

verus! {

/// The view after `n` in the order Datasets, Snapshots, Pool status,
/// Network, Scrub, Shares, back to Datasets; Docker stays.
pub open spec fn next_nav_of(n: Nav) -> Nav {
    match n {
        Nav::Datasets => Nav::Snapshots,
        Nav::Snapshots => Nav::PoolStatus,
        Nav::PoolStatus => Nav::Network,
        Nav::Network => Nav::Scrub,
        Nav::Scrub => Nav::Shares,
        Nav::Shares => Nav::Datasets,
        Nav::Docker => Nav::Docker,
    }
}

/// The view before `n` in that order.
pub open spec fn prev_nav_of(n: Nav) -> Nav {
    match n {
        Nav::Datasets => Nav::Shares,
        Nav::Snapshots => Nav::Datasets,
        Nav::PoolStatus => Nav::Snapshots,
        Nav::Network => Nav::PoolStatus,
        Nav::Scrub => Nav::Network,
        Nav::Shares => Nav::Scrub,
        Nav::Docker => Nav::Docker,
    }
}

/// Going to the next view and back, or back and then on, returns to the view.
pub proof fn lemma_nav_cycle(n: Nav)
    ensures
        prev_nav_of(next_nav_of(n)) == n,
        next_nav_of(prev_nav_of(n)) == n,
{
}

/// Six steps forward come back to the view.
pub proof fn lemma_nav_period(n: Nav)
    ensures
        next_nav_of(next_nav_of(next_nav_of(next_nav_of(next_nav_of(next_nav_of(n)))))) == n,
{
}

/// The pane that the keys move in when the focus is on the right.
pub enum ActiveView {
    Datasets,
    Snapshots,
    Network,
    Shares,
    Docker,
    PoolStatus,
    Scrub,
}

pub open spec fn active_view_of(n: Nav) -> ActiveView {
    match n {
        Nav::Datasets => ActiveView::Datasets,
        Nav::Snapshots => ActiveView::Snapshots,
        Nav::Network => ActiveView::Network,
        Nav::Shares => ActiveView::Shares,
        Nav::Docker => ActiveView::Docker,
        Nav::PoolStatus => ActiveView::PoolStatus,
        Nav::Scrub => ActiveView::Scrub,
    }
}

/// Moving up in the view: the previous dataset, snapshot, interface, share
/// or container; nothing in the pool status and scrub views.
pub open spec fn view_up(a: App) -> App {
    match a.nav {
        Nav::Datasets => App {
            zfs: ZfsState {
                dataset_state: Selection {
                    selected: previous_of(a.zfs.dataset_state.selected, a.zfs.datasets@.len() as usize),
                },
                ..a.zfs
            },
            ..a
        },
        Nav::Snapshots => App {
            zfs: ZfsState {
                snapshot_state: Selection {
                    selected: previous_snapshot_of(a.zfs.snapshot_state.selected, a.zfs.snapshots@.len()),
                },
                ..a.zfs
            },
            ..a
        },
        Nav::Network => App {
            network: crate::app::state::NetworkState {
                interface_state: Selection {
                    selected: previous_of(
                        a.network.interface_state.selected,
                        a.network.interfaces@.len() as usize,
                    ),
                },
                ..a.network
            },
            ..a
        },
        Nav::Shares => App {
            zfs: ZfsState {
                share_state: Selection {
                    selected: previous_share_of(a.zfs.share_state.selected, shares_of(a.zfs.datasets@).len()),
                },
                ..a.zfs
            },
            ..a
        },
        Nav::Docker => App {
            docker: crate::docker::DockerState {
                container_state: Selection {
                    selected: previous_of(
                        a.docker.container_state.selected,
                        a.docker.containers@.len() as usize,
                    ),
                },
                ..a.docker
            },
            ..a
        },
        _ => a,
    }
}

/// Moving down in the view.
pub open spec fn view_down(a: App) -> App {
    match a.nav {
        Nav::Datasets => App {
            zfs: ZfsState {
                dataset_state: Selection {
                    selected: next_of(a.zfs.dataset_state.selected, a.zfs.datasets@.len() as usize),
                },
                ..a.zfs
            },
            ..a
        },
        Nav::Snapshots => App {
            zfs: ZfsState {
                snapshot_state: Selection {
                    selected: next_snapshot_of(a.zfs.snapshot_state.selected, a.zfs.snapshots@.len()),
                },
                ..a.zfs
            },
            ..a
        },
        Nav::Network => App {
            network: crate::app::state::NetworkState {
                interface_state: Selection {
                    selected: next_of(a.network.interface_state.selected, a.network.interfaces@.len() as usize),
                },
                ..a.network
            },
            ..a
        },
        Nav::Shares => App {
            zfs: ZfsState {
                share_state: Selection {
                    selected: next_share_of(a.zfs.share_state.selected, shares_of(a.zfs.datasets@).len()),
                },
                ..a.zfs
            },
            ..a
        },
        Nav::Docker => App {
            docker: crate::docker::DockerState {
                container_state: Selection {
                    selected: next_of(a.docker.container_state.selected, a.docker.containers@.len() as usize),
                },
                ..a.docker
            },
            ..a
        },
        _ => a,
    }
}

/// The pools pane with the previous pool selected.
pub open spec fn with_previous_pool(a: App) -> App {
    App {
        zfs: ZfsState {
            pool_state: Selection {
                selected: Some(previous_pool_of(a.zfs.pool_state.selected, a.zfs.pools@.len())),
            },
            ..a.zfs
        },
        ..a
    }
}

/// The pools pane with the next pool selected.
pub open spec fn with_next_pool(a: App) -> App {
    App {
        zfs: ZfsState {
            pool_state: Selection {
                selected: Some(next_pool_of(a.zfs.pool_state.selected, a.zfs.pools@.len())),
            },
            ..a.zfs
        },
        ..a
    }
}

/// The up key: the previous pool (and what the change of pool asks) with the
/// focus on the left, else a move up in the view.
pub open spec fn up_step(a: App) -> (App, Option<Request>) {
    match a.focus {
        Focus::Left => (with_previous_pool(a), with_previous_pool(a).zfs.pool_changed_of(a.nav)),
        Focus::Right => (view_up(a), None),
    }
}

/// The down key, likewise.
pub open spec fn down_step(a: App) -> (App, Option<Request>) {
    match a.focus {
        Focus::Left => (with_next_pool(a), with_next_pool(a).zfs.pool_changed_of(a.nav)),
        Focus::Right => (view_down(a), None),
    }
}

impl ActiveView {
    /// Moves up in the view.
    pub fn handle_up(self, app: &mut App)
        requires
            old(app).wf(),
            self == active_view_of(old(app).nav),
        ensures
            *final(app) == view_up(*old(app)),
            final(app).wf(),
    {
        match self {
            ActiveView::Datasets => app.zfs.previous_dataset(),
            ActiveView::Snapshots => app.zfs.previous_snapshot(),
            ActiveView::Network => app.network.previous_interface(),
            ActiveView::Shares => app.zfs.previous_share(),
            ActiveView::Docker => app.docker.previous_container(),
            _ => {},
        }
    }

    /// Moves down in the view.
    pub fn handle_down(self, app: &mut App)
        requires
            old(app).wf(),
            self == active_view_of(old(app).nav),
        ensures
            *final(app) == view_down(*old(app)),
            final(app).wf(),
    {
        match self {
            ActiveView::Datasets => app.zfs.next_dataset(),
            ActiveView::Snapshots => app.zfs.next_snapshot(),
            ActiveView::Network => app.network.next_interface(),
            ActiveView::Shares => app.zfs.next_share(),
            ActiveView::Docker => app.docker.next_container(),
            _ => {},
        }
    }
}

impl App {
    /// The monitor is in a usable state: the pools pane is, and no selection
    /// stands on the largest index.
    pub open spec fn wf(self) -> bool {
        &&& self.zfs.wf()
        &&& self.network.interface_state.selected != Some(usize::MAX)
        &&& self.docker.container_state.selected != Some(usize::MAX)
    }

    /// The pane that the keys move in with the focus on the right.
    pub fn active_view(&self) -> (v: ActiveView)
        ensures
            v == active_view_of(self.nav),
    {
        match self.nav {
            Nav::Datasets => ActiveView::Datasets,
            Nav::Snapshots => ActiveView::Snapshots,
            Nav::Network => ActiveView::Network,
            Nav::Shares => ActiveView::Shares,
            Nav::Docker => ActiveView::Docker,
            Nav::PoolStatus => ActiveView::PoolStatus,
            Nav::Scrub => ActiveView::Scrub,
        }
    }

    /// Shows the next view.
    pub fn next_nav(&mut self)
        ensures
            *final(self) == (App { nav: next_nav_of(old(self).nav), ..*old(self) }),
    {
        self.nav = match self.nav {
            Nav::Datasets => Nav::Snapshots,
            Nav::Snapshots => Nav::PoolStatus,
            Nav::PoolStatus => Nav::Network,
            Nav::Network => Nav::Scrub,
            Nav::Scrub => Nav::Shares,
            Nav::Shares => Nav::Datasets,
            Nav::Docker => Nav::Docker,
        };
    }

    /// Shows the previous view.
    pub fn prev_nav(&mut self)
        ensures
            *final(self) == (App { nav: prev_nav_of(old(self).nav), ..*old(self) }),
    {
        self.nav = match self.nav {
            Nav::Datasets => Nav::Shares,
            Nav::Snapshots => Nav::Datasets,
            Nav::PoolStatus => Nav::Snapshots,
            Nav::Network => Nav::PoolStatus,
            Nav::Scrub => Nav::Network,
            Nav::Shares => Nav::Scrub,
            Nav::Docker => Nav::Docker,
        };
    }

    /// Goes back to the datasets view.
    pub fn back(&mut self)
        ensures
            *final(self) == (App { nav: Nav::Datasets, ..*old(self) }),
    {
        self.nav = Nav::Datasets;
    }

    /// The up key: with the focus on the pools, the previous pool, answered
    /// by the request that the change of pool makes; else a move up in the view.
    pub fn handle_up(&mut self) -> (r: Option<Request>)
        requires
            old(self).wf(),
        ensures
            (*final(self), r) == up_step(*old(self)),
            final(self).wf(),
    {
        match self.focus {
            Focus::Left => {
                self.zfs.previous_pool();
                self.zfs.on_pool_changed(self.nav)
            },
            Focus::Right => {
                let v = self.active_view();
                v.handle_up(self);
                None
            },
        }
    }

    /// The down key, likewise.
    pub fn handle_down(&mut self) -> (r: Option<Request>)
        requires
            old(self).wf(),
        ensures
            (*final(self), r) == down_step(*old(self)),
            final(self).wf(),
    {
        match self.focus {
            Focus::Left => {
                self.zfs.next_pool();
                self.zfs.on_pool_changed(self.nav)
            },
            Focus::Right => {
                let v = self.active_view();
                v.handle_down(self);
                None
            },
        }
    }
}

} // verus!
