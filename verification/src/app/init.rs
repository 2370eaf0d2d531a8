//! The monitor as it starts.
use vstd::prelude::*;
use crate::app::state::{App, Dialog, Focus, Nav, NetworkSort, NetworkState, Request, SystemState, ZfsState};
use crate::app::system::ARC_HISTORY_LEN;
use crate::docker::DockerState;
use crate::net::Interface;
use crate::selection::Selection;
use crate::text::{chars_of, string_of, text_string, trim, trim_chars};
use crate::zfs::arc::ArcStats;
use crate::zfs::pools::Pool;

verus! {

/// What a tick asks of the host besides fresh ARC statistics and pool
/// counters: a new interface listing, a new container listing, and a fresh
/// report for the selected pool.
pub struct TickPlan {
    pub refresh_network: bool,
    pub refresh_docker: bool,
    pub pool_refresh: Option<Request>,
}

impl App {
    /// The monitor at start: the datasets view with the focus on the pools,
    /// the first row of each table selected (none of the containers), the
    /// ARC history filled with the first hit ratio `arc_sample` (tenths of a
    /// percent), the host name trimmed.
    pub fn new(
        hostname: &str,
        pools: Vec<Pool>,
        interfaces: Vec<Interface>,
        arc: ArcStats,
        arc_sample: u64,
    ) -> (app: App)
        ensures
            app.nav == Nav::Datasets,
            app.focus == Focus::Left,
            app.dialog is Closed,
            app.zfs.pools == pools,
            app.zfs.pool_state.selected == Some(0usize),
            app.zfs.datasets@.len() == 0,
            app.zfs.dataset_state.selected == Some(0usize),
            app.zfs.snapshots@.len() == 0,
            app.zfs.snapshot_state.selected == Some(0usize),
            app.zfs.pool_status@.len() == 0,
            app.zfs.selected_pool is None,
            app.zfs.scrub is None,
            app.zfs.share_state.selected == Some(0usize),
            app.network.interfaces == interfaces,
            app.network.interface_state.selected == Some(0usize),
            app.network.sort == NetworkSort::Name,
            app.docker.containers@.len() == 0,
            app.docker.container_state.selected is None,
            app.system.hostname@ == trim(hostname@),
            app.system.uptime@ == "00:00:00"@,
            app.system.arc == arc,
            app.system.arc_history@ == Seq::new(ARC_HISTORY_LEN as nat, |i: int| arc_sample),
            pools@.len() > 0 ==> app.wf(),
    {
        let mut history: Vec<u64> = Vec::new();
        for i in 0..ARC_HISTORY_LEN
            invariant
                history@ == Seq::new(i as nat, |j: int| arc_sample),
        {
            history.push(arc_sample);
            assert(history@ =~= Seq::new((i + 1) as nat, |j: int| arc_sample));
        }
        let host = trim_chars(&chars_of(hostname));
        App {
            nav: Nav::Datasets,
            focus: Focus::Left,
            dialog: Dialog::Closed,
            zfs: ZfsState {
                pools,
                pool_state: Selection::at(0),
                datasets: Vec::new(),
                dataset_state: Selection::at(0),
                snapshots: Vec::new(),
                snapshot_state: Selection::at(0),
                pool_status: Vec::new(),
                selected_pool: None,
                scrub: None,
                share_state: Selection::at(0),
            },
            network: NetworkState { interfaces, interface_state: Selection::at(0), sort: NetworkSort::Name },
            docker: DockerState { containers: Vec::new(), container_state: Selection::new() },
            system: SystemState {
                hostname: string_of(&host),
                uptime: text_string("00:00:00"),
                arc,
                arc_history: history,
            },
        }
    }

    /// What a tick asks: the interface listing in the network view, the
    /// container listing in the docker view, and for the selected pool its
    /// status report in the pool status view or its scrub status in the
    /// scrub view.
    pub fn tick(&self) -> (plan: TickPlan)
        requires
            self.wf(),
        ensures
            plan.refresh_network == (self.nav == Nav::Network),
            plan.refresh_docker == (self.nav == Nav::Docker),
            plan.pool_refresh == match self.zfs.pool_name() {
                Some(p) => match self.nav {
                    Nav::PoolStatus => Some(Request::PoolStatus { pool: p, remember: false }),
                    Nav::Scrub => Some(Request::Scrub { pool: p, announce: false }),
                    _ => None,
                },
                None => None,
            },
    {
        let pool_refresh = match self.zfs.pool_state.selected() {
            Some(i) => {
                let pool_name = self.zfs.pools[i].name.clone();
                match self.nav {
                    Nav::PoolStatus => Some(Request::PoolStatus { pool: pool_name, remember: false }),
                    Nav::Scrub => Some(Request::Scrub { pool: pool_name, announce: false }),
                    _ => None,
                }
            },
            None => None,
        };
        TickPlan {
            refresh_network: self.nav == Nav::Network,
            refresh_docker: self.nav == Nav::Docker,
            pool_refresh,
        }
    }
}

} // verus!
