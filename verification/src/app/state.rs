//! The state of the monitor and the work that it asks of its host.
use vstd::prelude::*;
use crate::docker::DockerState;
use crate::net::Interface;
use crate::selection::Selection;
use crate::zfs::arc::ArcStats;
use crate::zfs::datasets::Dataset;
use crate::zfs::pools::Pool;
use crate::zfs::scrub::ScrubStatus;
use crate::zfs::snapshots::Snapshot;

verus! {

pub struct App {
    pub nav: Nav,
    pub focus: Focus,
    pub dialog: Dialog,
    pub zfs: ZfsState,
    pub network: NetworkState,
    pub docker: DockerState,
    pub system: SystemState,
}

pub struct ZfsState {
    pub pools: Vec<Pool>,
    pub pool_state: Selection,
    pub datasets: Vec<Dataset>,
    pub dataset_state: Selection,
    pub snapshots: Vec<Snapshot>,
    pub snapshot_state: Selection,
    pub pool_status: Vec<String>,
    pub selected_pool: Option<String>,
    pub scrub: Option<ScrubStatus>,
    pub share_state: Selection,
}

pub struct NetworkState {
    pub interfaces: Vec<Interface>,
    pub interface_state: Selection,
    pub sort: NetworkSort,
}

pub struct SystemState {
    pub hostname: String,
    pub uptime: String,
    pub arc: ArcStats,
    /// Hit ratios in tenths of a percent, oldest first.
    pub arc_history: Vec<u64>,
}

/// Which pane the arrow keys move in: the pools, or the view beside them.
#[derive(PartialEq, Eq, Structural, Clone, Copy, Debug)]
pub enum Focus {
    Left,
    Right,
}

/// The view beside the pools.
#[derive(PartialEq, Eq, Structural, Clone, Copy, Debug)]
pub enum Nav {
    Datasets,
    PoolStatus,
    Snapshots,
    Scrub,
    Shares,
    Network,
    Docker,
}

/// The order of the interface table.
#[derive(PartialEq, Eq, Structural, Clone, Copy, Debug)]
pub enum NetworkSort {
    Name,
    State,
    Mtu,
}

/// What a line of input is for, once confirmed.
pub enum InputPurpose {
    /// A snapshot of this dataset, named by the input.
    NewSnapshot { dataset: String },
    /// This dataset, renamed to the input.
    RenameDataset { old_name: String },
}

/// The dialog over the views; `Closed` when there is none.
pub enum Dialog {
    Closed,
    Input { title: String, label: String, buffer: String, purpose: InputPurpose },
    Confirm { title: String, message: String, action: Action },
    Error { title: String, message: String },
    Info { title: String, message: String },
}

/// What a dialog shows, as plain values.
pub enum DialogView {
    Closed,
    Input { title: Seq<char>, label: Seq<char>, buffer: Seq<char>, purpose: InputPurpose },
    Confirm { title: Seq<char>, message: Seq<char>, action: Action },
    Error { title: Seq<char>, message: Seq<char> },
    Info { title: Seq<char>, message: Seq<char> },
}

impl View for Dialog {
    type V = DialogView;

    open spec fn view(&self) -> DialogView {
        match *self {
            Dialog::Closed => DialogView::Closed,
            Dialog::Input { title, label, buffer, purpose } => DialogView::Input {
                title: title@,
                label: label@,
                buffer: buffer@,
                purpose,
            },
            Dialog::Confirm { title, message, action } => DialogView::Confirm {
                title: title@,
                message: message@,
                action,
            },
            Dialog::Error { title, message } => DialogView::Error { title: title@, message: message@ },
            Dialog::Info { title, message } => DialogView::Info { title: title@, message: message@ },
        }
    }
}

pub enum Action {
    CreateSnapshot { dataset: String, name: String },
    RenameDataset { old_name: String, new_name: String },
    DestroySnapshot { name: String },
    StartScrub { pool: String },
    StopScrub { pool: String },
    ChangeNav(Nav),
    DockerStart { id: String },
    DockerStop { id: String },
    DockerRestart { id: String },
    DockerRemove { id: String },
}

/// A key press, as far as the monitor tells keys apart.
#[derive(Clone, Copy)]
pub enum Key {
    Char(char),
    Up,
    Down,
    Tab,
    Enter,
    Esc,
    Backspace,
    Other,
}

/// What to do once a command has succeeded.
pub enum FollowUp {
    /// Load the snapshots of the selected dataset again.
    ReloadSnapshots,
    /// Read the scrub status of the pool; `announce` opens a dialog saying
    /// that the scrub started.
    RefreshScrub { pool: String, announce: bool },
    Nothing,
}

/// Work that the monitor asks its host to do; the host answers with the
/// matching `Reply`, handing back what the request carries.
pub enum Request {
    /// List the datasets of the pool, then do what a change of pool does in view `then`.
    Datasets { pool: String, then: Nav },
    /// List the snapshots of the dataset.
    Snapshots { dataset: String },
    /// Read the status report of the pool; `remember` makes it the open pool.
    PoolStatus { pool: String, remember: bool },
    /// Read the scrub status of the pool.
    Scrub { pool: String, announce: bool },
    /// Carry out the action (run its command, or print a rename), then `then`.
    Run { action: Action, then: FollowUp },
}

/// The answer of the host to a `Request`.
pub enum Reply {
    Datasets { then: Nav, datasets: Vec<Dataset> },
    Snapshots { snapshots: Vec<Snapshot> },
    PoolStatus { pool: String, remember: bool, lines: Vec<String> },
    Scrub { pool: String, announce: bool, status: Option<ScrubStatus> },
    Ran { then: FollowUp, outcome: Result<(), String> },
}

} // verus!
