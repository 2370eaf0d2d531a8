//! Carrying out actions, and taking the answers of the host.
use vstd::prelude::*;
use crate::app::state::{
    Action, App, Dialog, DialogView, Focus, FollowUp, Reply, Request, ZfsState,
};
use crate::app::zfs::{announces_scrub, clamped_dataset, clamped_snapshot, lemma_pool_change_never_announces};
use crate::selection::Selection;
use crate::text::{join3, text_string};

verus! {

/// What an action asks: changing the view happens at once; a command is
/// run by the host, then the snapshots are loaded again (after creating or
/// destroying one), or the scrub status is read again (after starting or
/// stopping a scrub, announced after a start).
pub open spec fn dispatch_of(a: App, action: Action) -> (App, Option<Request>) {
    match action {
        Action::ChangeNav(n) => (App { nav: n, focus: Focus::Right, ..a }, None),
        Action::CreateSnapshot { dataset, name } => (
            a,
            Some(
                Request::Run {
                    action: Action::CreateSnapshot { dataset, name },
                    then: FollowUp::ReloadSnapshots,
                },
            ),
        ),
        Action::DestroySnapshot { name } => (
            a,
            Some(Request::Run { action: Action::DestroySnapshot { name }, then: FollowUp::ReloadSnapshots }),
        ),
        Action::StartScrub { pool } => (
            a,
            Some(
                Request::Run {
                    action: Action::StartScrub { pool },
                    then: FollowUp::RefreshScrub { pool, announce: true },
                },
            ),
        ),
        Action::StopScrub { pool } => (
            a,
            Some(
                Request::Run {
                    action: Action::StopScrub { pool },
                    then: FollowUp::RefreshScrub { pool, announce: false },
                },
            ),
        ),
        _ => (a, Some(Request::Run { action, then: FollowUp::Nothing })),
    }
}

/// `b` is `a` with only its dialog changed.
pub open spec fn same_but_dialog(a: App, b: App) -> bool {
    b == App { dialog: b.dialog, ..a }
}

/// The error dialog for `message`.
pub open spec fn error_dialog(message: Seq<char>) -> DialogView {
    DialogView::Error { title: "Error"@, message }
}

/// `b`, and the request `r`, are what the answer `reply` makes of `a`.
pub open spec fn complete_step(a: App, reply: Reply, b: App, r: Option<Request>) -> bool {
    match reply {
        Reply::Datasets { then, datasets } => {
            let z = ZfsState {
                datasets,
                dataset_state: Selection {
                    selected: clamped_dataset(a.zfs.dataset_state.selected, datasets@.len()),
                },
                ..a.zfs
            };
            &&& b == App { zfs: z, ..a }
            &&& r == z.follow_up_of(then)
        },
        Reply::Snapshots { snapshots } => {
            &&& b == App {
                zfs: ZfsState {
                    snapshots,
                    snapshot_state: Selection {
                        selected: clamped_snapshot(a.zfs.snapshot_state.selected, snapshots@.len()),
                    },
                    ..a.zfs
                },
                ..a
            }
            &&& r is None
        },
        Reply::PoolStatus { pool, remember, lines } => {
            &&& b == App {
                zfs: ZfsState {
                    pool_status: lines,
                    selected_pool: if remember {
                        Some(pool)
                    } else {
                        a.zfs.selected_pool
                    },
                    ..a.zfs
                },
                ..a
            }
            &&& r is None
        },
        Reply::Scrub { pool, announce, status } => {
            &&& b == App { zfs: ZfsState { scrub: status, ..a.zfs }, dialog: b.dialog, ..a }
            &&& if announce {
                b.dialog@ == DialogView::Info {
                    title: "Scrub Started"@,
                    message: "Scrub started on pool "@ + pool@,
                }
            } else {
                b.dialog == a.dialog
            }
            &&& r is None
        },
        Reply::Ran { then, outcome } => match outcome {
            Err(e) => {
                &&& same_but_dialog(a, b)
                &&& b.dialog@ == error_dialog(e@)
                &&& r is None
            },
            Ok(_) => {
                &&& b == a
                &&& r == match then {
                    FollowUp::ReloadSnapshots => a.zfs.snapshots_request_of(),
                    FollowUp::RefreshScrub { pool, announce } => Some(Request::Scrub { pool, announce }),
                    FollowUp::Nothing => None,
                }
            },
        },
    }
}

impl App {
    /// Opens the error dialog with `msg`.
    pub fn show_error(&mut self, msg: String)
        ensures
            same_but_dialog(*old(self), *final(self)),
            final(self).dialog@ == error_dialog(msg@),
    {
        self.dialog = Dialog::Error { title: text_string("Error"), message: msg };
    }

    /// Carries out `action`, answered by the request for the host, if any.
    pub fn dispatch(&mut self, action: Action) -> (r: Option<Request>)
        ensures
            (*final(self), r) == dispatch_of(*old(self), action),
    {
        match action {
            Action::ChangeNav(n) => {
                self.nav = n;
                self.focus = Focus::Right;
                None
            },
            Action::CreateSnapshot { dataset, name } => Some(
                Request::Run {
                    action: Action::CreateSnapshot { dataset, name },
                    then: FollowUp::ReloadSnapshots,
                },
            ),
            Action::DestroySnapshot { name } => Some(
                Request::Run { action: Action::DestroySnapshot { name }, then: FollowUp::ReloadSnapshots },
            ),
            Action::StartScrub { pool } => {
                let p = pool.clone();
                Some(
                    Request::Run {
                        action: Action::StartScrub { pool },
                        then: FollowUp::RefreshScrub { pool: p, announce: true },
                    },
                )
            },
            Action::StopScrub { pool } => {
                let p = pool.clone();
                Some(
                    Request::Run {
                        action: Action::StopScrub { pool },
                        then: FollowUp::RefreshScrub { pool: p, announce: false },
                    },
                )
            },
            other => Some(Request::Run { action: other, then: FollowUp::Nothing }),
        }
    }

    /// Takes the answer of the host to the last request, answered by the
    /// next request, if any.
    pub fn complete(&mut self, reply: Reply) -> (r: Option<Request>)
        requires
            old(self).wf(),
        ensures
            complete_step(*old(self), reply, *final(self), r),
            final(self).wf(),
    {
        match reply {
            Reply::Datasets { then, datasets } => {
                self.zfs.load_datasets(datasets);
                self.zfs.follow_up(then)
            },
            Reply::Snapshots { snapshots } => {
                self.zfs.load_snapshots(snapshots);
                None
            },
            Reply::PoolStatus { pool, remember, lines } => {
                self.zfs.set_pool_status(pool, remember, lines);
                None
            },
            Reply::Scrub { pool, announce, status } => {
                self.zfs.set_scrub(status);
                if announce {
                    let message = join3("Scrub started on pool ", pool.as_str(), "");
                    proof {
                        reveal_strlit("");
                        assert(message@ =~= "Scrub started on pool "@ + pool@);
                    }
                    self.dialog = Dialog::Info { title: text_string("Scrub Started"), message };
                }
                None
            },
            Reply::Ran { then, outcome } => match outcome {
                Err(e) => {
                    self.show_error(e);
                    None
                },
                Ok(_) => match then {
                    FollowUp::ReloadSnapshots => self.zfs.open_snapshots(),
                    FollowUp::RefreshScrub { pool, announce } => Some(Request::Scrub { pool, announce }),
                    FollowUp::Nothing => None,
                },
            },
        }
    }
}

/// Only starting a scrub asks for its status to be read with an announcement
/// once the command has run; every other action asks it quietly or not at all.
pub proof fn lemma_only_start_announces(a: App, action: Action)
    ensures
        dispatch_of(a, action).1 matches Some(Request::Run { then: FollowUp::RefreshScrub { announce: true, .. }, .. })
            ==> action is StartScrub,
        !announces_scrub(dispatch_of(a, action).1),
{
}

/// An answer of the host leads to an announcing read of the scrub status only
/// where it is the success of a command that was to be followed by one, that
/// is of a scrub start: a change of pool, a listing or a status never does.
pub proof fn lemma_announce_only_after_start(a: App, reply: Reply, b: App, r: Option<Request>)
    requires
        complete_step(a, reply, b, r),
        announces_scrub(r),
    ensures
        reply matches Reply::Ran { then: FollowUp::RefreshScrub { announce: true, .. }, outcome: Ok(_) },
{
    if let Reply::Datasets { then, datasets } = reply {
        let z = ZfsState {
            datasets,
            dataset_state: Selection { selected: clamped_dataset(a.zfs.dataset_state.selected, datasets@.len()) },
            ..a.zfs
        };
        lemma_pool_change_never_announces(z, then);
    }
}

} // verus!
