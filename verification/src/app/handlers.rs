//! What each key does.
use vstd::prelude::*;
use crate::app::dispatch::{dispatch_of, lemma_only_start_announces, same_but_dialog};
use crate::app::navigation::{down_step, next_nav_of, prev_nav_of, up_step, with_next_pool, with_previous_pool};
use crate::app::zfs::{announces_scrub, lemma_pool_change_never_announces};
use crate::app::network::{is_loopback, reselected, selected_name, sorted_stably, text_less};
use crate::app::state::{
    Action, App, Dialog, DialogView, Focus, InputPurpose, Key, Nav, NetworkSort, Request,
};
use crate::text::{join3, pop_char, push_char, text_string};
use crate::zfs::snapshots::Snapshot;

verus! {

/// The action that confirming an input dialog with `input` asks.
pub open spec fn confirmed(p: InputPurpose, input: String) -> Action {
    match p {
        InputPurpose::NewSnapshot { dataset } => Action::CreateSnapshot { dataset, name: input },
        InputPurpose::RenameDataset { old_name } => Action::RenameDataset { old_name, new_name: input },
    }
}

/// `a` with its dialog closed.
pub open spec fn closed(a: App) -> App {
    App { dialog: Dialog::Closed, ..a }
}

/// The selected snapshot, where the selection points at one.
pub open spec fn selected_snapshot(a: App) -> Option<Snapshot> {
    match a.zfs.snapshot_state.selected {
        Some(i) => if i < a.zfs.snapshots@.len() {
            Some(a.zfs.snapshots@[i as int])
        } else {
            None
        },
        None => None,
    }
}

/// `b` is `a` with the interface table sorted by `sort`.
pub open spec fn resorted(a: App, b: App, sort: NetworkSort) -> bool {
    &&& b == App { network: b.network, ..a }
    &&& b.network.sort == sort
    &&& sorted_stably(b.network.interfaces@, a.network.interfaces@, sort)
    &&& b.network.interface_state.selected == reselected(
        a.network.interface_state.selected,
        selected_name(a.network),
        b.network.interfaces@,
    )
}

/// A dialog of `a` shows `d`, nothing else changing.
pub open spec fn opens(a: App, b: App, d: DialogView) -> bool {
    same_but_dialog(a, b) && b.dialog@ == d
}

/// What a character key does with no dialog open.
pub open spec fn char_step(a: App, c: char, b: App, r: Option<Request>) -> bool {
    if c == 'k' {
        (b, r) == up_step(a)
    } else if c == 'j' {
        (b, r) == down_step(a)
    } else if c == 'h' {
        b == App { focus: Focus::Left, ..a } && r is None
    } else if c == 'l' {
        b == App { focus: Focus::Right, ..a } && r is None
    } else if c == '[' {
        b == App { nav: prev_nav_of(a.nav), ..a } && r is None
    } else if c == ']' {
        b == App { nav: next_nav_of(a.nav), ..a } && r is None
    } else if c == '1' {
        b == App { nav: Nav::Datasets, focus: Focus::Right, ..a } && r is None
    } else if c == '2' {
        b == App { nav: Nav::Snapshots, focus: Focus::Right, ..a } && r == a.zfs.snapshots_request_of()
    } else if c == '3' {
        b == App { nav: Nav::PoolStatus, focus: Focus::Right, ..a } && r is None
    } else if c == '4' {
        b == App { nav: Nav::Network, focus: Focus::Right, ..a } && r is None
    } else if c == '5' {
        b == App { nav: Nav::Scrub, focus: Focus::Right, ..a } && r is None
    } else if c == '6' {
        b == App { nav: Nav::Shares, focus: Focus::Right, ..a } && r is None
    } else if c == '7' {
        b == App { nav: Nav::Docker, focus: Focus::Right, ..a } && r is None
    } else if c == 'c' && a.focus == Focus::Right && a.nav == Nav::Datasets {
        &&& r is None
        &&& match a.zfs.selected_dataset() {
            Some(d) => opens(
                a,
                b,
                DialogView::Input {
                    title: "New Snapshot"@,
                    label: "Name"@,
                    buffer: Seq::empty(),
                    purpose: InputPurpose::NewSnapshot { dataset: d.name },
                },
            ),
            None => b == a,
        }
    } else if c == 'd' && a.focus == Focus::Right && a.nav == Nav::Snapshots {
        &&& r is None
        &&& match selected_snapshot(a) {
            Some(s) => opens(
                a,
                b,
                DialogView::Confirm {
                    title: "Destroy Snapshot"@,
                    message: "Destroy "@ + s.name@ + " ?"@,
                    action: Action::DestroySnapshot { name: s.name },
                },
            ),
            None => b == a,
        }
    } else if c == 'r' && a.focus == Focus::Right && a.nav == Nav::Datasets {
        &&& r is None
        &&& match a.zfs.selected_dataset() {
            Some(d) => opens(
                a,
                b,
                DialogView::Input {
                    title: "Rename Dataset"@,
                    label: "New name"@,
                    buffer: d.name@,
                    purpose: InputPurpose::RenameDataset { old_name: d.name },
                },
            ),
            None => b == a,
        }
    } else if c == 'n' && a.nav == Nav::Network {
        resorted(a, b, NetworkSort::Name) && r is None
    } else if c == 's' && a.nav == Nav::Network {
        resorted(a, b, NetworkSort::State) && r is None
    } else if c == 'm' && a.nav == Nav::Network {
        resorted(a, b, NetworkSort::Mtu) && r is None
    } else if c == 'S' && (a.nav == Nav::Scrub || a.nav == Nav::PoolStatus) {
        match a.zfs.pool_name() {
            Some(p) => (b, r) == dispatch_of(a, Action::StartScrub { pool: p }),
            None => b == a && r is None,
        }
    } else if c == 'X' && (a.nav == Nav::Scrub || a.nav == Nav::PoolStatus) {
        &&& r is None
        &&& match a.zfs.pool_name() {
            Some(p) => opens(
                a,
                b,
                DialogView::Confirm {
                    title: "Stop Scrub"@,
                    message: "Are you sure you want to stop the scrub on "@ + p@ + "?"@,
                    action: Action::StopScrub { pool: p },
                },
            ),
            None => b == a,
        }
    } else {
        b == a && r is None
    }
}

/// What a key does with no dialog open.
pub open spec fn normal_step(a: App, key: Key, b: App, r: Option<Request>) -> bool {
    match key {
        Key::Tab => b == App {
            focus: match a.focus {
                Focus::Left => Focus::Right,
                Focus::Right => Focus::Left,
            },
            ..a
        } && r is None,
        Key::Up => (b, r) == up_step(a),
        Key::Down => (b, r) == down_step(a),
        Key::Esc => b == App { nav: Nav::Datasets, ..a } && r is None,
        Key::Char(c) => char_step(a, c, b, r),
        _ => b == a && r is None,
    }
}

/// What a key does to an open dialog: an input dialog edits its line,
/// confirms it with Enter or is closed with Esc; a question is answered
/// with `y` (its action is carried out) or `n`/Esc; a message is closed with
/// Esc or Enter. Other keys change nothing.
pub open spec fn dialog_step(a: App, key: Key, b: App, r: Option<Request>) -> bool {
    match a.dialog {
        Dialog::Input { title, label, buffer, purpose } => match key {
            Key::Enter => (b, r) == dispatch_of(closed(a), confirmed(purpose, buffer)),
            Key::Esc => b == closed(a) && r is None,
            Key::Char(c) => r is None && opens(
                a,
                b,
                DialogView::Input { title: title@, label: label@, buffer: buffer@.push(c), purpose },
            ),
            Key::Backspace => r is None && opens(
                a,
                b,
                DialogView::Input {
                    title: title@,
                    label: label@,
                    buffer: if buffer@.len() == 0 {
                        buffer@
                    } else {
                        buffer@.drop_last()
                    },
                    purpose,
                },
            ),
            _ => b == a && r is None,
        },
        Dialog::Confirm { title, message, action } => match key {
            Key::Char(c) => if c == 'y' {
                (b, r) == dispatch_of(closed(a), action)
            } else if c == 'n' {
                b == closed(a) && r is None
            } else {
                b == a && r is None
            },
            Key::Esc => b == closed(a) && r is None,
            _ => b == a && r is None,
        },
        Dialog::Error { .. } | Dialog::Info { .. } => match key {
            Key::Esc | Key::Enter => b == closed(a) && r is None,
            _ => b == a && r is None,
        },
        Dialog::Closed => b == a && r is None,
    }
}

/// What a key does: to the dialog where one is open, else to the views.
pub open spec fn key_step(a: App, key: Key, b: App, r: Option<Request>) -> bool {
    if a.dialog is Closed {
        normal_step(a, key, b, r)
    } else {
        dialog_step(a, key, b, r)
    }
}

/// Tab moves the focus to the other side and changes nothing else; a second
/// Tab gives back the state before the first. Neither asks anything of the host.
pub proof fn lemma_tab_twice(a: App, b: App, c: App, r1: Option<Request>, r2: Option<Request>)
    requires
        a.dialog is Closed,
        key_step(a, Key::Tab, b, r1),
        key_step(b, Key::Tab, c, r2),
    ensures
        b == (App { focus: if a.focus == Focus::Left { Focus::Right } else { Focus::Left }, ..a }),
        c == a,
        r1 is None,
        r2 is None,
{
}

/// With no dialog open, `k` does exactly what the Up arrow does and `j`
/// exactly what the Down arrow does: the same new state and the same request.
pub proof fn lemma_vim_keys(a: App, b: App, r: Option<Request>)
    requires
        a.dialog is Closed,
    ensures
        key_step(a, Key::Char('k'), b, r) == key_step(a, Key::Up, b, r),
        key_step(a, Key::Char('j'), b, r) == key_step(a, Key::Down, b, r),
{
}

/// No key asks for an announcing read of the scrub status: a scrub is
/// announced only after the host has started it.
pub proof fn lemma_keys_never_announce(a: App, key: Key, b: App, r: Option<Request>)
    requires
        key_step(a, key, b, r),
    ensures
        !announces_scrub(r),
{
    lemma_pool_change_never_announces(with_previous_pool(a).zfs, a.nav);
    lemma_pool_change_never_announces(with_next_pool(a).zfs, a.nav);
    if let Dialog::Input { title, label, buffer, purpose } = a.dialog {
        lemma_only_start_announces(closed(a), confirmed(purpose, buffer));
    }
    if let Dialog::Confirm { title, message, action } = a.dialog {
        lemma_only_start_announces(closed(a), action);
    }
    if let Some(p) = a.zfs.pool_name() {
        lemma_only_start_announces(a, Action::StartScrub { pool: p });
    }
}

/// `h` and `l` put the focus on the left and on the right: from the other
/// side each does what Tab does, and on its own side it changes nothing.
pub proof fn lemma_focus_keys(a: App, b: App, r: Option<Request>)
    requires
        a.dialog is Closed,
    ensures
        a.focus == Focus::Right ==> key_step(a, Key::Char('h'), b, r) == key_step(a, Key::Tab, b, r),
        a.focus == Focus::Left ==> key_step(a, Key::Char('l'), b, r) == key_step(a, Key::Tab, b, r),
        a.focus == Focus::Left ==> (key_step(a, Key::Char('h'), b, r) <==> b == a && r is None),
        a.focus == Focus::Right ==> (key_step(a, Key::Char('l'), b, r) <==> b == a && r is None),
{
}

/// `]` then `[` (and `[` then `]`) come back to the view, asking nothing.
pub proof fn lemma_view_keys_inverse(a: App, b: App, c: App, r1: Option<Request>, r2: Option<Request>)
    requires
        a.dialog is Closed,
    ensures
        key_step(a, Key::Char(']'), b, r1) && key_step(b, Key::Char('['), c, r2) ==> c == a && r1 is None && r2 is None,
        key_step(a, Key::Char('['), b, r1) && key_step(b, Key::Char(']'), c, r2) ==> c == a && r1 is None && r2 is None,
{
    crate::app::navigation::lemma_nav_cycle(a.nav);
}

/// In an input dialog, typing a character and then Backspace gives back the
/// dialog as it was, everything else unchanged and nothing asked.
pub proof fn lemma_type_then_erase(a: App, b: App, c: App, ch: char, r1: Option<Request>, r2: Option<Request>)
    requires
        a.dialog is Input,
        key_step(a, Key::Char(ch), b, r1),
        key_step(b, Key::Backspace, c, r2),
    ensures
        same_but_dialog(a, c),
        c.dialog@ == a.dialog@,
        r1 is None,
        r2 is None,
{
    let buf = a.dialog->Input_buffer@;
    assert(buf.push(ch).drop_last() =~= buf);
}

/// The number keys follow the order of the views: each of `1` to `5` shows
/// the view that comes just before the one the next number shows, with the
/// focus on the right, and `1` shows the datasets.
pub proof fn lemma_number_keys_in_view_order(a: App, d: char, b1: App, b2: App, r1: Option<Request>, r2: Option<Request>)
    requires
        a.dialog is Closed,
        '1' <= d <= '5',
        key_step(a, Key::Char(d), b1, r1),
        key_step(a, Key::Char(((d as u32) + 1) as char), b2, r2),
    ensures
        b2 == (App { nav: next_nav_of(b1.nav), ..b1 }),
        b1.focus == Focus::Right,
        d == '1' ==> b1.nav == Nav::Datasets,
{
    assert(((('1' as u32) + 1) as char) == '2');
    assert(((('2' as u32) + 1) as char) == '3');
    assert(((('3' as u32) + 1) as char) == '4');
    assert(((('4' as u32) + 1) as char) == '5');
    assert(((('5' as u32) + 1) as char) == '6');
    assert(d == '1' || d == '2' || d == '3' || d == '4' || d == '5');
}

/// In the network view, `n` orders the interfaces by name, `s` by state and
/// `m` by MTU, `lo` always last.
pub proof fn lemma_sort_keys(a: App, b: App, r: Option<Request>, i: int, j: int)
    requires
        a.dialog is Closed,
        a.nav == Nav::Network,
        0 <= i < j < b.network.interfaces@.len(),
    ensures
        key_step(a, Key::Char('n'), b, r) || key_step(a, Key::Char('s'), b, r) || key_step(a, Key::Char('m'), b, r)
            ==> (is_loopback(b.network.interfaces@[i]) ==> is_loopback(b.network.interfaces@[j])),
        key_step(a, Key::Char('n'), b, r) && !is_loopback(b.network.interfaces@[j])
            ==> !text_less(b.network.interfaces@[j].name@, b.network.interfaces@[i].name@),
        key_step(a, Key::Char('s'), b, r) && !is_loopback(b.network.interfaces@[j])
            ==> !text_less(b.network.interfaces@[j].operstate@, b.network.interfaces@[i].operstate@),
        key_step(a, Key::Char('m'), b, r) && !is_loopback(b.network.interfaces@[j])
            ==> b.network.interfaces@[i].mtu <= b.network.interfaces@[j].mtu,
{
    let l = b.network.interfaces@;
    if key_step(a, Key::Char('n'), b, r) {
        assert(!crate::app::network::ranks_before(l[j], l[i], NetworkSort::Name));
    }
    if key_step(a, Key::Char('s'), b, r) {
        assert(!crate::app::network::ranks_before(l[j], l[i], NetworkSort::State));
    }
    if key_step(a, Key::Char('m'), b, r) {
        assert(!crate::app::network::ranks_before(l[j], l[i], NetworkSort::Mtu));
    }
}

/// Esc closes any open dialog: nothing else changes, nothing is carried out.
pub proof fn lemma_esc_closes_dialog(a: App, b: App, r: Option<Request>)
    requires
        !(a.dialog is Closed),
        key_step(a, Key::Esc, b, r),
    ensures
        b == closed(a),
        r is None,
{
}

/// Enter in an input dialog closes it and carries out, once, the action made
/// of what was typed; Esc closes it and carries out nothing.
pub proof fn lemma_input_dialog_answers(a: App, key: Key, b: App, r: Option<Request>)
    requires
        a.dialog is Input,
        key_step(a, key, b, r),
    ensures
        key == Key::Enter ==> (b, r) == dispatch_of(
            closed(a),
            confirmed(a.dialog->Input_purpose, a.dialog->Input_buffer),
        ),
        key == Key::Esc ==> b == closed(a) && r is None,
{
}

/// A question is answered by `y`, which closes it and carries out its
/// action; `n` or Esc close it and carry out nothing; any other key leaves
/// everything as it was.
pub proof fn lemma_confirm_dialog_answers(a: App, key: Key, b: App, r: Option<Request>)
    requires
        a.dialog is Confirm,
        key_step(a, key, b, r),
    ensures
        key == Key::Char('y') ==> (b, r) == dispatch_of(closed(a), a.dialog->Confirm_action),
        key == Key::Char('n') || key == Key::Esc ==> b == closed(a) && r is None,
        !(key == Key::Char('y') || key == Key::Char('n') || key == Key::Esc) ==> b == a && r is None,
{
}

/// Handles a key press, answered by the request for the host, if any.
pub fn handle_key(app: &mut App, key: Key) -> (r: Option<Request>)
    requires
        old(app).wf(),
    ensures
        key_step(*old(app), key, *final(app), r),
        final(app).wf(),
{
    if !matches!(app.dialog, Dialog::Closed) {
        return handle_dialog(app, key);
    }
    handle_normal_mode(app, key)
}

/// Handles a key press with no dialog open.
pub fn handle_normal_mode(app: &mut App, key: Key) -> (r: Option<Request>)
    requires
        old(app).wf(),
        old(app).dialog is Closed,
    ensures
        normal_step(*old(app), key, *final(app), r),
        final(app).wf(),
{
    match key {
        Key::Tab => {
            app.focus = match app.focus {
                Focus::Left => Focus::Right,
                Focus::Right => Focus::Left,
            };
            None
        },
        Key::Up => app.handle_up(),
        Key::Down => app.handle_down(),
        Key::Esc => {
            app.back();
            None
        },
        Key::Char(c) => handle_char(app, c),
        _ => None,
    }
}

fn show_view(app: &mut App, nav: Nav)
    ensures
        *final(app) == (App { nav, focus: Focus::Right, ..*old(app) }),
{
    app.nav = nav;
    app.focus = Focus::Right;
}

fn resort(app: &mut App, sort: NetworkSort)
    ensures
        resorted(*old(app), *final(app), sort),
        old(app).wf() ==> final(app).wf(),
{
    app.network.sort = sort;
    app.network.sort_interfaces();
}

fn handle_char(app: &mut App, c: char) -> (r: Option<Request>)
    requires
        old(app).wf(),
    ensures
        char_step(*old(app), c, *final(app), r),
        final(app).wf(),
{
    if c == 'k' {
        app.handle_up()
    } else if c == 'j' {
        app.handle_down()
    } else if c == 'h' {
        app.focus = Focus::Left;
        None
    } else if c == 'l' {
        app.focus = Focus::Right;
        None
    } else if c == '[' {
        app.prev_nav();
        None
    } else if c == ']' {
        app.next_nav();
        None
    } else if c == '1' {
        show_view(app, Nav::Datasets);
        None
    } else if c == '2' {
        let r = app.zfs.open_snapshots();
        show_view(app, Nav::Snapshots);
        r
    } else if c == '3' {
        show_view(app, Nav::PoolStatus);
        None
    } else if c == '4' {
        show_view(app, Nav::Network);
        None
    } else if c == '5' {
        show_view(app, Nav::Scrub);
        None
    } else if c == '6' {
        show_view(app, Nav::Shares);
        None
    } else if c == '7' {
        show_view(app, Nav::Docker);
        None
    } else if c == 'c' && app.focus == Focus::Right && app.nav == Nav::Datasets {
        if let Some(ds_name) = app.zfs.selected_dataset_name() {
            app.dialog = Dialog::Input {
                title: text_string("New Snapshot"),
                label: text_string("Name"),
                buffer: String::new(),
                purpose: InputPurpose::NewSnapshot { dataset: ds_name },
            };
        }
        None
    } else if c == 'd' && app.focus == Focus::Right && app.nav == Nav::Snapshots {
        if let Some(i) = app.zfs.snapshot_state.selected() {
            if i < app.zfs.snapshots.len() {
                let name = app.zfs.snapshots[i].name.clone();
                let message = join3("Destroy ", name.as_str(), " ?");
                app.dialog = Dialog::Confirm {
                    title: text_string("Destroy Snapshot"),
                    message,
                    action: Action::DestroySnapshot { name },
                };
            }
        }
        None
    } else if c == 'r' && app.focus == Focus::Right && app.nav == Nav::Datasets {
        if let Some(name) = app.zfs.selected_dataset_name() {
            let old_name = name.clone();
            app.dialog = Dialog::Input {
                title: text_string("Rename Dataset"),
                label: text_string("New name"),
                buffer: name,
                purpose: InputPurpose::RenameDataset { old_name },
            };
        }
        None
    } else if c == 'n' && app.nav == Nav::Network {
        resort(app, NetworkSort::Name);
        None
    } else if c == 's' && app.nav == Nav::Network {
        resort(app, NetworkSort::State);
        None
    } else if c == 'm' && app.nav == Nav::Network {
        resort(app, NetworkSort::Mtu);
        None
    } else if c == 'S' && (app.nav == Nav::Scrub || app.nav == Nav::PoolStatus) {
        if let Some(i) = app.zfs.pool_state.selected() {
            let pool = app.zfs.pools[i].name.clone();
            app.dispatch(Action::StartScrub { pool })
        } else {
            None
        }
    } else if c == 'X' && (app.nav == Nav::Scrub || app.nav == Nav::PoolStatus) {
        if let Some(i) = app.zfs.pool_state.selected() {
            let pool = app.zfs.pools[i].name.clone();
            let message = join3("Are you sure you want to stop the scrub on ", pool.as_str(), "?");
            app.dialog = Dialog::Confirm {
                title: text_string("Stop Scrub"),
                message,
                action: Action::StopScrub { pool },
            };
        }
        None
    } else {
        None
    }
}

fn confirm_input(purpose: InputPurpose, input: String) -> (a: Action)
    ensures
        a == confirmed(purpose, input),
{
    match purpose {
        InputPurpose::NewSnapshot { dataset } => Action::CreateSnapshot { dataset, name: input },
        InputPurpose::RenameDataset { old_name } => Action::RenameDataset { old_name, new_name: input },
    }
}

/// Handles a key press while a dialog is open.
pub fn handle_dialog(app: &mut App, key: Key) -> (r: Option<Request>)
    requires
        old(app).wf(),
        !(old(app).dialog is Closed),
    ensures
        dialog_step(*old(app), key, *final(app), r),
        final(app).wf(),
{
    let mut d = Dialog::Closed;
    std::mem::swap(&mut d, &mut app.dialog);
    match d {
        Dialog::Input { title, label, mut buffer, purpose } => match key {
            Key::Enter => {
                let action = confirm_input(purpose, buffer);
                app.dispatch(action)
            },
            Key::Esc => None,
            Key::Char(c) => {
                push_char(&mut buffer, c);
                app.dialog = Dialog::Input { title, label, buffer, purpose };
                None
            },
            Key::Backspace => {
                pop_char(&mut buffer);
                app.dialog = Dialog::Input { title, label, buffer, purpose };
                None
            },
            _ => {
                app.dialog = Dialog::Input { title, label, buffer, purpose };
                None
            },
        },
        Dialog::Confirm { title, message, action } => {
            if let Key::Char(c) = key {
                if c == 'y' {
                    return app.dispatch(action);
                } else if c == 'n' {
                    return None;
                }
            } else if let Key::Esc = key {
                return None;
            }
            app.dialog = Dialog::Confirm { title, message, action };
            None
        },
        Dialog::Error { title, message } => match key {
            Key::Esc | Key::Enter => None,
            _ => {
                app.dialog = Dialog::Error { title, message };
                None
            },
        },
        Dialog::Info { title, message } => match key {
            Key::Esc | Key::Enter => None,
            _ => {
                app.dialog = Dialog::Info { title, message };
                None
            },
        },
        Dialog::Closed => None,
    }
}

impl App {
    /// Handles a key press.
    pub fn map_key(&mut self, key: Key) -> (r: Option<Request>)
        requires
            old(self).wf(),
        ensures
            key_step(*old(self), key, *final(self), r),
            final(self).wf(),
    {
        handle_key(self, key)
    }
}

} // verus!
