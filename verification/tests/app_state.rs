use zfstop::app::handlers::handle_key;
use zfstop::app::state::{
    Action, App, Dialog, Focus, FollowUp, InputPurpose, Key, Nav, NetworkSort, Reply, Request,
};
use zfstop::net::{default_link_type, AddrInfo, Interface};
use zfstop::selection::{next_index, previous_index, Selection};
use zfstop::zfs::arc::ArcStats;
use zfstop::zfs::datasets::Dataset;
use zfstop::zfs::pools::parse_pool_list;
use zfstop::zfs::snapshots::Snapshot;

fn iface(name: &str, state: &str, mtu: u32) -> Interface {
    Interface {
        name: name.to_string(),
        operstate: state.to_string(),
        addr_info: vec![AddrInfo { local: "10.0.0.1".to_string(), family: "inet".to_string() }],
        link_type: default_link_type(),
        mtu,
    }
}

fn dataset(name: &str, nfs: &str) -> Dataset {
    Dataset {
        name: name.to_string(),
        used: "1K".to_string(),
        avail: "1G".to_string(),
        mountpoint: format!("/{}", name),
        compression: ("off".to_string(), "default".to_string()),
        recordsize: ("128K".to_string(), "default".to_string()),
        compressratio: "1.00x".to_string(),
        sharenfs: nfs.to_string(),
        sharesmb: "off".to_string(),
    }
}

fn app() -> App {
    let pools = parse_pool_list("tank ONLINE 100 50\nbackup ONLINE 200 10\n", 0);
    let ifs = vec![iface("lo", "UNKNOWN", 65536), iface("eth1", "DOWN", 1500), iface("eth0", "UP", 9000)];
    App::new("  host\n", pools, ifs, ArcStats::default(), 500)
}

#[test]
fn new_app_starts_on_datasets() {
    let a = app();
    assert_eq!(a.nav, Nav::Datasets);
    assert_eq!(a.focus, Focus::Left);
    assert_eq!(a.system.hostname, "host");
    assert_eq!(a.system.uptime, "00:00:00");
    assert_eq!(a.system.arc_history.len(), 120);
    assert!(a.system.arc_history.iter().all(|v| *v == 500));
    assert_eq!(a.zfs.pool_state.selected, Some(0));
    assert_eq!(a.docker.container_state.selected, None);
    assert!(matches!(a.dialog, Dialog::Closed));
}

#[test]
fn selection_wraps_both_ways() {
    let mut s = Selection::at(2);
    next_index(&mut s, 3);
    assert_eq!(s.selected, Some(0));
    previous_index(&mut s, 3);
    assert_eq!(s.selected, Some(2));
    let mut e = Selection::new();
    next_index(&mut e, 0);
    assert_eq!(e.selected, None);
    previous_index(&mut e, 4);
    assert_eq!(e.selected, Some(3));
}

#[test]
fn nav_keys_cycle_views() {
    let mut a = app();
    for _ in 0..6 {
        handle_key(&mut a, Key::Char(']'));
    }
    assert_eq!(a.nav, Nav::Datasets);
    handle_key(&mut a, Key::Char('['));
    assert_eq!(a.nav, Nav::Shares);
    handle_key(&mut a, Key::Char(']'));
    assert_eq!(a.nav, Nav::Datasets);
    handle_key(&mut a, Key::Char('4'));
    assert_eq!(a.nav, Nav::Network);
    assert_eq!(a.focus, Focus::Right);
    handle_key(&mut a, Key::Esc);
    assert_eq!(a.nav, Nav::Datasets);
    handle_key(&mut a, Key::Tab);
    assert_eq!(a.focus, Focus::Left);
}

#[test]
fn pool_change_asks_for_datasets_then_follow_up() {
    let mut a = app();
    a.nav = Nav::PoolStatus;
    let r = handle_key(&mut a, Key::Down);
    assert_eq!(a.zfs.pool_state.selected, Some(1));
    match r {
        Some(Request::Datasets { pool, then }) => {
            assert_eq!(pool, "backup");
            assert_eq!(then, Nav::PoolStatus);
        }
        _ => panic!("expected a datasets request"),
    }
    let next = a.complete(Reply::Datasets { then: Nav::PoolStatus, datasets: vec![dataset("backup", "off")] });
    assert_eq!(a.zfs.datasets.len(), 1);
    assert_eq!(a.zfs.dataset_state.selected, Some(0));
    match next {
        Some(Request::PoolStatus { pool, remember }) => {
            assert_eq!(pool, "backup");
            assert!(remember);
        }
        _ => panic!("expected a status request"),
    }
    let done = a.complete(Reply::PoolStatus { pool: "backup".to_string(), remember: true, lines: vec!["state: ONLINE".to_string()] });
    assert!(done.is_none());
    assert_eq!(a.zfs.selected_pool.as_deref(), Some("backup"));
    assert_eq!(a.zfs.pool_status, vec!["state: ONLINE".to_string()]);
    handle_key(&mut a, Key::Up);
    assert_eq!(a.zfs.pool_state.selected, Some(0));
    handle_key(&mut a, Key::Up);
    assert_eq!(a.zfs.pool_state.selected, Some(1));
}

#[test]
fn new_snapshot_dialog_runs_the_command() {
    let mut a = app();
    a.complete(Reply::Datasets { then: Nav::Datasets, datasets: vec![dataset("tank", "off"), dataset("tank/a", "on")] });
    handle_key(&mut a, Key::Char('l'));
    handle_key(&mut a, Key::Down);
    assert_eq!(a.zfs.dataset_state.selected, Some(1));
    assert!(handle_key(&mut a, Key::Char('c')).is_none());
    match &a.dialog {
        Dialog::Input { title, label, buffer, purpose } => {
            assert_eq!(title, "New Snapshot");
            assert_eq!(label, "Name");
            assert_eq!(buffer, "");
            assert!(matches!(purpose, InputPurpose::NewSnapshot { dataset } if dataset == "tank/a"));
        }
        _ => panic!("expected an input dialog"),
    }
    for c in "dayx".chars() {
        handle_key(&mut a, Key::Char(c));
    }
    handle_key(&mut a, Key::Backspace);
    let r = handle_key(&mut a, Key::Enter);
    assert!(matches!(a.dialog, Dialog::Closed));
    match r {
        Some(Request::Run { action: Action::CreateSnapshot { dataset, name }, then: FollowUp::ReloadSnapshots }) => {
            assert_eq!(dataset, "tank/a");
            assert_eq!(name, "day");
        }
        _ => panic!("expected the create command"),
    }
    let next = a.complete(Reply::Ran { then: FollowUp::ReloadSnapshots, outcome: Ok(()) });
    assert!(matches!(next, Some(Request::Snapshots { dataset }) if dataset == "tank/a"));
    a.complete(Reply::Snapshots { snapshots: vec![Snapshot { name: "tank/a@day".to_string(), used: "0B".to_string(), created: 9 }] });
    assert_eq!(a.zfs.snapshots.len(), 1);
    assert_eq!(a.zfs.snapshot_state.selected, Some(0));
}

#[test]
fn failed_command_opens_error_dialog() {
    let mut a = app();
    let r = a.complete(Reply::Ran { then: FollowUp::Nothing, outcome: Err("permission denied".to_string()) });
    assert!(r.is_none());
    match &a.dialog {
        Dialog::Error { title, message } => {
            assert_eq!(title, "Error");
            assert_eq!(message, "permission denied");
        }
        _ => panic!("expected an error dialog"),
    }
    handle_key(&mut a, Key::Char('x'));
    assert!(matches!(a.dialog, Dialog::Error { .. }));
    handle_key(&mut a, Key::Enter);
    assert!(matches!(a.dialog, Dialog::Closed));
}

#[test]
fn scrub_keys_start_and_confirm_stop() {
    let mut a = app();
    handle_key(&mut a, Key::Char('5'));
    let r = handle_key(&mut a, Key::Char('S'));
    match r {
        Some(Request::Run { action: Action::StartScrub { pool }, then: FollowUp::RefreshScrub { pool: p2, announce } }) => {
            assert_eq!(pool, "tank");
            assert_eq!(p2, "tank");
            assert!(announce);
        }
        _ => panic!("expected a scrub start"),
    }
    let next = a.complete(Reply::Ran { then: FollowUp::RefreshScrub { pool: "tank".to_string(), announce: true }, outcome: Ok(()) });
    assert!(matches!(next, Some(Request::Scrub { ref pool, announce: true }) if pool == "tank"));
    a.complete(Reply::Scrub { pool: "tank".to_string(), announce: true, status: None });
    match &a.dialog {
        Dialog::Info { title, message } => {
            assert_eq!(title, "Scrub Started");
            assert_eq!(message, "Scrub started on pool tank");
        }
        _ => panic!("expected an info dialog"),
    }
    handle_key(&mut a, Key::Esc);
    handle_key(&mut a, Key::Char('X'));
    match &a.dialog {
        Dialog::Confirm { title, message, action } => {
            assert_eq!(title, "Stop Scrub");
            assert_eq!(message, "Are you sure you want to stop the scrub on tank?");
            assert!(matches!(action, Action::StopScrub { pool } if pool == "tank"));
        }
        _ => panic!("expected a question"),
    }
    let r = handle_key(&mut a, Key::Char('y'));
    assert!(matches!(r, Some(Request::Run { action: Action::StopScrub { .. }, then: FollowUp::RefreshScrub { announce: false, .. } })));
    assert!(matches!(a.dialog, Dialog::Closed));
}

#[test]
fn network_sort_keeps_loopback_last_and_selection() {
    let mut a = app();
    handle_key(&mut a, Key::Char('4'));
    a.network.interface_state.selected = Some(2);
    handle_key(&mut a, Key::Char('n'));
    let names: Vec<&str> = a.network.interfaces.iter().map(|i| i.name.as_str()).collect();
    assert_eq!(names, vec!["eth0", "eth1", "lo"]);
    assert_eq!(a.network.interface_state.selected, Some(0));
    handle_key(&mut a, Key::Char('m'));
    let names: Vec<&str> = a.network.interfaces.iter().map(|i| i.name.as_str()).collect();
    assert_eq!(names, vec!["eth1", "eth0", "lo"]);
    assert_eq!(a.network.sort, NetworkSort::Mtu);
    assert_eq!(a.network.interface_state.selected, Some(1));
    handle_key(&mut a, Key::Char('s'));
    let names: Vec<&str> = a.network.interfaces.iter().map(|i| i.name.as_str()).collect();
    assert_eq!(names, vec!["eth1", "eth0", "lo"]);
    assert_eq!(a.network.interfaces[0].ipv4(), "10.0.0.1");
}

#[test]
fn update_network_selects_first_row_when_nothing_was_selected() {
    let mut a = app();
    a.network.interface_state.selected = None;
    a.network.update_network(vec![iface("wlan0", "UP", 1500), iface("lo", "UNKNOWN", 1)]);
    assert_eq!(a.network.interface_state.selected, Some(0));
    assert_eq!(a.network.interfaces[0].name, "wlan0");
}

#[test]
fn shares_move_among_shared_datasets() {
    let mut a = app();
    a.complete(Reply::Datasets { then: Nav::Datasets, datasets: vec![dataset("tank", "off"), dataset("tank/a", "on"), dataset("tank/b", "rw")] });
    assert_eq!(a.zfs.shared_count(), 2);
    assert_eq!(a.zfs.selected_share().map(|d| d.name.as_str()), Some("tank/a"));
    a.zfs.next_share();
    assert_eq!(a.zfs.selected_share().map(|d| d.name.as_str()), Some("tank/b"));
    a.zfs.next_share();
    assert_eq!(a.zfs.share_state.selected, Some(0));
    a.zfs.previous_share();
    assert_eq!(a.zfs.share_state.selected, Some(1));
}

#[test]
fn snapshot_moves_stop_at_the_ends() {
    let mut a = app();
    a.zfs.load_snapshots(vec![
        Snapshot { name: "t@1".to_string(), used: "0".to_string(), created: 3 },
        Snapshot { name: "t@2".to_string(), used: "0".to_string(), created: 2 },
    ]);
    a.zfs.previous_snapshot();
    assert_eq!(a.zfs.snapshot_state.selected, Some(0));
    a.zfs.next_snapshot();
    a.zfs.next_snapshot();
    assert_eq!(a.zfs.snapshot_state.selected, Some(1));
    a.zfs.load_snapshots(vec![]);
    assert_eq!(a.zfs.snapshot_state.selected, None);
}

#[test]
fn tick_plans_refreshes_for_the_view() {
    let mut a = app();
    a.nav = Nav::Scrub;
    let plan = a.tick();
    assert!(!plan.refresh_network);
    assert!(matches!(plan.pool_refresh, Some(Request::Scrub { ref pool, announce: false }) if pool == "tank"));
    a.nav = Nav::Network;
    let plan = a.tick();
    assert!(plan.refresh_network);
    assert!(plan.pool_refresh.is_none());
}

#[test]
fn tab_twice_gives_back_the_focus() {
    let mut a = app();
    assert_eq!(handle_key(&mut a, Key::Tab).is_none(), true);
    assert_eq!(a.focus, Focus::Right);
    assert_eq!(a.nav, Nav::Datasets);
    assert!(handle_key(&mut a, Key::Tab).is_none());
    assert_eq!(a.focus, Focus::Left);
    assert_eq!(a.nav, Nav::Datasets);
}

#[test]
fn sorting_twice_changes_nothing() {
    let mut a = app();
    a.network.interface_state.selected = Some(1);
    a.network.sort_interfaces();
    let once: Vec<String> = a.network.interfaces.iter().map(|i| i.name.clone()).collect();
    let sel = a.network.interface_state.selected;
    a.network.sort_interfaces();
    let twice: Vec<String> = a.network.interfaces.iter().map(|i| i.name.clone()).collect();
    assert_eq!(once, vec!["eth0", "eth1", "lo"]);
    assert_eq!(twice, once);
    assert_eq!(a.network.interface_state.selected, sel);
    assert_eq!(sel, Some(1));
}

#[test]
fn esc_closes_the_input_dialog_without_action() {
    let mut a = app();
    a.complete(Reply::Datasets { then: Nav::Datasets, datasets: vec![dataset("tank", "off")] });
    handle_key(&mut a, Key::Tab);
    handle_key(&mut a, Key::Char('c'));
    assert!(matches!(a.dialog, Dialog::Input { .. }));
    handle_key(&mut a, Key::Char('x'));
    let r = handle_key(&mut a, Key::Esc);
    assert!(r.is_none());
    assert!(matches!(a.dialog, Dialog::Closed));
    assert_eq!(a.nav, Nav::Datasets);
    assert_eq!(a.focus, Focus::Right);
}

#[test]
fn question_ignores_other_keys() {
    let mut a = app();
    handle_key(&mut a, Key::Char('5'));
    handle_key(&mut a, Key::Char('X'));
    assert!(matches!(a.dialog, Dialog::Confirm { .. }));
    let r = handle_key(&mut a, Key::Char('q'));
    assert!(r.is_none());
    assert!(matches!(a.dialog, Dialog::Confirm { .. }));
    let r = handle_key(&mut a, Key::Char('n'));
    assert!(r.is_none());
    assert!(matches!(a.dialog, Dialog::Closed));
}
