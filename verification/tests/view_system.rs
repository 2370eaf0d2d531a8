use zfstop::app::state::{Nav, SystemState};
use zfstop::app::system::format_uptime;
use zfstop::layout::centered_rect;
use zfstop::text::first_word;
use zfstop::view::{
    container_tone, dataset_display_name, focus_name, health_tone, hit_rate_tone, link_tone,
    repaired_tone, scrub_state_tone, share_tone, snapshot_parts, sort_name, source_tone,
    state_line_parts, status_line_kind, view_name, LineKind, Tone,
};
use zfstop::app::state::{Focus, NetworkSort};
use zfstop::zfs::arc::ArcStats;
use zfstop::zfs::pools::{parse_pool_list, IoRates, PoolIO};

#[test]
fn uptime_is_formatted_like_the_header() {
    assert_eq!(format_uptime(0), "00h 00m");
    assert_eq!(format_uptime(3725), "01h 02m");
    assert_eq!(format_uptime(86400 * 3 + 3600 * 5 + 60 * 7 + 59), "3d 05h 07m");
    assert_eq!(format_uptime(86400 * 12 + 3600 * 23), "12d 23h 00m");
    assert_eq!(first_word("12345.67 8910.11\n").as_deref(), Some("12345.67"));
    assert_eq!(first_word("   "), None);
}

#[test]
fn uptime_update_keeps_old_text_without_reading() {
    let mut s = SystemState { hostname: "h".to_string(), uptime: "x".to_string(), arc: ArcStats::default(), arc_history: vec![] };
    s.update_uptime(None);
    assert_eq!(s.uptime, "x");
    s.update_uptime(Some(90061));
    assert_eq!(s.uptime, "1d 01h 01m");
}

#[test]
fn arc_history_keeps_the_latest_120() {
    let mut s = SystemState { hostname: "h".to_string(), uptime: "x".to_string(), arc: ArcStats::default(), arc_history: vec![1; 120] };
    let mut arc = ArcStats::default();
    arc.hits = 9;
    s.update_arc(arc, 777);
    assert_eq!(s.arc_history.len(), 120);
    assert_eq!(*s.arc_history.last().unwrap(), 777);
    assert_eq!(s.arc.hits, 9);
    let mut short = SystemState { hostname: "h".to_string(), uptime: "x".to_string(), arc: ArcStats::default(), arc_history: vec![] };
    short.update_arc(ArcStats::default(), 5);
    assert_eq!(short.arc_history, vec![5]);
}

#[test]
fn pool_samples_need_a_tenth_of_a_second() {
    let mut pools = parse_pool_list("tank ONLINE 10 5\n", 1_000_000_000);
    let p = &mut pools[0];
    let rates = IoRates { read_bps: 10, write_bps: 20, read_smoothed: 9, write_smoothed: 18 };
    assert!(!p.sample_due(1_050_000_000));
    p.update_io(PoolIO { read_bytes: 100, write_bytes: 200 }, 1_050_000_000, IoRates { ..rates });
    assert_eq!(p.last_read, 0);
    assert!(p.read_history.is_empty());
    assert!(p.sample_due(1_100_000_000));
    assert_eq!(p.elapsed_nanos(1_100_000_000), 100_000_000);
    assert_eq!(p.io_deltas(&PoolIO { read_bytes: 100, write_bytes: 200 }), (100, 200));
    p.update_io(PoolIO { read_bytes: 100, write_bytes: 200 }, 1_100_000_000, rates);
    assert_eq!(p.read_bps, 10);
    assert_eq!(p.write_history, vec![18]);
    assert_eq!(p.last_read, 100);
    assert_eq!(p.last_update, 1_100_000_000);
    assert_eq!(p.io_deltas(&PoolIO { read_bytes: 50, write_bytes: 250 }), (0, 50));
    assert_eq!(p.elapsed_nanos(5), 0);
    for k in 0..70u64 {
        let t = 1_200_000_000 + k * 200_000_000;
        p.update_io(PoolIO { read_bytes: 100, write_bytes: 200 }, t, IoRates { read_bps: 0, write_bps: 0, read_smoothed: k, write_smoothed: k });
    }
    assert_eq!(p.read_history.len(), 60);
    assert_eq!(p.read_history[0], 10);
    assert_eq!(*p.read_history.last().unwrap(), 69);
}

#[test]
fn labels_and_tones() {
    assert_eq!(view_name(Nav::Network), "Interfaces");
    assert_eq!(view_name(Nav::PoolStatus), "Status");
    assert_eq!(focus_name(Focus::Left), "Left");
    assert_eq!(sort_name(NetworkSort::Mtu), "MTU");
    assert_eq!(health_tone(&"ONLINE".to_string()), Tone::Good);
    assert_eq!(health_tone(&"DEGRADED".to_string()), Tone::Warning);
    assert_eq!(health_tone(&"FAULTED".to_string()), Tone::Alert);
    assert_eq!(hit_rate_tone(901), Tone::Good);
    assert_eq!(hit_rate_tone(900), Tone::Info);
    assert_eq!(hit_rate_tone(701), Tone::Info);
    assert_eq!(hit_rate_tone(700), Tone::Warning);
    assert_eq!(hit_rate_tone(400), Tone::Alert);
    assert_eq!(container_tone(&"Up 2 hours".to_string()), Tone::Good);
    assert_eq!(container_tone(&"Exited (0)".to_string()), Tone::Alert);
    assert_eq!(container_tone(&"Created".to_string()), Tone::Warning);
    assert_eq!(link_tone(&"DOWN".to_string()), Tone::Alert);
    assert_eq!(link_tone(&"UNKNOWN".to_string()), Tone::Muted);
    assert_eq!(share_tone(&"off".to_string()), Tone::Muted);
    assert_eq!(share_tone(&"rw".to_string()), Tone::Good);
    assert_eq!(repaired_tone(&"0B".to_string()), Tone::Good);
    assert_eq!(repaired_tone(&"12K".to_string()), Tone::Alert);
    assert_eq!(scrub_state_tone(&"scrubbing".to_string()), Tone::Warning);
    assert_eq!(source_tone(&"local".to_string()), Tone::Info);
    assert_eq!(source_tone(&"default".to_string()), Tone::Muted);
    assert_eq!(source_tone(&"inherited from tank".to_string()), Tone::Plain);
}

#[test]
fn dataset_names_are_indented_below_the_pool() {
    let pool = "tank".to_string();
    assert_eq!(dataset_display_name(&pool, &pool, true), "🏠 tank");
    assert_eq!(dataset_display_name(&"tank/a".to_string(), &pool, true), "▼ a");
    assert_eq!(dataset_display_name(&"tank/a/b/c".to_string(), &pool, false), "    • c");
    assert_eq!(dataset_display_name(&"tanktank/x".to_string(), &pool, false), "• x");
}

#[test]
fn snapshot_names_split_at_the_at_sign() {
    assert_eq!(snapshot_parts(&"tank/a@daily".to_string()), ("tank/a".to_string(), "daily".to_string()));
    assert_eq!(snapshot_parts(&"plain".to_string()), ("plain".to_string(), String::new()));
}

#[test]
fn status_lines_are_classified() {
    assert_eq!(status_line_kind(&"    tank ONLINE 0 0 0".to_string()), LineKind::Online);
    assert_eq!(status_line_kind(&"    sda FAULTED".to_string()), LineKind::Failed);
    assert_eq!(status_line_kind(&" state: DEGRADED".to_string()), LineKind::Failed);
    assert_eq!(status_line_kind(&" state: SUSPENDED".to_string()), LineKind::State);
    assert_eq!(status_line_kind(&"config:".to_string()), LineKind::Heading);
    assert_eq!(status_line_kind(&"  pool: tank".to_string()), LineKind::Heading);
    assert_eq!(status_line_kind(&"   /dev/sda1".to_string()), LineKind::Device);
    assert_eq!(status_line_kind(&"   mirror-0".to_string()), LineKind::Device);
    assert_eq!(status_line_kind(&"   ab".to_string()), LineKind::Other);
    assert_eq!(status_line_kind(&"errors: No known data errors".to_string()), LineKind::Other);
    assert_eq!(state_line_parts(&" state: ONLINE".to_string()), (" state".to_string(), " ONLINE".to_string()));
    assert_eq!(state_line_parts(&"nocolon".to_string()), ("nocolon".to_string(), String::new()));
}

#[test]
fn popup_is_centered() {
    let (x, y, w, h) = centered_rect(50, 30, (0, 0, 100, 40));
    assert_eq!((x, y, w, h), (25, 14, 50, 12));
}
