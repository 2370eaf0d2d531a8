use zfstop::docker::json_array_of_lines;
use zfstop::output::output_text;
use zfstop::text::{chars_of, parse_u64_chars, split_lines, split_words, trim_chars};
use zfstop::zfs::arc::{parse_arc_stats, ArcStats};
use zfstop::zfs::commands::{command_outcome, snapshot_target};
use zfstop::zfs::datasets::{parse_dataset_list, Dataset};
use zfstop::zfs::pools::{parse_pool_counters, parse_pool_list, pool_list_complete};
use zfstop::zfs::scrub::parse_scrub_status;
use zfstop::zfs::snapshots::parse_snapshot_list;
use zfstop::zfs::status::{filter_status_lines, status_unavailable};

fn text(v: &[char]) -> String {
    v.iter().collect()
}

#[test]
fn lines_follow_str_lines() {
    for s in ["", "a", "a\n", "a\n\nb", "a\r\nb\r", "\n", "x\ny\n\n"] {
        let got: Vec<String> = split_lines(&chars_of(s)).iter().map(|l| text(l)).collect();
        let want: Vec<String> = s.lines().map(|l| l.to_string()).collect();
        assert_eq!(got, want, "{:?}", s);
    }
}

#[test]
fn words_follow_split_whitespace() {
    for s in ["", "  a  b\tc\u{a0}d ", "one", "\u{3000}x\u{2003}y"] {
        let got: Vec<String> = split_words(&chars_of(s)).iter().map(|w| text(w)).collect();
        let want: Vec<String> = s.split_whitespace().map(|w| w.to_string()).collect();
        assert_eq!(got, want, "{:?}", s);
    }
}

#[test]
fn trim_follows_str_trim() {
    for s in ["  a b  ", "", "\t\n", "x", "\u{85}y\u{2028}"] {
        assert_eq!(text(&trim_chars(&chars_of(s))), s.trim());
    }
}

#[test]
fn numbers_parse_as_u64_does() {
    for s in ["0", "42", "+7", "-1", "", "+", "18446744073709551615", "18446744073709551616", "1a", "007"] {
        assert_eq!(parse_u64_chars(&chars_of(s)), s.parse::<u64>().ok(), "{:?}", s);
    }
}

#[test]
fn pool_list_is_parsed_line_by_line() {
    let out = "tank\tONLINE\t1000\t250\nbackup\tDEGRADED\tx\t7\n";
    assert!(pool_list_complete(out));
    let pools = parse_pool_list(out, 5);
    assert_eq!(pools.len(), 2);
    assert_eq!(pools[0].name, "tank");
    assert_eq!(pools[0].health, "ONLINE");
    assert_eq!(pools[0].size, 1000);
    assert_eq!(pools[0].alloc, 250);
    assert_eq!(pools[0].last_update, 5);
    assert!(pools[0].read_history.is_empty());
    assert_eq!(pools[1].size, 0);
    assert_eq!(pools[1].alloc, 7);
}

#[test]
fn short_pool_line_is_refused() {
    assert!(!pool_list_complete("tank ONLINE 1000\n"));
    assert!(pool_list_complete(""));
}

#[test]
fn pool_counters_add_cached_and_direct_bytes() {
    let table = "13 1 0x01 4 288 0 0\nname type data\narc_read_bytes 4 100\narc_write_bytes 4 20\ndirect_read_bytes 4 5\ndirect_write_bytes 4 1\narc_read_bytes 4 300\n";
    let io = parse_pool_counters(table).unwrap();
    assert_eq!(io.read_bytes, 305);
    assert_eq!(io.write_bytes, 21);
}

#[test]
fn pool_counters_overflow_is_reported() {
    let table = "arc_read_bytes 4 18446744073709551615\ndirect_read_bytes 4 1\n";
    assert!(parse_pool_counters(table).is_none());
}

#[test]
fn arc_stats_read_their_lines() {
    let table = "name type data\nhits 4 90\nmisses 4 10\nsize 4 2048\nc_max 4 4096\ndemand_data_hits 4 1\ndemand_metadata_hits 4 2\nprefetch_data_hits 4 3\nprefetch_metadata_hits 4 4\nbogus\nhits 4 nope\n";
    let s = parse_arc_stats(table);
    assert_eq!(s.hits, 0);
    assert_eq!(s.misses, 10);
    assert_eq!(s.size, 2048);
    assert_eq!(s.max, 4096);
    assert_eq!(s.breakdown_total(), 10);
    let d = ArcStats::default();
    assert_eq!(d.size, 0);
    assert_eq!(d.breakdown_total(), 0);
}

#[test]
fn datasets_fill_missing_columns() {
    let out = "tank\t1G\t9G\t/tank\tlz4\tlocal\t128K\tdefault\t1.50x\toff\ton\ntank/a\t1K\n";
    let ds: Vec<Dataset> = parse_dataset_list(out);
    assert_eq!(ds.len(), 2);
    assert_eq!(ds[0].name, "tank");
    assert_eq!(ds[0].compression, ("lz4".to_string(), "local".to_string()));
    assert_eq!(ds[0].recordsize, ("128K".to_string(), "default".to_string()));
    assert_eq!(ds[0].compressratio, "1.50x");
    assert!(ds[0].is_shares());
    assert_eq!(ds[1].used, "1K");
    assert_eq!(ds[1].avail, "");
    assert_eq!(ds[1].sharenfs, "off");
    assert_eq!(ds[1].sharesmb, "off");
    assert!(!ds[1].is_shares());
}

#[test]
fn snapshots_newest_first_and_filtered() {
    let out = "tank/a@one\t1K\t100\nother@x\t2K\t500\ntank/a@two\t3K\t300\ntank/a@three\t4K\t100\ntank/a@bad\t5K\n";
    let s = parse_snapshot_list(out, "tank/a");
    let names: Vec<&str> = s.iter().map(|x| x.name.as_str()).collect();
    assert_eq!(names, vec!["tank/a@two", "tank/a@one", "tank/a@three", "tank/a@bad"]);
    assert_eq!(s[0].created, 300);
    assert_eq!(s[3].created, 0);
    assert_eq!(s[3].used, "5K");
}

#[test]
fn status_keeps_the_relevant_lines() {
    let report = "  pool: tank\n state: ONLINE\n\nconfig:\n\tNAME STATE\n\ttank ONLINE\nerrors: No known data errors\n";
    let lines = filter_status_lines(report);
    assert_eq!(lines, vec!["  pool: tank", " state: ONLINE", "config:", "    NAME STATE", "    tank ONLINE"]);
    assert_eq!(status_unavailable(), vec!["Error: Could not run zpool command".to_string()]);
}

#[test]
fn scrub_status_reads_progress() {
    let report = "  pool: tank\n state: ONLINE\n  scan: scrub in progress since Sun\n\t1.20T scanned at 500M/s, 800G issued at 300M/s, 2.00T total\n\t0B repaired, 45.50% done, 01:02:03 to go\n";
    let s = parse_scrub_status(report, "tank").unwrap();
    assert_eq!(s.pool, "tank");
    assert_eq!(s.state, "scrubbing");
    assert_eq!(s.scanned, "1.20T");
    assert_eq!(s.total, "at");
    assert_eq!(s.issued, "800G");
    assert_eq!(s.speed, "300M/s");
    assert_eq!(s.repaired, "0B");
    assert_eq!(s.progress_percent, "45.50");
    assert_eq!(s.eta, "01:02:03");
    assert!(parse_scrub_status("state: ONLINE\n", "tank").is_none());
}

#[test]
fn command_outcome_trims_error_output() {
    assert!(command_outcome(true, "ignored").is_ok());
    assert_eq!(command_outcome(false, "  cannot open 'x'\n"), Err("cannot open 'x'".to_string()));
    assert_eq!(snapshot_target("tank/a", "daily"), "tank/a@daily");
}

#[test]
fn docker_lines_become_a_json_array() {
    assert_eq!(json_array_of_lines("{\"a\":1}\n{\"b\":2}\n"), "[{\"a\":1},{\"b\":2}]");
    assert_eq!(json_array_of_lines(""), "[]");
}

#[test]
fn output_is_decoded_lossily() {
    assert_eq!(output_text(b"tank\n"), "tank\n");
    assert_eq!(output_text(&[b'a', 0xff, b'b']), "a\u{fffd}b");
}
