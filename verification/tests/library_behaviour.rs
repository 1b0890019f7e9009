use odin::clock::{unix_now, unix_seconds};
use odin::event::LogEvent;
use odin::float_text::float_text_accepted;
use odin::log_line::{classify_line, tracked_line};
use odin::metrics::{
    escape_prom_label_value, metrics_text, player_metrics, server_metrics, world_metrics,
    OnlinePlayer, SaveDurations, ServerInfo,
};
use odin::numbers::{parse_u32, parse_u64, push_decimal, push_signed_decimal};
use odin::table::Table;
use odin::text::contains_text;
use odin::world::{handle_world_events, Duration, Save, WorldStats, MAX_SAVES};

fn unescape(t: &str) -> String {
    let cs: Vec<char> = t.chars().collect();
    let mut out = String::new();
    let mut i = 0;
    while i < cs.len() {
        if cs[i] == '\\' && i + 1 < cs.len() {
            out.push(if cs[i + 1] == 'n' { '\n' } else { cs[i + 1] });
            i += 2;
        } else {
            out.push(cs[i]);
            i += 1;
        }
    }
    out
}

#[test]
fn escapes_backslashes_quotes_and_newlines() {
    assert_eq!(escape_prom_label_value("plain"), "plain");
    assert_eq!(escape_prom_label_value("a\\b\"c\nd"), "a\\\\b\\\"c\\nd");
    assert_eq!(escape_prom_label_value(""), "");
}

#[test]
fn escaped_label_reads_back_and_has_no_newline() {
    for value in ["Vi\"king\\", "line\nbreak", "ünïcode ✓", "\\n"] {
        let escaped = escape_prom_label_value(value);
        assert!(!escaped.contains('\n'));
        assert_eq!(unescape(&escaped), value);
    }
}

#[test]
fn parses_integers_like_std() {
    assert_eq!(parse_u64("76806"), Some(76806));
    assert_eq!(parse_u64("+5"), Some(5));
    assert_eq!(parse_u64("18446744073709551615"), Some(u64::MAX));
    assert_eq!(parse_u64("18446744073709551616"), None);
    assert_eq!(parse_u64(""), None);
    assert_eq!(parse_u64("+"), None);
    assert_eq!(parse_u64("-1"), None);
    assert_eq!(parse_u64("12a"), None);
    assert_eq!(parse_u64("\u{0663}"), None);
    assert_eq!(parse_u32("4294967295"), Some(u32::MAX));
    assert_eq!(parse_u32("4294967296"), None);
    for text in ["0", "007", "+42", "99999999999999999999", " 1", "1.5"] {
        assert_eq!(parse_u64(text), text.parse::<u64>().ok());
        assert_eq!(parse_u32(text), text.parse::<u32>().ok());
    }
}

#[test]
fn written_counts_read_back() {
    for n in [0u64, 7, 10, 4467, u64::MAX] {
        let mut s = String::new();
        push_decimal(&mut s, n as u128);
        assert_eq!(s, n.to_string());
        assert_eq!(parse_u64(&s), Some(n));
    }
    for n in [0i64, -1, 52, i64::MIN, i64::MAX] {
        let mut s = String::new();
        push_signed_decimal(&mut s, n as i128);
        assert_eq!(s, n.to_string());
    }
}

#[test]
fn finds_text() {
    let hay: Vec<char> = "Got handshake from client 1".chars().collect();
    assert!(contains_text(&hay, "handshake"));
    assert!(contains_text(&hay, ""));
    assert!(!contains_text(&hay, "client 12"));
}

#[test]
fn accepts_what_the_float_parser_accepts() {
    let texts = [
        "2844", "2.844", "1e3", "+5", "-5", "1E-2", "inf", "-INF", "Infinity", "nan", "NaN", ".5",
        "5.", "1.5e+7", "1e", "e5", ".", "", "1.2.3", "+", "-", " 1", "1 ", "1_000", "0x10",
        "infinit", "infinityy", "++1", "1e+", "1e-", "1.e5", ".e5", "\u{0663}", "1,000", "nAn",
        "1e0005",
    ];
    for text in texts {
        assert_eq!(float_text_accepted(text), text.parse::<f64>().is_ok(), "{text:?}");
    }
}

#[test]
fn save_durations_are_kept_as_logged() {
    let mut s = WorldStats::default();
    let cases = [
        ("2,844", "2844"),
        ("1e3", "1e3"),
        ("+5", "+5"),
        ("1E-2", "1E-2"),
        ("inf", "inf"),
        ("1,492.614768", "1492.614768"),
    ];
    for (i, (millis, kept)) in cases.iter().enumerate() {
        assert!(!s.record_save_at("backup", millis, 100 + i as i64));
        assert_eq!(s.saves.len(), i + 1);
        match &s.saves[i].duration {
            Duration::Millis(t) => assert_eq!(t, kept),
            Duration::Seconds(_) => panic!("a logged duration is in milliseconds"),
        }
        assert_eq!(s.saves[i].at, 100 + i as i64);
    }
    assert!(s.record_save_at("save", "10", 1));
    s.record_gc_pause_at("1e3", 7);
    assert_eq!(s.gc_pauses.len(), 1);
}

#[test]
fn durations_that_are_not_numbers_record_nothing() {
    let mut s = WorldStats::default();
    for millis in [".", "", "1.2.3", ",", "\u{0663}", "1e", "five"] {
        assert!(!s.record_save_at("save", millis, 1));
        s.record_gc_pause_at(millis, 1);
    }
    assert!(s.saves.is_empty());
    assert!(s.gc_pauses.is_empty());
}

#[test]
fn save_history_keeps_the_newest() {
    let mut s = WorldStats::default();
    for i in 0..(MAX_SAVES + 3) {
        s.record_save_at("save", &format!("{}", i + 1), i as i64);
    }
    assert_eq!(s.saves.len(), MAX_SAVES);
    assert_eq!(s.saves[0].at, 3);
    assert_eq!(s.saves.last().unwrap().at, (MAX_SAVES + 2) as i64);
}

#[test]
fn classifies_lines() {
    match classify_line("x Peer 7656 has wrong password") {
        Some(LogEvent::WrongPassword { steam_id }) => assert_eq!(steam_id, "7656"),
        _ => panic!("not recognised"),
    }
    match classify_line("09/09/2026 22:41:31: Player history entry with index 2:  Viking (Steam_765, 1)") {
        Some(LogEvent::PlayerHistory { name, steam_id }) => {
            assert_eq!(name, "Viking");
            assert_eq!(steam_id, "765");
        }
        _ => panic!("not recognised"),
    }
    match classify_line("Connections 3 ZDOS:76806") {
        Some(LogEvent::Connections { connections, zdos, packets }) => {
            assert_eq!(connections, "3");
            assert_eq!(zdos, "76806");
            assert!(packets.is_none());
        }
        _ => panic!("not recognised"),
    }
    assert!(classify_line("nothing to see").is_none());
}

#[test]
fn untracked_lines_are_passed_over() {
    let mut s = WorldStats::default();
    // the day pattern matches, but the line lacks the phrase the filter looks for
    assert!(!tracked_line("Time 1.5, day:4 x"));
    let r = handle_world_events(&mut s, "Time 1.5, day:4 x");
    assert!(!r.changed);
    assert_eq!(s.day, None);
    let r = handle_world_events(&mut s, "Time 1.5, day:4 skipspeed:1");
    assert!(r.changed);
    assert_eq!(s.day, Some(4));
}

#[test]
fn world_size_is_asked_for_after_loading_and_saving() {
    let mut s = WorldStats::default();
    assert!(s.apply("ZDOMan.LoadChunks - Starting to load 1,000 zdos").stat_world);
    assert_eq!(s.zdo_count, Some(1000));
    assert!(s.apply("World save (1/1) done. Total time [12ms]").stat_world);
    let r = s.apply("World auto backup saved [12ms]");
    assert!(r.changed && !r.stat_world);
    let r = s.apply("World save (1/1) done. Total time [.ms]");
    assert!(r.changed && !r.stat_world);
    assert_eq!(s.saves.len(), 2);
}

#[test]
fn load_time_is_set_once_per_boot() {
    let mut s = WorldStats::default();
    s.server_started(1000);
    s.apply_event(&LogEvent::ServerConnected, 1052);
    assert_eq!(s.load_seconds, Some(52));
    s.apply_event(&LogEvent::ServerConnected, 2000);
    assert_eq!(s.load_seconds, Some(52));
    s.connections = Some(3);
    s.rpc_timeouts = 9;
    s.server_started(3000);
    assert_eq!(s.load_seconds, None);
    assert_eq!(s.connections, None);
    assert_eq!(s.boot_started, Some(3000));
    assert_eq!(s.rpc_timeouts, 9);
    s.apply_event(&LogEvent::ServerConnected, 3010);
    assert_eq!(s.load_seconds, Some(10));
}

#[test]
fn load_time_from_any_start() {
    let mut s = WorldStats::default();
    s.server_started(i64::MIN);
    s.apply_event(&LogEvent::ServerConnected, i64::MAX);
    assert_eq!(s.load_seconds, Some(i64::MAX as i128 - i64::MIN as i128));
    let mut t = WorldStats::default();
    t.boot_started = Some(i64::MIN);
    assert!(t.apply("Game server connected").changed);
    assert!(t.load_seconds.is_some());
}

#[test]
fn connected_without_a_start_changes_nothing() {
    let mut s = WorldStats::default();
    assert!(s.apply("Game server connected").changed);
    assert_eq!(s.load_seconds, None);
}

#[test]
fn counters_at_their_limit_are_left_alone() {
    let mut s = WorldStats::default();
    s.rpc_timeouts = u64::MAX;
    let r = s.apply("ZRpc timeout detected");
    assert!(!r.changed);
    assert_eq!(s.rpc_timeouts, u64::MAX);
    s.packets_sent = u64::MAX - 1;
    assert!(!s.event_fits(&LogEvent::Connections {
        connections: "1".into(),
        zdos: "1".into(),
        packets: Some(("2".into(), "0".into())),
    }));
    assert!(!s.apply("Connections 1 ZDOS:5 sent:2 recv:0").changed);
    assert_eq!(s.zdo_count, None);
    assert!(s.apply("Connections 1 ZDOS:5 sent:1 recv:0").changed);
    assert_eq!(s.packets_sent, u64::MAX);
}

#[test]
fn counters_only_grow() {
    let mut s = WorldStats::default();
    let lines = [
        "Got handshake from client 1",
        "Failed to send data k_EResultX",
        "Network version check, their:1, mine:2",
        "Network version check, their:2, mine:2",
        "Unloading 3 unused Assets to reduce memory usage. Loaded Objects now: 10",
        "Accepting connection k_EResultOK",
        "Got status changed msg k_ESteamNetworkingConnectionState_Connected",
        "Connections 1 ZDOS:5  sent:7 recv:8",
    ];
    for line in lines {
        let before = (
            s.handshakes,
            s.send_failures,
            s.version_mismatches,
            s.asset_unloads,
            s.packets_sent,
            s.packets_received,
        );
        assert!(s.apply(line).changed);
        let after = (
            s.handshakes,
            s.send_failures,
            s.version_mismatches,
            s.asset_unloads,
            s.packets_sent,
            s.packets_received,
        );
        assert!(after.0 >= before.0 && after.1 >= before.1 && after.2 >= before.2);
        assert!(after.3 >= before.3 && after.4 >= before.4 && after.5 >= before.5);
    }
    assert_eq!(s.version_mismatches, 1);
    assert_eq!(s.network_version, Some(2));
    assert_eq!(s.packets_sent, 7);
    assert_eq!(s.packets_received, 8);
}

#[test]
fn rejected_joins_keep_one_entry_per_id() {
    let mut s = WorldStats::default();
    s.apply_event(
        &LogEvent::PlayerHistory { name: "Ragnar".into(), steam_id: "2".into() },
        0,
    );
    for id in ["1", "2", "1", "1", "2"] {
        s.record_wrong_password(id);
    }
    assert_eq!(s.wrong_password.len(), 2);
    assert_eq!((s.wrong_password[0].steam_id.as_str(), s.wrong_password[0].count), ("1", 3));
    assert_eq!(s.wrong_password[0].name, "");
    assert_eq!((s.wrong_password[1].steam_id.as_str(), s.wrong_password[1].count), ("2", 2));
    assert_eq!(s.wrong_password[1].name, "Ragnar");
    // the id joins later: its next rejection carries the name
    s.apply_event(
        &LogEvent::PlayerHistory { name: "Bjorn".into(), steam_id: "1".into() },
        0,
    );
    s.record_wrong_password("1");
    assert_eq!(s.wrong_password[0].name, "Bjorn");
    assert_eq!(s.wrong_password[0].count, 4);
}

#[test]
fn update_check_is_available_when_builds_differ() {
    let mut s = WorldStats::default();
    s.record_update_check("100", "101", 5);
    let u = s.update.as_ref().unwrap();
    assert!(u.available);
    assert_eq!(u.checked_at, 5);
    s.record_update_check("101", "101", 6);
    assert!(!s.update.as_ref().unwrap().available);
}

#[test]
fn tables_count_and_overwrite() {
    let mut t: Table<u64> = Table::new();
    t.bump("a".into());
    t.bump("b".into());
    t.bump("a".into());
    assert_eq!(t.get("a"), Some(&2));
    assert_eq!(t.get("b"), Some(&1));
    assert_eq!(t.get("c"), None);
    assert_eq!(t.len(), 2);
    let mut names: Table<String> = Table::new();
    names.insert("1".into(), "x".into());
    names.insert("1".into(), "y".into());
    assert_eq!(names.len(), 1);
    assert_eq!(names.get("1").map(|s| s.as_str()), Some("y"));
}

fn world_with_saves(saves: &[(&str, &str)]) -> WorldStats {
    let mut w = WorldStats::default();
    w.saves = saves
        .iter()
        .enumerate()
        .map(|(i, (kind, seconds))| Save {
            kind: kind.to_string(),
            duration: Duration::Seconds(seconds.to_string()),
            at: i as i64,
        })
        .collect();
    w
}

#[test]
fn histogram_buckets_are_cumulative() {
    let w = world_with_saves(&[("save", "0.2"), ("save", "2.5"), ("save", "70"), ("backup", "1")]);
    let durations = SaveDurations {
        seconds: vec!["0.2".into(), "2.5".into(), "70".into(), "1".into()],
        buckets_below: vec![1, 5, 11, 3],
        save_sum: "72.7".into(),
        backup_sum: "1".into(),
    };
    let lines = world_metrics(&w, &durations);
    let bucket = |kind: &str, le: &str| -> u64 {
        let prefix = format!("valheim_world_save_duration_seconds_bucket{{type=\"{kind}\", le=\"{le}\"}} ");
        let line = lines.iter().find(|l| l.starts_with(&prefix)).unwrap();
        line[prefix.len()..].parse().unwrap()
    };
    let les = ["0.1", "0.25", "0.5", "1", "2", "3", "5", "10", "20", "30", "60", "+Inf"];
    let counts: Vec<u64> = les.iter().map(|le| bucket("save", le)).collect();
    assert_eq!(counts, vec![0, 1, 1, 1, 1, 2, 2, 2, 2, 2, 2, 3]);
    assert!(counts.windows(2).all(|p| p[0] <= p[1]));
    assert_eq!(bucket("backup", "1"), 1);
    assert_eq!(bucket("backup", "0.5"), 0);
    assert!(lines.contains(&"valheim_world_save_duration_seconds_sum{type=\"save\"} 72.7".to_string()));
    assert!(lines.contains(&"valheim_world_save_duration_seconds_count{type=\"save\"} 3".to_string()));
    assert!(lines.contains(&"valheim_world_last_save_seconds{type=\"save\"} 70".to_string()));
    assert!(lines.contains(&"valheim_world_last_save_timestamp_seconds{type=\"backup\"} 3".to_string()));
}

#[test]
fn world_metrics_without_saves() {
    let w = WorldStats::default();
    let durations = SaveDurations {
        seconds: vec![],
        buckets_below: vec![],
        save_sum: "0".into(),
        backup_sum: "0".into(),
    };
    assert_eq!(world_metrics(&w, &durations), vec!["valheim_rpc_timeouts_total 0".to_string()]);
}

#[test]
fn server_and_player_samples() {
    let info = ServerInfo {
        name: "My \"Server\"".into(),
        version: "g=1.0.7,n=39".into(),
        map: "Dedicated".into(),
        online: true,
        players: 2,
        max_players: 10,
        bepinex_enabled: false,
    };
    let lines = server_metrics(&info);
    let labels = "{name=\"My \\\"Server\\\"\", version=\"g=1.0.7,n=39\", map=\"Dedicated\"}";
    assert_eq!(
        lines,
        vec![
            format!("valheim_online{labels} 1"),
            format!("valheim_current_player_count{labels} 2"),
            format!("valheim_max_player_count{labels} 10"),
            format!("valheim_bepinex_installed{labels} 0"),
        ]
    );
    let players = vec![OnlinePlayer { name: "Viking".into(), joined_at: 1789020710 }];
    assert_eq!(
        player_metrics(&players),
        vec![
            "valheim_player_online{player=\"Viking\"} 1".to_string(),
            "valheim_player_joined_timestamp_seconds{player=\"Viking\"} 1789020710".to_string(),
        ]
    );
    assert_eq!(metrics_text(&vec!["a".to_string(), "b".to_string()]), "a\nb\n");
    assert_eq!(metrics_text(&vec![]), "\n");
    assert_eq!(metrics_text(&lines), format!("{}\n", lines.join("\n")));
}

#[test]
fn every_quote_in_an_escaped_label_is_escaped() {
    let escaped = escape_prom_label_value("a\\\"b\\\\\"c\"");
    let cs: Vec<char> = escaped.chars().collect();
    for (i, c) in cs.iter().enumerate() {
        if *c == '"' {
            let run = cs[..i].iter().rev().take_while(|&&x| x == '\\').count();
            assert_eq!(run % 2, 1);
        }
    }
    let tail = cs.iter().rev().take_while(|&&x| x == '\\').count();
    assert_eq!(tail % 2, 0);
}

#[test]
fn one_sample_per_rejected_join_and_per_latest_save() {
    let mut w = world_with_saves(&[("save", "1"), ("backup", "2"), ("save", "3")]);
    for id in ["7", "8", "7"] {
        w.record_wrong_password(id);
    }
    let durations = SaveDurations {
        seconds: vec!["1".into(), "2".into(), "3".into()],
        buckets_below: vec![3, 4, 5],
        save_sum: "4".into(),
        backup_sum: "2".into(),
    };
    let lines = world_metrics(&w, &durations);
    let with = |p: &str| -> Vec<&String> { lines.iter().filter(|l| l.starts_with(p)).collect() };
    assert_eq!(
        with("valheim_wrong_password_total"),
        vec![
            "valheim_wrong_password_total{steam_id=\"7\", name=\"\"} 2",
            "valheim_wrong_password_total{steam_id=\"8\", name=\"\"} 1",
        ]
    );
    assert_eq!(
        with("valheim_world_last_save_seconds{type=\"save\"} "),
        vec!["valheim_world_last_save_seconds{type=\"save\"} 3"]
    );
    assert_eq!(
        with("valheim_world_last_save_timestamp_seconds{type=\"save\"} "),
        vec!["valheim_world_last_save_timestamp_seconds{type=\"save\"} 2"]
    );
    assert_eq!(
        with("valheim_world_last_save_seconds{type=\"backup\"} "),
        vec!["valheim_world_last_save_seconds{type=\"backup\"} 2"]
    );
    let none = world_with_saves(&[("save", "1")]);
    let d = SaveDurations {
        seconds: vec!["1".into()],
        buckets_below: vec![3],
        save_sum: "1".into(),
        backup_sum: "0".into(),
    };
    let lines = world_metrics(&none, &d);
    assert!(!lines.iter().any(|l| l.starts_with("valheim_world_last_save_seconds{type=\"backup\"}")));
    assert!(!lines.iter().any(|l| l.starts_with("valheim_world_last_save_timestamp_seconds{type=\"backup\"}")));
}

#[test]
fn clock_readings_round_down_to_whole_seconds() {
    assert_eq!(unix_seconds(Ok(1_700_000_000)), 1_700_000_000);
    assert_eq!(unix_seconds(Ok(u64::MAX)), i64::MAX);
    assert_eq!(unix_seconds(Err((5, 0))), -5);
    assert_eq!(unix_seconds(Err((5, 1))), -6);
    assert_eq!(unix_seconds(Err((i64::MAX as u64, 0))), -i64::MAX);
    assert_eq!(unix_seconds(Err((i64::MAX as u64, 1))), i64::MIN);
    assert_eq!(unix_seconds(Err((u64::MAX, 0))), i64::MIN);
    assert!(unix_now() > 1_600_000_000);
}
