use chrono::Utc;
use odin::world::{Duration, WorldStats, MAX_GC_PAUSES, MAX_SAVES};

fn seconds_of(d: &Duration) -> f64 {
    match d {
        Duration::Millis(t) => t.parse::<f64>().unwrap() / 1000.0,
        Duration::Seconds(t) => t.parse::<f64>().unwrap(),
    }
}

#[test]
fn parses_world_lines() {
    let mut s = WorldStats::default();
    assert!(s.apply("09/09/2026 21:45:56:  Connections 3 ZDOS:76806  sent:250 recv:1009").changed);
    assert_eq!(s.zdo_count, Some(76806));
    assert_eq!(s.connections, Some(3));
    assert!(s.apply(
        "09/09/2026 23:39:40: ZDOMan.LoadChunks - Starting to load 77,904 zdos from 12 Chunks. SessionID: 1, WorldVersion: 35 [DeepNorth]"
    ).changed);
    assert_eq!(s.zdo_count, Some(77904));
    assert!(s.apply(
        "09/09/2026 21:31:21: Time 8893.43944863975, day:4    nextm:9270.00001072884  skipspeed:31.38"
    ).changed);
    assert_eq!(s.day, Some(4));
    assert!(s.apply("09/09/2026 23:49:31: World save (5/5) done. Total time [2,844ms]").changed);
    assert!(s.apply("09/09/2026 19:44:05: World auto backup saved [2975ms]").changed);
    assert_eq!(s.saves.len(), 2);
    assert_eq!(s.saves[0].kind, "save");
    assert!((seconds_of(&s.saves[0].duration) - 2.844).abs() < 1e-9);
    assert_eq!(s.saves[1].kind, "backup");
    s.boot_started = Some(Utc::now().timestamp() - 52);
    // a failed Steam registration has the success line as its prefix
    assert!(!s.apply("09/09/2026 23:39:50: Game server connected failed\n").changed);
    assert!(s.load_seconds.is_none());
    // lines arrive from the tail with their newline
    assert!(s.apply("09/09/2026 23:40:04: Game server connected\n").changed);
    assert!(s.load_seconds.is_some_and(|l| (52.0..54.0).contains(&(l as f64))));
    // re-registration after a failure logs the same line; load time stays the first one
    s.boot_started = Some(Utc::now().timestamp() - 900);
    assert!(s.apply("09/09/2026 23:55:04: Game server connected\n").changed);
    assert!(s.load_seconds.is_some_and(|l| (52.0..54.0).contains(&(l as f64))));
    assert!(s.apply("09/09/2026 22:00:00: ZRpc timeout detected").changed);
    assert_eq!(s.rpc_timeouts, 1);
    assert!(s.apply("09/09/2026 22:41:31: Player history entry with index 2:  Viking (Steam_76561190000000000, 164E6C13B3370AED)").changed);
    assert!(s.apply("09/09/2026 21:44:13: Peer 76561190000000000 has wrong password").changed);
    assert!(s.apply("09/09/2026 21:44:20: Peer 76561190000000000 has wrong password").changed);
    assert!(s.apply("09/09/2026 21:44:30: Peer 76561190000000001 has wrong password").changed);
    assert_eq!(s.wrong_password.len(), 2);
    assert_eq!(s.wrong_password[0].count, 2);
    assert_eq!(s.wrong_password[0].name, "Viking");
    assert_eq!(s.wrong_password[1].name, "");
    assert!(!s.apply("09/09/2026 22:00:00: Sending message to save player profiles").changed);
}

#[test]
fn parses_gc_packets_and_send_failures() {
    let mut s = WorldStats::default();
    assert!(s.apply("09/13/2026 21:19:57:  Connections 5 ZDOS:454072  sent:3444 recv:582").changed);
    assert!(s.apply("09/13/2026 21:29:58:  Connections 5 ZDOS:454035  sent:1023 recv:732").changed);
    assert_eq!(s.packets_sent, 4467);
    assert_eq!(s.packets_received, 1314);
    assert!(s.apply(
        "Total: 1492.614768 ms (FindLiveObjects: 130.303470 ms CreateObjectMapping: 101.198868 ms MarkObjects: 1253.295171 ms  DeleteObjects: 7.816326 ms)\n"
    ).changed);
    assert_eq!(s.gc_pauses.len(), 1);
    assert!((seconds_of(&s.gc_pauses[0].duration) - 1.492614768).abs() < 1e-9);
    assert!(s.apply("09/13/2026 17:26:59: Failed to send data k_EResultNoConnection").changed);
    assert!(s.apply("09/13/2026 17:26:59: Failed to send data k_EResultNoConnection").changed);
    assert_eq!(s.send_failures, 2);
    assert!(!s.apply("09/13/2026 17:00:00: Sending message to save player profiles").changed);
}

#[test]
fn parses_connection_and_unload_lines() {
    let mut s = WorldStats::default();
    assert!(s.apply("09/13/2026 19:09:14: Server ID 90071992547409920").changed);
    assert_eq!(s.server_id.as_deref(), Some("90071992547409920"));
    assert!(s.apply("09/13/2026 19:09:42: Got handshake from client 76561190000000000").changed);
    assert!(s.apply("09/13/2026 19:09:42: Network version check, their:40, mine:40").changed);
    assert!(s.apply("09/13/2026 19:09:43: Network version check, their:39, mine:40").changed);
    assert_eq!(s.network_version, Some(40));
    assert_eq!(s.version_mismatches, 1);
    assert!(s.apply(
        "09/13/2026 19:09:42: Got status changed msg k_ESteamNetworkingConnectionState_Connecting"
    ).changed);
    assert!(s.apply(
        "09/13/2026 19:09:42: Got status changed msg k_ESteamNetworkingConnectionState_Connected"
    ).changed);
    assert!(s.apply(
        "09/13/2026 19:09:42: Got status changed msg k_ESteamNetworkingConnectionState_Connected\n"
    ).changed);
    assert!(s.apply("09/13/2026 19:09:42: Accepting connection k_EResultOK").changed);
    assert!(s.apply("09/13/2026 19:09:50: Accepting connection k_EResultBanned").changed);
    assert_eq!(s.handshakes, 1);
    assert_eq!(*s.connection_states.get("Connecting").unwrap(), 1);
    assert_eq!(*s.connection_states.get("Connected").unwrap(), 2);
    assert_eq!(*s.connection_results.get("OK").unwrap(), 1);
    assert_eq!(*s.connection_results.get("Banned").unwrap(), 1);
    assert!(
        s.apply("Unloading 6 unused Assets to reduce memory usage. Loaded Objects now: 146522.").changed
    );
    assert_eq!(s.loaded_objects, Some(146522));
    assert_eq!(s.asset_unloads, 1);
    assert!(!s.apply("Unloading 4 Unused Serialized files (Serialized files now loaded: 8)").changed);
}

#[test]
fn keeps_bounded_gc_history() {
    let mut s = WorldStats::default();
    for _ in 0..(MAX_GC_PAUSES + 10) {
        s.record_gc_pause("500");
    }
    assert_eq!(s.gc_pauses.len(), MAX_GC_PAUSES);
}

#[test]
fn keeps_bounded_save_history() {
    let mut s = WorldStats::default();
    for _ in 0..(MAX_SAVES + 10) {
        s.record_save("save", "1000");
    }
    assert_eq!(s.saves.len(), MAX_SAVES);
}
