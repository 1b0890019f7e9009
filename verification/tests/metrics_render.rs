use odin::metrics::{world_metrics, SaveDurations};
use odin::world::{Duration, Save, WorldStats, WrongPassword};

const SAVE_BUCKETS: [f64; 11] = [0.1, 0.25, 0.5, 1.0, 2.0, 3.0, 5.0, 10.0, 20.0, 30.0, 60.0];

fn durations_of(world: &WorldStats) -> SaveDurations {
    let seconds: Vec<f64> = world
        .saves
        .iter()
        .map(|s| match &s.duration {
            Duration::Millis(t) => t.parse::<f64>().unwrap() / 1000.0,
            Duration::Seconds(t) => t.parse::<f64>().unwrap(),
        })
        .collect();
    let sum = |kind: &str| -> String {
        let total: f64 = world
            .saves
            .iter()
            .zip(&seconds)
            .filter(|(s, _)| s.kind == kind)
            .map(|(_, v)| *v)
            .sum();
        format!("{total}")
    };
    SaveDurations {
        seconds: seconds.iter().map(|s| s.to_string()).collect(),
        buckets_below: seconds
            .iter()
            .map(|&s| SAVE_BUCKETS.iter().filter(|&&le| le < s).count())
            .collect(),
        save_sum: sum("save"),
        backup_sum: sum("backup"),
    }
}

#[test]
fn world_metrics_render() {
    let mut world = WorldStats::default();
    world.zdo_count = Some(76806);
    world.day = Some(4);
    world.load_seconds = Some(52);
    world.rpc_timeouts = 1;
    world.wrong_password = vec![WrongPassword {
        steam_id: "76561190000000000".into(),
        name: "Viking".into(),
        count: 2,
    }];
    world.saves = vec![
        Save {
            kind: "save".into(),
            duration: Duration::Seconds("2.844".into()),
            at: 1_789_000_000,
        },
        Save {
            kind: "backup".into(),
            duration: Duration::Seconds("12.5".into()),
            at: 1_789_000_100,
        },
    ];
    let lines = world_metrics(&world, &durations_of(&world));
    let text = lines.join("\n");
    assert!(text.contains("valheim_world_zdo_count 76806"));
    assert!(text.contains("valheim_world_day 4"));
    assert!(text.contains("valheim_world_load_seconds 52"));
    assert!(text.contains("valheim_rpc_timeouts_total 1"));
    assert!(text
        .contains("valheim_wrong_password_total{steam_id=\"76561190000000000\", name=\"Viking\"} 2"));
    assert!(text.contains("valheim_world_last_save_seconds{type=\"save\"} 2.844"));
    assert!(text.contains("valheim_world_last_save_timestamp_seconds{type=\"backup\"} 1789000100"));
    assert!(text.contains("valheim_world_save_duration_seconds_bucket{type=\"save\", le=\"3\"} 1"));
    assert!(text.contains("valheim_world_save_duration_seconds_bucket{type=\"save\", le=\"2\"} 0"));
    assert!(
        text.contains("valheim_world_save_duration_seconds_bucket{type=\"backup\", le=\"+Inf\"} 1")
    );
    assert!(text.contains("valheim_world_save_duration_seconds_count{type=\"save\"} 1"));
}
