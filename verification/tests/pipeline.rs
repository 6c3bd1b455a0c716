use osef_me::chart::{Chart, HitEvent, TimingSegment};
use osef_me::config::{get_songs_path, get_theme, set_songs_path, set_theme, AppConfig};
use osef_me::connection::{
    init_step, is_osu_not_running_error, ConnectionStatus, InitDecision, InitObservation,
};
use osef_me::monitor::{
    detection_notifications, get_all_rates_from_state, get_current_beatmap_from_state,
    get_current_nps_data, publish_results, ChartIdentity, CurrentBeatmapData, Monitor,
    NotificationKind,
};
use osef_me::nps::calculate_nps_graph;
use osef_me::rates::{process_beatmap_rates, RateEntry, SkillsetScore};
use osef_me::serialize::{build_demo_beatmap, serialize_beatmap};

fn identity() -> ChartIdentity {
    ChartIdentity {
        folder: String::from("12345 Artist - Title"),
        filename: String::from("chart.osu"),
        cover: String::from("bg.jpg"),
        title: String::from("Title"),
        artist: String::from("Artist"),
        creator: String::from("Mapper"),
        difficulty: String::from("Hard"),
        beatmap_id: 999,
        object_count: 4,
        slider_count: 0,
        od_tenths: 80,
        hp_tenths: 70,
        length_ms: 1500,
    }
}

fn flat_skillset() -> SkillsetScore {
    SkillsetScore {
        overall: 10_000,
        stream: 10_000,
        jumpstream: 10_000,
        handstream: 10_000,
        stamina: 10_000,
        jackspeed: 10_000,
        chordjack: 10_000,
        technical: 10_000,
    }
}

#[test]
fn tick_processes_chart_changed_before_ratings() {
    // a chart with one lane per 512 units: four taps 500 ms apart in column 0
    let chart = Chart {
        events: vec![
            HitEvent::Tap { time: 0, column: 0 },
            HitEvent::Tap { time: 500, column: 0 },
            HitEvent::Tap { time: 1000, column: 0 },
            HitEvent::Tap { time: 1500, column: 0 },
        ],
        timing: vec![TimingSegment { time: 0, beat_len: 500 }],
        effects: Vec::new(),
        difficulties: Vec::new(),
        samples: Vec::new(),
        version: String::from("Hard"),
        audio_file: String::from("audio.mp3"),
        column_count: 4,
        od_tenths: 80,
        hp_tenths: 70,
    };

    // a new fingerprint warrants a detection cycle
    let mut monitor = Monitor::new();
    let fingerprint = String::from("fp-1");
    assert!(monitor.should_process(&fingerprint));

    // the fan-out across the supported rate keys
    let entries = vec![
        RateEntry { rate_key: String::from("1.0"), skillset_scores: flat_skillset() },
        RateEntry { rate_key: String::from("1.5"), skillset_scores: flat_skillset() },
    ];
    let encoded = String::from("encoded chart text");
    let rates = process_beatmap_rates(&entries, 1500, 1500, 120_000, &encoded, &Vec::new())
        .unwrap();
    let nps = calculate_nps_graph(&chart);

    // the chart identity is published before the heavier results
    let notes = detection_notifications(true);
    assert_eq!(
        notes,
        vec![
            NotificationKind::ChartChanged,
            NotificationKind::RatesReady,
            NotificationKind::DensityReady,
        ]
    );

    let mut current = CurrentBeatmapData::new();
    publish_results(&mut current, identity(), rates, nps);
    monitor.commit_fingerprint(fingerprint.clone());

    // afterwards the query side sees a non-empty rating set whose
    // centirates match the fan-out's rate keys x 100
    let seen = get_all_rates_from_state(&current);
    assert!(!seen.is_empty());
    let centirates: Vec<u64> = seen.iter().map(|r| r.centirate).collect();
    assert_eq!(centirates, vec![100, 150]);
    assert!(get_current_nps_data(&current).is_some());
    assert_eq!(
        get_current_beatmap_from_state(&current).as_ref().map(|i| i.title.as_str()),
        Some("Title")
    );

    // an identical fingerprint performs no further work
    assert!(!monitor.should_process(&fingerprint));
    assert!(monitor.should_process(&String::from("fp-2")));
}

#[test]
fn failed_cycle_emits_only_the_identity() {
    let notes = detection_notifications(false);
    assert_eq!(notes, vec![NotificationKind::ChartChanged]);
}

#[test]
fn connection_status_values() {
    let ok = ConnectionStatus::connected();
    assert!(ok.connected);
    assert!(ok.error.is_none());
    let down = ConnectionStatus::disconnected(String::from("gone"));
    assert!(!down.connected);
    assert_eq!(down.error.as_deref(), Some("gone"));
    let again = ConnectionStatus::reconnecting();
    assert!(!again.connected);
    assert_eq!(again.error.as_deref(), Some("Reconnecting..."));
}

#[test]
fn not_running_errors_are_recognized() {
    assert!(is_osu_not_running_error("Process not found"));
    assert!(is_osu_not_running_error("error: osu!.exe not found on host"));
    assert!(is_osu_not_running_error("Access denied"));
    assert!(is_osu_not_running_error("could not find osu process"));
    assert!(!is_osu_not_running_error("disk on fire"));
    assert!(!is_osu_not_running_error(""));
}

#[test]
fn bounded_retry_decisions() {
    assert_eq!(init_step(1, 3, InitObservation::Attached), InitDecision::Proceed);
    assert_eq!(init_step(1, 3, InitObservation::ProcessMissing), InitDecision::RetryAfterSleep);
    assert_eq!(init_step(2, 3, InitObservation::ReadFailed), InitDecision::RetryAfterSleep);
    assert_eq!(init_step(3, 3, InitObservation::ProcessMissing), InitDecision::GiveUp);
    assert_eq!(init_step(3, 3, InitObservation::Attached), InitDecision::Proceed);
}

#[test]
fn config_defaults_and_updates() {
    let mut config = AppConfig::default();
    assert_eq!(get_songs_path(&config), "Songs");
    assert_eq!(get_theme(&config), "dark");
    set_songs_path(&mut config, String::from("/mnt/songs"));
    set_theme(&mut config, String::from("light"));
    assert_eq!(get_songs_path(&config), "/mnt/songs");
    assert_eq!(get_theme(&config), "light");
}

#[test]
fn serialized_beatmap_carries_metadata() {
    let b = serialize_beatmap(&identity(), None);
    assert_eq!(b.title, "Title");
    assert_eq!(b.artist, "Artist");
    assert_eq!(b.creator, "Mapper");
    assert!(b.cover_url.is_none());
    assert_eq!(b.beatmaps.len(), 1);
    assert_eq!(b.beatmaps[0].name, "Hard");
    assert_eq!(b.beatmaps[0].beatmap_osu_id, 999);
    assert_eq!(b.beatmaps[0].count_circles, 4);
    assert_eq!(b.beatmaps[0].count_spinners, 0);
    assert!(b.beatmaps[0].ratings.is_empty());
}

#[test]
fn serialized_cover_is_a_data_url() {
    let bytes = vec![1u8, 2, 3];
    let b = serialize_beatmap(&identity(), Some(&bytes));
    // base64 of [1, 2, 3] is AQID
    assert_eq!(b.cover_url.as_deref(), Some("data:image/jpeg;base64,AQID"));
}

#[test]
fn demo_beatmap_weaves_in_the_counter() {
    let b = build_demo_beatmap(7);
    assert_eq!(b.artist, "Demo Artist 7");
    assert_eq!(b.title, "Demo Song 7");
    assert_eq!(b.creator, "Demo Mapper 7");
    assert_eq!(b.osu_id, Some(100_007));
}
