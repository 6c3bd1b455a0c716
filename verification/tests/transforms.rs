use osef_me::chart::{Chart, HitEvent, TimingSegment, column_of_x, is_well_formed};
use osef_me::edit::{apply_modifications, derive_modified_filename, BeatmapModifications, EditError};
use osef_me::ln::{full_ln, full_ln_beat_divisor, noln, SynthError};
use osef_me::rescale::{rescale, rescale_times, TransformError};

fn tap(time: u64, column: u32) -> HitEvent {
    HitEvent::Tap { time, column }
}

fn hold(time: u64, duration: u64, column: u32) -> HitEvent {
    HitEvent::Hold { time, duration, column }
}

fn chart_with(events: Vec<HitEvent>) -> Chart {
    Chart {
        events,
        timing: vec![TimingSegment { time: 0, beat_len: 500 }],
        effects: vec![100],
        difficulties: vec![200],
        samples: vec![300],
        version: String::from("Base"),
        audio_file: String::from("audio.mp3"),
        column_count: 4,
        od_tenths: 80,
        hp_tenths: 70,
    }
}

#[test]
fn rescale_halves_times_at_double_rate() {
    let c = chart_with(vec![tap(0, 0), tap(1000, 1), hold(2000, 600, 2)]);
    let out = rescale(&c, 200).unwrap();
    assert_eq!(out.events[0], tap(0, 0));
    assert_eq!(out.events[1], tap(500, 1));
    assert_eq!(out.events[2], hold(1000, 300, 2));
    assert_eq!(out.timing[0].beat_len, 250);
    assert_eq!(out.effects[0], 50);
    assert_eq!(out.difficulties[0], 100);
    assert_eq!(out.samples[0], 150);
    assert_eq!(out.version, "Base x2");
    assert_eq!(out.audio_file, "audio_r2.ogg");
    assert_eq!(out.od_tenths, 80);
}

#[test]
fn rescale_slow_rate_stretches_times() {
    let c = chart_with(vec![tap(1000, 0)]);
    let out = rescale(&c, 50).unwrap();
    assert_eq!(out.events[0], tap(2000, 0));
    assert_eq!(out.version, "Base x0.5");
    assert_eq!(out.audio_file, "audio_r0.5.ogg");
}

#[test]
fn rescale_fractional_rate_tag() {
    let c = chart_with(vec![tap(1000, 0)]);
    let out = rescale(&c, 135).unwrap();
    // 1000 * 100 / 135 = 740 (rounded down)
    assert_eq!(out.events[0], tap(740, 0));
    assert_eq!(out.version, "Base x1.35");
}

#[test]
fn rescale_rejects_zero_rate() {
    let c = chart_with(vec![tap(0, 0)]);
    assert_eq!(rescale(&c, 0).unwrap_err(), TransformError::InvalidRate);
}

#[test]
fn rescale_rejects_time_overflow() {
    let c = chart_with(vec![tap(u64::MAX, 0)]);
    // rate 0.5 would double the largest representable time
    assert_eq!(rescale(&c, 50).unwrap_err(), TransformError::TimeOverflow);
}

#[test]
fn rescale_round_trip_restores_times_within_tolerance() {
    // rate 1.5 as the rational 3/2, then its inverse 2/3
    let c = chart_with(vec![tap(0, 0), tap(1000, 1), tap(2000, 2), hold(3333, 777, 3)]);
    let once = rescale_times(&c, 3, 2).unwrap();
    let back = rescale_times(&once, 2, 3).unwrap();
    for (orig, rt) in c.events.iter().zip(back.events.iter()) {
        let (t0, t1) = match (orig, rt) {
            (HitEvent::Tap { time: a, .. }, HitEvent::Tap { time: b, .. }) => (*a, *b),
            (HitEvent::Hold { time: a, .. }, HitEvent::Hold { time: b, .. }) => (*a, *b),
            _ => panic!("event kind changed"),
        };
        assert!(t1 <= t0);
        // (t0 - t1) * den < num + den, with num = 3, den = 2
        assert!((t0 - t1) * 2 < 5);
    }
    assert_eq!(back.events[1], tap(999, 1));
}

#[test]
fn full_ln_converts_spaced_taps() {
    // events at 0, 1000, 2000 ms in one column; gap 50, min duration 100
    let mut c = chart_with(vec![tap(0, 0), tap(1000, 0), tap(2000, 0)]);
    full_ln(&mut c, 50, 100);
    assert_eq!(c.events[0], hold(0, 950, 0));
    assert_eq!(c.events[1], hold(1000, 950, 0));
    // the final tap's candidate is the gap itself, below the minimum
    assert_eq!(c.events[2], tap(2000, 0));
    assert_eq!(c.version, "Base Full LN");
}

#[test]
fn full_ln_holds_never_overlap() {
    let mut c = chart_with(vec![
        tap(0, 0),
        tap(100, 0),
        tap(150, 0),
        tap(1000, 0),
        tap(1050, 1),
        tap(2000, 1),
    ]);
    full_ln(&mut c, 10, 20);
    let mut ends = [0u64; 4];
    for e in &c.events {
        if let HitEvent::Hold { time, duration, column } = e {
            assert!(*time >= ends[*column as usize]);
            ends[*column as usize] = time + duration;
        }
    }
}

#[test]
fn full_ln_respects_occupied_columns() {
    // the second tap falls inside the first synthesized hold and is skipped
    let mut c = chart_with(vec![tap(0, 0), tap(100, 0), tap(5000, 0)]);
    full_ln(&mut c, 10, 20);
    assert_eq!(c.events[0], hold(0, 90, 0));
    // tap at 100 -> next at 5000: duration 4890, column free again at 90
    assert_eq!(c.events[1], hold(100, 4890, 0));
    assert_eq!(c.events[2], tap(5000, 0));
}

#[test]
fn full_ln_beat_divisor_uses_longest_beat() {
    let mut c = chart_with(vec![tap(0, 0), tap(2000, 0)]);
    // one timing segment with beat_len 500; divisor 1/2 -> gap 250
    full_ln_beat_divisor(&mut c, 1, 2, None).unwrap();
    // first tap: next at 2000 -> duration 2000 - 0 - 250 = 1750 > min (= gap 250)
    assert_eq!(c.events[0], hold(0, 1750, 0));
    assert_eq!(c.events[1], tap(2000, 0));
}

#[test]
fn beat_divisor_rejects_empty_timing() {
    let mut c = chart_with(vec![tap(0, 0), tap(2000, 0)]);
    c.timing = Vec::new();
    let err = full_ln_beat_divisor(&mut c, 1, 2, None).unwrap_err();
    assert_eq!(err, SynthError::EmptyTiming);
    // the chart is untouched
    assert_eq!(c.events, vec![tap(0, 0), tap(2000, 0)]);
    assert_eq!(c.version, "Base");
}

#[test]
fn beat_divisor_rejects_zero_denominator() {
    let mut c = chart_with(vec![tap(0, 0)]);
    let err = full_ln_beat_divisor(&mut c, 1, 0, None).unwrap_err();
    assert_eq!(err, SynthError::InvalidDivisor);
    assert_eq!(c.version, "Base");
}

#[test]
fn apply_modifications_noln_mode_tags_the_version() {
    let c = chart_with(vec![hold(0, 500, 0), tap(1000, 1)]);
    let mods = BeatmapModifications {
        od_tenths: None,
        hp_tenths: None,
        target_centirate: None,
        ln_mode: Some(String::from("noln")),
        ln_gap: None,
        ln_min_distance: None,
    };
    let (out, tags) = apply_modifications(c, &mods).unwrap();
    assert_eq!(out.events[0], tap(0, 0));
    assert_eq!(out.version, "Base NoLN");
    assert_eq!(tags, vec![String::from("NoLN")]);
}

#[test]
fn noln_strips_holds_to_taps() {
    let mut c = chart_with(vec![hold(0, 500, 0), tap(1000, 1), hold(2000, 100, 2)]);
    noln(&mut c);
    assert_eq!(c.events[0], tap(0, 0));
    assert_eq!(c.events[1], tap(1000, 1));
    assert_eq!(c.events[2], tap(2000, 2));
    // the stripper itself never annotates; tagging is the
    // modification layer's job
    assert_eq!(c.version, "Base");
}

#[test]
fn noln_on_hold_free_chart_is_identity() {
    let events = vec![tap(0, 0), tap(500, 1), tap(900, 2)];
    let mut c = chart_with(events.clone());
    noln(&mut c);
    assert_eq!(c.events, events);
    assert_eq!(c.version, "Base");
    assert_eq!(c.timing[0].beat_len, 500);
    assert_eq!(c.audio_file, "audio.mp3");
    assert_eq!(c.od_tenths, 80);
}

#[test]
fn column_of_x_divides_playfield_in_four() {
    assert_eq!(column_of_x(0), 0);
    assert_eq!(column_of_x(64), 0);
    assert_eq!(column_of_x(128), 1);
    assert_eq!(column_of_x(320), 2);
    assert_eq!(column_of_x(448), 3);
    assert_eq!(column_of_x(511), 3);
    assert_eq!(column_of_x(10000), 3);
}

#[test]
fn well_formedness_check() {
    let sorted = chart_with(vec![tap(0, 0), tap(10, 1)]);
    assert!(is_well_formed(&sorted));
    let unsorted = chart_with(vec![tap(10, 0), tap(0, 1)]);
    assert!(!is_well_formed(&unsorted));
    let bad_column = chart_with(vec![tap(0, 9)]);
    assert!(!is_well_formed(&bad_column));
}

#[test]
fn apply_modifications_od_and_rate() {
    let c = chart_with(vec![tap(0, 0), tap(1000, 0)]);
    let mods = BeatmapModifications {
        od_tenths: Some(85),
        hp_tenths: None,
        target_centirate: Some(150),
        ln_mode: None,
        ln_gap: None,
        ln_min_distance: None,
    };
    let (out, tags) = apply_modifications(c, &mods).unwrap();
    assert_eq!(out.od_tenths, 85);
    assert_eq!(out.events[1], tap(666, 0));
    assert_eq!(out.version, "Base OD8.5 x1.5");
    assert_eq!(tags, vec![String::from("OD8_5"), String::from("Rate1_5")]);
}

#[test]
fn apply_modifications_same_od_is_no_change() {
    let c = chart_with(vec![tap(0, 0)]);
    let mods = BeatmapModifications {
        od_tenths: Some(80),  // the chart already has OD 8.0
        hp_tenths: None,
        target_centirate: None,
        ln_mode: None,
        ln_gap: None,
        ln_min_distance: None,
    };
    assert_eq!(apply_modifications(c, &mods).unwrap_err(), EditError::NoModifications);
}

#[test]
fn apply_modifications_full_ln_mode() {
    let c = chart_with(vec![tap(0, 0), tap(1000, 0)]);
    let mods = BeatmapModifications {
        od_tenths: None,
        hp_tenths: None,
        target_centirate: None,
        ln_mode: Some(String::from("fullln")),
        ln_gap: Some(50),
        ln_min_distance: Some(100),
    };
    let (out, tags) = apply_modifications(c, &mods).unwrap();
    assert_eq!(out.events[0], hold(0, 950, 0));
    assert_eq!(out.version, "Base Full LN FullLN 50 100");
    assert_eq!(tags, vec![String::from("FullLN")]);
}

#[test]
fn apply_modifications_rejects_zero_rate() {
    let c = chart_with(vec![tap(0, 0)]);
    let mods = BeatmapModifications {
        od_tenths: None,
        hp_tenths: None,
        target_centirate: Some(0),
        ln_mode: None,
        ln_gap: None,
        ln_min_distance: None,
    };
    assert_eq!(apply_modifications(c, &mods).unwrap_err(), EditError::InvalidRate);
}

#[test]
fn derived_filename_joins_tags() {
    let tags = vec![String::from("OD8_5"), String::from("Rate1_5")];
    let name = derive_modified_filename("song.osu", &tags).unwrap();
    assert_eq!(name, "song_OD8_5_Rate1_5.osu");
}

#[test]
fn derived_filename_sanitizes_tags() {
    let tags = vec![String::from("A:B?C")];
    let name = derive_modified_filename("song.OSU", &tags).unwrap();
    assert_eq!(name, "song_A_B_C.osu");
}

#[test]
fn derived_filename_needs_extension() {
    let tags = vec![String::from("X")];
    assert_eq!(
        derive_modified_filename("song.mp3", &tags).unwrap_err(),
        EditError::NoOsuExtension
    );
}
