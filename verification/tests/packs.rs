use osef_me::chart::{Chart, HitEvent, TimingSegment};
use osef_me::pack::{
    add_current_to_pack, get_public_pack, replace_version_line, update_pack_beatmap,
    update_pack_beatmap_version, update_pack_metadata, PackBeatmapModifications, PackError,
    PackMaker, PackMetadata,
};
use osef_me::serialize::{serialize_beatmap, Beatmapset};
use osef_me::monitor::ChartIdentity;

fn small_chart() -> Chart {
    Chart {
        events: vec![
            HitEvent::Tap { time: 0, column: 0 },
            HitEvent::Tap { time: 1000, column: 1 },
        ],
        timing: vec![TimingSegment { time: 0, beat_len: 500 }],
        effects: Vec::new(),
        difficulties: Vec::new(),
        samples: Vec::new(),
        version: String::from("Hard"),
        audio_file: String::from("audio.mp3"),
        column_count: 4,
        od_tenths: 80,
        hp_tenths: 70,
    }
}

fn display() -> Beatmapset {
    let info = ChartIdentity {
        folder: String::from("f"),
        filename: String::from("chart.osu"),
        cover: String::from("bg.jpg"),
        title: String::from("Title"),
        artist: String::from("Artist"),
        creator: String::from("Mapper"),
        difficulty: String::from("Hard"),
        beatmap_id: 1,
        object_count: 2,
        slider_count: 0,
        od_tenths: 80,
        hp_tenths: 70,
        length_ms: 1000,
    };
    serialize_beatmap(&info, None)
}

#[test]
fn pack_collects_entries() {
    let mut pack = PackMaker::new();
    assert!(pack.beatmaps.is_empty());
    add_current_to_pack(&mut pack, display(), Some(small_chart()));
    add_current_to_pack(&mut pack, display(), None);
    assert_eq!(pack.beatmaps.len(), 2);
    let (meta, public) = get_public_pack(&pack);
    assert_eq!(meta.name, "");
    assert_eq!(public.len(), 2);
    assert_eq!(public[0].beatmap.title, "Title");
}

#[test]
fn pack_metadata_is_replaced_wholesale() {
    let mut pack = PackMaker::new();
    update_pack_metadata(
        &mut pack,
        PackMetadata {
            name: String::from("My Pack"),
            author: String::from("Me"),
            creator: String::from("Also Me"),
        },
    );
    assert_eq!(pack.metadata.name, "My Pack");
    assert_eq!(pack.metadata.creator, "Also Me");
}

#[test]
fn renaming_updates_chart_and_display() {
    let mut pack = PackMaker::new();
    add_current_to_pack(&mut pack, display(), Some(small_chart()));
    update_pack_beatmap_version(&mut pack, 0, String::from("Renamed")).unwrap();
    assert_eq!(pack.beatmaps[0].chart.as_ref().unwrap().version, "Renamed");
    assert_eq!(pack.beatmaps[0].beatmap.beatmaps[0].name, "Renamed");
}

#[test]
fn renaming_checks_index_and_chart() {
    let mut pack = PackMaker::new();
    assert_eq!(
        update_pack_beatmap_version(&mut pack, 0, String::from("x")).unwrap_err(),
        PackError::InvalidIndex
    );
    add_current_to_pack(&mut pack, display(), None);
    assert_eq!(
        update_pack_beatmap_version(&mut pack, 0, String::from("x")).unwrap_err(),
        PackError::NoChart
    );
}

#[test]
fn pack_modifications_rewrite_the_chart() {
    let mut pack = PackMaker::new();
    add_current_to_pack(&mut pack, display(), Some(small_chart()));
    let mods = PackBeatmapModifications {
        od_tenths: Some(90),
        hp_tenths: Some(60),
        target_centirate: Some(200),
        ln_mode: None,
        ln_gap: None,
        ln_min_distance: None,
        version_name: Some(String::from("Double Time")),
    };
    update_pack_beatmap(&mut pack, 0, &mods).unwrap();
    let chart = pack.beatmaps[0].chart.as_ref().unwrap();
    assert_eq!(chart.od_tenths, 90);
    assert_eq!(chart.hp_tenths, 60);
    assert_eq!(chart.events[1], HitEvent::Tap { time: 500, column: 1 });
    assert_eq!(chart.version, "Double Time");
    let first = &pack.beatmaps[0].beatmap.beatmaps[0];
    assert_eq!(first.od_tenths, 90);
    assert_eq!(first.hp_tenths, 60);
    assert_eq!(first.name, "Double Time");
}

#[test]
fn pack_modification_errors_leave_the_pack_alone() {
    let mut pack = PackMaker::new();
    add_current_to_pack(&mut pack, display(), Some(small_chart()));
    let mods = PackBeatmapModifications {
        od_tenths: Some(90),
        hp_tenths: None,
        target_centirate: Some(0),
        ln_mode: None,
        ln_gap: None,
        ln_min_distance: None,
        version_name: None,
    };
    assert_eq!(update_pack_beatmap(&mut pack, 0, &mods).unwrap_err(), PackError::InvalidRate);
    let chart = pack.beatmaps[0].chart.as_ref().unwrap();
    assert_eq!(chart.od_tenths, 80);
    assert_eq!(chart.version, "Hard");
}

#[test]
fn pack_noln_strips_holds() {
    let mut pack = PackMaker::new();
    let mut c = small_chart();
    c.events = vec![HitEvent::Hold { time: 0, duration: 500, column: 0 }];
    add_current_to_pack(&mut pack, display(), Some(c));
    let mods = PackBeatmapModifications {
        od_tenths: None,
        hp_tenths: None,
        target_centirate: None,
        ln_mode: Some(String::from("noln")),
        ln_gap: None,
        ln_min_distance: None,
        version_name: None,
    };
    update_pack_beatmap(&mut pack, 0, &mods).unwrap();
    let chart = pack.beatmaps[0].chart.as_ref().unwrap();
    assert_eq!(chart.events[0], HitEvent::Tap { time: 0, column: 0 });
    // stripping alone does not rename the entry
    assert_eq!(chart.version, "Hard");
}

#[test]
fn pack_modifications_refuse_a_malformed_chart() {
    let mut pack = PackMaker::new();
    let mut c = small_chart();
    // out of time order: the chart invariant is broken
    c.events = vec![
        HitEvent::Tap { time: 1000, column: 0 },
        HitEvent::Tap { time: 0, column: 1 },
    ];
    add_current_to_pack(&mut pack, display(), Some(c));
    let mods = PackBeatmapModifications {
        od_tenths: Some(90),
        hp_tenths: None,
        target_centirate: None,
        ln_mode: None,
        ln_gap: None,
        ln_min_distance: None,
        version_name: None,
    };
    assert_eq!(
        update_pack_beatmap(&mut pack, 0, &mods).unwrap_err(),
        PackError::MalformedChart
    );
    let chart = pack.beatmaps[0].chart.as_ref().unwrap();
    assert_eq!(chart.od_tenths, 80);
    assert_eq!(chart.events[0], HitEvent::Tap { time: 1000, column: 0 });
}

#[test]
fn version_line_is_rewritten() {
    let text = "osu file format v14\nVersion: Old Name\nAudioFilename: a.mp3\n";
    let out = replace_version_line(text, "New Name");
    assert_eq!(out, "osu file format v14\nVersion: New Name\nAudioFilename: a.mp3\n");
}

#[test]
fn version_line_handles_crlf_and_missing_trailing_newline() {
    let text = "Version: Old\r\nTail: x";
    let out = replace_version_line(text, "New");
    assert_eq!(out, "Version: New\nTail: x\n");
}

#[test]
fn version_line_on_empty_text() {
    assert_eq!(replace_version_line("", "X"), "");
}
