use osef_me::download::{
    calculate_progress, extract_beatmapset_id, mark_completed, mark_failed, queue_download,
    record_progress, set_total, should_emit_update, submit_download, test_download_event,
    try_start, DownloadCenter, DownloadState,
};

fn queue_n(center: &mut DownloadCenter, n: i32) {
    for id in 1..=n {
        queue_download(
            center,
            id,
            format!("{}.osz", id),
            format!("Set {} by Someone", id),
        );
    }
}

fn count_state(center: &DownloadCenter, state: DownloadState) -> usize {
    center.jobs.iter().filter(|j| j.status == state).count()
}

#[test]
fn seven_jobs_against_five_permits() {
    let mut center = DownloadCenter::new(5);
    queue_n(&mut center, 7);
    let admitted: Vec<bool> = (1..=7).map(|id| try_start(&mut center, id)).collect();
    assert_eq!(admitted, vec![true, true, true, true, true, false, false]);
    assert_eq!(count_state(&center, DownloadState::Downloading), 5);
    assert_eq!(count_state(&center, DownloadState::Queued), 2);
    assert_eq!(center.active, 5);
}

#[test]
fn finished_job_frees_a_permit() {
    let mut center = DownloadCenter::new(2);
    queue_n(&mut center, 3);
    assert!(try_start(&mut center, 1));
    assert!(try_start(&mut center, 2));
    assert!(!try_start(&mut center, 3));
    mark_completed(&mut center, 1);
    assert_eq!(center.active, 1);
    assert!(try_start(&mut center, 3));
    assert_eq!(count_state(&center, DownloadState::Downloading), 2);
    assert_eq!(count_state(&center, DownloadState::Completed), 1);
}

#[test]
fn completion_sets_full_progress() {
    let mut center = DownloadCenter::new(1);
    queue_n(&mut center, 1);
    assert!(try_start(&mut center, 1));
    mark_completed(&mut center, 1);
    assert_eq!(center.jobs[0].status, DownloadState::Completed);
    assert_eq!(center.jobs[0].progress, 100);
    assert_eq!(center.active, 0);
}

#[test]
fn failure_captures_the_message_and_frees_the_permit() {
    let mut center = DownloadCenter::new(1);
    queue_n(&mut center, 1);
    assert!(try_start(&mut center, 1));
    mark_failed(&mut center, 1, String::from("HTTP 404"));
    assert_eq!(center.jobs[0].status, DownloadState::Failed);
    assert_eq!(center.jobs[0].error.as_deref(), Some("HTTP 404"));
    assert_eq!(center.active, 0);
    // a failed job is not restarted by itself
    assert!(!try_start(&mut center, 1));
}

#[test]
fn progress_tracks_bytes() {
    let mut center = DownloadCenter::new(1);
    queue_n(&mut center, 1);
    set_total(&mut center, 1, 1_024_000);
    record_progress(&mut center, 1, 512_000);
    assert_eq!(center.jobs[0].total_bytes, Some(1_024_000));
    assert_eq!(center.jobs[0].downloaded_bytes, 512_000);
    assert_eq!(center.jobs[0].progress, 50);
}

#[test]
fn progress_percentage_edge_cases() {
    assert_eq!(calculate_progress(512_000, 1_024_000), 50);
    assert_eq!(calculate_progress(0, 100), 0);
    assert_eq!(calculate_progress(100, 100), 100);
    assert_eq!(calculate_progress(1, 3), 33);
    // an unknown total reads as zero progress
    assert_eq!(calculate_progress(500, 0), 0);
}

#[test]
fn update_broadcast_threshold() {
    // crossing a 100 KiB boundary inside the chunk triggers a broadcast
    assert!(should_emit_update(102_400, 1_000_000, 10));
    assert!(should_emit_update(102_405, 1_000_000, 10));
    assert!(!should_emit_update(51_200, 1_000_000, 10));
    // completion always triggers one
    assert!(should_emit_update(999, 999, 1));
}

#[test]
fn archive_id_comes_from_the_filename() {
    assert_eq!(extract_beatmapset_id("123456.osz"), 123456);
    assert_eq!(extract_beatmapset_id("987.osz"), 987);
    assert_eq!(extract_beatmapset_id("abc.osz"), 0);
    assert_eq!(extract_beatmapset_id("123456.zip"), 0);
    assert_eq!(extract_beatmapset_id(""), 0);
    assert_eq!(extract_beatmapset_id("12.34.osz"), 0);
}

#[test]
fn submission_derives_id_and_display_name() {
    let mut center = DownloadCenter::new(5);
    let id = submit_download(
        &mut center,
        String::from("424242.osz"),
        "Some Songs",
        "A Mapper",
    );
    assert_eq!(id, 424242);
    assert_eq!(center.jobs.len(), 1);
    assert_eq!(center.jobs[0].beatmapset_id, 424242);
    assert_eq!(center.jobs[0].display_name, "Some Songs by A Mapper");
    assert_eq!(center.jobs[0].status, DownloadState::Queued);
    assert_eq!(center.jobs[0].progress, 0);
}

#[test]
fn resubmitting_an_id_resets_its_record() {
    let mut center = DownloadCenter::new(5);
    queue_n(&mut center, 1);
    assert!(try_start(&mut center, 1));
    record_progress(&mut center, 1, 999);
    queue_download(&mut center, 1, String::from("1.osz"), String::from("again"));
    assert_eq!(center.jobs.len(), 1);
    assert_eq!(center.jobs[0].status, DownloadState::Queued);
    assert_eq!(center.jobs[0].downloaded_bytes, 0);
    // the replaced mid-transfer job gave its permit back to the model
    assert_eq!(center.active, 0);
}

#[test]
fn debug_event_plants_a_mid_transfer_job() {
    let mut center = DownloadCenter::new(5);
    test_download_event(&mut center, 77);
    assert_eq!(center.jobs.len(), 1);
    assert_eq!(center.jobs[0].beatmapset_id, 77);
    assert_eq!(center.jobs[0].filename, "test_77.osz");
    assert_eq!(center.jobs[0].display_name, "Test Beatmap by Test Creator");
    assert_eq!(center.jobs[0].status, DownloadState::Downloading);
    assert_eq!(center.jobs[0].progress, 50);
    assert_eq!(center.jobs[0].downloaded_bytes, 512_000);
    assert_eq!(center.jobs[0].total_bytes, Some(1_024_000));
    assert_eq!(center.active, 1);
}
