use downloader::manager::{DownloadError, DownloadManager};
use downloader::state::{JobState, MediaType};

fn submit_movie(m: &mut DownloadManager, id: &str, title: &str) -> Result<(), DownloadError> {
    m.start_download(
        id.to_string(),
        title.to_string(),
        MediaType::Movie,
        None,
        None,
        format!("http://host/{}", id),
    )
}

fn state_of(m: &DownloadManager, id: &str) -> JobState {
    m.get(&id.to_string()).expect("job must exist").status
}

fn progress_of(m: &DownloadManager, id: &str) -> u32 {
    m.get(&id.to_string()).expect("job must exist").progress
}

#[test]
fn first_submission_starts_downloading_immediately() {
    let mut m = DownloadManager::new("dl".to_string());
    submit_movie(&mut m, "m1", "First").unwrap();
    assert_eq!(state_of(&m, "m1"), JobState::Downloading);
    assert_eq!(m.count_in_state(JobState::Downloading), 1);
}

#[test]
fn second_submission_waits_until_first_completes() {
    let mut m = DownloadManager::new("dl".to_string());
    submit_movie(&mut m, "m1", "First").unwrap();
    submit_movie(&mut m, "m2", "Second").unwrap();
    assert_eq!(state_of(&m, "m1"), JobState::Downloading);
    assert_eq!(state_of(&m, "m2"), JobState::Queued);

    m.finish_download(&"m1".to_string()).unwrap();
    assert_eq!(state_of(&m, "m1"), JobState::Completed);
    assert_eq!(state_of(&m, "m2"), JobState::Downloading);
}

#[test]
fn duplicate_id_is_rejected_and_first_job_untouched() {
    let mut m = DownloadManager::new("dl".to_string());
    submit_movie(&mut m, "m1", "First").unwrap();
    m.update_progress(&"m1".to_string(), 1234, 123).unwrap();

    let r = m.start_download(
        "m1".to_string(),
        "Other".to_string(),
        MediaType::Movie,
        None,
        None,
        "http://host/other".to_string(),
    );
    assert_eq!(r, Err(DownloadError::AlreadyExists));
    assert_eq!(state_of(&m, "m1"), JobState::Downloading);
    assert_eq!(progress_of(&m, "m1"), 1234);
    let info = m.get(&"m1".to_string()).unwrap();
    assert_eq!(info.title, "First".to_string());
}

#[test]
fn same_destination_for_two_live_jobs_is_rejected() {
    let mut m = DownloadManager::new("dl".to_string());
    submit_movie(&mut m, "m1", "SameTitle").unwrap();
    let r = submit_movie(&mut m, "m2", "SameTitle");
    assert_eq!(r, Err(DownloadError::AlreadyExists));
    assert!(m.get(&"m2".to_string()).is_none());
}

#[test]
fn progress_is_monotone_and_full_only_on_completion() {
    let mut m = DownloadManager::new("dl".to_string());
    submit_movie(&mut m, "m1", "First").unwrap();

    m.update_progress(&"m1".to_string(), 2500, 250).unwrap();
    assert_eq!(progress_of(&m, "m1"), 2500);
    m.update_progress(&"m1".to_string(), 1000, 100).unwrap();
    assert_eq!(progress_of(&m, "m1"), 2500);
    m.update_progress(&"m1".to_string(), 9999, 999).unwrap();
    assert_eq!(progress_of(&m, "m1"), 9999);
    assert_eq!(state_of(&m, "m1"), JobState::Downloading);

    m.finish_download(&"m1".to_string()).unwrap();
    assert_eq!(progress_of(&m, "m1"), 10000);
    assert_eq!(state_of(&m, "m1"), JobState::Completed);
}

#[test]
fn cancel_stops_progress_updates_and_frees_the_slot() {
    let mut m = DownloadManager::new("dl".to_string());
    submit_movie(&mut m, "m1", "First").unwrap();
    submit_movie(&mut m, "m2", "Second").unwrap();
    m.update_progress(&"m1".to_string(), 4000, 400).unwrap();

    m.cancel_download(&"m1".to_string()).unwrap();
    assert_eq!(state_of(&m, "m1"), JobState::Cancelled);
    assert_eq!(state_of(&m, "m2"), JobState::Downloading);

    let r = m.update_progress(&"m1".to_string(), 5000, 500);
    assert_eq!(r, Err(DownloadError::InvalidTransition));
    assert_eq!(progress_of(&m, "m1"), 4000);
}

#[test]
fn cancel_of_a_queued_job_is_terminal() {
    let mut m = DownloadManager::new("dl".to_string());
    submit_movie(&mut m, "m1", "First").unwrap();
    submit_movie(&mut m, "m2", "Second").unwrap();
    m.cancel_download(&"m2".to_string()).unwrap();
    assert_eq!(state_of(&m, "m2"), JobState::Cancelled);
    assert_eq!(
        m.finish_download(&"m2".to_string()),
        Err(DownloadError::InvalidTransition)
    );
}

#[test]
fn retry_resets_progress_and_error_and_requeues() {
    let mut m = DownloadManager::new("dl".to_string());
    submit_movie(&mut m, "m1", "First").unwrap();
    submit_movie(&mut m, "m2", "Second").unwrap();
    m.update_progress(&"m1".to_string(), 7000, 700).unwrap();
    m.fail_download(&"m1".to_string(), "connection reset".to_string())
        .unwrap();
    assert_eq!(state_of(&m, "m1"), JobState::Error);
    assert_eq!(
        m.get(&"m1".to_string()).unwrap().error,
        Some("connection reset".to_string())
    );
    assert_eq!(state_of(&m, "m2"), JobState::Downloading);

    m.retry_download(&"m1".to_string()).unwrap();
    let info = m.get(&"m1".to_string()).unwrap();
    assert_eq!(info.progress, 0);
    assert_eq!(info.error, None);
    assert_eq!(info.status, JobState::Queued);

    m.finish_download(&"m2".to_string()).unwrap();
    assert_eq!(state_of(&m, "m1"), JobState::Downloading);
}

#[test]
fn retry_of_a_cancelled_job_requeues() {
    let mut m = DownloadManager::new("dl".to_string());
    submit_movie(&mut m, "m1", "First").unwrap();
    m.cancel_download(&"m1".to_string()).unwrap();
    m.retry_download(&"m1".to_string()).unwrap();
    assert_eq!(state_of(&m, "m1"), JobState::Downloading);
    assert_eq!(progress_of(&m, "m1"), 0);
}

#[test]
fn retry_of_a_live_job_is_rejected() {
    let mut m = DownloadManager::new("dl".to_string());
    submit_movie(&mut m, "m1", "First").unwrap();
    assert_eq!(
        m.retry_download(&"m1".to_string()),
        Err(DownloadError::InvalidTransition)
    );
}

#[test]
fn unknown_id_reports_not_found() {
    let mut m = DownloadManager::new("dl".to_string());
    assert_eq!(
        m.cancel_download(&"nope".to_string()),
        Err(DownloadError::NotFound)
    );
    assert_eq!(
        m.retry_download(&"nope".to_string()),
        Err(DownloadError::NotFound)
    );
    assert_eq!(
        m.finish_download(&"nope".to_string()),
        Err(DownloadError::NotFound)
    );
    assert_eq!(
        m.fail_download(&"nope".to_string(), "x".to_string()),
        Err(DownloadError::NotFound)
    );
    assert_eq!(
        m.update_progress(&"nope".to_string(), 1, 1),
        Err(DownloadError::NotFound)
    );
    assert!(m.get(&"nope".to_string()).is_none());
}

#[test]
fn raising_the_ceiling_admits_a_queued_job_immediately() {
    let mut m = DownloadManager::new("dl".to_string());
    submit_movie(&mut m, "m1", "First").unwrap();
    submit_movie(&mut m, "m2", "Second").unwrap();
    submit_movie(&mut m, "m3", "Third").unwrap();
    assert_eq!(m.count_in_state(JobState::Downloading), 1);
    assert_eq!(m.count_in_state(JobState::Queued), 2);

    m.set_max_concurrent(2);
    assert_eq!(state_of(&m, "m1"), JobState::Downloading);
    assert_eq!(state_of(&m, "m2"), JobState::Downloading);
    assert_eq!(state_of(&m, "m3"), JobState::Queued);
    assert_eq!(m.count_in_state(JobState::Downloading), 2);
}

#[test]
fn lowering_the_ceiling_lets_running_transfers_drain() {
    let mut m = DownloadManager::new("dl".to_string());
    m.set_max_concurrent(2);
    submit_movie(&mut m, "m1", "First").unwrap();
    submit_movie(&mut m, "m2", "Second").unwrap();
    submit_movie(&mut m, "m3", "Third").unwrap();
    assert_eq!(m.count_in_state(JobState::Downloading), 2);

    m.set_max_concurrent(1);
    assert_eq!(m.count_in_state(JobState::Downloading), 2);

    m.finish_download(&"m1".to_string()).unwrap();
    assert_eq!(m.count_in_state(JobState::Downloading), 1);
    assert_eq!(state_of(&m, "m3"), JobState::Queued);
}

#[test]
fn admission_is_fifo_by_submission_order() {
    let mut m = DownloadManager::new("dl".to_string());
    submit_movie(&mut m, "m1", "First").unwrap();
    submit_movie(&mut m, "m2", "Second").unwrap();
    submit_movie(&mut m, "m3", "Third").unwrap();
    m.finish_download(&"m1".to_string()).unwrap();
    assert_eq!(state_of(&m, "m2"), JobState::Downloading);
    assert_eq!(state_of(&m, "m3"), JobState::Queued);
    m.finish_download(&"m2".to_string()).unwrap();
    assert_eq!(state_of(&m, "m3"), JobState::Downloading);
}

#[test]
fn admitted_movie_gets_its_destination_path() {
    let mut m = DownloadManager::new("downloads".to_string());
    submit_movie(&mut m, "m1", "Inception").unwrap();
    let info = m.get(&"m1".to_string()).unwrap();
    assert_eq!(info.path, Some("downloads/Inception.mp4".to_string()));
}

#[test]
fn admitted_episode_gets_a_zero_padded_destination_path() {
    let mut m = DownloadManager::new("downloads".to_string());
    m.start_download(
        "42".to_string(),
        "Show".to_string(),
        MediaType::Episode,
        Some(2),
        Some(5),
        "http://host/ep".to_string(),
    )
    .unwrap();
    let info = m.get(&"42".to_string()).unwrap();
    assert_eq!(info.path, Some("downloads/Show_S02E05.mp4".to_string()));
}

#[test]
fn queued_job_has_no_path_until_admitted() {
    let mut m = DownloadManager::new("dl".to_string());
    submit_movie(&mut m, "m1", "First").unwrap();
    submit_movie(&mut m, "m2", "Second").unwrap();
    assert_eq!(m.get(&"m2".to_string()).unwrap().path, None);
    m.finish_download(&"m1".to_string()).unwrap();
    assert_eq!(
        m.get(&"m2".to_string()).unwrap().path,
        Some("dl/Second.mp4".to_string())
    );
}

#[test]
fn progress_update_on_a_queued_job_is_rejected() {
    let mut m = DownloadManager::new("dl".to_string());
    submit_movie(&mut m, "m1", "First").unwrap();
    submit_movie(&mut m, "m2", "Second").unwrap();
    assert_eq!(
        m.update_progress(&"m2".to_string(), 100, 10),
        Err(DownloadError::InvalidTransition)
    );
}

#[test]
fn status_snapshot_lists_every_job_in_submission_order() {
    let mut m = DownloadManager::new("dl".to_string());
    submit_movie(&mut m, "m1", "First").unwrap();
    submit_movie(&mut m, "m2", "Second").unwrap();
    let snapshot = m.get_status();
    assert_eq!(snapshot.len(), 2);
    assert_eq!(snapshot[0].0, "m1".to_string());
    assert_eq!(snapshot[0].1.status, JobState::Downloading);
    assert_eq!(snapshot[1].0, "m2".to_string());
    assert_eq!(snapshot[1].1.status, JobState::Queued);
}

#[test]
fn byte_counter_is_monotone_and_reset_by_retry() {
    let mut m = DownloadManager::new("dl".to_string());
    submit_movie(&mut m, "m1", "First").unwrap();
    assert_eq!(m.get(&"m1".to_string()).unwrap().downloaded, 0);

    // A server without a content length reports no percentage; pollers
    // still see the byte counter grow and never shrink.
    m.update_progress(&"m1".to_string(), 0, 4096).unwrap();
    assert_eq!(m.get(&"m1".to_string()).unwrap().downloaded, 4096);
    assert_eq!(progress_of(&m, "m1"), 0);
    m.update_progress(&"m1".to_string(), 0, 2000).unwrap();
    assert_eq!(m.get(&"m1".to_string()).unwrap().downloaded, 4096);
    m.update_progress(&"m1".to_string(), 0, 9000).unwrap();
    assert_eq!(m.get(&"m1".to_string()).unwrap().downloaded, 9000);

    m.fail_download(&"m1".to_string(), "connection reset".to_string())
        .unwrap();
    m.retry_download(&"m1".to_string()).unwrap();
    assert_eq!(m.get(&"m1".to_string()).unwrap().downloaded, 0);
}
