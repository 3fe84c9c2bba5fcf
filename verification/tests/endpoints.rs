use downloader::api::{download_episode, download_movie, get_download_status};
use downloader::manager::DownloadManager;
use downloader::models::{EpisodeDownloadRequest, MovieDownloadRequest};
use downloader::notify::NotificationManager;
use downloader::state::JobState;
use downloader::transfer::{
    http_failure_detail, progress_units, TransferAction, TransferEvent, TransferState,
};

#[test]
fn movie_endpoint_accepts_then_rejects_duplicates() {
    let mut m = DownloadManager::new("dl".to_string());
    let ok = download_movie(
        &mut m,
        MovieDownloadRequest { id: "77".to_string(), slug: "inception".to_string() },
        "http://host/77".to_string(),
    );
    assert!(ok);
    let again = download_movie(
        &mut m,
        MovieDownloadRequest { id: "77".to_string(), slug: "inception".to_string() },
        "http://host/77".to_string(),
    );
    assert!(!again);
}

#[test]
fn episode_endpoint_derives_the_id_from_the_title_id() {
    let mut m = DownloadManager::new("dl".to_string());
    let ok = download_episode(
        &mut m,
        EpisodeDownloadRequest {
            title_id: 42,
            slug: "show".to_string(),
            season: 1,
            episode: 3,
        },
        "http://host/ep".to_string(),
    );
    assert!(ok);
    let info = m.get(&"42".to_string()).unwrap();
    assert_eq!(info.season, Some(1));
    assert_eq!(info.episode, Some(3));
    assert_eq!(info.status, JobState::Downloading);
}

#[test]
fn status_endpoint_reports_labels_and_progress() {
    let mut m = DownloadManager::new("dl".to_string());
    download_movie(
        &mut m,
        MovieDownloadRequest { id: "a".to_string(), slug: "one".to_string() },
        "http://host/a".to_string(),
    );
    download_movie(
        &mut m,
        MovieDownloadRequest { id: "b".to_string(), slug: "two".to_string() },
        "http://host/b".to_string(),
    );
    m.update_progress(&"a".to_string(), 5000, 500).unwrap();
    let rows = get_download_status(&m);
    assert_eq!(rows.len(), 2);
    assert_eq!(rows[0], ("a".to_string(), "downloading".to_string(), 5000));
    assert_eq!(rows[1], ("b".to_string(), "queued".to_string(), 0));
}

#[test]
fn http_404_fails_the_job_with_the_status_in_the_detail() {
    let mut m = DownloadManager::new("dl".to_string());
    download_movie(
        &mut m,
        MovieDownloadRequest { id: "m1".to_string(), slug: "gone".to_string() },
        "http://host/gone".to_string(),
    );
    let detail = http_failure_detail(404).expect("non-2xx must be a failure");
    assert_eq!(detail, "HTTP status 404".to_string());
    m.fail_download(&"m1".to_string(), detail).unwrap();
    let info = m.get(&"m1".to_string()).unwrap();
    assert_eq!(info.status, JobState::Error);
    assert_eq!(info.error, Some("HTTP status 404".to_string()));
    assert!(info.progress < 10000);
}

#[test]
fn successful_statuses_are_no_failure() {
    assert!(http_failure_detail(200).is_none());
    assert!(http_failure_detail(299).is_none());
    assert_eq!(http_failure_detail(301), Some("HTTP status 301".to_string()));
    assert_eq!(http_failure_detail(500), Some("HTTP status 500".to_string()));
}

#[test]
fn progress_units_follow_the_byte_ratio() {
    assert_eq!(progress_units(0, 200), 0);
    assert_eq!(progress_units(50, 200), 2500);
    assert_eq!(progress_units(199, 200), 9950);
    assert_eq!(progress_units(200, 200), 9999);
    assert_eq!(progress_units(12345, 0), 0);
}

#[test]
fn transfer_steps_report_complete_fail_and_abort() {
    let mut t = TransferState::new(Some(1000));
    match t.step(TransferEvent::Chunk { len: 250 }) {
        TransferAction::Report { units, bytes } => {
            assert_eq!(units, 2500);
            assert_eq!(bytes, 250);
        }
        _ => panic!("a chunk must report progress"),
    }
    match t.step(TransferEvent::Chunk { len: 250 }) {
        TransferAction::Report { units, bytes } => {
            assert_eq!(units, 5000);
            assert_eq!(bytes, 500);
        }
        _ => panic!("a chunk must report progress"),
    }
    match t.step(TransferEvent::Finished) {
        TransferAction::Complete => {},
        _ => panic!("the end of the body must complete the job"),
    }
    match t.step(TransferEvent::Failed { detail: "boom".to_string() }) {
        TransferAction::Fail { detail } => assert_eq!(detail, "boom".to_string()),
        _ => panic!("a failure must fail the job"),
    }
    match t.step(TransferEvent::TimedOut) {
        TransferAction::Fail { detail } => assert_eq!(detail, "inactivity timeout".to_string()),
        _ => panic!("a timeout must fail the job"),
    }
    match t.step(TransferEvent::CancelObserved) {
        TransferAction::Abort => {},
        _ => panic!("an observed cancel must abort"),
    }
}

#[test]
fn unknown_content_length_reports_a_byte_counter_and_no_percentage() {
    let mut t = TransferState::new(None);
    match t.step(TransferEvent::Chunk { len: 4096 }) {
        TransferAction::Report { units, bytes } => {
            assert_eq!(units, 0);
            assert_eq!(bytes, 4096);
        }
        _ => panic!("a chunk must report progress"),
    }
    match t.step(TransferEvent::Chunk { len: 1000 }) {
        TransferAction::Report { units, bytes } => {
            assert_eq!(units, 0);
            assert_eq!(bytes, 5096);
        }
        _ => panic!("a chunk must report progress"),
    }
}

#[test]
fn notifications_carry_the_expected_text() {
    let nm = NotificationManager::new();
    let done = nm.notify_download_complete(&"Inception".to_string());
    assert_eq!(done.title, "Download Completato".to_string());
    assert_eq!(done.body, "Inception è stato scaricato con successo!".to_string());
    assert_eq!(done.icon, None);

    let failed = nm.notify_download_error(&"Inception".to_string(), &"HTTP status 404".to_string());
    assert_eq!(failed.title, "Errore Download".to_string());
    assert_eq!(
        failed.body,
        "Errore durante il download di Inception: HTTP status 404".to_string()
    );

    let fresh = nm.notify_new_episode(&"Show".to_string(), 3, 12);
    assert_eq!(fresh.title, "Nuovo Episodio Disponibile".to_string());
    assert_eq!(fresh.body, "S3E12 di Show è ora disponibile!".to_string());
}
