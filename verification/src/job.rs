//! The job record: one download request and everything tracked about it,
//! together with its mathematical view and well-formedness.

use crate::naming::dest_path_spec;
use crate::state::{is_terminal, JobState, MediaType};
use crate::FULL_PROGRESS;
use vstd::prelude::*;

verus! {

/// Everything the registry tracks about one download, apart from its
/// identifier (the registry keys jobs by id).
///
/// `progress` is in hundredths of a percent (`0..=FULL_PROGRESS`); it is
/// meaningful while the job is `Downloading` and equals `FULL_PROGRESS`
/// exactly when the job has completed. `downloaded` counts the bytes
/// written so far — the monotone counter pollers fall back on when the
/// server announced no content length and `progress` stays at zero.
/// `path` is set when the scheduler admits the job; `error` is present
/// exactly in state `Error`.
pub struct DownloadInfo {
    pub status: JobState,
    pub progress: u32,
    pub downloaded: u64,
    pub title: String,
    pub media_type: MediaType,
    pub season: Option<i32>,
    pub episode: Option<i32>,
    pub path: Option<String>,
    pub error: Option<String>,
    pub url: String,
}

/// The mathematical view of a `DownloadInfo`: strings become character
/// sequences, everything else carries over.
#[verifier::ext_equal]
pub ghost struct InfoSnap {
    pub status: JobState,
    pub progress: u32,
    pub downloaded: u64,
    pub title: Seq<char>,
    pub media_type: MediaType,
    pub season: Option<i32>,
    pub episode: Option<i32>,
    pub path: Option<Seq<char>>,
    pub error: Option<Seq<char>>,
    pub url: Seq<char>,
}

impl View for DownloadInfo {
    type V = InfoSnap;

    open spec fn view(&self) -> InfoSnap {
        InfoSnap {
            status: self.status,
            progress: self.progress,
            downloaded: self.downloaded,
            title: self.title@,
            media_type: self.media_type,
            season: self.season,
            episode: self.episode,
            path: match self.path {
                Some(p) => Some(p@),
                None => None,
            },
            error: match self.error {
                Some(e) => Some(e@),
                None => None,
            },
            url: self.url@,
        }
    }
}

/// One registered job: its caller-visible identifier and its record.
pub struct Job {
    pub id: String,
    pub info: DownloadInfo,
}

/// The mathematical view of a registered job.
#[verifier::ext_equal]
pub ghost struct JobSnap {
    pub id: Seq<char>,
    pub info: InfoSnap,
}

impl View for Job {
    type V = JobSnap;

    open spec fn view(&self) -> JobSnap {
        JobSnap { id: self.id@, info: self.info@ }
    }
}

/// Well-formedness of a single job record, relative to the download
/// directory `dir` its path is derived under:
/// - season and episode are present exactly for episodes;
/// - `progress` stays in range, is zero while queued, reaches
///   `FULL_PROGRESS` exactly on completion and stays strictly below it
///   in every other state;
/// - the byte counter is zero while queued (a fresh submission and a
///   retry both start from nothing);
/// - the destination path, once set, is the one derived from the job's
///   title, season and episode;
/// - an admitted (downloading) job has its path set;
/// - `error` is present exactly in state `Error`.
pub open spec fn info_wf(j: InfoSnap, dir: Seq<char>) -> bool {
    &&& j.progress <= FULL_PROGRESS
    &&& (j.media_type == MediaType::Movie ==> j.season is None && j.episode is None)
    &&& (j.media_type == MediaType::Episode ==> j.season is Some && j.episode is Some)
    &&& (j.status == JobState::Queued ==> j.progress == 0 && j.downloaded == 0)
    &&& (j.status == JobState::Downloading ==> j.progress < FULL_PROGRESS && j.path is Some)
    &&& (j.status == JobState::Completed ==> j.progress == FULL_PROGRESS)
    &&& (j.status == JobState::Error ==> j.progress < FULL_PROGRESS)
    &&& (j.status == JobState::Cancelled ==> j.progress < FULL_PROGRESS)
    &&& (j.error is Some <==> j.status == JobState::Error)
    &&& (j.path is Some ==> j.path == Some(dest_path_spec(dir, j.title, j.season, j.episode)))
}

impl DownloadInfo {
    /// A field-by-field copy of the record, for status snapshots.
    pub fn snapshot(&self) -> (r: DownloadInfo)
        ensures
            r@ == self@,
    {
        DownloadInfo {
            status: self.status,
            progress: self.progress,
            downloaded: self.downloaded,
            title: self.title.clone(),
            media_type: self.media_type,
            season: self.season,
            episode: self.episode,
            path: match &self.path {
                Some(p) => Some(p.clone()),
                None => None,
            },
            error: match &self.error {
                Some(e) => Some(e.clone()),
                None => None,
            },
            url: self.url.clone(),
        }
    }
}

/// In a well-formed record, full progress is reached exactly by
/// completed jobs: a poller that reads `FULL_PROGRESS` knows the job has
/// completed, whatever state it asked about.
pub proof fn lemma_full_progress_means_completed(j: InfoSnap, dir: Seq<char>)
    requires
        info_wf(j, dir),
    ensures
        j.progress == FULL_PROGRESS <==> j.status == JobState::Completed,
{
}

/// A well-formed job in a non-terminal state carries no error detail.
pub proof fn lemma_live_job_has_no_error(j: InfoSnap, dir: Seq<char>)
    requires
        info_wf(j, dir),
        !is_terminal(j.status),
    ensures
        j.error is None,
{
}

} // verus!
