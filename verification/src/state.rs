//! The job state machine: the five job states, which transitions between
//! them are legal, and the media kinds a job can carry.

use vstd::prelude::*;

verus! {

/// The lifecycle state of a download job.
///
/// `Queued` is the initial state; `Completed`, `Error` and `Cancelled`
/// are terminal (no automatic transition leaves them; only an explicit
/// retry re-queues an `Error` or `Cancelled` job).
#[derive(Clone, Copy, Debug, PartialEq, Eq, Structural)]
pub enum JobState {
    Queued,
    Downloading,
    Completed,
    Error,
    Cancelled,
}

/// What kind of media a job downloads. Episodes carry a season and an
/// episode number; movies carry neither.
#[derive(Clone, Copy, Debug, PartialEq, Eq, Structural)]
pub enum MediaType {
    Movie,
    Episode,
}

/// A state is terminal when the scheduler and the executor will never
/// move the job out of it on their own.
pub open spec fn is_terminal(s: JobState) -> bool {
    match s {
        JobState::Queued => false,
        JobState::Downloading => false,
        JobState::Completed => true,
        JobState::Error => true,
        JobState::Cancelled => true,
    }
}

/// The transition relation of the job state machine:
/// admission (`Queued -> Downloading`), the two transfer outcomes
/// (`Downloading -> Completed | Error`), user cancellation
/// (`Queued | Downloading -> Cancelled`) and retry
/// (`Error | Cancelled -> Queued`). Everything else is illegal.
pub open spec fn allowed_transition(from: JobState, to: JobState) -> bool {
    match (from, to) {
        (JobState::Queued, JobState::Downloading) => true,
        (JobState::Downloading, JobState::Completed) => true,
        (JobState::Downloading, JobState::Error) => true,
        (JobState::Queued, JobState::Cancelled) => true,
        (JobState::Downloading, JobState::Cancelled) => true,
        (JobState::Error, JobState::Queued) => true,
        (JobState::Cancelled, JobState::Queued) => true,
        _ => false,
    }
}

impl JobState {
    /// Runtime check of `is_terminal`.
    pub fn terminal(&self) -> (r: bool)
        ensures
            r == is_terminal(*self),
    {
        match self {
            JobState::Completed => true,
            JobState::Error => true,
            JobState::Cancelled => true,
            _ => false,
        }
    }

    /// Runtime check of the transition relation.
    pub fn can_transition_to(&self, to: JobState) -> (r: bool)
        ensures
            r == allowed_transition(*self, to),
    {
        match (self, to) {
            (JobState::Queued, JobState::Downloading) => true,
            (JobState::Downloading, JobState::Completed) => true,
            (JobState::Downloading, JobState::Error) => true,
            (JobState::Queued, JobState::Cancelled) => true,
            (JobState::Downloading, JobState::Cancelled) => true,
            (JobState::Error, JobState::Queued) => true,
            (JobState::Cancelled, JobState::Queued) => true,
            _ => false,
        }
    }
}

/// The spec-level name of each state, as status strings report it.
pub open spec fn label_spec(s: JobState) -> Seq<char> {
    match s {
        JobState::Queued => "queued"@,
        JobState::Downloading => "downloading"@,
        JobState::Completed => "completed"@,
        JobState::Error => "error"@,
        JobState::Cancelled => "cancelled"@,
    }
}

impl JobState {
    /// The human-readable name of the state.
    pub fn label(&self) -> (r: String)
        ensures
            r@ == label_spec(*self),
    {
        match self {
            JobState::Queued => "queued".to_owned(),
            JobState::Downloading => "downloading".to_owned(),
            JobState::Completed => "completed".to_owned(),
            JobState::Error => "error".to_owned(),
            JobState::Cancelled => "cancelled".to_owned(),
        }
    }
}

/// A completed job never moves again: no transition leaves `Completed`.
pub proof fn lemma_completed_is_final(to: JobState)
    ensures
        !allowed_transition(JobState::Completed, to),
{
}

/// Only an explicit retry leaves a terminal state, and it can only lead
/// back to `Queued`, never directly into `Downloading` or another
/// terminal state.
pub proof fn lemma_terminal_exits_requeue(from: JobState, to: JobState)
    requires
        is_terminal(from),
        allowed_transition(from, to),
    ensures
        to == JobState::Queued,
        from != JobState::Completed,
{
}

} // verus!
