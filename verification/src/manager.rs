//! The job registry and the scheduler: the single owner of all job
//! records, the serialization point for every state change, and the
//! admission logic that keeps at most `max_concurrent` jobs downloading,
//! promoting queued jobs in FIFO submission order.

use crate::job::{info_wf, DownloadInfo, InfoSnap, Job, JobSnap};
use crate::naming::{dest_filename, dest_filename_spec, dest_path, dest_path_spec};
use crate::state::{is_terminal, JobState, MediaType};
use crate::FULL_PROGRESS;
use vstd::prelude::*;

verus! {

/// Why a registry operation was refused.
#[derive(Clone, Copy, Debug, PartialEq, Eq, Structural)]
pub enum DownloadError {
    /// No job with the given identifier exists.
    NotFound,
    /// A submission would duplicate an existing job's identifier, or
    /// would give a second live job the same destination file.
    AlreadyExists,
    /// The requested change is not an edge of the job state machine.
    InvalidTransition,
}

/// The download orchestrator: the registry of all job records and the
/// scheduler state. Jobs are kept in submission order; that order is
/// what FIFO admission goes by.
pub struct DownloadManager {
    jobs: Vec<Job>,
    max_concurrent: usize,
    download_path: String,
}

/// The mathematical view of the orchestrator.
#[verifier::ext_equal]
pub ghost struct ManagerSnap {
    pub jobs: Seq<JobSnap>,
    pub max_concurrent: nat,
    pub dir: Seq<char>,
}

impl View for DownloadManager {
    type V = ManagerSnap;

    closed spec fn view(&self) -> ManagerSnap {
        ManagerSnap {
            jobs: Seq::new(self.jobs@.len(), |i: int| self.jobs@[i]@),
            max_concurrent: self.max_concurrent as nat,
            dir: self.download_path@,
        }
    }
}

/// The destination filename a job derives, used for the no-two-live-jobs
/// -share-a-file invariant.
pub open spec fn job_dest(j: JobSnap) -> Seq<char> {
    dest_filename_spec(j.info.title, j.info.season, j.info.episode)
}

/// A job is live while it is in a non-terminal state.
pub open spec fn live(j: JobSnap) -> bool {
    !is_terminal(j.info.status)
}

/// Some live job would write destination `d`.
pub open spec fn dest_conflict(jobs: Seq<JobSnap>, d: Seq<char>) -> bool {
    exists|k: int| 0 <= k < jobs.len() && live(#[trigger] jobs[k]) && job_dest(jobs[k]) == d
}

/// Some live job other than the one at `i` would write destination `d`.
pub open spec fn dest_conflict_except(jobs: Seq<JobSnap>, d: Seq<char>, i: int) -> bool {
    exists|k: int|
        0 <= k < jobs.len() && k != i && live(#[trigger] jobs[k]) && job_dest(jobs[k]) == d
}

/// Well-formedness of the whole registry:
/// - every record is well-formed;
/// - identifiers are unique;
/// - no two live jobs derive the same destination file.
pub open spec fn jobs_wf(jobs: Seq<JobSnap>, dir: Seq<char>) -> bool {
    &&& forall|i: int| 0 <= i < jobs.len() ==> info_wf(#[trigger] jobs[i].info, dir)
    &&& forall|i: int, j: int|
        #![trigger jobs[i], jobs[j]]
        0 <= i < jobs.len() && 0 <= j < jobs.len() && i != j ==> jobs[i].id != jobs[j].id
    &&& forall|i: int, j: int|
        #![trigger jobs[i], jobs[j]]
        0 <= i < jobs.len() && 0 <= j < jobs.len() && i != j && live(jobs[i]) && live(jobs[j])
            ==> job_dest(jobs[i]) != job_dest(jobs[j])
}

/// Well-formedness of a manager snapshot.
pub open spec fn wf(m: ManagerSnap) -> bool {
    jobs_wf(m.jobs, m.dir)
}

/// The concurrency ceiling holds: no more jobs are downloading than
/// `max_concurrent` allows.
pub open spec fn within_limit(m: ManagerSnap) -> bool {
    count_state(m.jobs, JobState::Downloading) <= m.max_concurrent
}

/// How many jobs are in state `s`.
pub open spec fn count_state(jobs: Seq<JobSnap>, s: JobState) -> nat
    decreases jobs.len(),
{
    if jobs.len() == 0 {
        0
    } else {
        (if jobs[0].info.status == s {
            1nat
        } else {
            0nat
        }) + count_state(jobs.drop_first(), s)
    }
}

/// The index of the oldest queued job, or -1 when none is queued.
pub open spec fn first_queued(jobs: Seq<JobSnap>) -> int
    decreases jobs.len(),
{
    if jobs.len() == 0 {
        -1
    } else if jobs[0].info.status == JobState::Queued {
        0
    } else {
        let r = first_queued(jobs.drop_first());
        if r < 0 {
            -1
        } else {
            r + 1
        }
    }
}

/// Admission of one job: it starts downloading and its destination path
/// is fixed.
pub open spec fn promote(j: JobSnap, dir: Seq<char>) -> JobSnap {
    JobSnap {
        id: j.id,
        info: InfoSnap {
            status: JobState::Downloading,
            path: Some(dest_path_spec(dir, j.info.title, j.info.season, j.info.episode)),
            ..j.info
        },
    }
}

/// One admission step: the oldest queued job is promoted.
pub open spec fn admit_one(jobs: Seq<JobSnap>, dir: Seq<char>) -> Seq<JobSnap> {
    jobs.update(first_queued(jobs), promote(jobs[first_queued(jobs)], dir))
}

/// The scheduler's fixpoint: promote the oldest queued job while a
/// concurrency slot is free and a queued job exists. Every mutating
/// registry operation re-establishes this.
pub open spec fn admit_all(jobs: Seq<JobSnap>, max: nat, dir: Seq<char>) -> Seq<JobSnap>
    decreases count_state(jobs, JobState::Queued),
    via admit_all_decreases
{
    if count_state(jobs, JobState::Downloading) < max && first_queued(jobs) >= 0 {
        admit_all(admit_one(jobs, dir), max, dir)
    } else {
        jobs
    }
}

#[via_fn]
proof fn admit_all_decreases(jobs: Seq<JobSnap>, max: nat, dir: Seq<char>) {
    if count_state(jobs, JobState::Downloading) < max && first_queued(jobs) >= 0 {
        lemma_first_queued_props(jobs);
        let i = first_queued(jobs);
        lemma_count_update(jobs, i, promote(jobs[i], dir), JobState::Queued);
    }
}

/// Counting after a point update: only the replaced element's
/// contribution changes.
pub proof fn lemma_count_update(jobs: Seq<JobSnap>, i: int, x: JobSnap, s: JobState)
    requires
        0 <= i < jobs.len(),
    ensures
        count_state(jobs.update(i, x), s) == count_state(jobs, s) - (if jobs[i].info.status == s {
            1int
        } else {
            0int
        }) + (if x.info.status == s {
            1int
        } else {
            0int
        }),
    decreases jobs.len(),
{
    if i == 0 {
        assert(jobs.update(0, x).drop_first() =~= jobs.drop_first());
    } else {
        assert(jobs.update(i, x).drop_first() =~= jobs.drop_first().update(i - 1, x));
        lemma_count_update(jobs.drop_first(), i - 1, x, s);
    }
}

/// Counting after appending one job.
pub proof fn lemma_count_push(jobs: Seq<JobSnap>, x: JobSnap, s: JobState)
    ensures
        count_state(jobs.push(x), s) == count_state(jobs, s) + (if x.info.status == s {
            1int
        } else {
            0int
        }),
    decreases jobs.len(),
{
    if jobs.len() == 0 {
        assert(jobs.push(x)[0] == x);
        assert(jobs.push(x).drop_first() =~= Seq::<JobSnap>::empty());
        assert(count_state(Seq::<JobSnap>::empty(), s) == 0);
        assert(count_state(jobs, s) == 0);
    } else {
        assert(jobs.push(x)[0] == jobs[0]);
        assert(jobs.push(x).drop_first() =~= jobs.drop_first().push(x));
        lemma_count_push(jobs.drop_first(), x, s);
    }
}

/// Counting a prefix one element longer.
pub proof fn lemma_count_take_step(jobs: Seq<JobSnap>, i: int, s: JobState)
    requires
        0 <= i < jobs.len(),
    ensures
        count_state(jobs.take(i + 1), s) == count_state(jobs.take(i), s) + (
        if jobs[i].info.status == s {
            1int
        } else {
            0int
        }),
{
    assert(jobs.take(i + 1) =~= jobs.take(i).push(jobs[i]));
    lemma_count_push(jobs.take(i), jobs[i], s);
}

/// One admission step: well-formedness is preserved, only the oldest
/// queued job changes (it is promoted), one job moves from `Queued` to
/// `Downloading`, and no other state's population changes.
pub proof fn lemma_admit_one_props(jobs: Seq<JobSnap>, dir: Seq<char>)
    requires
        jobs_wf(jobs, dir),
        first_queued(jobs) >= 0,
    ensures
        jobs_wf(admit_one(jobs, dir), dir),
        admit_one(jobs, dir).len() == jobs.len(),
        count_state(admit_one(jobs, dir), JobState::Downloading) == count_state(
            jobs,
            JobState::Downloading,
        ) + 1,
        count_state(admit_one(jobs, dir), JobState::Queued) == count_state(
            jobs,
            JobState::Queued,
        ) - 1,
        forall|s: JobState|
            s != JobState::Downloading && s != JobState::Queued ==> count_state(
                #[trigger] admit_one(jobs, dir),
                s,
            ) == count_state(jobs, s),
        forall|i: int|
            0 <= i < jobs.len() && i != first_queued(jobs) ==> #[trigger] admit_one(jobs, dir)[i]
                == jobs[i],
        admit_one(jobs, dir)[first_queued(jobs)] == promote(jobs[first_queued(jobs)], dir),
{
    lemma_first_queued_props(jobs);
    let i = first_queued(jobs);
    let p = promote(jobs[i], dir);
    let u = admit_one(jobs, dir);
    lemma_count_update(jobs, i, p, JobState::Downloading);
    lemma_count_update(jobs, i, p, JobState::Queued);
    assert forall|s: JobState|
        s != JobState::Downloading && s != JobState::Queued implies count_state(
        #[trigger] admit_one(jobs, dir),
        s,
    ) == count_state(jobs, s) by {
        lemma_count_update(jobs, i, p, s);
    }
    assert forall|k: int| 0 <= k < u.len() implies info_wf(#[trigger] u[k].info, dir) by {
        if k != i {
            assert(u[k] == jobs[k]);
        }
    }
    assert forall|k: int, l: int|
        #![trigger u[k], u[l]]
        0 <= k < u.len() && 0 <= l < u.len() && k != l implies u[k].id != u[l].id by {
        assert(u[k].id == jobs[k].id);
        assert(u[l].id == jobs[l].id);
    }
    assert forall|k: int, l: int|
        #![trigger u[k], u[l]]
        0 <= k < u.len() && 0 <= l < u.len() && k != l && live(u[k]) && live(u[l]) implies job_dest(
        u[k],
    ) != job_dest(u[l]) by {
        assert(live(jobs[i]));
        assert(job_dest(u[k]) == job_dest(jobs[k]) && live(jobs[k]));
        assert(job_dest(u[l]) == job_dest(jobs[l]) && live(jobs[l]));
    }
}

/// What the scheduler's fixpoint guarantees. Writing `r` for the result
/// of `admit_all`, `cd` and `cq` for the downloading and queued counts
/// before:
/// - well-formedness is preserved and no job is added or removed;
/// - every job is either untouched or was queued and got promoted, so
///   identifiers, titles and terminal records never change (frame);
/// - when the ceiling was already met or exceeded, nothing happens;
/// - otherwise admission saturates: either every queued job was admitted
///   (`cd + cq <= max`) or the ceiling is reached exactly (`cd + cq >
///   max`); in both cases the downloading count never exceeds
///   `max(max, cd)` — the concurrency ceiling holds whenever it held
///   before.
pub proof fn lemma_admit_all_props(jobs: Seq<JobSnap>, max: nat, dir: Seq<char>)
    requires
        jobs_wf(jobs, dir),
    ensures
        ({
            let r = admit_all(jobs, max, dir);
            let cd = count_state(jobs, JobState::Downloading);
            let cq = count_state(jobs, JobState::Queued);
            &&& jobs_wf(r, dir)
            &&& r.len() == jobs.len()
            &&& forall|i: int|
                0 <= i < jobs.len() ==> (#[trigger] r[i] == jobs[i] || (jobs[i].info.status
                    == JobState::Queued && r[i] == promote(jobs[i], dir)))
            &&& cd >= max ==> r == jobs
            &&& cd <= max ==> {
                &&& (cd + cq <= max ==> count_state(r, JobState::Downloading) == cd + cq
                    && count_state(r, JobState::Queued) == 0)
                &&& (cd + cq > max ==> count_state(r, JobState::Downloading) == max
                    && count_state(r, JobState::Queued) == cd + cq - max)
            }
            &&& count_state(r, JobState::Downloading) <= max || count_state(
                r,
                JobState::Downloading,
            ) == cd
            &&& forall|s: JobState|
                s != JobState::Downloading && s != JobState::Queued ==> count_state(r, s)
                    == count_state(jobs, s)
        }),
    decreases count_state(jobs, JobState::Queued),
{
    let r = admit_all(jobs, max, dir);
    let cd = count_state(jobs, JobState::Downloading);
    let cq = count_state(jobs, JobState::Queued);
    lemma_first_queued_props(jobs);
    if cd < max && first_queued(jobs) >= 0 {
        let i = first_queued(jobs);
        let jobs1 = admit_one(jobs, dir);
        lemma_admit_one_props(jobs, dir);
        lemma_admit_all_props(jobs1, max, dir);
        assert forall|k: int|
            0 <= k < jobs.len() implies (#[trigger] r[k] == jobs[k] || (jobs[k].info.status
            == JobState::Queued && r[k] == promote(jobs[k], dir))) by {
            if k == i {
                if r[k] == jobs1[k] {
                    assert(r[k] == promote(jobs[k], dir));
                } else {
                    assert(jobs1[k].info.status == JobState::Queued);
                    assert(jobs1[k] == promote(jobs[k], dir));
                    assert(false);
                }
            } else {
                assert(jobs1[k] == jobs[k]);
            }
        }
    }
}

/// Admission is fair: it takes queued jobs strictly in submission
/// order. If an older queued job was passed over, no younger queued job
/// was admitted in its place.
pub proof fn lemma_admit_all_fifo(jobs: Seq<JobSnap>, max: nat, dir: Seq<char>)
    requires
        jobs_wf(jobs, dir),
    ensures
        forall|i: int, j: int|
            #![trigger admit_all(jobs, max, dir)[i], admit_all(jobs, max, dir)[j]]
            0 <= i < j < jobs.len() && jobs[i].info.status == JobState::Queued
                && jobs[j].info.status == JobState::Queued && admit_all(
                jobs,
                max,
                dir,
            )[i].info.status == JobState::Queued ==> admit_all(jobs, max, dir)[j].info.status
                == JobState::Queued,
    decreases count_state(jobs, JobState::Queued),
{
    let r = admit_all(jobs, max, dir);
    lemma_first_queued_props(jobs);
    if count_state(jobs, JobState::Downloading) < max && first_queued(jobs) >= 0 {
        let fq = first_queued(jobs);
        let jobs1 = admit_one(jobs, dir);
        lemma_admit_one_props(jobs, dir);
        lemma_admit_all_fifo(jobs1, max, dir);
        lemma_admit_all_props(jobs1, max, dir);
        assert forall|i: int, j: int|
            0 <= i < j < jobs.len() && jobs[i].info.status == JobState::Queued
                && jobs[j].info.status == JobState::Queued && (#[trigger] r[i]).info.status
                == JobState::Queued implies (#[trigger] r[j]).info.status == JobState::Queued by {
            if i == fq {
                assert(jobs1[i] == promote(jobs[i], dir));
                assert(r[i] == jobs1[i] || (jobs1[i].info.status == JobState::Queued && r[i]
                    == promote(jobs1[i], dir)));
                assert(false);
            } else if j == fq {
                assert(i < fq && jobs[i].info.status == JobState::Queued);
                assert(false);
            } else {
                assert(jobs1[i] == jobs[i]);
                assert(jobs1[j] == jobs[j]);
            }
        }
    }
}

/// What `first_queued` means: -1 exactly when nothing is queued;
/// otherwise the smallest index of a queued job.
pub proof fn lemma_first_queued_props(jobs: Seq<JobSnap>)
    ensures
        first_queued(jobs) == -1 ==> forall|i: int|
            0 <= i < jobs.len() ==> (#[trigger] jobs[i]).info.status != JobState::Queued,
        first_queued(jobs) >= 0 ==> {
            &&& first_queued(jobs) < jobs.len()
            &&& jobs[first_queued(jobs)].info.status == JobState::Queued
            &&& forall|i: int|
                0 <= i < first_queued(jobs) ==> (#[trigger] jobs[i]).info.status
                    != JobState::Queued
        },
        first_queued(jobs) == -1 <==> count_state(jobs, JobState::Queued) == 0,
    decreases jobs.len(),
{
    if jobs.len() > 0 && jobs[0].info.status != JobState::Queued {
        lemma_first_queued_props(jobs.drop_first());
        assert(forall|i: int|
            1 <= i < jobs.len() ==> #[trigger] jobs[i] == jobs.drop_first()[i - 1]);
    }
}

/// The index of the job with identifier `id`, or -1 when none exists.
/// Identifiers are unique in a well-formed registry, so this is the one
/// place the id lives.
pub open spec fn find_id(jobs: Seq<JobSnap>, id: Seq<char>) -> int
    decreases jobs.len(),
{
    if jobs.len() == 0 {
        -1
    } else if jobs[0].id == id {
        0
    } else {
        let r = find_id(jobs.drop_first(), id);
        if r < 0 {
            -1
        } else {
            r + 1
        }
    }
}

/// What `find_id` means: -1 exactly when no job carries the id,
/// otherwise a valid index whose job carries it.
pub proof fn lemma_find_id_props(jobs: Seq<JobSnap>, id: Seq<char>)
    ensures
        find_id(jobs, id) == -1 ==> forall|i: int|
            0 <= i < jobs.len() ==> (#[trigger] jobs[i]).id != id,
        find_id(jobs, id) >= 0 ==> 0 <= find_id(jobs, id) < jobs.len() && jobs[find_id(
            jobs,
            id,
        )].id == id,
        find_id(jobs, id) >= -1,
    decreases jobs.len(),
{
    if jobs.len() > 0 && jobs[0].id != id {
        lemma_find_id_props(jobs.drop_first(), id);
        assert(forall|i: int|
            1 <= i < jobs.len() ==> #[trigger] jobs[i] == jobs.drop_first()[i - 1]);
    }
}

/// If the id sits at `i` and nowhere earlier, `find_id` returns `i`.
pub proof fn lemma_find_id_at(jobs: Seq<JobSnap>, id: Seq<char>, i: int)
    requires
        0 <= i < jobs.len(),
        jobs[i].id == id,
        forall|k: int| 0 <= k < i ==> (#[trigger] jobs[k]).id != id,
    ensures
        find_id(jobs, id) == i,
    decreases i,
{
    if i > 0 {
        assert(jobs[0] == jobs[0]);
        lemma_find_id_at(jobs.drop_first(), id, i - 1);
        assert(forall|k: int|
            0 <= k < jobs.len() - 1 ==> #[trigger] jobs.drop_first()[k] == jobs[k + 1]);
    }
}

/// If a queued job sits at `i` and nothing earlier is queued,
/// `first_queued` returns `i`.
pub proof fn lemma_first_queued_at(jobs: Seq<JobSnap>, i: int)
    requires
        0 <= i < jobs.len(),
        jobs[i].info.status == JobState::Queued,
        forall|k: int| 0 <= k < i ==> (#[trigger] jobs[k]).info.status != JobState::Queued,
    ensures
        first_queued(jobs) == i,
    decreases i,
{
    if i > 0 {
        lemma_first_queued_at(jobs.drop_first(), i - 1);
        assert(forall|k: int|
            0 <= k < jobs.len() - 1 ==> #[trigger] jobs.drop_first()[k] == jobs[k + 1]);
    }
}

/// Appending a well-formed record whose identifier is fresh and whose
/// destination collides with no live job's preserves registry
/// well-formedness.
pub proof fn lemma_wf_push(jobs: Seq<JobSnap>, dir: Seq<char>, x: JobSnap)
    requires
        jobs_wf(jobs, dir),
        info_wf(x.info, dir),
        forall|k: int| 0 <= k < jobs.len() ==> (#[trigger] jobs[k]).id != x.id,
        forall|k: int|
            0 <= k < jobs.len() && live(x) && live(#[trigger] jobs[k]) ==> job_dest(x) != job_dest(
                jobs[k],
            ),
    ensures
        jobs_wf(jobs.push(x), dir),
{
    let u = jobs.push(x);
    assert forall|i: int| 0 <= i < u.len() implies info_wf(#[trigger] u[i].info, dir) by {
        if i < jobs.len() {
            assert(u[i] == jobs[i]);
        } else {
            assert(u[i] == x);
        }
    }
    assert forall|i: int, j: int|
        #![trigger u[i], u[j]]
        0 <= i < u.len() && 0 <= j < u.len() && i != j implies u[i].id != u[j].id by {
        if i < jobs.len() && j < jobs.len() {
            assert(u[i] == jobs[i] && u[j] == jobs[j]);
        } else if i < jobs.len() {
            assert(u[i] == jobs[i] && u[j] == x);
        } else {
            assert(u[i] == x && u[j] == jobs[j]);
        }
    }
    assert forall|i: int, j: int|
        #![trigger u[i], u[j]]
        0 <= i < u.len() && 0 <= j < u.len() && i != j && live(u[i]) && live(u[j]) implies job_dest(
        u[i],
    ) != job_dest(u[j]) by {
        if i < jobs.len() && j < jobs.len() {
            assert(u[i] == jobs[i] && u[j] == jobs[j]);
        } else if i < jobs.len() {
            assert(u[i] == jobs[i] && u[j] == x);
        } else {
            assert(u[i] == x && u[j] == jobs[j]);
        }
    }
}

/// A point update whose new record is well-formed, keeps the job's
/// identifier, and collides with no other live job's destination,
/// preserves registry well-formedness.
pub proof fn lemma_wf_point_update(jobs: Seq<JobSnap>, dir: Seq<char>, i: int, x: JobSnap)
    requires
        jobs_wf(jobs, dir),
        0 <= i < jobs.len(),
        info_wf(x.info, dir),
        x.id == jobs[i].id,
        forall|k: int|
            0 <= k < jobs.len() && k != i && live(x) && live(#[trigger] jobs[k]) ==> job_dest(x)
                != job_dest(jobs[k]),
    ensures
        jobs_wf(jobs.update(i, x), dir),
{
    let u = jobs.update(i, x);
    assert forall|k: int| 0 <= k < u.len() implies info_wf(#[trigger] u[k].info, dir) by {
        if k != i {
            assert(u[k] == jobs[k]);
        }
    }
    assert forall|k: int, l: int|
        #![trigger u[k], u[l]]
        0 <= k < u.len() && 0 <= l < u.len() && k != l implies u[k].id != u[l].id by {
        assert(u[k].id == jobs[k].id);
        assert(u[l].id == jobs[l].id);
    }
    assert forall|k: int, l: int|
        #![trigger u[k], u[l]]
        0 <= k < u.len() && 0 <= l < u.len() && k != l && live(u[k]) && live(u[l]) implies job_dest(
        u[k],
    ) != job_dest(u[l]) by {
        if k != i && l != i {
            assert(u[k] == jobs[k]);
            assert(u[l] == jobs[l]);
        } else if k == i {
            assert(u[l] == jobs[l]);
        } else {
            assert(u[k] == jobs[k]);
        }
    }
}

/// The record a fresh submission creates: queued, no progress, no path,
/// no error.
pub open spec fn queued_snap(
    id: Seq<char>,
    title: Seq<char>,
    media_type: MediaType,
    season: Option<i32>,
    episode: Option<i32>,
    url: Seq<char>,
) -> JobSnap {
    JobSnap {
        id,
        info: InfoSnap {
            status: JobState::Queued,
            progress: 0,
            downloaded: 0,
            title,
            media_type,
            season,
            episode,
            path: None,
            error: None,
            url,
        },
    }
}

/// A progress report applied to a job: the fraction and the byte
/// counter only ever move up.
pub open spec fn progressed(j: JobSnap, units: u32, bytes: u64) -> JobSnap {
    JobSnap {
        id: j.id,
        info: InfoSnap {
            progress: if units > j.info.progress {
                units
            } else {
                j.info.progress
            },
            downloaded: if bytes > j.info.downloaded {
                bytes
            } else {
                j.info.downloaded
            },
            ..j.info
        },
    }
}

/// A job after its transfer finished successfully.
pub open spec fn completed_snap(j: JobSnap) -> JobSnap {
    JobSnap {
        id: j.id,
        info: InfoSnap { status: JobState::Completed, progress: FULL_PROGRESS, ..j.info },
    }
}

/// A job after its transfer failed, with the failure detail.
pub open spec fn failed_snap(j: JobSnap, detail: Seq<char>) -> JobSnap {
    JobSnap { id: j.id, info: InfoSnap { status: JobState::Error, error: Some(detail), ..j.info } }
}

/// A job after the user cancelled it.
pub open spec fn cancelled_snap(j: JobSnap) -> JobSnap {
    JobSnap { id: j.id, info: InfoSnap { status: JobState::Cancelled, ..j.info } }
}

/// A job re-queued by a retry: progress, the byte counter and the error
/// detail are reset.
pub open spec fn requeued_snap(j: JobSnap) -> JobSnap {
    JobSnap {
        id: j.id,
        info: InfoSnap {
            status: JobState::Queued,
            progress: 0,
            downloaded: 0,
            error: None,
            ..j.info
        },
    }
}

impl DownloadManager {
    /// A fresh orchestrator over the given download directory, with no
    /// jobs and a concurrency ceiling of one.
    pub fn new(download_path: String) -> (m: DownloadManager)
        ensures
            m@.jobs == Seq::<JobSnap>::empty(),
            m@.max_concurrent == 1,
            m@.dir == download_path@,
            wf(m@),
            within_limit(m@),
    {
        let m = DownloadManager { jobs: Vec::new(), max_concurrent: 1, download_path };
        proof {
            assert(m@.jobs =~= Seq::<JobSnap>::empty());
        }
        m
    }

    /// How many jobs are currently in state `s`; the scheduler's
    /// admission control counts `Downloading` this way.
    pub fn count_in_state(&self, s: JobState) -> (n: usize)
        ensures
            n == count_state(self@.jobs, s),
    {
        let ghost js = self@.jobs;
        let mut n: usize = 0;
        let mut k: usize = 0;
        proof {
            assert(js.take(0) =~= Seq::<JobSnap>::empty());
        }
        while k < self.jobs.len()
            invariant
                k <= self.jobs.len(),
                js == self@.jobs,
                js.len() == self.jobs.len(),
                n == count_state(js.take(k as int), s),
                n <= k,
            decreases self.jobs.len() - k,
        {
            proof {
                lemma_count_take_step(js, k as int, s);
            }
            if self.jobs[k].info.status == s {
                n = n + 1;
            }
            k = k + 1;
        }
        proof {
            assert(js.take(js.len() as int) =~= js);
        }
        n
    }

    /// Finds the position of the job with the given identifier.
    fn find_index(&self, id: &String) -> (r: Option<usize>)
        ensures
            match r {
                Some(i) => find_id(self@.jobs, id@) == i as int,
                None => find_id(self@.jobs, id@) == -1,
            },
    {
        let mut k: usize = 0;
        while k < self.jobs.len()
            invariant
                k <= self.jobs.len(),
                self@.jobs.len() == self.jobs.len(),
                forall|j: int| 0 <= j < k ==> (#[trigger] self@.jobs[j]).id != id@,
            decreases self.jobs.len() - k,
        {
            if self.jobs[k].id == *id {
                proof {
                    lemma_find_id_at(self@.jobs, id@, k as int);
                }
                return Some(k);
            }
            k = k + 1;
        }
        proof {
            lemma_find_id_props(self@.jobs, id@);
            if find_id(self@.jobs, id@) >= 0 {
                assert(self@.jobs[find_id(self@.jobs, id@)].id == id@);
                assert(false);
            }
        }
        None
    }

    /// Finds the oldest queued job, the one FIFO admission takes next.
    fn find_first_queued(&self) -> (r: Option<usize>)
        ensures
            match r {
                Some(i) => first_queued(self@.jobs) == i as int,
                None => first_queued(self@.jobs) == -1,
            },
    {
        let mut k: usize = 0;
        while k < self.jobs.len()
            invariant
                k <= self.jobs.len(),
                self@.jobs.len() == self.jobs.len(),
                forall|j: int|
                    0 <= j < k ==> (#[trigger] self@.jobs[j]).info.status != JobState::Queued,
            decreases self.jobs.len() - k,
        {
            if self.jobs[k].info.status == JobState::Queued {
                proof {
                    lemma_first_queued_at(self@.jobs, k as int);
                }
                return Some(k);
            }
            k = k + 1;
        }
        proof {
            lemma_first_queued_props(self@.jobs);
            if first_queued(self@.jobs) >= 0 {
                assert(self@.jobs[first_queued(self@.jobs)].info.status == JobState::Queued);
                assert(false);
            }
        }
        None
    }

    /// The scheduler: promotes queued jobs in submission order while a
    /// concurrency slot is free, fixing each promoted job's destination
    /// path. Runs after every event that can free or fill a slot.
    fn process_queue(&mut self)
        requires
            wf(old(self)@),
        ensures
            final(self)@.jobs == admit_all(
                old(self)@.jobs,
                old(self)@.max_concurrent,
                old(self)@.dir,
            ),
            final(self)@.max_concurrent == old(self)@.max_concurrent,
            final(self)@.dir == old(self)@.dir,
            wf(final(self)@),
    {
        let ghost orig = old(self)@;
        loop
            invariant
                wf(self@),
                self@.max_concurrent == orig.max_concurrent,
                self@.dir == orig.dir,
                admit_all(self@.jobs, orig.max_concurrent, orig.dir) == admit_all(
                    orig.jobs,
                    orig.max_concurrent,
                    orig.dir,
                ),
            ensures
                wf(self@),
                self@.max_concurrent == orig.max_concurrent,
                self@.dir == orig.dir,
                self@.jobs == admit_all(orig.jobs, orig.max_concurrent, orig.dir),
            decreases count_state(self@.jobs, JobState::Queued),
        {
            let active = self.count_in_state(JobState::Downloading);
            if active >= self.max_concurrent {
                proof {
                    assert(admit_all(self@.jobs, orig.max_concurrent, orig.dir) == self@.jobs);
                }
                break;
            }
            let i = match self.find_first_queued() {
                None => {
                    proof {
                        assert(admit_all(self@.jobs, orig.max_concurrent, orig.dir) == self@.jobs);
                    }
                    break;
                },
                Some(i) => i,
            };
            let ghost cur = self@.jobs;
            proof {
                lemma_first_queued_props(cur);
            }
            let title = self.jobs[i].info.title.clone();
            let season = self.jobs[i].info.season;
            let episode = self.jobs[i].info.episode;
            let p = dest_path(&self.download_path, &title, season, episode);
            let je = &mut self.jobs[i];
            je.info.status = JobState::Downloading;
            je.info.path = Some(p);
            proof {
                assert(self@.jobs =~= admit_one(cur, orig.dir));
                lemma_admit_one_props(cur, orig.dir);
            }
        }
    }

    /// Submits a new download. The job is registered in `Queued` state
    /// and the scheduler runs at once, so it may start downloading
    /// immediately. Rejected with `AlreadyExists` when a job with this
    /// id exists, or when a live job would write the same destination
    /// file; an accepted submission never disturbs existing jobs beyond
    /// FIFO admission, and the concurrency ceiling keeps holding.
    pub fn start_download(
        &mut self,
        id: String,
        title: String,
        media_type: MediaType,
        season: Option<i32>,
        episode: Option<i32>,
        url: String,
    ) -> (r: Result<(), DownloadError>)
        requires
            wf(old(self)@),
            media_type == MediaType::Movie ==> season is None && episode is None,
            media_type == MediaType::Episode ==> season is Some && episode is Some,
        ensures
            wf(final(self)@),
            final(self)@.max_concurrent == old(self)@.max_concurrent,
            final(self)@.dir == old(self)@.dir,
            ({
                let pre = old(self)@.jobs;
                let snap = queued_snap(id@, title@, media_type, season, episode, url@);
                &&& find_id(pre, id@) >= 0 ==> r == Err::<(), DownloadError>(
                    DownloadError::AlreadyExists,
                ) && final(self)@ == old(self)@
                &&& find_id(pre, id@) == -1 && dest_conflict(pre, job_dest(snap)) ==> r
                    == Err::<(), DownloadError>(DownloadError::AlreadyExists) && final(self)@
                    == old(self)@
                &&& find_id(pre, id@) == -1 && !dest_conflict(pre, job_dest(snap)) ==> r == Ok::<
                    (),
                    DownloadError,
                >(()) && final(self)@.jobs == admit_all(
                    pre.push(snap),
                    old(self)@.max_concurrent,
                    old(self)@.dir,
                )
            }),
            within_limit(old(self)@) ==> within_limit(final(self)@),
    {
        let ghost pre = self@.jobs;
        let ghost dir = self@.dir;
        let ghost snap = queued_snap(id@, title@, media_type, season, episode, url@);
        match self.find_index(&id) {
            Some(_) => {
                return Err(DownloadError::AlreadyExists);
            },
            None => {},
        }
        proof {
            lemma_find_id_props(pre, id@);
        }
        let new_name = dest_filename(&title, season, episode);
        let mut k: usize = 0;
        while k < self.jobs.len()
            invariant
                k <= self.jobs.len(),
                self@ == old(self)@,
                wf(self@),
                self@.jobs == pre,
                pre.len() == self.jobs.len(),
                find_id(pre, id@) == -1,
                snap == queued_snap(id@, title@, media_type, season, episode, url@),
                new_name@ == job_dest(snap),
                forall|j: int|
                    0 <= j < k ==> !(live(#[trigger] pre[j]) && job_dest(pre[j]) == job_dest(snap)),
            decreases self.jobs.len() - k,
        {
            if !self.jobs[k].info.status.terminal() {
                let nm = dest_filename(
                    &self.jobs[k].info.title,
                    self.jobs[k].info.season,
                    self.jobs[k].info.episode,
                );
                if nm == new_name {
                    proof {
                        assert(live(pre[k as int]) && job_dest(pre[k as int]) == job_dest(snap));
                        assert(dest_conflict(pre, job_dest(snap)));
                    }
                    return Err(DownloadError::AlreadyExists);
                }
            }
            k = k + 1;
        }
        proof {
            assert(!dest_conflict(pre, job_dest(snap)));
        }
        let job = Job {
            id,
            info: DownloadInfo {
                status: JobState::Queued,
                progress: 0,
                downloaded: 0,
                title,
                media_type,
                season,
                episode,
                path: None,
                error: None,
                url,
            },
        };
        self.jobs.push(job);
        proof {
            assert(self@.jobs =~= pre.push(snap));
            lemma_wf_push(pre, dir, snap);
            lemma_count_push(pre, snap, JobState::Downloading);
        }
        self.process_queue();
        proof {
            lemma_admit_all_props(pre.push(snap), old(self)@.max_concurrent, dir);
        }
        Ok(())
    }

    /// Applies a progress report from the transfer executor: the
    /// fraction in hundredths of a percent, and the raw byte counter —
    /// which is all a poller gets when the server announced no content
    /// length and the fraction stays at zero. Neither ever moves
    /// backwards, and the fraction never reaches `FULL_PROGRESS` here:
    /// only completion sets full progress. Rejected unless the job
    /// exists and is downloading, so no update lands after a cancel or
    /// any other terminal transition.
    pub fn update_progress(&mut self, id: &String, units: u32, bytes: u64) -> (r: Result<
        (),
        DownloadError,
    >)
        requires
            wf(old(self)@),
            units < FULL_PROGRESS,
        ensures
            wf(final(self)@),
            final(self)@.max_concurrent == old(self)@.max_concurrent,
            final(self)@.dir == old(self)@.dir,
            ({
                let pre = old(self)@.jobs;
                let fid = find_id(pre, id@);
                &&& fid == -1 ==> r == Err::<(), DownloadError>(DownloadError::NotFound) && final(self)@ == old(self)@
                &&& fid >= 0 && pre[fid].info.status != JobState::Downloading ==> r == Err::<
                    (),
                    DownloadError,
                >(DownloadError::InvalidTransition) && final(self)@ == old(self)@
                &&& fid >= 0 && pre[fid].info.status == JobState::Downloading ==> r == Ok::<
                    (),
                    DownloadError,
                >(()) && final(self)@.jobs == pre.update(fid, progressed(pre[fid], units, bytes))
                    && final(self)@.jobs[fid].info.progress >= pre[fid].info.progress && final(self)@.jobs[fid].info.downloaded >= pre[fid].info.downloaded
            }),
            within_limit(old(self)@) ==> within_limit(final(self)@),
    {
        let ghost pre = self@.jobs;
        let ghost dir = self@.dir;
        let i = match self.find_index(id) {
            None => {
                return Err(DownloadError::NotFound);
            },
            Some(i) => i,
        };
        proof {
            lemma_find_id_props(pre, id@);
        }
        if !(self.jobs[i].info.status == JobState::Downloading) {
            return Err(DownloadError::InvalidTransition);
        }
        let je = &mut self.jobs[i];
        if units > je.info.progress {
            je.info.progress = units;
        }
        if bytes > je.info.downloaded {
            je.info.downloaded = bytes;
        }
        proof {
            let x = progressed(pre[i as int], units, bytes);
            assert(self@.jobs =~= pre.update(i as int, x));
            assert forall|k: int|
                0 <= k < pre.len() && k != i && live(x) && live(#[trigger] pre[k]) implies job_dest(
                x,
            ) != job_dest(pre[k]) by {
                assert(live(pre[i as int]));
                assert(job_dest(x) == job_dest(pre[i as int]));
            }
            lemma_wf_point_update(pre, dir, i as int, x);
            lemma_count_update(pre, i as int, x, JobState::Downloading);
        }
        Ok(())
    }

    /// Records a successful transfer: the job completes with full
    /// progress, and the freed slot is refilled from the queue at once.
    pub fn finish_download(&mut self, id: &String) -> (r: Result<(), DownloadError>)
        requires
            wf(old(self)@),
        ensures
            wf(final(self)@),
            final(self)@.max_concurrent == old(self)@.max_concurrent,
            final(self)@.dir == old(self)@.dir,
            ({
                let pre = old(self)@.jobs;
                let fid = find_id(pre, id@);
                &&& fid == -1 ==> r == Err::<(), DownloadError>(DownloadError::NotFound) && final(self)@ == old(self)@
                &&& fid >= 0 && pre[fid].info.status != JobState::Downloading ==> r == Err::<
                    (),
                    DownloadError,
                >(DownloadError::InvalidTransition) && final(self)@ == old(self)@
                &&& fid >= 0 && pre[fid].info.status == JobState::Downloading ==> r == Ok::<
                    (),
                    DownloadError,
                >(()) && final(self)@.jobs == admit_all(
                    pre.update(fid, completed_snap(pre[fid])),
                    old(self)@.max_concurrent,
                    old(self)@.dir,
                )
            }),
            within_limit(old(self)@) ==> within_limit(final(self)@),
    {
        let ghost pre = self@.jobs;
        let ghost dir = self@.dir;
        let i = match self.find_index(id) {
            None => {
                return Err(DownloadError::NotFound);
            },
            Some(i) => i,
        };
        proof {
            lemma_find_id_props(pre, id@);
        }
        if !(self.jobs[i].info.status == JobState::Downloading) {
            return Err(DownloadError::InvalidTransition);
        }
        let je = &mut self.jobs[i];
        je.info.status = JobState::Completed;
        je.info.progress = FULL_PROGRESS;
        proof {
            let x = completed_snap(pre[i as int]);
            assert(self@.jobs =~= pre.update(i as int, x));
            lemma_wf_point_update(pre, dir, i as int, x);
            lemma_count_update(pre, i as int, x, JobState::Downloading);
        }
        self.process_queue();
        proof {
            lemma_admit_all_props(
                pre.update(i as int, completed_snap(pre[i as int])),
                old(self)@.max_concurrent,
                dir,
            );
        }
        Ok(())
    }

    /// Records a failed transfer: the job moves to `Error` carrying the
    /// human-readable detail, and the freed slot is refilled at once.
    pub fn fail_download(&mut self, id: &String, detail: String) -> (r: Result<
        (),
        DownloadError,
    >)
        requires
            wf(old(self)@),
        ensures
            wf(final(self)@),
            final(self)@.max_concurrent == old(self)@.max_concurrent,
            final(self)@.dir == old(self)@.dir,
            ({
                let pre = old(self)@.jobs;
                let fid = find_id(pre, id@);
                &&& fid == -1 ==> r == Err::<(), DownloadError>(DownloadError::NotFound) && final(self)@ == old(self)@
                &&& fid >= 0 && pre[fid].info.status != JobState::Downloading ==> r == Err::<
                    (),
                    DownloadError,
                >(DownloadError::InvalidTransition) && final(self)@ == old(self)@
                &&& fid >= 0 && pre[fid].info.status == JobState::Downloading ==> r == Ok::<
                    (),
                    DownloadError,
                >(()) && final(self)@.jobs == admit_all(
                    pre.update(fid, failed_snap(pre[fid], detail@)),
                    old(self)@.max_concurrent,
                    old(self)@.dir,
                )
            }),
            within_limit(old(self)@) ==> within_limit(final(self)@),
    {
        let ghost pre = self@.jobs;
        let ghost dir = self@.dir;
        let i = match self.find_index(id) {
            None => {
                return Err(DownloadError::NotFound);
            },
            Some(i) => i,
        };
        proof {
            lemma_find_id_props(pre, id@);
        }
        if !(self.jobs[i].info.status == JobState::Downloading) {
            return Err(DownloadError::InvalidTransition);
        }
        let ghost x = failed_snap(pre[i as int], detail@);
        let je = &mut self.jobs[i];
        je.info.status = JobState::Error;
        je.info.error = Some(detail);
        proof {
            assert(self@.jobs =~= pre.update(i as int, x));
            lemma_wf_point_update(pre, dir, i as int, x);
            lemma_count_update(pre, i as int, x, JobState::Downloading);
        }
        self.process_queue();
        proof {
            lemma_admit_all_props(pre.update(i as int, x), old(self)@.max_concurrent, dir);
        }
        Ok(())
    }

    /// Cancels a queued or downloading job. The job ends in `Cancelled`
    /// — never silently in `Completed` — and a slot it may have held is
    /// refilled at once. The in-flight executor observes the state
    /// change at its next chunk boundary; `update_progress` rejects
    /// anything it still reports.
    pub fn cancel_download(&mut self, id: &String) -> (r: Result<(), DownloadError>)
        requires
            wf(old(self)@),
        ensures
            wf(final(self)@),
            final(self)@.max_concurrent == old(self)@.max_concurrent,
            final(self)@.dir == old(self)@.dir,
            ({
                let pre = old(self)@.jobs;
                let fid = find_id(pre, id@);
                &&& fid == -1 ==> r == Err::<(), DownloadError>(DownloadError::NotFound) && final(self)@ == old(self)@
                &&& fid >= 0 && is_terminal(pre[fid].info.status) ==> r == Err::<
                    (),
                    DownloadError,
                >(DownloadError::InvalidTransition) && final(self)@ == old(self)@
                &&& fid >= 0 && !is_terminal(pre[fid].info.status) ==> r == Ok::<
                    (),
                    DownloadError,
                >(()) && final(self)@.jobs == admit_all(
                    pre.update(fid, cancelled_snap(pre[fid])),
                    old(self)@.max_concurrent,
                    old(self)@.dir,
                )
            }),
            within_limit(old(self)@) ==> within_limit(final(self)@),
    {
        let ghost pre = self@.jobs;
        let ghost dir = self@.dir;
        let i = match self.find_index(id) {
            None => {
                return Err(DownloadError::NotFound);
            },
            Some(i) => i,
        };
        proof {
            lemma_find_id_props(pre, id@);
        }
        if self.jobs[i].info.status.terminal() {
            return Err(DownloadError::InvalidTransition);
        }
        let je = &mut self.jobs[i];
        je.info.status = JobState::Cancelled;
        proof {
            let x = cancelled_snap(pre[i as int]);
            assert(self@.jobs =~= pre.update(i as int, x));
            lemma_wf_point_update(pre, dir, i as int, x);
            lemma_count_update(pre, i as int, x, JobState::Downloading);
        }
        self.process_queue();
        proof {
            lemma_admit_all_props(
                pre.update(i as int, cancelled_snap(pre[i as int])),
                old(self)@.max_concurrent,
                dir,
            );
        }
        Ok(())
    }

    /// Retries a failed or cancelled job: progress returns to zero, the
    /// error detail is cleared, and the job re-enters the queued pool at
    /// its submission position, eligible for FIFO admission at once.
    /// Rejected when the job is in any other state, or when a live job
    /// meanwhile claimed the same destination file.
    pub fn retry_download(&mut self, id: &String) -> (r: Result<(), DownloadError>)
        requires
            wf(old(self)@),
        ensures
            wf(final(self)@),
            final(self)@.max_concurrent == old(self)@.max_concurrent,
            final(self)@.dir == old(self)@.dir,
            ({
                let pre = old(self)@.jobs;
                let fid = find_id(pre, id@);
                &&& fid == -1 ==> r == Err::<(), DownloadError>(DownloadError::NotFound) && final(self)@ == old(self)@
                &&& fid >= 0 && pre[fid].info.status != JobState::Error && pre[fid].info.status
                    != JobState::Cancelled ==> r == Err::<(), DownloadError>(
                    DownloadError::InvalidTransition,
                ) && final(self)@ == old(self)@
                &&& fid >= 0 && (pre[fid].info.status == JobState::Error || pre[fid].info.status
                    == JobState::Cancelled) && dest_conflict_except(pre, job_dest(pre[fid]), fid)
                    ==> r == Err::<(), DownloadError>(DownloadError::InvalidTransition) && final(self)@ == old(self)@
                &&& fid >= 0 && (pre[fid].info.status == JobState::Error || pre[fid].info.status
                    == JobState::Cancelled) && !dest_conflict_except(pre, job_dest(pre[fid]), fid)
                    ==> r == Ok::<(), DownloadError>(()) && final(self)@.jobs == admit_all(
                    pre.update(fid, requeued_snap(pre[fid])),
                    old(self)@.max_concurrent,
                    old(self)@.dir,
                )
            }),
            within_limit(old(self)@) ==> within_limit(final(self)@),
    {
        let ghost pre = self@.jobs;
        let ghost dir = self@.dir;
        let i = match self.find_index(id) {
            None => {
                return Err(DownloadError::NotFound);
            },
            Some(i) => i,
        };
        proof {
            lemma_find_id_props(pre, id@);
        }
        let retryable = match self.jobs[i].info.status {
            JobState::Error => true,
            JobState::Cancelled => true,
            _ => false,
        };
        if !retryable {
            return Err(DownloadError::InvalidTransition);
        }
        let own_name = dest_filename(
            &self.jobs[i].info.title,
            self.jobs[i].info.season,
            self.jobs[i].info.episode,
        );
        let mut k: usize = 0;
        while k < self.jobs.len()
            invariant
                k <= self.jobs.len(),
                self@ == old(self)@,
                wf(self@),
                self@.jobs == pre,
                pre.len() == self.jobs.len(),
                0 <= i < pre.len(),
                find_id(pre, id@) == i as int,
                pre[i as int].info.status == JobState::Error || pre[i as int].info.status
                    == JobState::Cancelled,
                own_name@ == job_dest(pre[i as int]),
                forall|j: int|
                    0 <= j < k && j != i ==> !(live(#[trigger] pre[j]) && job_dest(pre[j])
                        == job_dest(pre[i as int])),
            decreases self.jobs.len() - k,
        {
            if k != i && !self.jobs[k].info.status.terminal() {
                let nm = dest_filename(
                    &self.jobs[k].info.title,
                    self.jobs[k].info.season,
                    self.jobs[k].info.episode,
                );
                if nm == own_name {
                    proof {
                        assert(live(pre[k as int]) && job_dest(pre[k as int]) == job_dest(
                            pre[i as int],
                        ));
                        assert(dest_conflict_except(pre, job_dest(pre[i as int]), i as int));
                    }
                    return Err(DownloadError::InvalidTransition);
                }
            }
            k = k + 1;
        }
        proof {
            assert(!dest_conflict_except(pre, job_dest(pre[i as int]), i as int));
        }
        let ghost x = requeued_snap(pre[i as int]);
        let je = &mut self.jobs[i];
        je.info.status = JobState::Queued;
        je.info.progress = 0;
        je.info.downloaded = 0;
        je.info.error = None;
        proof {
            assert(self@.jobs =~= pre.update(i as int, x));
            lemma_wf_point_update(pre, dir, i as int, x);
            lemma_count_update(pre, i as int, x, JobState::Downloading);
        }
        self.process_queue();
        proof {
            lemma_admit_all_props(pre.update(i as int, x), old(self)@.max_concurrent, dir);
        }
        Ok(())
    }

    /// Changes the concurrency ceiling. Raising it re-runs admission at
    /// once, so newly available slots fill without waiting for the next
    /// terminal event; lowering it never interrupts transfers already
    /// running, which drain on their own.
    pub fn set_max_concurrent(&mut self, max: usize)
        requires
            wf(old(self)@),
        ensures
            wf(final(self)@),
            final(self)@.dir == old(self)@.dir,
            final(self)@.max_concurrent == max as nat,
            final(self)@.jobs == admit_all(old(self)@.jobs, max as nat, old(self)@.dir),
            count_state(old(self)@.jobs, JobState::Downloading) <= max ==> within_limit(
                final(self)@,
            ),
    {
        let ghost pre = self@.jobs;
        let ghost dir = self@.dir;
        self.max_concurrent = max;
        proof {
            assert(self@.jobs =~= pre);
        }
        self.process_queue();
        proof {
            lemma_admit_all_props(pre, max as nat, dir);
        }
    }

    /// Looks one job up for status polling.
    pub fn get(&self, id: &String) -> (r: Option<DownloadInfo>)
        ensures
            ({
                let fid = find_id(self@.jobs, id@);
                &&& fid == -1 ==> r is None
                &&& fid >= 0 ==> (r matches Some(info) && info@ == self@.jobs[fid].info)
            }),
    {
        let i = match self.find_index(id) {
            None => {
                return None;
            },
            Some(i) => i,
        };
        proof {
            lemma_find_id_props(self@.jobs, id@);
        }
        Some(self.jobs[i].info.snapshot())
    }

    /// A snapshot of every job: its identifier and its record, in
    /// submission order.
    pub fn get_status(&self) -> (r: Vec<(String, DownloadInfo)>)
        ensures
            r@.len() == self@.jobs.len(),
            forall|i: int|
                0 <= i < r@.len() ==> (#[trigger] r@[i]).0@ == self@.jobs[i].id && r@[i].1@
                    == self@.jobs[i].info,
    {
        let mut r: Vec<(String, DownloadInfo)> = Vec::new();
        let mut k: usize = 0;
        while k < self.jobs.len()
            invariant
                k <= self.jobs.len(),
                self@.jobs.len() == self.jobs.len(),
                r@.len() == k,
                forall|i: int|
                    0 <= i < k ==> (#[trigger] r@[i]).0@ == self@.jobs[i].id && r@[i].1@
                        == self@.jobs[i].info,
            decreases self.jobs.len() - k,
        {
            r.push((self.jobs[k].id.clone(), self.jobs[k].info.snapshot()));
            k = k + 1;
        }
        r
    }

    /// The current concurrency ceiling.
    pub fn max_concurrent(&self) -> (n: usize)
        ensures
            n == self@.max_concurrent,
    {
        self.max_concurrent
    }
}

} // verus!

