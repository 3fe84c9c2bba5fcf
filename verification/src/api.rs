//! The compute halves of the download endpoints: how a request maps to
//! a submission, and how the registry is rendered for a status poll.
//! The HTTP plumbing around them lives outside the library.

use crate::manager::{
    admit_all, dest_conflict, find_id, job_dest, queued_snap, wf, within_limit, DownloadManager,
};
use crate::models::{EpisodeDownloadRequest, MovieDownloadRequest};
use crate::numfmt::{i32_to_string, int_rep};
use crate::state::{label_spec, MediaType};
use vstd::prelude::*;

verus! {

/// Submits a movie download: the job is keyed by the catalogue id and
/// titled by the slug. Returns whether the submission was accepted —
/// a duplicate id or a destination clash is reported as `false`. On
/// acceptance the request's job is registered queued and the scheduler
/// runs at once.
pub fn download_movie(m: &mut DownloadManager, req: MovieDownloadRequest, url: String) -> (ok:
    bool)
    requires
        wf(old(m)@),
    ensures
        wf(final(m)@),
        final(m)@.max_concurrent == old(m)@.max_concurrent,
        final(m)@.dir == old(m)@.dir,
        ({
            let snap = queued_snap(req.id@, req.slug@, MediaType::Movie, None, None, url@);
            &&& ok == (find_id(old(m)@.jobs, req.id@) == -1 && !dest_conflict(
                old(m)@.jobs,
                job_dest(snap),
            ))
            &&& ok ==> final(m)@.jobs == admit_all(
                old(m)@.jobs.push(snap),
                old(m)@.max_concurrent,
                old(m)@.dir,
            )
        }),
        !ok ==> final(m)@ == old(m)@,
        within_limit(old(m)@) ==> within_limit(final(m)@),
    {
    match m.start_download(req.id, req.slug, MediaType::Movie, None, None, url) {
        Ok(_) => true,
        Err(_) => false,
    }
}

/// Submits an episode download: the job is keyed by the decimal title
/// id and titled by the slug, carrying its season and episode numbers.
/// On acceptance the request's job is registered queued and the
/// scheduler runs at once.
pub fn download_episode(m: &mut DownloadManager, req: EpisodeDownloadRequest, url: String) -> (ok:
    bool)
    requires
        wf(old(m)@),
    ensures
        wf(final(m)@),
        final(m)@.max_concurrent == old(m)@.max_concurrent,
        final(m)@.dir == old(m)@.dir,
        ({
            let snap = queued_snap(
                int_rep(req.title_id as int),
                req.slug@,
                MediaType::Episode,
                Some(req.season),
                Some(req.episode),
                url@,
            );
            &&& ok == (find_id(old(m)@.jobs, int_rep(req.title_id as int)) == -1 && !dest_conflict(
                old(m)@.jobs,
                job_dest(snap),
            ))
            &&& ok ==> final(m)@.jobs == admit_all(
                old(m)@.jobs.push(snap),
                old(m)@.max_concurrent,
                old(m)@.dir,
            )
        }),
        !ok ==> final(m)@ == old(m)@,
        within_limit(old(m)@) ==> within_limit(final(m)@),
    {
    let id = i32_to_string(req.title_id);
    match m.start_download(
        id,
        req.slug,
        MediaType::Episode,
        Some(req.season),
        Some(req.episode),
        url,
    ) {
        Ok(_) => true,
        Err(_) => false,
    }
}

/// Renders the registry for a status poll: for every job, its id, its
/// state's name, and its progress in hundredths of a percent.
pub fn get_download_status(m: &DownloadManager) -> (r: Vec<(String, String, u32)>)
    ensures
        r@.len() == m@.jobs.len(),
        forall|i: int|
            0 <= i < r@.len() ==> {
                &&& (#[trigger] r@[i]).0@ == m@.jobs[i].id
                &&& r@[i].1@ == label_spec(m@.jobs[i].info.status)
                &&& r@[i].2 == m@.jobs[i].info.progress
            },
{
    let snapshot = m.get_status();
    let mut r: Vec<(String, String, u32)> = Vec::new();
    let mut k: usize = 0;
    while k < snapshot.len()
        invariant
            k <= snapshot.len(),
            snapshot@.len() == m@.jobs.len(),
            forall|i: int|
                0 <= i < snapshot@.len() ==> (#[trigger] snapshot@[i]).0@ == m@.jobs[i].id
                    && snapshot@[i].1@ == m@.jobs[i].info,
            r@.len() == k,
            forall|i: int|
                0 <= i < k ==> {
                    &&& (#[trigger] r@[i]).0@ == m@.jobs[i].id
                    &&& r@[i].1@ == label_spec(m@.jobs[i].info.status)
                    &&& r@[i].2 == m@.jobs[i].info.progress
                },
        decreases snapshot.len() - k,
    {
        let label = snapshot[k].1.status.label();
        r.push((snapshot[k].0.clone(), label, snapshot[k].1.progress));
        k = k + 1;
    }
    r
}

} // verus!

