//! The transfer executor's decision logic. The streaming copy itself —
//! network reads, file writes, timeouts, sleeps — happens outside the
//! library; what is decided per chunk (the byte count, the progress
//! fraction to report, and how each transfer event maps to an action on
//! the registry) is decided here.

use crate::numfmt::{dec_rep, u32_to_string};
use crate::FULL_PROGRESS;
use vstd::arithmetic::div_mod::{lemma_div_is_ordered, lemma_multiply_divide_lt};
use vstd::arithmetic::mul::{lemma_mul_inequality, lemma_mul_nonnegative, lemma_mul_strict_inequality};
use vstd::prelude::*;

verus! {

/// The progress fraction (in hundredths of a percent) after
/// `downloaded` of `total` bytes. A server that reports no content
/// length is recorded as `total == 0`, and progress stays at zero — a
/// bare byte counter carries no percentage. The fraction stays strictly
/// below `FULL_PROGRESS`: full progress is set only by the completion
/// transition itself.
pub open spec fn progress_units_spec(downloaded: u64, total: u64) -> u32 {
    if total == 0 {
        0
    } else if downloaded >= total {
        (FULL_PROGRESS - 1) as u32
    } else {
        ((downloaded as int * FULL_PROGRESS as int) / total as int) as u32
    }
}

/// Computes the progress fraction to report after a chunk.
pub fn progress_units(downloaded: u64, total: u64) -> (r: u32)
    ensures
        r == progress_units_spec(downloaded, total),
        r < FULL_PROGRESS,
{
    if total == 0 {
        0
    } else if downloaded >= total {
        FULL_PROGRESS - 1
    } else {
        proof {
            lemma_mul_inequality(downloaded as int, u64::MAX as int, FULL_PROGRESS as int);
        }
        let q = ((downloaded as u128) * (FULL_PROGRESS as u128)) / (total as u128);
        proof {
            lemma_units_below_full(downloaded, total);
        }
        q as u32
    }
}

/// With bytes still missing, the computed fraction stays strictly below
/// full progress.
proof fn lemma_units_below_full(downloaded: u64, total: u64)
    requires
        0 < total,
        downloaded < total,
    ensures
        (downloaded as int * FULL_PROGRESS as int) / (total as int) >= 0,
        (downloaded as int * FULL_PROGRESS as int) / (total as int) < FULL_PROGRESS as int,
{
    let d = downloaded as int;
    let t = total as int;
    let f = FULL_PROGRESS as int;
    lemma_mul_nonnegative(d, f);
    lemma_div_is_ordered(0, d * f, t);
    lemma_mul_strict_inequality(d, t, f);
    lemma_multiply_divide_lt(d * f, t, f);
}

/// Sampled progress never decreases while bytes accumulate: more bytes
/// downloaded never report a smaller fraction.
pub proof fn lemma_progress_monotonic(d1: u64, d2: u64, total: u64)
    requires
        d1 <= d2,
    ensures
        progress_units_spec(d1, total) <= progress_units_spec(d2, total),
{
    if total > 0 && d2 < total {
        lemma_units_below_full(d2, total);
        lemma_units_below_full(d1, total);
        lemma_mul_inequality(d1 as int, d2 as int, FULL_PROGRESS as int);
        lemma_div_is_ordered(
            d1 as int * FULL_PROGRESS as int,
            d2 as int * FULL_PROGRESS as int,
            total as int,
        );
    } else if total > 0 && d1 < total {
        lemma_units_below_full(d1, total);
    }
}

/// The executor-local state of one streaming transfer: bytes written so
/// far, and the total the server announced (zero when it announced
/// none).
pub struct TransferState {
    pub downloaded: u64,
    pub total: u64,
}

/// What the transfer loop observed since the last decision.
pub enum TransferEvent {
    /// A chunk of this many bytes was received and written.
    Chunk { len: u64 },
    /// The body ended; every byte is on disk.
    Finished,
    /// A network or I/O failure, with its human-readable detail.
    Failed { detail: String },
    /// No bytes arrived within the inactivity window.
    TimedOut,
    /// The registry shows the job was cancelled.
    CancelObserved,
}

/// What the loop must do next with the registry.
pub enum TransferAction {
    /// Report this progress fraction and byte count, and continue
    /// streaming. The fraction is zero throughout a transfer whose
    /// server announced no length; the byte count is the monotone
    /// counter pollers fall back on then.
    Report { units: u32, bytes: u64 },
    /// Transition the job to completed.
    Complete,
    /// Transition the job to error, with this detail.
    Fail { detail: String },
    /// Stop streaming and release the file and the connection; the job
    /// is already cancelled.
    Abort,
}

impl TransferState {
    /// Begins a transfer for a server that announced `content_length`.
    pub fn new(content_length: Option<u64>) -> (t: TransferState)
        ensures
            t.downloaded == 0,
            t.total == (match content_length {
                Some(n) => n,
                None => 0u64,
            }),
    {
        TransferState {
            downloaded: 0,
            total: match content_length {
                Some(n) => n,
                None => 0,
            },
        }
    }

    /// One decision of the transfer loop, taken between chunks — the
    /// granularity at which cancellation is observed. A chunk advances
    /// the byte count (saturating; a real transfer never nears the
    /// limit) and reports the new fraction; the end of the body
    /// completes the job; a failure or a timeout fails it with a
    /// detail; an observed cancellation aborts without touching the
    /// job, which is already cancelled.
    pub fn step(&mut self, ev: TransferEvent) -> (a: TransferAction)
        ensures
            final(self).total == old(self).total,
            match ev {
                TransferEvent::Chunk { len } => {
                    &&& final(self).downloaded == old(self).downloaded.saturating_add(len)
                    &&& a == (TransferAction::Report {
                        units: progress_units_spec(final(self).downloaded, final(self).total),
                        bytes: final(self).downloaded,
                    })
                },
                TransferEvent::Finished => *final(self) == *old(self) && a
                    == TransferAction::Complete,
                TransferEvent::Failed { detail } => *final(self) == *old(self) && a
                    == (TransferAction::Fail { detail }),
                TransferEvent::TimedOut => *final(self) == *old(self) && (a matches
                TransferAction::Fail { detail } && detail@ == "inactivity timeout"@),
                TransferEvent::CancelObserved => *final(self) == *old(self) && a
                    == TransferAction::Abort,
            },
    {
        match ev {
            TransferEvent::Chunk { len } => {
                self.downloaded = self.downloaded.saturating_add(len);
                let units = progress_units(self.downloaded, self.total);
                TransferAction::Report { units, bytes: self.downloaded }
            },
            TransferEvent::Finished => TransferAction::Complete,
            TransferEvent::Failed { detail } => TransferAction::Fail { detail },
            TransferEvent::TimedOut => TransferAction::Fail {
                detail: "inactivity timeout".to_owned(),
            },
            TransferEvent::CancelObserved => TransferAction::Abort,
        }
    }
}

/// The detail a failed HTTP response carries: the word and the numeric
/// status.
pub open spec fn status_detail_spec(code: u16) -> Seq<char> {
    "HTTP status "@ + dec_rep(code as nat)
}

/// Decides whether an HTTP response admits streaming. A non-2xx status
/// is a transfer failure whose detail names the status; a 2xx status is
/// no failure at all.
pub fn http_failure_detail(code: u16) -> (r: Option<String>)
    ensures
        200 <= code < 300 ==> r is None,
        !(200 <= code < 300) ==> (r matches Some(d) && d@ == status_detail_spec(code)),
{
    if 200 <= code && code < 300 {
        None
    } else {
        let mut s = "HTTP status ".to_owned();
        let digits = u32_to_string(code as u32);
        s.append(digits.as_str());
        Some(s)
    }
}

} // verus!
