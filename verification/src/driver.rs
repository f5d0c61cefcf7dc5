//! The pipeline driver's policy: where to start reading the log, which
//! namespaces never surface, and what happens when a stage fails.
//!
//! The surrounding program owns the loop — read, decode, dispatch, confirm —
//! and reports each outcome here; the [`Driver`] answers with the one thing
//! to do next and keeps the checkpoint, which only a confirmed dispatch ever
//! advances.

use vstd::prelude::*;

use crate::types::Error;

verus! {

/// Where to resume reading the log. The reader positions itself by this
/// log-native marker, never by skipping a counted number of entries: a count
/// taken before the cursor opens goes stale and silently skips or replays
/// entries.
pub open spec fn resume_spec(checkpoint: Option<u64>, replay: bool) -> u64 {
    if replay {
        0
    } else {
        match checkpoint {
            Some(n) => (n + 1) as u64,
            None => 0,
        }
    }
}

/// The position to open the log reader at: right after the last confirmed
/// entry, or the earliest retained position when nothing was confirmed or a
/// replay was asked for.
pub fn resume_position(checkpoint: Option<u64>, replay: bool) -> (r: u64)
    requires
        checkpoint matches Some(n) ==> n < u64::MAX,
    ensures
        r == resume_spec(checkpoint, replay),
{
    if replay {
        0
    } else {
        match checkpoint {
            Some(n) => n + 1,
            None => 0,
        }
    }
}

/// An entry is read back on resume exactly when its position is at or past
/// the resume marker.
pub open spec fn read_on_resume(from: u64, position: u64) -> bool {
    position >= from
}

/// Resuming from a confirmed checkpoint neither replays nor skips: the
/// pipeline restarts at the entry after the last confirmed one, an entry at
/// or before the checkpoint is never read back (no duplicate writes), and
/// every entry past it is (no gaps).
pub proof fn lemma_checkpoint_resumption(n: u64, position: u64)
    requires
        n < u64::MAX,
    ensures
        resume_spec(Some(n), false) == n + 1,
        read_on_resume(resume_spec(Some(n), false), position) <==> position > n,
{
}

/// Internal bookkeeping namespaces; the log reader must never surface their
/// entries to decoding.
pub fn is_internal_namespace(ns: &String) -> (r: bool)
    ensures
        r == (ns@ == "config.system.sessions"@ || ns@ == "admin.system.keys"@),
{
    *ns == "config.system.sessions".to_owned() || *ns == "admin.system.keys".to_owned()
}

/// What the loop is to do next with the entry in flight.
#[derive(Clone, Copy, Debug, PartialEq, Eq, Structural)]
pub enum Directive {
    /// Drop this entry and go on to the next one.
    Skip,
    /// Try this entry's dispatch once more, after backing off.
    Retry,
    /// Stop the pipeline; the checkpoint stays at the last confirmed entry.
    Halt,
}

/// The driver's state: the last confirmed position, the failure policy, and
/// how much retry budget the entry in flight has left.
pub struct Driver {
    checkpoint: Option<u64>,
    strict: bool,
    max_retries: u32,
    retries_left: u32,
    skipped: u64,
    halted: Option<Error>,
}

impl Driver {
    /// The last confirmed log position; nothing at or before it is lost.
    pub closed spec fn checkpoint(&self) -> Option<u64> {
        self.checkpoint
    }

    /// Whether a malformed entry halts the pipeline instead of being
    /// skipped.
    pub closed spec fn is_strict(&self) -> bool {
        self.strict
    }

    /// How many retries the entry in flight still has.
    pub closed spec fn retries(&self) -> u32 {
        self.retries_left
    }

    /// The retry budget each fresh entry starts with.
    pub closed spec fn retry_budget(&self) -> u32 {
        self.max_retries
    }

    /// How many malformed entries were skipped so far.
    pub closed spec fn skipped_count(&self) -> u64 {
        self.skipped
    }

    /// The error the pipeline halted on, once one was fatal.
    pub closed spec fn halted(&self) -> Option<Error> {
        self.halted
    }

    /// Well-formedness: the in-flight retry budget never exceeds a fresh
    /// one.
    pub closed spec fn wf(&self) -> bool {
        self.retries_left <= self.max_retries
    }

    /// A driver that has confirmed nothing beyond the given checkpoint, with
    /// a full retry budget.
    pub fn new(strict: bool, max_retries: u32, checkpoint: Option<u64>) -> (d: Driver)
        ensures
            d.wf(),
            d.checkpoint() == checkpoint,
            d.is_strict() == strict,
            d.retry_budget() == max_retries,
            d.retries() == max_retries,
            d.skipped_count() == 0,
            d.halted() is None,
    {
        Driver { checkpoint, strict, max_retries, retries_left: max_retries, skipped: 0, halted: None }
    }

    /// The last confirmed position, for persisting.
    pub fn current_checkpoint(&self) -> (r: Option<u64>)
        ensures
            r == self.checkpoint(),
    {
        self.checkpoint
    }

    /// How many malformed entries were skipped, for reporting.
    pub fn skipped_entries(&self) -> (r: u64)
        ensures
            r == self.skipped_count(),
    {
        self.skipped
    }

    /// The error the pipeline halted on, if any, for reporting at exit.
    pub fn halt_error(&self) -> (r: Option<Error>)
        ensures
            r == self.halted(),
    {
        self.halted
    }

    /// One entry failed to decode. By default it is counted and skipped and
    /// the pipeline goes on; in strict mode it is fatal. Either way the
    /// checkpoint does not move.
    pub fn on_decode_failure(&mut self) -> (d: Directive)
        requires
            old(self).wf(),
            old(self).halted() is None,
            old(self).skipped_count() < u64::MAX,
        ensures
            final(self).wf(),
            final(self).checkpoint() == old(self).checkpoint(),
            final(self).is_strict() == old(self).is_strict(),
            final(self).retry_budget() == old(self).retry_budget(),
            final(self).retries() == old(self).retries(),
            old(self).is_strict() ==> d == Directive::Halt && final(self).halted() == Some(
                Error::MalformedEntry,
            ) && final(self).skipped_count() == old(self).skipped_count(),
            !old(self).is_strict() ==> d == Directive::Skip && final(self).halted() is None
                && final(self).skipped_count() == old(self).skipped_count() + 1,
    {
        if self.strict {
            self.halted = Some(Error::MalformedEntry);
            Directive::Halt
        } else {
            self.skipped = self.skipped + 1;
            Directive::Skip
        }
    }

    /// One entry's dispatch was confirmed downstream: only now does the
    /// checkpoint advance — to exactly this position — and the retry budget
    /// is rearmed for the next entry. Positions are handed in log order, so
    /// the checkpoint only ever grows.
    pub fn on_dispatch_success(&mut self, position: u64)
        requires
            old(self).wf(),
            old(self).halted() is None,
            old(self).checkpoint() matches Some(n) ==> position > n,
        ensures
            final(self).wf(),
            final(self).checkpoint() == Some(position),
            final(self).is_strict() == old(self).is_strict(),
            final(self).retry_budget() == old(self).retry_budget(),
            final(self).retries() == final(self).retry_budget(),
            final(self).skipped_count() == old(self).skipped_count(),
            final(self).halted() is None,
    {
        self.checkpoint = Some(position);
        self.retries_left = self.max_retries;
    }

    /// One entry's dispatch failed. A transient write error is retried while
    /// the budget lasts and then escalated to `ConnectionError`; any other
    /// error is fatal at once. On every failure path the checkpoint stays
    /// where it was: advancing it past an unresolved failure would lose that
    /// event for good.
    pub fn on_dispatch_failure(&mut self, error: Error) -> (d: Directive)
        requires
            old(self).wf(),
            old(self).halted() is None,
        ensures
            final(self).wf(),
            final(self).checkpoint() == old(self).checkpoint(),
            final(self).is_strict() == old(self).is_strict(),
            final(self).retry_budget() == old(self).retry_budget(),
            final(self).skipped_count() == old(self).skipped_count(),
            error != Error::TransientWriteError ==> d == Directive::Halt && final(self).halted()
                == Some(error) && final(self).retries() == old(self).retries(),
            error == Error::TransientWriteError && old(self).retries() > 0 ==> d
                == Directive::Retry && final(self).halted() is None && final(self).retries() == old(
                self,
            ).retries() - 1,
            error == Error::TransientWriteError && old(self).retries() == 0 ==> d
                == Directive::Halt && final(self).halted() == Some(Error::ConnectionError)
                && final(self).retries() == 0,
    {
        match error {
            Error::TransientWriteError => {
                if self.retries_left > 0 {
                    self.retries_left = self.retries_left - 1;
                    Directive::Retry
                } else {
                    self.halted = Some(Error::ConnectionError);
                    Directive::Halt
                }
            },
            _ => {
                self.halted = Some(error);
                Directive::Halt
            },
        }
    }
}

} // verus!
