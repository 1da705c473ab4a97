//! The check that a sensor is alive on an open line: a few reads, and success
//! as soon as one of them brings the sync byte.

use vstd::prelude::*;
use crate::frame::SYNC;

verus! {

/// Reads made before the line is declared silent.
pub const MAX_ATTEMPTS: usize = 3;

/// Pause after a read that brought bytes but no sync byte, in milliseconds.
pub const RETRY_PAUSE_MS: u64 = 50;

/// What one read gave.
#[derive(Debug, Clone, PartialEq, Eq)]
pub enum ReadOutcome {
    /// The read returned these bytes, possibly none.
    Data(Vec<u8>),
    /// The read timed out.
    TimedOut,
    /// The read failed for another reason.
    Failed,
}

/// The decision after a read.
#[derive(Debug, Clone, Copy, PartialEq, Eq, Structural)]
pub enum Verdict {
    /// The sensor answered.
    Responding,
    /// The sensor did not answer, or the line failed.
    NotResponding,
    /// Wait this many milliseconds, then read again.
    ReadAgain(u64),
}

/// `s` holds the sync byte.
pub open spec fn has_sync(s: Seq<u8>) -> bool {
    exists|i: int| 0 <= i < s.len() && s[i] == SYNC
}

/// Whether `bytes` holds the sync byte.
pub fn contains_sync(bytes: &[u8]) -> (r: bool)
    ensures
        r == has_sync(bytes@),
{
    let mut i: usize = 0;
    while i < bytes.len()
        invariant
            i <= bytes@.len(),
            forall|j: int| 0 <= j < i ==> bytes@[j] != SYNC,
        decreases bytes@.len() - i,
    {
        if bytes[i] == SYNC {
            return true;
        }
        i = i + 1;
    }
    false
}

/// The verdict on a read after `done` earlier reads without an answer.
pub open spec fn verdict_of(done: int, outcome: ReadOutcome) -> Verdict {
    match outcome {
        ReadOutcome::Data(b) if has_sync(b@) => Verdict::Responding,
        ReadOutcome::Failed => Verdict::NotResponding,
        _ => if done + 1 >= MAX_ATTEMPTS {
            Verdict::NotResponding
        } else if outcome is TimedOut {
            Verdict::ReadAgain(0)
        } else {
            Verdict::ReadAgain(RETRY_PAUSE_MS)
        },
    }
}

/// A liveness check in progress.
pub struct ResponseCheck {
    attempts: usize,
}

impl View for ResponseCheck {
    type V = int;

    /// Number of reads made so far without an answer.
    closed spec fn view(&self) -> int {
        self.attempts as int
    }
}

impl ResponseCheck {
    /// A check before its first read.
    pub fn new() -> (r: ResponseCheck)
        ensures
            r@ == 0,
    {
        ResponseCheck { attempts: 0 }
    }

    /// Takes the outcome of one read. A read with the sync byte ends the
    /// check with success, a failed read ends it without; a timeout or a read
    /// without the sync byte uses up an attempt, and the third such ends it.
    pub fn on_read(&mut self, outcome: &ReadOutcome) -> (r: Verdict)
        requires
            old(self)@ < MAX_ATTEMPTS,
        ensures
            r == verdict_of(old(self)@, *outcome),
            final(self)@ == old(self)@ + 1,
            final(self)@ <= MAX_ATTEMPTS,
    {
        self.attempts = self.attempts + 1;
        match outcome {
            ReadOutcome::Data(b) => {
                if contains_sync(b.as_slice()) {
                    Verdict::Responding
                } else if self.attempts >= MAX_ATTEMPTS {
                    Verdict::NotResponding
                } else {
                    Verdict::ReadAgain(RETRY_PAUSE_MS)
                }
            },
            ReadOutcome::TimedOut => {
                if self.attempts >= MAX_ATTEMPTS {
                    Verdict::NotResponding
                } else {
                    Verdict::ReadAgain(0)
                }
            },
            ReadOutcome::Failed => Verdict::NotResponding,
        }
    }
}

} // verus!
