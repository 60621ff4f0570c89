//! Carrying out a list of steps: one at a time, in their order, and no
//! further than the first that fails.

use vstd::prelude::*;
use crate::error::DumpError;
use crate::gate::State;
use crate::store::UpdateStore;

verus! {

/// How far the steps of a dump or a load have come.
#[derive(Debug, PartialEq, Eq)]
pub struct Progress {
    total: usize,
    done: usize,
    failed: bool,
}

/// Progress as plain values: of `total` steps the first `done` were taken
/// and went well; `failed` says that the next one was taken and did not.
pub struct ProgressView {
    pub total: nat,
    pub done: nat,
    pub failed: bool,
}

impl ProgressView {
    /// The place of the step to take now; none once a step has failed or
    /// all are taken.
    pub open spec fn next(self) -> Option<nat> {
        if !self.failed && self.done < self.total {
            Some(self.done)
        } else {
            None
        }
    }

    /// How the whole went: nothing to say while a step is left to take,
    /// well once every step went well, and else the step that failed.
    pub open spec fn outcome(self) -> Option<Result<(), DumpError>> {
        if self.failed {
            Some(Err(DumpError::StepFailed { step: self.done as usize }))
        } else if self.done < self.total {
            None
        } else {
            Some(Ok(()))
        }
    }

    /// Progress after the step at hand went as `succeeded` says. Where no
    /// step is at hand nothing changes.
    pub open spec fn after(self, succeeded: bool) -> ProgressView {
        if self.next() is None {
            self
        } else if succeeded {
            ProgressView { done: self.done + 1, ..self }
        } else {
            ProgressView { failed: true, ..self }
        }
    }
}

impl View for Progress {
    type V = ProgressView;

    closed spec fn view(&self) -> ProgressView {
        ProgressView { total: self.total as nat, done: self.done as nat, failed: self.failed }
    }
}

impl Progress {
    #[verifier::type_invariant]
    spec fn inv(self) -> bool {
        self.done <= self.total
    }

    /// No step of `total` taken yet.
    pub fn new(total: usize) -> (progress: Progress)
        ensures
            progress@ == (ProgressView { total: total as nat, done: 0, failed: false }),
    {
        Progress { total, done: 0, failed: false }
    }

    /// The place of the step to take now.
    pub fn next(&self) -> (step: Option<usize>)
        ensures
            match step {
                Some(place) => self@.next() == Some(place as nat),
                None => self@.next() is None,
            },
    {
        if !self.failed && self.done < self.total {
            Some(self.done)
        } else {
            None
        }
    }

    /// Takes note of how the step at hand went.
    pub fn record(&mut self, succeeded: bool)
        ensures
            final(self)@ == old(self)@.after(succeeded),
    {
        proof {
            use_type_invariant(&*self);
        }
        if !self.failed && self.done < self.total {
            if succeeded {
                self.done = self.done + 1;
            } else {
                self.failed = true;
            }
        }
    }

    /// How the whole went, once it is over.
    pub fn outcome(&self) -> (outcome: Option<Result<(), DumpError>>)
        ensures
            outcome == self@.outcome(),
    {
        if self.failed {
            Some(Err(DumpError::StepFailed { step: self.done }))
        } else if self.done < self.total {
            None
        } else {
            Some(Ok(()))
        }
    }
}

impl UpdateStore {
    /// Ends a dump whose steps have come as far as `progress` says. The
    /// marker is given back however the dump went. The dump went well where
    /// every step did; else it failed at the step that failed, or at which it
    /// was left.
    pub fn finish_dump(&mut self, progress: &Progress) -> (outcome: Result<(), DumpError>)
        ensures
            final(self)@ == State::Idle,
            outcome == match progress@.outcome() {
                Some(outcome) => outcome,
                None => Err(DumpError::StepFailed { step: progress@.done as usize }),
            },
    {
        self.release();
        match progress.outcome() {
            Some(outcome) => outcome,
            None => Err(DumpError::StepFailed { step: progress.done }),
        }
    }
}

/// A step that fails ends the whole: no step is taken after it, whatever is
/// noted later, and the outcome is that failure.
pub proof fn lemma_failure_is_final(progress: ProgressView, later: bool)
    requires
        progress.next() is Some,
    ensures
        progress.after(false).next() is None,
        progress.after(false).outcome() == Some(
            Err::<(), DumpError>(DumpError::StepFailed { step: progress.done as usize }),
        ),
        progress.after(false).after(later) == progress.after(false),
{
}

/// Steps are taken in their order: after one that went well comes the one
/// behind it, if there is one.
pub proof fn lemma_steps_in_order(progress: ProgressView)
    requires
        progress.next() is Some,
    ensures
        progress.after(true).done == progress.done + 1,
        progress.after(true).next() == if progress.done + 1 < progress.total {
            Some(progress.done + 1)
        } else {
            None
        },
        progress.after(true).outcome() == if progress.done + 1 < progress.total {
            None
        } else {
            Some(Ok::<(), DumpError>(()))
        },
{
}

} // verus!
