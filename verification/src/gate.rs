//! The consistency gate: a single-slot marker that serialises dumps.

use vstd::prelude::*;
use crate::error::DumpError;

verus! {

/// What the queue is doing, as far as a dump is concerned.
#[derive(Clone, Copy, Debug, PartialEq, Eq, Structural)]
pub enum State {
    /// No dump is in flight.
    Idle,
    /// A dump is in flight.
    Dumping,
}

/// The marker of one queue. It is taken before any storage transaction of the
/// same operation is opened, and given back on every way out of a dump.
#[derive(Debug, PartialEq, Eq)]
pub struct Gate {
    state: State,
}

impl View for Gate {
    type V = State;

    closed spec fn view(&self) -> State {
        self.state
    }
}

impl Gate {
    /// A gate that nobody holds.
    pub fn new() -> (gate: Gate)
        ensures
            gate@ == State::Idle,
    {
        Gate { state: State::Idle }
    }

    /// The marker as it stands.
    pub fn state(&self) -> (state: State)
        ensures
            state == self@,
    {
        self.state
    }

    /// Takes the marker for a dump. An idle one is taken; one that is
    /// held stays as it is and the caller is turned away.
    pub fn acquire_for_dump(&mut self) -> (taken: Result<(), DumpError>)
        ensures
            final(self)@ == State::Dumping,
            taken is Ok <==> old(self)@ == State::Idle,
            taken is Err ==> taken == Err::<(), DumpError>(DumpError::DumpInProgress),
        no_unwind
    {
        match self.state {
            State::Idle => {
                self.state = State::Dumping;
                Ok(())
            },
            State::Dumping => Err(DumpError::DumpInProgress),
        }
    }

    /// Gives the marker back, whoever held it and however the dump ended.
    pub fn release(&mut self)
        ensures
            final(self)@ == State::Idle,
        no_unwind
    {
        self.state = State::Idle;
    }
}

} // verus!
