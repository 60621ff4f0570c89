use update_store_dump::error::DumpError;
use update_store_dump::gate::{Gate, State};

#[test]
fn gate_starts_idle() {
    let gate = Gate::new();
    assert_eq!(gate.state(), State::Idle);
}

#[test]
fn gate_is_taken_once() {
    let mut gate = Gate::new();
    assert_eq!(gate.acquire_for_dump(), Ok(()));
    assert_eq!(gate.state(), State::Dumping);
    assert_eq!(gate.acquire_for_dump(), Err(DumpError::DumpInProgress));
    assert_eq!(gate.state(), State::Dumping);
}

#[test]
fn gate_release_makes_idle() {
    let mut gate = Gate::new();
    gate.release();
    assert_eq!(gate.state(), State::Idle);
    assert_eq!(gate.acquire_for_dump(), Ok(()));
    gate.release();
    assert_eq!(gate.state(), State::Idle);
    assert_eq!(gate.acquire_for_dump(), Ok(()));
}

#[test]
fn failures_in_words() {
    assert_eq!(DumpError::DumpInProgress.describe(), "a dump is already in progress");
    assert_eq!(DumpError::SnapshotFailed.describe(), "the update queue could not be read");
    assert_eq!(DumpError::InvalidUpdateFileName.describe(), "invalid update file name");
    assert_eq!(
        DumpError::MalformedLine { line: 3 }.describe(),
        "a line of the data file is no update entry"
    );
    assert_eq!(DumpError::StepFailed { step: 0 }.describe(), "a step of the operation failed");
}
