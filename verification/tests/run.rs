use std::collections::HashSet;
use update_store_dump::error::DumpError;
use update_store_dump::gate::State;
use update_store_dump::run::Progress;
use update_store_dump::step::Step;
use update_store_dump::store::{PendingEntry, Snapshot, UpdateStore};

#[test]
fn steps_are_taken_in_order() {
    let mut progress = Progress::new(3);
    assert_eq!(progress.next(), Some(0));
    assert_eq!(progress.outcome(), None);
    progress.record(true);
    assert_eq!(progress.next(), Some(1));
    progress.record(true);
    assert_eq!(progress.next(), Some(2));
    assert_eq!(progress.outcome(), None);
    progress.record(true);
    assert_eq!(progress.next(), None);
    assert_eq!(progress.outcome(), Some(Ok(())));
    progress.record(false);
    assert_eq!(progress.outcome(), Some(Ok(())));
}

#[test]
fn nothing_to_do_is_done() {
    let progress = Progress::new(0);
    assert_eq!(progress.next(), None);
    assert_eq!(progress.outcome(), Some(Ok(())));
}

#[test]
fn the_first_failure_ends_the_run() {
    let mut progress = Progress::new(4);
    progress.record(true);
    progress.record(false);
    assert_eq!(progress.next(), None);
    assert_eq!(progress.outcome(), Some(Err(DumpError::StepFailed { step: 1 })));
    progress.record(true);
    assert_eq!(progress.next(), None);
    assert_eq!(progress.outcome(), Some(Err(DumpError::StepFailed { step: 1 })));
}

#[test]
fn a_failed_index_dump_fails_the_dump() {
    let snapshot = Snapshot::from_entries(
        vec![PendingEntry { sequence: 0, identifier: 1, job_id: 0, content: None }],
        Vec::new(),
    )
    .unwrap();
    let mut store = UpdateStore::new();
    let wanted: HashSet<u128> = [1, 2, 3].into_iter().collect();
    let steps = store.dump(&wanted, "/bundle", || Some(snapshot)).unwrap().steps();
    let mut progress = Progress::new(steps.len());
    let mut calls = 0;
    while let Some(place) = progress.next() {
        match &steps[place] {
            Step::DumpIndex { .. } => {
                calls += 1;
                progress.record(calls < 2);
            }
            _ => progress.record(true),
        }
    }
    assert_eq!(calls, 2);
    assert_eq!(store.state(), State::Dumping);
    assert_eq!(store.finish_dump(&progress), Err(DumpError::StepFailed { step: 5 }));
    assert_eq!(store.state(), State::Idle);
}

#[test]
fn a_dump_that_went_well_gives_the_marker_back() {
    let mut store = UpdateStore::new();
    let steps = store.dump(&HashSet::new(), "/bundle", || Some(Snapshot::new())).unwrap().steps();
    let mut progress = Progress::new(steps.len());
    while progress.next().is_some() {
        progress.record(true);
    }
    assert_eq!(store.finish_dump(&progress), Ok(()));
    assert_eq!(store.state(), State::Idle);
}

#[test]
fn a_dump_that_was_left_counts_as_failed() {
    let mut store = UpdateStore::new();
    let steps = store.dump(&HashSet::new(), "/bundle", || Some(Snapshot::new())).unwrap().steps();
    let mut progress = Progress::new(steps.len());
    progress.record(true);
    assert_eq!(store.finish_dump(&progress), Err(DumpError::StepFailed { step: 1 }));
    assert_eq!(store.state(), State::Idle);
}
