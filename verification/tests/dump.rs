use std::collections::HashSet;
use update_store_dump::dump::{dump_completed, dump_indexes, dump_pending, is_selected};
use update_store_dump::error::DumpError;
use update_store_dump::gate::State;
use update_store_dump::plan::{FileCopy, IndexDump, Transfer};
use update_store_dump::record::{JobRecord, JobStatus};
use update_store_dump::step::Step;
use update_store_dump::store::{CompletedEntry, PendingEntry, Snapshot, UpdateStore};

const A: u128 = 0xa;
const B: u128 = 0xb;
const C: u128 = 0xc;

fn pending(sequence: u64, identifier: u128, job_id: u64, content: Option<&str>) -> PendingEntry {
    PendingEntry { sequence, identifier, job_id, content: content.map(|c| c.to_string()) }
}

fn set(ids: &[u128]) -> HashSet<u128> {
    ids.iter().copied().collect()
}

fn sample() -> Snapshot {
    Snapshot::from_entries(
        vec![
            pending(0, A, 3, Some("/data/u/abc")),
            pending(1, B, 0, Some("/data/u/def")),
            pending(2, A, 4, None),
            pending(5, C, 1, Some("/other/ghi")),
            pending(7, A, 5, Some("/data/v/jkl")),
        ],
        vec![
            CompletedEntry { identifier: A, status: JobStatus::Processed { job_id: 0 } },
            CompletedEntry { identifier: A, status: JobStatus::Failed { job_id: 1 } },
            CompletedEntry { identifier: A, status: JobStatus::Aborted { job_id: 2 } },
            CompletedEntry { identifier: C, status: JobStatus::Processing { job_id: 0 } },
        ],
    )
    .unwrap()
}

#[test]
fn a_new_store_is_idle() {
    let store = UpdateStore::new();
    assert_eq!(store.state(), State::Idle);
}

#[test]
fn a_new_snapshot_is_empty() {
    let snapshot = Snapshot::new();
    assert!(snapshot.pending().is_empty());
    assert!(snapshot.completed().is_empty());
}

#[test]
fn a_snapshot_holds_its_entries_in_key_order() {
    let snapshot = sample();
    assert_eq!(snapshot.pending().len(), 5);
    assert_eq!(snapshot.completed().len(), 4);
    assert_eq!(snapshot.pending()[3], pending(5, C, 1, Some("/other/ghi")));
}

#[test]
fn a_key_says_whether_its_entry_is_taken() {
    assert!(is_selected(&set(&[A, B]), A));
    assert!(!is_selected(&set(&[A, B]), C));
    assert!(!is_selected(&HashSet::new(), A));
}

#[test]
fn pending_out_of_key_order_is_no_snapshot() {
    let out_of_order = vec![pending(1, A, 0, None), pending(0, A, 1, None)];
    assert!(Snapshot::from_entries(out_of_order, Vec::new()).is_none());
    let twice = vec![pending(1, A, 0, None), pending(1, A, 0, None)];
    assert!(Snapshot::from_entries(twice, Vec::new()).is_none());
}

#[test]
fn pending_keys_are_compared_part_by_part() {
    let entries = vec![pending(1, A, 9, None), pending(1, B, 0, None), pending(1, B, 1, None)];
    assert!(Snapshot::from_entries(entries, Vec::new()).is_some());
    let entries = vec![pending(1, B, 0, None), pending(1, A, 9, None)];
    assert!(Snapshot::from_entries(entries, Vec::new()).is_none());
}

#[test]
fn completed_out_of_key_order_is_no_snapshot() {
    let entries = vec![
        CompletedEntry { identifier: B, status: JobStatus::Processed { job_id: 0 } },
        CompletedEntry { identifier: A, status: JobStatus::Processed { job_id: 1 } },
    ];
    assert!(Snapshot::from_entries(Vec::new(), entries).is_none());
    let entries = vec![
        CompletedEntry { identifier: A, status: JobStatus::Processed { job_id: 1 } },
        CompletedEntry { identifier: A, status: JobStatus::Failed { job_id: 1 } },
    ];
    assert!(Snapshot::from_entries(Vec::new(), entries).is_none());
}

#[test]
fn a_pending_job_among_the_completed_is_no_snapshot() {
    let entries = vec![CompletedEntry {
        identifier: A,
        status: JobStatus::Pending { job_id: 1, content: None },
    }];
    assert!(Snapshot::from_entries(Vec::new(), entries).is_none());
}

#[test]
fn dump_of_no_index_is_an_empty_bundle() {
    let mut store = UpdateStore::new();
    let plan = store.dump(&HashSet::new(), "/bundle", || Some(sample())).unwrap();
    assert_eq!(plan.updates_dir, "/bundle/updates");
    assert_eq!(plan.updates.data_file, "/bundle/updates/data.jsonl");
    assert_eq!(plan.updates.update_files_dir, "/bundle/updates/update_files");
    assert!(plan.updates.pending.is_empty());
    assert!(plan.updates.completed.is_empty());
    assert!(plan.indexes.is_empty());
    assert_eq!(
        plan.steps(),
        vec![
            Step::CreateDir { path: "/bundle/updates".to_string() },
            Step::CreateFile { path: "/bundle/updates/data.jsonl".to_string() },
            Step::CreateDir { path: "/bundle/updates/update_files".to_string() },
        ]
    );
}

#[test]
fn dump_of_one_pending_record() {
    let snapshot =
        Snapshot::from_entries(vec![pending(0, A, 0, Some("/data/u/abc"))], Vec::new())
            .unwrap();
    let mut store = UpdateStore::new();
    let plan = store.dump(&set(&[A]), "/bundle", || Some(snapshot)).unwrap();
    let record = JobRecord {
        identifier: A,
        status: JobStatus::Pending { job_id: 0, content: Some("abc".to_string()) },
    };
    let copy = FileCopy {
        from: "/data/u/abc".to_string(),
        to: "/bundle/updates/update_files/abc".to_string(),
    };
    assert_eq!(
        plan.updates.pending,
        vec![Transfer { record: record.clone(), copy: Some(copy.clone()) }]
    );
    assert!(plan.updates.completed.is_empty());
    assert_eq!(plan.indexes, vec![IndexDump { identifier: A, path: "/bundle".to_string() }]);
    assert_eq!(
        plan.steps(),
        vec![
            Step::CreateDir { path: "/bundle/updates".to_string() },
            Step::CreateFile { path: "/bundle/updates/data.jsonl".to_string() },
            Step::CreateDir { path: "/bundle/updates/update_files".to_string() },
            Step::CopyFile { copy },
            Step::Append { file: "/bundle/updates/data.jsonl".to_string(), record },
            Step::DumpIndex {
                call: IndexDump { identifier: A, path: "/bundle".to_string() }
            },
        ]
    );
}

#[test]
fn dump_keeps_only_the_indexes_asked_for() {
    let mut store = UpdateStore::new();
    let plan = store.dump(&set(&[A]), "/bundle", || Some(sample())).unwrap();
    assert_eq!(plan.updates.pending.len(), 3);
    assert_eq!(plan.updates.completed.len(), 3);
    assert!(plan.updates.pending.iter().all(|t| t.record.identifier == A));
    assert!(plan.updates.completed.iter().all(|r| r.identifier == A));
    for step in plan.steps() {
        match step {
            Step::Append { record, .. } => assert_eq!(record.identifier, A),
            Step::CopyFile { copy } => assert!(copy.from.starts_with("/data/")),
            Step::DumpIndex { call } => assert_eq!(call.identifier, A),
            _ => {}
        }
    }
}

#[test]
fn dump_of_an_index_that_has_no_job() {
    let mut store = UpdateStore::new();
    let plan = store.dump(&set(&[0xdd]), "/bundle", || Some(sample())).unwrap();
    assert!(plan.updates.pending.is_empty());
    assert!(plan.updates.completed.is_empty());
    assert_eq!(plan.indexes, vec![IndexDump { identifier: 0xdd, path: "/bundle".to_string() }]);
}

#[test]
fn dump_keeps_pending_records_in_key_order() {
    let mut store = UpdateStore::new();
    let plan = store.dump(&set(&[A, C]), "/bundle", || Some(sample())).unwrap();
    let written: Vec<(u128, u64)> =
        plan.updates.pending.iter().map(|t| (t.record.identifier, t.record.status.job_id())).collect();
    assert_eq!(written, vec![(A, 3), (A, 4), (C, 1), (A, 5)]);
    let names: Vec<Option<String>> =
        plan.updates.pending.iter().map(|t| t.record.status.content().cloned()).collect();
    assert_eq!(
        names,
        vec![Some("abc".to_string()), None, Some("ghi".to_string()), Some("jkl".to_string())]
    );
    let appended: Vec<(u128, u64)> = plan
        .steps()
        .into_iter()
        .filter_map(|step| match step {
            Step::Append { record, .. } => Some((record.identifier, record.status.job_id())),
            _ => None,
        })
        .collect();
    assert_eq!(appended, vec![(A, 3), (A, 4), (C, 1), (A, 5), (A, 0), (A, 1), (A, 2), (C, 0)]);
}

#[test]
fn each_copy_comes_right_before_its_record() {
    let mut store = UpdateStore::new();
    let steps = store.dump(&set(&[A, B, C]), "/bundle", || Some(sample())).unwrap().steps();
    for (place, step) in steps.iter().enumerate() {
        if let Step::CopyFile { copy } = step {
            match &steps[place + 1] {
                Step::Append { record, .. } => {
                    let name = record.status.content().unwrap();
                    assert_eq!(copy.to, format!("/bundle/updates/update_files/{}", name));
                    assert!(copy.from.ends_with(name.as_str()));
                }
                other => panic!("a copy is followed by {:?}", other),
            }
        }
    }
    assert_eq!(steps.iter().filter(|s| matches!(s, Step::CopyFile { .. })).count(), 4);
}

#[test]
fn index_dumps_come_last_and_once_each() {
    let mut store = UpdateStore::new();
    let plan = store.dump(&set(&[A, B, C]), "/bundle", || Some(sample())).unwrap();
    let called: HashSet<u128> = plan.indexes.iter().map(|c| c.identifier).collect();
    assert_eq!(plan.indexes.len(), 3);
    assert_eq!(called, set(&[A, B, C]));
    assert!(plan.indexes.iter().all(|c| c.path == "/bundle"));
    let steps = plan.steps();
    let tail = &steps[steps.len() - 3..];
    assert!(tail.iter().all(|s| matches!(s, Step::DumpIndex { .. })));
    assert!(steps[..steps.len() - 3].iter().all(|s| !matches!(s, Step::DumpIndex { .. })));
}

#[test]
fn dump_takes_the_marker() {
    let mut store = UpdateStore::new();
    assert_eq!(store.state(), State::Idle);
    store.dump(&set(&[A]), "/bundle", || Some(sample())).unwrap();
    assert_eq!(store.state(), State::Dumping);
}

#[test]
fn a_second_dump_is_turned_away() {
    let mut store = UpdateStore::new();
    store.dump(&set(&[A]), "/bundle", || Some(sample())).unwrap();
    let mut read = false;
    let second = store.dump(&set(&[B]), "/other", || {
        read = true;
        Some(sample())
    });
    assert_eq!(second, Err(DumpError::DumpInProgress));
    assert!(!read);
    assert_eq!(store.state(), State::Dumping);
    store.release();
    assert_eq!(store.state(), State::Idle);
    assert!(store.dump(&set(&[B]), "/other", || Some(sample())).is_ok());
}

#[test]
fn content_without_a_file_name_fails_the_dump() {
    let snapshot = Snapshot::from_entries(
        vec![pending(0, A, 0, Some("/data/u/abc")), pending(1, A, 1, Some("/"))],
        Vec::new(),
    )
    .unwrap();
    assert_eq!(snapshot.plan_dump(&set(&[A]), "/bundle"), Err(DumpError::InvalidUpdateFileName));
    let mut store = UpdateStore::new();
    assert_eq!(
        store.dump(&set(&[A]), "/bundle", || Some(snapshot)),
        Err(DumpError::InvalidUpdateFileName)
    );
    assert_eq!(store.state(), State::Idle);
}

#[test]
fn a_queue_that_cannot_be_read_fails_the_dump() {
    let mut store = UpdateStore::new();
    assert_eq!(store.dump(&set(&[A]), "/bundle", || None), Err(DumpError::SnapshotFailed));
    assert_eq!(store.state(), State::Idle);
    assert!(store.dump(&set(&[A]), "/bundle", || Some(sample())).is_ok());
}

#[test]
fn content_without_a_file_name_in_another_index_is_no_matter() {
    let snapshot = Snapshot::from_entries(
        vec![pending(0, A, 0, Some("/data/u/abc")), pending(1, B, 1, Some("/"))],
        Vec::new(),
    )
    .unwrap();
    let plan = snapshot.plan_dump(&set(&[A]), "/bundle").unwrap();
    assert_eq!(plan.updates.pending.len(), 1);
}

#[test]
fn pending_pass_alone() {
    let entries = vec![pending(0, A, 0, None), pending(1, B, 0, Some("x/y")), pending(2, A, 1, Some("z"))];
    let written = dump_pending(&entries, &set(&[A]), "files").unwrap();
    assert_eq!(
        written,
        vec![
            Transfer {
                record: JobRecord {
                    identifier: A,
                    status: JobStatus::Pending { job_id: 0, content: None }
                },
                copy: None
            },
            Transfer {
                record: JobRecord {
                    identifier: A,
                    status: JobStatus::Pending { job_id: 1, content: Some("z".to_string()) }
                },
                copy: Some(FileCopy { from: "z".to_string(), to: "files/z".to_string() })
            },
        ]
    );
    assert_eq!(dump_pending(&entries, &HashSet::new(), "files"), Ok(Vec::new()));
    let bad = vec![pending(0, A, 0, Some(""))];
    assert_eq!(dump_pending(&bad, &set(&[A]), "files"), Err(DumpError::InvalidUpdateFileName));
}

#[test]
fn completed_pass_alone() {
    let entries = vec![
        CompletedEntry { identifier: A, status: JobStatus::Processed { job_id: 0 } },
        CompletedEntry { identifier: B, status: JobStatus::Failed { job_id: 0 } },
        CompletedEntry { identifier: B, status: JobStatus::Aborted { job_id: 1 } },
    ];
    assert_eq!(
        dump_completed(&entries, &set(&[B])),
        vec![
            JobRecord { identifier: B, status: JobStatus::Failed { job_id: 0 } },
            JobRecord { identifier: B, status: JobStatus::Aborted { job_id: 1 } },
        ]
    );
    assert!(dump_completed(&entries, &set(&[C])).is_empty());
}

#[test]
fn index_pass_alone() {
    assert!(dump_indexes(&HashSet::new(), "/bundle").is_empty());
    let calls = dump_indexes(&set(&[A, B]), "/bundle");
    assert_eq!(calls.len(), 2);
    assert!(calls.contains(&IndexDump { identifier: A, path: "/bundle".to_string() }));
    assert!(calls.contains(&IndexDump { identifier: B, path: "/bundle".to_string() }));
}
