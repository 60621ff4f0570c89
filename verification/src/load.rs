//! Reading a dump: what goes into a new queue, and where the content of its
//! pending jobs comes to lie.

use vstd::prelude::*;
use crate::error::DumpError;
use crate::paths::{
    join, joined, update_files_dir, update_files_path, updates_dir, updates_path,
};
use crate::plan::{FileCopy, FileCopyView, LoadPlan, LoadPlanView, Transfer, TransferView};
use crate::record::{JobRecord, JobRecordView, JobStatus};
use crate::store::UpdateStore;

verus! {

/// What the lines of a data file hold, where every line holds a record.
pub open spec fn parsed(lines: Seq<Option<JobRecord>>) -> Option<Seq<JobRecordView>> {
    if forall|k: int| 0 <= k < lines.len() ==> (#[trigger] lines[k]) is Some {
        Some(Seq::new(lines.len(), |k: int| lines[k]->0@))
    } else {
        None
    }
}

/// The place of the first line of `lines` that holds no record, where there
/// is one.
pub open spec fn first_malformed(lines: Seq<Option<JobRecord>>, line: int) -> bool {
    &&& 0 <= line < lines.len()
    &&& lines[line] is None
    &&& forall|k: int| 0 <= k < line ==> (#[trigger] lines[k]) is Some
}

/// How `record` goes from the bundle whose content lies in `from_dir` into
/// the queue whose content lies in `to_dir`: as it is where it has no
/// content, else with its content at the file's new place and the copy that
/// brings the file there.
pub open spec fn replayed(record: JobRecordView, from_dir: Seq<char>, to_dir: Seq<char>) -> TransferView {
    match record.status.content() {
        None => TransferView { record, copy: None },
        Some(path) => TransferView {
            record: JobRecordView {
                identifier: record.identifier,
                status: record.status.with_content(Some(joined(to_dir, path))),
            },
            copy: Some(FileCopyView { from: joined(from_dir, path), to: joined(to_dir, path) }),
        },
    }
}

/// The load of `records` from the bundle at `src` into a new queue at `dst`
/// whose storage holds `db_size` bytes: the records in their order, each as
/// it goes into the queue.
pub open spec fn load_plan(
    src: Seq<char>,
    dst: Seq<char>,
    db_size: u64,
    records: Seq<JobRecordView>,
) -> LoadPlanView {
    let from_dir = update_files_dir(updates_dir(src));
    let to_dir = update_files_dir(updates_dir(dst));
    LoadPlanView {
        updates_dir: updates_dir(dst),
        update_files_dir: to_dir,
        map_size: db_size as usize,
        entries: Seq::new(records.len(), |k: int| replayed(records[k], from_dir, to_dir)),
    }
}

/// How `record` goes from the bundle whose content lies in `from_dir` into
/// the queue whose content lies in `to_dir`.
pub fn replay(record: &JobRecord, from_dir: &str, to_dir: &str) -> (transfer: Transfer)
    ensures
        transfer@ == replayed(record@, from_dir@, to_dir@),
{
    match &record.status {
        JobStatus::Pending { job_id, content: Some(path) } => {
            let from = join(from_dir, path.as_str());
            let to = join(to_dir, path.as_str());
            Transfer {
                record: JobRecord {
                    identifier: record.identifier,
                    status: JobStatus::Pending { job_id: *job_id, content: Some(to.clone()) },
                },
                copy: Some(FileCopy { from, to }),
            }
        },
        _ => Transfer { record: record.duplicate(), copy: None },
    }
}

impl UpdateStore {
    /// Says all that the load of the bundle at `src` into a new queue at
    /// `dst` is to do, where the storage of the new queue holds `db_size`
    /// bytes. `lines` holds what the lines of the bundle's data file hold, in
    /// their order: a record each, or nothing where the line is no record.
    ///
    /// The records go into the new queue in the order of their lines and
    /// under the identifiers and job numbers that they have; the content of a
    /// pending job is copied to the new queue's directory, and the record
    /// says where it lies there. The load fails at the first line that holds
    /// no record.
    pub fn load_dump(src: &str, dst: &str, db_size: u64, lines: &Vec<Option<JobRecord>>) -> (plan:
        Result<LoadPlan, DumpError>)
        ensures
            match plan {
                Ok(p) => parsed(lines@) matches Some(records) && p@ == load_plan(
                    src@,
                    dst@,
                    db_size,
                    records,
                ),
                Err(e) => exists|line: usize|
                    first_malformed(lines@, line as int) && e == (DumpError::MalformedLine {
                        line,
                    }),
            },
    {
        let dst_updates = updates_path(dst);
        let to_dir = update_files_path(dst_updates.as_str());
        let src_updates = updates_path(src);
        let from_dir = update_files_path(src_updates.as_str());
        let ghost records = Seq::new(lines@.len(), |k: int| lines@[k]->0@);
        let mut entries: Vec<Transfer> = Vec::new();
        let mut i: usize = 0;
        while i < lines.len()
            invariant
                i <= lines.len(),
                from_dir@ == update_files_dir(updates_dir(src@)),
                to_dir@ == update_files_dir(updates_dir(dst@)),
                records == Seq::new(lines@.len(), |k: int| lines@[k]->0@),
                forall|k: int| 0 <= k < i ==> (#[trigger] lines@[k]) is Some,
                entries.len() == i,
                forall|k: int|
                    0 <= k < i ==> (#[trigger] entries[k])@ == replayed(
                        records[k],
                        from_dir@,
                        to_dir@,
                    ),
            decreases lines.len() - i,
        {
            match &lines[i] {
                Some(record) => {
                    let transfer = replay(record, from_dir.as_str(), to_dir.as_str());
                    entries.push(transfer);
                },
                None => {
                    assert(first_malformed(lines@, i as int));
                    return Err(DumpError::MalformedLine { line: i });
                },
            }
            i += 1;
        }
        #[verifier::truncate]
        let map_size = db_size as usize;
        let plan = LoadPlan { updates_dir: dst_updates, update_files_dir: to_dir, map_size, entries };
        proof {
            assert(parsed(lines@) == Some(records));
            assert(plan@.entries =~= load_plan(src@, dst@, db_size, records).entries);
        }
        Ok(plan)
    }
}

} // verus!
