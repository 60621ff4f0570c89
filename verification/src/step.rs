//! A dump or a load as a list of steps for the caller to carry out, one
//! after the other.

use vstd::prelude::*;
use crate::plan::{
    DumpPlan, DumpPlanView, FileCopy, FileCopyView, IndexDump, IndexDumpView, LoadPlan,
    LoadPlanView, Transfer, TransferView,
};
use crate::record::{views, JobRecord, JobRecordView};

verus! {

/// One thing to do outside of this library.
#[derive(Clone, Debug, PartialEq, Eq)]
pub enum Step {
    /// Create the directory at `path`, and those above it that are missing.
    CreateDir { path: String },
    /// Create the file at `path`, empty.
    CreateFile { path: String },
    /// Copy a file.
    CopyFile { copy: FileCopy },
    /// Write `record` as one more line at the end of the file at `file`.
    Append { file: String, record: JobRecord },
    /// Have the index actor dump an index, and wait until it has.
    DumpIndex { call: IndexDump },
    /// Set up a new, empty queue in the directory at `path`, with storage of
    /// `map_size` bytes, and open the one transaction of the load on it.
    OpenStore { path: String, map_size: usize },
    /// Put `record` into the new queue, under the identifier and the job
    /// number that it has.
    Insert { record: JobRecord },
    /// Commit the transaction.
    Commit,
}

/// A step as plain values.
pub enum StepView {
    CreateDir { path: Seq<char> },
    CreateFile { path: Seq<char> },
    CopyFile { copy: FileCopyView },
    Append { file: Seq<char>, record: JobRecordView },
    DumpIndex { call: IndexDumpView },
    OpenStore { path: Seq<char>, map_size: usize },
    Insert { record: JobRecordView },
    Commit,
}

impl View for Step {
    type V = StepView;

    open spec fn view(&self) -> StepView {
        match *self {
            Step::CreateDir { path } => StepView::CreateDir { path: path@ },
            Step::CreateFile { path } => StepView::CreateFile { path: path@ },
            Step::CopyFile { copy } => StepView::CopyFile { copy: copy@ },
            Step::Append { file, record } => StepView::Append { file: file@, record: record@ },
            Step::DumpIndex { call } => StepView::DumpIndex { call: call@ },
            Step::OpenStore { path, map_size } => StepView::OpenStore { path: path@, map_size },
            Step::Insert { record } => StepView::Insert { record: record@ },
            Step::Commit => StepView::Commit,
        }
    }
}

/// The steps that write `transfers` to the data file at `file`: for each, in
/// their order, the copy of its content where it has any, then its record.
pub open spec fn written_steps(transfers: Seq<TransferView>, file: Seq<char>) -> Seq<StepView>
    decreases transfers.len(),
{
    if transfers.len() == 0 {
        Seq::empty()
    } else {
        let last = transfers.last();
        let before = written_steps(transfers.drop_last(), file);
        match last.copy {
            Some(copy) => before.push(StepView::CopyFile { copy }).push(
                StepView::Append { file, record: last.record },
            ),
            None => before.push(StepView::Append { file, record: last.record }),
        }
    }
}

/// The steps that write `records` to the data file at `file`, in their
/// order.
pub open spec fn appended_steps(records: Seq<JobRecordView>, file: Seq<char>) -> Seq<StepView> {
    Seq::new(records.len(), |k: int| StepView::Append { file, record: records[k] })
}

/// The steps that make `calls`, in their order.
pub open spec fn index_steps(calls: Seq<IndexDumpView>) -> Seq<StepView> {
    Seq::new(calls.len(), |k: int| StepView::DumpIndex { call: calls[k] })
}

/// The steps of a dump: the directory of the queue's part, the data file,
/// the directory of the content; the pending records, each after the copy of
/// its content; the completed records; the calls of the index actor.
pub open spec fn dump_steps(plan: DumpPlanView) -> Seq<StepView> {
    seq![
        StepView::CreateDir { path: plan.updates_dir },
        StepView::CreateFile { path: plan.updates.data_file },
        StepView::CreateDir { path: plan.updates.update_files_dir },
    ] + written_steps(plan.updates.pending, plan.updates.data_file) + appended_steps(
        plan.updates.completed,
        plan.updates.data_file,
    ) + index_steps(plan.indexes)
}

/// The steps that put `transfers` into the new queue: for each, in their
/// order, the copy of its content where it has any, then its record.
pub open spec fn inserted_steps(transfers: Seq<TransferView>) -> Seq<StepView>
    decreases transfers.len(),
{
    if transfers.len() == 0 {
        Seq::empty()
    } else {
        let last = transfers.last();
        let before = inserted_steps(transfers.drop_last());
        match last.copy {
            Some(copy) => before.push(StepView::CopyFile { copy }).push(
                StepView::Insert { record: last.record },
            ),
            None => before.push(StepView::Insert { record: last.record }),
        }
    }
}

/// The steps of a load: the two directories of the new queue, the queue
/// itself, the records, each after the copy of its content, and the commit.
pub open spec fn load_steps(plan: LoadPlanView) -> Seq<StepView> {
    seq![
        StepView::CreateDir { path: plan.updates_dir },
        StepView::CreateDir { path: plan.update_files_dir },
        StepView::OpenStore { path: plan.updates_dir, map_size: plan.map_size },
    ] + inserted_steps(plan.entries).push(StepView::Commit)
}

impl DumpPlan {
    /// The steps of the dump, in the order in which they are to be taken.
    pub fn steps(&self) -> (steps: Vec<Step>)
        ensures
            views(steps@) == dump_steps(self@),
    {
        let mut steps: Vec<Step> = Vec::new();
        steps.push(Step::CreateDir { path: self.updates_dir.clone() });
        steps.push(Step::CreateFile { path: self.updates.data_file.clone() });
        steps.push(Step::CreateDir { path: self.updates.update_files_dir.clone() });
        let ghost head = views(steps@);
        let ghost file = self.updates.data_file@;
        let ghost pending = views(self.updates.pending@);
        assert(head =~= seq![
            StepView::CreateDir { path: self@.updates_dir },
            StepView::CreateFile { path: self@.updates.data_file },
            StepView::CreateDir { path: self@.updates.update_files_dir },
        ]);
        let mut i: usize = 0;
        assert(pending.take(0) =~= Seq::empty());
        while i < self.updates.pending.len()
            invariant
                i <= self.updates.pending.len(),
                file == self.updates.data_file@,
                pending == views(self.updates.pending@),
                views(steps@) =~= head + written_steps(pending.take(i as int), file),
            decreases self.updates.pending.len() - i,
        {
            let transfer = &self.updates.pending[i];
            let ghost before = views(steps@);
            proof {
                assert(pending.take(i + 1).drop_last() =~= pending.take(i as int));
                assert(pending.take(i + 1).last() == transfer@);
            }
            match &transfer.copy {
                Some(copy) => {
                    steps.push(Step::CopyFile { copy: copy.duplicate() });
                    assert(views(steps@) =~= before.push(StepView::CopyFile { copy: copy@ }));
                },
                None => {},
            }
            let ghost middle = views(steps@);
            steps.push(
                Step::Append {
                    file: self.updates.data_file.clone(),
                    record: transfer.record.duplicate(),
                },
            );
            assert(views(steps@) =~= middle.push(
                StepView::Append { file, record: transfer.record@ },
            ));
            i += 1;
        }
        assert(pending.take(i as int) =~= pending);
        let ghost written = views(steps@);
        let ghost completed = views(self.updates.completed@);
        let mut j: usize = 0;
        while j < self.updates.completed.len()
            invariant
                j <= self.updates.completed.len(),
                file == self.updates.data_file@,
                completed == views(self.updates.completed@),
                views(steps@) =~= written + appended_steps(completed.take(j as int), file),
            decreases self.updates.completed.len() - j,
        {
            let ghost before = views(steps@);
            steps.push(
                Step::Append {
                    file: self.updates.data_file.clone(),
                    record: self.updates.completed[j].duplicate(),
                },
            );
            assert(views(steps@) =~= before.push(
                StepView::Append { file, record: completed[j as int] },
            ));
            j += 1;
        }
        assert(completed.take(j as int) =~= completed);
        let ghost appended = views(steps@);
        let ghost calls = views(self.indexes@);
        let mut k: usize = 0;
        while k < self.indexes.len()
            invariant
                k <= self.indexes.len(),
                calls == views(self.indexes@),
                views(steps@) =~= appended + index_steps(calls.take(k as int)),
            decreases self.indexes.len() - k,
        {
            let ghost before = views(steps@);
            let call = &self.indexes[k];
            steps.push(
                Step::DumpIndex {
                    call: IndexDump { identifier: call.identifier, path: call.path.clone() },
                },
            );
            assert(views(steps@) =~= before.push(StepView::DumpIndex { call: calls[k as int] }));
            k += 1;
        }
        assert(calls.take(k as int) =~= calls);
        steps
    }
}

impl LoadPlan {
    /// The steps of the load, in the order in which they are to be taken.
    pub fn steps(&self) -> (steps: Vec<Step>)
        ensures
            views(steps@) == load_steps(self@),
    {
        let mut steps: Vec<Step> = Vec::new();
        steps.push(Step::CreateDir { path: self.updates_dir.clone() });
        steps.push(Step::CreateDir { path: self.update_files_dir.clone() });
        steps.push(Step::OpenStore { path: self.updates_dir.clone(), map_size: self.map_size });
        let ghost head = views(steps@);
        let ghost entries = views(self.entries@);
        assert(head =~= seq![
            StepView::CreateDir { path: self@.updates_dir },
            StepView::CreateDir { path: self@.update_files_dir },
            StepView::OpenStore { path: self@.updates_dir, map_size: self@.map_size },
        ]);
        let mut i: usize = 0;
        assert(entries.take(0) =~= Seq::empty());
        while i < self.entries.len()
            invariant
                i <= self.entries.len(),
                entries == views(self.entries@),
                views(steps@) =~= head + inserted_steps(entries.take(i as int)),
            decreases self.entries.len() - i,
        {
            let transfer = &self.entries[i];
            let ghost before = views(steps@);
            proof {
                assert(entries.take(i + 1).drop_last() =~= entries.take(i as int));
                assert(entries.take(i + 1).last() == transfer@);
            }
            match &transfer.copy {
                Some(copy) => {
                    steps.push(Step::CopyFile { copy: copy.duplicate() });
                    assert(views(steps@) =~= before.push(StepView::CopyFile { copy: copy@ }));
                },
                None => {},
            }
            let ghost middle = views(steps@);
            steps.push(Step::Insert { record: transfer.record.duplicate() });
            assert(views(steps@) =~= middle.push(StepView::Insert { record: transfer.record@ }));
            i += 1;
        }
        assert(entries.take(i as int) =~= entries);
        let ghost inserted = views(steps@);
        steps.push(Step::Commit);
        assert(views(steps@) =~= inserted.push(StepView::Commit));
        steps
    }
}

} // verus!
