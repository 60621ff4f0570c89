//! What a dump or a load asks of the file system, the storage engine and the
//! index actor, as plain values.

use vstd::prelude::*;
use crate::record::{views, Identifier, JobRecord, JobRecordView};

verus! {

/// One file to be copied.
#[derive(Clone, Debug, PartialEq, Eq)]
pub struct FileCopy {
    pub from: String,
    pub to: String,
}

/// One file to be copied, its paths as sequences of characters.
pub struct FileCopyView {
    pub from: Seq<char>,
    pub to: Seq<char>,
}

impl View for FileCopy {
    type V = FileCopyView;

    open spec fn view(&self) -> FileCopyView {
        FileCopyView { from: self.from@, to: self.to@ }
    }
}

impl FileCopy {
    /// A copy of the instruction.
    pub fn duplicate(&self) -> (copy: FileCopy)
        ensures
            copy@ == self@,
    {
        FileCopy { from: self.from.clone(), to: self.to.clone() }
    }
}

/// A record on its way into a bundle or out of one, with the copy of its
/// content that goes before it.
#[derive(Clone, Debug, PartialEq, Eq)]
pub struct Transfer {
    pub record: JobRecord,
    pub copy: Option<FileCopy>,
}

/// A transfer as plain values.
pub struct TransferView {
    pub record: JobRecordView,
    pub copy: Option<FileCopyView>,
}

impl View for Transfer {
    type V = TransferView;

    open spec fn view(&self) -> TransferView {
        TransferView {
            record: self.record@,
            copy: match self.copy {
                Some(copy) => Some(copy@),
                None => None,
            },
        }
    }
}

/// One call of the index actor: dump the index `identifier` under `path`.
#[derive(Clone, Debug, PartialEq, Eq)]
pub struct IndexDump {
    pub identifier: Identifier,
    pub path: String,
}

/// One call of the index actor as plain values.
pub struct IndexDumpView {
    pub identifier: Identifier,
    pub path: Seq<char>,
}

impl View for IndexDump {
    type V = IndexDumpView;

    open spec fn view(&self) -> IndexDumpView {
        IndexDumpView { identifier: self.identifier, path: self.path@ }
    }
}

/// The part of a dump that holds the queue: where its records and their
/// content go, and what goes there, in the order in which it is written.
#[derive(Clone, Debug, PartialEq, Eq)]
pub struct UpdatesDump {
    pub data_file: String,
    pub update_files_dir: String,
    pub pending: Vec<Transfer>,
    pub completed: Vec<JobRecord>,
}

/// The queue's part of a dump as plain values.
pub struct UpdatesDumpView {
    pub data_file: Seq<char>,
    pub update_files_dir: Seq<char>,
    pub pending: Seq<TransferView>,
    pub completed: Seq<JobRecordView>,
}

impl View for UpdatesDump {
    type V = UpdatesDumpView;

    open spec fn view(&self) -> UpdatesDumpView {
        UpdatesDumpView {
            data_file: self.data_file@,
            update_files_dir: self.update_files_dir@,
            pending: views(self.pending@),
            completed: views(self.completed@),
        }
    }
}

/// A whole dump: the directory of the queue's part, that part, and the
/// calls of the index actor that follow it.
#[derive(Clone, Debug, PartialEq, Eq)]
pub struct DumpPlan {
    pub updates_dir: String,
    pub updates: UpdatesDump,
    pub indexes: Vec<IndexDump>,
}

/// A whole dump as plain values.
pub struct DumpPlanView {
    pub updates_dir: Seq<char>,
    pub updates: UpdatesDumpView,
    pub indexes: Seq<IndexDumpView>,
}

impl View for DumpPlan {
    type V = DumpPlanView;

    open spec fn view(&self) -> DumpPlanView {
        DumpPlanView {
            updates_dir: self.updates_dir@,
            updates: self.updates@,
            indexes: views(self.indexes@),
        }
    }
}

/// A whole load: the directories of the new queue, the size of its storage,
/// and the records that go into it, in the order in which they are read,
/// each with the copy of its content that goes before it.
#[derive(Clone, Debug, PartialEq, Eq)]
pub struct LoadPlan {
    pub updates_dir: String,
    pub update_files_dir: String,
    pub map_size: usize,
    pub entries: Vec<Transfer>,
}

/// A whole load as plain values.
pub struct LoadPlanView {
    pub updates_dir: Seq<char>,
    pub update_files_dir: Seq<char>,
    pub map_size: usize,
    pub entries: Seq<TransferView>,
}

impl View for LoadPlan {
    type V = LoadPlanView;

    open spec fn view(&self) -> LoadPlanView {
        LoadPlanView {
            updates_dir: self.updates_dir@,
            update_files_dir: self.update_files_dir@,
            map_size: self.map_size,
            entries: views(self.entries@),
        }
    }
}

} // verus!
