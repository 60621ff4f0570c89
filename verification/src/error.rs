//! Why a dump or a load stops.

use vstd::prelude::*;

verus! {

/// The first failure of a dump or a load. Either operation stops at it.
#[derive(Clone, Copy, Debug, PartialEq, Eq, Structural)]
pub enum DumpError {
    /// A dump was already in flight when another asked to start.
    DumpInProgress,
    /// The queue could not be read.
    SnapshotFailed,
    /// The content of a pending update lies at a path that has no file name
    /// to go by.
    InvalidUpdateFileName,
    /// The line at this position of the data file, counted from zero, is no
    /// update entry.
    MalformedLine { line: usize },
    /// The step at this position of a plan failed when it was carried out.
    StepFailed { step: usize },
}

impl DumpError {
    /// The failure in words.
    pub fn describe(&self) -> (words: String)
        ensures
            words@ == match *self {
                DumpError::DumpInProgress => "a dump is already in progress"@,
                DumpError::SnapshotFailed => "the update queue could not be read"@,
                DumpError::InvalidUpdateFileName => "invalid update file name"@,
                DumpError::MalformedLine { .. } => "a line of the data file is no update entry"@,
                DumpError::StepFailed { .. } => "a step of the operation failed"@,
            },
    {
        match self {
            DumpError::DumpInProgress => "a dump is already in progress".to_owned(),
            DumpError::SnapshotFailed => "the update queue could not be read".to_owned(),
            DumpError::InvalidUpdateFileName => "invalid update file name".to_owned(),
            DumpError::MalformedLine { .. } => "a line of the data file is no update entry".to_owned(),
            DumpError::StepFailed { .. } => "a step of the operation failed".to_owned(),
        }
    }
}

} // verus!
