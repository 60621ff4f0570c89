//! Job records: the unit that a dump writes and a load reads.

use vstd::prelude::*;

verus! {

/// The views of the items of `items`, one for one.
pub open spec fn views<T: View>(items: Seq<T>) -> Seq<T::V> {
    items.map_values(|item: T| item@)
}

/// Names one index. The value is kept across a dump and a load.
pub type Identifier = u128;

/// How far a job has come.
#[derive(Clone, Debug, PartialEq, Eq)]
pub enum JobStatus {
    /// Queued. Its content, where it has any, lives in a file of its own.
    Pending { job_id: u64, content: Option<String> },
    Processing { job_id: u64 },
    Processed { job_id: u64 },
    Failed { job_id: u64 },
    Aborted { job_id: u64 },
}

/// A job status with its text as a sequence of characters.
pub enum JobStatusView {
    Pending { job_id: u64, content: Option<Seq<char>> },
    Processing { job_id: u64 },
    Processed { job_id: u64 },
    Failed { job_id: u64 },
    Aborted { job_id: u64 },
}

impl View for JobStatus {
    type V = JobStatusView;

    open spec fn view(&self) -> JobStatusView {
        match *self {
            JobStatus::Pending { job_id, content } => JobStatusView::Pending {
                job_id,
                content: match content {
                    Some(path) => Some(path@),
                    None => None,
                },
            },
            JobStatus::Processing { job_id } => JobStatusView::Processing { job_id },
            JobStatus::Processed { job_id } => JobStatusView::Processed { job_id },
            JobStatus::Failed { job_id } => JobStatusView::Failed { job_id },
            JobStatus::Aborted { job_id } => JobStatusView::Aborted { job_id },
        }
    }
}

impl JobStatusView {
    /// The job's number within its index.
    pub open spec fn job_id(self) -> u64 {
        match self {
            JobStatusView::Pending { job_id, .. } => job_id,
            JobStatusView::Processing { job_id } => job_id,
            JobStatusView::Processed { job_id } => job_id,
            JobStatusView::Failed { job_id } => job_id,
            JobStatusView::Aborted { job_id } => job_id,
        }
    }

    /// Where the job's content lies, if it has any. Only a pending job has.
    pub open spec fn content(self) -> Option<Seq<char>> {
        match self {
            JobStatusView::Pending { content, .. } => content,
            _ => None,
        }
    }

    /// The same status with its content at `content`. A status that is not
    /// pending carries none and stays as it is.
    pub open spec fn with_content(self, content: Option<Seq<char>>) -> JobStatusView {
        match self {
            JobStatusView::Pending { job_id, .. } => JobStatusView::Pending { job_id, content },
            _ => self,
        }
    }
}

/// A copy of `text`.
pub fn copy_text(text: &Option<String>) -> (copy: Option<String>)
    ensures
        match copy {
            Some(c) => text matches Some(t) && c@ == t@,
            None => text is None,
        },
{
    match text {
        Some(t) => Some(t.clone()),
        None => None,
    }
}

impl JobStatus {
    /// A copy of the status.
    pub fn duplicate(&self) -> (copy: JobStatus)
        ensures
            copy@ == self@,
    {
        match self {
            JobStatus::Pending { job_id, content } => JobStatus::Pending {
                job_id: *job_id,
                content: copy_text(content),
            },
            JobStatus::Processing { job_id } => JobStatus::Processing { job_id: *job_id },
            JobStatus::Processed { job_id } => JobStatus::Processed { job_id: *job_id },
            JobStatus::Failed { job_id } => JobStatus::Failed { job_id: *job_id },
            JobStatus::Aborted { job_id } => JobStatus::Aborted { job_id: *job_id },
        }
    }

    /// The job's number within its index.
    pub fn job_id(&self) -> (id: u64)
        ensures
            id == self@.job_id(),
    {
        match self {
            JobStatus::Pending { job_id, .. } => *job_id,
            JobStatus::Processing { job_id } => *job_id,
            JobStatus::Processed { job_id } => *job_id,
            JobStatus::Failed { job_id } => *job_id,
            JobStatus::Aborted { job_id } => *job_id,
        }
    }

    /// Where the job's content lies, if it has any.
    pub fn content(&self) -> (content: Option<&String>)
        ensures
            match content {
                Some(path) => self@.content() == Some(path@),
                None => self@.content() is None,
            },
    {
        match self {
            JobStatus::Pending { content: Some(path), .. } => Some(path),
            _ => None,
        }
    }
}

/// One job of one index.
#[derive(Clone, Debug, PartialEq, Eq)]
pub struct JobRecord {
    pub identifier: Identifier,
    pub status: JobStatus,
}

/// A job record with its text as a sequence of characters.
pub struct JobRecordView {
    pub identifier: Identifier,
    pub status: JobStatusView,
}

impl View for JobRecord {
    type V = JobRecordView;

    open spec fn view(&self) -> JobRecordView {
        JobRecordView { identifier: self.identifier, status: self.status@ }
    }
}

impl JobRecord {
    /// A copy of the record.
    pub fn duplicate(&self) -> (copy: JobRecord)
        ensures
            copy@ == self@,
    {
        JobRecord { identifier: self.identifier, status: self.status.duplicate() }
    }
}

} // verus!
