//! The queue as a dump sees it: its two collections as one transaction reads
//! them, each in the order of its keys.

use vstd::prelude::*;
use crate::error::DumpError;
use crate::gate::{Gate, State};
use crate::record::{views, Identifier, JobRecordView, JobStatus, JobStatusView};

verus! {

/// A queued job under its key `(sequence, identifier, job_id)`.
#[derive(Clone, Debug, PartialEq, Eq)]
pub struct PendingEntry {
    pub sequence: u64,
    pub identifier: Identifier,
    pub job_id: u64,
    pub content: Option<String>,
}

/// A queued job with its text as a sequence of characters.
pub struct PendingEntryView {
    pub sequence: u64,
    pub identifier: Identifier,
    pub job_id: u64,
    pub content: Option<Seq<char>>,
}

impl View for PendingEntry {
    type V = PendingEntryView;

    open spec fn view(&self) -> PendingEntryView {
        PendingEntryView {
            sequence: self.sequence,
            identifier: self.identifier,
            job_id: self.job_id,
            content: match self.content {
                Some(path) => Some(path@),
                None => None,
            },
        }
    }
}

impl PendingEntryView {
    /// The entry as a job record.
    pub open spec fn record(self) -> JobRecordView {
        JobRecordView {
            identifier: self.identifier,
            status: JobStatusView::Pending { job_id: self.job_id, content: self.content },
        }
    }

    /// Whether the entry's key comes before that of `other`.
    pub open spec fn key_lt(self, other: PendingEntryView) -> bool {
        self.sequence < other.sequence || (self.sequence == other.sequence && (self.identifier
            < other.identifier || (self.identifier == other.identifier && self.job_id
            < other.job_id)))
    }
}

/// A job that left the queue, under its key `(identifier, job_id)`; the job's
/// number is that of its status.
#[derive(Clone, Debug, PartialEq, Eq)]
pub struct CompletedEntry {
    pub identifier: Identifier,
    pub status: JobStatus,
}

/// A job that left the queue, with its text as a sequence of characters.
pub struct CompletedEntryView {
    pub identifier: Identifier,
    pub status: JobStatusView,
}

impl View for CompletedEntry {
    type V = CompletedEntryView;

    open spec fn view(&self) -> CompletedEntryView {
        CompletedEntryView { identifier: self.identifier, status: self.status@ }
    }
}

impl CompletedEntryView {
    /// The entry as a job record.
    pub open spec fn record(self) -> JobRecordView {
        JobRecordView { identifier: self.identifier, status: self.status }
    }

    /// Whether the entry's key comes before that of `other`.
    pub open spec fn key_lt(self, other: CompletedEntryView) -> bool {
        self.identifier < other.identifier || (self.identifier == other.identifier
            && self.status.job_id() < other.status.job_id())
    }
}

/// Whether `pending` runs in strictly rising order of its keys.
pub open spec fn pending_in_order(pending: Seq<PendingEntryView>) -> bool {
    forall|i: int, j: int| 0 <= i < j < pending.len() ==> (#[trigger] pending[i]).key_lt(
        #[trigger] pending[j],
    )
}

/// Whether `completed` runs in strictly rising order of its keys and holds no
/// pending job.
pub open spec fn completed_in_order(completed: Seq<CompletedEntryView>) -> bool {
    &&& forall|i: int, j: int|
        0 <= i < j < completed.len() ==> (#[trigger] completed[i]).key_lt(#[trigger] completed[j])
    &&& forall|i: int|
        0 <= i < completed.len() ==> !((#[trigger] completed[i]).status is Pending)
}

/// The pending jobs of a queue and the jobs that left it, as one read
/// transaction sees them.
pub struct Snapshot {
    pending: Vec<PendingEntry>,
    completed: Vec<CompletedEntry>,
}

/// A snapshot as plain values.
pub struct SnapshotView {
    pub pending: Seq<PendingEntryView>,
    pub completed: Seq<CompletedEntryView>,
}

impl SnapshotView {
    /// Both collections are in the order of their keys.
    pub open spec fn wf(self) -> bool {
        pending_in_order(self.pending) && completed_in_order(self.completed)
    }
}

impl View for Snapshot {
    type V = SnapshotView;

    closed spec fn view(&self) -> SnapshotView {
        SnapshotView { pending: views(self.pending@), completed: views(self.completed@) }
    }
}

/// Whether the key of `a` comes before that of `b`.
fn pending_before(a: &PendingEntry, b: &PendingEntry) -> (before: bool)
    ensures
        before == a@.key_lt(b@),
{
    a.sequence < b.sequence || (a.sequence == b.sequence && (a.identifier < b.identifier || (
    a.identifier == b.identifier && a.job_id < b.job_id)))
}

/// Whether the key of `a` comes before that of `b`.
fn completed_before(a: &CompletedEntry, b: &CompletedEntry) -> (before: bool)
    ensures
        before == a@.key_lt(b@),
{
    a.identifier < b.identifier || (a.identifier == b.identifier && a.status.job_id()
        < b.status.job_id())
}

/// Whether `pending` runs in strictly rising order of its keys.
fn check_pending(pending: &Vec<PendingEntry>) -> (ordered: bool)
    ensures
        ordered == pending_in_order(views(pending@)),
{
    let ghost entries = views(pending@);
    let mut i: usize = 1;
    while i < pending.len()
        invariant
            1 <= i,
            entries == views(pending@),
            forall|k: int| 0 < k < i && k < entries.len() ==> (#[trigger] entries[k - 1]).key_lt(
                entries[k],
            ),
        decreases pending.len() - i,
    {
        if !pending_before(&pending[i - 1], &pending[i]) {
            assert(!entries[i - 1].key_lt(entries[i as int]));
            return false;
        }
        i += 1;
    }
    proof {
        lemma_pending_steps(entries);
    }
    true
}

/// Keys that rise from each entry to the next rise from each entry to every
/// later one.
proof fn lemma_pending_steps(entries: Seq<PendingEntryView>)
    requires
        forall|k: int| 0 < k < entries.len() ==> (#[trigger] entries[k - 1]).key_lt(entries[k]),
    ensures
        pending_in_order(entries),
{
    assert forall|i: int, j: int| 0 <= i < j < entries.len() implies (#[trigger] entries[i]).key_lt(
        #[trigger] entries[j],
    ) by {
        lemma_pending_rise(entries, i, j);
    }
}

proof fn lemma_pending_rise(entries: Seq<PendingEntryView>, i: int, j: int)
    requires
        forall|k: int| 0 < k < entries.len() ==> (#[trigger] entries[k - 1]).key_lt(entries[k]),
        0 <= i < j < entries.len(),
    ensures
        entries[i].key_lt(entries[j]),
    decreases j - i,
{
    if i + 1 < j {
        lemma_pending_rise(entries, i, j - 1);
        assert(entries[j - 1].key_lt(entries[j]));
    } else {
        assert(entries[j - 1].key_lt(entries[j]));
    }
}

/// Whether `completed` runs in strictly rising order of its keys and holds no
/// pending job.
fn check_completed(completed: &Vec<CompletedEntry>) -> (ordered: bool)
    ensures
        ordered == completed_in_order(views(completed@)),
{
    let ghost entries = views(completed@);
    let mut i: usize = 0;
    while i < completed.len()
        invariant
            entries == views(completed@),
            i <= entries.len(),
            forall|k: int| 0 < k < i ==> (#[trigger] entries[k - 1]).key_lt(entries[k]),
            forall|k: int| 0 <= k < i ==> !((#[trigger] entries[k]).status is Pending),
        decreases completed.len() - i,
    {
        match &completed[i].status {
            JobStatus::Pending { .. } => {
                assert(entries[i as int].status is Pending);
                return false;
            },
            _ => {},
        }
        if i > 0 && !completed_before(&completed[i - 1], &completed[i]) {
            assert(!entries[i - 1].key_lt(entries[i as int]));
            return false;
        }
        i += 1;
    }
    proof {
        lemma_completed_steps(entries);
    }
    true
}

/// Keys that rise from each entry to the next rise from each entry to every
/// later one.
proof fn lemma_completed_steps(entries: Seq<CompletedEntryView>)
    requires
        forall|k: int| 0 < k < entries.len() ==> (#[trigger] entries[k - 1]).key_lt(entries[k]),
    ensures
        forall|i: int, j: int|
            0 <= i < j < entries.len() ==> (#[trigger] entries[i]).key_lt(#[trigger] entries[j]),
{
    assert forall|i: int, j: int| 0 <= i < j < entries.len() implies (#[trigger] entries[i]).key_lt(
        #[trigger] entries[j],
    ) by {
        lemma_completed_rise(entries, i, j);
    }
}

proof fn lemma_completed_rise(entries: Seq<CompletedEntryView>, i: int, j: int)
    requires
        forall|k: int| 0 < k < entries.len() ==> (#[trigger] entries[k - 1]).key_lt(entries[k]),
        0 <= i < j < entries.len(),
    ensures
        entries[i].key_lt(entries[j]),
    decreases j - i,
{
    if i + 1 < j {
        lemma_completed_rise(entries, i, j - 1);
        assert(entries[j - 1].key_lt(entries[j]));
    } else {
        assert(entries[j - 1].key_lt(entries[j]));
    }
}

impl Snapshot {
    #[verifier::type_invariant]
    spec fn inv(self) -> bool {
        self@.wf()
    }

    /// The snapshot of an empty queue.
    pub fn new() -> (snapshot: Snapshot)
        ensures
            snapshot@.pending.len() == 0,
            snapshot@.completed.len() == 0,
    {
        Snapshot { pending: Vec::new(), completed: Vec::new() }
    }

    /// The snapshot that holds `pending` and `completed`. There is one
    /// exactly where both are in the order of their keys and `completed`
    /// holds no pending job.
    pub fn from_entries(pending: Vec<PendingEntry>, completed: Vec<CompletedEntry>) -> (snapshot:
        Option<Snapshot>)
        ensures
            snapshot is Some <==> pending_in_order(views(pending@)) && completed_in_order(
                views(completed@),
            ),
            snapshot matches Some(s) ==> s@ == (SnapshotView {
                pending: views(pending@),
                completed: views(completed@),
            }),
    {
        if check_pending(&pending) && check_completed(&completed) {
            Some(Snapshot { pending, completed })
        } else {
            None
        }
    }

    /// The pending jobs, in the order of their keys.
    pub fn pending(&self) -> (pending: &Vec<PendingEntry>)
        ensures
            views(pending@) == self@.pending,
            self@.wf(),
    {
        proof {
            use_type_invariant(self);
        }
        &self.pending
    }

    /// The jobs that left the queue, in the order of their keys.
    pub fn completed(&self) -> (completed: &Vec<CompletedEntry>)
        ensures
            views(completed@) == self@.completed,
            self@.wf(),
    {
        proof {
            use_type_invariant(self);
        }
        &self.completed
    }
}

/// The queue, as far as this library holds it: the marker that says whether
/// a dump is in flight. Its collections lie in the storage engine, and a dump
/// gets them as a snapshot.
#[derive(Debug, PartialEq, Eq)]
pub struct UpdateStore {
    gate: Gate,
}

impl View for UpdateStore {
    type V = State;

    closed spec fn view(&self) -> State {
        self.gate@
    }
}

impl UpdateStore {
    /// A queue with no dump in flight.
    pub fn new() -> (store: UpdateStore)
        ensures
            store@ == State::Idle,
    {
        UpdateStore { gate: Gate::new() }
    }

    /// Whether a dump is in flight.
    pub fn state(&self) -> (state: State)
        ensures
            state == self@,
    {
        self.gate.state()
    }

    /// Takes the queue's marker for a dump. An idle one is taken; one that
    /// is held stays held and the caller is turned away.
    pub fn acquire_for_dump(&mut self) -> (taken: Result<(), DumpError>)
        ensures
            final(self)@ == State::Dumping,
            taken is Ok <==> old(self)@ == State::Idle,
            taken is Err ==> taken == Err::<(), DumpError>(DumpError::DumpInProgress),
    {
        self.gate.acquire_for_dump()
    }

    /// Gives the queue's marker back, whoever held it.
    pub fn release(&mut self)
        ensures
            final(self)@ == State::Idle,
    {
        self.gate.release();
    }
}

} // verus!
