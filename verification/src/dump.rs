//! Writing a dump: which records of the queue go into the bundle, under
//! which names their content goes with them, and which indexes follow.

use vstd::prelude::*;
use vstd::std_specs::iter::IteratorSpec;
use crate::error::DumpError;
use crate::gate::State;
use crate::paths::{
    bundle_name, check_bare, data_file, data_file_path, file_name, join, joined,
    update_files_dir, update_files_path, updates_dir, updates_path,
};
use crate::plan::{
    DumpPlan, DumpPlanView, FileCopy, FileCopyView, IndexDump, IndexDumpView, Transfer,
    TransferView, UpdatesDump, UpdatesDumpView,
};
use crate::record::{views, Identifier, JobRecord, JobRecordView, JobStatus, JobStatusView};
use crate::store::{
    CompletedEntry, CompletedEntryView, PendingEntry, PendingEntryView, Snapshot, SnapshotView,
    UpdateStore,
};

verus! {

/// Content on its way into a bundle: the name it goes by there, and the copy
/// that brings it.
#[derive(Clone, Debug, PartialEq, Eq)]
pub struct Externalized {
    pub name: String,
    pub copy: FileCopy,
}

/// The name under which the file at `file_path` enters the directory
/// `dump_path`, and the copy that brings it there: the file keeps its final
/// component and loses every directory before it. A path without a final
/// component to go by is turned away.
pub fn dump_update_file(file_path: &str, dump_path: &str) -> (moved: Result<
    Externalized,
    DumpError,
>)
    ensures
        match moved {
            Ok(x) => bundle_name(file_path@) == Some(x.name@) && x.copy@ == (FileCopyView {
                from: file_path@,
                to: joined(dump_path@, x.name@),
            }),
            Err(e) => bundle_name(file_path@) is None && e == DumpError::InvalidUpdateFileName,
        },
{
    match file_name(file_path) {
        Some(name) => {
            if check_bare(name.as_str()) {
                let to = join(dump_path, name.as_str());
                Ok(Externalized { name, copy: FileCopy { from: file_path.to_owned(), to } })
            } else {
                Err(DumpError::InvalidUpdateFileName)
            }
        },
        None => Err(DumpError::InvalidUpdateFileName),
    }
}

/// Whether a dump of the indexes `uuids` takes the jobs of `identifier`. The
/// key of an entry says so, before its value is read.
pub fn is_selected(
    uuids: &std::collections::HashSet<Identifier>,
    identifier: Identifier,
) -> (selected: bool)
    ensures
        selected == uuids@.contains(identifier),
{
    broadcast use vstd::std_specs::hash::group_hash_axioms;

    uuids.contains(&identifier)
}

/// The entries of `pending` that belong to an index of `uuids`, in their
/// order.
pub open spec fn selected_pending(pending: Seq<PendingEntryView>, uuids: Set<Identifier>) -> Seq<
    PendingEntryView,
>
    decreases pending.len(),
{
    if pending.len() == 0 {
        Seq::empty()
    } else if uuids.contains(pending.last().identifier) {
        selected_pending(pending.drop_last(), uuids).push(pending.last())
    } else {
        selected_pending(pending.drop_last(), uuids)
    }
}

/// The entries of `completed` that belong to an index of `uuids`, in their
/// order.
pub open spec fn selected_completed(
    completed: Seq<CompletedEntryView>,
    uuids: Set<Identifier>,
) -> Seq<CompletedEntryView>
    decreases completed.len(),
{
    if completed.len() == 0 {
        Seq::empty()
    } else if uuids.contains(completed.last().identifier) {
        selected_completed(completed.drop_last(), uuids).push(completed.last())
    } else {
        selected_completed(completed.drop_last(), uuids)
    }
}

/// How `entry` goes into a bundle whose content lies in `files_dir`: as it
/// is where it has no content, else with its content under its bundle name
/// and the copy that brings the file there. There is no way where the
/// content's path has no bundle name.
pub open spec fn externalized(entry: PendingEntryView, files_dir: Seq<char>) -> Option<
    TransferView,
> {
    match entry.content {
        None => Some(TransferView { record: entry.record(), copy: None }),
        Some(path) => match bundle_name(path) {
            Some(name) => Some(
                TransferView {
                    record: JobRecordView {
                        identifier: entry.identifier,
                        status: JobStatusView::Pending {
                            job_id: entry.job_id,
                            content: Some(name),
                        },
                    },
                    copy: Some(FileCopyView { from: path, to: joined(files_dir, name) }),
                },
            ),
            None => None,
        },
    }
}

/// Whether every entry of `entries` has a way into the bundle.
pub open spec fn all_externalizable(entries: Seq<PendingEntryView>, files_dir: Seq<char>) -> bool {
    forall|k: int| 0 <= k < entries.len() ==> externalized(#[trigger] entries[k], files_dir) is Some
}

/// The pending pass of a dump: the entries of `pending` that belong to an
/// index of `uuids`, in their order, each as it goes into the bundle whose
/// content lies in `update_files_path`. The pass fails where one of those
/// entries has no way in.
pub fn dump_pending(
    pending: &Vec<PendingEntry>,
    uuids: &std::collections::HashSet<Identifier>,
    update_files_path: &str,
) -> (written: Result<Vec<Transfer>, DumpError>)
    ensures
        written is Ok <==> all_externalizable(
            selected_pending(views(pending@), uuids@),
            update_files_path@,
        ),
        written matches Ok(transfers) ==> {
            let selected = selected_pending(views(pending@), uuids@);
            &&& transfers.len() == selected.len()
            &&& forall|k: int|
                0 <= k < selected.len() ==> Some((#[trigger] transfers[k])@) == externalized(
                    selected[k],
                    update_files_path@,
                )
        },
        written matches Err(e) ==> e == DumpError::InvalidUpdateFileName,
{
    broadcast use vstd::std_specs::hash::group_hash_axioms;

    let ghost entries = views(pending@);
    let ghost dir = update_files_path@;
    let mut transfers: Vec<Transfer> = Vec::new();
    let mut i: usize = 0;
    while i < pending.len()
        invariant
            i <= pending.len(),
            entries == views(pending@),
            dir == update_files_path@,
            all_externalizable(selected_pending(entries.take(i as int), uuids@), dir),
            transfers.len() == selected_pending(entries.take(i as int), uuids@).len(),
            forall|k: int|
                0 <= k < transfers.len() ==> Some((#[trigger] transfers[k])@) == externalized(
                    selected_pending(entries.take(i as int), uuids@)[k],
                    dir,
                ),
        decreases pending.len() - i,
    {
        let entry = &pending[i];
        proof {
            assert(entries.take(i + 1).drop_last() == entries.take(i as int));
            assert(entries.take(i + 1).last() == entry@);
        }
        if is_selected(uuids, entry.identifier) {
            let transfer = match &entry.content {
                None => Transfer {
                    record: JobRecord {
                        identifier: entry.identifier,
                        status: JobStatus::Pending { job_id: entry.job_id, content: None },
                    },
                    copy: None,
                },
                Some(path) => match dump_update_file(path.as_str(), update_files_path) {
                    Ok(moved) => Transfer {
                        record: JobRecord {
                            identifier: entry.identifier,
                            status: JobStatus::Pending {
                                job_id: entry.job_id,
                                content: Some(moved.name),
                            },
                        },
                        copy: Some(moved.copy),
                    },
                    Err(e) => {
                        proof {
                            let upto = selected_pending(entries.take(i + 1), uuids@);
                            assert(upto.last() == entry@);
                            assert(externalized(upto[upto.len() - 1], dir) is None);
                            lemma_selected_pending_prefix(entries, uuids@, i + 1);
                            let all = selected_pending(entries, uuids@);
                            assert(all[upto.len() - 1] == upto[upto.len() - 1]);
                        }
                        return Err(e);
                    },
                },
            };
            assert(Some(transfer@) == externalized(entry@, dir));
            transfers.push(transfer);
        }
        i += 1;
    }
    assert(entries.take(i as int) == entries);
    Ok(transfers)
}

/// What a pass has selected of the first `n` entries stays where it is when
/// the pass goes on.
proof fn lemma_selected_pending_prefix(
    pending: Seq<PendingEntryView>,
    uuids: Set<Identifier>,
    n: int,
)
    requires
        0 <= n <= pending.len(),
    ensures
        selected_pending(pending.take(n), uuids).len() <= selected_pending(pending, uuids).len(),
        forall|k: int|
            0 <= k < selected_pending(pending.take(n), uuids).len() ==> selected_pending(
                pending.take(n),
                uuids,
            )[k] == selected_pending(pending, uuids)[k],
    decreases pending.len() - n,
{
    if n < pending.len() {
        lemma_selected_pending_prefix(pending, uuids, n + 1);
        assert(pending.take(n + 1).drop_last() == pending.take(n));
    } else {
        assert(pending.take(n) == pending);
    }
}

/// The completed pass of a dump: the entries of `completed` that belong to
/// an index of `uuids`, in their order, each as a record.
pub fn dump_completed(
    completed: &Vec<CompletedEntry>,
    uuids: &std::collections::HashSet<Identifier>,
) -> (records: Vec<JobRecord>)
    ensures
        records.len() == selected_completed(views(completed@), uuids@).len(),
        forall|k: int|
            0 <= k < records.len() ==> (#[trigger] records[k])@ == selected_completed(
                views(completed@),
                uuids@,
            )[k].record(),
{
    broadcast use vstd::std_specs::hash::group_hash_axioms;

    let ghost entries = views(completed@);
    let mut records: Vec<JobRecord> = Vec::new();
    let mut i: usize = 0;
    while i < completed.len()
        invariant
            i <= completed.len(),
            entries == views(completed@),
            records.len() == selected_completed(entries.take(i as int), uuids@).len(),
            forall|k: int|
                0 <= k < records.len() ==> (#[trigger] records[k])@ == selected_completed(
                    entries.take(i as int),
                    uuids@,
                )[k].record(),
        decreases completed.len() - i,
    {
        let entry = &completed[i];
        proof {
            assert(entries.take(i + 1).drop_last() == entries.take(i as int));
            assert(entries.take(i + 1).last() == entry@);
        }
        if is_selected(uuids, entry.identifier) {
            let record = JobRecord {
                identifier: entry.identifier,
                status: entry.status.duplicate(),
            };
            records.push(record);
        }
        i += 1;
    }
    assert(entries.take(i as int) == entries);
    records
}

/// Whether `calls` holds one call for each index of `uuids` and no other,
/// each to dump its index under `path`.
pub open spec fn index_calls(calls: Seq<IndexDumpView>, uuids: Set<Identifier>, path: Seq<char>) -> bool {
    &&& calls.len() == uuids.len()
    &&& forall|k: int| 0 <= k < calls.len() ==> (#[trigger] calls[k]).path == path
    &&& forall|k: int| 0 <= k < calls.len() ==> uuids.contains((#[trigger] calls[k]).identifier)
    &&& forall|id: Identifier|
        uuids.contains(id) ==> exists|k: int|
            0 <= k < calls.len() && (#[trigger] calls[k]).identifier == id
    &&& forall|j: int, k: int|
        0 <= j < k < calls.len() ==> (#[trigger] calls[j]).identifier
            != (#[trigger] calls[k]).identifier
}

/// The index pass of a dump: one call of the index actor for each index of
/// `uuids`, each to dump its index under `path`. The calls are made one after
/// the other, in the order of the result; a set has no order of its own, so
/// any order may come.
pub fn dump_indexes(uuids: &std::collections::HashSet<Identifier>, path: &str) -> (calls: Vec<
    IndexDump,
>)
    ensures
        index_calls(views(calls@), uuids@, path@),
{
    broadcast use vstd::std_specs::hash::group_hash_axioms;

    let mut calls: Vec<IndexDump> = Vec::new();
    let ghost order = uuids.iter().remaining();
    for uuid in it: uuids.iter()
        invariant
            it.seq() == order,
            order.unref().to_set() == uuids@,
            order.no_duplicates(),
            order.len() == uuids@.len(),
            calls.len() == it.index(),
            forall|k: int| 0 <= k < calls.len() ==> (#[trigger] calls[k]).path@ == path@,
            forall|k: int|
                0 <= k < calls.len() ==> (#[trigger] calls[k]).identifier == *order[k],
    {
        calls.push(IndexDump { identifier: *uuid, path: path.to_owned() });
    }
    proof {
        let made = views(calls@);
        assert forall|k: int| 0 <= k < made.len() implies uuids@.contains(
            (#[trigger] made[k]).identifier,
        ) by {
            assert(order.unref()[k] == calls[k].identifier);
            assert(order.unref().to_set().contains(order.unref()[k]));
        }
        assert forall|id: Identifier| uuids@.contains(id) implies exists|k: int|
            0 <= k < made.len() && (#[trigger] made[k]).identifier == id by {
            assert(order.unref().to_set().contains(id));
            let k = choose|k: int| 0 <= k < order.unref().len() && order.unref()[k] == id;
            assert(made[k].identifier == id);
        }
        assert forall|j: int, k: int| 0 <= j < k < made.len() implies (#[trigger] made[j]).identifier
            != (#[trigger] made[k]).identifier by {
            assert(order[j] != order[k]);
        }
        assert forall|k: int| 0 <= k < made.len() implies (#[trigger] made[k]).path == path@ by {
            assert(calls[k].path@ == path@);
        }
    }
    calls
}

/// The records of `selected` as they go into the bundle whose content lies
/// in `files_dir`, one for one.
pub open spec fn transfers_of(selected: Seq<PendingEntryView>, files_dir: Seq<char>) -> Seq<
    TransferView,
> {
    Seq::new(selected.len(), |k: int| externalized(selected[k], files_dir)->0)
}

/// The entries of `selected` as records, one for one.
pub open spec fn records_of(selected: Seq<CompletedEntryView>) -> Seq<JobRecordView> {
    Seq::new(selected.len(), |k: int| selected[k].record())
}

/// The queue's part of the dump of the indexes `uuids` into the directory
/// `updates`: the pending entries of those indexes in the order of their
/// keys, each as it goes into the bundle, then the completed entries of those
/// indexes in the order of theirs. There is none where a pending entry among
/// them has no way into the bundle.
pub open spec fn updates_dump(
    store: SnapshotView,
    uuids: Set<Identifier>,
    updates: Seq<char>,
) -> Option<UpdatesDumpView> {
    let files = update_files_dir(updates);
    let pending = selected_pending(store.pending, uuids);
    if all_externalizable(pending, files) {
        Some(
            UpdatesDumpView {
                data_file: data_file(updates),
                update_files_dir: files,
                pending: transfers_of(pending, files),
                completed: records_of(selected_completed(store.completed, uuids)),
            },
        )
    } else {
        None
    }
}

/// Whether `plan` is the dump of the indexes `uuids` of `snapshot` into the
/// bundle at `path`: the queue's part in the directory of that name, and one
/// call of the index actor for each of the indexes.
pub open spec fn is_dump_of(
    plan: DumpPlanView,
    snapshot: SnapshotView,
    uuids: Set<Identifier>,
    path: Seq<char>,
) -> bool {
    &&& plan.updates_dir == updates_dir(path)
    &&& updates_dump(snapshot, uuids, updates_dir(path)) == Some(plan.updates)
    &&& index_calls(plan.indexes, uuids, path)
}

/// Whether a dump that gets `snapshot` when it reads the queue ends in
/// `plan`: it fails where the queue cannot be read or a pending entry has no
/// way into the bundle, and else says all that is to do.
pub open spec fn is_dump_outcome(
    plan: Result<DumpPlan, DumpError>,
    snapshot: Option<Snapshot>,
    uuids: Set<Identifier>,
    path: Seq<char>,
) -> bool {
    match snapshot {
        None => plan == Err::<DumpPlan, DumpError>(DumpError::SnapshotFailed),
        Some(snapshot) => match updates_dump(snapshot@, uuids, updates_dir(path)) {
            None => plan == Err::<DumpPlan, DumpError>(DumpError::InvalidUpdateFileName),
            Some(_) => plan matches Ok(p) && is_dump_of(p@, snapshot@, uuids, path),
        },
    }
}

impl Snapshot {
    /// The queue's part of a dump of the indexes `uuids` into the directory
    /// `path`.
    pub fn dump_updates(
        &self,
        uuids: &std::collections::HashSet<Identifier>,
        path: &str,
    ) -> (dumped: Result<UpdatesDump, DumpError>)
        ensures
            match dumped {
                Ok(updates) => updates_dump(self@, uuids@, path@) == Some(updates@),
                Err(e) => updates_dump(self@, uuids@, path@) is None && e
                    == DumpError::InvalidUpdateFileName,
            },
    {
        let data_file = data_file_path(path);
        let update_files_dir = update_files_path(path);
        let pending = dump_pending(self.pending(), uuids, update_files_dir.as_str())?;
        let completed = dump_completed(self.completed(), uuids);
        let updates = UpdatesDump { data_file, update_files_dir, pending, completed };
        proof {
            let expected = updates_dump(self@, uuids@, path@)->0;
            assert(updates@.pending =~= expected.pending);
            assert(updates@.completed =~= expected.completed);
        }
        Ok(updates)
    }

    /// All that the dump of the indexes `uuids` into the bundle at `path` is
    /// to do. There is no way to do it where a pending entry of those indexes
    /// has no way into the bundle.
    pub fn plan_dump(&self, uuids: &std::collections::HashSet<Identifier>, path: &str) -> (plan:
        Result<DumpPlan, DumpError>)
        ensures
            is_dump_outcome(plan, Some(*self), uuids@, path@),
    {
        let updates_dir = updates_path(path);
        let updates = self.dump_updates(uuids, updates_dir.as_str())?;
        let indexes = dump_indexes(uuids, path);
        Ok(DumpPlan { updates_dir, updates, indexes })
    }
}

impl UpdateStore {
    /// Starts a dump of the indexes `uuids` into the bundle at `path`, and
    /// says all that the dump is to do.
    ///
    /// The marker is asked for first. Where a dump already holds it, this
    /// one is turned away, the queue is not read and nothing changes. Only
    /// with the marker taken is the queue read, by a call of `read`, which
    /// opens the transaction and gives the snapshot, or nothing where it
    /// cannot. The marker then stays taken while the caller carries the dump
    /// out, until `finish_dump` gives it back; where the dump cannot be laid
    /// out, it is given back at once.
    pub fn dump<F: FnOnce() -> Option<Snapshot>>(
        &mut self,
        uuids: &std::collections::HashSet<Identifier>,
        path: &str,
        read: F,
    ) -> (plan: Result<DumpPlan, DumpError>)
        requires
            read.requires(()),
        ensures
            old(self)@ == State::Dumping ==> final(self)@ == State::Dumping && plan == Err::<
                DumpPlan,
                DumpError,
            >(DumpError::DumpInProgress),
            old(self)@ == State::Idle ==> exists|snapshot: Option<Snapshot>|
                read.ensures((), snapshot) && #[trigger] is_dump_outcome(
                    plan,
                    snapshot,
                    uuids@,
                    path@,
                ),
            old(self)@ == State::Idle ==> final(self)@ == if plan is Ok {
                State::Dumping
            } else {
                State::Idle
            },
    {
        match self.acquire_for_dump() {
            Err(e) => {
                return Err(e);
            },
            Ok(()) => {},
        }
        let snapshot = read();
        let plan = match &snapshot {
            Some(queue) => queue.plan_dump(uuids, path),
            None => Err(DumpError::SnapshotFailed),
        };
        if plan.is_err() {
            self.release();
        }
        assert(is_dump_outcome(plan, snapshot, uuids@, path@));
        plan
    }
}

} // verus!
