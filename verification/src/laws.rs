//! What holds of every dump and every load.

use vstd::prelude::*;
use crate::dump::{
    all_externalizable, externalized, selected_completed, selected_pending, updates_dump,
};
use crate::load::{load_plan, replayed};
use crate::paths::{bundle_name, joined, update_files_dir, updates_dir};
use crate::plan::{FileCopyView, UpdatesDumpView};
use crate::record::{Identifier, JobRecordView};
use crate::store::{CompletedEntryView, PendingEntryView, SnapshotView};

verus! {

/// The places in `pending` of the entries that belong to an index of
/// `uuids`, in rising order.
pub open spec fn pending_places(pending: Seq<PendingEntryView>, uuids: Set<Identifier>) -> Seq<int>
    decreases pending.len(),
{
    if pending.len() == 0 {
        Seq::empty()
    } else if uuids.contains(pending.last().identifier) {
        pending_places(pending.drop_last(), uuids).push(pending.len() - 1)
    } else {
        pending_places(pending.drop_last(), uuids)
    }
}

/// The places in `completed` of the entries that belong to an index of
/// `uuids`, in rising order.
pub open spec fn completed_places(
    completed: Seq<CompletedEntryView>,
    uuids: Set<Identifier>,
) -> Seq<int>
    decreases completed.len(),
{
    if completed.len() == 0 {
        Seq::empty()
    } else if uuids.contains(completed.last().identifier) {
        completed_places(completed.drop_last(), uuids).push(completed.len() - 1)
    } else {
        completed_places(completed.drop_last(), uuids)
    }
}

/// The pending entries that a dump selects are those of the indexes asked
/// for, all of them, each once, in the order in which the queue holds them.
pub proof fn lemma_selected_pending(pending: Seq<PendingEntryView>, uuids: Set<Identifier>)
    ensures
        pending_places(pending, uuids).len() == selected_pending(pending, uuids).len(),
        forall|k: int|
            #![trigger pending_places(pending, uuids)[k]]
            #![trigger selected_pending(pending, uuids)[k]]
            0 <= k < selected_pending(pending, uuids).len() ==> {
                let place = pending_places(pending, uuids)[k];
                &&& 0 <= place < pending.len()
                &&& selected_pending(pending, uuids)[k] == pending[place]
                &&& uuids.contains(pending[place].identifier)
            },
        forall|j: int, k: int|
            0 <= j < k < selected_pending(pending, uuids).len() ==> pending_places(
                pending,
                uuids,
            )[j] < pending_places(pending, uuids)[k],
        forall|place: int|
            0 <= place < pending.len() && uuids.contains((#[trigger] pending[place]).identifier)
                ==> pending_places(pending, uuids).contains(place),
    decreases pending.len(),
{
    if pending.len() > 0 {
        let before = pending.drop_last();
        lemma_selected_pending(before, uuids);
        let places = pending_places(pending, uuids);
        assert forall|place: int|
            0 <= place < pending.len() && uuids.contains(
                (#[trigger] pending[place]).identifier,
            ) implies places.contains(place) by {
            if place < before.len() {
                assert(before[place] == pending[place]);
                let k = choose|k: int|
                    0 <= k < pending_places(before, uuids).len() && pending_places(
                        before,
                        uuids,
                    )[k] == place;
                assert(places[k] == place);
            } else {
                assert(places[places.len() - 1] == place);
            }
        }
    }
}

/// The completed entries that a dump selects are those of the indexes asked
/// for, all of them, each once, in the order in which the queue holds them.
pub proof fn lemma_selected_completed(completed: Seq<CompletedEntryView>, uuids: Set<Identifier>)
    ensures
        completed_places(completed, uuids).len() == selected_completed(completed, uuids).len(),
        forall|k: int|
            #![trigger completed_places(completed, uuids)[k]]
            #![trigger selected_completed(completed, uuids)[k]]
            0 <= k < selected_completed(completed, uuids).len() ==> {
                let place = completed_places(completed, uuids)[k];
                &&& 0 <= place < completed.len()
                &&& selected_completed(completed, uuids)[k] == completed[place]
                &&& uuids.contains(completed[place].identifier)
            },
        forall|j: int, k: int|
            0 <= j < k < selected_completed(completed, uuids).len() ==> completed_places(
                completed,
                uuids,
            )[j] < completed_places(completed, uuids)[k],
        forall|place: int|
            0 <= place < completed.len() && uuids.contains(
                (#[trigger] completed[place]).identifier,
            ) ==> completed_places(completed, uuids).contains(place),
    decreases completed.len(),
{
    if completed.len() > 0 {
        let before = completed.drop_last();
        lemma_selected_completed(before, uuids);
        let places = completed_places(completed, uuids);
        assert forall|place: int|
            0 <= place < completed.len() && uuids.contains(
                (#[trigger] completed[place]).identifier,
            ) implies places.contains(place) by {
            if place < before.len() {
                assert(before[place] == completed[place]);
                let k = choose|k: int|
                    0 <= k < completed_places(before, uuids).len() && completed_places(
                        before,
                        uuids,
                    )[k] == place;
                assert(places[k] == place);
            } else {
                assert(places[places.len() - 1] == place);
            }
        }
    }
}

/// The records of the data file of `dump`, in the order of their lines: the
/// pending ones, then the completed ones.
pub open spec fn dumped_records(dump: UpdatesDumpView) -> Seq<JobRecordView> {
    Seq::new(
        dump.pending.len() + dump.completed.len(),
        |k: int|
            if k < dump.pending.len() {
                dump.pending[k].record
            } else {
                dump.completed[k - dump.pending.len()]
            },
    )
}

/// Filtering. Every record that a dump writes, and every file that it
/// copies, is that of a job of the queue whose index was asked for.
pub proof fn lemma_dump_holds_only_selected(
    store: SnapshotView,
    uuids: Set<Identifier>,
    updates: Seq<char>,
    k: int,
)
    requires
        updates_dump(store, uuids, updates) is Some,
        0 <= k < dumped_records(updates_dump(store, uuids, updates)->0).len(),
    ensures
        uuids.contains(dumped_records(updates_dump(store, uuids, updates)->0)[k].identifier),
        ({
            let dump = updates_dump(store, uuids, updates)->0;
            if k < dump.pending.len() {
                exists|place: int|
                    0 <= place < store.pending.len() && uuids.contains(
                        store.pending[place].identifier,
                    ) && Some(dump.pending[k]) == externalized(
                        #[trigger] store.pending[place],
                        dump.update_files_dir,
                    )
            } else {
                exists|place: int|
                    0 <= place < store.completed.len() && dumped_records(dump)[k] == (
                    #[trigger] store.completed[place]).record()
            }
        }),
{
    let dump = updates_dump(store, uuids, updates)->0;
    lemma_selected_pending(store.pending, uuids);
    lemma_selected_completed(store.completed, uuids);
    if k < dump.pending.len() {
        let place = pending_places(store.pending, uuids)[k];
        assert(selected_pending(store.pending, uuids)[k] == store.pending[place]);
        assert(Some(dump.pending[k]) == externalized(store.pending[place], dump.update_files_dir));
    } else {
        let c = k - dump.pending.len();
        let place = completed_places(store.completed, uuids)[c];
        assert(selected_completed(store.completed, uuids)[c] == store.completed[place]);
        assert(dumped_records(dump)[k] == store.completed[place].record());
    }
}

/// Filtering. A job whose index was not asked for has no part in a dump: the
/// dump of a queue is the dump of the same queue without that job.
pub proof fn lemma_dump_ignores_others(
    store: SnapshotView,
    uuids: Set<Identifier>,
    updates: Seq<char>,
    place: int,
)
    requires
        0 <= place < store.pending.len(),
        !uuids.contains(store.pending[place].identifier),
    ensures
        updates_dump(store, uuids, updates) == updates_dump(
            SnapshotView { pending: store.pending.remove(place), ..store },
            uuids,
            updates,
        ),
{
    lemma_selected_pending_remove(store.pending, uuids, place);
}

/// Filtering. A completed job whose index was not asked for has no part in
/// a dump either.
pub proof fn lemma_dump_ignores_other_completed(
    store: SnapshotView,
    uuids: Set<Identifier>,
    updates: Seq<char>,
    place: int,
)
    requires
        0 <= place < store.completed.len(),
        !uuids.contains(store.completed[place].identifier),
    ensures
        updates_dump(store, uuids, updates) == updates_dump(
            SnapshotView { completed: store.completed.remove(place), ..store },
            uuids,
            updates,
        ),
{
    lemma_selected_completed_remove(store.completed, uuids, place);
}

proof fn lemma_selected_pending_remove(
    pending: Seq<PendingEntryView>,
    uuids: Set<Identifier>,
    place: int,
)
    requires
        0 <= place < pending.len(),
        !uuids.contains(pending[place].identifier),
    ensures
        selected_pending(pending.remove(place), uuids) == selected_pending(pending, uuids),
    decreases pending.len(),
{
    if place == pending.len() - 1 {
        assert(pending.remove(place) == pending.drop_last());
    } else {
        let shorter = pending.remove(place);
        assert(shorter.drop_last() == pending.drop_last().remove(place));
        assert(shorter.last() == pending.last());
        lemma_selected_pending_remove(pending.drop_last(), uuids, place);
    }
}

proof fn lemma_selected_completed_remove(
    completed: Seq<CompletedEntryView>,
    uuids: Set<Identifier>,
    place: int,
)
    requires
        0 <= place < completed.len(),
        !uuids.contains(completed[place].identifier),
    ensures
        selected_completed(completed.remove(place), uuids) == selected_completed(completed, uuids),
    decreases completed.len(),
{
    if place == completed.len() - 1 {
        assert(completed.remove(place) == completed.drop_last());
    } else {
        let shorter = completed.remove(place);
        assert(shorter.drop_last() == completed.drop_last().remove(place));
        assert(shorter.last() == completed.last());
        lemma_selected_completed_remove(completed.drop_last(), uuids, place);
    }
}

/// Ordering. The pending records of a dump stand in the data file in the
/// order of their keys in the queue: of two of them, the one that is written
/// first has the smaller key.
pub proof fn lemma_pending_order_preserved(
    store: SnapshotView,
    uuids: Set<Identifier>,
    updates: Seq<char>,
    j: int,
    k: int,
)
    requires
        store.wf(),
        updates_dump(store, uuids, updates) is Some,
        0 <= j < k < updates_dump(store, uuids, updates)->0.pending.len(),
    ensures
        ({
            let dump = updates_dump(store, uuids, updates)->0;
            let selected = selected_pending(store.pending, uuids);
            &&& Some(dump.pending[j]) == externalized(selected[j], dump.update_files_dir)
            &&& Some(dump.pending[k]) == externalized(selected[k], dump.update_files_dir)
            &&& selected[j].key_lt(selected[k])
            &&& dumped_records(dump)[j] == dump.pending[j].record
            &&& dumped_records(dump)[k] == dump.pending[k].record
        }),
{
    lemma_selected_pending(store.pending, uuids);
    let places = pending_places(store.pending, uuids);
    let selected = selected_pending(store.pending, uuids);
    assert(selected[j] == store.pending[places[j]]);
    assert(selected[k] == store.pending[places[k]]);
    assert(places[j] < places[k]);
}

/// Ordering. A load puts the records into the new queue in the order of
/// their lines, each under the identifier and the job number that it has.
pub proof fn lemma_load_order_preserved(
    src: Seq<char>,
    dst: Seq<char>,
    db_size: u64,
    records: Seq<JobRecordView>,
    k: int,
)
    requires
        0 <= k < records.len(),
    ensures
        load_plan(src, dst, db_size, records).entries.len() == records.len(),
        same_job(load_plan(src, dst, db_size, records).entries[k].record, records[k]),
{
}

/// Whether `a` and `b` are the same job in the same state: they differ at
/// most in where their content lies.
pub open spec fn same_job(a: JobRecordView, b: JobRecordView) -> bool {
    &&& a.identifier == b.identifier
    &&& a.status.with_content(None) == b.status.with_content(None)
    &&& a.status.content() is Some <==> b.status.content() is Some
}

/// Round trip. What a dump of the indexes `uuids` writes into the bundle at
/// `root`, a load of that bundle puts into the new queue at `dst`: the jobs
/// of those indexes, all of them and no other, the pending ones in the order
/// of their keys and then the completed ones in the order of theirs, each in
/// the state that it has in the queue. The content of a pending job is
/// copied from where it lies to the bundle, under its bare name, and from
/// there to the new queue, and the new record says where it lies there.
pub proof fn lemma_round_trip(
    store: SnapshotView,
    uuids: Set<Identifier>,
    root: Seq<char>,
    dst: Seq<char>,
    db_size: u64,
)
    requires
        store.wf(),
        updates_dump(store, uuids, updates_dir(root)) is Some,
    ensures
        ({
            let dump = updates_dump(store, uuids, updates_dir(root))->0;
            let load = load_plan(root, dst, db_size, dumped_records(dump));
            let pending = selected_pending(store.pending, uuids);
            let completed = selected_completed(store.completed, uuids);
            let bundle_files = update_files_dir(updates_dir(root));
            let new_files = update_files_dir(updates_dir(dst));
            &&& load.entries.len() == pending.len() + completed.len()
            &&& forall|k: int|
                0 <= k < pending.len() ==> same_job(
                    (#[trigger] load.entries[k]).record,
                    pending[k].record(),
                )
            &&& forall|k: int|
                0 <= k < pending.len() && pending[k].content is None ==> dump.pending[k].copy
                    is None && (#[trigger] load.entries[k]).copy is None
            &&& forall|k: int|
                0 <= k < pending.len() && pending[k].content is Some ==> {
                    let path = pending[k].content->0;
                    let name = bundle_name(path)->0;
                    &&& bundle_name(path) is Some
                    &&& dump.pending[k].copy == Some(
                        FileCopyView { from: path, to: joined(bundle_files, name) },
                    )
                    &&& (#[trigger] load.entries[k]).copy == Some(
                        FileCopyView {
                            from: joined(bundle_files, name),
                            to: joined(new_files, name),
                        },
                    )
                    &&& load.entries[k].record.status.content() == Some(joined(new_files, name))
                }
            &&& forall|k: int|
                0 <= k < completed.len() ==> (#[trigger] load.entries[pending.len() + k]).record
                    == completed[k].record() && load.entries[pending.len() + k].copy is None
        }),
{
    let dump = updates_dump(store, uuids, updates_dir(root))->0;
    let records = dumped_records(dump);
    let load = load_plan(root, dst, db_size, records);
    let pending = selected_pending(store.pending, uuids);
    let completed = selected_completed(store.completed, uuids);
    let bundle_files = update_files_dir(updates_dir(root));
    let new_files = update_files_dir(updates_dir(dst));
    lemma_selected_completed(store.completed, uuids);
    assert forall|k: int| 0 <= k < pending.len() implies same_job(
        (#[trigger] load.entries[k]).record,
        pending[k].record(),
    ) by {
        assert(externalized(pending[k], bundle_files) is Some);
        assert(records[k] == dump.pending[k].record);
        assert(load.entries[k] == replayed(records[k], bundle_files, new_files));
    }
    assert forall|k: int|
        0 <= k < pending.len() && pending[k].content is None implies dump.pending[k].copy is None
        && (#[trigger] load.entries[k]).copy is None by {
        assert(externalized(pending[k], bundle_files) is Some);
        assert(records[k] == dump.pending[k].record);
        assert(load.entries[k] == replayed(records[k], bundle_files, new_files));
    }
    assert forall|k: int| 0 <= k < pending.len() && pending[k].content is Some implies ({
        let path = pending[k].content->0;
        let name = bundle_name(path)->0;
        &&& bundle_name(path) is Some
        &&& dump.pending[k].copy == Some(
            FileCopyView { from: path, to: joined(bundle_files, name) },
        )
        &&& (#[trigger] load.entries[k]).copy == Some(
            FileCopyView { from: joined(bundle_files, name), to: joined(new_files, name) },
        )
        &&& load.entries[k].record.status.content() == Some(joined(new_files, name))
    }) by {
        assert(externalized(pending[k], bundle_files) is Some);
        assert(records[k] == dump.pending[k].record);
        assert(load.entries[k] == replayed(records[k], bundle_files, new_files));
    }
    assert forall|k: int| 0 <= k < completed.len() implies (#[trigger] load.entries[pending.len()
        + k]).record == completed[k].record() && load.entries[pending.len() + k].copy is None by {
        let place = completed_places(store.completed, uuids)[k];
        assert(completed[k] == store.completed[place]);
        assert(!(store.completed[place].status is Pending));
        assert(records[pending.len() + k] == dump.completed[k]);
        assert(load.entries[pending.len() + k] == replayed(
            records[pending.len() + k],
            bundle_files,
            new_files,
        ));
    }
}

} // verus!
