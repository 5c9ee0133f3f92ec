//! What holds of the cache manager as a whole, whatever the order of its operations.

use crate::config::CacheConfig;
use crate::error::{CacheError, OsFailure};
use crate::manager::FileCacheMgr;
use crate::metrics::MetricsView;
use crate::model::{
    idle_ids, is_history, is_idle, is_used, last_count, lemma_collected, lemma_collects,
    lemma_idle_ids, lemma_reclaim_all, seen_idle, seen_used, spared, MgrView, Operation,
    Registered,
};
use crate::setup::{RuntimeStage, WorkDirProgress, WorkDirStage, WorkerStage};
use crate::table::{counted, counted_ids, counts_users_of};
use crate::work_dir::{work_dir_verdict, WorkDirEvent, WorkDirVerdict};
use std::sync::Arc;
use tokio::runtime::Runtime;
use vstd::prelude::*;

verus! {

/// The entry that is handed out for a blob is the one that a lookup finds from then on.
pub proof fn law_handed_out_entry_is_found<B, P, W, E>(
    mgr: MgrView<B, P, W, Arc<Registered<E>>>,
    id: Seq<char>,
    entry: E,
)
    ensures
        mgr.enroll(id, entry).lookup(id) == Some(mgr.enrolled(id, entry)),
{
}

/// Of two entries that are created for one blob, the first to arrive is handed out both times, and
/// the second changes nothing.
pub proof fn law_first_entry_wins<B, P, W, E>(
    mgr: MgrView<B, P, W, Arc<Registered<E>>>,
    id: Seq<char>,
    first: E,
    second: E,
)
    ensures
        mgr.enroll(id, first).enrolled(id, second) == mgr.enrolled(id, first),
        mgr.enroll(id, first).enroll(id, second) == mgr.enroll(id, first),
{
}

/// However many creations race for a blob that has no entry, all that succeed are handed the same
/// entry, the first to arrive. The blob is the only one that is added, and none is added where all
/// creations fail.
pub proof fn law_racing_creations_share_one_entry<B, P, W, E>(
    mgr: MgrView<B, P, W, Arc<Registered<E>>>,
    id: Seq<char>,
    created: Seq<Result<E, std::io::Error>>,
)
    requires
        !mgr.blobs.contains_key(id),
    ensures
        (forall|k: int| 0 <= k < created.len() ==> #[trigger] created[k] is Err)
            ==> mgr.settle_all(id, created) == mgr,
        forall|k: int|
            0 <= k < created.len() && #[trigger] created[k] is Ok ==> {
                let after = mgr.settle_all(id, created);
                &&& after.blobs.dom() == mgr.blobs.dom().insert(id)
                &&& after == mgr.enroll(id, after.blobs[id].entry)
                &&& mgr.settle_all(id, created.take(k)).settled(id, created[k]) == Ok::<
                    Arc<Registered<E>>,
                    std::io::Error,
                >(after.blobs[id])
            },
        mgr.settle_all(id, created).blobs.contains_key(id) ==> exists|first: int|
            {
                &&& 0 <= first < created.len()
                &&& #[trigger] created[first] is Ok
                &&& forall|j: int| 0 <= j < first ==> #[trigger] created[j] is Err
                &&& mgr.settle_all(id, created).blobs[id] == mgr.fresh(created[first]->Ok_0)
            },
    decreases created.len(),
{
    let after = mgr.settle_all(id, created);
    if created.len() > 0 {
        let last = created.len() - 1;
        let shorter = created.drop_last();
        let before = mgr.settle_all(id, shorter);
        law_racing_creations_share_one_entry(mgr, id, shorter);
        assert(created.take(last) =~= shorter);
        if forall|k: int| 0 <= k < shorter.len() ==> #[trigger] shorter[k] is Err {
            assert(before == mgr);
            if created[last] is Ok {
                assert(after.blobs.dom() =~= mgr.blobs.dom().insert(id));
                assert forall|j: int| 0 <= j < last implies #[trigger] created[j] is Err by {
                    assert(shorter[j] == created[j]);
                }
            }
        } else {
            let k = choose|k: int| 0 <= k < shorter.len() && !(#[trigger] shorter[k] is Err);
            assert(shorter[k] is Ok);
            assert(before.blobs.contains_key(id));
            assert(after == before);
            let first = choose|first: int|
                {
                    &&& 0 <= first < shorter.len()
                    &&& #[trigger] shorter[first] is Ok
                    &&& forall|j: int| 0 <= j < first ==> #[trigger] shorter[j] is Err
                    &&& before.blobs[id] == mgr.fresh(shorter[first]->Ok_0)
                };
            assert(created[first] == shorter[first]);
            assert forall|j: int| 0 <= j < first implies #[trigger] created[j] is Err by {
                assert(shorter[j] == created[j]);
            }
            assert(created[k] is Ok);
        }
        assert forall|k: int| 0 <= k < created.len() && #[trigger] created[k] is Ok implies {
            &&& after.blobs.dom() == mgr.blobs.dom().insert(id)
            &&& after == mgr.enroll(id, after.blobs[id].entry)
            &&& mgr.settle_all(id, created.take(k)).settled(id, created[k]) == Ok::<
                Arc<Registered<E>>,
                std::io::Error,
            >(after.blobs[id])
        } by {
            if k < last {
                assert(shorter[k] == created[k]);
                assert(created.take(k) =~= shorter.take(k));
            }
        }
        if forall|k: int| 0 <= k < created.len() ==> #[trigger] created[k] is Err {
            assert forall|k: int| 0 <= k < shorter.len() implies #[trigger] shorter[k] is Err by {
                assert(shorter[k] == created[k]);
            }
            assert(created[last] is Err);
        }
    }
}

/// Entries that are created for different blobs may arrive in either order: the managers differ in
/// stamps at most, and each blob is handed an entry that holds the same.
pub proof fn law_creations_commute<B, P, W, E>(
    mgr: MgrView<B, P, W, Arc<Registered<E>>>,
    id: Seq<char>,
    entry: E,
    other_id: Seq<char>,
    other_entry: E,
)
    requires
        id != other_id,
    ensures
        mgr.enroll(id, entry).enroll(other_id, other_entry).alike(
            mgr.enroll(other_id, other_entry).enroll(id, entry),
        ),
        mgr.enroll(other_id, other_entry).enrolled(id, entry).entry == mgr.enrolled(
            id,
            entry,
        ).entry,
{
    let one = mgr.enroll(id, entry).enroll(other_id, other_entry);
    let two = mgr.enroll(other_id, other_entry).enroll(id, entry);
    assert(one.blobs.dom() =~= two.blobs.dom());
    assert(one.metrics.underlying_files =~= two.metrics.underlying_files);
}

/// An operation on one blob leaves the entries of all others as they are.
pub proof fn law_other_blobs_untouched<B, P, W, E>(
    mgr: MgrView<B, P, W, Arc<Registered<E>>>,
    id: Seq<char>,
    entry: E,
    users: Option<usize>,
    other: Seq<char>,
)
    requires
        other != id,
    ensures
        mgr.enroll(id, entry).lookup(other) == mgr.lookup(other),
        mgr.reclaim(id, users).lookup(other) == mgr.lookup(other),
{
}

/// The metrics know every blob that has an entry, after any operation, and never forget one. Nor is
/// a stamp ever given twice.
pub proof fn law_metrics_know_cached_blobs<B, P, W, E>(
    mgr: MgrView<B, P, W, Arc<Registered<E>>>,
    id: Seq<char>,
    entry: E,
    users: Option<usize>,
    ids: Seq<Seq<char>>,
    all_users: Seq<Option<usize>>,
)
    requires
        mgr.inv(),
        all_users.len() == ids.len(),
    ensures
        mgr.enroll(id, entry).inv(),
        mgr.reclaim(id, users).inv(),
        mgr.reclaim_all(ids, all_users).inv(),
        mgr.metrics.underlying_files.subset_of(mgr.enroll(id, entry).metrics.underlying_files),
        mgr.reclaim(id, users).metrics == mgr.metrics,
        mgr.reclaim_all(ids, all_users).metrics == mgr.metrics,
{
    lemma_reclaim_all(mgr, ids, all_users);
}

/// A blob whose entry was dropped gets the next entry that is created for it.
pub proof fn law_dropped_blob_is_created_anew<B, P, W, E>(
    mgr: MgrView<B, P, W, Arc<Registered<E>>>,
    id: Seq<char>,
    users: Option<usize>,
    entry: E,
)
    requires
        !is_used(users),
    ensures
        mgr.reclaim(id, users).lookup(id) is None,
        mgr.reclaim(id, users).enrolled(id, entry) == mgr.fresh(entry),
{
}

/// A collection keeps the entry of a blob that somebody used when it was first counted, whatever
/// the second counts are.
pub proof fn law_gc_keeps_used_entry<B, P, W, E>(
    mgr: MgrView<B, P, W, Arc<Registered<E>>>,
    counts: Seq<(Seq<char>, usize)>,
    users: Seq<Option<usize>>,
    i: int,
)
    requires
        counts_users_of(counts, mgr.blobs.dom()),
        users.len() == idle_ids(counts).len(),
        0 <= i < counts.len(),
        counts[i].1 > 1,
    ensures
        mgr.reclaim_all(idle_ids(counts), users).lookup(counts[i].0) == mgr.lookup(counts[i].0),
{
    let ids = idle_ids(counts);
    let id = counts[i].0;
    lemma_idle_ids(counts);
    lemma_reclaim_all(mgr, ids, users);
    assert(!ids.contains(id)) by {
        if ids.contains(id) {
            let j = choose|j: int|
                0 <= j < counts.len() && (#[trigger] counts[j]).0 == id && is_idle(counts[j].1);
            assert(counted_ids(counts)[i] == counted_ids(counts)[j]);
        }
    }
    assert(spared(ids, users, id)) by {
        assert forall|j: int| 0 <= j < ids.len() && #[trigger] ids[j] == id implies is_used(
            users[j],
        ) by {
            assert(ids.contains(id));
        }
    }
}

/// A collection keeps the entry of an idle blob exactly where somebody had taken it up by the time
/// it was counted again.
pub proof fn law_gc_drops_idle_entry<B, P, W, E>(
    mgr: MgrView<B, P, W, Arc<Registered<E>>>,
    counts: Seq<(Seq<char>, usize)>,
    users: Seq<Option<usize>>,
    j: int,
)
    requires
        counts_users_of(counts, mgr.blobs.dom()),
        users.len() == idle_ids(counts).len(),
        0 <= j < users.len(),
    ensures
        mgr.reclaim_all(idle_ids(counts), users).lookup(idle_ids(counts)[j]) == (if is_used(
            users[j],
        ) {
            mgr.lookup(idle_ids(counts)[j])
        } else {
            None
        }),
{
    let ids = idle_ids(counts);
    lemma_idle_ids(counts);
    lemma_reclaim_all(mgr, ids, users);
    assert(spared(ids, users, ids[j]) <==> is_used(users[j]));
}

/// A collection drops entries and does nothing else: what a blob's lookup finds afterwards is what
/// it found before, or nothing.
pub proof fn law_gc_only_drops<B, P, W, E>(
    mgr: MgrView<B, P, W, Arc<Registered<E>>>,
    counts: Seq<(Seq<char>, usize)>,
    users: Seq<Option<usize>>,
    id: Seq<char>,
)
    requires
        users.len() == idle_ids(counts).len(),
    ensures
        mgr.reclaim_all(idle_ids(counts), users).lookup(id) is None || mgr.reclaim_all(
            idle_ids(counts),
            users,
        ).lookup(id) == mgr.lookup(id),
        mgr.reclaim_all(idle_ids(counts), users) == (MgrView {
            blobs: mgr.reclaim_all(idle_ids(counts), users).blobs,
            ..mgr
        }),
{
    lemma_reclaim_all(mgr, idle_ids(counts), users);
}

/// A collection keeps an entry that is in use: one that no count finds idle is found by a lookup
/// as before.
pub proof fn law_held_entry_survives_gc<B, P, W, E>(
    mgr: MgrView<B, P, W, Arc<Registered<E>>>,
    after: MgrView<B, P, W, Arc<Registered<E>>>,
    id: Seq<char>,
)
    requires
        mgr.collected(after),
        mgr.blobs.contains_key(id),
        !seen_idle(mgr.blobs[id]),
    ensures
        after.lookup(id) == mgr.lookup(id),
{
    lemma_collected(mgr, after);
}

/// A collection drops an entry that nobody uses: one that no count finds in use is gone, and the
/// next request for the blob creates a new one.
pub proof fn law_abandoned_entry_is_dropped_by_gc<B, P, W, E>(
    mgr: MgrView<B, P, W, Arc<Registered<E>>>,
    after: MgrView<B, P, W, Arc<Registered<E>>>,
    id: Seq<char>,
    entry: E,
)
    requires
        mgr.collected(after),
        mgr.blobs.contains_key(id),
        !seen_used(mgr.blobs[id]),
    ensures
        after.lookup(id) is None,
        after.enrolled(id, entry) == after.fresh(entry),
{
    lemma_collected(mgr, after);
    if after.blobs.contains_key(id) {
        assert(seen_used(after.blobs[id]));
        assert(after.blobs[id] == mgr.blobs[id]);
    }
}

/// A collection keeps an entry exactly where the last count that it took of it found it in use.
pub proof fn law_last_count_decides<B, P, W, E>(
    mgr: MgrView<B, P, W, Arc<Registered<E>>>,
    counts: Seq<(Seq<char>, usize)>,
    users: Seq<Option<usize>>,
    after: MgrView<B, P, W, Arc<Registered<E>>>,
    id: Seq<char>,
)
    requires
        mgr.collects(counts, users, after),
        mgr.blobs.contains_key(id),
    ensures
        after.lookup(id) == (if is_used(Some(last_count(counts, users, id))) {
            mgr.lookup(id)
        } else {
            None
        }),
{
    lemma_collects(mgr, counts, users, after, id);
}

/// A collection that follows another and counts each entry as the other counted it last drops
/// nothing.
pub proof fn law_second_gc_drops_nothing<B, P, W, E>(
    mgr: MgrView<B, P, W, Arc<Registered<E>>>,
    counts: Seq<(Seq<char>, usize)>,
    users: Seq<Option<usize>>,
    between: MgrView<B, P, W, Arc<Registered<E>>>,
    second_counts: Seq<(Seq<char>, usize)>,
    second_users: Seq<Option<usize>>,
    after: MgrView<B, P, W, Arc<Registered<E>>>,
)
    requires
        mgr.collects(counts, users, between),
        between.collects(second_counts, second_users, after),
        forall|i: int|
            0 <= i < second_counts.len() ==> (#[trigger] second_counts[i]).1 == last_count(
                counts,
                users,
                second_counts[i].0,
            ),
    ensures
        after == between,
{
    lemma_reclaim_all(mgr, idle_ids(counts), users);
    lemma_idle_ids(second_counts);
    let ids = idle_ids(second_counts);
    if ids.len() > 0 {
        let id = ids[0];
        assert(ids.contains(id));
        let i = choose|i: int|
            0 <= i < second_counts.len() && (#[trigger] second_counts[i]).0 == id && is_idle(
                second_counts[i].1,
            );
        assert(counted_ids(second_counts)[i] == id);
        assert(counted_ids(second_counts).contains(id));
        assert(between.blobs.contains_key(id));
        lemma_collects(mgr, counts, users, between, id);
    }
}

/// Two collections in a row, with no entry taken up or given up from the first count to the last,
/// drop what the first of them drops.
pub proof fn law_gc_is_idempotent<B, P, W, E>(
    mgr: MgrView<B, P, W, Arc<Registered<E>>>,
    between: MgrView<B, P, W, Arc<Registered<E>>>,
    after: MgrView<B, P, W, Arc<Registered<E>>>,
)
    requires
        mgr.collected(between),
        between.collected(after),
        forall|id: Seq<char>| #[trigger]
            mgr.blobs.contains_key(id) ==> !(seen_idle(mgr.blobs[id]) && seen_used(mgr.blobs[id])),
    ensures
        after == between,
{
    lemma_collected(mgr, between);
    lemma_collected(between, after);
    assert forall|id: Seq<char>| #[trigger] between.blobs.contains_key(id) implies after.blobs.contains_key(
        id,
    ) by {
        assert(mgr.blobs.contains_key(id));
        assert(between.blobs[id] == mgr.blobs[id]);
    }
    assert(after.blobs =~= between.blobs);
}

/// One operation that finds a blob's entry in use keeps it.
proof fn lemma_used_entry_stays<B, P, W, E>(
    mgr: MgrView<B, P, W, Arc<Registered<E>>>,
    operation: Operation<E>,
    after: MgrView<B, P, W, Arc<Registered<E>>>,
    id: Seq<char>,
)
    requires
        mgr.steps(operation, after),
        mgr.blobs.contains_key(id),
        operation.finds_used(id),
    ensures
        after.lookup(id) == mgr.lookup(id),
{
    if let Operation::Collect { counts, recounts } = operation {
        lemma_collects(mgr, counts, recounts, after, id);
    }
}

/// An entry that is registered stays so through any operations, as long as each count that
/// decides about it finds it in use.
pub proof fn law_used_entry_stays_registered<B, P, W, E>(
    states: Seq<MgrView<B, P, W, Arc<Registered<E>>>>,
    operations: Seq<Operation<E>>,
    id: Seq<char>,
    k: int,
)
    requires
        is_history(states, operations),
        states[0].blobs.contains_key(id),
        forall|i: int|
            0 <= i < operations.len() ==> (#[trigger] operations[i]).finds_used(id),
        0 <= k < states.len(),
    ensures
        states[k].lookup(id) == states[0].lookup(id),
    decreases k,
{
    if k > 0 {
        law_used_entry_stays_registered(states, operations, id, k - 1);
        assert(operations[k - 1].finds_used(id));
        lemma_used_entry_stays(states[k - 1], operations[k - 1], states[k], id);
    }
}

/// The entry that is handed out for a blob is the registered one, and stays so through any
/// operations for as long as it is held: as long as no count finds it idle.
pub proof fn law_held_entry_stays_registered<B, P, W, E>(
    mgr: MgrView<B, P, W, Arc<Registered<E>>>,
    id: Seq<char>,
    created: Result<E, std::io::Error>,
    states: Seq<MgrView<B, P, W, Arc<Registered<E>>>>,
    operations: Seq<Operation<E>>,
    k: int,
)
    requires
        mgr.settled(id, created) is Ok,
        states[0] == mgr.settle(id, created),
        is_history(states, operations),
        !seen_idle(mgr.settled(id, created)->Ok_0),
        0 <= k < states.len(),
    ensures
        states[k].lookup(id) == Some(mgr.settled(id, created)->Ok_0),
    decreases k,
{
    if k > 0 {
        let before = states[k - 1];
        let operation = operations[k - 1];
        law_held_entry_stays_registered(mgr, id, created, states, operations, k - 1);
        assert(before.steps(operation, states[k]));
        match operation {
            Operation::Create { .. } => {},
            Operation::Reclaim { id: other, users } => {
                if other == id {
                    assert(counted(before.blobs[id], users->0));
                }
            },
            Operation::Collect { counts, recounts } => {
                lemma_collects(before, counts, recounts, states[k], id);
            },
        }
        lemma_used_entry_stays(before, operation, states[k], id);
    }
}

/// The entry that was handed out for a blob is never handed out for another, whatever happens in
/// between and whatever the entries hold: the other blob's entry has another stamp, so it is behind
/// another pointer. And a request for the other blob leaves what a lookup of the first one finds.
pub proof fn law_entries_are_not_shared<B, P, W, E>(
    mgr: MgrView<B, P, W, Arc<Registered<E>>>,
    id: Seq<char>,
    created: Result<E, std::io::Error>,
    states: Seq<MgrView<B, P, W, Arc<Registered<E>>>>,
    operations: Seq<Operation<E>>,
    k: int,
    other: Seq<char>,
    other_created: Result<E, std::io::Error>,
)
    requires
        mgr.inv(),
        mgr.settled(id, created) is Ok,
        states[0] == mgr.settle(id, created),
        is_history(states, operations),
        0 <= k < states.len(),
        other != id,
    ensures
        states[k].settled(other, other_created) matches Ok(handed_out) ==> handed_out.stamp@
            != mgr.settled(id, created)->Ok_0.stamp@,
        states[k].settle(other, other_created).lookup(id) == states[k].lookup(id),
{
    lemma_stamp_stays_with_blob(mgr, id, created, states, operations, k);
}

/// A stamp that was given is in the past, and no other blob's entry has it.
proof fn lemma_stamp_stays_with_blob<B, P, W, E>(
    mgr: MgrView<B, P, W, Arc<Registered<E>>>,
    id: Seq<char>,
    created: Result<E, std::io::Error>,
    states: Seq<MgrView<B, P, W, Arc<Registered<E>>>>,
    operations: Seq<Operation<E>>,
    k: int,
)
    requires
        mgr.inv(),
        mgr.settled(id, created) is Ok,
        states[0] == mgr.settle(id, created),
        is_history(states, operations),
        0 <= k < states.len(),
    ensures
        mgr.settled(id, created)->Ok_0.stamp@ < states[k].next_stamp,
        forall|other: Seq<char>| #[trigger]
            states[k].blobs.contains_key(other) && other != id ==> states[k].blobs[other].stamp@
                != mgr.settled(id, created)->Ok_0.stamp@,
    decreases k,
{
    if k > 0 {
        lemma_stamp_stays_with_blob(mgr, id, created, states, operations, k - 1);
        assert(states[k - 1].steps(operations[k - 1], states[k]));
        if let Operation::Collect { counts, recounts } = operations[k - 1] {
            lemma_reclaim_all(states[k - 1], idle_ids(counts), recounts);
        }
    }
}

/// What the calls on a working directory come to, where they have these outcomes as far as they
/// are made.
pub open spec fn work_dir_run(
    first: Result<bool, OsFailure>,
    creation: Result<(), OsFailure>,
    second: Result<bool, OsFailure>,
) -> WorkDirVerdict {
    match work_dir_verdict(WorkDirEvent::Stat(first)) {
        WorkDirVerdict::Create => match work_dir_verdict(WorkDirEvent::CreateDirAll(creation)) {
            WorkDirVerdict::Recheck => work_dir_verdict(WorkDirEvent::StatCreated(second)),
            verdict => verdict,
        },
        verdict => verdict,
    }
}

/// A working directory is settled after three calls at most. It is usable where it is a directory
/// or was made one. A first stat that fails is never the error: the creation or the second stat is.
pub proof fn law_work_dir_is_settled(
    first: Result<bool, OsFailure>,
    creation: Result<(), OsFailure>,
    second: Result<bool, OsFailure>,
)
    ensures
        work_dir_run(first, creation, second) == (match (first, creation, second) {
            (Ok(true), _, _) => WorkDirVerdict::Usable,
            (Ok(false), _, _) => WorkDirVerdict::NotADirectory,
            (Err(_), Err(failure), _) => WorkDirVerdict::Unavailable(failure),
            (Err(_), Ok(_), Err(failure)) => WorkDirVerdict::Unavailable(failure),
            (Err(_), Ok(_), Ok(true)) => WorkDirVerdict::Usable,
            (Err(_), Ok(_), Ok(false)) => WorkDirVerdict::NotADirectory,
        }),
{
}

/// A setup gives a manager only where each of its steps succeeds, and the manager then has no
/// entry, knows no file, and holds what the configuration and the steps gave. Calls on the working
/// directory that only ask for another one give the stage back as it was, so the last of them
/// stands for all.
pub proof fn law_setup_gives_configured_manager<B, P, W, E>(
    config: CacheConfig<P>,
    backend: B,
    id: &str,
    work_dir_stage: WorkDirStage<B, P>,
    last_event: WorkDirEvent,
    runtime_stage: RuntimeStage<B, P>,
    started: Result<Runtime, std::io::Error>,
    worker_stage: WorkerStage<B, P>,
    created: Result<W, std::io::Error>,
    mgr: FileCacheMgr<B, P, W, E>,
)
    requires
        call_ensures(
            FileCacheMgr::<B, P, W, E>::new,
            (config, backend, id),
            Ok::<WorkDirStage<B, P>, CacheError>(work_dir_stage),
        ),
        call_ensures(
            WorkDirStage::<B, P>::advance,
            (work_dir_stage, last_event),
            WorkDirProgress::Ready(runtime_stage),
        ),
        call_ensures(
            RuntimeStage::<B, P>::with_runtime,
            (runtime_stage, started),
            Ok::<WorkerStage<B, P>, CacheError>(worker_stage),
        ),
        call_ensures(
            WorkerStage::<B, P>::with_workers::<W, E>,
            (worker_stage, created),
            Ok::<FileCacheMgr<B, P, W, E>, CacheError>(mgr),
        ),
    ensures
        config.cache_config is Ok,
        work_dir_verdict(last_event) is Usable,
        started is Ok,
        created is Ok,
        mgr.wf(),
        mgr@ == (MgrView::<B, P, W, Arc<Registered<E>>> {
            blobs: Map::empty(),
            next_stamp: 0,
            backend,
            metrics: MetricsView {
                id: id@,
                work_dir: config.cache_config->Ok_0.work_dir@,
                underlying_files: Set::empty(),
            },
            prefetch_config: Arc::new(config.prefetch_config),
            runtime: Arc::new(started->Ok_0),
            worker_mgr: Arc::new(created->Ok_0),
            work_dir: config.cache_config->Ok_0.work_dir@,
            validate: config.cache_validate,
            disable_indexed_map: config.cache_config->Ok_0.disable_indexed_map,
            is_compressed: config.cache_compressed,
        }),
{
}

} // verus!
