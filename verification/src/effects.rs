//! What each operation changes and what it leaves alone, told by the maps, sets and numbers
//! themselves.

use crate::config::BlobCacheConfig;
use crate::error::{CacheError, OsFailure};
use crate::manager::{select_idle, BlobCacheStep, FileCacheMgr};
use crate::model::{
    idle_ids, is_history, lemma_collected, lemma_collects, lemma_reclaim_all, seen_idle, seen_used,
    MgrView, Operation, Registered,
};
use crate::runtime::{flusher_settings, flushes_caches, RuntimeSettings};
use crate::setup::{RuntimeStage, WorkDirProgress, WorkDirStage, WorkerStage};
use crate::table::{
    count_views, counted, counted_ids, counts_entries, id_views, law_counts_take_in_the_pointer,
};
use crate::work_dir::{WorkDirEvent, WorkDirStep};
use std::sync::Arc;
use tokio::runtime::Runtime;
use vstd::prelude::*;

verus! {

/// Registering an entry changes the blob's entry, the next stamp and the known files, and nothing
/// else. A blob that has an entry keeps it. One that has none gets the new one, under a new stamp,
/// and its file is known from then on. What is handed out is what the blob then has.
pub proof fn law_registration_changes_one_blob<B, P, W, E>(
    mgr: MgrView<B, P, W, Arc<Registered<E>>>,
    id: Seq<char>,
    entry: E,
)
    ensures
        ({
            let after = mgr.enroll(id, entry);
            let known = mgr.metrics.underlying_files;
            &&& after.blobs.dom() == mgr.blobs.dom().insert(id)
            &&& forall|other: Seq<char>| #[trigger]
                mgr.blobs.contains_key(other) ==> after.blobs[other] == mgr.blobs[other]
            &&& !mgr.blobs.contains_key(id) ==> {
                &&& after.blobs[id].entry == entry
                &&& after.blobs[id].stamp@ == mgr.next_stamp
                &&& after.next_stamp == mgr.next_stamp + 1
                &&& after.metrics.underlying_files == known.insert(id)
            }
            &&& mgr.blobs.contains_key(id) ==> {
                &&& after.next_stamp == mgr.next_stamp
                &&& after.metrics.underlying_files == known
            }
            &&& mgr.enrolled(id, entry) == after.blobs[id]
            &&& after.backend == mgr.backend
            &&& after.metrics.id == mgr.metrics.id
            &&& after.metrics.work_dir == mgr.metrics.work_dir
            &&& after.prefetch_config == mgr.prefetch_config
            &&& after.runtime == mgr.runtime
            &&& after.worker_mgr == mgr.worker_mgr
            &&& after.work_dir == mgr.work_dir
            &&& after.validate == mgr.validate
            &&& after.disable_indexed_map == mgr.disable_indexed_map
            &&& after.is_compressed == mgr.is_compressed
        }),
{
    assert(mgr.enroll(id, entry).blobs.dom() =~= mgr.blobs.dom().insert(id));
}

/// A creation that failed changes nothing and hands its error on. One that succeeded registers what
/// it created.
pub proof fn law_creation_is_settled<B, P, W, E>(
    mgr: MgrView<B, P, W, Arc<Registered<E>>>,
    id: Seq<char>,
    created: Result<E, std::io::Error>,
)
    ensures
        created matches Err(error) ==> {
            &&& mgr.settle(id, created) == mgr
            &&& mgr.settled(id, created) == Err::<Arc<Registered<E>>, std::io::Error>(error)
        },
        created matches Ok(entry) ==> {
            let after = mgr.settle(id, created);
            &&& mgr.settled(id, created) == Ok::<Arc<Registered<E>>, std::io::Error>(
                after.blobs[id],
            )
            &&& after.blobs.contains_key(id)
            &&& mgr.blobs.contains_key(id) ==> after == mgr
            &&& !mgr.blobs.contains_key(id) ==> after.blobs == mgr.blobs.insert(
                id,
                Arc::new(Registered { entry, stamp: Ghost(mgr.next_stamp) }),
            )
        },
{
}

/// What a manager was set up with stays as it is, whatever the operations.
pub proof fn law_settings_never_change<B, P, W, E>(
    states: Seq<MgrView<B, P, W, Arc<Registered<E>>>>,
    operations: Seq<Operation<E>>,
    k: int,
)
    requires
        is_history(states, operations),
        0 <= k < states.len(),
    ensures
        states[k].backend == states[0].backend,
        states[k].metrics.id == states[0].metrics.id,
        states[k].metrics.work_dir == states[0].metrics.work_dir,
        states[k].prefetch_config == states[0].prefetch_config,
        states[k].runtime == states[0].runtime,
        states[k].worker_mgr == states[0].worker_mgr,
        states[k].work_dir == states[0].work_dir,
        states[k].validate == states[0].validate,
        states[k].disable_indexed_map == states[0].disable_indexed_map,
        states[k].is_compressed == states[0].is_compressed,
    decreases k,
{
    if k > 0 {
        law_settings_never_change(states, operations, k - 1);
        assert(states[k - 1].steps(operations[k - 1], states[k]));
        if let Operation::Collect { counts, recounts } = operations[k - 1] {
            lemma_reclaim_all(states[k - 1], idle_ids(counts), recounts);
        }
    }
}

/// Whether an entry was created for a blob in one of the first `k` operations.
pub open spec fn was_created<E>(operations: Seq<Operation<E>>, k: int, id: Seq<char>) -> bool {
    exists|i: int|
        0 <= i < k && (#[trigger] operations[i] matches Operation::Create {
            id: other,
            created: Ok(_),
        } && other == id)
}

/// The files that the metrics know are those they knew at first and those of the blobs that an
/// entry was created for. A blob has an entry only if it had one at first or one was created.
pub proof fn law_known_files_are_those_created<B, P, W, E>(
    states: Seq<MgrView<B, P, W, Arc<Registered<E>>>>,
    operations: Seq<Operation<E>>,
    k: int,
    id: Seq<char>,
)
    requires
        is_history(states, operations),
        states[0].blobs.dom().subset_of(states[0].metrics.underlying_files),
        0 <= k < states.len(),
    ensures
        states[k].blobs.dom().subset_of(states[k].metrics.underlying_files),
        states[k].metrics.underlying_files.contains(id)
            <==> states[0].metrics.underlying_files.contains(id) || was_created(operations, k, id),
        states[k].blobs.contains_key(id) ==> states[0].blobs.contains_key(id) || was_created(
            operations,
            k,
            id,
        ),
    decreases k,
{
    if k > 0 {
        let before = states[k - 1];
        law_known_files_are_those_created(states, operations, k - 1, id);
        assert(before.steps(operations[k - 1], states[k]));
        if was_created(operations, k - 1, id) {
            let i = choose|i: int|
                0 <= i < k - 1 && (#[trigger] operations[i] matches Operation::Create {
                    id: other,
                    created: Ok(_),
                } && other == id);
            assert(0 <= i < k);
        }
        match operations[k - 1] {
            Operation::Create { id: other, created } => {
                if was_created(operations, k, id) && !was_created(operations, k - 1, id) {
                    assert(other == id && created is Ok);
                }
            },
            Operation::Reclaim { .. } => {},
            Operation::Collect { counts, recounts } => {
                lemma_reclaim_all(before, idle_ids(counts), recounts);
            },
        }
    }
}

/// Reclaiming a blob drops its entry, unless the entry has more than one user: then nothing
/// changes. Nothing but the entries is ever touched.
pub proof fn law_reclaim_goes_by_more_than_one<B, P, W, E>(
    mgr: MgrView<B, P, W, Arc<Registered<E>>>,
    id: Seq<char>,
    users: Option<usize>,
)
    ensures
        ({
            let after = mgr.reclaim(id, users);
            &&& (users is Some && users->0 > 1) ==> after.blobs == mgr.blobs
            &&& (users is None || users->0 <= 1) ==> after.blobs == mgr.blobs.remove(id)
            &&& after.next_stamp == mgr.next_stamp
            &&& after.metrics == mgr.metrics
            &&& after.backend == mgr.backend
            &&& after.prefetch_config == mgr.prefetch_config
            &&& after.runtime == mgr.runtime
            &&& after.worker_mgr == mgr.worker_mgr
            &&& after.work_dir == mgr.work_dir
            &&& after.validate == mgr.validate
            &&& after.disable_indexed_map == mgr.disable_indexed_map
            &&& after.is_compressed == mgr.is_compressed
        }),
{
}

/// Whether each count of an entry comes to one, for the table's pointer, and one for each of so
/// many pointers outside of the library.
pub open spec fn has_holders<E>(entry: Arc<Registered<E>>, holders: nat) -> bool {
    forall|count: usize| #[trigger] counted(entry, count) ==> count == 1 + holders
}

/// An entry that is up for reclaim is dropped exactly where no pointer to it exists outside of the
/// library, and no other blob is concerned.
pub proof fn law_reclaim_drops_what_nobody_holds<B, P, W, E>(
    mgr: MgrView<B, P, W, Arc<Registered<E>>>,
    id: Seq<char>,
    after: MgrView<B, P, W, Arc<Registered<E>>>,
    holders: nat,
)
    requires
        mgr.reclaimed(id, after),
        mgr.blobs.contains_key(id),
        has_holders(mgr.blobs[id], holders),
    ensures
        after.blobs == (if holders > 0 {
            mgr.blobs
        } else {
            mgr.blobs.remove(id)
        }),
{
    let users = choose|users: Option<usize>| #[trigger] mgr.reclaims(id, users, after);
    assert(counted(mgr.blobs[id], users->0));
}

/// A collection leaves exactly the blobs whose entries have a pointer outside of the library. So an
/// entry whose pointers were all dropped is gone, and one that is held stays.
pub proof fn law_gc_leaves_exactly_what_is_held<B, P, W, E>(
    mgr: MgrView<B, P, W, Arc<Registered<E>>>,
    after: MgrView<B, P, W, Arc<Registered<E>>>,
    holders: Map<Seq<char>, nat>,
)
    requires
        mgr.collected(after),
        forall|id: Seq<char>| #[trigger]
            mgr.blobs.contains_key(id) ==> has_holders(mgr.blobs[id], holders[id]),
    ensures
        after.blobs == mgr.blobs.restrict(Set::new(|id: Seq<char>| holders[id] > 0)),
        after.metrics == mgr.metrics,
        after.next_stamp == mgr.next_stamp,
{
    let (counts, users) = choose|counts: Seq<(Seq<char>, usize)>, users: Seq<Option<usize>>|
        #[trigger] mgr.collects(counts, users, after);
    lemma_collected(mgr, after);
    assert forall|id: Seq<char>| #[trigger] mgr.blobs.contains_key(id) implies (
    after.blobs.contains_key(id) <==> holders[id] > 0) by {
        lemma_collects(mgr, counts, users, after, id);
        assert(has_holders(mgr.blobs[id], holders[id]));
    }
    assert(after.blobs =~= mgr.blobs.restrict(Set::new(|id: Seq<char>| holders[id] > 0)));
}

/// The counts of a table name each of its blobs once, with one more than the number of pointers to
/// its entry outside of the library, whatever other blobs there are.
pub proof fn law_counts_are_one_more_than_holders<E>(
    blobs: Map<Seq<char>, Arc<Registered<E>>>,
    counts: Seq<(Seq<char>, usize)>,
    holders: Map<Seq<char>, nat>,
)
    requires
        counts_entries(counts, blobs),
        forall|id: Seq<char>| #[trigger]
            blobs.contains_key(id) ==> has_holders(blobs[id], holders[id]),
    ensures
        forall|i: int|
            0 <= i < counts.len() ==> blobs.contains_key((#[trigger] counts[i]).0) && counts[i].1
                == 1 + holders[counts[i].0],
        forall|i: int, j: int|
            0 <= i < j < counts.len() ==> (#[trigger] counts[i]).0 != (#[trigger] counts[j]).0,
        forall|id: Seq<char>| #[trigger]
            blobs.contains_key(id) ==> exists|i: int|
                0 <= i < counts.len() && (#[trigger] counts[i]).0 == id,
{
    assert forall|i: int| 0 <= i < counts.len() implies blobs.contains_key(
        (#[trigger] counts[i]).0,
    ) && counts[i].1 == 1 + holders[counts[i].0] by {
        assert(counted_ids(counts)[i] == counts[i].0);
        assert(counted_ids(counts).contains(counts[i].0));
        assert(blobs.contains_key(counts[i].0));
        assert(counted(blobs[counts[i].0], counts[i].1));
    }
    assert forall|i: int, j: int| 0 <= i < j < counts.len() implies (#[trigger] counts[i]).0 != (
    #[trigger] counts[j]).0 by {
        assert(counted_ids(counts)[i] != counted_ids(counts)[j]);
    }
    assert forall|id: Seq<char>| #[trigger] blobs.contains_key(id) implies exists|i: int|
        0 <= i < counts.len() && (#[trigger] counts[i]).0 == id by {
        assert(counted_ids(counts).contains(id));
        let i = counted_ids(counts).index_of(id);
        assert(counts[i].0 == id);
    }
}

/// The counts that a manager gives name each of its blobs once, with one more than the number of
/// pointers to its entry outside of the library.
pub proof fn law_user_counts_are_one_more_than_holders<B, P, W, E>(
    mgr: FileCacheMgr<B, P, W, E>,
    counts: Vec<(String, usize)>,
    holders: Map<Seq<char>, nat>,
    i: int,
)
    requires
        call_ensures(
            FileCacheMgr::<B, P, W, E, Arc<Registered<E>>>::user_counts,
            (&mgr,),
            counts,
        ),
        forall|id: Seq<char>| #[trigger]
            mgr@.blobs.contains_key(id) ==> has_holders(mgr@.blobs[id], holders[id]),
        0 <= i < counts@.len(),
    ensures
        mgr@.blobs.contains_key(counts@[i].0@),
        counts@[i].1 == 1 + holders[counts@[i].0@],
        forall|id: Seq<char>| #[trigger]
            mgr@.blobs.contains_key(id) ==> exists|j: int|
                0 <= j < counts@.len() && (#[trigger] counts@[j]).0@ == id,
{
    law_counts_are_one_more_than_holders(mgr@.blobs, count_views(counts@), holders);
    assert(count_views(counts@)[i] == (counts@[i].0@, counts@[i].1));
    assert forall|id: Seq<char>| #[trigger] mgr@.blobs.contains_key(id) implies exists|j: int|
        0 <= j < counts@.len() && (#[trigger] counts@[j]).0@ == id by {
        let j = choose|j: int|
            0 <= j < count_views(counts@).len() && (#[trigger] count_views(counts@)[j]).0 == id;
        assert(counts@[j].0@ == id);
    }
}

/// A request for a blob gives the entry that the blob has, and asks for one to be created exactly
/// where it has none. It takes the manager as it is and leaves it so.
pub proof fn law_request_finds_the_registered_entry<B, P, W, E>(
    mgr: FileCacheMgr<B, P, W, E>,
    id: &str,
    step: BlobCacheStep<Arc<Registered<E>>>,
    found: Option<Arc<Registered<E>>>,
)
    requires
        call_ensures(
            FileCacheMgr::<B, P, W, E, Arc<Registered<E>>>::get_blob_cache::<&str>,
            (&mgr, id),
            step,
        ),
        call_ensures(
            FileCacheMgr::<B, P, W, E, Arc<Registered<E>>>::get::<&str>,
            (&mgr, id),
            found,
        ),
    ensures
        mgr@.blobs.contains_key(id@) <==> found is Some,
        mgr@.blobs.contains_key(id@) <==> step is Ready,
        found is Some ==> found->0 == mgr@.blobs[id@] && step->Ready_0 == mgr@.blobs[id@],
{
}

/// An entry that was handed out, however often, and that nobody holds any more is dropped by the
/// next collection.
pub proof fn law_released_entry_is_dropped<B, P, W, E>(
    mgr: FileCacheMgr<B, P, W, E>,
    id: &str,
    steps: Seq<BlobCacheStep<Arc<Registered<E>>>>,
    k: int,
    after: MgrView<B, P, W, Arc<Registered<E>>>,
)
    requires
        forall|i: int|
            0 <= i < steps.len() ==> call_ensures(
                FileCacheMgr::<B, P, W, E, Arc<Registered<E>>>::get_blob_cache::<&str>,
                (&mgr, id),
                #[trigger] steps[i],
            ),
        0 <= k < steps.len(),
        steps[k] is Ready,
        has_holders(steps[k]->Ready_0, 0),
        mgr@.collected(after),
    ensures
        !after.blobs.contains_key(id@),
{
    lemma_collected(mgr@, after);
    assert(mgr@.blobs.contains_key(id@));
    if after.blobs.contains_key(id@) {
        assert(seen_used(after.blobs[id@]));
    }
}

/// What is seen of an entry is what its counts say: one user, or more.
pub proof fn law_what_counts_show<E>(entry: Arc<Registered<E>>)
    ensures
        seen_idle(entry) <==> exists|count: usize| #[trigger] counted(entry, count) && count == 1,
        seen_used(entry) <==> exists|count: usize| #[trigger] counted(entry, count) && count > 1,
        forall|count: usize| #[trigger] counted(entry, count) ==> count >= 1,
{
    assert forall|count: usize| #[trigger] counted(entry, count) implies count >= 1 by {
        law_counts_take_in_the_pointer(entry, count);
    }
}

/// The idle blobs are those counted with exactly one user, in the order of the counts.
pub proof fn law_idle_means_one_user(counts: Seq<(Seq<char>, usize)>)
    ensures
        idle_ids(counts) == counts.filter(|count: (Seq<char>, usize)| count.1 == 1).map_values(
            |count: (Seq<char>, usize)| count.0,
        ),
    decreases counts.len(),
{
    reveal(Seq::filter);
    let one = |count: (Seq<char>, usize)| count.1 == 1;
    let name = |count: (Seq<char>, usize)| count.0;
    if counts.len() > 0 {
        law_idle_means_one_user(counts.drop_last());
        assert(idle_ids(counts) =~= counts.filter(one).map_values(name));
    } else {
        assert(idle_ids(counts) =~= counts.filter(one).map_values(name));
    }
}

/// Whether some count says that a blob's entry has exactly one user.
pub open spec fn has_one_user(counts: Seq<(Seq<char>, usize)>, id: Seq<char>) -> bool {
    exists|j: int| 0 <= j < counts.len() && (#[trigger] counts[j]).0 == id && counts[j].1 == 1
}

/// The blobs that are picked as idle are those with exactly one user among the counts, and no
/// others.
pub proof fn law_idle_blobs_are_picked(
    counts: Vec<(String, usize)>,
    ids: Vec<String>,
    id: Seq<char>,
)
    requires
        call_ensures(select_idle, (&counts,), ids),
    ensures
        (exists|i: int| 0 <= i < ids@.len() && (#[trigger] ids@[i])@ == id) <==> exists|j: int|
            0 <= j < counts@.len() && (#[trigger] counts@[j]).0@ == id && counts@[j].1 == 1,
{
    let all = count_views(counts@);
    lemma_idle_members(all, id);
    if exists|i: int| 0 <= i < ids@.len() && (#[trigger] ids@[i])@ == id {
        let i = choose|i: int| 0 <= i < ids@.len() && (#[trigger] ids@[i])@ == id;
        assert(idle_ids(all)[i] == id);
        assert(idle_ids(all).contains(id));
        let j = choose|j: int|
            0 <= j < all.len() && (#[trigger] all[j]).0 == id && all[j].1 == 1;
        assert(counts@[j].0@ == id);
    }
    if exists|j: int|
        0 <= j < counts@.len() && (#[trigger] counts@[j]).0@ == id && counts@[j].1 == 1 {
        let j = choose|j: int|
            0 <= j < counts@.len() && (#[trigger] counts@[j]).0@ == id && counts@[j].1 == 1;
        assert(all[j].0 == id && all[j].1 == 1);
        assert(has_one_user(all, id));
        let i = idle_ids(all).index_of(id);
        assert(id_views(ids@)[i] == ids@[i]@);
    }
}

/// The idle ids are those of the counts of one.
proof fn lemma_idle_members(counts: Seq<(Seq<char>, usize)>, id: Seq<char>)
    ensures
        idle_ids(counts).contains(id) <==> has_one_user(counts, id),
    decreases counts.len(),
{
    if counts.len() > 0 {
        let shorter = counts.drop_last();
        let before = idle_ids(shorter);
        let after = idle_ids(counts);
        let last = counts.len() - 1;
        lemma_idle_members(shorter, id);
        if has_one_user(shorter, id) {
            let j = choose|j: int|
                0 <= j < shorter.len() && (#[trigger] shorter[j]).0 == id && shorter[j].1 == 1;
            assert(counts[j].0 == id && counts[j].1 == 1);
            let i = before.index_of(id);
            assert(after[i] == id);
        }
        if has_one_user(counts, id) && !has_one_user(shorter, id) {
            let j = choose|j: int|
                0 <= j < counts.len() && (#[trigger] counts[j]).0 == id && counts[j].1 == 1;
            if j < last {
                assert(shorter[j] == counts[j]);
            }
            assert(after[before.len() as int] == id);
        }
        if after.contains(id) && !before.contains(id) {
            let i = after.index_of(id);
            if i < before.len() {
                assert(before[i] == id);
            }
            assert(counts[last].0 == id && counts[last].1 == 1);
        }
    }
}

/// The runtime that flushes caches has one worker thread, keeps idle threads for ten seconds, runs
/// at most eight pieces of blocking work at a time, and names its threads for what they do.
pub proof fn law_flusher_settings(settings: RuntimeSettings)
    ensures
        call_ensures(flusher_settings, (), settings) ==> flushes_caches(settings),
        flushes_caches(settings) <==> {
            &&& settings.worker_threads == 1
            &&& settings.thread_keep_alive == 10
            &&& settings.max_blocking_threads == 8
            &&& settings.thread_name@ == "cache-flusher"@
        },
{
}

/// An error about the working directory names the directory, and the call's own words where a call
/// failed. Other errors have no text of their own.
pub proof fn law_error_texts(error: CacheError, message: Option<String>)
    requires
        call_ensures(CacheError::message, (&error,), message),
    ensures
        error matches CacheError::WorkDirUnavailable { work_dir, failure } ==> message is Some
            && message->0@ == "fail to stat blobcache work_dir "@ + work_dir@ + ": "@
            + failure.detail@,
        error matches CacheError::NotADirectory { work_dir } ==> message is Some && message->0@
            == "blobcache work_dir "@ + work_dir@ + " is not a directory"@,
        message is Some <==> error is WorkDirUnavailable || error is NotADirectory,
{
}

/// A configuration that does not decode is an invalid argument, a working directory that is none is
/// a missing one, and a failed call counts by its own error number.
pub proof fn law_error_numbers(error: CacheError, code: Option<i32>)
    requires
        call_ensures(CacheError::os_code, (&error,), code),
    ensures
        error is InvalidConfig ==> code == Some(22i32),
        error is NotADirectory ==> code == Some(2i32),
        error matches CacheError::WorkDirUnavailable { failure, .. } ==> code == Some(
            failure.last_os_error,
        ),
        error is Runtime || error is Workers ==> code is None,
{
}

/// The working directory is examined first. Only where that fails it is created, and only then it
/// is examined again. It is given where it is a directory, and the error otherwise names it.
pub proof fn law_work_dir_steps(config: BlobCacheConfig, event: WorkDirEvent, step: WorkDirStep<'_>)
    requires
        call_ensures(BlobCacheConfig::get_work_dir, (&config, event), step),
    ensures
        step is CreateDirAll <==> event matches WorkDirEvent::Stat(Err(_)),
        step is StatCreated <==> event matches WorkDirEvent::CreateDirAll(Ok(_)),
        (event == WorkDirEvent::Stat(Ok(true)) || event == WorkDirEvent::StatCreated(Ok(true)))
            ==> (step matches WorkDirStep::Done(Ok(dir)) && dir@ == config.work_dir@),
        (event == WorkDirEvent::Stat(Ok(false)) || event == WorkDirEvent::StatCreated(Ok(false)))
            ==> (step matches WorkDirStep::Done(Err(CacheError::NotADirectory { work_dir }))
            && work_dir@ == config.work_dir@),
        forall|cause: OsFailure|
            (event == WorkDirEvent::CreateDirAll(Err(cause)) || event == WorkDirEvent::StatCreated(
                Err(cause),
            )) ==> (step matches WorkDirStep::Done(
                Err(CacheError::WorkDirUnavailable { work_dir, failure }),
            ) && work_dir@ == config.work_dir@ && failure == cause),
{
}

/// A setup goes on to the runtime exactly where the working directory is found to be a directory,
/// asks for the next call on the directory with nothing lost, and fails with an error about the
/// directory otherwise.
pub proof fn law_setup_follows_work_dir<B, P>(
    stage: WorkDirStage<B, P>,
    event: WorkDirEvent,
    progress: WorkDirProgress<B, P>,
)
    requires
        call_ensures(WorkDirStage::<B, P>::advance, (stage, event), progress),
    ensures
        progress is Ready <==> event == WorkDirEvent::Stat(Ok(true)) || event
            == WorkDirEvent::StatCreated(Ok(true)),
        progress matches WorkDirProgress::Ready(next) ==> next.inputs == stage.inputs
            && next.metrics@.id == stage.inputs.id@ && next.metrics@.work_dir
            == stage.inputs.blob_config.work_dir@ && next.metrics@.underlying_files
            == Set::<Seq<char>>::empty(),
        progress matches WorkDirProgress::CreateDirAll(same) ==> same == stage,
        progress matches WorkDirProgress::StatCreated(same) ==> same == stage,
        progress is CreateDirAll <==> event matches WorkDirEvent::Stat(Err(_)),
        progress is StatCreated <==> event matches WorkDirEvent::CreateDirAll(Ok(_)),
        progress matches WorkDirProgress::Failed(error) ==> error is NotADirectory
            || error is WorkDirUnavailable,
{
}

/// A setup that fails at the runtime or at the workers keeps the error as it came.
pub proof fn law_setup_keeps_errors<B, P, W, E>(
    runtime_stage: RuntimeStage<B, P>,
    started: Result<Runtime, std::io::Error>,
    next: Result<WorkerStage<B, P>, CacheError>,
    worker_stage: WorkerStage<B, P>,
    created: Result<W, std::io::Error>,
    mgr: Result<FileCacheMgr<B, P, W, E>, CacheError>,
)
    requires
        call_ensures(RuntimeStage::<B, P>::with_runtime, (runtime_stage, started), next),
        call_ensures(WorkerStage::<B, P>::with_workers::<W, E>, (worker_stage, created), mgr),
    ensures
        started matches Err(error) ==> next == Err::<WorkerStage<B, P>, CacheError>(
            CacheError::Runtime(error),
        ),
        started is Ok <==> next is Ok,
        created matches Err(error) ==> mgr == Err::<FileCacheMgr<B, P, W, E>, CacheError>(
            CacheError::Workers(error),
        ),
        created is Ok <==> mgr is Ok,
{
}

/// A field that a configuration gives is taken as it is. One that it leaves out is the current
/// directory, or off.
pub proof fn law_given_fields_are_kept(
    work_dir: Option<String>,
    disable_indexed_map: Option<bool>,
    config: BlobCacheConfig,
)
    requires
        call_ensures(BlobCacheConfig::from_fields, (work_dir, disable_indexed_map), config),
    ensures
        work_dir matches Some(dir) ==> config.work_dir@ == dir@,
        work_dir is None ==> config.work_dir@ == "."@,
        disable_indexed_map matches Some(disable) ==> config.disable_indexed_map == disable,
        disable_indexed_map is None ==> !config.disable_indexed_map,
{
}

} // verus!
