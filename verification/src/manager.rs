//! The cache manager.

use crate::config::CacheConfig;
use crate::error::CacheError;
use crate::handout::{Issue, Name, Request};
use crate::metrics::BlobcacheMetrics;
use crate::model::{
    idle_ids, is_idle, lemma_collected, lemma_idle_ids, lemma_reclaim_all, seen_idle, seen_used,
    spared, MgrView, Registered,
};
use crate::setup::{SetupInputs, WorkDirStage};
use crate::table::{
    count_views, counted, counted_ids, counts_entries, id_views, recounted, BlobTable, Pointer,
};
use std::marker::PhantomData;
use std::sync::Arc;
use tokio::runtime::Runtime;
use vstd::prelude::*;

verus! {

/// What comes of asking for the entry of a blob.
pub enum BlobCacheStep<H> {
    /// The blob has this entry.
    Ready(H),
    /// The blob has none. Create one, and hand the outcome to
    /// [`FileCacheMgr::get_or_create_cache_entry`], or the entry to
    /// [`FileCacheMgr::register_entry`].
    Create,
}

/// Caches the blobs of a storage backend in local files. There is at most one entry per blob, and
/// all users of a blob share it.
///
/// `B` is the backend, `P` the prefetch configuration, `W` the prefetch workers, `E` an entry, and
/// `H` the pointer that entries are behind. A manager is written for any pointer, and so makes one
/// only of a request or of a created entry.
#[verifier::reject_recursive_types(B)]
#[verifier::reject_recursive_types(P)]
#[verifier::reject_recursive_types(W)]
#[verifier::reject_recursive_types(E)]
#[verifier::reject_recursive_types(H)]
pub struct FileCacheMgr<B, P, W, E, H = Arc<Registered<E>>> {
    blobs: BlobTable<H>,
    next_stamp: Ghost<nat>,
    backend: B,
    metrics: BlobcacheMetrics,
    prefetch_config: Arc<P>,
    runtime: Arc<Runtime>,
    worker_mgr: Arc<W>,
    work_dir: String,
    validate: bool,
    disable_indexed_map: bool,
    is_compressed: bool,
    entry: PhantomData<E>,
}

impl<B, P, W, E, H> View for FileCacheMgr<B, P, W, E, H> {
    type V = MgrView<B, P, W, H>;

    closed spec fn view(&self) -> MgrView<B, P, W, H> {
        MgrView {
            blobs: self.blobs@,
            next_stamp: self.next_stamp@,
            backend: self.backend,
            metrics: self.metrics@,
            prefetch_config: self.prefetch_config,
            runtime: self.runtime,
            worker_mgr: self.worker_mgr,
            work_dir: self.work_dir@,
            validate: self.validate,
            disable_indexed_map: self.disable_indexed_map,
            is_compressed: self.is_compressed,
        }
    }
}

impl<B, P, W, E, H: Pointer> FileCacheMgr<B, P, W, E, H> {
    /// What holds of every manager.
    pub open spec fn wf(&self) -> bool {
        &&& self.table_wf()
        &&& self@.inv()
    }

    /// The table of entries is in order.
    pub closed spec fn table_wf(&self) -> bool {
        self.blobs.wf()
    }

    /// How many users the entry of each cached blob has, the manager included.
    pub fn user_counts(&self) -> (counts: Vec<(String, usize)>)
        requires
            self.wf(),
        ensures
            counts_entries(count_views(counts@), self@.blobs),
    {
        self.blobs.user_counts()
    }

    /// Takes a blob that was found idle, with the number of users that its entry has now, and
    /// drops the entry unless somebody took it up meanwhile.
    pub fn reclaim(&mut self, blob_id: &str, users: Option<usize>)
        requires
            old(self).wf(),
        ensures
            final(self).wf(),
            final(self)@ == old(self)@.reclaim(blob_id@, users),
    {
        if let Some(count) = users {
            if count > 1 {
                return;
            }
        }
        self.blobs.remove(blob_id);
    }

    /// Counts the users of a blob's entry, and drops the entry if it has none but the manager. An
    /// entry that is dropped was found idle, and one that is kept was found in use.
    pub fn reclaim_if_idle(&mut self, blob_id: &str)
        requires
            old(self).wf(),
        ensures
            final(self).wf(),
            old(self)@.reclaimed(blob_id@, final(self)@),
            old(self)@.blobs.contains_key(blob_id@) && !final(self)@.blobs.contains_key(blob_id@)
                ==> seen_idle(old(self)@.blobs[blob_id@]),
            final(self)@.blobs.contains_key(blob_id@) ==> seen_used(final(self)@.blobs[blob_id@]),
    {
        let users = self.blobs.users(blob_id);
        self.reclaim(blob_id, users);
        assert(old(self)@.reclaims(blob_id@, users, self@));
    }

    /// Drops the entries that nobody uses. The entries are counted once to find those that are
    /// idle, and each of these is counted again before it is dropped. An entry that is dropped was
    /// found idle, one that is kept was found in use, and nothing else changes. The contract tells
    /// the second counts from the first, but not when a count was taken.
    pub fn gc(&mut self)
        requires
            old(self).wf(),
        ensures
            final(self).wf(),
            old(self)@.collected(final(self)@),
            old(self)@.only_drops(final(self)@),
            forall|id: Seq<char>| #[trigger]
                old(self)@.blobs.contains_key(id) && !final(self)@.blobs.contains_key(id)
                    ==> seen_idle(old(self)@.blobs[id]),
            forall|id: Seq<char>| #[trigger]
                final(self)@.blobs.contains_key(id) ==> seen_used(final(self)@.blobs[id]),
    {
        let counts = self.user_counts();
        let reclaim = select_idle(&counts);
        let ghost ids = id_views(reclaim@);
        proof {
            lemma_idle_ids(count_views(counts@));
        }
        let ghost mut users: Seq<Option<usize>> = Seq::empty();
        let mut i: usize = 0;
        assert(ids.take(0) =~= Seq::empty());
        while i < reclaim.len()
            invariant
                i <= reclaim.len(),
                ids == id_views(reclaim@),
                ids == idle_ids(count_views(counts@)),
                ids.no_duplicates(),
                counts_entries(count_views(counts@), old(self)@.blobs),
                users.len() == i,
                forall|j: int|
                    0 <= j < i ==> (#[trigger] users[j] matches Some(count) && count >= 1
                        && counted(old(self)@.blobs[ids[j]], count) && recounted(
                        old(self)@.blobs[ids[j]],
                        count,
                    )),
                self.wf(),
                self@ == old(self)@.reclaim_all(ids.take(i as int), users),
            decreases reclaim.len() - i,
        {
            let ghost before = self@;
            proof {
                let id = ids[i as int];
                lemma_idle_ids(count_views(counts@));
                lemma_reclaim_all(old(self)@, ids.take(i as int), users);
                assert(ids.contains(id));
                let k = choose|k: int|
                    0 <= k < count_views(counts@).len() && (#[trigger] count_views(counts@)[k]).0
                        == id && is_idle(count_views(counts@)[k].1);
                assert(counted_ids(count_views(counts@))[k] == id);
                assert(counted_ids(count_views(counts@)).contains(id));
                assert(spared(ids.take(i as int), users, id));
                assert(before.blobs.contains_key(id));
                assert(before.blobs[id] == old(self)@.blobs[id]);
            }
            self.reclaim_if_idle(reclaim[i].as_str());
            proof {
                let last = choose|last: Option<usize>| #[trigger]
                    before.reclaims(ids[i as int], last, self@);
                let longer = ids.take(i + 1);
                assert(longer.drop_last() =~= ids.take(i as int));
                assert(users.push(last).drop_last() =~= users);
                users = users.push(last);
            }
            i = i + 1;
        }
        proof {
            assert(ids.take(ids.len() as int) =~= ids);
            assert(old(self)@.collects(count_views(counts@), users, self@));
            lemma_collected(old(self)@, self@);
        }
    }

    /// The backend that blobs come from.
    pub fn backend(&self) -> (backend: &B)
        ensures
            *backend == self@.backend,
    {
        &self.backend
    }

    /// The metrics of the cache.
    pub fn metrics(&self) -> (metrics: &BlobcacheMetrics)
        ensures
            metrics@ == self@.metrics,
    {
        &self.metrics
    }

    /// The configuration of the prefetch workers.
    pub fn prefetch_config(&self) -> (prefetch_config: Arc<P>)
        ensures
            prefetch_config == self@.prefetch_config,
    {
        self.prefetch_config.clone()
    }

    /// The runtime for blocking I/O.
    pub fn runtime(&self) -> (runtime: Arc<Runtime>)
        ensures
            runtime == self@.runtime,
    {
        self.runtime.clone()
    }

    /// The prefetch workers.
    pub fn worker_mgr(&self) -> (worker_mgr: Arc<W>)
        ensures
            worker_mgr == self@.worker_mgr,
    {
        self.worker_mgr.clone()
    }

    /// The directory that blobs are cached in.
    pub fn work_dir(&self) -> (work_dir: &str)
        ensures
            work_dir@ == self@.work_dir,
    {
        self.work_dir.as_str()
    }

    /// Whether cached data is checked against its digest.
    pub fn validate(&self) -> (validate: bool)
        ensures
            validate == self@.validate,
    {
        self.validate
    }

    /// Whether the indexed chunk map is left unused.
    pub fn disable_indexed_map(&self) -> (disable_indexed_map: bool)
        ensures
            disable_indexed_map == self@.disable_indexed_map,
    {
        self.disable_indexed_map
    }

    /// Whether data is cached in compressed form.
    pub fn is_compressed(&self) -> (is_compressed: bool)
        ensures
            is_compressed == self@.is_compressed,
    {
        self.is_compressed
    }
}

impl<B, P, W, E> FileCacheMgr<B, P, W, E> {
    /// Begins to set up a manager for the cache `id`. A configuration that does not decode ends it
    /// at once.
    pub fn new(config: CacheConfig<P>, backend: B, id: &str) -> (setup: Result<
        WorkDirStage<B, P>,
        CacheError,
    >)
        ensures
            match config.cache_config {
                Ok(blob_config) => {
                    &&& setup matches Ok(stage)
                    &&& stage.inputs.blob_config == blob_config
                    &&& stage.inputs.backend == backend
                    &&& stage.inputs.prefetch_config == Arc::new(config.prefetch_config)
                    &&& stage.inputs.id@ == id@
                    &&& stage.inputs.validate == config.cache_validate
                    &&& stage.inputs.is_compressed == config.cache_compressed
                },
                Err(error) => setup == Err::<WorkDirStage<B, P>, CacheError>(
                    CacheError::InvalidConfig(error),
                ),
            },
    {
        match config.cache_config {
            Ok(blob_config) => {
                let inputs = SetupInputs {
                    blob_config,
                    backend,
                    prefetch_config: Arc::new(config.prefetch_config),
                    id: id.to_string(),
                    validate: config.cache_validate,
                    is_compressed: config.cache_compressed,
                };
                Ok(WorkDirStage { inputs })
            },
            Err(error) => Err(CacheError::InvalidConfig(error)),
        }
    }

    /// A manager without entries.
    pub(crate) fn assemble(
        inputs: SetupInputs<B, P>,
        metrics: BlobcacheMetrics,
        runtime: Arc<Runtime>,
        worker_mgr: Arc<W>,
    ) -> (mgr: FileCacheMgr<B, P, W, E>)
        ensures
            mgr.wf(),
            mgr@ == (MgrView::<B, P, W, Arc<Registered<E>>> {
                blobs: Map::empty(),
                next_stamp: 0,
                backend: inputs.backend,
                metrics: metrics@,
                prefetch_config: inputs.prefetch_config,
                runtime,
                worker_mgr,
                work_dir: inputs.blob_config.work_dir@,
                validate: inputs.validate,
                disable_indexed_map: inputs.blob_config.disable_indexed_map,
                is_compressed: inputs.is_compressed,
            }),
    {
        FileCacheMgr {
            blobs: BlobTable::new(),
            next_stamp: Ghost(0),
            backend: inputs.backend,
            metrics,
            prefetch_config: inputs.prefetch_config,
            runtime,
            worker_mgr,
            work_dir: inputs.blob_config.work_dir,
            validate: inputs.validate,
            disable_indexed_map: inputs.blob_config.disable_indexed_map,
            is_compressed: inputs.is_compressed,
            entry: PhantomData,
        }
    }
}

impl<B, P, W, E, H: Pointer> FileCacheMgr<B, P, W, E, H> {
    /// The entry that a blob has. The request makes the one pointer that is given.
    pub fn get<R: Request<H>>(&self, blob_id: R) -> (entry: Option<H>)
        ensures
            entry == self@.lookup(blob_id.id()),
    {
        match blob_id.take(&self.blobs) {
            Ok(entry) => Some(entry),
            Err(_) => None,
        }
    }

    /// Asks for the entry of a blob. One is created only for a blob that has none.
    pub fn get_blob_cache<R: Request<H>>(&self, blob_id: R) -> (step: BlobCacheStep<H>)
        ensures
            step == (match self@.lookup(blob_id.id()) {
                Some(entry) => BlobCacheStep::Ready(entry),
                None => BlobCacheStep::Create,
            }),
    {
        match self.get(blob_id) {
            Some(entry) => BlobCacheStep::Ready(entry),
            None => BlobCacheStep::Create,
        }
    }
}

impl<B, P, W, E, H: Issue<E>> FileCacheMgr<B, P, W, E, H> {
    /// Takes an entry that was created for a blob that had none, gives the entry to use, and tells
    /// whether it is the new one. The creation runs outside of the manager, so the blob may have
    /// got an entry meanwhile: then that one is given and the new one is dropped.
    pub fn register_entry<R: Request<H> + Name>(&mut self, blob_id: R, created: E) -> (handed_out: (
        H,
        bool,
    ))
        requires
            old(self).wf(),
        ensures
            final(self).wf(),
            handed_out.0 == old(self)@.enrolled(blob_id.id(), created),
            handed_out.1 == !old(self)@.blobs.contains_key(blob_id.id()),
            final(self)@ == old(self)@.enroll(blob_id.id(), created),
    {
        match blob_id.take(&self.blobs) {
            Ok(existing) => (existing, false),
            Err(blob_id) => {
                let stamp: Ghost<nat> = self.next_stamp;
                proof {
                    <H as Issue<E>>::issued_stamp(created, stamp@);
                }
                let pointers: (H, H) = <H as Issue<E>>::issue(created, stamp);
                self.blobs.insert(blob_id.name(), pointers.0);
                self.next_stamp = Ghost(stamp@ + 1);
                self.metrics.add_underlying_file(blob_id.name());
                (pointers.1, true)
            },
        }
    }

    /// Takes the outcome of creating an entry for a blob that had none, and gives the entry to
    /// use, as [`FileCacheMgr::register_entry`] does. A failed creation is passed on as it is.
    pub fn get_or_create_cache_entry<R: Request<H> + Name>(
        &mut self,
        blob_id: R,
        created: Result<E, std::io::Error>,
    ) -> (entry: Result<H, std::io::Error>)
        requires
            old(self).wf(),
        ensures
            final(self).wf(),
            entry == old(self)@.settled(blob_id.id(), created),
            final(self)@ == old(self)@.settle(blob_id.id(), created),
    {
        match created {
            Err(error) => Err(error),
            Ok(new) => {
                let handed_out = self.register_entry(blob_id, new);
                Ok(handed_out.0)
            },
        }
    }
}

/// Picks the blobs whose entries nobody but the manager used when they were counted.
pub fn select_idle(counts: &Vec<(String, usize)>) -> (ids: Vec<String>)
    ensures
        id_views(ids@) == idle_ids(count_views(counts@)),
{
    let mut ids: Vec<String> = Vec::new();
    let mut i: usize = 0;
    assert(count_views(counts@).take(0) =~= Seq::empty());
    assert(id_views(ids@) =~= Seq::empty());
    while i < counts.len()
        invariant
            i <= counts.len(),
            id_views(ids@) == idle_ids(count_views(counts@).take(i as int)),
        decreases counts.len() - i,
    {
        let ghost before = ids@;
        if counts[i].1 == 1 {
            ids.push(counts[i].0.clone());
            assert(id_views(ids@) =~= id_views(before).push(counts@[i as int].0@));
        }
        proof {
            let longer = count_views(counts@).take(i + 1);
            assert(longer.drop_last() =~= count_views(counts@).take(i as int));
            assert(longer.last() == (counts@[i as int].0@, counts@[i as int].1));
        }
        i = i + 1;
    }
    assert(count_views(counts@).take(counts.len() as int) =~= count_views(counts@));
    ids
}

} // verus!
