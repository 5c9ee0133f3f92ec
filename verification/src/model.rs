//! What a cache manager stands for, and what each operation makes of it.

use crate::handout::Issue;
use crate::metrics::MetricsView;
use crate::table::{counted, counted_ids, counts_entries, recounted, Pointer};
use std::sync::Arc;
use tokio::runtime::Runtime;
use vstd::prelude::*;

verus! {

/// Whether an entry with this many users is used by nobody but the table.
pub open spec fn is_idle(users: usize) -> bool {
    users == 1
}

/// Whether somebody besides the table uses an entry. A blob without an entry has no users.
pub open spec fn is_used(users: Option<usize>) -> bool {
    users matches Some(count) && count > 1
}

/// The ids whose entries were idle when they were counted, in the order of the counts.
pub open spec fn idle_ids(counts: Seq<(Seq<char>, usize)>) -> Seq<Seq<char>>
    decreases counts.len(),
{
    if counts.len() == 0 {
        Seq::empty()
    } else {
        let before = idle_ids(counts.drop_last());
        if is_idle(counts.last().1) {
            before.push(counts.last().0)
        } else {
            before
        }
    }
}

/// A blob that was up for reclaim is spared where its entry had users each time.
pub open spec fn spared(ids: Seq<Seq<char>>, users: Seq<Option<usize>>, id: Seq<char>) -> bool {
    forall|i: int| 0 <= i < ids.len() && #[trigger] ids[i] == id ==> is_used(users[i])
}

/// The last count that a collection took of a blob's entry: the second one where the first found
/// the entry idle.
pub open spec fn last_count(
    counts: Seq<(Seq<char>, usize)>,
    users: Seq<Option<usize>>,
    id: Seq<char>,
) -> usize {
    if idle_ids(counts).contains(id) {
        users[idle_ids(counts).index_of(id)]->0
    } else {
        counts[counted_ids(counts).index_of(id)].1
    }
}

/// Whether a count of this entry found no user but the manager.
pub open spec fn seen_idle<H: Pointer>(entry: H) -> bool {
    exists|count: usize| #[trigger] counted(entry, count) && is_idle(count)
}

/// Whether a count of this entry found a user besides the manager.
pub open spec fn seen_used<H: Pointer>(entry: H) -> bool {
    exists|count: usize| #[trigger] counted(entry, count) && is_used(Some(count))
}

/// An entry as a manager registered it. The stamp exists in proofs only. A manager never gives the
/// same stamp twice, and puts each stamped entry behind a pointer once, so entries of one manager
/// that differ in their stamps are behind different pointers, whatever they hold.
pub struct Registered<E> {
    pub entry: E,
    pub stamp: Ghost<nat>,
}

/// What a cache manager stands for. `H` is the pointer that entries are behind.
#[verifier::reject_recursive_types(B)]
#[verifier::reject_recursive_types(P)]
#[verifier::reject_recursive_types(W)]
#[verifier::reject_recursive_types(H)]
#[verifier::ext_equal]
pub struct MgrView<B, P, W, H> {
    pub blobs: Map<Seq<char>, H>,
    /// Stamp of the entry that is registered next.
    pub next_stamp: nat,
    pub backend: B,
    pub metrics: MetricsView,
    pub prefetch_config: Arc<P>,
    pub runtime: Arc<Runtime>,
    pub worker_mgr: Arc<W>,
    pub work_dir: Seq<char>,
    pub validate: bool,
    pub disable_indexed_map: bool,
    pub is_compressed: bool,
}

impl<B, P, W, H: Pointer> MgrView<B, P, W, H> {
    /// The metrics know every blob that has an entry. Stamps are given in order, and different
    /// blobs have differently stamped entries.
    pub open spec fn inv(self) -> bool {
        &&& self.blobs.dom().subset_of(self.metrics.underlying_files)
        &&& forall|id: Seq<char>| #[trigger]
            self.blobs.contains_key(id) ==> self.blobs[id].stamp() < self.next_stamp
        &&& forall|id: Seq<char>, other: Seq<char>| #[trigger]
            self.blobs.contains_key(id) && #[trigger] self.blobs.contains_key(other) && id != other
                ==> self.blobs[id].stamp() != self.blobs[other].stamp()
    }

    /// The entry of a blob.
    pub open spec fn lookup(self, id: Seq<char>) -> Option<H> {
        if self.blobs.contains_key(id) {
            Some(self.blobs[id])
        } else {
            None
        }
    }

    /// The manager after a blob was up for reclaim, its entry having this many users.
    pub open spec fn reclaim(self, id: Seq<char>, users: Option<usize>) -> Self {
        if is_used(users) {
            self
        } else {
            MgrView { blobs: self.blobs.remove(id), ..self }
        }
    }

    /// The manager after several blobs were up for reclaim, one after the other.
    pub open spec fn reclaim_all(self, ids: Seq<Seq<char>>, users: Seq<Option<usize>>) -> Self
        decreases ids.len(),
    {
        if ids.len() == 0 {
            self
        } else {
            self.reclaim_all(ids.drop_last(), users.drop_last()).reclaim(ids.last(), users.last())
        }
    }

    /// Whether counting a blob's entry and reclaiming it by the count leads to `after`.
    pub open spec fn reclaims(self, id: Seq<char>, users: Option<usize>, after: Self) -> bool {
        &&& users is Some <==> self.blobs.contains_key(id)
        &&& users matches Some(count) ==> {
            &&& count >= 1
            &&& counted(self.blobs[id], count)
            &&& recounted(self.blobs[id], count)
        }
        &&& after == self.reclaim(id, users)
    }

    /// Whether some count of a blob's entry leads to `after`.
    pub open spec fn reclaimed(self, id: Seq<char>, after: Self) -> bool {
        exists|users: Option<usize>| #[trigger] self.reclaims(id, users, after)
    }

    /// Whether a collection leads to `after` that first counts all entries and then counts those
    /// that it found idle again. Each count is taken of the entry that it decides about.
    pub open spec fn collects(
        self,
        counts: Seq<(Seq<char>, usize)>,
        users: Seq<Option<usize>>,
        after: Self,
    ) -> bool {
        &&& counts_entries(counts, self.blobs)
        &&& users.len() == idle_ids(counts).len()
        &&& forall|i: int|
            0 <= i < users.len() ==> (#[trigger] users[i] matches Some(count) && count >= 1
                && counted(self.blobs[idle_ids(counts)[i]], count) && recounted(
                self.blobs[idle_ids(counts)[i]],
                count,
            ))
        &&& after == self.reclaim_all(idle_ids(counts), users)
    }

    /// Whether some collection leads to `after`.
    pub open spec fn collected(self, after: Self) -> bool {
        exists|counts: Seq<(Seq<char>, usize)>, users: Seq<Option<usize>>| #[trigger]
            self.collects(counts, users, after)
    }

    /// Whether `after` is this manager with some entries dropped, and nothing else changed.
    pub open spec fn only_drops(self, after: Self) -> bool {
        &&& after == (MgrView { blobs: after.blobs, ..self })
        &&& after.blobs.submap_of(self.blobs)
    }
}

impl<B, P, W, H: Pointer> MgrView<B, P, W, H> {
    /// A newly created entry as it is registered next.
    pub open spec fn fresh<E>(self, entry: E) -> H where H: Issue<E> {
        <H as Issue<E>>::issued(entry, self.next_stamp)
    }

    /// The entry that is handed out where `entry` was created for a blob: the one that the blob
    /// already has, or else the new one.
    pub open spec fn enrolled<E>(self, id: Seq<char>, entry: E) -> H where H: Issue<E> {
        match self.lookup(id) {
            Some(existing) => existing,
            None => self.fresh(entry),
        }
    }

    /// The manager after an entry was created for a blob. A blob keeps the entry that it has; one
    /// that has none gets the new one, and the metrics record it.
    pub open spec fn enroll<E>(self, id: Seq<char>, entry: E) -> Self where H: Issue<E> {
        if self.blobs.contains_key(id) {
            self
        } else {
            MgrView {
                blobs: self.blobs.insert(id, self.fresh(entry)),
                next_stamp: self.next_stamp + 1,
                metrics: MetricsView {
                    underlying_files: self.metrics.underlying_files.insert(id),
                    ..self.metrics
                },
                ..self
            }
        }
    }

    /// What a request for a blob comes to once the creation of an entry has ended: the entry to
    /// hand out, or why there is none.
    pub open spec fn settled<E>(self, id: Seq<char>, created: Result<E, std::io::Error>) -> Result<
        H,
        std::io::Error,
    > where H: Issue<E> {
        match created {
            Ok(entry) => Ok(self.enrolled(id, entry)),
            Err(error) => Err(error),
        }
    }

    /// The manager once the creation of an entry has ended. A failure leaves it as it is.
    pub open spec fn settle<E>(self, id: Seq<char>, created: Result<E, std::io::Error>) -> Self
        where H: Issue<E>
    {
        match created {
            Ok(entry) => self.enroll(id, entry),
            Err(_) => self,
        }
    }

    /// The manager once several creations for one blob have ended, one after the other.
    pub open spec fn settle_all<E>(
        self,
        id: Seq<char>,
        created: Seq<Result<E, std::io::Error>>,
    ) -> Self where H: Issue<E>
        decreases created.len(),
    {
        if created.len() == 0 {
            self
        } else {
            self.settle_all(id, created.drop_last()).settle(id, created.last())
        }
    }
}

impl<B, P, W, E> MgrView<B, P, W, Arc<Registered<E>>> {
    /// Whether two managers differ in the stamps of their entries at most.
    pub open spec fn alike(self, other: Self) -> bool {
        &&& self == (MgrView { blobs: self.blobs, ..other })
        &&& self.blobs.dom() == other.blobs.dom()
        &&& forall|id: Seq<char>| #[trigger]
            self.blobs.contains_key(id) ==> self.blobs[id].entry == other.blobs[id].entry
    }
}

/// One operation on a manager, with what it met outside.
#[verifier::reject_recursive_types(E)]
pub enum Operation<E> {
    /// The creation of an entry for a blob ended.
    Create { id: Seq<char>, created: Result<E, std::io::Error> },
    /// A blob's entry was counted and reclaimed by the count.
    Reclaim { id: Seq<char>, users: Option<usize> },
    /// A collection took these counts, first of all entries and then of those that were idle.
    Collect { counts: Seq<(Seq<char>, usize)>, recounts: Seq<Option<usize>> },
}

impl<E> Operation<E> {
    /// Whether each count that decides about a blob's entry found it in use.
    pub open spec fn finds_used(self, id: Seq<char>) -> bool {
        match self {
            Operation::Create { .. } => true,
            Operation::Reclaim { id: other, users } => other == id ==> is_used(users),
            Operation::Collect { counts, recounts } => is_used(
                Some(last_count(counts, recounts, id)),
            ),
        }
    }
}

impl<B, P, W, E> MgrView<B, P, W, Arc<Registered<E>>> {
    /// Whether an operation leads from this manager to `after`.
    pub open spec fn steps(self, operation: Operation<E>, after: Self) -> bool {
        match operation {
            Operation::Create { id, created } => after == self.settle(id, created),
            Operation::Reclaim { id, users } => self.reclaims(id, users, after),
            Operation::Collect { counts, recounts } => self.collects(counts, recounts, after),
        }
    }
}

/// Whether each operation leads from one manager of `states` to the next.
pub open spec fn is_history<B, P, W, E>(
    states: Seq<MgrView<B, P, W, Arc<Registered<E>>>>,
    operations: Seq<Operation<E>>,
) -> bool {
    &&& states.len() == operations.len() + 1
    &&& forall|i: int|
        0 <= i < operations.len() ==> states[i].steps(#[trigger] operations[i], states[i + 1])
}

/// Reclaiming blobs one after the other drops the entries that were not spared, and changes nothing
/// else.
pub proof fn lemma_reclaim_all<B, P, W, H: Pointer>(
    mgr: MgrView<B, P, W, H>,
    ids: Seq<Seq<char>>,
    users: Seq<Option<usize>>,
)
    requires
        users.len() == ids.len(),
    ensures
        mgr.reclaim_all(ids, users) == (MgrView {
            blobs: mgr.blobs.restrict(Set::new(|id: Seq<char>| spared(ids, users, id))),
            ..mgr
        }),
    decreases ids.len(),
{
    let after = mgr.reclaim_all(ids, users);
    if ids.len() == 0 {
        assert(after.blobs =~= mgr.blobs.restrict(
            Set::new(|id: Seq<char>| spared(ids, users, id)),
        ));
    } else {
        lemma_reclaim_all(mgr, ids.drop_last(), users.drop_last());
        assert forall|id: Seq<char>|
            spared(ids, users, id) <==> spared(ids.drop_last(), users.drop_last(), id) && (
            ids.last() == id ==> is_used(users.last())) by {
            if spared(ids.drop_last(), users.drop_last(), id) && (ids.last() == id ==> is_used(
                users.last(),
            )) {
                assert forall|i: int| 0 <= i < ids.len() && #[trigger] ids[i] == id implies is_used(
                    users[i],
                ) by {
                    if i < ids.len() - 1 {
                        assert(ids.drop_last()[i] == id);
                    }
                }
            }
            if spared(ids, users, id) {
                assert forall|i: int|
                    0 <= i < ids.len() - 1 && #[trigger] ids.drop_last()[i] == id implies is_used(
                    users.drop_last()[i],
                ) by {
                    assert(ids[i] == id);
                }
                assert(ids[ids.len() - 1] == ids.last());
            }
        }
        assert(after.blobs =~= mgr.blobs.restrict(
            Set::new(|id: Seq<char>| spared(ids, users, id)),
        ));
    }
}

/// The idle ids are those that were counted with one user, and none comes twice.
pub proof fn lemma_idle_ids(counts: Seq<(Seq<char>, usize)>)
    requires
        counted_ids(counts).no_duplicates(),
    ensures
        idle_ids(counts).no_duplicates(),
        forall|id: Seq<char>| #[trigger]
            idle_ids(counts).contains(id) <==> exists|i: int|
                0 <= i < counts.len() && (#[trigger] counts[i]).0 == id && is_idle(counts[i].1),
    decreases counts.len(),
{
    if counts.len() > 0 {
        let shorter = counts.drop_last();
        let last = counts.last();
        let before = idle_ids(shorter);
        let after = idle_ids(counts);
        assert(counted_ids(shorter) =~= counted_ids(counts).drop_last());
        assert forall|i: int, j: int|
            0 <= i < j < counted_ids(shorter).len() implies counted_ids(shorter)[i] != counted_ids(
            shorter,
        )[j] by {
            assert(counted_ids(counts)[i] != counted_ids(counts)[j]);
        }
        lemma_idle_ids(shorter);
        assert(!before.contains(last.0)) by {
            if before.contains(last.0) {
                let i = choose|i: int|
                    0 <= i < shorter.len() && (#[trigger] shorter[i]).0 == last.0 && is_idle(
                        shorter[i].1,
                    );
                assert(counted_ids(counts)[i] == counted_ids(counts)[counts.len() - 1]);
            }
        }
        assert forall|id: Seq<char>| #[trigger] after.contains(id) <==> exists|i: int|
            0 <= i < counts.len() && (#[trigger] counts[i]).0 == id && is_idle(counts[i].1) by {
            if after.contains(id) {
                let j = choose|j: int| 0 <= j < after.len() && after[j] == id;
                if j < before.len() {
                    assert(before[j] == id);
                    assert(before.contains(id));
                    let i = choose|i: int|
                        0 <= i < shorter.len() && (#[trigger] shorter[i]).0 == id && is_idle(
                            shorter[i].1,
                        );
                    assert(counts[i] == shorter[i]);
                } else {
                    assert(counts[counts.len() - 1].0 == id);
                }
            }
            if exists|i: int|
                0 <= i < counts.len() && (#[trigger] counts[i]).0 == id && is_idle(counts[i].1) {
                let i = choose|i: int|
                    0 <= i < counts.len() && (#[trigger] counts[i]).0 == id && is_idle(counts[i].1);
                if i < shorter.len() {
                    assert(shorter[i] == counts[i]);
                    assert(before.contains(id));
                    let j = choose|j: int| 0 <= j < before.len() && before[j] == id;
                    assert(after[j] == id);
                } else {
                    assert(after[before.len() as int] == id);
                }
            }
        }
    }
}

/// What a collection found of one blob that has an entry. It keeps the entry where its last count
/// found a user besides the manager, and drops it where both counts found none.
pub proof fn lemma_collects<B, P, W, H: Pointer>(
    mgr: MgrView<B, P, W, H>,
    counts: Seq<(Seq<char>, usize)>,
    users: Seq<Option<usize>>,
    after: MgrView<B, P, W, H>,
    id: Seq<char>,
)
    requires
        mgr.collects(counts, users, after),
        mgr.blobs.contains_key(id),
    ensures
        mgr.only_drops(after),
        counted(mgr.blobs[id], last_count(counts, users, id)),
        last_count(counts, users, id) >= 1,
        after.blobs.contains_key(id) <==> is_used(Some(last_count(counts, users, id))),
{
    let ids = idle_ids(counts);
    lemma_idle_ids(counts);
    lemma_reclaim_all(mgr, ids, users);
    assert(counted_ids(counts).contains(id));
    let k = counted_ids(counts).index_of(id);
    assert(counts[k].0 == id);
    if ids.contains(id) {
        let t = ids.index_of(id);
        assert(users[t] is Some);
        assert(spared(ids, users, id) <==> is_used(users[t]));
        let j = choose|j: int|
            0 <= j < counts.len() && (#[trigger] counts[j]).0 == id && is_idle(counts[j].1);
        assert(counted_ids(counts)[j] == counted_ids(counts)[k]);
    } else {
        assert(spared(ids, users, id));
        assert(!is_idle(counts[k].1));
    }
}

/// A collection only drops entries. Each that it drops was counted and found idle, and each that
/// it keeps was counted and found in use.
pub proof fn lemma_collected<B, P, W, H: Pointer>(
    mgr: MgrView<B, P, W, H>,
    after: MgrView<B, P, W, H>,
)
    requires
        mgr.collected(after),
    ensures
        mgr.only_drops(after),
        forall|id: Seq<char>| #[trigger]
            mgr.blobs.contains_key(id) && !after.blobs.contains_key(id) ==> seen_idle(
                mgr.blobs[id],
            ),
        forall|id: Seq<char>| #[trigger]
            after.blobs.contains_key(id) ==> seen_used(after.blobs[id]),
{
    let (counts, users) = choose|counts: Seq<(Seq<char>, usize)>, users: Seq<Option<usize>>|
        #[trigger] mgr.collects(counts, users, after);
    lemma_reclaim_all(mgr, idle_ids(counts), users);
    assert forall|id: Seq<char>| #[trigger]
        mgr.blobs.contains_key(id) && !after.blobs.contains_key(id) implies seen_idle(
        mgr.blobs[id],
    ) by {
        lemma_collects(mgr, counts, users, after, id);
    }
    assert forall|id: Seq<char>| #[trigger] after.blobs.contains_key(id) implies seen_used(
        after.blobs[id],
    ) by {
        lemma_collects(mgr, counts, users, after, id);
    }
}

} // verus!
