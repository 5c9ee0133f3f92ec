//! The table of cache entries, by blob id.

use crate::handout::{BlobRef, Lookup};
use crate::model::Registered;
use std::sync::Arc;
use vstd::hash_map::StringHashMap;
use vstd::prelude::*;

verus! {

/// What a list of ids stands for.
pub open spec fn id_views(ids: Seq<String>) -> Seq<Seq<char>> {
    ids.map_values(|id: String| id@)
}

/// What a list of counted ids stands for.
pub open spec fn count_views(counts: Seq<(String, usize)>) -> Seq<(Seq<char>, usize)> {
    counts.map_values(|count: (String, usize)| (count.0@, count.1))
}

/// The ids that a list of counts speaks of.
pub open spec fn counted_ids(counts: Seq<(Seq<char>, usize)>) -> Seq<Seq<char>> {
    counts.map_values(|count: (Seq<char>, usize)| count.0)
}

/// Whether `counts` holds one count for each id of `ids`, and no other. An entry has at least one
/// user, the table itself.
pub open spec fn counts_users_of(counts: Seq<(Seq<char>, usize)>, ids: Set<Seq<char>>) -> bool {
    &&& counted_ids(counts).no_duplicates()
    &&& forall|id: Seq<char>| #[trigger] counted_ids(counts).contains(id) <==> ids.contains(id)
    &&& forall|i: int| 0 <= i < counts.len() ==> (#[trigger] counts[i]).1 >= 1
}

/// Counts the users of an entry by `Arc::strong_count`. The count takes in the caller's own
/// pointer, so it is at least one; the rest of it depends on what other owners do at that moment,
/// and nothing more is claimed of it.
#[verifier::external_body]
fn strong_count<E>(entry: &Arc<E>) -> (count: usize)
    ensures
        count >= 1,
{
    Arc::strong_count(entry)
}

/// Applies a way of counting to an entry, so that a contract can name where a count came from.
fn count_by<H, F: Fn(&H) -> usize>(f: F, entry: &H) -> (count: usize)
    requires
        call_requires(f, (entry,)),
    ensures
        call_ensures(f, (entry,), count),
{
    f(entry)
}

/// A pointer that keeps an entry alive. What is written for any such pointer can count it, but has
/// no means to make another one: whatever a count comes to there, the library added nothing to it.
pub trait Pointer: Sized {
    /// The stamp of the entry.
    spec fn stamp(&self) -> nat;

    /// Whether `count` is what counting the pointers to the entry came to.
    spec fn counts(&self, count: usize) -> bool;

    /// Counts the pointers to the entry, this one included.
    fn count(&self) -> (count: usize)
        ensures
            count >= 1,
            self.counts(count),
    ;
}

impl<E> Pointer for Arc<Registered<E>> {
    open spec fn stamp(&self) -> nat {
        self.stamp@
    }

    closed spec fn counts(&self, count: usize) -> bool {
        call_ensures(strong_count::<Registered<E>>, (self,), count)
    }

    fn count(&self) -> (count: usize) {
        count_by(strong_count::<Registered<E>>, self)
    }
}

/// Counts the users of an entry again, before it is decided to drop it.
fn recount<H: Pointer>(entry: &H) -> (count: usize)
    ensures
        count >= 1,
        counted(*entry, count),
{
    entry.count()
}

/// Whether `count` is what counting the users of `entry` came to. An entry that is counted more
/// than once can have come to different counts.
pub open spec fn counted<H: Pointer>(entry: H, count: usize) -> bool {
    entry.counts(count)
}

/// Whether `count` is what counting the users of `entry` once more came to, when it was up for
/// reclaim.
pub closed spec fn recounted<H: Pointer>(entry: H, count: usize) -> bool {
    call_ensures(recount::<H>, (&entry,), count)
}

/// A count of an entry is one that `Arc::strong_count` gave of it, and a count that decides about
/// an entry is one that was taken of it once more.
proof fn law_counts_are_taken<E>(entry: Arc<Registered<E>>, count: usize)
    ensures
        counted(entry, count) <==> call_ensures(
            strong_count::<Registered<E>>,
            (&entry,),
            count,
        ),
        recounted(entry, count) <==> call_ensures(
            recount::<Arc<Registered<E>>>,
            (&entry,),
            count,
        ),
{
}

/// A count takes in the pointer that is counted, and one that was taken once more is a count.
pub proof fn law_counts_take_in_the_pointer<E>(entry: Arc<Registered<E>>, count: usize)
    ensures
        counted(entry, count) ==> count >= 1,
        recounted(entry, count) ==> counted(entry, count),
{
}

/// Whether `counts` holds one count for each entry of `blobs`, taken of that entry.
pub open spec fn counts_entries<H: Pointer>(
    counts: Seq<(Seq<char>, usize)>,
    blobs: Map<Seq<char>, H>,
) -> bool {
    &&& counts_users_of(counts, blobs.dom())
    &&& forall|i: int|
        0 <= i < counts.len() ==> counted(blobs[(#[trigger] counts[i]).0], counts[i].1)
}

/// Shared cache entries by blob id, each behind one pointer. The ids are listed beside the map, in
/// the order in which they came, so that they can be walked.
#[verifier::reject_recursive_types(H)]
pub struct BlobTable<H> {
    entries: StringHashMap<H>,
    ids: Vec<String>,
}

impl<H> View for BlobTable<H> {
    type V = Map<Seq<char>, H>;

    closed spec fn view(&self) -> Map<Seq<char>, H> {
        self.entries@
    }
}

impl<H> BlobTable<H> {
    /// The entry that is listed under an id.
    fn entry(&self, id: &str) -> (entry: Option<&H>)
        ensures
            match entry {
                Some(entry) => self@.contains_key(id@) && *entry == self@[id@],
                None => !self@.contains_key(id@),
            },
    {
        self.entries.get(id)
    }
}

impl<'a> Lookup for &'a str {
    fn find<'t, H>(&self, table: &'t BlobTable<H>) -> (found: Option<&'t H>) {
        table.entry(*self)
    }
}

impl<'a> Lookup for &'a String {
    fn find<'t, H>(&self, table: &'t BlobTable<H>) -> (found: Option<&'t H>) {
        table.entry(self.as_str())
    }
}

impl<H: Pointer> BlobTable<H> {
    /// The ids are listed once each, and are those that have an entry.
    pub closed spec fn wf(&self) -> bool {
        &&& id_views(self.ids@).no_duplicates()
        &&& forall|id: Seq<char>| #[trigger]
            id_views(self.ids@).contains(id) <==> self.entries@.contains_key(id)
    }

    /// An empty table.
    pub fn new() -> (table: BlobTable<H>)
        ensures
            table.wf(),
            table@ == Map::<Seq<char>, H>::empty(),
    {
        BlobTable { entries: StringHashMap::new(), ids: Vec::new() }
    }

    /// The entry of a blob.
    pub fn get(&self, id: &str) -> (entry: Option<&H>)
        ensures
            match entry {
                Some(entry) => self@.contains_key(id@) && *entry == self@[id@],
                None => !self@.contains_key(id@),
            },
    {
        self.entry(id)
    }

    /// Counts again how many users the entry of a blob has, the table included. It counts the
    /// table's own pointer, and could not make another.
    pub fn users(&self, id: &str) -> (users: Option<usize>)
        ensures
            users is Some <==> self@.contains_key(id@),
            users matches Some(count) ==> {
                &&& count >= 1
                &&& counted(self@[id@], count)
                &&& recounted(self@[id@], count)
            },
    {
        match self.get(id) {
            Some(entry) => {
                let count: usize = count_by(recount::<H>, entry);
                Some(count)
            },
            None => None,
        }
    }

    /// How many users each entry has, the table included.
    pub fn user_counts(&self) -> (counts: Vec<(String, usize)>)
        requires
            self.wf(),
        ensures
            counts_entries(count_views(counts@), self@),
    {
        let mut counts: Vec<(String, usize)> = Vec::new();
        let mut i: usize = 0;
        while i < self.ids.len()
            invariant
                i <= self.ids.len(),
                self.wf(),
                counts.len() == i,
                forall|j: int| 0 <= j < i ==> (#[trigger] counts@[j]).0@ == self.ids@[j]@,
                forall|j: int| 0 <= j < i ==> (#[trigger] counts@[j]).1 >= 1,
                forall|j: int|
                    0 <= j < i ==> counted(self@[(#[trigger] counts@[j]).0@], counts@[j].1),
            decreases self.ids.len() - i,
        {
            let id: String = self.ids[i].clone();
            proof {
                assert(id_views(self.ids@)[i as int] == id@);
                assert(id_views(self.ids@).contains(id@));
            }
            if let Some(entry) = self.get(id.as_str()) {
                let count: usize = entry.count();
                counts.push((id, count));
            }
            i = i + 1;
        }
        proof {
            assert(counted_ids(count_views(counts@)) =~= id_views(self.ids@));
        }
        counts
    }

    /// Adds the entry of a blob that has none.
    pub fn insert(&mut self, id: &str, entry: H)
        requires
            old(self).wf(),
            !old(self)@.contains_key(id@),
        ensures
            final(self).wf(),
            final(self)@ == old(self)@.insert(id@, entry),
    {
        let key: String = id.to_string();
        let listed: String = id.to_string();
        self.entries.insert(key, entry);
        self.ids.push(listed);
        proof {
            let before = id_views(old(self).ids@);
            let after = id_views(self.ids@);
            assert(after =~= before.push(id@));
            assert(!before.contains(id@));
            assert forall|x: Seq<char>| #[trigger] after.contains(x) <==> self.entries@.contains_key(
                x,
            ) by {
                if before.contains(x) {
                    let i = choose|i: int| 0 <= i < before.len() && before[i] == x;
                    assert(after[i] == x);
                }
                if x == id@ {
                    assert(after[before.len() as int] == x);
                }
                if after.contains(x) && x != id@ {
                    let i = choose|i: int| 0 <= i < after.len() && after[i] == x;
                    assert(before[i] == x);
                }
            }
        }
    }

    /// Drops the entry of a blob, if it has one.
    pub fn remove(&mut self, id: &str)
        requires
            old(self).wf(),
        ensures
            final(self).wf(),
            final(self)@ == old(self)@.remove(id@),
    {
        let wanted: String = id.to_string();
        let mut i: usize = 0;
        while i < self.ids.len() && self.ids[i] != wanted
            invariant
                i <= self.ids.len(),
                wanted@ == id@,
                self.wf(),
                *self == *old(self),
                forall|j: int| 0 <= j < i ==> #[trigger] self.ids@[j]@ != id@,
            decreases self.ids.len() - i,
        {
            i = i + 1;
        }
        let ghost before = id_views(self.ids@);
        if i < self.ids.len() {
            self.ids.remove(i);
        }
        self.entries.remove(id);
        proof {
            let after = id_views(self.ids@);
            if i < before.len() {
                assert(after =~= before.remove(i as int));
                assert(before[i as int] == id@);
                assert forall|x: Seq<char>| #[trigger]
                    after.contains(x) <==> self.entries@.contains_key(x) by {
                    if after.contains(x) {
                        let j = choose|j: int| 0 <= j < after.len() && after[j] == x;
                        let k = if j < i { j } else { j + 1 };
                        assert(before[k] == x);
                        assert(before.contains(x));
                        assert(before[k] != before[i as int]);
                    }
                    if self.entries@.contains_key(x) {
                        assert(before.contains(x));
                        let k = choose|k: int| 0 <= k < before.len() && before[k] == x;
                        let j = if k < i { k } else { k - 1 };
                        assert(after[j] == x);
                    }
                }
            } else {
                assert(after =~= before);
                assert(!before.contains(id@));
                assert(self.entries@ =~= old(self).entries@);
            }
        }
    }
}

} // verus!
