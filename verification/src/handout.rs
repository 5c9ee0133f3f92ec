//! How users come by pointers to entries.
//!
//! The manager is written for any kind of pointer, and making one takes something that it has only
//! once: a request for a blob, which is used up, or a created entry, which is moved. So it makes no
//! pointer but the one that it hands out and the one that it keeps.

use crate::model::Registered;
use crate::table::{BlobTable, Pointer};
use std::sync::Arc;
use vstd::prelude::*;

verus! {

/// A pointer that can be shared with a user.
pub trait Share: Sized {
    /// One more pointer to the entry.
    fn share(&self) -> (other: Self)
        ensures
            other == *self,
    ;
}

/// A pointer that can be made of a newly created entry.
pub trait Issue<E>: Pointer {
    /// The pointer to an entry under a stamp.
    spec fn issued(entry: E, stamp: nat) -> Self;

    /// A pointer tells the stamp that it was made under.
    proof fn issued_stamp(entry: E, stamp: nat)
        ensures
            Self::issued(entry, stamp).stamp() == stamp,
    ;

    /// Moves an entry behind a pointer, and gives two: one to keep and one to hand out.
    fn issue(entry: E, stamp: Ghost<nat>) -> (pointers: (Self, Self))
        ensures
            pointers.0 == Self::issued(entry, stamp@),
            pointers.1 == Self::issued(entry, stamp@),
    ;
}

impl<E> Share for Arc<Registered<E>> {
    fn share(&self) -> (other: Arc<Registered<E>>) {
        self.clone()
    }
}

impl<E> Issue<E> for Arc<Registered<E>> {
    open spec fn issued(entry: E, stamp: nat) -> Arc<Registered<E>> {
        Arc::new(Registered { entry, stamp: Ghost(stamp) })
    }

    proof fn issued_stamp(entry: E, stamp: nat) {
    }

    fn issue(entry: E, stamp: Ghost<nat>) -> (pointers: (Arc<Registered<E>>, Arc<Registered<E>>)) {
        let kept: Arc<Registered<E>> = Arc::new(Registered { entry, stamp });
        (kept.clone(), kept)
    }
}

/// Something that says which blob is meant.
pub trait BlobRef: Sized {
    /// The id of the blob.
    spec fn id(&self) -> Seq<char>;
}

/// Something that a blob's entry can be found by.
pub trait Lookup: BlobRef {
    /// The entry of the blob, if it has one.
    fn find<'t, H>(&self, table: &'t BlobTable<H>) -> (found: Option<&'t H>)
        ensures
            match found {
                Some(entry) => table@.contains_key(self.id()) && *entry == table@[self.id()],
                None => !table@.contains_key(self.id()),
            },
    ;
}

/// Something that tells the id of a blob.
pub trait Name: BlobRef {
    /// The id of the blob.
    fn name(&self) -> (name: &str)
        ensures
            name@ == self.id(),
    ;
}

/// A request for one pointer to a blob's entry.
pub trait Request<H>: BlobRef {
    /// Uses the request up for a pointer to the entry. Where the blob has none, the request is
    /// given back.
    fn take(self, table: &BlobTable<H>) -> (taken: Result<H, Self>)
        ensures
            match taken {
                Ok(entry) => table@.contains_key(self.id()) && entry == table@[self.id()],
                Err(request) => !table@.contains_key(self.id()) && request == self,
            },
    ;
}

impl<R: Lookup, H: Share> Request<H> for R {
    fn take(self, table: &BlobTable<H>) -> (taken: Result<H, R>) {
        match self.find(table) {
            Some(entry) => Ok(entry.share()),
            None => Err(self),
        }
    }
}

impl<'a> BlobRef for &'a str {
    open spec fn id(&self) -> Seq<char> {
        (**self)@
    }
}

impl<'a> Name for &'a str {
    fn name(&self) -> (name: &str) {
        *self
    }
}

impl<'a> BlobRef for &'a String {
    open spec fn id(&self) -> Seq<char> {
        (**self)@
    }
}

impl<'a> Name for &'a String {
    fn name(&self) -> (name: &str) {
        self.as_str()
    }
}

} // verus!
