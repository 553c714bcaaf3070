use vstd::prelude::*;
use crate::block::{Block, BlockView, Cid};
use crate::error::Error;

verus! {

/// A logical namespace inside the key/value data store, so that records of
/// different kinds that share one store never collide.
#[derive(Clone, Copy, Debug, PartialEq, Eq, Structural)]
pub enum Column {
    Ipns,
}

/// Storage for blocks, keyed by content identifier.
///
/// A store is modelled by `blocks`, a map from an identifier to the payload
/// stored under it. Every operation may fail with a storage error; a failed
/// operation leaves the contents as they were.
pub trait BlockStore: Sized {
    /// The blocks held, from identifier to payload.
    spec fn blocks(&self) -> Map<Seq<u8>, Seq<u8>>;

    /// What the store needs to hold between operations.
    spec fn inv(&self) -> bool;

    /// The location that the store is bound to.
    spec fn location(&self) -> Seq<char>;

    /// Binds a store to a location, without touching it.
    fn new(path: String) -> (r: Self)
        ensures
            r.inv(),
            r.location() == path@,
    ;

    /// Creates the storage structures; doing it again is harmless.
    fn init(&mut self) -> (r: Result<(), Error>)
        requires
            old(self).inv(),
        ensures
            final(self).inv(),
            final(self).location() == old(self).location(),
            final(self).blocks() == old(self).blocks(),
            r matches Err(e) ==> e is Storage,
    ;

    /// Prepares the store for use.
    fn open(&mut self) -> (r: Result<(), Error>)
        requires
            old(self).inv(),
        ensures
            final(self).inv(),
            final(self).location() == old(self).location(),
            final(self).blocks() == old(self).blocks(),
            r matches Err(e) ==> e is Storage,
    ;

    /// Tells whether a block is held, without reading it.
    fn contains(&self, cid: &Cid) -> (r: Result<bool, Error>)
        requires
            self.inv(),
        ensures
            r matches Ok(b) ==> b == self.blocks().contains_key(cid@),
            r matches Err(e) ==> e is Storage,
    ;

    /// Reads a block; an absent one is `None`, not an error.
    fn get(&self, cid: &Cid) -> (r: Result<Option<Block>, Error>)
        requires
            self.inv(),
        ensures
            r matches Ok(o) ==> o is Some == self.blocks().contains_key(cid@),
            r matches Ok(Some(b)) ==> b@ == (BlockView { cid: cid@, data: self.blocks()[cid@] }),
            r matches Err(e) ==> e is Storage,
    ;

    /// Stores a block and hands back its identifier; storing it again
    /// changes nothing.
    fn put(&mut self, block: Block) -> (r: Result<Cid, Error>)
        requires
            old(self).inv(),
        ensures
            final(self).inv(),
            final(self).location() == old(self).location(),
            r matches Ok(c) ==> c@ == block@.cid && final(self).blocks() == old(self).blocks().insert(
                block@.cid,
                block@.data,
            ),
            r matches Err(e) ==> e is Storage && final(self).blocks() == old(self).blocks(),
    ;

    /// Deletes a block; deleting an absent one is no error.
    fn remove(&mut self, cid: &Cid) -> (r: Result<(), Error>)
        requires
            old(self).inv(),
        ensures
            final(self).inv(),
            final(self).location() == old(self).location(),
            r is Ok ==> final(self).blocks() == old(self).blocks().remove(cid@),
            r matches Err(e) ==> e is Storage && final(self).blocks() == old(self).blocks(),
    ;
}

/// Storage for records, keyed by a column and raw key bytes.
///
/// A store is modelled by `records`, a map from a column and a key to the
/// value stored under them. A failed operation leaves the contents as they
/// were.
pub trait DataStore: Sized {
    /// The records held, from column and key to value.
    spec fn records(&self) -> Map<(Column, Seq<u8>), Seq<u8>>;

    /// What the store needs to hold between operations.
    spec fn inv(&self) -> bool;

    /// The location that the store is bound to.
    spec fn location(&self) -> Seq<char>;

    /// Binds a store to a location, without touching it.
    fn new(path: String) -> (r: Self)
        ensures
            r.inv(),
            r.location() == path@,
    ;

    /// Creates the storage structures; doing it again is harmless.
    fn init(&mut self) -> (r: Result<(), Error>)
        requires
            old(self).inv(),
        ensures
            final(self).inv(),
            final(self).location() == old(self).location(),
            final(self).records() == old(self).records(),
            r matches Err(e) ==> e is Storage,
    ;

    /// Prepares the store for use.
    fn open(&mut self) -> (r: Result<(), Error>)
        requires
            old(self).inv(),
        ensures
            final(self).inv(),
            final(self).location() == old(self).location(),
            final(self).records() == old(self).records(),
            r matches Err(e) ==> e is Storage,
    ;

    /// Tells whether a record is held.
    fn contains(&self, col: Column, key: &[u8]) -> (r: Result<bool, Error>)
        requires
            self.inv(),
        ensures
            r matches Ok(b) ==> b == self.records().contains_key((col, key@)),
            r matches Err(e) ==> e is Storage,
    ;

    /// Reads a record; an absent one is `None`, not an error.
    fn get(&self, col: Column, key: &[u8]) -> (r: Result<Option<Vec<u8>>, Error>)
        requires
            self.inv(),
        ensures
            r matches Ok(o) ==> o is Some == self.records().contains_key((col, key@)),
            r matches Ok(Some(v)) ==> v@ == self.records()[(col, key@)],
            r matches Err(e) ==> e is Storage,
    ;

    /// Stores a record, replacing the one under the same column and key.
    fn put(&mut self, col: Column, key: &[u8], value: &[u8]) -> (r: Result<(), Error>)
        requires
            old(self).inv(),
        ensures
            final(self).inv(),
            final(self).location() == old(self).location(),
            r is Ok ==> final(self).records() == old(self).records().insert((col, key@), value@),
            r matches Err(e) ==> e is Storage && final(self).records() == old(self).records(),
    ;

    /// Deletes a record; deleting an absent one is no error.
    fn remove(&mut self, col: Column, key: &[u8]) -> (r: Result<(), Error>)
        requires
            old(self).inv(),
        ensures
            final(self).inv(),
            final(self).location() == old(self).location(),
            r is Ok ==> final(self).records() == old(self).records().remove((col, key@)),
            r matches Err(e) ==> e is Storage && final(self).records() == old(self).records(),
    ;
}

} // verus!
