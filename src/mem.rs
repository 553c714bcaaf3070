use vstd::prelude::*;
use crate::block::{bytes_equal, copy_bytes, Block, Cid};
use crate::error::Error;
use crate::repo::RepoTypes;
use crate::store::{BlockStore, Column, DataStore};
use vstd::slice::slice_to_vec;

verus! {

/// A repository kept wholly in memory.
#[derive(Clone, Copy, Debug)]
pub struct MemTypes;

impl RepoTypes for MemTypes {
    type TBlockStore = MemBlockStore;
    type TDataStore = MemDataStore;
}

/// A block store held in memory: a list of identifier and payload pairs,
/// each identifier at most once.
pub struct MemBlockStore {
    path: String,
    entries: Vec<(Vec<u8>, Vec<u8>)>,
    model: Ghost<Map<Seq<u8>, Seq<u8>>>,
}

impl MemBlockStore {
    closed spec fn key_at(&self, i: int) -> Seq<u8> {
        self.entries@[i].0@
    }

    closed spec fn value_at(&self, i: int) -> Seq<u8> {
        self.entries@[i].1@
    }

    closed spec fn well_formed(&self) -> bool {
        &&& forall|i: int, j: int|
            0 <= i < self.entries@.len() && 0 <= j < self.entries@.len() && i != j
                ==> #[trigger] self.key_at(i) != #[trigger] self.key_at(j)
        &&& forall|i: int|
            0 <= i < self.entries@.len() ==> self.model@.contains_key(#[trigger] self.key_at(i))
                && self.model@[self.key_at(i)] == self.value_at(i)
        &&& forall|k: Seq<u8>|
            #[trigger] self.model@.contains_key(k) ==> exists|i: int|
                0 <= i < self.entries@.len() && #[trigger] self.key_at(i) == k
    }

    /// The position of an identifier, if it is held.
    fn find(&self, key: &Vec<u8>) -> (r: Option<usize>)
        requires
            self.well_formed(),
        ensures
            match r {
                Some(i) => i < self.entries@.len() && self.key_at(i as int) == key@,
                None => !self.model@.contains_key(key@),
            },
    {
        let mut i: usize = 0;
        while i < self.entries.len()
            invariant
                i <= self.entries@.len(),
                forall|j: int| 0 <= j < i ==> #[trigger] self.key_at(j) != key@,
            decreases self.entries@.len() - i,
        {
            if bytes_equal(&self.entries[i].0, key) {
                return Some(i);
            }
            i = i + 1;
        }
        None
    }
}

impl BlockStore for MemBlockStore {
    closed spec fn blocks(&self) -> Map<Seq<u8>, Seq<u8>> {
        self.model@
    }

    closed spec fn inv(&self) -> bool {
        self.well_formed()
    }

    closed spec fn location(&self) -> Seq<char> {
        self.path@
    }

    fn new(path: String) -> (r: MemBlockStore) {
        MemBlockStore { path, entries: Vec::new(), model: Ghost(Map::empty()) }
    }

    fn init(&mut self) -> (r: Result<(), Error>) {
        Ok(())
    }

    fn open(&mut self) -> (r: Result<(), Error>) {
        Ok(())
    }

    fn contains(&self, cid: &Cid) -> (r: Result<bool, Error>) {
        Ok(self.find(cid.as_bytes()).is_some())
    }

    fn get(&self, cid: &Cid) -> (r: Result<Option<Block>, Error>) {
        match self.find(cid.as_bytes()) {
            Some(i) => {
                let data = copy_bytes(&self.entries[i].1);
                Ok(Some(Block::new(data, cid.duplicate())))
            },
            None => Ok(None),
        }
    }

    fn put(&mut self, block: Block) -> (r: Result<Cid, Error>) {
        let ghost b = block@;
        let (cid, data) = block.into_parts();
        let key = copy_bytes(cid.as_bytes());
        match self.find(&key) {
            Some(i) => {
                self.entries.set(i, (key, data));
                proof {
                    self.model@ = self.model@.insert(b.cid, b.data);
                    assert(self.key_at(i as int) == b.cid);
                    assert(forall|j: int| 0 <= j < self.entries@.len() && j != i ==> #[trigger] self.key_at(j) == old(self).key_at(j));
                    assert(forall|j: int| 0 <= j < self.entries@.len() && j != i ==> #[trigger] self.value_at(j) == old(self).value_at(j));
                    assert(forall|j: int| 0 <= j < self.entries@.len() ==> #[trigger] self.key_at(j) == old(self).key_at(j));
                    assert forall|k: Seq<u8>| #[trigger] self.model@.contains_key(k) implies exists|j: int|
                        0 <= j < self.entries@.len() && #[trigger] self.key_at(j) == k by {
                        if k == b.cid {
                            assert(self.key_at(i as int) == k);
                        } else {
                            assert(old(self).model@.contains_key(k));
                            let j = choose|j: int| 0 <= j < old(self).entries@.len() && #[trigger] old(self).key_at(j) == k;
                            assert(self.key_at(j) == k);
                        }
                    }
                }
            },
            None => {
                self.entries.push((key, data));
                proof {
                    self.model@ = self.model@.insert(b.cid, b.data);
                    let n = old(self).entries@.len() as int;
                    assert(self.key_at(n) == b.cid);
                    assert forall|x: int, y: int|
                        0 <= x < self.entries@.len() && 0 <= y < self.entries@.len() && x != y
                            implies #[trigger] self.key_at(x) != #[trigger] self.key_at(y) by {
                        if x < n {
                            assert(self.key_at(x) == old(self).key_at(x));
                            assert(old(self).model@.contains_key(old(self).key_at(x)));
                        }
                        if y < n {
                            assert(self.key_at(y) == old(self).key_at(y));
                            assert(old(self).model@.contains_key(old(self).key_at(y)));
                        }
                    }
                    assert forall|i: int|
                        0 <= i < self.entries@.len() implies self.model@.contains_key(#[trigger] self.key_at(i))
                            && self.model@[self.key_at(i)] == self.value_at(i) by {
                        if i < n {
                            assert(self.key_at(i) == old(self).key_at(i));
                            assert(old(self).model@.contains_key(old(self).key_at(i)));
                        }
                    }
                    assert forall|k: Seq<u8>| #[trigger] self.model@.contains_key(k) implies exists|j: int|
                        0 <= j < self.entries@.len() && #[trigger] self.key_at(j) == k by {
                        if k == b.cid {
                            assert(self.key_at(n) == k);
                        } else {
                            assert(old(self).model@.contains_key(k));
                            let j = choose|j: int| 0 <= j < old(self).entries@.len() && #[trigger] old(self).key_at(j) == k;
                            assert(self.key_at(j) == k);
                        }
                    }
                }
            },
        }
        Ok(cid)
    }

    fn remove(&mut self, cid: &Cid) -> (r: Result<(), Error>) {
        match self.find(cid.as_bytes()) {
            Some(i) => {
                self.entries.remove(i);
                proof {
                    self.model@ = self.model@.remove(cid@);
                    assert forall|a: int, b: int|
                        0 <= a < self.entries@.len() && 0 <= b < self.entries@.len() && a != b
                            implies #[trigger] self.key_at(a) != #[trigger] self.key_at(b) by {
                        let oa = if a < i { a } else { a + 1 };
                        let ob = if b < i { b } else { b + 1 };
                        assert(self.key_at(a) == old(self).key_at(oa));
                        assert(self.key_at(b) == old(self).key_at(ob));
                    }
                    assert forall|a: int|
                        0 <= a < self.entries@.len() implies self.model@.contains_key(#[trigger] self.key_at(a))
                            && self.model@[self.key_at(a)] == self.value_at(a) by {
                        let oa = if a < i { a } else { a + 1 };
                        assert(self.key_at(a) == old(self).key_at(oa));
                        assert(self.value_at(a) == old(self).value_at(oa));
                        assert(old(self).key_at(oa) != old(self).key_at(i as int));
                    }
                    assert forall|k: Seq<u8>| #[trigger] self.model@.contains_key(k) implies exists|j: int|
                        0 <= j < self.entries@.len() && #[trigger] self.key_at(j) == k by {
                        let j = choose|j: int| 0 <= j < old(self).entries@.len() && #[trigger] old(self).key_at(j) == k;
                        assert(j != i);
                        let nj = if j < i { j } else { j - 1 };
                        assert(self.key_at(nj) == k);
                    }
                }
            },
            None => {
                assert(self.model@.remove(cid@) =~= self.model@);
            },
        }
        Ok(())
    }
}

/// A data store held in memory: a list of column, key and value triples,
/// each column and key at most once.
pub struct MemDataStore {
    path: String,
    entries: Vec<(Column, Vec<u8>, Vec<u8>)>,
    model: Ghost<Map<(Column, Seq<u8>), Seq<u8>>>,
}

impl MemDataStore {
    closed spec fn key_at(&self, i: int) -> (Column, Seq<u8>) {
        (self.entries@[i].0, self.entries@[i].1@)
    }

    closed spec fn value_at(&self, i: int) -> Seq<u8> {
        self.entries@[i].2@
    }

    closed spec fn well_formed(&self) -> bool {
        &&& forall|i: int, j: int|
            0 <= i < self.entries@.len() && 0 <= j < self.entries@.len() && i != j
                ==> #[trigger] self.key_at(i) != #[trigger] self.key_at(j)
        &&& forall|i: int|
            0 <= i < self.entries@.len() ==> self.model@.contains_key(#[trigger] self.key_at(i))
                && self.model@[self.key_at(i)] == self.value_at(i)
        &&& forall|k: (Column, Seq<u8>)|
            #[trigger] self.model@.contains_key(k) ==> exists|i: int|
                0 <= i < self.entries@.len() && #[trigger] self.key_at(i) == k
    }

    /// The position of a column and key, if they are held.
    fn find(&self, col: Column, key: &Vec<u8>) -> (r: Option<usize>)
        requires
            self.well_formed(),
        ensures
            match r {
                Some(i) => i < self.entries@.len() && self.key_at(i as int) == (col, key@),
                None => !self.model@.contains_key((col, key@)),
            },
    {
        let mut i: usize = 0;
        while i < self.entries.len()
            invariant
                i <= self.entries@.len(),
                forall|j: int| 0 <= j < i ==> #[trigger] self.key_at(j) != (col, key@),
            decreases self.entries@.len() - i,
        {
            if self.entries[i].0 == col && bytes_equal(&self.entries[i].1, key) {
                return Some(i);
            }
            i = i + 1;
        }
        None
    }
}

impl DataStore for MemDataStore {
    closed spec fn records(&self) -> Map<(Column, Seq<u8>), Seq<u8>> {
        self.model@
    }

    closed spec fn inv(&self) -> bool {
        self.well_formed()
    }

    closed spec fn location(&self) -> Seq<char> {
        self.path@
    }

    fn new(path: String) -> (r: MemDataStore) {
        MemDataStore { path, entries: Vec::new(), model: Ghost(Map::empty()) }
    }

    fn init(&mut self) -> (r: Result<(), Error>) {
        Ok(())
    }

    fn open(&mut self) -> (r: Result<(), Error>) {
        Ok(())
    }

    fn contains(&self, col: Column, key: &[u8]) -> (r: Result<bool, Error>) {
        let key = slice_to_vec(key);
        Ok(self.find(col, &key).is_some())
    }

    fn get(&self, col: Column, key: &[u8]) -> (r: Result<Option<Vec<u8>>, Error>) {
        let key = slice_to_vec(key);
        match self.find(col, &key) {
            Some(i) => Ok(Some(copy_bytes(&self.entries[i].2))),
            None => Ok(None),
        }
    }

    fn put(&mut self, col: Column, key: &[u8], value: &[u8]) -> (r: Result<(), Error>) {
        let key = slice_to_vec(key);
        let data = slice_to_vec(value);
        let ghost k0 = (col, key@);
        match self.find(col, &key) {
            Some(i) => {
                self.entries.set(i, (col, key, data));
                proof {
                    self.model@ = self.model@.insert(k0, value@);
                    assert(self.key_at(i as int) == k0);
                    assert(forall|j: int| 0 <= j < self.entries@.len() && j != i ==> #[trigger] self.value_at(j) == old(self).value_at(j));
                    assert(forall|j: int| 0 <= j < self.entries@.len() ==> #[trigger] self.key_at(j) == old(self).key_at(j));
                    assert forall|k: (Column, Seq<u8>)| #[trigger] self.model@.contains_key(k) implies exists|j: int|
                        0 <= j < self.entries@.len() && #[trigger] self.key_at(j) == k by {
                        if k == k0 {
                            assert(self.key_at(i as int) == k);
                        } else {
                            assert(old(self).model@.contains_key(k));
                            let j = choose|j: int| 0 <= j < old(self).entries@.len() && #[trigger] old(self).key_at(j) == k;
                            assert(self.key_at(j) == k);
                        }
                    }
                }
            },
            None => {
                self.entries.push((col, key, data));
                proof {
                    self.model@ = self.model@.insert(k0, value@);
                    let n = old(self).entries@.len() as int;
                    assert(self.key_at(n) == k0);
                    assert forall|x: int, y: int|
                        0 <= x < self.entries@.len() && 0 <= y < self.entries@.len() && x != y
                            implies #[trigger] self.key_at(x) != #[trigger] self.key_at(y) by {
                        if x < n {
                            assert(self.key_at(x) == old(self).key_at(x));
                            assert(old(self).model@.contains_key(old(self).key_at(x)));
                        }
                        if y < n {
                            assert(self.key_at(y) == old(self).key_at(y));
                            assert(old(self).model@.contains_key(old(self).key_at(y)));
                        }
                    }
                    assert forall|i: int|
                        0 <= i < self.entries@.len() implies self.model@.contains_key(#[trigger] self.key_at(i))
                            && self.model@[self.key_at(i)] == self.value_at(i) by {
                        if i < n {
                            assert(self.key_at(i) == old(self).key_at(i));
                            assert(old(self).model@.contains_key(old(self).key_at(i)));
                        }
                    }
                    assert forall|k: (Column, Seq<u8>)| #[trigger] self.model@.contains_key(k) implies exists|j: int|
                        0 <= j < self.entries@.len() && #[trigger] self.key_at(j) == k by {
                        if k == k0 {
                            assert(self.key_at(n) == k);
                        } else {
                            assert(old(self).model@.contains_key(k));
                            let j = choose|j: int| 0 <= j < old(self).entries@.len() && #[trigger] old(self).key_at(j) == k;
                            assert(self.key_at(j) == k);
                        }
                    }
                }
            },
        }
        Ok(())
    }

    fn remove(&mut self, col: Column, key: &[u8]) -> (r: Result<(), Error>) {
        let key = slice_to_vec(key);
        let ghost k0 = (col, key@);
        match self.find(col, &key) {
            Some(i) => {
                self.entries.remove(i);
                proof {
                    self.model@ = self.model@.remove(k0);
                    assert forall|a: int, b: int|
                        0 <= a < self.entries@.len() && 0 <= b < self.entries@.len() && a != b
                            implies #[trigger] self.key_at(a) != #[trigger] self.key_at(b) by {
                        let oa = if a < i { a } else { a + 1 };
                        let ob = if b < i { b } else { b + 1 };
                        assert(self.key_at(a) == old(self).key_at(oa));
                        assert(self.key_at(b) == old(self).key_at(ob));
                    }
                    assert forall|a: int|
                        0 <= a < self.entries@.len() implies self.model@.contains_key(#[trigger] self.key_at(a))
                            && self.model@[self.key_at(a)] == self.value_at(a) by {
                        let oa = if a < i { a } else { a + 1 };
                        assert(self.key_at(a) == old(self).key_at(oa));
                        assert(self.value_at(a) == old(self).value_at(oa));
                        assert(old(self).key_at(oa) != old(self).key_at(i as int));
                    }
                    assert forall|k: (Column, Seq<u8>)| #[trigger] self.model@.contains_key(k) implies exists|j: int|
                        0 <= j < self.entries@.len() && #[trigger] self.key_at(j) == k by {
                        let j = choose|j: int| 0 <= j < old(self).entries@.len() && #[trigger] old(self).key_at(j) == k;
                        assert(j != i);
                        let nj = if j < i { j } else { j - 1 };
                        assert(self.key_at(nj) == k);
                    }
                }
            },
            None => {
                assert(self.model@.remove(k0) =~= self.model@);
            },
        }
        Ok(())
    }
}

} // verus!
