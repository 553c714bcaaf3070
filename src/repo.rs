use vstd::prelude::*;
use vstd::string::*;
use vstd::utf8::*;
use crate::block::{Block, BlockView, Cid};
use crate::error::Error;
use crate::path::{is_path_text, lemma_record_round_trip, record_path, IpfsPath};
use crate::store::{BlockStore, Column, DataStore};

verus! {

/// What an event says, in terms of identifiers.
pub ghost enum EventView {
    Want(Seq<u8>),
    Provide(Seq<u8>),
    Unprovide(Seq<u8>),
}

/// A life-cycle event of the repository.
#[derive(Debug)]
pub enum RepoEvent {
    /// The block is wanted but not held locally.
    WantBlock(Cid),
    /// The block has just become available locally.
    ProvideBlock(Cid),
    /// The block has just been removed locally.
    UnprovideBlock(Cid),
}

impl View for RepoEvent {
    type V = EventView;

    open spec fn view(&self) -> EventView {
        match self {
            RepoEvent::WantBlock(c) => EventView::Want(c@),
            RepoEvent::ProvideBlock(c) => EventView::Provide(c@),
            RepoEvent::UnprovideBlock(c) => EventView::Unprovide(c@),
        }
    }
}

impl Clone for RepoEvent {
    fn clone(&self) -> (r: RepoEvent)
        ensures
            r@ == self@,
    {
        match self {
            RepoEvent::WantBlock(c) => RepoEvent::WantBlock(c.duplicate()),
            RepoEvent::ProvideBlock(c) => RepoEvent::ProvideBlock(c.duplicate()),
            RepoEvent::UnprovideBlock(c) => RepoEvent::UnprovideBlock(c.duplicate()),
        }
    }
}

/// The binary identifier of a peer, as records are keyed by it.
#[derive(Debug)]
pub struct PeerKey {
    bytes: Vec<u8>,
}

impl View for PeerKey {
    type V = Seq<u8>;

    closed spec fn view(&self) -> Seq<u8> {
        self.bytes@
    }
}

impl PeerKey {
    /// Wraps a peer's binary identifier.
    pub fn new(bytes: Vec<u8>) -> (r: PeerKey)
        ensures
            r@ == bytes@,
    {
        PeerKey { bytes }
    }

    /// The peer's binary identifier.
    pub fn as_bytes(&self) -> (r: &[u8])
        ensures
            r@ == self@,
    {
        self.bytes.as_slice()
    }
}

/// The location `name` below `base`: `name` itself under an empty base, and
/// one separator between the two unless the base already ends with one.
pub open spec fn sub_path(base: Seq<char>, name: Seq<char>) -> Seq<char> {
    if base.len() == 0 {
        name
    } else if base.last() == '/' {
        base + name
    } else {
        base + seq!['/'] + name
    }
}

/// Appends a directory name to a base location.
fn join_path(base: &str, name: &str) -> (r: String)
    ensures
        r@ == sub_path(base@, name@),
{
    let n = base.unicode_len();
    if n == 0 {
        return name.to_owned();
    }
    let mut p = base.to_owned();
    if base.get_char(n - 1) != '/' {
        p.append("/");
    }
    p.append(name);
    proof {
        reveal_strlit("/");
    }
    assert(p@ =~= sub_path(base@, name@));
    p
}

/// The kinds of store that a repository is made of.
pub trait RepoTypes {
    type TBlockStore: BlockStore;
    type TDataStore: DataStore;
}

/// Where a repository lives.
#[derive(Debug)]
pub struct RepoOptions {
    path: String,
}

impl View for RepoOptions {
    type V = Seq<char>;

    closed spec fn view(&self) -> Seq<char> {
        self.path@
    }
}

impl RepoOptions {
    /// A repository rooted at `path`.
    pub fn new(path: String) -> (r: RepoOptions)
        ensures
            r@ == path@,
    {
        RepoOptions { path }
    }

    /// The base location.
    pub fn path(&self) -> (r: &str)
        ensures
            r@ == self@,
    {
        self.path.as_str()
    }

    /// Where the block store lives: `blockstore` below the base.
    pub fn block_store_path(&self) -> (r: String)
        ensures
            r@ == sub_path(self@, "blockstore"@),
    {
        join_path(self.path.as_str(), "blockstore")
    }

    /// Where the data store lives: `datastore` below the base.
    pub fn data_store_path(&self) -> (r: String)
        ensures
            r@ == sub_path(self@, "datastore"@),
    {
        join_path(self.path.as_str(), "datastore")
    }
}

/// The blocks after `b` is stored.
pub open spec fn stored(m: Map<Seq<u8>, Seq<u8>>, b: BlockView) -> Map<Seq<u8>, Seq<u8>> {
    m.insert(b.cid, b.data)
}

/// The payload held under `c`, if any.
pub open spec fn lookup(m: Map<Seq<u8>, Seq<u8>>, c: Seq<u8>) -> Option<Seq<u8>> {
    if m.contains_key(c) {
        Some(m[c])
    } else {
        None
    }
}

/// The events that asking for `c` emits: a want, exactly when it is absent.
pub open spec fn request_events(m: Map<Seq<u8>, Seq<u8>>, c: Seq<u8>) -> Seq<EventView> {
    if m.contains_key(c) {
        Seq::empty()
    } else {
        seq![EventView::Want(c)]
    }
}

/// The data-store key of the record of a peer.
pub open spec fn ipns_key(peer: Seq<u8>) -> (Column, Seq<u8>) {
    (Column::Ipns, peer)
}

/// The records after the path `p` is recorded for `peer`.
pub open spec fn recorded(
    m: Map<(Column, Seq<u8>), Seq<u8>>,
    peer: Seq<u8>,
    p: Seq<char>,
) -> Map<(Column, Seq<u8>), Seq<u8>> {
    m.insert(ipns_key(peer), encode_utf8(p))
}

/// What reading the record of `peer` gives: `None` where there is none,
/// else what the record decodes to (`None` where it does not decode).
pub open spec fn ipns_lookup(m: Map<(Column, Seq<u8>), Seq<u8>>, peer: Seq<u8>) -> Option<
    Option<Seq<char>>,
> {
    if m.contains_key(ipns_key(peer)) {
        Some(record_path(m[ipns_key(peer)]))
    } else {
        None
    }
}

/// Once a block is stored, asking for its identifier finds its payload and
/// emits no want.
pub proof fn lemma_put_then_get(m: Map<Seq<u8>, Seq<u8>>, b: BlockView)
    ensures
        lookup(stored(m, b), b.cid) == Some(b.data),
        request_events(stored(m, b), b.cid) == Seq::<EventView>::empty(),
{
}

/// Asking for an identifier that is not held emits exactly one want, for
/// that identifier.
pub proof fn lemma_get_absent_wants(m: Map<Seq<u8>, Seq<u8>>, c: Seq<u8>)
    requires
        !m.contains_key(c),
    ensures
        lookup(m, c) is None,
        request_events(m, c) == seq![EventView::Want(c)],
{
}

/// Once a block is removed, asking for it again emits a want for it.
pub proof fn lemma_remove_then_get(m: Map<Seq<u8>, Seq<u8>>, c: Seq<u8>)
    ensures
        lookup(m.remove(c), c) is None,
        request_events(m.remove(c), c) == seq![EventView::Want(c)],
{
}

/// Storing a block twice leaves the same blocks as storing it once.
pub proof fn lemma_put_idempotent(m: Map<Seq<u8>, Seq<u8>>, b: BlockView)
    ensures
        stored(stored(m, b), b) == stored(m, b),
{
    assert(stored(stored(m, b), b) =~= stored(m, b));
}

/// Blocks with distinct identifiers can be stored in either order, and
/// both can be retrieved afterwards.
pub proof fn lemma_distinct_puts(m: Map<Seq<u8>, Seq<u8>>, b1: BlockView, b2: BlockView)
    requires
        b1.cid != b2.cid,
    ensures
        lookup(stored(stored(m, b1), b2), b1.cid) == Some(b1.data),
        lookup(stored(stored(m, b1), b2), b2.cid) == Some(b2.data),
        stored(stored(m, b1), b2) == stored(stored(m, b2), b1),
{
    assert(stored(stored(m, b1), b2) =~= stored(stored(m, b2), b1));
}

/// Recording a path for a peer and reading the record back gives that
/// path.
pub proof fn lemma_ipns_round_trip(m: Map<(Column, Seq<u8>), Seq<u8>>, peer: Seq<u8>, p: Seq<char>)
    requires
        is_path_text(p),
    ensures
        ipns_lookup(recorded(m, peer, p), peer) == Some(Some(p)),
{
    lemma_record_round_trip(p);
}

/// Once a peer's record is removed, reading it gives nothing.
pub proof fn lemma_ipns_removed(m: Map<(Column, Seq<u8>), Seq<u8>>, peer: Seq<u8>)
    ensures
        ipns_lookup(m.remove(ipns_key(peer)), peer) is None,
{
}

/// Combines the outcomes of two steps that both have to succeed: the first
/// failure wins.
pub fn join_results(r1: Result<(), Error>, r2: Result<(), Error>) -> (r: Result<(), Error>)
    ensures
        r is Ok <==> (r1 is Ok && r2 is Ok),
        r1 is Err ==> r == r1,
        r1 is Ok ==> r == r2,
{
    match r1 {
        Err(e) => Err(e),
        Ok(()) => r2,
    }
}

/// A repository: one block store, one data store, and the events that its
/// block operations have emitted and nobody has taken yet.
pub struct Repo<T: RepoTypes> {
    block_store: T::TBlockStore,
    data_store: T::TDataStore,
    events: Vec<RepoEvent>,
}

/// Makes a repository at the location that `options` gives.
pub fn create_repo<T: RepoTypes>(options: RepoOptions) -> (r: Repo<T>)
    ensures
        r.wf(),
        r.block_store_location() == sub_path(options@, "blockstore"@),
        r.data_store_location() == sub_path(options@, "datastore"@),
        r.events() == Seq::<EventView>::empty(),
{
    Repo::new(options)
}

impl<T: RepoTypes> Repo<T> {
    /// Both stores are in working order.
    pub closed spec fn wf(&self) -> bool {
        self.block_store.inv() && self.data_store.inv()
    }

    /// The blocks held, from identifier to payload.
    pub closed spec fn blocks(&self) -> Map<Seq<u8>, Seq<u8>> {
        self.block_store.blocks()
    }

    /// The records held, from column and key to value.
    pub closed spec fn records(&self) -> Map<(Column, Seq<u8>), Seq<u8>> {
        self.data_store.records()
    }

    /// Where the block store is bound.
    pub closed spec fn block_store_location(&self) -> Seq<char> {
        self.block_store.location()
    }

    /// Where the data store is bound.
    pub closed spec fn data_store_location(&self) -> Seq<char> {
        self.data_store.location()
    }

    /// The events emitted and not yet taken, oldest first.
    pub closed spec fn events(&self) -> Seq<EventView> {
        self.events@.map_values(|e: RepoEvent| e@)
    }

    /// Binds a block store to `blockstore` and a data store to `datastore`
    /// below the base location; no event is pending.
    pub fn new(options: RepoOptions) -> (r: Repo<T>)
        ensures
            r.wf(),
            r.block_store_location() == sub_path(options@, "blockstore"@),
            r.data_store_location() == sub_path(options@, "datastore"@),
            r.events() == Seq::<EventView>::empty(),
    {
        let block_store = T::TBlockStore::new(options.block_store_path());
        let data_store = T::TDataStore::new(options.data_store_path());
        let r = Repo { block_store, data_store, events: Vec::new() };
        assert(r.events() =~= Seq::<EventView>::empty());
        r
    }

    fn emit(&mut self, e: RepoEvent)
        ensures
            final(self).events() == old(self).events().push(e@),
            final(self).block_store == old(self).block_store,
            final(self).data_store == old(self).data_store,
    {
        self.events.push(e);
        assert(self.events() =~= old(self).events().push(e@));
    }

    /// Hands over the pending events, oldest first, and forgets them.
    pub fn take_events(&mut self) -> (r: Vec<RepoEvent>)
        requires
            old(self).wf(),
        ensures
            final(self).wf(),
            r@.map_values(|e: RepoEvent| e@) == old(self).events(),
            final(self).events() == Seq::<EventView>::empty(),
            final(self).blocks() == old(self).blocks(),
            final(self).records() == old(self).records(),
    {
        let mut r: Vec<RepoEvent> = Vec::new();
        std::mem::swap(&mut r, &mut self.events);
        assert(self.events() =~= Seq::<EventView>::empty());
        r
    }

    /// Creates both stores' structures; fails when either store fails.
    pub fn init(&mut self) -> (r: Result<(), Error>)
        requires
            old(self).wf(),
        ensures
            final(self).wf(),
            final(self).blocks() == old(self).blocks(),
            final(self).records() == old(self).records(),
            final(self).events() == old(self).events(),
            r matches Err(e) ==> e is Storage,
    {
        let r1 = self.block_store.init();
        let r2 = self.data_store.init();
        join_results(r1, r2)
    }

    /// Prepares both stores for use; fails when either store fails.
    pub fn open(&mut self) -> (r: Result<(), Error>)
        requires
            old(self).wf(),
        ensures
            final(self).wf(),
            final(self).blocks() == old(self).blocks(),
            final(self).records() == old(self).records(),
            final(self).events() == old(self).events(),
            r matches Err(e) ==> e is Storage,
    {
        let r1 = self.block_store.open();
        let r2 = self.data_store.open();
        join_results(r1, r2)
    }

    /// Puts a block into the block store and reports it as provided.
    pub fn put_block(&mut self, block: Block) -> (r: Result<Cid, Error>)
        requires
            old(self).wf(),
        ensures
            final(self).wf(),
            final(self).records() == old(self).records(),
            match r {
                Ok(c) => {
                    &&& c@ == block@.cid
                    &&& final(self).blocks() == stored(old(self).blocks(), block@)
                    &&& final(self).events() == old(self).events().push(EventView::Provide(c@))
                },
                Err(e) => {
                    &&& e is Storage
                    &&& final(self).blocks() == old(self).blocks()
                    &&& final(self).events() == old(self).events()
                },
            },
    {
        match self.block_store.put(block) {
            Ok(cid) => {
                self.emit(RepoEvent::ProvideBlock(cid.duplicate()));
                Ok(cid)
            },
            Err(e) => Err(e),
        }
    }

    /// Retrieves a block. A block held locally comes back at once; for one
    /// that is not, a want is emitted and `None` tells the caller to wait
    /// for it with `poll_block`.
    pub fn get_block(&mut self, cid: &Cid) -> (r: Result<Option<Block>, Error>)
        requires
            old(self).wf(),
        ensures
            final(self).wf(),
            final(self).blocks() == old(self).blocks(),
            final(self).records() == old(self).records(),
            r matches Ok(o) ==> {
                &&& final(self).events() == old(self).events() + request_events(
                    old(self).blocks(),
                    cid@,
                )
                &&& o is None ==> lookup(old(self).blocks(), cid@) is None
                &&& o matches Some(b) ==> b@.cid == cid@ && lookup(old(self).blocks(), cid@) == Some(
                    b@.data,
                )
            },
            r matches Err(e) ==> e is Storage && final(self).events() == old(self).events(),
    {
        match self.block_store.contains(cid) {
            Err(e) => Err(e),
            Ok(false) => {
                self.emit(RepoEvent::WantBlock(cid.duplicate()));
                assert(self.events() =~= old(self).events() + request_events(old(self).blocks(), cid@));
                Ok(None)
            },
            Ok(true) => {
                assert(old(self).events() + request_events(old(self).blocks(), cid@) =~= old(self).events());
                self.block_store.get(cid)
            },
        }
    }

    /// Checks once whether a block has become available, and reads it if so.
    pub fn poll_block(&self, cid: &Cid) -> (r: Result<Option<Block>, Error>)
        requires
            self.wf(),
        ensures
            r matches Ok(None) ==> lookup(self.blocks(), cid@) is None,
            r matches Ok(Some(b)) ==> b@.cid == cid@ && lookup(self.blocks(), cid@) == Some(b@.data),
            r matches Err(e) ==> e is Storage,
    {
        match self.block_store.contains(cid) {
            Err(e) => Err(e),
            Ok(false) => Ok(None),
            Ok(true) => self.block_store.get(cid),
        }
    }

    /// Removes a block. The removal is reported first, whatever the store
    /// then makes of it.
    pub fn remove_block(&mut self, cid: &Cid) -> (r: Result<(), Error>)
        requires
            old(self).wf(),
        ensures
            final(self).wf(),
            final(self).records() == old(self).records(),
            final(self).events() == old(self).events().push(EventView::Unprovide(cid@)),
            r is Ok ==> final(self).blocks() == old(self).blocks().remove(cid@),
            r matches Err(e) ==> e is Storage && final(self).blocks() == old(self).blocks(),
    {
        self.emit(RepoEvent::UnprovideBlock(cid.duplicate()));
        self.block_store.remove(cid)
    }

    /// Reads the path recorded for a peer; a peer with no record gives
    /// `None`, a record that does not decode a decode error.
    pub fn get_ipns(&self, ipns: &PeerKey) -> (r: Result<Option<IpfsPath>, Error>)
        requires
            self.wf(),
        ensures
            r matches Ok(o) ==> match o {
                None => ipns_lookup(self.records(), ipns@) is None,
                Some(p) => ipns_lookup(self.records(), ipns@) == Some(Some(p@)),
            },
            r matches Err(e) ==> e is Storage || (e is Decode && ipns_lookup(self.records(), ipns@)
                == Some(None::<Seq<char>>)),
            ipns_lookup(self.records(), ipns@) == Some(None::<Seq<char>>) ==> r is Err,
    {
        match self.data_store.get(Column::Ipns, ipns.as_bytes()) {
            Err(e) => Err(e),
            Ok(None) => Ok(None),
            Ok(Some(bytes)) => match IpfsPath::from_record(bytes) {
                Ok(p) => Ok(Some(p)),
                Err(e) => Err(e),
            },
        }
    }

    /// Records the path for a peer, as the UTF-8 bytes of its text.
    pub fn put_ipns(&mut self, ipns: &PeerKey, path: &IpfsPath) -> (r: Result<(), Error>)
        requires
            old(self).wf(),
        ensures
            final(self).wf(),
            final(self).blocks() == old(self).blocks(),
            final(self).events() == old(self).events(),
            r is Ok ==> final(self).records() == recorded(old(self).records(), ipns@, path@),
            r is Ok ==> ipns_lookup(final(self).records(), ipns@) == Some(Some(path@)),
            r matches Err(e) ==> e is Storage && final(self).records() == old(self).records(),
    {
        let value = path.to_record();
        proof {
            lemma_ipns_round_trip(old(self).records(), ipns@, path@);
        }
        self.data_store.put(Column::Ipns, ipns.as_bytes(), value.as_slice())
    }

    /// Deletes the record of a peer.
    pub fn remove_ipns(&mut self, ipns: &PeerKey) -> (r: Result<(), Error>)
        requires
            old(self).wf(),
        ensures
            final(self).wf(),
            final(self).blocks() == old(self).blocks(),
            final(self).events() == old(self).events(),
            r is Ok ==> final(self).records() == old(self).records().remove(ipns_key(ipns@)),
            r matches Err(e) ==> e is Storage && final(self).records() == old(self).records(),
    {
        self.data_store.remove(Column::Ipns, ipns.as_bytes())
    }
}

} // verus!
