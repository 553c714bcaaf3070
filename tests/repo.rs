use ipfs::{
    create_repo, Block, Cid, Column, Error, IpfsPath, MemTypes, PeerKey, Repo, RepoEvent,
    RepoOptions,
};
use ipfs::repo::join_results;
use ipfs::{DataStore, MemDataStore};

fn mem_repo(path: &str) -> Repo<MemTypes> {
    create_repo::<MemTypes>(RepoOptions::new(path.to_string()))
}

fn block(data: &[u8], cid: &[u8]) -> Block {
    Block::new(data.to_vec(), Cid::new(cid.to_vec()))
}

fn path(s: &str) -> IpfsPath {
    IpfsPath::from_str(s).ok().unwrap()
}

#[test]
fn test_repo() {
    let options = RepoOptions::new("/tmp/rust-ipfs-repo".to_string());
    let mut repo: Repo<MemTypes> = Repo::new(options);
    repo.init().ok().unwrap();
}

#[test]
fn put_then_get_block_returns_it_without_a_want() {
    let mut repo = mem_repo("/tmp/repo");
    let b = block(b"hello", b"Qx");
    let cid = repo.put_block(b.clone()).ok().unwrap();
    assert!(cid == Cid::new(b"Qx".to_vec()));
    let got = repo.get_block(&cid).ok().unwrap().unwrap();
    assert!(got == b);
    let events = repo.take_events();
    assert_eq!(events.len(), 1);
    assert!(matches!(&events[0], RepoEvent::ProvideBlock(c) if *c == cid));
}

#[test]
fn get_absent_block_wants_it_once() {
    let mut repo = mem_repo("/tmp/repo");
    let cid = Cid::new(b"Qmissing".to_vec());
    assert!(repo.get_block(&cid).ok().unwrap().is_none());
    let events = repo.take_events();
    assert_eq!(events.len(), 1);
    assert!(matches!(&events[0], RepoEvent::WantBlock(c) if *c == cid));
    assert!(repo.take_events().is_empty());
}

#[test]
fn poll_block_sees_a_later_put() {
    let mut repo = mem_repo("/tmp/repo");
    let cid = Cid::new(b"Qlater".to_vec());
    assert!(repo.get_block(&cid).ok().unwrap().is_none());
    assert!(repo.poll_block(&cid).ok().unwrap().is_none());
    repo.put_block(block(b"late", b"Qlater")).ok().unwrap();
    let got = repo.poll_block(&cid).ok().unwrap().unwrap();
    assert_eq!(got.data(), &b"late".to_vec());
}

#[test]
fn remove_block_unprovides_present_and_absent() {
    let mut repo = mem_repo("/tmp/repo");
    let cid = repo.put_block(block(b"x", b"Qa")).ok().unwrap();
    repo.take_events();
    repo.remove_block(&cid).ok().unwrap();
    let absent = Cid::new(b"Qnever".to_vec());
    repo.remove_block(&absent).ok().unwrap();
    let events = repo.take_events();
    assert_eq!(events.len(), 2);
    assert!(matches!(&events[0], RepoEvent::UnprovideBlock(c) if *c == cid));
    assert!(matches!(&events[1], RepoEvent::UnprovideBlock(c) if *c == absent));
    assert!(repo.poll_block(&cid).ok().unwrap().is_none());
}

#[test]
fn put_block_twice_gives_the_same_cid() {
    let mut repo = mem_repo("/tmp/repo");
    let c1 = repo.put_block(block(b"same", b"Qs")).ok().unwrap();
    let c2 = repo.put_block(block(b"same", b"Qs")).ok().unwrap();
    assert!(c1 == c2);
    assert_eq!(repo.get_block(&c1).ok().unwrap().unwrap().data(), &b"same".to_vec());
    repo.remove_block(&c1).ok().unwrap();
    assert!(repo.poll_block(&c1).ok().unwrap().is_none());
}

#[test]
fn distinct_puts_are_all_retrievable() {
    let mut repo = mem_repo("/tmp/repo");
    let mut cids = Vec::new();
    for i in 0..5u8 {
        cids.push(repo.put_block(block(&[i, i], &[b'Q', i])).ok().unwrap());
    }
    for (i, cid) in cids.iter().enumerate() {
        let got = repo.poll_block(cid).ok().unwrap().unwrap();
        assert_eq!(got.data(), &vec![i as u8, i as u8]);
    }
    assert_eq!(repo.take_events().len(), 5);
}

#[test]
fn ipns_round_trip() {
    let mut repo = mem_repo("/tmp/repo");
    let peer = PeerKey::new(vec![1, 2, 3]);
    let p = path("/ipns/k51-peer/docs");
    repo.put_ipns(&peer, &p).ok().unwrap();
    let got = repo.get_ipns(&peer).ok().unwrap().unwrap();
    assert_eq!(got.to_string(), "/ipns/k51-peer/docs");
}

#[test]
fn get_ipns_without_record_is_none() {
    let repo = mem_repo("/tmp/repo");
    let peer = PeerKey::new(vec![9]);
    assert!(repo.get_ipns(&peer).ok().unwrap().is_none());
}

#[test]
fn ipns_records_are_kept_apart_per_peer() {
    let mut repo = mem_repo("/tmp/repo");
    let a = PeerKey::new(vec![1]);
    let b = PeerKey::new(vec![2]);
    repo.put_ipns(&a, &path("/ipfs/A")).ok().unwrap();
    repo.put_ipns(&b, &path("/ipfs/B")).ok().unwrap();
    repo.put_ipns(&a, &path("/ipfs/A2")).ok().unwrap();
    assert_eq!(repo.get_ipns(&a).ok().unwrap().unwrap().as_str(), "/ipfs/A2");
    assert_eq!(repo.get_ipns(&b).ok().unwrap().unwrap().as_str(), "/ipfs/B");
}

#[test]
fn init_and_open_succeed_on_memory_stores() {
    let mut repo = mem_repo("/tmp/repo");
    assert!(repo.init().is_ok());
    assert!(repo.open().is_ok());
    assert!(repo.init().is_ok());
}

#[test]
fn join_results_needs_both() {
    assert!(join_results(Ok(()), Ok(())).is_ok());
    assert!(matches!(join_results(Err(Error::Storage("a".to_string())), Ok(())), Err(Error::Storage(m)) if m == "a"));
    assert!(matches!(join_results(Ok(()), Err(Error::Storage("b".to_string()))), Err(Error::Storage(m)) if m == "b"));
    assert!(matches!(
        join_results(Err(Error::Storage("a".to_string())), Err(Error::Storage("b".to_string()))),
        Err(Error::Storage(m)) if m == "a"
    ));
}

#[test]
fn scenario_block_life_cycle() {
    let options = RepoOptions::new("/tmp/repo".to_string());
    assert_eq!(options.block_store_path(), "/tmp/repo/blockstore");
    assert_eq!(options.data_store_path(), "/tmp/repo/datastore");
    let mut repo: Repo<MemTypes> = create_repo(options);
    repo.init().ok().unwrap();
    let b = block(b"payload B", b"Qx");
    let qx = repo.put_block(b.clone()).ok().unwrap();
    repo.take_events();
    assert!(repo.get_block(&qx).ok().unwrap().unwrap() == b);
    assert!(repo.take_events().is_empty());
    repo.remove_block(&qx).ok().unwrap();
    let events = repo.take_events();
    assert_eq!(events.len(), 1);
    assert!(matches!(&events[0], RepoEvent::UnprovideBlock(c) if *c == qx));
    assert!(repo.get_block(&qx).ok().unwrap().is_none());
    let events = repo.take_events();
    assert_eq!(events.len(), 1);
    assert!(matches!(&events[0], RepoEvent::WantBlock(c) if *c == qx));
}

#[test]
fn scenario_ipns_put_get_remove() {
    let mut repo = mem_repo("/tmp/repo");
    let peer_a = PeerKey::new(b"peerA".to_vec());
    repo.put_ipns(&peer_a, &path("/ipfs/Qy")).ok().unwrap();
    assert_eq!(repo.get_ipns(&peer_a).ok().unwrap().unwrap().to_string(), "/ipfs/Qy");
    repo.remove_ipns(&peer_a).ok().unwrap();
    assert!(repo.get_ipns(&peer_a).ok().unwrap().is_none());
}

#[test]
fn sub_paths_of_odd_bases() {
    assert_eq!(RepoOptions::new("/tmp/repo/".to_string()).block_store_path(), "/tmp/repo/blockstore");
    assert_eq!(RepoOptions::new(String::new()).data_store_path(), "datastore");
    assert_eq!(RepoOptions::new("/".to_string()).data_store_path(), "/datastore");
}

#[test]
fn path_parsing() {
    assert_eq!(path("/ipfs/Qy").as_str(), "/ipfs/Qy");
    assert!(matches!(IpfsPath::from_str("ipfs/Qy"), Err(Error::Decode)));
    assert!(matches!(IpfsPath::from_str(""), Err(Error::Decode)));
}

#[test]
fn records_decode_from_utf8() {
    let p = IpfsPath::from_record("/ipfs/Qü".as_bytes().to_vec()).ok().unwrap();
    assert_eq!(p.as_str(), "/ipfs/Qü");
    assert_eq!(p.to_record(), "/ipfs/Qü".as_bytes().to_vec());
    assert!(matches!(IpfsPath::from_record(vec![b'/', 0xff, 0xfe]), Err(Error::Decode)));
    assert!(matches!(IpfsPath::from_record(b"no-slash".to_vec()), Err(Error::Decode)));
}

#[test]
fn memory_data_store_keeps_columns() {
    let mut store = MemDataStore::new("/tmp/ds".to_string());
    store.put(Column::Ipns, b"k", b"v1").ok().unwrap();
    assert!(store.contains(Column::Ipns, b"k").ok().unwrap());
    assert_eq!(store.get(Column::Ipns, b"k").ok().unwrap(), Some(b"v1".to_vec()));
    store.remove(Column::Ipns, b"k").ok().unwrap();
    store.remove(Column::Ipns, b"k").ok().unwrap();
    assert_eq!(store.get(Column::Ipns, b"k").ok().unwrap(), None);
}
