//! Storage core of a content-addressed repository: a block store and a
//! key/value data store behind one orchestrator that reports block
//! life-cycle events.
pub mod block;
pub mod error;
pub mod mem;
pub mod path;
pub mod repo;
pub mod store;

pub use block::{Block, Cid};
pub use error::Error;
pub use mem::{MemBlockStore, MemDataStore, MemTypes};
pub use path::IpfsPath;
pub use repo::{create_repo, PeerKey, Repo, RepoEvent, RepoOptions, RepoTypes};
pub use store::{BlockStore, Column, DataStore};
