//! Anti-entropy replication core of a cluster gossip substrate: the replicated
//! record table, the pull-reconciliation filter, the ping/pong address
//! validation cache, the message dispatch, and the block-fragment layout that
//! duplicate-block reports refer to.
use vstd::prelude::*;

pub mod crypto;
pub mod contact_info;
pub mod cursor;
pub mod data;
pub mod duplicate_shred;
pub mod encoding;
pub mod filter;
pub mod layout;
pub mod legacy;
pub mod lru_cache;
pub mod merkle;
pub mod ping_pong;
pub mod protocol;
pub mod records;
pub mod shred;
pub mod table;
pub mod verify_shred;

verus! {

} // verus!
