//! Verified core of the Erbium blockchain node: the Kademlia routing table,
//! sharding and replication, governance, and the security policies that the
//! networking layer consults.
use vstd::prelude::*;

pub mod clock;
pub mod crypto;
pub mod distributed;
pub mod encoding;
pub mod governance;
pub mod gpu;
pub mod keyed;
pub mod network;
pub mod privacy;
pub mod networking;
pub mod node;
pub mod rpc;
pub mod security;
pub mod text;
pub mod types;

verus! {

} // verus!
