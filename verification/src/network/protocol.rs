//! The gossip protocol's messages. Blocks and transactions travel as the
//! summaries the network reads of them; hashes as their bytes.
use vstd::prelude::*;
use crate::network::p2p_network::{BlockSummary, TransactionSummary};

verus! {

/// A validator's vote on a block.
#[derive(Debug, Clone)]
pub struct VoteMessage {
    pub block_hash: Vec<u8>,
    pub validator: String,
    pub signature: Vec<u8>,
}

/// A message bound for another chain, with its proof.
#[derive(Debug, Clone)]
pub struct CrossChainData {
    pub source_chain: String,
    pub target_chain: String,
    pub message: Vec<u8>,
    pub proof: Vec<u8>,
}

/// Protocol message types
#[derive(Debug, Clone)]
pub enum NetworkMessage {
    /// Block propagation
    NewBlock(BlockSummary),
    RequestBlock(Vec<u8>),
    ResponseBlock(BlockSummary),
    /// Transaction propagation
    NewTransaction(TransactionSummary),
    /// Request specific blocks by hash
    RequestBlocks(Vec<Vec<u8>>),
    /// Request blocks from a height on
    RequestChainSync(u64),
    /// Peer addresses
    PeerList(Vec<String>),
    /// Consensus votes
    Vote(VoteMessage),
    /// Bridge messages
    CrossChainMessage(CrossChainData),
}

} // verus!
