//! Catching the local chain up with the network: the status of the
//! catch-up and the decisions of its loop. Reading the chain's height and
//! fetching the blocks are the caller's.
use vstd::prelude::*;

verus! {

/// Blockchain synchronization status
#[derive(Debug, Clone, Copy, PartialEq, Eq, Structural)]
pub enum SyncStatus {
    /// Node is fully synchronized with the network
    Synced,
    /// Node is currently syncing, showing the current block height
    Syncing(u64),
    /// Node is behind, showing the number of missing blocks
    Behind(u64),
    /// Node is initializing
    Initializing,
}

/// How many blocks one round of the catch-up asks for.
pub const SYNC_BATCH: u64 = 50;

/// How far ahead of the local chain the network is taken to be when the
/// catch-up starts.
pub const SIMULATED_LEAD: u64 = 10;

/// Blockchain synchronization manager: the status and the highest block
/// height seen on the network.
pub struct SyncManager {
    status: SyncStatus,
    highest_seen_block: u64,
}

impl SyncManager {
    pub closed spec fn spec_status(&self) -> SyncStatus {
        self.status
    }

    pub closed spec fn spec_highest(&self) -> u64 {
        self.highest_seen_block
    }

    /// A manager that is initializing and has seen no block.
    pub fn new() -> (r: SyncManager)
        ensures
            r.spec_status() == SyncStatus::Initializing,
            r.spec_highest() == 0,
    {
        SyncManager { status: SyncStatus::Initializing, highest_seen_block: 0 }
    }

    /// Start the catch-up from a chain at `current_height`: the status
    /// becomes syncing at 0 and the network is taken to be ten blocks ahead.
    pub fn start_sync(&mut self, current_height: u64)
        requires
            current_height + SIMULATED_LEAD <= u64::MAX,
        ensures
            final(self).spec_status() == SyncStatus::Syncing(0),
            final(self).spec_highest() == current_height + SIMULATED_LEAD,
    {
        self.status = SyncStatus::Syncing(0);
        self.highest_seen_block = current_height + SIMULATED_LEAD;
    }

    /// One round of the catch-up loop with the chain at `current_height`:
    /// at or past the highest block seen the node is synced and the loop
    /// ends (`None`); otherwise it is behind by the difference and asks for
    /// the next 50 blocks.
    pub fn sync_step(&mut self, current_height: u64) -> (r: Option<(u64, u64)>)
        requires
            current_height < u64::MAX,
        ensures
            final(self).spec_highest() == old(self).spec_highest(),
            current_height >= old(self).spec_highest() ==> r is None && final(self).spec_status() == SyncStatus::Synced,
            current_height < old(self).spec_highest() ==> r == Some(((current_height + 1) as u64, SYNC_BATCH))
                && final(self).spec_status() == SyncStatus::Behind((old(self).spec_highest() - current_height) as u64),
    {
        if current_height >= self.highest_seen_block {
            self.status = SyncStatus::Synced;
            None
        } else {
            self.status = SyncStatus::Behind(self.highest_seen_block - current_height);
            Some((current_height + 1, SYNC_BATCH))
        }
    }

    /// The heights a batch of `count` blocks from `start_height` adds:
    /// those in the batch up to the highest block seen, in order.
    pub fn heights_to_process(&self, start_height: u64, count: u64) -> (r: Vec<u64>)
        requires
            start_height + count <= u64::MAX,
        ensures
            r@ == Seq::new(
                if start_height > self.spec_highest() {
                    0nat
                } else if self.spec_highest() - start_height + 1 < count {
                    (self.spec_highest() - start_height + 1) as nat
                } else {
                    count as nat
                },
                |i: int| (start_height + i) as u64,
            ),
    {
        let n: u64 = if start_height > self.highest_seen_block {
            0
        } else {
            let avail = self.highest_seen_block - start_height;
            if avail < count {
                avail + 1
            } else {
                count
            }
        };
        let mut out: Vec<u64> = Vec::new();
        let mut i: u64 = 0;
        while i < n
            invariant
                0 <= i <= n,
                n <= count,
                start_height + count <= u64::MAX,
                out@ == Seq::new(i as nat, |k: int| (start_height + k) as u64),
            decreases n - i,
        {
            out.push(start_height + i);
            proof {
                assert(out@ =~= Seq::new((i + 1) as nat, |k: int| (start_height + k) as u64));
            }
            i = i + 1;
        }
        out
    }

    /// The current status.
    pub fn get_status(&self) -> (r: SyncStatus)
        ensures
            r == self.spec_status(),
    {
        self.status
    }

    /// Whether the node is fully synchronized.
    pub fn is_synced(&self) -> (r: bool)
        ensures
            r == (self.spec_status() == SyncStatus::Synced),
    {
        self.status == SyncStatus::Synced
    }
}

} // verus!
