//! RDMA (Remote Direct Memory Access) links between nodes: the table of
//! connections, the outgoing queue, and the statistics. The transfers
//! themselves are simulated: a send always succeeds, and the caller says
//! how long it took. Times are milliseconds.
use vstd::prelude::*;
use crate::clock::now_millis;
use crate::crypto::{blake3_digest, blake3_hash};
use crate::network::address::SocketAddress;

verus! {

/// RDMA configuration
#[derive(Debug, Clone, Copy, PartialEq, Eq, Structural)]
pub struct RdmaConfig {
    pub enable_rdma: bool,
    pub max_connections: usize,
    pub buffer_size_mb: usize,
    pub max_message_size: usize,
    pub connection_timeout_ms: u64,
    pub heartbeat_interval_ms: u64,
    pub enable_zero_copy: bool,
    pub enable_async_operations: bool,
}

impl Default for RdmaConfig {
    /// Enabled, up to 1000 connections of 256 MB buffers, messages up to
    /// 64 MB, a 5 s timeout, heartbeats every second, zero-copy and
    /// asynchronous operations on.
    fn default() -> (r: RdmaConfig)
        ensures
            r == (RdmaConfig {
                enable_rdma: true,
                max_connections: 1000,
                buffer_size_mb: 256,
                max_message_size: 67_108_864,
                connection_timeout_ms: 5000,
                heartbeat_interval_ms: 1000,
                enable_zero_copy: true,
                enable_async_operations: true,
            }),
    {
        RdmaConfig {
            enable_rdma: true,
            max_connections: 1000,
            buffer_size_mb: 256,
            max_message_size: 67_108_864,
            connection_timeout_ms: 5000,
            heartbeat_interval_ms: 1000,
            enable_zero_copy: true,
            enable_async_operations: true,
        }
    }
}

/// The state of a connection.
#[derive(Debug, Clone, Copy, PartialEq, Eq, Structural)]
pub enum ConnectionState {
    Connecting,
    Connected,
    Disconnected,
    Failed,
}

/// RDMA connection information
#[derive(Debug, Clone, Copy, PartialEq, Eq, Structural)]
pub struct RdmaConnection {
    pub peer_addr: SocketAddress,
    pub connection_id: u64,
    pub state: ConnectionState,
    pub last_heartbeat: u64,
    pub bytes_sent: u64,
    pub bytes_received: u64,
    pub latency_us: u64,
    pub queue_depth: usize,
}

/// The priority of a message.
#[derive(Debug, Clone, Copy, PartialEq, Eq, Structural)]
pub enum MessagePriority {
    Low,
    Normal,
    High,
    Critical,
}

/// RDMA message types
#[derive(Debug, Clone)]
pub enum RdmaMessage {
    /// Blockchain transaction data
    Transaction { data: Vec<u8>, priority: MessagePriority, requires_ack: bool },
    /// Consensus messages
    Consensus { block_height: u64, data: Vec<u8>, priority: MessagePriority },
    /// State synchronization
    StateSync { shard_id: u32, data: Vec<u8>, checksum: [u8; 32] },
    /// Heartbeat for connection monitoring
    Heartbeat { timestamp: u64, node_id: String },
    /// Acknowledgment
    Ack { message_id: u64, success: bool },
}

/// A message waiting in the queue.
#[derive(Debug, Clone)]
pub struct QueuedMessage {
    pub message: RdmaMessage,
    pub destination: SocketAddress,
    pub enqueue_time: u64,
    pub retry_count: u32,
}

/// RDMA statistics
#[derive(Debug, Clone, Copy, PartialEq, Eq, Structural)]
pub struct RdmaStats {
    pub total_connections: usize,
    pub active_connections: usize,
    pub messages_sent: u64,
    pub messages_received: u64,
    pub bytes_sent: u64,
    pub bytes_received: u64,
    pub average_latency_us: u64,
    pub failed_connections: u64,
    pub retransmissions: u64,
}

/// All statistics zero.
pub open spec fn zero_stats() -> RdmaStats {
    RdmaStats {
        total_connections: 0,
        active_connections: 0,
        messages_sent: 0,
        messages_received: 0,
        bytes_sent: 0,
        bytes_received: 0,
        average_latency_us: 0,
        failed_connections: 0,
        retransmissions: 0,
    }
}

impl Default for RdmaStats {
    /// All zero.
    fn default() -> (r: RdmaStats)
        ensures
            r == zero_stats(),
    {
        RdmaStats {
            total_connections: 0,
            active_connections: 0,
            messages_sent: 0,
            messages_received: 0,
            bytes_sent: 0,
            bytes_received: 0,
            average_latency_us: 0,
            failed_connections: 0,
            retransmissions: 0,
        }
    }
}

/// Why an RDMA operation was refused.
#[derive(Debug, Clone, Copy, PartialEq, Eq, Structural)]
pub enum RdmaError {
    /// RDMA is disabled.
    Disabled,
    /// As many connections as allowed are open.
    MaxConnections,
    /// A connection to the peer exists already.
    AlreadyConnected,
    /// No connection to the peer.
    NotFound,
    /// The connection is not established.
    NotReady,
    /// The message is larger than allowed.
    TooLarge,
}

/// The estimated wire size of a message: its payload and a fixed overhead
/// per kind.
pub open spec fn message_size(m: RdmaMessage) -> int {
    match m {
        RdmaMessage::Transaction { data, .. } => 100 + data@.len() as int,
        RdmaMessage::Consensus { data, .. } => 50 + data@.len() as int,
        RdmaMessage::StateSync { data, .. } => 100 + data@.len() as int,
        RdmaMessage::Heartbeat { .. } => 50,
        RdmaMessage::Ack { .. } => 20,
    }
}

/// Estimate the wire size of a message.
pub fn estimate_message_size(m: &RdmaMessage) -> (r: usize)
    requires
        message_size(*m) <= usize::MAX,
    ensures
        r == message_size(*m),
{
    match m {
        RdmaMessage::Transaction { data, .. } => 100 + data.len(),
        RdmaMessage::Consensus { data, .. } => 50 + data.len(),
        RdmaMessage::StateSync { data, .. } => 100 + data.len(),
        RdmaMessage::Heartbeat { .. } => 50,
        RdmaMessage::Ack { .. } => 20,
    }
}

/// A fresh connection id: calls `rand::random::<u64>`, so two calls may
/// give anything.
#[verifier::external_body]
fn generate_connection_id() -> (r: u64) {
    rand::random::<u64>()
}

/// A connection after a send of `size` bytes that took `latency_us`.
pub open spec fn after_send(c: RdmaConnection, size: int, latency_us: u64) -> RdmaConnection {
    RdmaConnection {
        bytes_sent: (c.bytes_sent + size) as u64,
        latency_us: ((c.latency_us + latency_us) / 2) as u64,
        ..c
    }
}

/// A connection is stale at `now` when its last heartbeat is older than the
/// timeout.
pub open spec fn is_stale(c: RdmaConnection, now: u64, timeout: u64) -> bool {
    now - c.last_heartbeat > timeout
}

/// A connection is owed a heartbeat at `now` when it is connected and its
/// last heartbeat is at least an interval old.
pub open spec fn heartbeat_due(c: RdmaConnection, now: u64, interval: u64) -> bool {
    c.state == ConnectionState::Connected && now - c.last_heartbeat >= interval
}

/// A connection after maintenance at `now`: marked failed if stale;
/// otherwise, or also, its heartbeat time moves to `now` if one is due.
pub open spec fn maintained(c: RdmaConnection, now: u64, timeout: u64, interval: u64) -> RdmaConnection {
    let c1 = if is_stale(c, now, timeout) { RdmaConnection { state: ConnectionState::Failed, ..c } } else { c };
    if heartbeat_due(c1, now, interval) {
        RdmaConnection { last_heartbeat: now, ..c1 }
    } else {
        c1
    }
}

/// The peers owed a heartbeat after the stale connections were marked.
pub open spec fn heartbeat_targets(s: Seq<RdmaConnection>, now: u64, timeout: u64, interval: u64) -> Seq<SocketAddress>
    decreases s.len(),
{
    if s.len() == 0 {
        Seq::empty()
    } else {
        let rest = heartbeat_targets(s.drop_last(), now, timeout, interval);
        let c = s.last();
        let c1 = if is_stale(c, now, timeout) { RdmaConnection { state: ConnectionState::Failed, ..c } } else { c };
        if heartbeat_due(c1, now, interval) {
            rest.push(c.peer_addr)
        } else {
            rest
        }
    }
}

/// The number of stale connections.
pub open spec fn stale_count(s: Seq<RdmaConnection>, now: u64, timeout: u64) -> nat
    decreases s.len(),
{
    if s.len() == 0 {
        0
    } else {
        stale_count(s.drop_last(), now, timeout) + if is_stale(s.last(), now, timeout) { 1nat } else { 0nat }
    }
}

/// The peers of the queued messages.
pub open spec fn queue_destinations(q: Seq<QueuedMessage>) -> Seq<SocketAddress> {
    q.map_values(|m: QueuedMessage| m.destination)
}

/// The statistics after a maintenance pass that found `stale` stale
/// connections: each counts as failed and takes one from the active count,
/// which stops at zero.
pub open spec fn stats_after_maintenance(st: RdmaStats, stale: nat) -> RdmaStats {
    RdmaStats {
        failed_connections: (st.failed_connections + stale) as u64,
        active_connections: if st.active_connections >= stale { (st.active_connections - stale) as usize } else { 0 },
        ..st
    }
}

/// What a maintenance pass at clock reading `now` makes of `pre`: where no
/// connection's last heartbeat is later than `now`, the pass of
/// `perform_maintenance_at`; otherwise nothing.
pub open spec fn maintenance_outcome(pre: RdmaManager, post: RdmaManager, now: u64) -> bool {
    let timeout = pre.spec_config().connection_timeout_ms;
    let interval = pre.spec_config().heartbeat_interval_ms;
    if forall|i: int| 0 <= i < pre.spec_connections().len() ==> (#[trigger] pre.spec_connections()[i]).last_heartbeat <= now {
        &&& post.spec_connections() == pre.spec_connections().map_values(
            |c: RdmaConnection| maintained(c, now, timeout, interval),
        )
        &&& queue_destinations(post.spec_queue()) == queue_destinations(pre.spec_queue()) + heartbeat_targets(
            pre.spec_connections(),
            now,
            timeout,
            interval,
        )
        &&& post.spec_stats() == stats_after_maintenance(pre.spec_stats(), stale_count(pre.spec_connections(), now, timeout))
        &&& post.spec_config() == pre.spec_config()
    } else {
        post == pre
    }
}

/// What connecting to `peer_addr` at clock reading `now` with the drawn id
/// `connection_id` makes of `pre`, returning `r`: refused while RDMA is
/// off, the table is full or the peer is connected, with nothing changed;
/// otherwise a connected entry is added and counted.
pub open spec fn connect_outcome(pre: RdmaManager, post: RdmaManager, peer_addr: SocketAddress, now: u64, connection_id: u64, r: Result<u64, RdmaError>) -> bool {
    &&& post.spec_config() == pre.spec_config()
    &&& post.spec_queue() == pre.spec_queue()
    &&& !pre.spec_config().enable_rdma ==> r == Err::<u64, RdmaError>(RdmaError::Disabled)
        && post == pre
    &&& pre.spec_config().enable_rdma && pre.spec_connections().len() >= pre.spec_config().max_connections
        ==> r == Err::<u64, RdmaError>(RdmaError::MaxConnections) && post == pre
    &&& pre.spec_config().enable_rdma && pre.spec_connections().len() < pre.spec_config().max_connections
        && pre.connection_to(peer_addr) is Some ==> r == Err::<u64, RdmaError>(RdmaError::AlreadyConnected)
        && post == pre
    &&& r is Ok ==> r == Ok::<u64, RdmaError>(connection_id) && post.spec_connections()
        == pre.spec_connections().push(
        RdmaConnection {
            peer_addr,
            connection_id,
            state: ConnectionState::Connected,
            last_heartbeat: now,
            bytes_sent: 0,
            bytes_received: 0,
            latency_us: 0,
            queue_depth: 0,
        }
    ) && post.spec_stats() == (RdmaStats {
        total_connections: (pre.spec_stats().total_connections + 1) as usize,
        active_connections: (pre.spec_stats().active_connections + 1) as usize,
        ..pre.spec_stats()
    })
    &&& pre.spec_config().enable_rdma && pre.spec_connections().len() < pre.spec_config().max_connections
        && pre.connection_to(peer_addr) is None ==> r is Ok
}

/// RDMA networking manager
pub struct RdmaManager {
    config: RdmaConfig,
    connections: Vec<RdmaConnection>,
    message_queue: Vec<QueuedMessage>,
    stats: RdmaStats,
}

impl RdmaManager {
    pub closed spec fn spec_config(&self) -> RdmaConfig {
        self.config
    }

    /// The connections in the order they were made.
    pub closed spec fn spec_connections(&self) -> Seq<RdmaConnection> {
        self.connections@
    }

    /// The messages waiting, oldest first.
    pub closed spec fn spec_queue(&self) -> Seq<QueuedMessage> {
        self.message_queue@
    }

    pub closed spec fn spec_stats(&self) -> RdmaStats {
        self.stats
    }

    /// One connection per peer.
    pub closed spec fn wf(&self) -> bool {
        forall|i: int, j: int|
            0 <= i < j < self.connections@.len() ==> self.connections@[i].peer_addr != self.connections@[j].peer_addr
    }

    /// The connection to a peer, if any.
    pub open spec fn connection_to(&self, peer: SocketAddress) -> Option<RdmaConnection> {
        if exists|i: int| 0 <= i < self.spec_connections().len() && self.spec_connections()[i].peer_addr == peer {
            let i = choose|i: int| 0 <= i < self.spec_connections().len() && self.spec_connections()[i].peer_addr == peer;
            Some(self.spec_connections()[i])
        } else {
            None
        }
    }

    /// A manager with no connections, an empty queue and zero statistics.
    pub fn new(config: RdmaConfig) -> (r: RdmaManager)
        ensures
            r.wf(),
            r.spec_config() == config,
            r.spec_connections().len() == 0,
            r.spec_queue().len() == 0,
            r.spec_stats() == zero_stats(),
    {
        RdmaManager { config, connections: Vec::new(), message_queue: Vec::new(), stats: RdmaStats::default() }
    }

    /// The configuration.
    pub fn config(&self) -> (r: &RdmaConfig)
        ensures
            *r == self.spec_config(),
    {
        &self.config
    }

    /// The position of a peer's connection.
    fn position(&self, peer: SocketAddress) -> (r: Option<usize>)
        requires
            self.wf(),
        ensures
            match r {
                Some(i) => i < self.connections@.len() && self.connections@[i as int].peer_addr == peer
                    && self.connection_to(peer) == Some(self.connections@[i as int]),
                None => forall|j: int| 0 <= j < self.connections@.len() ==> self.connections@[j].peer_addr != peer,
            },
    {
        let mut i: usize = 0;
        while i < self.connections.len()
            invariant
                self.wf(),
                0 <= i <= self.connections@.len(),
                forall|j: int| 0 <= j < i ==> self.connections@[j].peer_addr != peer,
            decreases self.connections@.len() - i,
        {
            if self.connections[i].peer_addr == peer {
                proof {
                    let k = choose|k: int| 0 <= k < self.spec_connections().len() && self.spec_connections()[k].peer_addr == peer;
                    assert(k == i);
                }
                return Some(i);
            }
            i = i + 1;
        }
        None
    }

    /// Connect to a peer at `now` under the given connection id: refused
    /// while RDMA is disabled, at the connection limit, or when the peer is
    /// connected already; else the connection is established and counted.
    pub fn connect_at(&mut self, peer_addr: SocketAddress, now: u64, connection_id: u64) -> (r: Result<u64, RdmaError>)
        requires
            old(self).wf(),
            old(self).spec_stats().total_connections < usize::MAX,
            old(self).spec_stats().active_connections < usize::MAX,
        ensures
            final(self).wf(),
            connect_outcome(*old(self), *final(self), peer_addr, now, connection_id, r),
    {
        if !self.config.enable_rdma {
            return Err(RdmaError::Disabled);
        }
        if self.connections.len() >= self.config.max_connections {
            return Err(RdmaError::MaxConnections);
        }
        match self.position(peer_addr) {
            Some(_) => {
                return Err(RdmaError::AlreadyConnected);
            },
            None => {},
        }
        proof {
            assert(self.connection_to(peer_addr) is None);
        }
        let connection = RdmaConnection {
            peer_addr,
            connection_id,
            state: ConnectionState::Connected,
            last_heartbeat: now,
            bytes_sent: 0,
            bytes_received: 0,
            latency_us: 0,
            queue_depth: 0,
        };
        self.connections.push(connection);
        self.stats.total_connections = self.stats.total_connections + 1;
        self.stats.active_connections = self.stats.active_connections + 1;
        Ok(connection_id)
    }

    /// Connect to a peer now, under a fresh connection id.
    pub fn connect(&mut self, peer_addr: SocketAddress) -> (r: Result<u64, RdmaError>)
        requires
            old(self).wf(),
            old(self).spec_stats().total_connections < usize::MAX,
            old(self).spec_stats().active_connections < usize::MAX,
        ensures
            final(self).wf(),
            exists|now: u64, id: u64| #[trigger] connect_outcome(*old(self), *final(self), peer_addr, now, id, r),
    {
        let now = now_millis();
        let id = generate_connection_id();
        let r = self.connect_at(peer_addr, now, id);
        assert(connect_outcome(*old(self), *self, peer_addr, now, id, r));
        r
    }

    /// Send a message to a connected peer; the send took `latency_us`.
    /// Refused for an unknown peer, a connection not established, or a
    /// message over the size limit; else counted in the statistics and on
    /// the connection, whose latency becomes the mean of the old value and
    /// this one.
    pub fn send_message_timed(&mut self, peer_addr: SocketAddress, message: RdmaMessage, latency_us: u64) -> (r: Result<(), RdmaError>)
        requires
            old(self).wf(),
            message_size(message) <= usize::MAX,
            old(self).spec_stats().messages_sent < u64::MAX,
            old(self).spec_stats().bytes_sent + message_size(message) <= u64::MAX,
            forall|i: int| 0 <= i < old(self).spec_connections().len() ==> (#[trigger] old(self).spec_connections()[i]).bytes_sent
                + message_size(message) <= u64::MAX,
        ensures
            final(self).wf(),
            final(self).spec_config() == old(self).spec_config(),
            final(self).spec_queue() == old(self).spec_queue(),
            old(self).connection_to(peer_addr) is None ==> r == Err::<(), RdmaError>(RdmaError::NotFound)
                && *final(self) == *old(self),
            old(self).connection_to(peer_addr) matches Some(c) && c.state != ConnectionState::Connected ==> r == Err::<
                (),
                RdmaError,
            >(RdmaError::NotReady) && *final(self) == *old(self),
            old(self).connection_to(peer_addr) matches Some(c) && c.state == ConnectionState::Connected
                && message_size(message) > old(self).spec_config().max_message_size ==> r == Err::<(), RdmaError>(
                RdmaError::TooLarge,
            ) && *final(self) == *old(self),
            match old(self).connection_to(peer_addr) {
                Some(c) => c.state == ConnectionState::Connected && message_size(message)
                    <= old(self).spec_config().max_message_size ==> r is Ok && final(self).spec_stats() == (RdmaStats {
                    messages_sent: (old(self).spec_stats().messages_sent + 1) as u64,
                    bytes_sent: (old(self).spec_stats().bytes_sent + message_size(message)) as u64,
                    ..old(self).spec_stats()
                }) && final(self).connection_to(peer_addr) == Some(after_send(c, message_size(message), latency_us))
                    && final(self).spec_connections().len() == old(self).spec_connections().len(),
                None => true,
            },
    {
        let i = match self.position(peer_addr) {
            None => {
                return Err(RdmaError::NotFound);
            },
            Some(i) => i,
        };
        if self.connections[i].state != ConnectionState::Connected {
            return Err(RdmaError::NotReady);
        }
        let size = estimate_message_size(&message);
        if size > self.config.max_message_size {
            return Err(RdmaError::TooLarge);
        }
        self.stats.messages_sent = self.stats.messages_sent + 1;
        self.stats.bytes_sent = self.stats.bytes_sent + size as u64;
        let mut c = self.connections[i];
        assert(c == old(self).spec_connections()[i as int]);
        c.bytes_sent = c.bytes_sent + size as u64;
        c.latency_us = ((c.latency_us as u128 + latency_us as u128) / 2) as u64;
        let ghost before = self.connections@;
        self.connections.set(i, c);
        proof {
            assert(self.connections@ == before.update(i as int, c));
            assert(before == old(self).connections@);
            assert(self.spec_connections()[i as int].peer_addr == peer_addr);
            let k = choose|k: int| 0 <= k < self.spec_connections().len() && self.spec_connections()[k].peer_addr == peer_addr;
            if k != i {
                assert(self.spec_connections()[k] == before[k]);
                assert(before[k].peer_addr == peer_addr);
                assert(before[i as int].peer_addr == peer_addr);
                if k < i {
                    assert(before[k].peer_addr != before[i as int].peer_addr);
                } else {
                    assert(before[i as int].peer_addr != before[k].peer_addr);
                }
            }
            assert(k == i);
            assert forall|a: int, b: int| 0 <= a < b < self.connections@.len() implies self.connections@[a].peer_addr
                != self.connections@[b].peer_addr by {
                assert(before[a].peer_addr != before[b].peer_addr);
            }
        }
        Ok(())
    }

    /// Send a transaction with high priority, asking for an acknowledgment.
    pub fn send_transaction_timed(&mut self, peer_addr: SocketAddress, transaction_data: Vec<u8>, latency_us: u64) -> (r: Result<(), RdmaError>)
        requires
            old(self).wf(),
            100 + transaction_data@.len() <= usize::MAX,
            old(self).spec_stats().messages_sent < u64::MAX,
            old(self).spec_stats().bytes_sent + 100 + transaction_data@.len() <= u64::MAX,
            forall|i: int| 0 <= i < old(self).spec_connections().len() ==> (#[trigger] old(self).spec_connections()[i]).bytes_sent
                + 100 + transaction_data@.len() <= u64::MAX,
        ensures
            final(self).wf(),
            match old(self).connection_to(peer_addr) {
                Some(c) => c.state == ConnectionState::Connected && 100 + transaction_data@.len()
                    <= old(self).spec_config().max_message_size ==> r is Ok && final(self).connection_to(peer_addr)
                    == Some(after_send(c, 100 + transaction_data@.len() as int, latency_us)),
                None => true,
            },
            r is Err ==> *final(self) == *old(self),
    {
        let message = RdmaMessage::Transaction { data: transaction_data, priority: MessagePriority::High, requires_ack: true };
        self.send_message_timed(peer_addr, message, latency_us)
    }

    /// Send a consensus message at block height `block_height` with
    /// critical priority.
    pub fn send_consensus_message_timed(&mut self, peer_addr: SocketAddress, block_height: u64, data: Vec<u8>, latency_us: u64) -> (r: Result<(), RdmaError>)
        requires
            old(self).wf(),
            50 + data@.len() <= usize::MAX,
            old(self).spec_stats().messages_sent < u64::MAX,
            old(self).spec_stats().bytes_sent + 50 + data@.len() <= u64::MAX,
            forall|i: int| 0 <= i < old(self).spec_connections().len() ==> (#[trigger] old(self).spec_connections()[i]).bytes_sent
                + 50 + data@.len() <= u64::MAX,
        ensures
            final(self).wf(),
            match old(self).connection_to(peer_addr) {
                Some(c) => c.state == ConnectionState::Connected && 50 + data@.len()
                    <= old(self).spec_config().max_message_size ==> r is Ok && final(self).connection_to(peer_addr)
                    == Some(after_send(c, 50 + data@.len() as int, latency_us)),
                None => true,
            },
            r is Err ==> *final(self) == *old(self),
    {
        let message = RdmaMessage::Consensus { block_height, data, priority: MessagePriority::Critical };
        self.send_message_timed(peer_addr, message, latency_us)
    }

    /// The state-sync message for a shard: its data and their BLAKE3 digest.
    pub fn state_sync_message(shard_id: u32, data: Vec<u8>) -> (r: RdmaMessage)
        ensures
            r matches RdmaMessage::StateSync { shard_id: s, data: d, checksum } && s == shard_id && d@ == data@
                && checksum@ == blake3_digest(data@),
    {
        let checksum = blake3_hash(data.as_slice());
        RdmaMessage::StateSync { shard_id, data, checksum }
    }

    /// Send state-synchronization data for a shard, with its checksum.
    pub fn send_state_sync_timed(&mut self, peer_addr: SocketAddress, shard_id: u32, data: Vec<u8>, latency_us: u64) -> (r: Result<(), RdmaError>)
        requires
            old(self).wf(),
            100 + data@.len() <= usize::MAX,
            old(self).spec_stats().messages_sent < u64::MAX,
            old(self).spec_stats().bytes_sent + 100 + data@.len() <= u64::MAX,
            forall|i: int| 0 <= i < old(self).spec_connections().len() ==> (#[trigger] old(self).spec_connections()[i]).bytes_sent
                + 100 + data@.len() <= u64::MAX,
        ensures
            final(self).wf(),
            match old(self).connection_to(peer_addr) {
                Some(c) => c.state == ConnectionState::Connected && 100 + data@.len()
                    <= old(self).spec_config().max_message_size ==> r is Ok && final(self).connection_to(peer_addr)
                    == Some(after_send(c, 100 + data@.len() as int, latency_us)),
                None => true,
            },
            r is Err ==> *final(self) == *old(self),
    {
        let message = Self::state_sync_message(shard_id, data);
        self.send_message_timed(peer_addr, message, latency_us)
    }

    /// Broadcast to several peers at once over multicast: the message is
    /// counted once per peer.
    pub fn broadcast_message(&mut self, peers: &[SocketAddress], message: &RdmaMessage)
        requires
            old(self).wf(),
            message_size(*message) * peers@.len() <= usize::MAX,
            message_size(*message) <= usize::MAX,
            old(self).spec_stats().messages_sent + peers@.len() <= u64::MAX,
            old(self).spec_stats().bytes_sent + message_size(*message) * peers@.len() <= u64::MAX,
        ensures
            final(self).wf(),
            final(self).spec_stats() == (RdmaStats {
                messages_sent: (old(self).spec_stats().messages_sent + peers@.len()) as u64,
                bytes_sent: (old(self).spec_stats().bytes_sent + message_size(*message) * peers@.len()) as u64,
                ..old(self).spec_stats()
            }),
            final(self).spec_connections() == old(self).spec_connections(),
            final(self).spec_queue() == old(self).spec_queue(),
    {
        let size = estimate_message_size(message);
        let n = peers.len();
        self.stats.messages_sent = self.stats.messages_sent + n as u64;
        self.stats.bytes_sent = self.stats.bytes_sent + (size * n) as u64;
    }

    /// Take every queued message, oldest first, counting them as received.
    pub fn receive_messages(&mut self) -> (r: Vec<QueuedMessage>)
        requires
            old(self).wf(),
            old(self).spec_stats().messages_received + old(self).spec_queue().len() <= u64::MAX,
            old(self).spec_stats().bytes_received + queue_bytes(old(self).spec_queue()) <= u64::MAX,
            forall|i: int| 0 <= i < old(self).spec_queue().len() ==> message_size(
                (#[trigger] old(self).spec_queue()[i]).message,
            ) <= usize::MAX,
        ensures
            final(self).wf(),
            r@ == old(self).spec_queue(),
            final(self).spec_queue().len() == 0,
            final(self).spec_stats() == (RdmaStats {
                messages_received: (old(self).spec_stats().messages_received + r@.len()) as u64,
                bytes_received: (old(self).spec_stats().bytes_received + queue_bytes(r@)) as u64,
                ..old(self).spec_stats()
            }),
            final(self).spec_connections() == old(self).spec_connections(),
    {
        let mut taken: Vec<QueuedMessage> = Vec::new();
        std::mem::swap(&mut taken, &mut self.message_queue);
        let n = taken.len();
        if n > 0 {
            let mut bytes: u64 = 0;
            let mut i: usize = 0;
            while i < n
                invariant
                    n == taken@.len(),
                    0 <= i <= n,
                    bytes == queue_bytes(taken@.take(i as int)),
                    queue_bytes(taken@) + self.stats.bytes_received <= u64::MAX,
                    forall|j: int| 0 <= j < taken@.len() ==> message_size((#[trigger] taken@[j]).message) <= usize::MAX,
                decreases n - i,
            {
                proof {
                    assert(taken@.take(i + 1).drop_last() =~= taken@.take(i as int));
                    lemma_queue_bytes_prefix(taken@, i + 1);
                }
                let size = estimate_message_size(&taken[i].message);
                bytes = bytes + size as u64;
                i = i + 1;
            }
            proof {
                assert(taken@.take(n as int) =~= taken@);
            }
            self.stats.messages_received = self.stats.messages_received + n as u64;
            self.stats.bytes_received = self.stats.bytes_received + bytes;
        }
        taken
    }

    /// The connection to a peer.
    pub fn get_connection_stats(&self, peer_addr: SocketAddress) -> (r: Result<RdmaConnection, RdmaError>)
        requires
            self.wf(),
        ensures
            match self.connection_to(peer_addr) {
                Some(c) => r == Ok::<RdmaConnection, RdmaError>(c),
                None => r == Err::<RdmaConnection, RdmaError>(RdmaError::NotFound),
            },
    {
        match self.position(peer_addr) {
            Some(i) => Ok(self.connections[i]),
            None => Err(RdmaError::NotFound),
        }
    }

    /// The statistics.
    pub fn get_stats(&self) -> (r: RdmaStats)
        ensures
            r == self.spec_stats(),
    {
        self.stats
    }

    /// Close the connection to a peer, if any, and count one active
    /// connection less.
    pub fn close_connection(&mut self, peer_addr: SocketAddress)
        requires
            old(self).wf(),
        ensures
            final(self).wf(),
            final(self).connection_to(peer_addr) is None,
            old(self).connection_to(peer_addr) is None ==> *final(self) == *old(self),
            old(self).connection_to(peer_addr) is Some ==> final(self).spec_stats() == (RdmaStats {
                active_connections: if old(self).spec_stats().active_connections > 0 {
                    (old(self).spec_stats().active_connections - 1) as usize
                } else {
                    0
                },
                ..old(self).spec_stats()
            }) && final(self).spec_connections().len() + 1 == old(self).spec_connections().len(),
            final(self).spec_queue() == old(self).spec_queue(),
    {
        match self.position(peer_addr) {
            Some(i) => {
                let ghost before = self.connections@;
                self.connections.remove(i);
                self.stats.active_connections = self.stats.active_connections.saturating_sub(1);
                proof {
                    assert(self.connections@ == before.remove(i as int));
                    assert forall|a: int, b: int| 0 <= a < b < self.connections@.len() implies self.connections@[a].peer_addr
                        != self.connections@[b].peer_addr by {
                        let a2 = if a < i { a } else { a + 1 };
                        let b2 = if b < i { b } else { b + 1 };
                        assert(self.connections@[a] == before[a2] && self.connections@[b] == before[b2]);
                    }
                    assert forall|k: int| 0 <= k < self.spec_connections().len() implies self.spec_connections()[k].peer_addr
                        != peer_addr by {
                        let k2 = if k < i { k } else { k + 1 };
                        assert(self.connections@[k] == before[k2]);
                    }
                }
            },
            None => {},
        }
    }

    /// Maintenance at `now`: connections whose last heartbeat is older
    /// than the timeout are marked failed and counted as failed and
    /// inactive (they stay in the table); connections owed a heartbeat get
    /// one queued and their heartbeat time moved to `now`.
    pub fn perform_maintenance_at(&mut self, now: u64)
        requires
            old(self).wf(),
            forall|i: int| 0 <= i < old(self).spec_connections().len() ==> (#[trigger] old(self).spec_connections()[i]).last_heartbeat
                <= now,
            old(self).spec_stats().failed_connections + old(self).spec_connections().len() <= u64::MAX,
        ensures
            final(self).wf(),
            final(self).spec_connections() == old(self).spec_connections().map_values(
                |c: RdmaConnection| maintained(c, now, old(self).spec_config().connection_timeout_ms, old(self).spec_config().heartbeat_interval_ms),
            ),
            queue_destinations(final(self).spec_queue()) == queue_destinations(old(self).spec_queue()) + heartbeat_targets(
                old(self).spec_connections(),
                now,
                old(self).spec_config().connection_timeout_ms,
                old(self).spec_config().heartbeat_interval_ms,
            ),
            final(self).spec_stats() == stats_after_maintenance(
                old(self).spec_stats(),
                stale_count(old(self).spec_connections(), now, old(self).spec_config().connection_timeout_ms),
            ),
            final(self).spec_config() == old(self).spec_config(),
    {
        let timeout = self.config.connection_timeout_ms;
        let interval = self.config.heartbeat_interval_ms;
        let ghost start = self.connections@;
        let ghost q0 = queue_destinations(self.message_queue@);
        let ghost f = |c: RdmaConnection| maintained(c, now, timeout, interval);
        let ghost stats0 = self.stats;
        let mut i: usize = 0;
        while i < self.connections.len()
            invariant
                0 <= i <= self.connections@.len(),
                self.connections@.len() == start.len(),
                timeout == self.config.connection_timeout_ms,
                interval == self.config.heartbeat_interval_ms,
                self.config == old(self).config,
                f == (|c: RdmaConnection| maintained(c, now, timeout, interval)),
                forall|j: int| 0 <= j < i ==> self.connections@[j] == f(start[j]),
                forall|j: int| i <= j < start.len() ==> self.connections@[j] == start[j],
                forall|j: int| 0 <= j < start.len() ==> (#[trigger] start[j]).last_heartbeat <= now,
                forall|j: int| 0 <= j < start.len() ==> self.connections@[j].peer_addr == (#[trigger] start[j]).peer_addr,
                queue_destinations(self.message_queue@) == q0 + heartbeat_targets(start.take(i as int), now, timeout, interval),
                self.stats == stats_after_maintenance(stats0, stale_count(start.take(i as int), now, timeout)),
                stats0.failed_connections + start.len() <= u64::MAX,
                stale_count(start.take(i as int), now, timeout) <= i,
            decreases start.len() - i,
        {
            proof {
                assert(start.take(i + 1).drop_last() =~= start.take(i as int));
                assert(start.take(i + 1).last() == start[i as int]);
            }
            let mut c = self.connections[i];
            if now - c.last_heartbeat > timeout {
                c.state = ConnectionState::Failed;
                self.stats.failed_connections = self.stats.failed_connections + 1;
                self.stats.active_connections = self.stats.active_connections.saturating_sub(1);
            }
            if c.state == ConnectionState::Connected && now - c.last_heartbeat >= interval {
                let heartbeat = RdmaMessage::Heartbeat { timestamp: now, node_id: String::from_str("local_node") };
                let ghost qb = self.message_queue@;
                self.message_queue.push(
                    QueuedMessage { message: heartbeat, destination: c.peer_addr, enqueue_time: now, retry_count: 0 },
                );
                proof {
                    assert(queue_destinations(self.message_queue@) =~= queue_destinations(qb).push(c.peer_addr));
                }
                c.last_heartbeat = now;
            }
            self.connections.set(i, c);
            i = i + 1;
        }
        proof {
            assert(start.take(start.len() as int) =~= start);
            assert(self.connections@ =~= start.map_values(f));
        }
    }

    /// Maintenance now: as `perform_maintenance_at` with the clock reading,
    /// where no connection's last heartbeat is later than that reading;
    /// otherwise nothing changes.
    pub fn perform_maintenance(&mut self)
        requires
            old(self).wf(),
            old(self).spec_stats().failed_connections + old(self).spec_connections().len() <= u64::MAX,
        ensures
            final(self).wf(),
            exists|now: u64| #[trigger] maintenance_outcome(*old(self), *final(self), now),
    {
        let now = now_millis();
        let mut ok = true;
        let mut i: usize = 0;
        while i < self.connections.len()
            invariant
                0 <= i <= self.connections@.len(),
                ok == forall|j: int| 0 <= j < i ==> (#[trigger] self.connections@[j]).last_heartbeat <= now,
            decreases self.connections@.len() - i,
        {
            if self.connections[i].last_heartbeat > now {
                ok = false;
            }
            i = i + 1;
        }
        if ok {
            self.perform_maintenance_at(now);
        }
        assert(maintenance_outcome(*old(self), *self, now));
    }
}

/// The estimated size of the queued messages.
pub open spec fn queue_bytes(q: Seq<QueuedMessage>) -> int
    decreases q.len(),
{
    if q.len() == 0 {
        0
    } else {
        queue_bytes(q.drop_last()) + message_size(q.last().message)
    }
}

/// The size of a prefix of the queue is at most that of the whole.
proof fn lemma_queue_bytes_prefix(q: Seq<QueuedMessage>, n: int)
    requires
        0 <= n <= q.len(),
    ensures
        queue_bytes(q.take(n)) <= queue_bytes(q),
        queue_bytes(q.take(n)) >= 0,
    decreases q.len(),
{
    if n < q.len() {
        assert(q.drop_last().take(n) =~= q.take(n));
        lemma_queue_bytes_prefix(q.drop_last(), n);
        lemma_queue_bytes_nonneg(q.drop_last());
    } else {
        assert(q.take(n) =~= q);
        lemma_queue_bytes_nonneg(q);
    }
}

proof fn lemma_queue_bytes_nonneg(q: Seq<QueuedMessage>)
    ensures
        queue_bytes(q) >= 0,
    decreases q.len(),
{
    if q.len() > 0 {
        lemma_queue_bytes_nonneg(q.drop_last());
    }
}

} // verus!
