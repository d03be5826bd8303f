//! Replication of shard state across nodes: an operation log, per-shard
//! pending operations, consistency checks, heartbeats and failover.
//!
//! Messages for the replica nodes are queued in an outbox that the caller
//! drains and delivers.
use vstd::prelude::*;
use std::collections::VecDeque;
use crate::clock::now_secs;
use crate::distributed::sharding::{node_label, ShardManager};
use crate::keyed::{
    keyed_map, keys_distinct, lemma_keyed_map_absent, lemma_keyed_map_index, lemma_keyed_map_update,
    lemma_keys_distinct_push,
};
use crate::encoding::{copy_bytes, decimal_chars};

verus! {

/// The longest the operation log grows; older entries are dropped.
pub const MAX_OPERATION_LOG: usize = 10000;

/// Replication configuration
#[derive(Debug, Clone, Copy, PartialEq, Eq, Structural)]
pub struct ReplicationConfig {
    pub replication_factor: u32,
    pub min_replicas: u32,
    pub sync_interval_seconds: u64,
    pub max_sync_lag_seconds: u64,
    pub auto_failover: bool,
    pub consistency_level: ConsistencyLevel,
}

impl Default for ReplicationConfig {
    /// Three replicas, at least two, sync every 30 s, at most 300 s of lag,
    /// automatic failover, strong consistency.
    fn default() -> (r: ReplicationConfig)
        ensures
            r == (ReplicationConfig {
                replication_factor: 3,
                min_replicas: 2,
                sync_interval_seconds: 30,
                max_sync_lag_seconds: 300,
                auto_failover: true,
                consistency_level: ConsistencyLevel::Strong,
            }),
    {
        ReplicationConfig {
            replication_factor: 3,
            min_replicas: 2,
            sync_interval_seconds: 30,
            max_sync_lag_seconds: 300,
            auto_failover: true,
            consistency_level: ConsistencyLevel::Strong,
        }
    }
}

/// Consistency levels for replication
#[derive(Debug, Clone, Copy, PartialEq, Eq, Structural)]
pub enum ConsistencyLevel {
    /// Strong consistency - all replicas must acknowledge
    Strong,
    /// Eventual consistency - replicas sync asynchronously
    Eventual,
    /// Quorum-based consistency
    Quorum,
}

#[derive(Debug, Clone, Copy, PartialEq, Eq, Structural)]
pub enum ReplicaStatus {
    Primary,
    Secondary,
    Syncing,
    Offline,
    Failed,
}

/// Replica node information. Priority 0 is the primary; a higher number is
/// a lower priority.
#[derive(Debug, Clone)]
pub struct ReplicaNode {
    pub node_id: String,
    pub address: String,
    pub last_heartbeat: u64,
    pub status: ReplicaStatus,
    pub lag_seconds: u64,
    pub priority: u8,
}

/// The view of a replica node.
pub struct ReplicaView {
    pub node_id: Seq<char>,
    pub address: Seq<char>,
    pub last_heartbeat: u64,
    pub status: ReplicaStatus,
    pub lag_seconds: u64,
    pub priority: u8,
}

impl View for ReplicaNode {
    type V = ReplicaView;

    open spec fn view(&self) -> ReplicaView {
        ReplicaView {
            node_id: self.node_id@,
            address: self.address@,
            last_heartbeat: self.last_heartbeat,
            status: self.status,
            lag_seconds: self.lag_seconds,
            priority: self.priority,
        }
    }
}

/// Replication operation types
#[derive(Debug, Clone)]
pub enum ReplicationOperation {
    StateUpdate { key: Vec<u8>, value: Vec<u8>, version: u64 },
    BatchUpdate { operations: Vec<(Vec<u8>, Vec<u8>)>, version: u64 },
    ShardSplit { old_shard: u32, new_shard: u32, split_key: Vec<u8> },
    NodeFailover { failed_node: String, new_primary: String },
}

/// The view of a replication operation.
pub enum OperationView {
    StateUpdate { key: Seq<u8>, value: Seq<u8>, version: u64 },
    BatchUpdate { operations: Seq<(Seq<u8>, Seq<u8>)>, version: u64 },
    ShardSplit { old_shard: u32, new_shard: u32, split_key: Seq<u8> },
    NodeFailover { failed_node: Seq<char>, new_primary: Seq<char> },
}

/// The views of key-value pairs.
pub open spec fn pair_views(v: Seq<(Vec<u8>, Vec<u8>)>) -> Seq<(Seq<u8>, Seq<u8>)> {
    v.map_values(|p: (Vec<u8>, Vec<u8>)| (p.0@, p.1@))
}

impl View for ReplicationOperation {
    type V = OperationView;

    open spec fn view(&self) -> OperationView {
        match self {
            ReplicationOperation::StateUpdate { key, value, version } => OperationView::StateUpdate {
                key: key@,
                value: value@,
                version: *version,
            },
            ReplicationOperation::BatchUpdate { operations, version } => OperationView::BatchUpdate {
                operations: pair_views(operations@),
                version: *version,
            },
            ReplicationOperation::ShardSplit { old_shard, new_shard, split_key } => OperationView::ShardSplit {
                old_shard: *old_shard,
                new_shard: *new_shard,
                split_key: split_key@,
            },
            ReplicationOperation::NodeFailover { failed_node, new_primary } => OperationView::NodeFailover {
                failed_node: failed_node@,
                new_primary: new_primary@,
            },
        }
    }
}

/// A copy of a list of key-value pairs.
fn copy_pairs(v: &Vec<(Vec<u8>, Vec<u8>)>) -> (r: Vec<(Vec<u8>, Vec<u8>)>)
    ensures
        pair_views(r@) == pair_views(v@),
{
    let mut out: Vec<(Vec<u8>, Vec<u8>)> = Vec::new();
    let mut i: usize = 0;
    while i < v.len()
        invariant
            0 <= i <= v@.len(),
            pair_views(out@) == pair_views(v@).take(i as int),
        decreases v@.len() - i,
    {
        let ghost before = out@;
        out.push((copy_bytes(&v[i].0), copy_bytes(&v[i].1)));
        proof {
            assert(pair_views(out@) =~= pair_views(before).push((v@[i as int].0@, v@[i as int].1@)));
            assert(pair_views(out@) =~= pair_views(v@).take(i + 1));
        }
        i = i + 1;
    }
    assert(pair_views(v@).take(v@.len() as int) =~= pair_views(v@));
    out
}

impl ReplicationOperation {
    /// A copy of the operation.
    pub fn duplicate(&self) -> (r: ReplicationOperation)
        ensures
            r@ == self@,
    {
        match self {
            ReplicationOperation::StateUpdate { key, value, version } => ReplicationOperation::StateUpdate {
                key: copy_bytes(key),
                value: copy_bytes(value),
                version: *version,
            },
            ReplicationOperation::BatchUpdate { operations, version } => ReplicationOperation::BatchUpdate {
                operations: copy_pairs(operations),
                version: *version,
            },
            ReplicationOperation::ShardSplit { old_shard, new_shard, split_key } => ReplicationOperation::ShardSplit {
                old_shard: *old_shard,
                new_shard: *new_shard,
                split_key: copy_bytes(split_key),
            },
            ReplicationOperation::NodeFailover { failed_node, new_primary } => ReplicationOperation::NodeFailover {
                failed_node: failed_node.clone(),
                new_primary: new_primary.clone(),
            },
        }
    }
}

/// The shard an operation belongs to: a state update by the length of its
/// key modulo 16, a batch to shard 0, a split to the shard it splits; a
/// failover to none in particular.
pub open spec fn operation_shard(op: OperationView) -> Option<u32> {
    match op {
        OperationView::StateUpdate { key, .. } => Some((key.len() % 16) as u32),
        OperationView::BatchUpdate { .. } => Some(0),
        OperationView::ShardSplit { old_shard, .. } => Some(old_shard),
        OperationView::NodeFailover { .. } => None,
    }
}

/// Replication state for a shard; the checksums are the state hashes that
/// replica nodes reported, by node.
#[derive(Debug, Clone)]
pub struct ShardReplicationState {
    pub shard_id: u32,
    pub primary_node: String,
    pub replica_nodes: Vec<String>,
    pub last_sync_height: u64,
    pub pending_operations: VecDeque<ReplicationOperation>,
    pub consistency_checksums: Vec<(String, Vec<u8>)>,
}

/// The view of a shard's replication state.
pub struct StateView {
    pub shard_id: u32,
    pub primary_node: Seq<char>,
    pub replica_nodes: Seq<Seq<char>>,
    pub last_sync_height: u64,
    pub pending_operations: Seq<OperationView>,
    pub consistency_checksums: Seq<(Seq<char>, Seq<u8>)>,
}

/// The views of a list of strings.
pub open spec fn string_views(v: Seq<String>) -> Seq<Seq<char>> {
    v.map_values(|s: String| s@)
}

impl View for ShardReplicationState {
    type V = StateView;

    open spec fn view(&self) -> StateView {
        StateView {
            shard_id: self.shard_id,
            primary_node: self.primary_node@,
            replica_nodes: string_views(self.replica_nodes@),
            last_sync_height: self.last_sync_height,
            pending_operations: self.pending_operations@.map_values(|o: ReplicationOperation| o@),
            consistency_checksums: self.consistency_checksums@.map_values(|p: (String, Vec<u8>)| (p.0@, p.1@)),
        }
    }
}

/// A message for the replica nodes.
#[derive(Debug, Clone)]
pub enum SyncMessage {
    SyncShard { shard_id: u32, target_node: String },
    CheckConsistency { shard_id: u32 },
    Failover { shard_id: u32, failed_node: String },
    Heartbeat { node_id: String },
}

/// The view of a message.
pub enum MessageView {
    SyncShard { shard_id: u32, target_node: Seq<char> },
    CheckConsistency { shard_id: u32 },
    Failover { shard_id: u32, failed_node: Seq<char> },
    Heartbeat { node_id: Seq<char> },
}

impl View for SyncMessage {
    type V = MessageView;

    open spec fn view(&self) -> MessageView {
        match self {
            SyncMessage::SyncShard { shard_id, target_node } => MessageView::SyncShard {
                shard_id: *shard_id,
                target_node: target_node@,
            },
            SyncMessage::CheckConsistency { shard_id } => MessageView::CheckConsistency { shard_id: *shard_id },
            SyncMessage::Failover { shard_id, failed_node } => MessageView::Failover {
                shard_id: *shard_id,
                failed_node: failed_node@,
            },
            SyncMessage::Heartbeat { node_id } => MessageView::Heartbeat { node_id: node_id@ },
        }
    }
}

/// Errors of the replication system.
#[derive(Debug, Clone, Copy, PartialEq, Eq, Structural)]
pub enum ReplicationError {
    /// No secondary replica can take over from the failed node.
    NoFailoverCandidate,
}

/// Consistency check report
#[derive(Debug, Clone, Default)]
pub struct ConsistencyReport {
    pub total_shards: usize,
    pub consistent_shards: Vec<u32>,
    pub inconsistent_shards: Vec<u32>,
}

impl ConsistencyReport {
    /// No shard was found inconsistent.
    pub fn is_fully_consistent(&self) -> (r: bool)
        ensures
            r == (self.inconsistent_shards@.len() == 0),
    {
        self.inconsistent_shards.len() == 0
    }
}

/// Replication statistics
#[derive(Debug, Clone, Copy)]
pub struct ReplicationStats {
    pub total_nodes: usize,
    pub active_nodes: usize,
    pub total_shards: usize,
    pub pending_operations: usize,
    pub operation_log_size: usize,
}

/// The key of a replica node: its id.
pub open spec fn replica_key() -> spec_fn(ReplicaView) -> Seq<char> {
    |n: ReplicaView| n.node_id
}

/// The key of a shard's replication state: the shard.
pub open spec fn state_key() -> spec_fn(StateView) -> u32 {
    |s: StateView| s.shard_id
}

/// The log after appending an operation, its oldest entry dropped when it
/// grows past its limit.
pub open spec fn logged(log: Seq<OperationView>, op: OperationView) -> Seq<OperationView> {
    let l = log.push(op);
    if l.len() > MAX_OPERATION_LOG {
        l.drop_first()
    } else {
        l
    }
}

/// All checksums agree.
pub open spec fn checksums_agree(c: Seq<(Seq<char>, Seq<u8>)>) -> bool {
    forall|i: int, j: int| 0 <= i < c.len() && 0 <= j < c.len() ==> c[i].1 == c[j].1
}

/// A replica that may take over: not the failed node, known, and secondary.
pub open spec fn eligible(nodes: Map<Seq<char>, ReplicaView>, name: Seq<char>, failed: Seq<char>) -> bool {
    name != failed && nodes.contains_key(name) && nodes[name].status == ReplicaStatus::Secondary
}

/// The replica with the smallest priority number among the eligible ones,
/// the first of them on ties, with its priority.
pub open spec fn best_candidate(names: Seq<Seq<char>>, nodes: Map<Seq<char>, ReplicaView>, failed: Seq<char>) -> Option<
    (u8, Seq<char>),
>
    decreases names.len(),
{
    if names.len() == 0 {
        None
    } else {
        let b = best_candidate(names.drop_last(), nodes, failed);
        let n = names.last();
        if eligible(nodes, n, failed) {
            match b {
                None => Some((nodes[n].priority, n)),
                Some(bb) => if nodes[n].priority < bb.0 {
                    Some((nodes[n].priority, n))
                } else {
                    b
                },
            }
        } else {
            b
        }
    }
}

/// The failover messages for the shards whose primary failed, in order, and
/// whether every such shard had a candidate; the run stops at the first
/// that had none.
pub open spec fn failover_run(states: Seq<StateView>, nodes: Map<Seq<char>, ReplicaView>, failed: Seq<char>) -> (
    Seq<MessageView>,
    bool,
)
    decreases states.len(),
{
    if states.len() == 0 {
        (Seq::empty(), true)
    } else {
        let prev = failover_run(states.drop_last(), nodes, failed);
        let st = states.last();
        if !prev.1 {
            prev
        } else if st.primary_node != failed {
            prev
        } else {
            match best_candidate(st.replica_nodes, nodes, failed) {
                None => (prev.0, false),
                Some(_) => (prev.0.push(MessageView::Failover { shard_id: st.shard_id, failed_node: failed }), true),
            }
        }
    }
}

/// The sync messages for the shards with pending operations: one per replica
/// node of each, in order.
pub open spec fn sync_run(states: Seq<StateView>) -> Seq<MessageView>
    decreases states.len(),
{
    if states.len() == 0 {
        Seq::empty()
    } else {
        let st = states.last();
        sync_run(states.drop_last()) + if st.pending_operations.len() > 0 {
            st.replica_nodes.map_values(|n: Seq<char>| MessageView::SyncShard { shard_id: st.shard_id, target_node: n })
        } else {
            Seq::empty()
        }
    }
}

/// Whether a replica counts as active: neither failed nor offline.
pub open spec fn is_active_replica(n: ReplicaView) -> bool {
    n.status != ReplicaStatus::Failed && n.status != ReplicaStatus::Offline
}

/// The total number of pending operations.
pub open spec fn pending_total(states: Seq<StateView>) -> nat
    decreases states.len(),
{
    if states.len() == 0 {
        0
    } else {
        pending_total(states.drop_last()) + states.last().pending_operations.len()
    }
}

/// The local node's entry: primary, no address, heartbeat at `now`.
pub open spec fn local_replica(now: u64) -> ReplicaView {
    ReplicaView {
        node_id: seq!['l', 'o', 'c', 'a', 'l'],
        address: seq!['0', '.', '0', '.', '0', '.', '0', ':', '0'],
        last_heartbeat: now,
        status: ReplicaStatus::Primary,
        lag_seconds: 0,
        priority: 0,
    }
}

/// A standby replica's entry: `replica_<n>`, secondary, no address,
/// heartbeat at `now`, priority `n`.
pub open spec fn standby_replica(n: u8, now: u64) -> ReplicaView {
    ReplicaView {
        node_id: seq!['r', 'e', 'p', 'l', 'i', 'c', 'a', '_'] + decimal_chars(n as nat),
        address: seq!['0', '.', '0', '.', '0', '.', '0', ':', '0'],
        last_heartbeat: now,
        status: ReplicaStatus::Secondary,
        lag_seconds: 0,
        priority: n,
    }
}

/// The nodes after start-up at `now`: the local node as primary and two
/// standby replicas, `replica_1` and `replica_2`.
pub open spec fn started_nodes(nodes: Map<Seq<char>, ReplicaView>, now: u64) -> Map<Seq<char>, ReplicaView> {
    nodes.insert(local_replica(now).node_id, local_replica(now)).insert(
        standby_replica(1, now).node_id,
        standby_replica(1, now),
    ).insert(standby_replica(2, now).node_id, standby_replica(2, now))
}

/// The replication state a shard starts with: the local node primary, no
/// pending operations, no checksums.
pub open spec fn fresh_state(shard_id: u32, replicas: Seq<Seq<char>>) -> StateView {
    StateView {
        shard_id,
        primary_node: seq!['l', 'o', 'c', 'a', 'l'],
        replica_nodes: replicas,
        last_sync_height: 0,
        pending_operations: Seq::empty(),
        consistency_checksums: Seq::empty(),
    }
}

/// The replica nodes the shard manager names for a shard.
pub open spec fn shard_replicas(sm: ShardManager, shard_id: u32) -> Seq<Seq<char>> {
    if shard_id >= sm.spec_shards().len() {
        Seq::empty()
    } else {
        let n = if sm.spec_config().replication_factor == 0 { 1 } else { sm.spec_config().replication_factor as int };
        Seq::new(
            n as nat,
            |i: int|
                if i == 0 {
                    sm.spec_shards()[shard_id as int].1
                } else {
                    node_label(((shard_id + i) % 10) as nat)
                },
        )
    }
}

/// The states after initializing shards `0..n`.
pub open spec fn initialized_states(m: Map<u32, StateView>, sm: ShardManager, n: nat) -> Map<u32, StateView>
    decreases n,
{
    if n == 0 {
        m
    } else {
        initialized_states(m, sm, (n - 1) as nat).insert(
            (n - 1) as u32,
            fresh_state((n - 1) as u32, shard_replicas(sm, (n - 1) as u32)),
        )
    }
}

/// The check messages for the shards, in order.
pub open spec fn check_msgs(states: Seq<StateView>) -> Seq<MessageView> {
    states.map_values(|st: StateView| MessageView::CheckConsistency { shard_id: st.shard_id })
}

/// The shards whose checksums agree (`agree`) or do not, in order.
pub open spec fn shards_where(states: Seq<StateView>, agree: bool) -> Seq<u32>
    decreases states.len(),
{
    if states.len() == 0 {
        Seq::empty()
    } else {
        shards_where(states.drop_last(), agree) + if checksums_agree(states.last().consistency_checksums) == agree {
            seq![states.last().shard_id]
        } else {
            Seq::empty()
        }
    }
}

/// The number of active replicas.
pub open spec fn active_count(nodes: Seq<ReplicaView>) -> nat
    decreases nodes.len(),
{
    if nodes.len() == 0 {
        0
    } else {
        active_count(nodes.drop_last()) + if is_active_replica(nodes.last()) { 1nat } else { 0nat }
    }
}

/// A node after a heartbeat at `now`: an offline node is back as secondary.
pub open spec fn after_heartbeat(n: ReplicaView, now: u64) -> ReplicaView {
    ReplicaView {
        last_heartbeat: now,
        status: if n.status == ReplicaStatus::Offline { ReplicaStatus::Secondary } else { n.status },
        ..n
    }
}

/// The nodes after a heartbeat from `id` at clock reading `now`: the node,
/// where known, is updated; unknown nodes are ignored.
pub open spec fn with_heartbeat(nodes: Map<Seq<char>, ReplicaView>, id: Seq<char>, now: u64) -> Map<Seq<char>, ReplicaView> {
    if nodes.contains_key(id) {
        nodes.insert(id, after_heartbeat(nodes[id], now))
    } else {
        nodes
    }
}

/// The nodes after a failure report: the node, where known, is failed.
pub open spec fn with_failed(nodes: Map<Seq<char>, ReplicaView>, failed: Seq<char>) -> Map<Seq<char>, ReplicaView> {
    if nodes.contains_key(failed) {
        nodes.insert(failed, ReplicaView { status: ReplicaStatus::Failed, ..nodes[failed] })
    } else {
        nodes
    }
}

/// Once a failover run stops, later shards change nothing.
pub proof fn lemma_failover_stops(states: Seq<StateView>, nodes: Map<Seq<char>, ReplicaView>, failed: Seq<char>, i: int)
    requires
        0 <= i <= states.len(),
        !failover_run(states.take(i), nodes, failed).1,
    ensures
        failover_run(states, nodes, failed) == failover_run(states.take(i), nodes, failed),
    decreases states.len(),
{
    if i == states.len() {
        assert(states.take(i) =~= states);
    } else {
        assert(states.drop_last().take(i) =~= states.take(i));
        lemma_failover_stops(states.drop_last(), nodes, failed, i);
    }
}

/// The failover candidate is an eligible replica of the shard, and no
/// eligible replica has a smaller priority number; where there is none, no
/// replica is eligible.
pub proof fn lemma_best_candidate_minimal(names: Seq<Seq<char>>, nodes: Map<Seq<char>, ReplicaView>, failed: Seq<char>)
    ensures
        match best_candidate(names, nodes, failed) {
            Some(b) => {
                &&& names.contains(b.1)
                &&& eligible(nodes, b.1, failed)
                &&& nodes[b.1].priority == b.0
                &&& forall|k: int| 0 <= k < names.len() && eligible(nodes, #[trigger] names[k], failed) ==> b.0
                    <= nodes[names[k]].priority
            },
            None => forall|k: int| 0 <= k < names.len() ==> !eligible(nodes, #[trigger] names[k], failed),
        },
    decreases names.len(),
{
    if names.len() > 0 {
        let t = names.drop_last();
        lemma_best_candidate_minimal(t, nodes, failed);
        assert forall|k: int| 0 <= k < t.len() implies #[trigger] names[k] == t[k] by {}
        match best_candidate(names, nodes, failed) {
            Some(b) => {
                if b.1 == names.last() {
                    assert(names[names.len() - 1] == b.1);
                } else {
                    let i = choose|i: int| 0 <= i < t.len() && t[i] == b.1;
                    assert(names[i] == b.1);
                }
                assert forall|k: int| 0 <= k < names.len() && eligible(nodes, #[trigger] names[k], failed) implies b.0
                    <= nodes[names[k]].priority by {
                    if k < t.len() {
                        assert(names[k] == t[k]);
                    }
                }
            },
            None => {
                assert forall|k: int| 0 <= k < names.len() implies !eligible(nodes, #[trigger] names[k], failed) by {
                    if k < t.len() {
                        assert(names[k] == t[k]);
                    }
                }
            },
        }
    }
}

/// A standby replica's entry, as `standby_replica` describes it.
fn standby_node(n: u8, now: u64) -> (r: ReplicaNode)
    requires
        n == 1 || n == 2,
    ensures
        r@ == standby_replica(n, now),
{
    let node_id = if n == 1 {
        String::from_str("replica_1")
    } else {
        String::from_str("replica_2")
    };
    let address = String::from_str("0.0.0.0:0");
    proof {
        reveal_strlit("replica_1");
        reveal_strlit("replica_2");
        reveal_strlit("0.0.0.0:0");
        assert(decimal_chars(1) =~= seq!['1']);
        assert(decimal_chars(2) =~= seq!['2']);
        assert(node_id@ =~= standby_replica(n, now).node_id);
        assert(address@ =~= standby_replica(n, now).address);
    }
    ReplicaNode { node_id, address, last_heartbeat: now, status: ReplicaStatus::Secondary, lag_seconds: 0, priority: n }
}

/// Main replication manager
pub struct ReplicationManager {
    config: ReplicationConfig,
    shard_manager: ShardManager,
    replica_nodes: Vec<ReplicaNode>,
    shard_states: Vec<ShardReplicationState>,
    operation_log: VecDeque<ReplicationOperation>,
    outbox: Vec<SyncMessage>,
}

impl ReplicationManager {
    pub closed spec fn spec_config(&self) -> ReplicationConfig {
        self.config
    }

    pub closed spec fn spec_shard_manager(&self) -> ShardManager {
        self.shard_manager
    }

    /// The replica nodes in the order they were added.
    pub closed spec fn spec_node_list(&self) -> Seq<ReplicaView> {
        self.replica_nodes@.map_values(|n: ReplicaNode| n@)
    }

    /// The replica nodes by id.
    pub open spec fn spec_nodes(&self) -> Map<Seq<char>, ReplicaView> {
        keyed_map(self.spec_node_list(), replica_key())
    }

    /// The shards' replication states in the order they were added.
    pub closed spec fn spec_state_list(&self) -> Seq<StateView> {
        self.shard_states@.map_values(|s: ShardReplicationState| s@)
    }

    /// The shards' replication states by shard.
    pub open spec fn spec_states(&self) -> Map<u32, StateView> {
        keyed_map(self.spec_state_list(), state_key())
    }

    /// The operation log, oldest first.
    pub closed spec fn spec_log(&self) -> Seq<OperationView> {
        self.operation_log@.map_values(|o: ReplicationOperation| o@)
    }

    /// The messages waiting to be delivered, oldest first.
    pub closed spec fn spec_outbox(&self) -> Seq<MessageView> {
        self.outbox@.map_values(|m: SyncMessage| m@)
    }

    /// Node ids and shard ids do not repeat; the log stays within its limit.
    pub closed spec fn wf(&self) -> bool {
        &&& self.shard_manager.wf()
        &&& keys_distinct(self.spec_node_list(), replica_key())
        &&& keys_distinct(self.spec_state_list(), state_key())
        &&& self.operation_log@.len() <= MAX_OPERATION_LOG
    }

    pub fn new(config: ReplicationConfig, shard_manager: ShardManager) -> (r: ReplicationManager)
        requires
            shard_manager.wf(),
        ensures
            r.wf(),
            r.spec_config() == config,
            r.spec_shard_manager() == shard_manager,
            r.spec_node_list().len() == 0,
            r.spec_state_list().len() == 0,
            r.spec_log().len() == 0,
            r.spec_outbox().len() == 0,
    {
        let r = ReplicationManager {
            config,
            shard_manager,
            replica_nodes: Vec::new(),
            shard_states: Vec::new(),
            operation_log: VecDeque::new(),
            outbox: Vec::new(),
        };
        assert(r.spec_node_list() =~= Seq::<ReplicaView>::empty());
        assert(r.spec_state_list() =~= Seq::<StateView>::empty());
        r
    }

    /// The configuration.
    pub fn config(&self) -> (r: ReplicationConfig)
        ensures
            r == self.spec_config(),
    {
        self.config
    }

    /// The shard manager.
    pub fn shard_manager(&self) -> (r: &ShardManager)
        ensures
            *r == self.spec_shard_manager(),
    {
        &self.shard_manager
    }

    /// Position of a replica node.
    fn find_node(&self, node_id: &str) -> (r: Option<usize>)
        requires
            keys_distinct(self.spec_node_list(), replica_key()),
        ensures
            match r {
                Some(i) => i < self.replica_nodes@.len() && self.spec_node_list()[i as int].node_id == node_id@
                    && self.spec_nodes().contains_key(node_id@) && self.spec_nodes()[node_id@]
                    == self.spec_node_list()[i as int],
                None => !self.spec_nodes().contains_key(node_id@),
            },
    {
        let wanted = String::from_str(node_id);
        let mut i: usize = 0;
        while i < self.replica_nodes.len()
            invariant
                0 <= i <= self.replica_nodes@.len(),
                wanted@ == node_id@,
                keys_distinct(self.spec_node_list(), replica_key()),
                forall|j: int| 0 <= j < i ==> (#[trigger] self.replica_nodes@[j]).node_id@ != node_id@,
            decreases self.replica_nodes@.len() - i,
        {
            if self.replica_nodes[i].node_id == wanted {
                proof {
                    lemma_keyed_map_index(self.spec_node_list(), replica_key(), i as int);
                }
                return Some(i);
            }
            i = i + 1;
        }
        proof {
            assert forall|j: int| 0 <= j < self.spec_node_list().len() implies (replica_key())(
                self.spec_node_list()[j],
            ) != node_id@ by {
                assert(self.spec_node_list()[j] == self.replica_nodes@[j]@);
            }
            lemma_keyed_map_absent(self.spec_node_list(), replica_key(), node_id@);
        }
        None
    }

    /// Position of a shard's replication state.
    fn find_state(&self, shard_id: u32) -> (r: Option<usize>)
        requires
            keys_distinct(self.spec_state_list(), state_key()),
        ensures
            match r {
                Some(i) => i < self.shard_states@.len() && self.spec_state_list()[i as int].shard_id == shard_id
                    && self.spec_states().contains_key(shard_id) && self.spec_states()[shard_id]
                    == self.spec_state_list()[i as int],
                None => !self.spec_states().contains_key(shard_id),
            },
    {
        let mut i: usize = 0;
        while i < self.shard_states.len()
            invariant
                0 <= i <= self.shard_states@.len(),
                keys_distinct(self.spec_state_list(), state_key()),
                forall|j: int| 0 <= j < i ==> (#[trigger] self.shard_states@[j]).shard_id != shard_id,
            decreases self.shard_states@.len() - i,
        {
            if self.shard_states[i].shard_id == shard_id {
                proof {
                    lemma_keyed_map_index(self.spec_state_list(), state_key(), i as int);
                }
                return Some(i);
            }
            i = i + 1;
        }
        proof {
            assert forall|j: int| 0 <= j < self.spec_state_list().len() implies (state_key())(
                self.spec_state_list()[j],
            ) != shard_id by {
                assert(self.spec_state_list()[j] == self.shard_states@[j]@);
            }
            lemma_keyed_map_absent(self.spec_state_list(), state_key(), shard_id);
        }
        None
    }

    /// Adds a replica node, or replaces the one with its id.
    fn upsert_node(&mut self, node: ReplicaNode)
        requires
            old(self).wf(),
        ensures
            final(self).wf(),
            final(self).spec_nodes() == old(self).spec_nodes().insert(node@.node_id, node@),
            final(self).spec_state_list() == old(self).spec_state_list(),
            final(self).spec_log() == old(self).spec_log(),
            final(self).spec_outbox() == old(self).spec_outbox(),
            final(self).spec_config() == old(self).spec_config(),
            final(self).spec_shard_manager() == old(self).spec_shard_manager(),
    {
        let ghost nv = node@;
        let ghost before = self.spec_node_list();
        match self.find_node(node.node_id.as_str()) {
            Some(i) => {
                self.replica_nodes.set(i, node);
                proof {
                    assert(self.spec_node_list() =~= before.update(i as int, nv));
                    lemma_keyed_map_update(before, replica_key(), i as int, nv);
                }
            },
            None => {
                proof {
                    lemma_keys_distinct_push(before, replica_key(), nv);
                }
                self.replica_nodes.push(node);
                proof {
                    assert(self.spec_node_list() =~= before.push(nv));
                    assert(self.spec_node_list().drop_last() =~= before);
                }
            },
        }
    }

    /// Adds a shard's replication state, or replaces the one of its shard.
    fn upsert_state(&mut self, st: ShardReplicationState)
        requires
            old(self).wf(),
        ensures
            final(self).wf(),
            final(self).spec_states() == old(self).spec_states().insert(st@.shard_id, st@),
            final(self).spec_node_list() == old(self).spec_node_list(),
            final(self).spec_log() == old(self).spec_log(),
            final(self).spec_outbox() == old(self).spec_outbox(),
            final(self).spec_config() == old(self).spec_config(),
            final(self).spec_shard_manager() == old(self).spec_shard_manager(),
    {
        let ghost sv = st@;
        let ghost before = self.spec_state_list();
        match self.find_state(st.shard_id) {
            Some(i) => {
                self.shard_states.set(i, st);
                proof {
                    assert(self.spec_state_list() =~= before.update(i as int, sv));
                    lemma_keyed_map_update(before, state_key(), i as int, sv);
                }
            },
            None => {
                proof {
                    lemma_keys_distinct_push(before, state_key(), sv);
                }
                self.shard_states.push(st);
                proof {
                    assert(self.spec_state_list() =~= before.push(sv));
                    assert(self.spec_state_list().drop_last() =~= before);
                }
            },
        }
    }

    /// Registers the local node as primary and gives every shard of the
    /// shard manager a fresh replication state, at clock reading `now`.
    pub fn initialize_replication_at(&mut self, now: u64) -> (r: Result<(), ReplicationError>)
        requires
            old(self).wf(),
        ensures
            final(self).wf(),
            r is Ok,
            final(self).spec_nodes() == started_nodes(old(self).spec_nodes(), now),
            final(self).spec_states() == initialized_states(
                old(self).spec_states(),
                old(self).spec_shard_manager(),
                old(self).spec_shard_manager().spec_config().num_shards as nat,
            ),
            final(self).spec_log() == old(self).spec_log(),
            final(self).spec_outbox() == old(self).spec_outbox(),
            final(self).spec_config() == old(self).spec_config(),
            final(self).spec_shard_manager() == old(self).spec_shard_manager(),
    {
        let local = ReplicaNode {
            node_id: String::from_str("local"),
            address: String::from_str("0.0.0.0:0"),
            last_heartbeat: now,
            status: ReplicaStatus::Primary,
            lag_seconds: 0,
            priority: 0,
        };
        proof {
            reveal_strlit("local");
            reveal_strlit("0.0.0.0:0");
            assert(local.node_id@ =~= seq!['l', 'o', 'c', 'a', 'l']);
            assert(local.address@ =~= seq!['0', '.', '0', '.', '0', '.', '0', ':', '0']);
            assert(local@ == local_replica(now));
        }
        self.upsert_node(local);
        let first = standby_node(1, now);
        self.upsert_node(first);
        let second = standby_node(2, now);
        self.upsert_node(second);
        let n = self.shard_manager.config().num_shards;
        let mut shard_id: u32 = 0;
        while shard_id < n
            invariant
                0 <= shard_id <= n,
                n == old(self).spec_shard_manager().spec_config().num_shards,
                self.wf(),
                self.spec_nodes() == started_nodes(old(self).spec_nodes(), now),
                self.spec_states() == initialized_states(
                    old(self).spec_states(),
                    old(self).spec_shard_manager(),
                    shard_id as nat,
                ),
                self.spec_log() == old(self).spec_log(),
                self.spec_outbox() == old(self).spec_outbox(),
                self.spec_config() == old(self).spec_config(),
                self.spec_shard_manager() == old(self).spec_shard_manager(),
            decreases n - shard_id,
        {
            let replicas = self.shard_manager.get_replica_nodes(shard_id);
            proof {
                assert(string_views(replicas@) =~= shard_replicas(self.spec_shard_manager(), shard_id));
            }
            let st = ShardReplicationState {
                shard_id,
                primary_node: String::from_str("local"),
                replica_nodes: replicas,
                last_sync_height: 0,
                pending_operations: VecDeque::new(),
                consistency_checksums: Vec::new(),
            };
            proof {
                reveal_strlit("local");
                assert(st.primary_node@ =~= seq!['l', 'o', 'c', 'a', 'l']);
                assert(st@.pending_operations =~= Seq::<OperationView>::empty());
                assert(st@.consistency_checksums =~= Seq::<(Seq<char>, Seq<u8>)>::empty());
                assert(st@ == fresh_state(shard_id, shard_replicas(old(self).spec_shard_manager(), shard_id)));
            }
            self.upsert_state(st);
            shard_id = shard_id + 1;
        }
        Ok(())
    }

    /// Registers the local node as primary and two standby replicas, and
    /// initializes every shard, now.
    pub fn initialize_replication(&mut self) -> (r: Result<(), ReplicationError>)
        requires
            old(self).wf(),
        ensures
            final(self).wf(),
            r is Ok,
            exists|now: u64| final(self).spec_nodes() == #[trigger] started_nodes(old(self).spec_nodes(), now),
            final(self).spec_states() == initialized_states(
                old(self).spec_states(),
                old(self).spec_shard_manager(),
                old(self).spec_shard_manager().spec_config().num_shards as nat,
            ),
            final(self).spec_log() == old(self).spec_log(),
            final(self).spec_outbox() == old(self).spec_outbox(),
            final(self).spec_config() == old(self).spec_config(),
            final(self).spec_shard_manager() == old(self).spec_shard_manager(),
    {
        let now = now_secs();
        let r = self.initialize_replication_at(now);
        assert(self.spec_nodes() == started_nodes(old(self).spec_nodes(), now));
        r
    }

    /// The shard an operation belongs to.
    fn get_operation_shard(&self, operation: &ReplicationOperation) -> (r: Option<u32>)
        ensures
            r == operation_shard(operation@),
    {
        match operation {
            ReplicationOperation::StateUpdate { key, .. } => Some((key.len() % 16) as u32),
            ReplicationOperation::BatchUpdate { .. } => Some(0),
            ReplicationOperation::ShardSplit { old_shard, .. } => Some(*old_shard),
            ReplicationOperation::NodeFailover { .. } => None,
        }
    }

    /// Appends an operation to the log, dropping the oldest entry past the
    /// limit, and queues it on its shard where that shard is replicated.
    pub fn replicate_operation(&mut self, operation: ReplicationOperation) -> (r: Result<(), ReplicationError>)
        requires
            old(self).wf(),
        ensures
            final(self).wf(),
            r is Ok,
            final(self).spec_log() == logged(old(self).spec_log(), operation@),
            match operation_shard(operation@) {
                Some(s) => if old(self).spec_states().contains_key(s) {
                    final(self).spec_states() == old(self).spec_states().insert(
                        s,
                        StateView {
                            pending_operations: old(self).spec_states()[s].pending_operations.push(operation@),
                            ..old(self).spec_states()[s]
                        },
                    )
                } else {
                    final(self).spec_states() == old(self).spec_states()
                },
                None => final(self).spec_states() == old(self).spec_states(),
            },
            final(self).spec_node_list() == old(self).spec_node_list(),
            final(self).spec_outbox() == old(self).spec_outbox(),
            final(self).spec_config() == old(self).spec_config(),
            final(self).spec_shard_manager() == old(self).spec_shard_manager(),
    {
        let ghost ov = operation@;
        let ghost log0 = self.spec_log();
        self.operation_log.push_back(operation.duplicate());
        proof {
            assert(self.spec_log() =~= log0.push(ov));
        }
        if self.operation_log.len() > MAX_OPERATION_LOG {
            let ghost l1 = self.spec_log();
            let _ = self.operation_log.pop_front();
            proof {
                assert(self.spec_log() =~= l1.drop_first());
            }
        }
        let shard = self.get_operation_shard(&operation);
        match shard {
            Some(s) => {
                match self.find_state(s) {
                    Some(i) => {
                        let ghost before = self.spec_state_list();
                        self.shard_states[i].pending_operations.push_back(operation);
                        proof {
                            let nv = StateView {
                                pending_operations: before[i as int].pending_operations.push(ov),
                                ..before[i as int]
                            };
                            assert(self.spec_state_list()[i as int].pending_operations =~= nv.pending_operations);
                            assert(self.spec_state_list() =~= before.update(i as int, nv));
                            lemma_keyed_map_update(before, state_key(), i as int, nv);
                        }
                    },
                    None => {},
                }
            },
            None => {},
        }
        Ok(())
    }

    /// Queues a sync message for every replica of every shard that has
    /// pending operations.
    pub fn sync_pending_operations(&mut self) -> (r: Result<(), ReplicationError>)
        requires
            old(self).wf(),
        ensures
            final(self).wf(),
            r is Ok,
            final(self).spec_outbox() == old(self).spec_outbox() + sync_run(old(self).spec_state_list()),
            final(self).spec_node_list() == old(self).spec_node_list(),
            final(self).spec_state_list() == old(self).spec_state_list(),
            final(self).spec_log() == old(self).spec_log(),
            final(self).spec_config() == old(self).spec_config(),
            final(self).spec_shard_manager() == old(self).spec_shard_manager(),
    {
        let ghost states = self.spec_state_list();
        let mut i: usize = 0;
        while i < self.shard_states.len()
            invariant
                0 <= i <= self.shard_states@.len(),
                self.wf(),
                self.spec_state_list() == states,
                self.spec_node_list() == old(self).spec_node_list(),
                self.spec_log() == old(self).spec_log(),
                self.spec_config() == old(self).spec_config(),
                self.spec_shard_manager() == old(self).spec_shard_manager(),
                self.spec_outbox() == old(self).spec_outbox() + sync_run(states.take(i as int)),
            decreases self.shard_states@.len() - i,
        {
            let ghost st = states[i as int];
            proof {
                assert(states.take(i + 1).drop_last() =~= states.take(i as int));
                assert(states[i as int] == self.shard_states@[i as int]@);
            }
            if self.shard_states[i].pending_operations.len() > 0 {
                let ghost base = self.spec_outbox();
                let mut j: usize = 0;
                while j < self.shard_states[i].replica_nodes.len()
                    invariant
                        0 <= j <= st.replica_nodes.len(),
                        i < self.shard_states@.len(),
                        st == self.shard_states@[i as int]@,
                        self.wf(),
                        self.spec_state_list() == states,
                        self.spec_node_list() == old(self).spec_node_list(),
                        self.spec_log() == old(self).spec_log(),
                        self.spec_config() == old(self).spec_config(),
                        self.spec_shard_manager() == old(self).spec_shard_manager(),
                        self.spec_outbox() == base + st.replica_nodes.take(j as int).map_values(|n: Seq<char>| MessageView::SyncShard { shard_id: st.shard_id, target_node: n }),
                    decreases st.replica_nodes.len() - j,
                {
                    proof {
                        assert(st.replica_nodes[j as int] == self.shard_states@[i as int].replica_nodes@[j as int]@);
                    }
                    let shard_id = self.shard_states[i].shard_id;
                    let target_node = self.shard_states[i].replica_nodes[j].clone();
                    let ghost ob = self.spec_outbox();
                    let msg = SyncMessage::SyncShard { shard_id, target_node };
                    proof {
                        assert(msg@ == MessageView::SyncShard { shard_id: st.shard_id, target_node: st.replica_nodes[j as int] });
                    }
                    self.outbox.push(msg);
                    proof {
                        assert(self.spec_outbox() =~= ob.push(msg@));
                        assert(st.replica_nodes.take(j + 1).map_values(|n: Seq<char>| MessageView::SyncShard { shard_id: st.shard_id, target_node: n }) =~= st.replica_nodes.take(j as int).map_values(
                            |n: Seq<char>| MessageView::SyncShard { shard_id: st.shard_id, target_node: n },
                        ).push(msg@));
                        assert(self.spec_outbox() =~= base + st.replica_nodes.take(j + 1).map_values(|n: Seq<char>| MessageView::SyncShard { shard_id: st.shard_id, target_node: n }));
                    }
                    j = j + 1;
                }
                proof {
                    assert(st.replica_nodes.take(st.replica_nodes.len() as int) =~= st.replica_nodes);
                    assert(self.spec_outbox() =~= old(self).spec_outbox() + sync_run(states.take(i + 1)));
                }
            } else {
                proof {
                    assert(self.spec_outbox() =~= old(self).spec_outbox() + sync_run(states.take(i + 1)));
                }
            }
            i = i + 1;
        }
        assert(states.take(states.len() as int) =~= states);
        Ok(())
    }

    /// Whether all checksums of a list agree.
    fn checksums_match(c: &Vec<(String, Vec<u8>)>) -> (r: bool)
        ensures
            r == checksums_agree(c@.map_values(|p: (String, Vec<u8>)| (p.0@, p.1@))),
    {
        let ghost cv = c@.map_values(|p: (String, Vec<u8>)| (p.0@, p.1@));
        if c.len() == 0 {
            return true;
        }
        let mut k: usize = 1;
        while k < c.len()
            invariant
                1 <= k <= c@.len(),
                cv == c@.map_values(|p: (String, Vec<u8>)| (p.0@, p.1@)),
                forall|j: int| 0 <= j < k ==> (#[trigger] cv[j]).1 == cv[0].1,
            decreases c@.len() - k,
        {
            proof {
                assert(cv[k as int].1 == c@[k as int].1@);
                assert(cv[k - 1].1 == c@[k - 1].1@);
            }
            if !crate::encoding::bytes_equal(c[k - 1].1.as_slice(), c[k].1.as_slice()) {
                proof {
                    assert(cv[k - 1].1 != cv[k as int].1);
                }
                return false;
            }
            k = k + 1;
        }
        true
    }

    /// Queues a consistency check for every shard and reports which shards'
    /// checksums agree.
    pub fn check_consistency(&mut self) -> (r: Result<ConsistencyReport, ReplicationError>)
        requires
            old(self).wf(),
        ensures
            final(self).wf(),
            r matches Ok(rep) && {
                &&& rep.total_shards == old(self).spec_state_list().len()
                &&& rep.consistent_shards@ == shards_where(old(self).spec_state_list(), true)
                &&& rep.inconsistent_shards@ == shards_where(old(self).spec_state_list(), false)
            },
            final(self).spec_outbox() == old(self).spec_outbox() + check_msgs(old(self).spec_state_list()),
            final(self).spec_node_list() == old(self).spec_node_list(),
            final(self).spec_state_list() == old(self).spec_state_list(),
            final(self).spec_log() == old(self).spec_log(),
            final(self).spec_config() == old(self).spec_config(),
            final(self).spec_shard_manager() == old(self).spec_shard_manager(),
    {
        let ghost states = self.spec_state_list();
        let mut consistent: Vec<u32> = Vec::new();
        let mut inconsistent: Vec<u32> = Vec::new();
        let mut i: usize = 0;
        while i < self.shard_states.len()
            invariant
                0 <= i <= self.shard_states@.len(),
                self.wf(),
                self.spec_state_list() == states,
                self.spec_node_list() == old(self).spec_node_list(),
                self.spec_log() == old(self).spec_log(),
                self.spec_config() == old(self).spec_config(),
                self.spec_shard_manager() == old(self).spec_shard_manager(),
                self.spec_outbox() == old(self).spec_outbox() + check_msgs(states.take(i as int)),
                consistent@ == shards_where(states.take(i as int), true),
                inconsistent@ == shards_where(states.take(i as int), false),
            decreases self.shard_states@.len() - i,
        {
            proof {
                assert(states.take(i + 1).drop_last() =~= states.take(i as int));
                assert(states[i as int] == self.shard_states@[i as int]@);
            }
            let shard_id = self.shard_states[i].shard_id;
            let ghost ob = self.spec_outbox();
            self.outbox.push(SyncMessage::CheckConsistency { shard_id });
            let agree = Self::checksums_match(&self.shard_states[i].consistency_checksums);
            if agree {
                consistent.push(shard_id);
            } else {
                inconsistent.push(shard_id);
            }
            proof {
                assert(self.spec_outbox() =~= ob.push(MessageView::CheckConsistency { shard_id }));
                assert(check_msgs(states.take(i + 1)) =~= check_msgs(states.take(i as int)).push(
                    MessageView::CheckConsistency { shard_id },
                ));
                assert(consistent@ =~= shards_where(states.take(i + 1), true));
                assert(inconsistent@ =~= shards_where(states.take(i + 1), false));
            }
            i = i + 1;
        }
        assert(states.take(states.len() as int) =~= states);
        let total_shards = self.shard_states.len();
        Ok(ConsistencyReport { total_shards, consistent_shards: consistent, inconsistent_shards: inconsistent })
    }

    /// The secondary replica of a shard, other than the failed node, with
    /// the smallest priority number (the first of them on ties).
    pub fn select_failover_candidate(&self, shard_id: u32, failed_node: &str) -> (r: Result<String, ReplicationError>)
        requires
            self.wf(),
        ensures
            match r {
                Ok(n) => self.spec_states().contains_key(shard_id) && (best_candidate(
                    self.spec_states()[shard_id].replica_nodes,
                    self.spec_nodes(),
                    failed_node@,
                ) matches Some(b) && b.1 == n@),
                Err(e) => e == ReplicationError::NoFailoverCandidate && (!self.spec_states().contains_key(shard_id)
                    || best_candidate(self.spec_states()[shard_id].replica_nodes, self.spec_nodes(), failed_node@)
                    is None),
            },
    {
        let i = match self.find_state(shard_id) {
            Some(i) => i,
            None => return Err(ReplicationError::NoFailoverCandidate),
        };
        let failed = String::from_str(failed_node);
        let ghost names = self.spec_state_list()[i as int].replica_nodes;
        let ghost nodes = self.spec_nodes();
        let mut best: Option<(u8, usize)> = None;
        let mut j: usize = 0;
        while j < self.shard_states[i].replica_nodes.len()
            invariant
                0 <= j <= names.len(),
                i < self.shard_states@.len(),
                names == self.spec_state_list()[i as int].replica_nodes,
                names == string_views(self.shard_states@[i as int].replica_nodes@),
                nodes == self.spec_nodes(),
                failed@ == failed_node@,
                self.wf(),
                match best {
                    None => best_candidate(names.take(j as int), nodes, failed_node@) is None,
                    Some(b) => b.1 < j && best_candidate(names.take(j as int), nodes, failed_node@) == Some(
                        (b.0, names[b.1 as int]),
                    ),
                },
            decreases names.len() - j,
        {
            proof {
                assert(names.take(j + 1).drop_last() =~= names.take(j as int));
                assert(names.take(j + 1).last() == names[j as int]);
            }
            let name = &self.shard_states[i].replica_nodes[j];
            if *name != failed {
                match self.find_node(name.as_str()) {
                    Some(k) => {
                        if self.replica_nodes[k].status == ReplicaStatus::Secondary {
                            let p = self.replica_nodes[k].priority;
                            match best {
                                None => {
                                    best = Some((p, j));
                                },
                                Some(b) => {
                                    if p < b.0 {
                                        best = Some((p, j));
                                    }
                                },
                            }
                        }
                    },
                    None => {},
                }
            }
            j = j + 1;
        }
        proof {
            assert(names.take(names.len() as int) =~= names);
        }
        match best {
            Some(b) => Ok(self.shard_states[i].replica_nodes[b.1].clone()),
            None => Err(ReplicationError::NoFailoverCandidate),
        }
    }

    /// Queues a failover for every shard whose primary is the failed node;
    /// stops with an error at the first such shard without a candidate.
    fn trigger_failover(&mut self, failed_node: &str) -> (r: Result<(), ReplicationError>)
        requires
            old(self).wf(),
        ensures
            final(self).wf(),
            ({
                let fr = failover_run(old(self).spec_state_list(), old(self).spec_nodes(), failed_node@);
                &&& final(self).spec_outbox() == old(self).spec_outbox() + fr.0
                &&& (r is Ok <==> fr.1)
                &&& r is Err ==> r == Err::<(), ReplicationError>(ReplicationError::NoFailoverCandidate)
            }),
            final(self).spec_node_list() == old(self).spec_node_list(),
            final(self).spec_state_list() == old(self).spec_state_list(),
            final(self).spec_log() == old(self).spec_log(),
            final(self).spec_config() == old(self).spec_config(),
            final(self).spec_shard_manager() == old(self).spec_shard_manager(),
    {
        let ghost states = self.spec_state_list();
        let ghost nodes = self.spec_nodes();
        let failed = String::from_str(failed_node);
        let mut i: usize = 0;
        while i < self.shard_states.len()
            invariant
                0 <= i <= self.shard_states@.len(),
                self.wf(),
                failed@ == failed_node@,
                states == old(self).spec_state_list(),
                nodes == old(self).spec_nodes(),
                self.spec_state_list() == states,
                self.spec_nodes() == nodes,
                self.spec_node_list() == old(self).spec_node_list(),
                self.spec_log() == old(self).spec_log(),
                self.spec_config() == old(self).spec_config(),
                self.spec_shard_manager() == old(self).spec_shard_manager(),
                failover_run(states.take(i as int), nodes, failed_node@).1,
                self.spec_outbox() == old(self).spec_outbox() + failover_run(states.take(i as int), nodes, failed_node@).0,
            decreases self.shard_states@.len() - i,
        {
            proof {
                assert(states.take(i + 1).drop_last() =~= states.take(i as int));
                assert(states[i as int] == self.shard_states@[i as int]@);
                lemma_keyed_map_index(states, state_key(), i as int);
            }
            if self.shard_states[i].primary_node == failed {
                let shard_id = self.shard_states[i].shard_id;
                match self.select_failover_candidate(shard_id, failed_node) {
                    Ok(_) => {
                        let ghost ob = self.spec_outbox();
                        self.outbox.push(SyncMessage::Failover { shard_id, failed_node: failed.clone() });
                        proof {
                            assert(self.spec_outbox() =~= ob.push(
                                MessageView::Failover { shard_id, failed_node: failed_node@ },
                            ));
                        }
                    },
                    Err(e) => {
                        proof {
                            lemma_failover_stops(states, nodes, failed_node@, i + 1);
                        }
                        return Err(e);
                    },
                }
            }
            i = i + 1;
        }
        assert(states.take(states.len() as int) =~= states);
        Ok(())
    }

    /// Marks a node failed and, with automatic failover, queues failovers
    /// for the shards it was primary of.
    pub fn handle_node_failure(&mut self, failed_node: String) -> (r: Result<(), ReplicationError>)
        requires
            old(self).wf(),
        ensures
            final(self).wf(),
            final(self).spec_nodes() == with_failed(old(self).spec_nodes(), failed_node@),
            old(self).spec_config().auto_failover ==> ({
                let fr = failover_run(
                    old(self).spec_state_list(),
                    with_failed(old(self).spec_nodes(), failed_node@),
                    failed_node@,
                );
                &&& final(self).spec_outbox() == old(self).spec_outbox() + fr.0
                &&& (r is Ok <==> fr.1)
                &&& r is Err ==> r == Err::<(), ReplicationError>(ReplicationError::NoFailoverCandidate)
            }),
            !old(self).spec_config().auto_failover ==> r is Ok && final(self).spec_outbox() == old(self).spec_outbox(),
            final(self).spec_state_list() == old(self).spec_state_list(),
            final(self).spec_log() == old(self).spec_log(),
            final(self).spec_config() == old(self).spec_config(),
            final(self).spec_shard_manager() == old(self).spec_shard_manager(),
    {
        match self.find_node(failed_node.as_str()) {
            Some(i) => {
                let ghost before = self.spec_node_list();
                self.replica_nodes[i].status = ReplicaStatus::Failed;
                proof {
                    let nv = ReplicaView { status: ReplicaStatus::Failed, ..before[i as int] };
                    assert(self.spec_node_list() =~= before.update(i as int, nv));
                    lemma_keyed_map_update(before, replica_key(), i as int, nv);
                }
            },
            None => {},
        }
        if self.config.auto_failover {
            self.trigger_failover(failed_node.as_str())
        } else {
            Ok(())
        }
    }

    /// Records a heartbeat at clock reading `now`; an offline node is back
    /// as secondary. Unknown nodes are ignored.
    pub fn process_heartbeat_at(&mut self, node_id: String, now: u64) -> (r: Result<(), ReplicationError>)
        requires
            old(self).wf(),
        ensures
            final(self).wf(),
            r is Ok,
            final(self).spec_nodes() == with_heartbeat(old(self).spec_nodes(), node_id@, now),
            final(self).spec_state_list() == old(self).spec_state_list(),
            final(self).spec_log() == old(self).spec_log(),
            final(self).spec_outbox() == old(self).spec_outbox(),
            final(self).spec_config() == old(self).spec_config(),
            final(self).spec_shard_manager() == old(self).spec_shard_manager(),
    {
        match self.find_node(node_id.as_str()) {
            Some(i) => {
                let ghost before = self.spec_node_list();
                self.replica_nodes[i].last_heartbeat = now;
                if self.replica_nodes[i].status == ReplicaStatus::Offline {
                    self.replica_nodes[i].status = ReplicaStatus::Secondary;
                }
                proof {
                    let nv = after_heartbeat(before[i as int], now);
                    assert(self.spec_node_list() =~= before.update(i as int, nv));
                    lemma_keyed_map_update(before, replica_key(), i as int, nv);
                }
            },
            None => {},
        }
        Ok(())
    }

    /// Records a heartbeat now.
    pub fn process_heartbeat(&mut self, node_id: String) -> (r: Result<(), ReplicationError>)
        requires
            old(self).wf(),
        ensures
            final(self).wf(),
            r is Ok,
            exists|now: u64| final(self).spec_nodes() == #[trigger] with_heartbeat(old(self).spec_nodes(), node_id@, now),
            final(self).spec_state_list() == old(self).spec_state_list(),
            final(self).spec_log() == old(self).spec_log(),
            final(self).spec_outbox() == old(self).spec_outbox(),
            final(self).spec_config() == old(self).spec_config(),
            final(self).spec_shard_manager() == old(self).spec_shard_manager(),
    {
        let now = now_secs();
        let ghost id = node_id@;
        let r = self.process_heartbeat_at(node_id, now);
        assert(self.spec_nodes() == with_heartbeat(old(self).spec_nodes(), id, now));
        r
    }

    /// Node, shard, pending-operation and log counts.
    pub fn get_stats(&self) -> (r: Result<ReplicationStats, ReplicationError>)
        requires
            self.wf(),
            pending_total(self.spec_state_list()) <= usize::MAX,
        ensures
            r matches Ok(st) && {
                &&& st.total_nodes == self.spec_node_list().len()
                &&& st.active_nodes == active_count(self.spec_node_list())
                &&& st.total_shards == self.spec_state_list().len()
                &&& st.pending_operations == pending_total(self.spec_state_list())
                &&& st.operation_log_size == self.spec_log().len()
            },
    {
        let ghost nodes = self.spec_node_list();
        let mut active: usize = 0;
        let mut i: usize = 0;
        while i < self.replica_nodes.len()
            invariant
                0 <= i <= self.replica_nodes@.len(),
                nodes == self.spec_node_list(),
                active == active_count(nodes.take(i as int)),
                active <= i,
            decreases self.replica_nodes@.len() - i,
        {
            proof {
                assert(nodes.take(i + 1).drop_last() =~= nodes.take(i as int));
                assert(nodes[i as int] == self.replica_nodes@[i as int]@);
            }
            let st = self.replica_nodes[i].status;
            if st != ReplicaStatus::Failed && st != ReplicaStatus::Offline {
                active = active + 1;
            }
            i = i + 1;
        }
        assert(nodes.take(nodes.len() as int) =~= nodes);
        let ghost states = self.spec_state_list();
        let mut pending: usize = 0;
        let mut k: usize = 0;
        while k < self.shard_states.len()
            invariant
                0 <= k <= self.shard_states@.len(),
                states == self.spec_state_list(),
                pending_total(states) <= usize::MAX,
                pending == pending_total(states.take(k as int)),
            decreases self.shard_states@.len() - k,
        {
            proof {
                assert(states.take(k + 1).drop_last() =~= states.take(k as int));
                assert(states[k as int] == self.shard_states@[k as int]@);
                Self::lemma_pending_prefix(states, k + 1);
            }
            pending = pending + self.shard_states[k].pending_operations.len();
            k = k + 1;
        }
        assert(states.take(states.len() as int) =~= states);
        Ok(
            ReplicationStats {
                total_nodes: self.replica_nodes.len(),
                active_nodes: active,
                total_shards: self.shard_states.len(),
                pending_operations: pending,
                operation_log_size: self.operation_log.len(),
            },
        )
    }

    /// A prefix of the states has no more pending operations than all.
    proof fn lemma_pending_prefix(states: Seq<StateView>, k: int)
        requires
            0 <= k <= states.len(),
        ensures
            pending_total(states.take(k)) <= pending_total(states),
        decreases states.len(),
    {
        if k < states.len() {
            assert(states.drop_last().take(k) =~= states.take(k));
            Self::lemma_pending_prefix(states.drop_last(), k);
        } else {
            assert(states.take(k) =~= states);
        }
    }

    /// Hands over the queued messages, oldest first, and empties the queue.
    pub fn take_outbox(&mut self) -> (r: Vec<SyncMessage>)
        ensures
            r@.map_values(|m: SyncMessage| m@) == old(self).spec_outbox(),
            final(self).spec_outbox().len() == 0,
            final(self).spec_node_list() == old(self).spec_node_list(),
            final(self).spec_state_list() == old(self).spec_state_list(),
            final(self).spec_log() == old(self).spec_log(),
            final(self).spec_config() == old(self).spec_config(),
            final(self).spec_shard_manager() == old(self).spec_shard_manager(),
            old(self).wf() ==> final(self).wf(),
    {
        let mut out: Vec<SyncMessage> = Vec::new();
        std::mem::swap(&mut out, &mut self.outbox);
        out
    }

    /// The replica node with an id.
    pub fn get_replica_node(&self, node_id: &str) -> (r: Option<&ReplicaNode>)
        requires
            self.wf(),
        ensures
            match r {
                Some(n) => self.spec_nodes().contains_key(node_id@) && n@ == self.spec_nodes()[node_id@],
                None => !self.spec_nodes().contains_key(node_id@),
            },
    {
        match self.find_node(node_id) {
            Some(i) => Some(&self.replica_nodes[i]),
            None => None,
        }
    }

    /// The replication state of a shard.
    pub fn get_shard_state(&self, shard_id: u32) -> (r: Option<&ShardReplicationState>)
        requires
            self.wf(),
        ensures
            match r {
                Some(s) => self.spec_states().contains_key(shard_id) && s@ == self.spec_states()[shard_id],
                None => !self.spec_states().contains_key(shard_id),
            },
    {
        match self.find_state(shard_id) {
            Some(i) => Some(&self.shard_states[i]),
            None => None,
        }
    }
}

} // verus!
