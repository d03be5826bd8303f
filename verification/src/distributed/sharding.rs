//! Distributed sharding system for horizontal data distribution
//!
//! Keys are assigned to shards by hashing (modulo or a consistent-hash
//! ring) or by key range; shards that grow past their limit are split.
use vstd::prelude::*;
use std::collections::BTreeMap;
use crate::clock::now_secs;
use crate::encoding::{be8, bytes_less, bytes_lt, decimal, decimal_chars, from_be8, from_be_slice, hash_bytes, lemma_be8_roundtrip, push_decimal, to_be_vec, u64_to_string};

verus! {

broadcast use vstd::std_specs::btree::group_btree_axioms, vstd::laws_cmp::group_laws_cmp;

/// Shard key generation strategies
#[derive(Debug, Clone, Copy, PartialEq, Eq, Structural)]
pub enum ShardKeyStrategy {
    /// Simple hash modulo (fastest)
    HashModulo,
    /// Consistent hashing (better distribution)
    ConsistentHash,
    /// Range-based sharding (for ordered data)
    RangeBased,
    /// Geography-based (location-aware)
    GeographyBased,
}

/// Shard configuration and metadata. The rebalance threshold is the fill
/// ratio, in thousandths, above which a shard is split.
#[derive(Debug, Clone, Copy)]
pub struct ShardConfig {
    pub num_shards: u32,
    pub replication_factor: u32,
    pub shard_key_strategy: ShardKeyStrategy,
    pub rebalance_threshold_permille: u32,
    pub max_shard_size_gb: u64,
}

impl Default for ShardConfig {
    /// Sixteen shards, three replicas, hash-modulo keys, split above 80% of
    /// 100 GB.
    fn default() -> (r: ShardConfig)
        ensures
            r.num_shards == 16,
            r.replication_factor == 3,
            r.shard_key_strategy == ShardKeyStrategy::HashModulo,
            r.rebalance_threshold_permille == 800,
            r.max_shard_size_gb == 100,
    {
        ShardConfig {
            num_shards: 16,
            replication_factor: 3,
            shard_key_strategy: ShardKeyStrategy::HashModulo,
            rebalance_threshold_permille: 800,
            max_shard_size_gb: 100,
        }
    }
}

#[derive(Debug, Clone, Copy, PartialEq, Eq, Structural)]
pub enum ShardStatus {
    Active,
    Migrating,
    ReadOnly,
    Offline,
}

/// Shard metadata and statistics
#[derive(Debug, Clone)]
pub struct ShardInfo {
    pub id: u32,
    pub node_id: String,
    pub range_start: Vec<u8>,
    pub range_end: Vec<u8>,
    pub size_bytes: u64,
    pub record_count: u64,
    pub last_updated: u64,
    pub status: ShardStatus,
}

/// The view of a shard: id, node, range start, range end, size in bytes,
/// record count, last update (seconds), status.
pub type ShardView = (u32, Seq<char>, Seq<u8>, Seq<u8>, u64, u64, u64, ShardStatus);

impl View for ShardInfo {
    type V = ShardView;

    open spec fn view(&self) -> ShardView {
        (
            self.id,
            self.node_id@,
            self.range_start@,
            self.range_end@,
            self.size_bytes,
            self.record_count,
            self.last_updated,
            self.status,
        )
    }
}

/// Errors of shard operations.
#[derive(Debug, Clone, Copy, PartialEq, Eq, Structural)]
pub enum ShardError {
    /// The consistent hash ring was not built.
    RingNotInitialized,
    /// No shard's range holds the key.
    NoShardForKey,
    /// The shard to split does not exist.
    ShardLockNotFound,
}

/// The name of the node that holds every shard at start.
pub open spec fn local_node() -> Seq<char> {
    seq!['l', 'o', 'c', 'a', 'l']
}

/// The width of each initial key range.
pub open spec fn range_size(num_shards: u32) -> u64 {
    (u64::MAX / (num_shards as u64)) as u64
}

/// First key of the initial range of a shard.
pub open spec fn initial_range_start(num_shards: u32, id: u32) -> u64 {
    (range_size(num_shards) * id) as u64
}

/// Last key of the initial range of a shard (the last shard reaches the end).
pub open spec fn initial_range_end(num_shards: u32, id: u32) -> u64 {
    if id == num_shards - 1 {
        u64::MAX
    } else {
        (range_size(num_shards) * (id + 1) - 1) as u64
    }
}

/// The shard as it stands after initialisation.
pub open spec fn initial_shard(num_shards: u32, id: u32, now: u64) -> ShardView {
    (
        id,
        local_node(),
        be8(initial_range_start(num_shards, id)),
        be8(initial_range_end(num_shards, id)),
        0,
        0,
        now,
        ShardStatus::Active,
    )
}

/// The midpoint of a range.
pub open spec fn split_point(start: Seq<u8>, end: Seq<u8>) -> u64 {
    (from_be8(start) + (from_be8(end) - from_be8(start)) / 2) as u64
}

/// The shards after shard `id` was split at clock reading `now`: it keeps the
/// lower half of its range, size and records, and a new shard numbered after
/// the last takes the upper half.
pub open spec fn split_view(s: Seq<ShardView>, id: int, now: u64) -> Seq<ShardView> {
    let sh = s[id];
    let mid = split_point(sh.2, sh.3);
    s.update(id, (sh.0, sh.1, sh.2, be8(mid), sh.4 / 2, sh.5 / 2, sh.6, ShardStatus::Active)).push(
        (s.len() as u32, local_node(), be8(mid), sh.3, sh.4 / 2, sh.5 / 2, now, ShardStatus::Active),
    )
}

/// The largest size a shard may have, in bytes.
pub open spec fn max_shard_bytes(cfg: ShardConfig) -> int {
    cfg.max_shard_size_gb * 1073741824
}

/// The shard is filled above the rebalance threshold.
pub open spec fn over_threshold(cfg: ShardConfig, size_bytes: u64) -> bool {
    size_bytes * 1000 > cfg.rebalance_threshold_permille * max_shard_bytes(cfg)
}

/// The shards after every one of the first `i` that was over the threshold
/// was split, in order.
pub open spec fn rebalanced(cfg: ShardConfig, s: Seq<ShardView>, i: nat, now: u64) -> Seq<ShardView>
    decreases i,
{
    if i == 0 {
        s
    } else {
        let p = rebalanced(cfg, s, (i - 1) as nat, now);
        if over_threshold(cfg, p[i - 1].4) {
            split_view(p, i - 1, now)
        } else {
            p
        }
    }
}

/// The key lies in the shard's range: `start <= key < end`.
pub open spec fn in_range(key: Seq<u8>, sh: ShardView) -> bool {
    !bytes_lt(key, sh.2) && bytes_lt(key, sh.3)
}

/// The shards with the given ids, in order, skipping ids with no shard.
pub open spec fn listed_shards(ids: Seq<u32>, shards: Seq<ShardView>) -> Seq<ShardView>
    decreases ids.len(),
{
    if ids.len() == 0 {
        Seq::empty()
    } else {
        let rest = listed_shards(ids.drop_last(), shards);
        if (ids.last() as int) < shards.len() {
            rest.push(shards[ids.last() as int])
        } else {
            rest
        }
    }
}

/// The shards after a statistics update at clock reading `now`: the named
/// shard, where it exists, has its size and record count moved by the
/// deltas (stopping at zero) and is stamped `now`; the others are unchanged.
pub open spec fn stats_updated(s: Seq<ShardView>, shard_id: u32, size_delta: i64, record_delta: i64, now: u64) -> Seq<ShardView> {
    if shard_id < s.len() {
        let sh = s[shard_id as int];
        let sz = (sh.4 as i64) + size_delta;
        let rc = (sh.5 as i64) + record_delta;
        s.update(
            shard_id as int,
            (sh.0, sh.1, sh.2, sh.3, if sz > 0 { sz as u64 } else { 0 }, if rc > 0 { rc as u64 } else { 0 }, now, sh.7),
        )
    } else {
        s
    }
}

/// The number of active shards.
pub open spec fn active_count(s: Seq<ShardView>) -> nat
    decreases s.len(),
{
    if s.len() == 0 {
        0
    } else {
        active_count(s.drop_last()) + if s.last().7 == ShardStatus::Active { 1nat } else { 0nat }
    }
}

/// The bytes held in all the shards.
pub open spec fn total_bytes(s: Seq<ShardView>) -> nat
    decreases s.len(),
{
    if s.len() == 0 {
        0
    } else {
        total_bytes(s.drop_last()) + s.last().4 as nat
    }
}

/// The node name `node_<n>`.
pub open spec fn node_label(n: nat) -> Seq<char> {
    seq!['n', 'o', 'd', 'e', '_'] + decimal_chars(n)
}

/// Main sharding manager
pub struct ShardManager {
    config: ShardConfig,
    shards: Vec<ShardInfo>,
    node_shards: Vec<(String, Vec<u32>)>,
    consistent_hash_ring: Option<ConsistentHashRing>,
}

impl ShardManager {
    pub closed spec fn spec_config(&self) -> ShardConfig {
        self.config
    }

    /// The shards, by id.
    pub closed spec fn spec_shards(&self) -> Seq<ShardView> {
        self.shards@.map_values(|s: ShardInfo| s@)
    }

    /// The shard ids listed for each node.
    pub closed spec fn spec_node_shards(&self) -> Seq<(Seq<char>, Seq<u32>)> {
        self.node_shards@.map_values(|e: (String, Vec<u32>)| (e.0@, e.1@))
    }

    /// The consistent hash ring, when the strategy uses one.
    pub closed spec fn spec_ring(&self) -> Option<Map<u64, u32>> {
        match self.consistent_hash_ring {
            Some(r) => Some(r.ring@),
            None => None,
        }
    }

    /// One shard per id, numbered in order, each range eight bytes long and
    /// not reversed; the ring exists exactly under consistent hashing.
    pub closed spec fn wf(&self) -> bool {
        &&& self.shards@.len() == self.config.num_shards
        &&& forall|i: int| 0 <= i < self.shards@.len() ==> {
            &&& (#[trigger] self.shards@[i]).id == i
            &&& self.shards@[i].range_start@.len() == 8
            &&& self.shards@[i].range_end@.len() == 8
            &&& from_be8(self.shards@[i].range_start@) <= from_be8(self.shards@[i].range_end@)
        }
        &&& (self.consistent_hash_ring is Some <==> self.config.shard_key_strategy
            == ShardKeyStrategy::ConsistentHash)
        &&& match self.consistent_hash_ring {
            Some(r) => forall|k: u64| #[trigger] r.ring@.contains_key(k) ==> r.ring@[k] < self.config.num_shards,
            None => true,
        }
    }

    /// The configuration.
    pub fn config(&self) -> (r: ShardConfig)
        ensures
            r == self.spec_config(),
    {
        self.config
    }

    pub fn new(config: ShardConfig) -> (r: ShardManager)
        ensures
            r.wf(),
            r.spec_config() == config,
            r.spec_shards().len() == config.num_shards,
            forall|i: int| 0 <= i < config.num_shards ==> {
                let s = #[trigger] r.spec_shards()[i];
                &&& s.0 == i && s.1 == local_node() && s.4 == 0 && s.5 == 0 && s.7 == ShardStatus::Active
                &&& s.2 == be8(initial_range_start(config.num_shards, i as u32))
                &&& s.3 == be8(initial_range_end(config.num_shards, i as u32))
            },
            config.num_shards > 0 ==> r.spec_node_shards() == seq![
                (local_node(), Seq::new(config.num_shards as nat, |i: int| i as u32)),
            ],
            config.num_shards == 0 ==> r.spec_node_shards().len() == 0,
            config.shard_key_strategy == ShardKeyStrategy::ConsistentHash ==> exists|hs: Seq<u64>|
                hs.len() == 3 * config.num_shards && r.spec_ring() == Some(
                    #[trigger] ring_map(ring_entries(hs, 3 * config.num_shards as nat)),
                ),
    {
        let ring = if config.shard_key_strategy == ShardKeyStrategy::ConsistentHash {
            Some(ConsistentHashRing::new(config.num_shards))
        } else {
            None
        };
        let mut shards: Vec<ShardInfo> = Vec::new();
        let mut ids: Vec<u32> = Vec::new();
        let mut shard_id: u32 = 0;
        while shard_id < config.num_shards
            invariant
                0 <= shard_id <= config.num_shards,
                shards@.len() == shard_id,
                ids@ == Seq::new(shard_id as nat, |i: int| i as u32),
                forall|i: int| 0 <= i < shard_id ==> {
                    let s = #[trigger] shards@[i];
                    &&& s.id == i && s.node_id@ == local_node() && s.size_bytes == 0 && s.record_count == 0
                    &&& s.status == ShardStatus::Active
                    &&& s.range_start@ == be8(initial_range_start(config.num_shards, i as u32))
                    &&& s.range_end@ == be8(initial_range_end(config.num_shards, i as u32))
                    &&& from_be8(s.range_start@) <= from_be8(s.range_end@)
                    &&& s.range_start@.len() == 8 && s.range_end@.len() == 8
                },
            decreases config.num_shards - shard_id,
        {
            let range_size = u64::MAX / (config.num_shards as u64);
            assert(range_size >= 1) by (nonlinear_arith)
                requires
                    range_size == u64::MAX / (config.num_shards as u64),
                    config.num_shards >= 1,
                    config.num_shards <= u32::MAX,
            ;
            assert(range_size * (shard_id as u64 + 1) <= u64::MAX) by (nonlinear_arith)
                requires
                    range_size == u64::MAX / (config.num_shards as u64),
                    shard_id < config.num_shards,
            ;
            assert(range_size * (shard_id as u64) <= range_size * (shard_id as u64 + 1) - 1) by (nonlinear_arith)
                requires
                    range_size >= 1,
            ;
            let start = range_size * (shard_id as u64);
            let end = if shard_id == config.num_shards - 1 {
                u64::MAX
            } else {
                range_size * (shard_id as u64 + 1) - 1
            };
            proof {
                lemma_be8_roundtrip(start);
                lemma_be8_roundtrip(end);
            }
            shards.push(ShardInfo {
                id: shard_id,
                node_id: local_name(),
                range_start: to_be_vec(start),
                range_end: to_be_vec(end),
                size_bytes: 0,
                record_count: 0,
                last_updated: now_secs(),
                status: ShardStatus::Active,
            });
            ids.push(shard_id);
            proof {
                assert(ids@ =~= Seq::new((shard_id + 1) as nat, |i: int| i as u32));
            }
            shard_id = shard_id + 1;
        }
        let mut node_shards: Vec<(String, Vec<u32>)> = Vec::new();
        if config.num_shards > 0 {
            node_shards.push((local_name(), ids));
        }
        let r = ShardManager { config, shards, node_shards, consistent_hash_ring: ring };
        proof {
            if config.num_shards > 0 {
                assert(r.spec_node_shards() =~= seq![
                    (local_node(), Seq::new(config.num_shards as nat, |i: int| i as u32)),
                ]);
            }
        }
        r
    }

    /// `r` is the shard of `key` whose hash is `hash`: by the hash modulo the
    /// shard count, by the consistent-hash ring, or the first shard whose
    /// range holds the key.
    pub open spec fn key_shard_is(&self, key: Seq<u8>, hash: u64, r: Result<u32, ShardError>) -> bool {
        match self.spec_config().shard_key_strategy {
            ShardKeyStrategy::HashModulo | ShardKeyStrategy::GeographyBased => r == Ok::<u32, ShardError>(
                (hash % (self.spec_config().num_shards as u64)) as u32,
            ),
            ShardKeyStrategy::ConsistentHash => match self.spec_ring() {
                Some(m) => r == Ok::<u32, ShardError>(ring_lookup(m, hash)),
                None => r == Err::<u32, ShardError>(ShardError::RingNotInitialized),
            },
            ShardKeyStrategy::RangeBased => match r {
                Ok(id) => id < self.spec_shards().len() && in_range(key, self.spec_shards()[id as int]) && forall|
                    j: int,
                | 0 <= j < id ==> !in_range(key, #[trigger] self.spec_shards()[j]),
                Err(e) => e == ShardError::NoShardForKey && forall|i: int|
                    0 <= i < self.spec_shards().len() ==> !in_range(key, #[trigger] self.spec_shards()[i]),
            },
        }
    }

    /// Determine which shard a key belongs to. The key's hash comes from the
    /// standard library's default hasher, which promises no particular value,
    /// so the shard is stated for the hash that was drawn; it is always an
    /// existing shard.
    pub fn get_shard_for_key(&self, key: &[u8]) -> (r: Result<u32, ShardError>)
        requires
            self.wf(),
            self.spec_config().num_shards > 0,
        ensures
            exists|h: u64| #[trigger] self.key_shard_is(key@, h, r),
            r matches Ok(id) ==> id < self.spec_config().num_shards,
    {
        let hash = hash_bytes(key);
        self.shard_for_key_hash(key, hash)
    }

    /// The shard of a key whose hash is `hash`; every shard it gives exists.
    pub fn shard_for_key_hash(&self, key: &[u8], hash: u64) -> (r: Result<u32, ShardError>)
        requires
            self.wf(),
            self.spec_config().num_shards > 0,
        ensures
            self.key_shard_is(key@, hash, r),
            r matches Ok(id) ==> id < self.spec_config().num_shards,
    {
        match self.config.shard_key_strategy {
            ShardKeyStrategy::HashModulo => Ok((hash % (self.config.num_shards as u64)) as u32),
            ShardKeyStrategy::ConsistentHash => {
                match &self.consistent_hash_ring {
                    Some(ring) => {
                        proof {
                            lemma_ring_lookup_in_range(ring.spec_ring(), hash, self.config.num_shards);
                        }
                        Ok(ring.get_shard_for_hash(hash))
                    },
                    None => Err(ShardError::RingNotInitialized),
                }
            },
            ShardKeyStrategy::RangeBased => self.get_range_shard(key),
            ShardKeyStrategy::GeographyBased => Ok((hash % (self.config.num_shards as u64)) as u32),
        }
    }

    /// Get all nodes that should have a copy of the data: the owner, then
    /// `node_<n>` for the next `replication_factor - 1` values of
    /// `(shard_id + i) % 10`.
    pub fn get_replica_nodes(&self, shard_id: u32) -> (r: Vec<String>)
        requires
            self.wf(),
        ensures
            shard_id >= self.spec_shards().len() ==> r@.len() == 0,
            shard_id < self.spec_shards().len() ==> {
                &&& r@.len() == if self.spec_config().replication_factor == 0 { 1 } else {
                    self.spec_config().replication_factor as int
                }
                &&& r@[0]@ == self.spec_shards()[shard_id as int].1
                &&& forall|i: int| 1 <= i < r@.len() ==> (#[trigger] r@[i])@ == node_label(
                    ((shard_id + i) % 10) as nat,
                )
            },
    {
        let mut nodes: Vec<String> = Vec::new();
        if shard_id < self.shards.len() as u32 {
            nodes.push(self.shards[shard_id as usize].node_id.clone());
            let mut i: u32 = 1;
            while i < self.config.replication_factor
                invariant
                    1 <= i <= self.config.replication_factor || (i == 1 && self.config.replication_factor == 0),
                    nodes@.len() == i,
                    nodes@[0]@ == self.spec_shards()[shard_id as int].1,
                    shard_id < self.shards@.len(),
                    forall|j: int| 1 <= j < nodes@.len() ==> (#[trigger] nodes@[j])@ == node_label(
                        ((shard_id + j) % 10) as nat,
                    ),
                decreases self.config.replication_factor - i,
            {
                let n = ((shard_id as u64) + (i as u64)) % 10;
                let mut label = String::from_str("node_");
                let digits = u64_to_string(n);
                label.append(digits.as_str());
                proof {
                    reveal_strlit("node_");
                    assert(label@ =~= node_label(n as nat));
                }
                nodes.push(label);
                i = i + 1;
            }
        }
        nodes
    }

    /// Check if shard needs rebalancing: its size exceeds the threshold
    /// fraction of the largest shard size.
    pub fn needs_rebalancing(&self, shard_id: u32) -> (r: bool)
        requires
            self.wf(),
        ensures
            r == (shard_id < self.spec_shards().len() && over_threshold(
                self.spec_config(),
                self.spec_shards()[shard_id as int].4,
            )),
    {
        if shard_id < self.shards.len() as u32 {
            let size = self.shards[shard_id as usize].size_bytes as u128;
            let permille = self.config.rebalance_threshold_permille as u128;
            let max_bytes = (self.config.max_shard_size_gb as u128) * 1073741824u128;
            assert(permille * max_bytes <= u128::MAX) by (nonlinear_arith)
                requires
                    permille <= u32::MAX,
                    max_bytes <= u64::MAX * 1073741824u128,
            ;
            size * 1000 > permille * max_bytes
        } else {
            false
        }
    }

    /// Rebalance shards at clock reading `now`: every shard over the
    /// threshold is split, in order of id.
    pub fn rebalance_shards_at(&mut self, now: u64) -> (r: Result<(), ShardError>)
        requires
            old(self).wf(),
            2 * (old(self).spec_config().num_shards as int) <= u32::MAX,
        ensures
            final(self).wf(),
            r is Ok,
            final(self).spec_shards() == rebalanced(
                old(self).spec_config(),
                old(self).spec_shards(),
                old(self).spec_shards().len(),
                now,
            ),
            final(self).spec_config().num_shards == final(self).spec_shards().len(),
            final(self).spec_node_shards() == old(self).spec_node_shards(),
            final(self).spec_ring() == old(self).spec_ring(),
    {
        let n = self.config.num_shards;
        let mut i: u32 = 0;
        while i < n
            invariant
                0 <= i <= n,
                n == old(self).config.num_shards,
                old(self).wf(),
                self.wf(),
                self.config.rebalance_threshold_permille == old(self).config.rebalance_threshold_permille,
                self.config.max_shard_size_gb == old(self).config.max_shard_size_gb,
                self.config.shard_key_strategy == old(self).config.shard_key_strategy,
                n <= self.config.num_shards <= n + i,
                2 * (n as int) <= u32::MAX,
                self.spec_shards() == rebalanced(old(self).spec_config(), old(self).spec_shards(), i as nat, now),
                self.spec_node_shards() == old(self).spec_node_shards(),
                self.spec_ring() == old(self).spec_ring(),
            decreases n - i,
        {
            let ghost before = self.spec_shards();
            proof {
                lemma_rebalanced_prefix(old(self).spec_config(), old(self).spec_shards(), i as nat, now);
            }
            if self.needs_rebalancing(i) {
                let _ = self.split_shard_at(i, now);
            }
            i = i + 1;
        }
        Ok(())
    }

    /// Rebalance shards now.
    pub fn rebalance_shards(&mut self) -> (r: Result<(), ShardError>)
        requires
            old(self).wf(),
            2 * (old(self).spec_config().num_shards as int) <= u32::MAX,
        ensures
            final(self).wf(),
            r is Ok,
            exists|now: u64| final(self).spec_shards() == #[trigger] rebalanced(
                old(self).spec_config(),
                old(self).spec_shards(),
                old(self).spec_shards().len(),
                now,
            ),
            final(self).spec_config().num_shards == final(self).spec_shards().len(),
            final(self).spec_node_shards() == old(self).spec_node_shards(),
            final(self).spec_ring() == old(self).spec_ring(),
    {
        let now = now_secs();
        let r = self.rebalance_shards_at(now);
        assert(self.spec_shards() == rebalanced(
            old(self).spec_config(),
            old(self).spec_shards(),
            old(self).spec_shards().len(),
            now,
        ));
        r
    }

    /// Split a shard into two at clock reading `now`.
    fn split_shard_at(&mut self, shard_id: u32, now: u64) -> (r: Result<(), ShardError>)
        requires
            old(self).wf(),
            old(self).spec_config().num_shards < u32::MAX,
        ensures
            final(self).wf(),
            final(self).spec_config().num_shards == if shard_id < old(self).spec_shards().len() {
                old(self).spec_config().num_shards + 1
            } else {
                old(self).spec_config().num_shards as int
            },
            final(self).spec_config().rebalance_threshold_permille == old(self).spec_config().rebalance_threshold_permille,
            final(self).spec_config().max_shard_size_gb == old(self).spec_config().max_shard_size_gb,
            final(self).spec_config().shard_key_strategy == old(self).spec_config().shard_key_strategy,
            final(self).spec_config().replication_factor == old(self).spec_config().replication_factor,
            final(self).spec_node_shards() == old(self).spec_node_shards(),
            final(self).spec_ring() == old(self).spec_ring(),
            shard_id < old(self).spec_shards().len() ==> r is Ok && final(self).spec_shards() == split_view(
                old(self).spec_shards(),
                shard_id as int,
                now,
            ),
            shard_id >= old(self).spec_shards().len() ==> r == Err::<(), ShardError>(ShardError::ShardLockNotFound)
                && final(self).spec_shards() == old(self).spec_shards(),
    {
        if shard_id >= self.shards.len() as u32 {
            return Err(ShardError::ShardLockNotFound);
        }
        let idx = shard_id as usize;
        let start_val = from_be_slice(self.shards[idx].range_start.as_slice());
        let end_val = from_be_slice(self.shards[idx].range_end.as_slice());
        let mid = start_val + (end_val - start_val) / 2;
        let new_id = self.config.num_shards;
        let new_shard = ShardInfo {
            id: new_id,
            node_id: local_name(),
            range_start: to_be_vec(mid),
            range_end: self.shards[idx].range_end.clone(),
            size_bytes: self.shards[idx].size_bytes / 2,
            record_count: self.shards[idx].record_count / 2,
            last_updated: now,
            status: ShardStatus::Active,
        };
        let ghost old_shards = self.shards@;
        self.config.num_shards = self.config.num_shards + 1;
        self.shards[idx].range_end = to_be_vec(mid);
        self.shards[idx].size_bytes = self.shards[idx].size_bytes / 2;
        self.shards[idx].record_count = self.shards[idx].record_count / 2;
        self.shards[idx].status = ShardStatus::Active;
        self.shards.push(new_shard);
        proof {
            lemma_be8_roundtrip(mid);
            assert(self.spec_shards() =~= split_view(old(self).spec_shards(), shard_id as int, now));
            assert forall|i: int| 0 <= i < self.shards@.len() implies {
                &&& (#[trigger] self.shards@[i]).id == i
                &&& self.shards@[i].range_start@.len() == 8
                &&& self.shards@[i].range_end@.len() == 8
                &&& from_be8(self.shards@[i].range_start@) <= from_be8(self.shards@[i].range_end@)
            } by {
                if i < old_shards.len() && i != idx {
                    assert(self.shards@[i] == old_shards[i]);
                }
            }
        }
        Ok(())
    }

    /// Update shard statistics at clock reading `now`: size and record count
    /// move by the deltas and stop at zero.
    pub fn update_shard_stats_at(&mut self, shard_id: u32, size_delta: i64, record_delta: i64, now: u64)
        requires
            old(self).wf(),
            shard_id < old(self).spec_shards().len() ==> {
                let s = old(self).spec_shards()[shard_id as int];
                &&& i64::MIN <= (s.4 as i64) + size_delta <= i64::MAX
                &&& i64::MIN <= (s.5 as i64) + record_delta <= i64::MAX
            },
        ensures
            final(self).wf(),
            final(self).spec_config() == old(self).spec_config(),
            final(self).spec_node_shards() == old(self).spec_node_shards(),
            final(self).spec_ring() == old(self).spec_ring(),
            final(self).spec_shards() == stats_updated(old(self).spec_shards(), shard_id, size_delta, record_delta, now),
    {
        if shard_id < self.shards.len() as u32 {
            let idx = shard_id as usize;
            let sz = (self.shards[idx].size_bytes as i64) + size_delta;
            let rc = (self.shards[idx].record_count as i64) + record_delta;
            self.shards[idx].size_bytes = if sz > 0 { sz as u64 } else { 0 };
            self.shards[idx].record_count = if rc > 0 { rc as u64 } else { 0 };
            self.shards[idx].last_updated = now;
            proof {
                assert(self.spec_shards() =~= old(self).spec_shards().update(
                    shard_id as int,
                    self.shards@[idx as int]@,
                ));
            }
        }
    }

    /// Update shard statistics now.
    pub fn update_shard_stats(&mut self, shard_id: u32, size_delta: i64, record_delta: i64)
        requires
            old(self).wf(),
            shard_id < old(self).spec_shards().len() ==> {
                let s = old(self).spec_shards()[shard_id as int];
                &&& i64::MIN <= (s.4 as i64) + size_delta <= i64::MAX
                &&& i64::MIN <= (s.5 as i64) + record_delta <= i64::MAX
            },
        ensures
            final(self).wf(),
            final(self).spec_config() == old(self).spec_config(),
            final(self).spec_node_shards() == old(self).spec_node_shards(),
            final(self).spec_ring() == old(self).spec_ring(),
            exists|now: u64| final(self).spec_shards() == #[trigger] stats_updated(
                old(self).spec_shards(),
                shard_id,
                size_delta,
                record_delta,
                now,
            ),
    {
        let now = now_secs();
        self.update_shard_stats_at(shard_id, size_delta, record_delta, now);
        assert(self.spec_shards() == stats_updated(old(self).spec_shards(), shard_id, size_delta, record_delta, now));
    }

    /// Get shard information
    pub fn get_shard_info(&self, shard_id: u32) -> (r: Option<&ShardInfo>)
        requires
            self.wf(),
        ensures
            match r {
                Some(s) => shard_id < self.spec_shards().len() && s@ == self.spec_shards()[shard_id as int],
                None => shard_id >= self.spec_shards().len(),
            },
    {
        if shard_id < self.shards.len() as u32 {
            Some(&self.shards[shard_id as usize])
        } else {
            None
        }
    }

    /// The shard count, the number of active shards and the bytes held in
    /// all shards.
    pub fn shard_totals(&self) -> (r: (usize, usize, u128))
        requires
            self.wf(),
        ensures
            r.0 == self.spec_shards().len(),
            r.1 == active_count(self.spec_shards()),
            r.2 == total_bytes(self.spec_shards()),
    {
        let ghost all = self.spec_shards();
        let mut active: usize = 0;
        let mut bytes: u128 = 0;
        let mut i: usize = 0;
        while i < self.shards.len()
            invariant
                0 <= i <= self.shards@.len(),
                all == self.spec_shards(),
                all.len() == self.shards@.len(),
                active == active_count(all.take(i as int)),
                active <= i,
                bytes == total_bytes(all.take(i as int)),
                bytes <= i * 0xffff_ffff_ffff_ffffu128,
            decreases self.shards@.len() - i,
        {
            proof {
                assert(all.take(i + 1).drop_last() =~= all.take(i as int));
                assert(all.take(i + 1).last() == self.shards@[i as int]@);
                assert(i < 0x1_0000_0000_0000_0000u128);
                assert((i + 1) * 0xffff_ffff_ffff_ffffu128 <= 0xffff_ffff_ffff_ffff_ffff_ffff_ffff_ffffu128)
                    by (nonlinear_arith)
                    requires i < 0x1_0000_0000_0000_0000u128;
                assert(bytes + 0xffff_ffff_ffff_ffffu128 <= (i + 1) * 0xffff_ffff_ffff_ffffu128) by (nonlinear_arith)
                    requires bytes <= i * 0xffff_ffff_ffff_ffffu128;
            }
            bytes = bytes + self.shards[i].size_bytes as u128;
            if self.shards[i].status == ShardStatus::Active {
                active = active + 1;
            }
            i = i + 1;
        }
        proof {
            assert(all.take(all.len() as int) =~= all);
        }
        (self.shards.len(), active, bytes)
    }

    /// Get all shard information, by id.
    pub fn get_all_shards(&self) -> (r: Vec<&ShardInfo>)
        ensures
            r@.len() == self.spec_shards().len(),
            forall|i: int| 0 <= i < r@.len() ==> (#[trigger] r@[i])@ == self.spec_shards()[i],
    {
        let mut out: Vec<&ShardInfo> = Vec::new();
        let mut i: usize = 0;
        while i < self.shards.len()
            invariant
                0 <= i <= self.shards@.len(),
                out@.len() == i,
                forall|j: int| 0 <= j < i ==> (#[trigger] out@[j])@ == self.shards@[j]@,
            decreases self.shards@.len() - i,
        {
            out.push(&self.shards[i]);
            i = i + 1;
        }
        out
    }

    /// Get shards for a specific node: the shards of the first entry for the
    /// node, in the order listed, skipping ids with no shard; none where the
    /// node has no entry.
    pub fn get_node_shards(&self, node_id: &str) -> (r: Vec<&ShardInfo>)
        requires
            self.wf(),
        ensures
            r@.len() == self.node_shard_views(node_id@).len(),
            forall|i: int| 0 <= i < r@.len() ==> (#[trigger] r@[i])@ == self.node_shard_views(node_id@)[i],
    {
        let wanted = String::from_str(node_id);
        let mut e: usize = 0;
        while e < self.node_shards.len()
            invariant
                0 <= e <= self.node_shards@.len(),
                wanted@ == node_id@,
                self.wf(),
                forall|e2: int| 0 <= e2 < e ==> (#[trigger] self.spec_node_shards()[e2]).0 != node_id@,
            decreases self.node_shards@.len() - e,
        {
            if self.node_shards[e].0 == wanted {
                let ids = &self.node_shards[e].1;
                let ghost all = self.spec_shards();
                let mut out: Vec<&ShardInfo> = Vec::new();
                let mut j: usize = 0;
                while j < ids.len()
                    invariant
                        0 <= j <= ids@.len(),
                        e < self.node_shards@.len(),
                        all == self.spec_shards(),
                        all.len() == self.shards@.len(),
                        self.shards@.len() <= u32::MAX,
                        forall|k: int| 0 <= k < self.shards@.len() ==> (#[trigger] self.shards@[k])@ == all[k],
                        out@.len() == listed_shards(ids@.take(j as int), all).len(),
                        forall|i: int| 0 <= i < out@.len() ==> (#[trigger] out@[i])@ == listed_shards(ids@.take(j as int), all)[i],
                    decreases ids@.len() - j,
                {
                    proof {
                        assert(ids@.take(j + 1).drop_last() =~= ids@.take(j as int));
                        assert(ids@.take(j + 1).last() == ids@[j as int]);
                    }
                    let id = ids[j];
                    if id < self.shards.len() as u32 {
                        out.push(&self.shards[id as usize]);
                    }
                    j = j + 1;
                }
                proof {
                    assert(ids@.take(ids@.len() as int) =~= ids@);
                    assert(self.spec_node_shards()[e as int].1 == ids@);
                    assert(self.first_node_entry(node_id@, e as int));
                }
                return out;
            }
            e = e + 1;
        }
        Vec::new()
    }

    /// Entry `e` is the first one for `node`.
    pub open spec fn first_node_entry(&self, node: Seq<char>, e: int) -> bool {
        &&& 0 <= e < self.spec_node_shards().len()
        &&& self.spec_node_shards()[e].0 == node
        &&& forall|e2: int| 0 <= e2 < e ==> (#[trigger] self.spec_node_shards()[e2]).0 != node
    }

    /// The shards listed for `node`: those of its first entry, in order,
    /// skipping ids with no shard; none where it has no entry.
    pub open spec fn node_shard_views(&self, node: Seq<char>) -> Seq<ShardView> {
        if exists|e: int| #[trigger] self.first_node_entry(node, e) {
            let e = choose|e: int| #[trigger] self.first_node_entry(node, e);
            listed_shards(self.spec_node_shards()[e].1, self.spec_shards())
        } else {
            Seq::empty()
        }
    }

    /// The first shard, by id, whose range holds the key.
    fn get_range_shard(&self, key: &[u8]) -> (r: Result<u32, ShardError>)
        requires
            self.wf(),
        ensures
            match r {
                Ok(id) => id < self.spec_shards().len() && in_range(key@, self.spec_shards()[id as int]) && forall|
                    j: int,
                | 0 <= j < id ==> !in_range(key@, #[trigger] self.spec_shards()[j]),
                Err(e) => e == ShardError::NoShardForKey && forall|i: int|
                    0 <= i < self.spec_shards().len() ==> !in_range(key@, #[trigger] self.spec_shards()[i]),
            },
    {
        let mut i: usize = 0;
        while i < self.shards.len()
            invariant
                0 <= i <= self.shards@.len(),
                self.wf(),
                forall|j: int| 0 <= j < i ==> !in_range(key@, #[trigger] self.spec_shards()[j]),
            decreases self.shards@.len() - i,
        {
            let below = bytes_less(key, self.shards[i].range_start.as_slice());
            let under_end = bytes_less(key, self.shards[i].range_end.as_slice());
            if !below && under_end {
                return Ok(self.shards[i].id);
            }
            i = i + 1;
        }
        Err(ShardError::NoShardForKey)
    }
}

/// Rebalancing the first `i + 1` shards only touches shard `i` and appends.
proof fn lemma_rebalanced_prefix(cfg: ShardConfig, s: Seq<ShardView>, i: nat, now: u64)
    requires
        i <= s.len(),
    ensures
        rebalanced(cfg, s, i, now).len() >= s.len(),
        forall|j: int| i <= j < s.len() ==> rebalanced(cfg, s, i, now)[j] == s[j],
    decreases i,
{
    if i > 0 {
        lemma_rebalanced_prefix(cfg, s, (i - 1) as nat, now);
        let p = rebalanced(cfg, s, (i - 1) as nat, now);
        let q = rebalanced(cfg, s, i, now);
        if over_threshold(cfg, p[i - 1].4) {
            assert(q == split_view(p, i - 1, now));
            assert(q.len() == p.len() + 1);
        } else {
            assert(q == p);
        }
        assert forall|j: int| i <= j < s.len() implies q[j] == s[j] by {
            assert(p[j] == s[j]);
        }
    }
}

/// The string "local".
fn local_name() -> (r: String)
    ensures
        r@ == local_node(),
{
    let r = String::from_str("local");
    proof {
        reveal_strlit("local");
        assert(r@ =~= local_node());
    }
    r
}

// ---------------------------------------------------------------------------
// Consistent hashing.
// ---------------------------------------------------------------------------

/// The ring label `shard_<shard>_<replica>` as bytes.
pub open spec fn ring_label(shard: nat, replica: nat) -> Seq<u8> {
    seq![115u8, 104u8, 97u8, 114u8, 100u8, 95u8] + decimal(shard) + seq![95u8] + decimal(replica)
}

/// The first `m` ring points, three per shard: point `p` sits at `hs[p]`,
/// the hash drawn for the label of shard `p / 3`, replica `p % 3`, and
/// leads to that shard.
pub open spec fn ring_entries(hs: Seq<u64>, m: nat) -> Seq<(u64, u32)>
    decreases m,
{
    if m == 0 {
        Seq::empty()
    } else {
        let p = (m - 1) as nat;
        ring_entries(hs, p).push((hs[p as int], (p / 3) as u32))
    }
}

/// The map built by inserting the points in order (a later point with the
/// same hash replaces an earlier one).
pub open spec fn ring_map(es: Seq<(u64, u32)>) -> Map<u64, u32>
    decreases es.len(),
{
    if es.len() == 0 {
        Map::empty()
    } else {
        ring_map(es.drop_last()).insert(es.last().0, es.last().1)
    }
}

/// The shard that a key hash leads to: the point at or after the hash, or
/// else the first point, or shard 0 for an empty ring.
pub open spec fn ring_lookup(m: Map<u64, u32>, h: u64) -> u32 {
    if exists|k: u64| m.contains_key(k) && k >= h {
        let k = choose|k: u64|
            m.contains_key(k) && k >= h && forall|k2: u64| m.contains_key(k2) && k2 >= h ==> k <= k2;
        m[k]
    } else if exists|k: u64| m.contains_key(k) {
        let k = choose|k: u64| m.contains_key(k) && forall|k2: u64| m.contains_key(k2) ==> k <= k2;
        m[k]
    } else {
        0
    }
}

/// Wherever the key's hash falls, the ring leads to one of its shards.
pub proof fn lemma_ring_lookup_in_range(m: Map<u64, u32>, h: u64, n: u32)
    requires
        n > 0,
        forall|k: u64| #[trigger] m.contains_key(k) ==> m[k] < n,
    ensures
        ring_lookup(m, h) < n,
{
    if exists|k: u64| m.contains_key(k) && k >= h {
        let k0 = choose|k: u64| m.contains_key(k) && k >= h;
        lemma_least_key_at_or_above(m, h, k0);
    } else if exists|k: u64| m.contains_key(k) {
        let k0 = choose|k: u64| m.contains_key(k);
        lemma_least_key_at_or_above(m, 0, k0);
    }
}

/// A map with a key at or above `h` has a least such key.
proof fn lemma_least_key_at_or_above(m: Map<u64, u32>, h: u64, k0: u64)
    requires
        m.contains_key(k0),
        k0 >= h,
    ensures
        exists|k: u64| m.contains_key(k) && k >= h && forall|k2: u64| m.contains_key(k2) && k2 >= h ==> k <= k2,
    decreases k0 - h,
{
    if exists|k1: u64| m.contains_key(k1) && h <= k1 < k0 {
        let k1 = choose|k1: u64| m.contains_key(k1) && h <= k1 < k0;
        lemma_least_key_at_or_above(m, h, k1);
    } else {
        assert(forall|k2: u64| m.contains_key(k2) && k2 >= h ==> k0 <= k2);
    }
}

/// The bytes of the ring label `shard_<shard>_<replica>`.
fn ring_label_bytes(shard: u32, replica: u32) -> (r: Vec<u8>)
    ensures
        r@ == ring_label(shard as nat, replica as nat),
{
    let mut key: Vec<u8> = vec![115u8, 104u8, 97u8, 114u8, 100u8, 95u8];
    push_decimal(&mut key, shard as u64);
    key.push(95u8);
    push_decimal(&mut key, replica as u64);
    assert(key@ =~= ring_label(shard as nat, replica as nat));
    key
}

/// Consistent hashing ring for better load distribution
pub struct ConsistentHashRing {
    ring: BTreeMap<u64, u32>,
    replicas: u32,
}

impl ConsistentHashRing {
    /// The ring's points.
    pub closed spec fn spec_ring(&self) -> Map<u64, u32> {
        self.ring@
    }

    /// Three points per shard, at the hashes drawn for the labels
    /// `shard_<id>_<replica>`; every point leads to an existing shard.
    pub fn new(num_shards: u32) -> (r: ConsistentHashRing)
        ensures
            exists|hs: Seq<u64>| hs.len() == 3 * num_shards && r.spec_ring() == #[trigger] ring_map(
                ring_entries(hs, 3 * num_shards as nat),
            ),
            forall|k: u64| #[trigger] r.spec_ring().contains_key(k) ==> r.spec_ring()[k] < num_shards,
    {
        let mut ring: BTreeMap<u64, u32> = BTreeMap::new();
        let replicas: u32 = 3;
        let ghost mut hs: Seq<u64> = Seq::empty();
        let mut shard_id: u32 = 0;
        while shard_id < num_shards
            invariant
                0 <= shard_id <= num_shards,
                replicas == 3,
                hs.len() == 3 * shard_id,
                ring@ == ring_map(ring_entries(hs, 3 * shard_id as nat)),
                forall|k: u64| #[trigger] ring@.contains_key(k) ==> ring@[k] < shard_id,
            decreases num_shards - shard_id,
        {
            let mut replica: u32 = 0;
            while replica < replicas
                invariant
                    0 <= replica <= 3,
                    replicas == 3,
                    shard_id < num_shards,
                    hs.len() == 3 * shard_id + replica,
                    ring@ == ring_map(ring_entries(hs, 3 * shard_id as nat + replica as nat)),
                    forall|k: u64| #[trigger] ring@.contains_key(k) ==> ring@[k] <= shard_id,
                decreases 3 - replica,
            {
                let key = ring_label_bytes(shard_id, replica);
                let hash = hash_bytes(key.as_slice());
                let ghost hs0 = hs;
                proof {
                    hs = hs.push(hash);
                    let p = 3 * shard_id as nat + replica as nat;
                    assert(p / 3 == shard_id as nat) by (nonlinear_arith)
                        requires p == 3 * shard_id as nat + replica as nat, replica < 3;
                    lemma_ring_entries_extend(hs0, hs, p);
                    let es = ring_entries(hs0, p);
                    assert(es.push((hash, shard_id)).drop_last() =~= es);
                }
                ring.insert(hash, shard_id);
                replica = replica + 1;
            }
            shard_id = shard_id + 1;
        }
        ConsistentHashRing { ring, replicas }
    }

    /// The shard of the first point at or after the key's hash, wrapping to
    /// the first point. The hash comes from the standard library's default
    /// hasher, which promises no particular value.
    pub fn get_shard(&self, key: &[u8]) -> (r: u32)
        ensures
            exists|h: u64| r == #[trigger] ring_lookup(self.spec_ring(), h),
    {
        let hash = hash_bytes(key);
        self.get_shard_for_hash(hash)
    }

    /// The shard of the first point at or after `hash`, wrapping to the
    /// first point; shard 0 for an empty ring.
    pub fn get_shard_for_hash(&self, hash: u64) -> (r: u32)
        ensures
            r == ring_lookup(self.spec_ring(), hash),
    {
        match ring_successor(&self.ring, hash) {
            Some(v) => v,
            None => match ring_first(&self.ring) {
                Some(v) => v,
                None => 0,
            },
        }
    }
}

/// Extending the drawn hashes by one gives the ring one more point and keeps
/// the earlier ones.
proof fn lemma_ring_entries_extend(hs0: Seq<u64>, hs: Seq<u64>, p: nat)
    requires
        hs0.len() == p,
        hs == hs0.push(hs[p as int]),
    ensures
        ring_entries(hs, p + 1) == ring_entries(hs0, p).push((hs[p as int], (p / 3) as u32)),
{
    lemma_ring_entries_prefix(hs0, hs, p);
}

/// The first `m` points depend only on the first `m` hashes.
proof fn lemma_ring_entries_prefix(a: Seq<u64>, b: Seq<u64>, m: nat)
    requires
        m <= a.len(),
        m <= b.len(),
        forall|i: int| 0 <= i < m ==> a[i] == b[i],
    ensures
        ring_entries(a, m) == ring_entries(b, m),
    decreases m,
{
    if m > 0 {
        lemma_ring_entries_prefix(a, b, (m - 1) as nat);
    }
}

/// Calls `BTreeMap::range(h..).next()`; the contract claims the documented
/// result: the value of the smallest key at or above `h`, or nothing when no
/// key is that large.
#[verifier::external_body]
fn ring_successor(ring: &BTreeMap<u64, u32>, h: u64) -> (r: Option<u32>)
    ensures
        match r {
            Some(v) => exists|k: u64|
                ring@.contains_key(k) && k >= h && ring@[k] == v && forall|k2: u64|
                    ring@.contains_key(k2) && k2 >= h ==> k <= k2,
            None => forall|k: u64| ring@.contains_key(k) ==> k < h,
        },
{
    ring.range(h..).next().map(|(_, v)| *v)
}

/// Calls `BTreeMap::values().next()`; the contract claims the documented
/// result: the value of the smallest key, or nothing for an empty map.
#[verifier::external_body]
fn ring_first(ring: &BTreeMap<u64, u32>) -> (r: Option<u32>)
    ensures
        match r {
            Some(v) => exists|k: u64|
                ring@.contains_key(k) && ring@[k] == v && forall|k2: u64| ring@.contains_key(k2) ==> k <= k2,
            None => forall|k: u64| !ring@.contains_key(k),
        },
{
    ring.values().next().copied()
}

} // verus!
