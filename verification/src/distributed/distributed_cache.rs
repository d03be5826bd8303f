//! The cache that nodes share: a local tier, the entries learned from the
//! cluster, and the synchronisation messages exchanged about them.
use vstd::prelude::*;
use crate::clock::now_secs;
use crate::encoding::{bytes_equal, copy_bytes};
use crate::keyed::{
    keyed_map, keys_distinct, lemma_filter_keys_distinct, lemma_keyed_map_absent, lemma_keyed_map_index,
    lemma_keyed_map_remove, lemma_keyed_map_update, lemma_keys_distinct_push,
};

verus! {

/// Distributed cache configuration
#[derive(Debug, Clone, Copy, PartialEq, Eq, Structural)]
pub struct DistributedCacheConfig {
    pub local_cache_size: usize,
    pub local_memory_limit_mb: usize,
    pub sync_interval_seconds: u64,
    pub cache_ttl_seconds: u64,
    /// How many nodes to gossip cache updates to
    pub gossip_fanout: usize,
    pub enable_compression: bool,
    pub consistency_level: CacheConsistencyLevel,
}

impl Default for DistributedCacheConfig {
    /// 10,000 local entries in 100 MB, sync every minute, entries live an
    /// hour, gossip to three nodes, compression on, eventual consistency.
    fn default() -> (r: DistributedCacheConfig)
        ensures
            r == (DistributedCacheConfig {
                local_cache_size: 10000,
                local_memory_limit_mb: 100,
                sync_interval_seconds: 60,
                cache_ttl_seconds: 3600,
                gossip_fanout: 3,
                enable_compression: true,
                consistency_level: CacheConsistencyLevel::Eventual,
            }),
    {
        DistributedCacheConfig {
            local_cache_size: 10000,
            local_memory_limit_mb: 100,
            sync_interval_seconds: 60,
            cache_ttl_seconds: 3600,
            gossip_fanout: 3,
            enable_compression: true,
            consistency_level: CacheConsistencyLevel::Eventual,
        }
    }
}

/// Cache consistency levels
#[derive(Debug, Clone, Copy, PartialEq, Eq, Structural)]
pub enum CacheConsistencyLevel {
    /// Strong consistency - all nodes have same cache state
    Strong,
    /// Eventual consistency - cache syncs asynchronously
    Eventual,
    /// Weak consistency - best effort sync
    Weak,
}

/// Cache entry with metadata for distributed operations; times in seconds.
#[derive(Debug, Clone)]
pub struct DistributedCacheEntry {
    pub key: Vec<u8>,
    pub value: Vec<u8>,
    pub timestamp: u64,
    pub version: u64,
    pub ttl: u64,
    pub origin_node: String,
    pub compressed: bool,
}

/// The view of a cache entry.
pub struct EntryView {
    pub key: Seq<u8>,
    pub value: Seq<u8>,
    pub timestamp: u64,
    pub version: u64,
    pub ttl: u64,
    pub origin_node: Seq<char>,
    pub compressed: bool,
}

impl View for DistributedCacheEntry {
    type V = EntryView;

    open spec fn view(&self) -> EntryView {
        EntryView {
            key: self.key@,
            value: self.value@,
            timestamp: self.timestamp,
            version: self.version,
            ttl: self.ttl,
            origin_node: self.origin_node@,
            compressed: self.compressed,
        }
    }
}

/// An entry has expired once the clock has passed its time plus its time to
/// live.
pub open spec fn expired(e: EntryView, now: u64) -> bool {
    now > e.timestamp + e.ttl
}

/// The bytes of metadata counted with every entry.
pub const ENTRY_OVERHEAD_BYTES: usize = 100;

impl DistributedCacheEntry {
    /// Whether the entry has outlived its time to live at clock reading
    /// `now`.
    pub fn is_expired_at(&self, now: u64) -> (r: bool)
        ensures
            r == expired(self@, now),
    {
        match self.timestamp.checked_add(self.ttl) {
            Some(end) => now > end,
            None => false,
        }
    }

    /// Whether the entry has outlived its time to live now.
    pub fn is_expired(&self) -> (r: bool)
        ensures
            exists|now: u64| r == #[trigger] expired(self@, now),
    {
        let now = now_secs();
        self.is_expired_at(now)
    }

    /// A copy of the entry.
    pub fn duplicate(&self) -> (r: DistributedCacheEntry)
        ensures
            r@ == self@,
    {
        DistributedCacheEntry {
            key: copy_bytes(&self.key),
            value: copy_bytes(&self.value),
            timestamp: self.timestamp,
            version: self.version,
            ttl: self.ttl,
            origin_node: self.origin_node.clone(),
            compressed: self.compressed,
        }
    }

    /// The entry's size: key, value and a fixed metadata overhead.
    pub fn size_bytes(&self) -> (r: usize)
        requires
            self.key@.len() + self.value@.len() + ENTRY_OVERHEAD_BYTES <= usize::MAX,
        ensures
            r == self.key@.len() + self.value@.len() + ENTRY_OVERHEAD_BYTES,
    {
        self.key.len() + self.value.len() + ENTRY_OVERHEAD_BYTES
    }
}

/// Counters of a cache, as they are gossiped to other nodes.
#[derive(Debug, Clone, Copy, PartialEq, Eq, Structural)]
pub struct DistributedCacheStats {
    pub local_entries: usize,
    pub remote_entries: usize,
    pub sync_operations: u64,
    pub gossip_messages: u64,
    pub cache_version: u64,
}

/// The views of a list of byte strings.
pub open spec fn byte_views(s: Seq<Vec<u8>>) -> Seq<Seq<u8>> {
    s.map_values(|v: Vec<u8>| v@)
}

/// The views of a list of entries.
pub open spec fn entry_views(s: Seq<DistributedCacheEntry>) -> Seq<EntryView> {
    s.map_values(|e: DistributedCacheEntry| e@)
}

/// The views of a list of keys with their access counts.
pub open spec fn top_key_views(s: Seq<(Vec<u8>, u64)>) -> Seq<(Seq<u8>, u64)> {
    s.map_values(|t: (Vec<u8>, u64)| (t.0@, t.1))
}

/// Cache synchronization message
#[derive(Debug)]
pub enum CacheSyncMessage {
    /// Broadcast cache update to other nodes
    CacheUpdate { entry: DistributedCacheEntry, sender_node: String },
    /// Request cache entries from another node
    CacheRequest { keys: Vec<Vec<u8>>, requester_node: String },
    /// Response to cache request
    CacheResponse { entries: Vec<DistributedCacheEntry>, responder_node: String },
    /// Invalidate cache entries across nodes
    CacheInvalidate { keys: Vec<Vec<u8>>, sender_node: String },
    /// Gossip cache metadata for discovery: the node, its counters, and its
    /// keys with their access counts.
    CacheGossip { node_id: String, cache_stats: DistributedCacheStats, top_keys: Vec<(Vec<u8>, u64)> },
}

/// The view of a synchronisation message.
pub enum MessageView {
    Update(EntryView, Seq<char>),
    Request(Seq<Seq<u8>>, Seq<char>),
    Response(Seq<EntryView>, Seq<char>),
    Invalidate(Seq<Seq<u8>>, Seq<char>),
    Gossip(Seq<char>, DistributedCacheStats, Seq<(Seq<u8>, u64)>),
}

impl View for CacheSyncMessage {
    type V = MessageView;

    open spec fn view(&self) -> MessageView {
        match self {
            CacheSyncMessage::CacheUpdate { entry, sender_node } => MessageView::Update(entry@, sender_node@),
            CacheSyncMessage::CacheRequest { keys, requester_node } => MessageView::Request(
                byte_views(keys@),
                requester_node@,
            ),
            CacheSyncMessage::CacheResponse { entries, responder_node } => MessageView::Response(
                entry_views(entries@),
                responder_node@,
            ),
            CacheSyncMessage::CacheInvalidate { keys, sender_node } => MessageView::Invalidate(
                byte_views(keys@),
                sender_node@,
            ),
            CacheSyncMessage::CacheGossip { node_id, cache_stats, top_keys } => MessageView::Gossip(
                node_id@,
                *cache_stats,
                top_key_views(top_keys@),
            ),
        }
    }
}

/// An entry of the node's own tier: key, value, and when it was stored.
#[derive(Debug)]
struct LocalSlot {
    key: Vec<u8>,
    value: Vec<u8>,
    stored_at: u64,
}

/// The view of a local slot: key, value, time stored.
pub type SlotView = (Seq<u8>, Seq<u8>, u64);

impl LocalSlot {
    closed spec fn view(&self) -> SlotView {
        (self.key@, self.value@, self.stored_at)
    }
}

/// What the cache knows of another node: its id, when it last gossiped,
/// its counters and its keys with their access counts.
#[derive(Debug)]
struct NodeCacheInfo {
    node_id: String,
    last_seen: u64,
    cache_stats: DistributedCacheStats,
    top_keys: Vec<(Vec<u8>, u64)>,
}

/// The view of what the cache knows of another node.
pub type NodeInfoView = (Seq<char>, u64, DistributedCacheStats, Seq<(Seq<u8>, u64)>);

impl NodeCacheInfo {
    closed spec fn view(&self) -> NodeInfoView {
        (self.node_id@, self.last_seen, self.cache_stats, top_key_views(self.top_keys@))
    }
}

/// The key of a local slot.
pub open spec fn slot_key() -> spec_fn(SlotView) -> Seq<u8> {
    |s: SlotView| s.0
}

/// The key of an entry.
pub open spec fn entry_key() -> spec_fn(EntryView) -> Seq<u8> {
    |e: EntryView| e.key
}

/// The id of a node record.
pub open spec fn node_key() -> spec_fn(NodeInfoView) -> Seq<char> {
    |n: NodeInfoView| n.0
}

/// What a lookup finds: the local value, else a remote entry's value while
/// the entry has not expired.
pub open spec fn lookup(local: Map<Seq<u8>, SlotView>, remote: Map<Seq<u8>, EntryView>, key: Seq<u8>, now: u64) -> Option<
    Seq<u8>,
> {
    if local.contains_key(key) {
        Some(local[key].1)
    } else if remote.contains_key(key) && !expired(remote[key], now) {
        Some(remote[key].value)
    } else {
        None
    }
}

/// The local tier after a lookup: a value found among the unexpired
/// entries from the cluster is kept locally from `now` on.
pub open spec fn local_after_get(
    local: Map<Seq<u8>, SlotView>,
    remote: Map<Seq<u8>, EntryView>,
    key: Seq<u8>,
    now: u64,
) -> Map<Seq<u8>, SlotView> {
    if !local.contains_key(key) && remote.contains_key(key) && !expired(remote[key], now) {
        local.insert(key, (key, remote[key].value, now))
    } else {
        local
    }
}

/// The entries from the cluster after a lookup: an expired entry the
/// lookup reached is dropped.
pub open spec fn remote_after_get(
    local: Map<Seq<u8>, SlotView>,
    remote: Map<Seq<u8>, EntryView>,
    key: Seq<u8>,
    now: u64,
) -> Map<Seq<u8>, EntryView> {
    if !local.contains_key(key) && remote.contains_key(key) && expired(remote[key], now) {
        remote.remove(key)
    } else {
        remote
    }
}

/// The entry this node writes for a key and value at `now`.
pub open spec fn own_entry(key: Seq<u8>, value: Seq<u8>, now: u64, version: u64, ttl: u64, node: Seq<char>) -> EntryView {
    EntryView { key, value, timestamp: now, version, ttl, origin_node: node, compressed: false }
}

/// Main distributed cache manager. Messages for other nodes wait in an
/// outbox until they are taken.
pub struct DistributedCache {
    config: DistributedCacheConfig,
    local_cache: Vec<LocalSlot>,
    remote_cache: Vec<DistributedCacheEntry>,
    node_caches: Vec<NodeCacheInfo>,
    outbox: Vec<CacheSyncMessage>,
    local_node_id: String,
    cache_version: u64,
    last_sync: u64,
}

impl DistributedCache {
    /// The configuration.
    pub closed spec fn spec_config(&self) -> DistributedCacheConfig {
        self.config
    }

    /// This node's id.
    pub closed spec fn spec_node_id(&self) -> Seq<char> {
        self.local_node_id@
    }

    /// The local tier, in the order its keys were first stored.
    pub closed spec fn spec_local_list(&self) -> Seq<SlotView> {
        self.local_cache@.map_values(|s: LocalSlot| s.view())
    }

    /// The local tier by key.
    pub open spec fn spec_local(&self) -> Map<Seq<u8>, SlotView> {
        keyed_map(self.spec_local_list(), slot_key())
    }

    /// The entries learned from the cluster, in the order their keys were
    /// first stored.
    pub closed spec fn spec_remote_list(&self) -> Seq<EntryView> {
        entry_views(self.remote_cache@)
    }

    /// The entries learned from the cluster by key.
    pub open spec fn spec_remote(&self) -> Map<Seq<u8>, EntryView> {
        keyed_map(self.spec_remote_list(), entry_key())
    }

    /// The other nodes heard from, in the order they were first heard.
    pub closed spec fn spec_nodes(&self) -> Seq<NodeInfoView> {
        self.node_caches@.map_values(|n: NodeCacheInfo| n.view())
    }

    /// The messages waiting to be sent.
    pub closed spec fn spec_outbox(&self) -> Seq<MessageView> {
        self.outbox@.map_values(|m: CacheSyncMessage| m@)
    }

    /// The version of the last write.
    pub closed spec fn spec_version(&self) -> u64 {
        self.cache_version
    }

    /// When the cache last synchronised.
    pub closed spec fn spec_last_sync(&self) -> u64 {
        self.last_sync
    }

    /// One record per key in each tier and per node.
    pub closed spec fn wf(&self) -> bool {
        &&& keys_distinct(self.spec_local_list(), slot_key())
        &&& keys_distinct(self.spec_remote_list(), entry_key())
        &&& keys_distinct(self.spec_nodes(), node_key())
    }

    /// An empty cache for a node.
    pub fn new(config: DistributedCacheConfig, local_node_id: String) -> (r: DistributedCache)
        ensures
            r.wf(),
            r.spec_config() == config,
            r.spec_node_id() == local_node_id@,
            r.spec_local() == Map::<Seq<u8>, SlotView>::empty(),
            r.spec_remote() == Map::<Seq<u8>, EntryView>::empty(),
            r.spec_nodes().len() == 0,
            r.spec_outbox().len() == 0,
            r.spec_version() == 0,
            r.spec_last_sync() == 0,
    {
        let r = DistributedCache {
            config,
            local_cache: Vec::new(),
            remote_cache: Vec::new(),
            node_caches: Vec::new(),
            outbox: Vec::new(),
            local_node_id,
            cache_version: 0,
            last_sync: 0,
        };
        assert(r.spec_local_list() =~= Seq::<SlotView>::empty());
        assert(r.spec_remote_list() =~= Seq::<EntryView>::empty());
        assert(r.spec_nodes() =~= Seq::<NodeInfoView>::empty());
        assert(r.spec_outbox() =~= Seq::<MessageView>::empty());
        assert(r.spec_local() =~= Map::<Seq<u8>, SlotView>::empty());
        assert(r.spec_remote() =~= Map::<Seq<u8>, EntryView>::empty());
        r
    }

    /// The configuration.
    pub fn config(&self) -> (r: &DistributedCacheConfig)
        ensures
            *r == self.spec_config(),
    {
        &self.config
    }

    /// This node's id.
    pub fn local_node_id(&self) -> (r: &str)
        ensures
            r@ == self.spec_node_id(),
    {
        self.local_node_id.as_str()
    }

    /// Position of a key in the local tier.
    fn local_find(&self, key: &[u8]) -> (r: Option<usize>)
        requires
            self.wf(),
        ensures
            match r {
                Some(i) => i < self.local_cache@.len() && self.spec_local_list()[i as int].0 == key@
                    && self.spec_local().contains_key(key@)
                    && self.spec_local()[key@] == self.spec_local_list()[i as int],
                None => !self.spec_local().contains_key(key@),
            },
    {
        let mut i: usize = 0;
        while i < self.local_cache.len()
            invariant
                0 <= i <= self.local_cache@.len(),
                self.wf(),
                forall|j: int| 0 <= j < i ==> (#[trigger] self.spec_local_list()[j]).0 != key@,
            decreases self.local_cache@.len() - i,
        {
            if bytes_equal(self.local_cache[i].key.as_slice(), key) {
                proof {
                    assert(self.spec_local_list()[i as int] == self.local_cache@[i as int].view());
                    lemma_keyed_map_index(self.spec_local_list(), slot_key(), i as int);
                }
                return Some(i);
            }
            assert(self.spec_local_list()[i as int] == self.local_cache@[i as int].view());
            i = i + 1;
        }
        proof {
            lemma_keyed_map_absent(self.spec_local_list(), slot_key(), key@);
        }
        None
    }

    /// Stores a value in the local tier at `now`, replacing any value of
    /// the key.
    fn local_put(&mut self, key: &[u8], value: &[u8], now: u64)
        requires
            old(self).wf(),
        ensures
            final(self).wf(),
            final(self).spec_local() == old(self).spec_local().insert(key@, (key@, value@, now)),
            final(self).spec_remote_list() == old(self).spec_remote_list(),
            final(self).spec_nodes() == old(self).spec_nodes(),
            final(self).spec_outbox() == old(self).spec_outbox(),
            final(self).spec_config() == old(self).spec_config(),
            final(self).spec_node_id() == old(self).spec_node_id(),
            final(self).spec_version() == old(self).spec_version(),
            final(self).spec_last_sync() == old(self).spec_last_sync(),
    {
        let ghost before = self.spec_local_list();
        let slot = LocalSlot { key: copy_bytes(key), value: copy_bytes(value), stored_at: now };
        let ghost sv = slot.view();
        match self.local_find(key) {
            Some(i) => {
                self.local_cache.set(i, slot);
                proof {
                    assert(self.spec_local_list() =~= before.update(i as int, sv));
                    lemma_keyed_map_update(before, slot_key(), i as int, sv);
                }
            },
            None => {
                self.local_cache.push(slot);
                proof {
                    assert(self.spec_local_list() =~= before.push(sv));
                    assert(before.push(sv).drop_last() =~= before);
                    lemma_keys_distinct_push(before, slot_key(), sv);
                }
            },
        }
    }

    /// Drops a key from the local tier.
    fn local_remove(&mut self, key: &[u8])
        requires
            old(self).wf(),
        ensures
            final(self).wf(),
            final(self).spec_local() == old(self).spec_local().remove(key@),
            final(self).spec_remote_list() == old(self).spec_remote_list(),
            final(self).spec_nodes() == old(self).spec_nodes(),
            final(self).spec_outbox() == old(self).spec_outbox(),
            final(self).spec_config() == old(self).spec_config(),
            final(self).spec_node_id() == old(self).spec_node_id(),
            final(self).spec_version() == old(self).spec_version(),
            final(self).spec_last_sync() == old(self).spec_last_sync(),
    {
        let ghost before = self.spec_local_list();
        match self.local_find(key) {
            Some(i) => {
                self.local_cache.remove(i);
                proof {
                    assert(self.spec_local_list() =~= before.remove(i as int));
                    lemma_keyed_map_remove(before, slot_key(), i as int);
                }
            },
            None => {
                assert(self.spec_local() =~= old(self).spec_local().remove(key@));
            },
        }
    }

    /// Position of a key among the entries learned from the cluster.
    fn remote_find(&self, key: &[u8]) -> (r: Option<usize>)
        requires
            self.wf(),
        ensures
            match r {
                Some(i) => i < self.remote_cache@.len() && self.spec_remote_list()[i as int].key == key@
                    && self.remote_cache@[i as int]@ == self.spec_remote_list()[i as int]
                    && self.spec_remote().contains_key(key@)
                    && self.spec_remote()[key@] == self.remote_cache@[i as int]@,
                None => !self.spec_remote().contains_key(key@),
            },
    {
        let mut i: usize = 0;
        while i < self.remote_cache.len()
            invariant
                0 <= i <= self.remote_cache@.len(),
                self.wf(),
                forall|j: int| 0 <= j < i ==> (#[trigger] self.spec_remote_list()[j]).key != key@,
            decreases self.remote_cache@.len() - i,
        {
            if bytes_equal(self.remote_cache[i].key.as_slice(), key) {
                proof {
                    assert(self.spec_remote_list()[i as int] == self.remote_cache@[i as int]@);
                    lemma_keyed_map_index(self.spec_remote_list(), entry_key(), i as int);
                }
                return Some(i);
            }
            assert(self.spec_remote_list()[i as int] == self.remote_cache@[i as int]@);
            i = i + 1;
        }
        proof {
            lemma_keyed_map_absent(self.spec_remote_list(), entry_key(), key@);
        }
        None
    }

    /// Stores an entry learned from the cluster under its key.
    fn remote_put(&mut self, entry: DistributedCacheEntry)
        requires
            old(self).wf(),
        ensures
            final(self).wf(),
            final(self).spec_remote() == old(self).spec_remote().insert(entry.key@, entry@),
            final(self).spec_local_list() == old(self).spec_local_list(),
            final(self).spec_nodes() == old(self).spec_nodes(),
            final(self).spec_outbox() == old(self).spec_outbox(),
            final(self).spec_config() == old(self).spec_config(),
            final(self).spec_node_id() == old(self).spec_node_id(),
            final(self).spec_version() == old(self).spec_version(),
            final(self).spec_last_sync() == old(self).spec_last_sync(),
    {
        let ghost before = self.spec_remote_list();
        let ghost ev = entry@;
        match self.remote_find(entry.key.as_slice()) {
            Some(i) => {
                self.remote_cache.set(i, entry);
                proof {
                    assert(self.spec_remote_list() =~= before.update(i as int, ev));
                    lemma_keyed_map_update(before, entry_key(), i as int, ev);
                }
            },
            None => {
                self.remote_cache.push(entry);
                proof {
                    assert(self.spec_remote_list() =~= before.push(ev));
                    assert(before.push(ev).drop_last() =~= before);
                    lemma_keys_distinct_push(before, entry_key(), ev);
                }
            },
        }
    }

    /// Drops a key from the entries learned from the cluster.
    fn remote_remove(&mut self, key: &[u8])
        requires
            old(self).wf(),
        ensures
            final(self).wf(),
            final(self).spec_remote() == old(self).spec_remote().remove(key@),
            final(self).spec_local_list() == old(self).spec_local_list(),
            final(self).spec_nodes() == old(self).spec_nodes(),
            final(self).spec_outbox() == old(self).spec_outbox(),
            final(self).spec_config() == old(self).spec_config(),
            final(self).spec_node_id() == old(self).spec_node_id(),
            final(self).spec_version() == old(self).spec_version(),
            final(self).spec_last_sync() == old(self).spec_last_sync(),
    {
        let ghost before = self.spec_remote_list();
        match self.remote_find(key) {
            Some(i) => {
                self.remote_cache.remove(i);
                proof {
                    assert(self.spec_remote_list() =~= before.remove(i as int));
                    lemma_keyed_map_remove(before, entry_key(), i as int);
                }
            },
            None => {
                assert(self.spec_remote() =~= old(self).spec_remote().remove(key@));
            },
        }
    }
}

/// The set of keys in a list.
pub open spec fn key_set(keys: Seq<Seq<u8>>) -> Set<Seq<u8>> {
    Set::new(|k: Seq<u8>| keys.contains(k))
}

/// Whether an entry from another node is kept in the local tier too: it
/// was written less than a day before `now` (an entry dated later than
/// `now` is not).
pub open spec fn recent_enough(e: EntryView, now: u64) -> bool {
    e.timestamp <= now && (now - e.timestamp) / 3600 < 24
}

/// A local slot has outlived the time to live `ttl` at `now`.
pub open spec fn slot_expired(s: SlotView, ttl: u64, now: u64) -> bool {
    now > s.2 + ttl
}

/// The first ten keys of `top` that the local tier does not hold.
pub open spec fn missing_keys(top: Seq<(Seq<u8>, u64)>, local: Map<Seq<u8>, SlotView>) -> Seq<Seq<u8>>
    decreases top.len(),
{
    if top.len() == 0 {
        Seq::empty()
    } else {
        let prev = missing_keys(top.drop_last(), local);
        if prev.len() < 10 && !local.contains_key(top.last().0) {
            prev.push(top.last().0)
        } else {
            prev
        }
    }
}

/// One request per node, in order, for the keys it gossiped that the
/// local tier does not hold (nodes with none get no request).
pub open spec fn missing_requests(nodes: Seq<NodeInfoView>, local: Map<Seq<u8>, SlotView>, me: Seq<char>) -> Seq<
    MessageView,
>
    decreases nodes.len(),
{
    if nodes.len() == 0 {
        Seq::empty()
    } else {
        let prev = missing_requests(nodes.drop_last(), local, me);
        let ks = missing_keys(nodes.last().3, local);
        if ks.len() > 0 {
            prev.push(MessageView::Request(ks, me))
        } else {
            prev
        }
    }
}

/// The entries answering a request for `keys`: for a key of the local
/// tier, a fresh entry of this node with the local value; else the entry
/// from the cluster while it has not expired; else nothing.
pub open spec fn answer_entries(
    keys: Seq<Seq<u8>>,
    local: Map<Seq<u8>, SlotView>,
    remote: Map<Seq<u8>, EntryView>,
    now: u64,
    version: u64,
    ttl: u64,
    me: Seq<char>,
) -> Seq<EntryView>
    decreases keys.len(),
{
    if keys.len() == 0 {
        Seq::empty()
    } else {
        let prev = answer_entries(keys.drop_last(), local, remote, now, version, ttl, me);
        let k = keys.last();
        if local.contains_key(k) {
            prev.push(own_entry(k, local[k].1, now, version, ttl, me))
        } else if remote.contains_key(k) && !expired(remote[k], now) {
            prev.push(remote[k])
        } else {
            prev
        }
    }
}

/// The entries from the cluster after taking in `es`, in order, skipping
/// the expired ones.
pub open spec fn absorb_remote(remote: Map<Seq<u8>, EntryView>, es: Seq<EntryView>, now: u64) -> Map<Seq<u8>, EntryView>
    decreases es.len(),
{
    if es.len() == 0 {
        remote
    } else {
        let prev = absorb_remote(remote, es.drop_last(), now);
        let e = es.last();
        if expired(e, now) {
            prev
        } else {
            prev.insert(e.key, e)
        }
    }
}

/// The local tier after taking in `es`, in order: the unexpired entries
/// that are recent enough are stored at `now`.
pub open spec fn absorb_local(local: Map<Seq<u8>, SlotView>, es: Seq<EntryView>, now: u64) -> Map<Seq<u8>, SlotView>
    decreases es.len(),
{
    if es.len() == 0 {
        local
    } else {
        let prev = absorb_local(local, es.drop_last(), now);
        let e = es.last();
        if !expired(e, now) && recent_enough(e, now) {
            prev.insert(e.key, (e.key, e.value, now))
        } else {
            prev
        }
    }
}

impl DistributedCache {
    /// The counters the cache reports.
    pub open spec fn spec_stats(&self) -> DistributedCacheStats {
        DistributedCacheStats {
            local_entries: self.spec_local().dom().len() as usize,
            remote_entries: self.spec_remote().dom().len() as usize,
            sync_operations: 0,
            gossip_messages: 0,
            cache_version: self.spec_version(),
        }
    }

    /// The messages waiting to be sent, taken out of the outbox.
    pub fn take_outbox(&mut self) -> (r: Vec<CacheSyncMessage>)
        requires
            old(self).wf(),
        ensures
            final(self).wf(),
            r@.map_values(|m: CacheSyncMessage| m@) == old(self).spec_outbox(),
            final(self).spec_outbox().len() == 0,
            final(self).spec_local() == old(self).spec_local(),
            final(self).spec_remote() == old(self).spec_remote(),
            final(self).spec_nodes() == old(self).spec_nodes(),
            final(self).spec_config() == old(self).spec_config(),
            final(self).spec_node_id() == old(self).spec_node_id(),
            final(self).spec_version() == old(self).spec_version(),
            final(self).spec_last_sync() == old(self).spec_last_sync(),
    {
        let mut out: Vec<CacheSyncMessage> = Vec::new();
        std::mem::swap(&mut out, &mut self.outbox);
        assert(self.spec_outbox() =~= Seq::<MessageView>::empty());
        out
    }

    /// Asks the other nodes for a key.
    fn request_from_peers(&mut self, key: &[u8])
        requires
            old(self).wf(),
        ensures
            final(self).wf(),
            final(self).spec_outbox() == old(self).spec_outbox().push(
                MessageView::Request(seq![key@], old(self).spec_node_id()),
            ),
            final(self).spec_local_list() == old(self).spec_local_list(),
            final(self).spec_remote_list() == old(self).spec_remote_list(),
            final(self).spec_nodes() == old(self).spec_nodes(),
            final(self).spec_config() == old(self).spec_config(),
            final(self).spec_node_id() == old(self).spec_node_id(),
            final(self).spec_version() == old(self).spec_version(),
            final(self).spec_last_sync() == old(self).spec_last_sync(),
    {
        let mut keys: Vec<Vec<u8>> = Vec::new();
        keys.push(copy_bytes(key));
        assert(byte_views(keys@) =~= seq![key@]);
        let message = CacheSyncMessage::CacheRequest { keys, requester_node: self.local_node_id.clone() };
        self.outbox.push(message);
        assert(self.spec_outbox() =~= old(self).spec_outbox().push(
            MessageView::Request(seq![key@], old(self).spec_node_id()),
        ));
    }

    /// Get a value at clock reading `now`: from the local tier, else from
    /// an unexpired entry learned from the cluster (which the local tier
    /// then keeps; an expired one is dropped). A miss asks the other nodes.
    pub fn get_at(&mut self, key: &[u8], now: u64) -> (r: Option<Vec<u8>>)
        requires
            old(self).wf(),
        ensures
            final(self).wf(),
            get_outcome(*old(self), *final(self), key@, now, r),
    {
        match self.local_find(key) {
            Some(i) => {
                let v = copy_bytes(self.local_cache[i].value.as_slice());
                assert(self.spec_local_list()[i as int] == self.local_cache@[i as int].view());
                return Some(v);
            },
            None => {},
        }
        match self.remote_find(key) {
            Some(i) => {
                if !self.remote_cache[i].is_expired_at(now) {
                    let v = copy_bytes(self.remote_cache[i].value.as_slice());
                    self.local_put(key, v.as_slice(), now);
                    return Some(v);
                } else {
                    self.remote_remove(key);
                }
            },
            None => {},
        }
        self.request_from_peers(key);
        None
    }

    /// Get a value now; see `get_at`.
    pub fn get(&mut self, key: &[u8]) -> (r: Option<Vec<u8>>)
        requires
            old(self).wf(),
        ensures
            final(self).wf(),
            exists|now: u64| #[trigger] get_outcome(*old(self), *final(self), key@, now, r),
    {
        let now = now_secs();
        self.get_at(key, now)
    }

    /// Put a value at clock reading `now`: both tiers hold it, as an entry
    /// of this node with the next version and the configured time to live,
    /// and the other nodes are sent the update.
    pub fn put_at(&mut self, key: Vec<u8>, value: Vec<u8>, now: u64)
        requires
            old(self).wf(),
            old(self).spec_version() < u64::MAX,
        ensures
            final(self).wf(),
            put_outcome(*old(self), *final(self), key@, value@, now),
    {
        self.cache_version = self.cache_version + 1;
        let entry = DistributedCacheEntry {
            key: copy_bytes(key.as_slice()),
            value: copy_bytes(value.as_slice()),
            timestamp: now,
            version: self.cache_version,
            ttl: self.config.cache_ttl_seconds,
            origin_node: self.local_node_id.clone(),
            compressed: false,
        };
        self.local_put(key.as_slice(), value.as_slice(), now);
        self.remote_put(entry.duplicate());
        let ghost before = self.spec_outbox();
        let message = CacheSyncMessage::CacheUpdate { entry, sender_node: self.local_node_id.clone() };
        self.outbox.push(message);
        assert(self.spec_outbox() =~= before.push(message@));
    }

    /// Put a value now; see `put_at`.
    pub fn put(&mut self, key: Vec<u8>, value: Vec<u8>)
        requires
            old(self).wf(),
            old(self).spec_version() < u64::MAX,
        ensures
            final(self).wf(),
            exists|now: u64| #[trigger] put_outcome(*old(self), *final(self), key@, value@, now),
    {
        let now = now_secs();
        let ghost k = key@;
        let ghost v = value@;
        self.put_at(key, value, now);
        assert(put_outcome(*old(self), *self, k, v, now));
    }
}

impl DistributedCache {
    /// Drops every key of `keys` from both tiers.
    fn drop_keys(&mut self, keys: &Vec<Vec<u8>>)
        requires
            old(self).wf(),
        ensures
            final(self).wf(),
            final(self).spec_local() == old(self).spec_local().remove_keys(key_set(byte_views(keys@))),
            final(self).spec_remote() == old(self).spec_remote().remove_keys(key_set(byte_views(keys@))),
            final(self).spec_nodes() == old(self).spec_nodes(),
            final(self).spec_outbox() == old(self).spec_outbox(),
            final(self).spec_config() == old(self).spec_config(),
            final(self).spec_node_id() == old(self).spec_node_id(),
            final(self).spec_version() == old(self).spec_version(),
            final(self).spec_last_sync() == old(self).spec_last_sync(),
    {
        let ghost ks = byte_views(keys@);
        let mut i: usize = 0;
        assert(key_set(ks.take(0)) =~= Set::<Seq<u8>>::empty());
        assert(old(self).spec_local().remove_keys(Set::<Seq<u8>>::empty()) =~= old(self).spec_local());
        assert(old(self).spec_remote().remove_keys(Set::<Seq<u8>>::empty()) =~= old(self).spec_remote());
        while i < keys.len()
            invariant
                0 <= i <= keys@.len(),
                ks == byte_views(keys@),
                self.wf(),
                self.spec_local() == old(self).spec_local().remove_keys(key_set(ks.take(i as int))),
                self.spec_remote() == old(self).spec_remote().remove_keys(key_set(ks.take(i as int))),
                self.spec_nodes() == old(self).spec_nodes(),
                self.spec_outbox() == old(self).spec_outbox(),
                self.spec_config() == old(self).spec_config(),
                self.spec_node_id() == old(self).spec_node_id(),
                self.spec_version() == old(self).spec_version(),
                self.spec_last_sync() == old(self).spec_last_sync(),
            decreases keys@.len() - i,
        {
            let ghost l0 = self.spec_local();
            let ghost r0 = self.spec_remote();
            self.local_remove(keys[i].as_slice());
            self.remote_remove(keys[i].as_slice());
            proof {
                let k = keys@[i as int]@;
                assert(ks[i as int] == k);
                let t1 = ks.take(i + 1);
                let t0 = ks.take(i as int);
                assert(t1 =~= t0.push(k));
                assert(key_set(t1) =~= key_set(t0).insert(k)) by {
                    assert forall|x: Seq<u8>| t1.contains(x) <==> (t0.contains(x) || x == k) by {
                        if t1.contains(x) {
                            let j = choose|j: int| 0 <= j < t1.len() && #[trigger] t1[j] == x;
                            if j < i {
                                assert(t0[j] == x);
                            }
                        }
                        if t0.contains(x) {
                            let j = choose|j: int| 0 <= j < t0.len() && #[trigger] t0[j] == x;
                            assert(t1[j] == x);
                        }
                        if x == k {
                            assert(t1[i as int] == x);
                        }
                    }
                }
                assert(self.spec_local() =~= old(self).spec_local().remove_keys(key_set(ks.take(i + 1))));
                assert(self.spec_remote() =~= old(self).spec_remote().remove_keys(key_set(ks.take(i + 1))));
            }
            i = i + 1;
        }
        assert(ks.take(keys@.len() as int) =~= ks);
    }

    /// Invalidate keys: both tiers drop them and the other nodes are told.
    pub fn invalidate(&mut self, keys: Vec<Vec<u8>>)
        requires
            old(self).wf(),
        ensures
            final(self).wf(),
            final(self).spec_local() == old(self).spec_local().remove_keys(key_set(byte_views(keys@))),
            final(self).spec_remote() == old(self).spec_remote().remove_keys(key_set(byte_views(keys@))),
            final(self).spec_outbox() == old(self).spec_outbox().push(
                MessageView::Invalidate(byte_views(keys@), old(self).spec_node_id()),
            ),
            final(self).spec_nodes() == old(self).spec_nodes(),
            final(self).spec_config() == old(self).spec_config(),
            final(self).spec_node_id() == old(self).spec_node_id(),
            final(self).spec_version() == old(self).spec_version(),
            final(self).spec_last_sync() == old(self).spec_last_sync(),
    {
        self.drop_keys(&keys);
        let ghost before = self.spec_outbox();
        let message = CacheSyncMessage::CacheInvalidate { keys, sender_node: self.local_node_id.clone() };
        self.outbox.push(message);
        assert(self.spec_outbox() =~= before.push(message@));
    }

    /// The cache's counters.
    pub fn get_stats(&self) -> (r: DistributedCacheStats)
        requires
            self.wf(),
        ensures
            r == self.spec_stats(),
    {
        proof {
            crate::keyed::lemma_keyed_map_len(self.spec_local_list(), slot_key());
            crate::keyed::lemma_keyed_map_len(self.spec_remote_list(), entry_key());
        }
        DistributedCacheStats {
            local_entries: self.local_cache.len(),
            remote_entries: self.remote_cache.len(),
            sync_operations: 0,
            gossip_messages: 0,
            cache_version: self.cache_version,
        }
    }

    /// The most accessed keys; no accesses are counted, so there are none.
    pub fn get_top_keys(&self) -> (r: Vec<(Vec<u8>, u64)>)
        ensures
            r@.len() == 0,
    {
        Vec::new()
    }

    /// The first ten keys of `top` that the local tier does not hold.
    fn missing_top_keys(&self, top: &Vec<(Vec<u8>, u64)>) -> (r: Vec<Vec<u8>>)
        requires
            self.wf(),
        ensures
            byte_views(r@) == missing_keys(top_key_views(top@), self.spec_local()),
    {
        let ghost tv = top_key_views(top@);
        let mut out: Vec<Vec<u8>> = Vec::new();
        let mut i: usize = 0;
        while i < top.len()
            invariant
                0 <= i <= top@.len(),
                tv == top_key_views(top@),
                self.wf(),
                byte_views(out@) == missing_keys(tv.take(i as int), self.spec_local()),
            decreases top@.len() - i,
        {
            let ghost before = out@;
            proof {
                assert(tv.take(i + 1).drop_last() =~= tv.take(i as int));
                assert(tv.take(i + 1).last() == tv[i as int]);
                assert(tv[i as int] == (top@[i as int].0@, top@[i as int].1));
            }
            if out.len() < 10 {
                match self.local_find(top[i].0.as_slice()) {
                    None => {
                        out.push(copy_bytes(top[i].0.as_slice()));
                        assert(byte_views(out@) =~= byte_views(before).push(top@[i as int].0@));
                    },
                    Some(_) => {},
                }
            }
            i = i + 1;
        }
        assert(tv.take(top@.len() as int) =~= tv);
        out
    }

    /// Asks each node heard from for the keys it gossiped that the local
    /// tier does not hold.
    fn request_missing_entries(&mut self)
        requires
            old(self).wf(),
        ensures
            final(self).wf(),
            final(self).spec_outbox() == old(self).spec_outbox() + missing_requests(
                old(self).spec_nodes(),
                old(self).spec_local(),
                old(self).spec_node_id(),
            ),
            final(self).spec_local_list() == old(self).spec_local_list(),
            final(self).spec_remote_list() == old(self).spec_remote_list(),
            final(self).spec_nodes() == old(self).spec_nodes(),
            final(self).spec_config() == old(self).spec_config(),
            final(self).spec_node_id() == old(self).spec_node_id(),
            final(self).spec_version() == old(self).spec_version(),
            final(self).spec_last_sync() == old(self).spec_last_sync(),
    {
        let ghost nodes = self.spec_nodes();
        let ghost local = self.spec_local();
        let ghost me = self.spec_node_id();
        let mut n: usize = 0;
        assert(old(self).spec_outbox() + missing_requests(nodes.take(0), local, me) =~= old(self).spec_outbox());
        while n < self.node_caches.len()
            invariant
                0 <= n <= self.node_caches@.len(),
                nodes == self.spec_nodes(),
                local == self.spec_local(),
                me == self.spec_node_id(),
                self.wf(),
                self.spec_outbox() == old(self).spec_outbox() + missing_requests(nodes.take(n as int), local, me),
                self.spec_local_list() == old(self).spec_local_list(),
                self.spec_remote_list() == old(self).spec_remote_list(),
                self.spec_nodes() == old(self).spec_nodes(),
                self.spec_config() == old(self).spec_config(),
                self.spec_node_id() == old(self).spec_node_id(),
                self.spec_version() == old(self).spec_version(),
                self.spec_last_sync() == old(self).spec_last_sync(),
            decreases self.node_caches@.len() - n,
        {
            let keys = self.missing_top_keys(&self.node_caches[n].top_keys);
            proof {
                assert(nodes.take(n + 1).drop_last() =~= nodes.take(n as int));
                assert(nodes.take(n + 1).last() == nodes[n as int]);
                assert(nodes[n as int] == self.node_caches@[n as int].view());
            }
            let ghost before = self.spec_outbox();
            if keys.len() > 0 {
                let message = CacheSyncMessage::CacheRequest { keys, requester_node: self.local_node_id.clone() };
                self.outbox.push(message);
                assert(self.spec_outbox() =~= before.push(message@));
                assert(self.spec_outbox() =~= old(self).spec_outbox() + missing_requests(nodes.take(n + 1), local, me));
            } else {
                assert(self.spec_outbox() =~= old(self).spec_outbox() + missing_requests(nodes.take(n + 1), local, me));
            }
            n = n + 1;
        }
        assert(nodes.take(nodes.len() as int) =~= nodes);
    }

    /// Synchronise with the other nodes at clock reading `now`, once the
    /// sync interval has passed since the last time: gossip this node's
    /// counters (with no top keys), then ask for the missing keys that the
    /// other nodes gossiped.
    pub fn sync_with_peers_at(&mut self, now: u64)
        requires
            old(self).wf(),
            old(self).spec_last_sync() <= now,
        ensures
            final(self).wf(),
            sync_outcome(*old(self), *final(self), now),
    {
        if now - self.last_sync < self.config.sync_interval_seconds {
            return;
        }
        self.last_sync = now;
        let stats = self.get_stats();
        let top_keys = self.get_top_keys();
        let ghost before = self.spec_outbox();
        let message = CacheSyncMessage::CacheGossip {
            node_id: self.local_node_id.clone(),
            cache_stats: stats,
            top_keys,
        };
        self.outbox.push(message);
        proof {
            assert(top_key_views(top_keys@) =~= Seq::<(Seq<u8>, u64)>::empty());
            assert(self.spec_outbox() =~= before.push(message@));
        }
        self.request_missing_entries();
    }

    /// Synchronise now; see `sync_with_peers_at`. A clock reading earlier
    /// than the last sync counts as too early.
    pub fn sync_with_peers(&mut self)
        requires
            old(self).wf(),
        ensures
            final(self).wf(),
            exists|now: u64| #[trigger] sync_attempt(*old(self), *final(self), now),
    {
        let now = now_secs();
        if now >= self.last_sync {
            self.sync_with_peers_at(now);
        }
        assert(sync_attempt(*old(self), *self, now));
    }
}

/// The node records after a node with `info`'s id gossiped: its record is
/// replaced, or appended when it is new.
pub open spec fn upsert_node(nodes: Seq<NodeInfoView>, info: NodeInfoView) -> Seq<NodeInfoView> {
    if exists|i: int| 0 <= i < nodes.len() && (#[trigger] nodes[i]).0 == info.0 {
        nodes.update(choose|i: int| 0 <= i < nodes.len() && (#[trigger] nodes[i]).0 == info.0, info)
    } else {
        nodes.push(info)
    }
}

impl DistributedCache {
    /// Whether an entry from another node is kept in the local tier too.
    fn should_cache_locally(&self, entry: &DistributedCacheEntry, now: u64) -> (r: bool)
        ensures
            r == recent_enough(entry@, now),
    {
        entry.timestamp <= now && (now - entry.timestamp) / 3600 < 24
    }

    /// Takes in an entry sent by another node; every consistency level
    /// accepts it.
    fn handle_cache_update(&mut self, entry: DistributedCacheEntry, now: u64)
        requires
            old(self).wf(),
        ensures
            final(self).wf(),
            final(self).spec_remote() == old(self).spec_remote().insert(entry.key@, entry@),
            final(self).spec_local() == if recent_enough(entry@, now) {
                old(self).spec_local().insert(entry.key@, (entry.key@, entry.value@, now))
            } else {
                old(self).spec_local()
            },
            final(self).spec_nodes() == old(self).spec_nodes(),
            final(self).spec_outbox() == old(self).spec_outbox(),
            final(self).spec_config() == old(self).spec_config(),
            final(self).spec_node_id() == old(self).spec_node_id(),
            final(self).spec_version() == old(self).spec_version(),
            final(self).spec_last_sync() == old(self).spec_last_sync(),
    {
        if self.should_cache_locally(&entry, now) {
            self.local_put(entry.key.as_slice(), entry.value.as_slice(), now);
        }
        self.remote_put(entry);
    }

    /// Answers a request for keys with the entries this node has.
    fn handle_cache_request(&mut self, keys: &Vec<Vec<u8>>, now: u64)
        requires
            old(self).wf(),
        ensures
            final(self).wf(),
            final(self).spec_outbox() == if answer_entries(
                byte_views(keys@),
                old(self).spec_local(),
                old(self).spec_remote(),
                now,
                old(self).spec_version(),
                old(self).spec_config().cache_ttl_seconds,
                old(self).spec_node_id(),
            ).len() > 0 {
                old(self).spec_outbox().push(
                    MessageView::Response(
                        answer_entries(
                            byte_views(keys@),
                            old(self).spec_local(),
                            old(self).spec_remote(),
                            now,
                            old(self).spec_version(),
                            old(self).spec_config().cache_ttl_seconds,
                            old(self).spec_node_id(),
                        ),
                        old(self).spec_node_id(),
                    ),
                )
            } else {
                old(self).spec_outbox()
            },
            final(self).spec_local_list() == old(self).spec_local_list(),
            final(self).spec_remote_list() == old(self).spec_remote_list(),
            final(self).spec_nodes() == old(self).spec_nodes(),
            final(self).spec_config() == old(self).spec_config(),
            final(self).spec_node_id() == old(self).spec_node_id(),
            final(self).spec_version() == old(self).spec_version(),
            final(self).spec_last_sync() == old(self).spec_last_sync(),
    {
        let ghost ks = byte_views(keys@);
        let ghost local = self.spec_local();
        let ghost remote = self.spec_remote();
        let ghost ttl = self.config.cache_ttl_seconds;
        let ghost me = self.spec_node_id();
        let mut available: Vec<DistributedCacheEntry> = Vec::new();
        let mut i: usize = 0;
        while i < keys.len()
            invariant
                0 <= i <= keys@.len(),
                ks == byte_views(keys@),
                self.wf(),
                local == self.spec_local(),
                remote == self.spec_remote(),
                ttl == self.config.cache_ttl_seconds,
                me == self.spec_node_id(),
                entry_views(available@) == answer_entries(ks.take(i as int), local, remote, now, self.spec_version(), ttl, me),
            decreases keys@.len() - i,
        {
            let ghost before = entry_views(available@);
            proof {
                assert(ks.take(i + 1).drop_last() =~= ks.take(i as int));
                assert(ks.take(i + 1).last() == keys@[i as int]@);
            }
            let key = keys[i].as_slice();
            match self.local_find(key) {
                Some(j) => {
                    assert(self.spec_local_list()[j as int] == self.local_cache@[j as int].view());
                    let entry = DistributedCacheEntry {
                        key: copy_bytes(key),
                        value: copy_bytes(self.local_cache[j].value.as_slice()),
                        timestamp: now,
                        version: self.cache_version,
                        ttl: self.config.cache_ttl_seconds,
                        origin_node: self.local_node_id.clone(),
                        compressed: false,
                    };
                    available.push(entry);
                    assert(entry_views(available@) =~= before.push(entry@));
                },
                None => match self.remote_find(key) {
                    Some(j) => {
                        if !self.remote_cache[j].is_expired_at(now) {
                            let entry = self.remote_cache[j].duplicate();
                            available.push(entry);
                            assert(entry_views(available@) =~= before.push(entry@));
                        }
                    },
                    None => {},
                },
            }
            i = i + 1;
        }
        assert(ks.take(keys@.len() as int) =~= ks);
        if available.len() > 0 {
            let ghost before = self.spec_outbox();
            let message = CacheSyncMessage::CacheResponse {
                entries: available,
                responder_node: self.local_node_id.clone(),
            };
            self.outbox.push(message);
            assert(self.spec_outbox() =~= before.push(message@));
        }
    }

    /// Takes in the entries another node answered with, skipping the
    /// expired ones.
    fn handle_cache_response(&mut self, entries: &Vec<DistributedCacheEntry>, now: u64)
        requires
            old(self).wf(),
        ensures
            final(self).wf(),
            final(self).spec_remote() == absorb_remote(old(self).spec_remote(), entry_views(entries@), now),
            final(self).spec_local() == absorb_local(old(self).spec_local(), entry_views(entries@), now),
            final(self).spec_nodes() == old(self).spec_nodes(),
            final(self).spec_outbox() == old(self).spec_outbox(),
            final(self).spec_config() == old(self).spec_config(),
            final(self).spec_node_id() == old(self).spec_node_id(),
            final(self).spec_version() == old(self).spec_version(),
            final(self).spec_last_sync() == old(self).spec_last_sync(),
    {
        let ghost es = entry_views(entries@);
        let mut i: usize = 0;
        while i < entries.len()
            invariant
                0 <= i <= entries@.len(),
                es == entry_views(entries@),
                self.wf(),
                self.spec_remote() == absorb_remote(old(self).spec_remote(), es.take(i as int), now),
                self.spec_local() == absorb_local(old(self).spec_local(), es.take(i as int), now),
                self.spec_nodes() == old(self).spec_nodes(),
                self.spec_outbox() == old(self).spec_outbox(),
                self.spec_config() == old(self).spec_config(),
                self.spec_node_id() == old(self).spec_node_id(),
                self.spec_version() == old(self).spec_version(),
                self.spec_last_sync() == old(self).spec_last_sync(),
            decreases entries@.len() - i,
        {
            proof {
                assert(es.take(i + 1).drop_last() =~= es.take(i as int));
                assert(es.take(i + 1).last() == entries@[i as int]@);
            }
            if !entries[i].is_expired_at(now) {
                let entry = entries[i].duplicate();
                self.handle_cache_update(entry, now);
            }
            i = i + 1;
        }
        assert(es.take(entries@.len() as int) =~= es);
    }

    /// Records what a node gossiped about its cache.
    fn handle_cache_gossip(
        &mut self,
        node_id: String,
        cache_stats: DistributedCacheStats,
        top_keys: Vec<(Vec<u8>, u64)>,
        now: u64,
    )
        requires
            old(self).wf(),
        ensures
            final(self).wf(),
            final(self).spec_nodes() == upsert_node(
                old(self).spec_nodes(),
                (node_id@, now, cache_stats, top_key_views(top_keys@)),
            ),
            final(self).spec_local_list() == old(self).spec_local_list(),
            final(self).spec_remote_list() == old(self).spec_remote_list(),
            final(self).spec_outbox() == old(self).spec_outbox(),
            final(self).spec_config() == old(self).spec_config(),
            final(self).spec_node_id() == old(self).spec_node_id(),
            final(self).spec_version() == old(self).spec_version(),
            final(self).spec_last_sync() == old(self).spec_last_sync(),
    {
        let ghost nodes = self.spec_nodes();
        let found = self.node_find(node_id.as_str());
        let info = NodeCacheInfo { node_id, last_seen: now, cache_stats, top_keys };
        let ghost iv = info.view();
        match found {
            Some(i) => {
                self.node_caches.set(i, info);
                proof {
                    assert(nodes[i as int].0 == iv.0);
                    let c = choose|j: int| 0 <= j < nodes.len() && (#[trigger] nodes[j]).0 == iv.0;
                    assert(c == i) by {
                        if c < i {
                            assert((node_key())(nodes[c]) != (node_key())(nodes[i as int]));
                        } else if c > i {
                            assert((node_key())(nodes[i as int]) != (node_key())(nodes[c]));
                        }
                    }
                    assert(self.spec_nodes() =~= nodes.update(i as int, iv));
                    lemma_keyed_map_update(nodes, node_key(), i as int, iv);
                }
            },
            None => {
                self.node_caches.push(info);
                proof {
                    assert(self.spec_nodes() =~= nodes.push(iv));
                    lemma_keyed_map_absent(nodes, node_key(), iv.0);
                    lemma_keys_distinct_push(nodes, node_key(), iv);
                }
            },
        }
    }

    /// Position of a node's record.
    fn node_find(&self, id: &str) -> (r: Option<usize>)
        requires
            self.wf(),
        ensures
            match r {
                Some(i) => i < self.node_caches@.len() && self.spec_nodes()[i as int].0 == id@,
                None => forall|j: int| 0 <= j < self.spec_nodes().len() ==> (#[trigger] self.spec_nodes()[j]).0 != id@,
            },
    {
        let mut i: usize = 0;
        while i < self.node_caches.len()
            invariant
                0 <= i <= self.node_caches@.len(),
                forall|j: int| 0 <= j < i ==> (#[trigger] self.spec_nodes()[j]).0 != id@,
            decreases self.node_caches@.len() - i,
        {
            assert(self.spec_nodes()[i as int] == self.node_caches@[i as int].view());
            if crate::types::str_equal(self.node_caches[i].node_id.as_str(), id) {
                return Some(i);
            }
            i = i + 1;
        }
        None
    }

    /// Process an incoming synchronisation message at clock reading `now`.
    pub fn process_sync_message_at(&mut self, message: CacheSyncMessage, now: u64)
        requires
            old(self).wf(),
        ensures
            final(self).wf(),
            sync_message_outcome(*old(self), *final(self), message@, now),
    {
        match message {
            CacheSyncMessage::CacheUpdate { entry, sender_node: _ } => {
                self.handle_cache_update(entry, now);
            },
            CacheSyncMessage::CacheRequest { keys, requester_node: _ } => {
                self.handle_cache_request(&keys, now);
            },
            CacheSyncMessage::CacheResponse { entries, responder_node: _ } => {
                self.handle_cache_response(&entries, now);
            },
            CacheSyncMessage::CacheInvalidate { keys, sender_node: _ } => {
                self.drop_keys(&keys);
            },
            CacheSyncMessage::CacheGossip { node_id, cache_stats, top_keys } => {
                self.handle_cache_gossip(node_id, cache_stats, top_keys, now);
            },
        }
    }

    /// Process an incoming synchronisation message now; see
    /// `process_sync_message_at`.
    pub fn process_sync_message(&mut self, message: CacheSyncMessage)
        requires
            old(self).wf(),
        ensures
            final(self).wf(),
            exists|now: u64| #[trigger] sync_message_outcome(*old(self), *final(self), message@, now),
    {
        let now = now_secs();
        let ghost m = message@;
        self.process_sync_message_at(message, now);
        assert(sync_message_outcome(*old(self), *self, m, now));
    }
}

impl DistributedCache {
    /// Clean up at clock reading `now`: the expired entries learned from the
    /// cluster leave, and so do the local values stored longer ago than the
    /// configured time to live. Returns how many left in all.
    pub fn cleanup_expired_at(&mut self, now: u64) -> (r: usize)
        requires
            old(self).wf(),
            old(self).spec_remote().dom().len() + old(self).spec_local().dom().len() <= usize::MAX,
        ensures
            final(self).wf(),
            cleanup_outcome(*old(self), *final(self), now, r),
    {
        let ghost rl = self.spec_remote_list();
        let ghost ll = self.spec_local_list();
        let ghost ttl = self.config.cache_ttl_seconds;
        let ghost keep_entry = |e: EntryView| !expired(e, now);
        let ghost keep_slot = |sv: SlotView| !slot_expired(sv, ttl, now);
        proof {
            crate::keyed::lemma_keyed_map_len(rl, entry_key());
            crate::keyed::lemma_keyed_map_len(ll, slot_key());
        }
        let mut kept: Vec<DistributedCacheEntry> = Vec::new();
        let mut i: usize = 0;
        while i < self.remote_cache.len()
            invariant
                0 <= i <= self.remote_cache@.len(),
                rl == self.spec_remote_list(),
                keep_entry == (|e: EntryView| !expired(e, now)),
                entry_views(kept@) == rl.take(i as int).filter(keep_entry),
                kept@.len() <= i,
            decreases self.remote_cache@.len() - i,
        {
            proof {
                reveal_with_fuel(Seq::filter, 1);
                assert(rl.take(i + 1).drop_last() =~= rl.take(i as int));
                assert(rl.take(i + 1).last() == self.remote_cache@[i as int]@);
            }
            if !self.remote_cache[i].is_expired_at(now) {
                let ghost before = entry_views(kept@);
                let e = self.remote_cache[i].duplicate();
                kept.push(e);
                assert(entry_views(kept@) =~= before.push(e@));
            }
            i = i + 1;
        }
        assert(rl.take(rl.len() as int) =~= rl);
        let removed_remote = self.remote_cache.len() - kept.len();
        let mut kept_local: Vec<LocalSlot> = Vec::new();
        let mut j: usize = 0;
        while j < self.local_cache.len()
            invariant
                0 <= j <= self.local_cache@.len(),
                ll == self.spec_local_list(),
                ttl == self.config.cache_ttl_seconds,
                keep_slot == (|sv: SlotView| !slot_expired(sv, ttl, now)),
                kept_local@.map_values(|sl: LocalSlot| sl.view()) == ll.take(j as int).filter(keep_slot),
                kept_local@.len() <= j,
            decreases self.local_cache@.len() - j,
        {
            proof {
                reveal_with_fuel(Seq::filter, 1);
                assert(ll.take(j + 1).drop_last() =~= ll.take(j as int));
                assert(ll.take(j + 1).last() == self.local_cache@[j as int].view());
            }
            let stale = match self.local_cache[j].stored_at.checked_add(self.config.cache_ttl_seconds) {
                Some(end) => now > end,
                None => false,
            };
            if !stale {
                let ghost before = kept_local@.map_values(|sl: LocalSlot| sl.view());
                let slot = LocalSlot {
                    key: copy_bytes(self.local_cache[j].key.as_slice()),
                    value: copy_bytes(self.local_cache[j].value.as_slice()),
                    stored_at: self.local_cache[j].stored_at,
                };
                kept_local.push(slot);
                assert(kept_local@.map_values(|sl: LocalSlot| sl.view()) =~= before.push(slot.view()));
            }
            j = j + 1;
        }
        assert(ll.take(ll.len() as int) =~= ll);
        let removed_local = self.local_cache.len() - kept_local.len();
        proof {
            lemma_filter_keys_distinct(rl, entry_key(), keep_entry);
            lemma_filter_keys_distinct(ll, slot_key(), keep_slot);
            crate::keyed::lemma_keyed_map_len(rl, entry_key());
            crate::keyed::lemma_keyed_map_len(ll, slot_key());
            crate::keyed::lemma_keyed_map_len(rl.filter(keep_entry), entry_key());
            crate::keyed::lemma_keyed_map_len(ll.filter(keep_slot), slot_key());
        }
        self.remote_cache = kept;
        self.local_cache = kept_local;
        proof {
            let mr = keyed_map(rl, entry_key());
            let ml = keyed_map(ll, slot_key());
            assert(mr.dom().filter(|k: Seq<u8>| keep_entry(mr[k])) =~= mr.dom().filter(
                |k: Seq<u8>| !expired(mr[k], now),
            ));
            assert(ml.dom().filter(|k: Seq<u8>| keep_slot(ml[k])) =~= ml.dom().filter(
                |k: Seq<u8>| !slot_expired(ml[k], ttl, now),
            ));
        }
        removed_remote + removed_local
    }

    /// Clean up now; see `cleanup_expired_at`.
    pub fn cleanup_expired(&mut self) -> (r: usize)
        requires
            old(self).wf(),
            old(self).spec_remote().dom().len() + old(self).spec_local().dom().len() <= usize::MAX,
        ensures
            final(self).wf(),
            exists|now: u64| #[trigger] cleanup_outcome(*old(self), *final(self), now, r),
    {
        let now = now_secs();
        self.cleanup_expired_at(now)
    }
}

/// What a synchronisation at clock reading `now` makes of `pre`: nothing
/// before the sync interval has passed; afterwards this node's counters are
/// gossiped and the missing keys asked for.
pub open spec fn sync_outcome(pre: DistributedCache, post: DistributedCache, now: u64) -> bool {
    &&& post.spec_local() == pre.spec_local()
    &&& post.spec_remote() == pre.spec_remote()
    &&& post.spec_nodes() == pre.spec_nodes()
    &&& post.spec_config() == pre.spec_config()
    &&& post.spec_node_id() == pre.spec_node_id()
    &&& post.spec_version() == pre.spec_version()
    &&& now - pre.spec_last_sync() < pre.spec_config().sync_interval_seconds ==> post.spec_last_sync()
        == pre.spec_last_sync() && post.spec_outbox() == pre.spec_outbox()
    &&& now - pre.spec_last_sync() >= pre.spec_config().sync_interval_seconds ==> post.spec_last_sync()
        == now && post.spec_outbox() == pre.spec_outbox().push(
        MessageView::Gossip(pre.spec_node_id(), pre.spec_stats(), Seq::empty())
    ) + missing_requests(pre.spec_nodes(), pre.spec_local(), pre.spec_node_id())
}

/// What a synchronisation attempt at clock reading `now` makes of `pre`:
/// a reading earlier than the last sync changes nothing.
pub open spec fn sync_attempt(pre: DistributedCache, post: DistributedCache, now: u64) -> bool {
    if pre.spec_last_sync() <= now {
        sync_outcome(pre, post, now)
    } else {
        post == pre
    }
}

/// What a read of `key` at clock reading `now` makes of `pre`, returning `r`:
/// the value `lookup` finds, the tiers as a read leaves them, and a request
/// to the other nodes after a miss.
pub open spec fn get_outcome(pre: DistributedCache, post: DistributedCache, key: Seq<u8>, now: u64, r: Option<Vec<u8>>) -> bool {
    &&& match r {
        Some(v) => lookup(pre.spec_local(), pre.spec_remote(), key, now) == Some(v@),
        None => lookup(pre.spec_local(), pre.spec_remote(), key, now) is None
    }
    &&& post.spec_local() == local_after_get(pre.spec_local(), pre.spec_remote(), key, now)
    &&& post.spec_remote() == remote_after_get(pre.spec_local(), pre.spec_remote(), key, now)
    &&& post.spec_outbox() == if r is None {
        pre.spec_outbox().push(MessageView::Request(seq![key], pre.spec_node_id()))
    } else {
        pre.spec_outbox()
    }
    &&& post.spec_nodes() == pre.spec_nodes()
    &&& post.spec_config() == pre.spec_config()
    &&& post.spec_node_id() == pre.spec_node_id()
    &&& post.spec_version() == pre.spec_version()
    &&& post.spec_last_sync() == pre.spec_last_sync()
}

/// What a write of `value` under `key` at clock reading `now` makes of
/// `pre`: both tiers hold it, as an entry of this node with the next version
/// and the configured time to live, and the update is queued for the other
/// nodes.
pub open spec fn put_outcome(pre: DistributedCache, post: DistributedCache, key: Seq<u8>, value: Seq<u8>, now: u64) -> bool {
    &&& post.spec_version() == pre.spec_version() + 1
    &&& post.spec_local() == pre.spec_local().insert(key, (key, value, now))
    &&& post.spec_remote() == pre.spec_remote().insert(
        key,
        own_entry(
            key,
            value,
            now,
            post.spec_version(),
            pre.spec_config().cache_ttl_seconds,
            pre.spec_node_id(),
        )
    )
    &&& post.spec_outbox() == pre.spec_outbox().push(
        MessageView::Update(
            own_entry(
                key,
                value,
                now,
                post.spec_version(),
                pre.spec_config().cache_ttl_seconds,
                pre.spec_node_id(),
            ),
            pre.spec_node_id(),
        )
    )
    &&& post.spec_nodes() == pre.spec_nodes()
    &&& post.spec_config() == pre.spec_config()
    &&& post.spec_node_id() == pre.spec_node_id()
    &&& post.spec_last_sync() == pre.spec_last_sync()
}

/// What processing the message `m` at clock reading `now` makes of `pre`.
pub open spec fn sync_message_outcome(pre: DistributedCache, post: DistributedCache, m: MessageView, now: u64) -> bool {
    &&& post.spec_config() == pre.spec_config()
    &&& post.spec_node_id() == pre.spec_node_id()
    &&& post.spec_version() == pre.spec_version()
    &&& post.spec_last_sync() == pre.spec_last_sync()
    &&& match m {
        MessageView::Update(e, _) => {
            &&& post.spec_remote() == pre.spec_remote().insert(e.key, e)
            &&& post.spec_local() == if recent_enough(e, now) {
                pre.spec_local().insert(e.key, (e.key, e.value, now))
            } else {
                pre.spec_local()
            }
            &&& post.spec_nodes() == pre.spec_nodes()
            &&& post.spec_outbox() == pre.spec_outbox()
        },
        MessageView::Request(ks, _) => {
            let answer = answer_entries(
                ks,
                pre.spec_local(),
                pre.spec_remote(),
                now,
                pre.spec_version(),
                pre.spec_config().cache_ttl_seconds,
                pre.spec_node_id(),
            );
            &&& post.spec_outbox() == if answer.len() > 0 {
                pre.spec_outbox().push(MessageView::Response(answer, pre.spec_node_id()))
            } else {
                pre.spec_outbox()
            }
            &&& post.spec_local() == pre.spec_local()
            &&& post.spec_remote() == pre.spec_remote()
            &&& post.spec_nodes() == pre.spec_nodes()
        },
        MessageView::Response(es, _) => {
            &&& post.spec_remote() == absorb_remote(pre.spec_remote(), es, now)
            &&& post.spec_local() == absorb_local(pre.spec_local(), es, now)
            &&& post.spec_nodes() == pre.spec_nodes()
            &&& post.spec_outbox() == pre.spec_outbox()
        },
        MessageView::Invalidate(ks, _) => {
            &&& post.spec_local() == pre.spec_local().remove_keys(key_set(ks))
            &&& post.spec_remote() == pre.spec_remote().remove_keys(key_set(ks))
            &&& post.spec_nodes() == pre.spec_nodes()
            &&& post.spec_outbox() == pre.spec_outbox()
        },
        MessageView::Gossip(id, stats, top) => {
            &&& post.spec_nodes() == upsert_node(pre.spec_nodes(), (id, now, stats, top))
            &&& post.spec_local() == pre.spec_local()
            &&& post.spec_remote() == pre.spec_remote()
            &&& post.spec_outbox() == pre.spec_outbox()
        }
    }
}

/// What a cleanup at clock reading `now` makes of `pre`, returning `r`:
/// the expired entries and the local values stored longer ago than the time
/// to live leave, and `r` counts them.
pub open spec fn cleanup_outcome(pre: DistributedCache, post: DistributedCache, now: u64, r: usize) -> bool {
    &&& post.spec_remote() == pre.spec_remote().restrict(
        pre.spec_remote().dom().filter(|k: Seq<u8>| !expired(pre.spec_remote()[k], now))
    )
    &&& post.spec_local() == pre.spec_local().restrict(
        pre.spec_local().dom().filter(
            |k: Seq<u8>| !slot_expired(pre.spec_local()[k], pre.spec_config().cache_ttl_seconds, now),
        )
    )
    &&& r == (pre.spec_remote().dom().len() - post.spec_remote().dom().len()) + (
        pre.spec_local().dom().len() - post.spec_local().dom().len())
    &&& post.spec_nodes() == pre.spec_nodes()
    &&& post.spec_outbox() == pre.spec_outbox()
    &&& post.spec_config() == pre.spec_config()
    &&& post.spec_node_id() == pre.spec_node_id()
    &&& post.spec_version() == pre.spec_version()
    &&& post.spec_last_sync() == pre.spec_last_sync()
}

/// What was put is what a lookup of the key then finds, at any later time:
/// the local tier answers first.
pub proof fn lemma_get_after_put(
    local: Map<Seq<u8>, SlotView>,
    remote: Map<Seq<u8>, EntryView>,
    key: Seq<u8>,
    value: Seq<u8>,
    now: u64,
    entry: EntryView,
    later: u64,
)
    ensures
        lookup(local.insert(key, (key, value, now)), remote.insert(key, entry), key, later) == Some(value),
{
}

/// After keys are invalidated, a lookup of any of them finds nothing.
pub proof fn lemma_get_after_invalidate(
    local: Map<Seq<u8>, SlotView>,
    remote: Map<Seq<u8>, EntryView>,
    keys: Seq<Seq<u8>>,
    key: Seq<u8>,
    now: u64,
)
    requires
        keys.contains(key),
    ensures
        lookup(local.remove_keys(key_set(keys)), remote.remove_keys(key_set(keys)), key, now) is None,
{
    assert(key_set(keys).contains(key));
}

/// After a cleanup at `now`, no entry learned from the cluster has expired
/// at `now`, and every entry that had not expired is still there.
pub proof fn lemma_cleanup_leaves_fresh(remote: Map<Seq<u8>, EntryView>, now: u64)
    ensures
        ({
            let after = remote.restrict(remote.dom().filter(|k: Seq<u8>| !expired(remote[k], now)));
            &&& forall|k: Seq<u8>| #[trigger] after.contains_key(k) ==> !expired(after[k], now)
            &&& forall|k: Seq<u8>|
                #[trigger] remote.contains_key(k) && !expired(remote[k], now) ==> after.contains_key(k) && after[k]
                    == remote[k]
        }),
{
}

} // verus!
