//! Peer discovery: the known peers, the bootstrap list and the bans.
//! Times are milliseconds of a monotonic clock.
use vstd::prelude::*;
use crate::clock::now_millis;
use crate::keyed::{
    keyed_map, keys_distinct, lemma_keyed_map_absent, lemma_keyed_map_dom, lemma_keyed_map_index, lemma_keyed_map_len,
    lemma_keyed_map_remove, lemma_keyed_map_update, lemma_keys_distinct_push,
};
use crate::network::address::PeerId;
use crate::network::firewall::{elapsed, peer_insert, peer_position, peer_views, NetworkError};

verus! {

/// Information about a peer on the network
#[derive(Debug, Clone)]
pub struct PeerInfo {
    /// Peer address
    pub addr: String,
    /// Peer ID
    pub peer_id: PeerId,
    /// Last time the peer was seen (milliseconds)
    pub last_seen: u64,
    /// Protocol version
    pub protocol_version: String,
    /// Height of the most recent block
    pub block_height: u64,
}

/// The view of a peer.
pub struct PeerInfoView {
    pub addr: Seq<char>,
    pub peer_id: Seq<u8>,
    pub last_seen: u64,
    pub protocol_version: Seq<char>,
    pub block_height: u64,
}

impl View for PeerInfo {
    type V = PeerInfoView;

    open spec fn view(&self) -> PeerInfoView {
        PeerInfoView {
            addr: self.addr@,
            peer_id: self.peer_id@,
            last_seen: self.last_seen,
            protocol_version: self.protocol_version@,
            block_height: self.block_height,
        }
    }
}

impl PeerInfo {
    /// A copy of the peer.
    pub fn duplicate(&self) -> (r: PeerInfo)
        ensures
            r@ == self@,
    {
        PeerInfo {
            addr: self.addr.clone(),
            peer_id: self.peer_id.duplicate(),
            last_seen: self.last_seen,
            protocol_version: self.protocol_version.clone(),
            block_height: self.block_height,
        }
    }
}

/// The key of a peer: its id.
pub open spec fn info_key() -> spec_fn(PeerInfoView) -> Seq<u8> {
    |p: PeerInfoView| p.peer_id
}

/// How long a peer may go unseen and still count as active: one hour.
pub const INACTIVE_THRESHOLD_MS: u64 = 3_600_000;

/// A peer still counts as active at `now`.
pub open spec fn is_active_peer(p: PeerInfoView, now: u64) -> bool {
    elapsed(now, p.last_seen) < INACTIVE_THRESHOLD_MS
}

/// The protocol version recorded for new peers.
pub open spec fn standard_version() -> Seq<char> {
    seq!['1', '.', '0', '.', '0']
}

/// The highest block height among peers, zero where there are none.
pub open spec fn max_height(s: Seq<PeerInfoView>) -> u64
    decreases s.len(),
{
    if s.len() == 0 {
        0
    } else {
        let m = max_height(s.drop_last());
        if s.last().block_height > m {
            s.last().block_height
        } else {
            m
        }
    }
}

/// What adding `peer_id` at `addr` at clock reading `now` makes of `pre`,
/// returning `r`: a banned peer is refused and nothing changes; otherwise
/// the peer's record is set, seen at `now` with the given height.
pub open spec fn peer_added_outcome(pre: PeerDiscovery, post: PeerDiscovery, peer_id: Seq<u8>, addr: Seq<char>, block_height: u64, now: u64, r: Result<(), NetworkError>) -> bool {
    &&& post.spec_banned() == pre.spec_banned()
    &&& post.spec_bootstrap() == pre.spec_bootstrap()
    &&& pre.spec_banned().contains(peer_id) ==> r == Err::<(), NetworkError>(NetworkError::PeerBanned)
        && post.spec_peers() == pre.spec_peers()
    &&& !pre.spec_banned().contains(peer_id) ==> r is Ok && post.spec_peers() == pre.spec_peers().insert(
        peer_id,
        PeerInfoView {
            addr: addr,
            peer_id: peer_id,
            last_seen: now,
            protocol_version: standard_version(),
            block_height,
        }
    )
}

/// What a sighting of `peer_id` at clock reading `now` with a block height
/// makes of `pre`, returning `r`: an unknown peer is refused and nothing
/// changes; otherwise its last sighting and height are updated.
pub open spec fn peer_updated_outcome(pre: PeerDiscovery, post: PeerDiscovery, peer_id: Seq<u8>, block_height: u64, now: u64, r: Result<(), NetworkError>) -> bool {
    &&& post.spec_banned() == pre.spec_banned()
    &&& post.spec_bootstrap() == pre.spec_bootstrap()
    &&& !pre.spec_peers().contains_key(peer_id) ==> r == Err::<(), NetworkError>(
        NetworkError::PeerNotFound
    ) && post.spec_peers() == pre.spec_peers()
    &&& pre.spec_peers().contains_key(peer_id) ==> r is Ok && post.spec_peers() == pre.spec_peers().insert(
        peer_id,
        PeerInfoView { last_seen: now, block_height, ..pre.spec_peers()[peer_id] }
    )
}

/// What forgetting the peers inactive at clock reading `now` makes of
/// `pre`, returning `r`: the active peers stay, in order, and `r` counts the
/// others.
pub open spec fn inactive_cleaned_outcome(pre: PeerDiscovery, post: PeerDiscovery, now: u64, r: usize) -> bool {
    &&& post.spec_peer_list() == pre.spec_peer_list().filter(|p: PeerInfoView| is_active_peer(p, now))
    &&& r == pre.spec_peer_list().len() - post.spec_peer_list().len()
    &&& post.spec_banned() == pre.spec_banned()
    &&& post.spec_bootstrap() == pre.spec_bootstrap()
}

/// Peer discovery manager
pub struct PeerDiscovery {
    peers: Vec<PeerInfo>,
    bootstrap_peers: Vec<String>,
    banned_peers: Vec<PeerId>,
}

impl PeerDiscovery {
    /// The known peers in the order they were added.
    pub closed spec fn spec_peer_list(&self) -> Seq<PeerInfoView> {
        self.peers@.map_values(|p: PeerInfo| p@)
    }

    /// The known peers by id.
    pub open spec fn spec_peers(&self) -> Map<Seq<u8>, PeerInfoView> {
        keyed_map(self.spec_peer_list(), info_key())
    }

    pub closed spec fn spec_bootstrap(&self) -> Seq<Seq<char>> {
        self.bootstrap_peers@.map_values(|s: String| s@)
    }

    pub closed spec fn spec_banned(&self) -> Set<Seq<u8>> {
        peer_views(self.banned_peers@).to_set()
    }

    /// Peers are unique and none is banned; bans do not repeat.
    pub closed spec fn wf(&self) -> bool {
        &&& keys_distinct(self.spec_peer_list(), info_key())
        &&& peer_views(self.banned_peers@).no_duplicates()
        &&& forall|k: Seq<u8>| #[trigger] self.spec_peers().contains_key(k) ==> !self.spec_banned().contains(k)
    }

    /// A discovery manager with the given bootstrap peers and no others.
    pub fn new(bootstrap_peers: Vec<String>) -> (r: PeerDiscovery)
        ensures
            r.wf(),
            r.spec_peers().is_empty(),
            r.spec_banned().is_empty(),
            r.spec_bootstrap() == bootstrap_peers@.map_values(|s: String| s@),
    {
        let r = PeerDiscovery { peers: Vec::new(), bootstrap_peers, banned_peers: Vec::new() };
        proof {
            assert(r.spec_peer_list() =~= Seq::<PeerInfoView>::empty());
            assert(r.spec_peers() =~= Map::empty());
            assert(r.spec_banned() =~= Set::empty());
        }
        r
    }

    /// Position of a peer.
    fn find(&self, peer_id: &PeerId) -> (r: Option<usize>)
        requires
            keys_distinct(self.spec_peer_list(), info_key()),
        ensures
            match r {
                Some(i) => i < self.peers@.len() && self.spec_peer_list()[i as int].peer_id == peer_id@
                    && self.spec_peers().contains_key(peer_id@) && self.spec_peers()[peer_id@]
                    == self.spec_peer_list()[i as int],
                None => !self.spec_peers().contains_key(peer_id@),
            },
    {
        let mut i: usize = 0;
        while i < self.peers.len()
            invariant
                0 <= i <= self.peers@.len(),
                keys_distinct(self.spec_peer_list(), info_key()),
                forall|j: int| 0 <= j < i ==> (#[trigger] self.peers@[j]).peer_id@ != peer_id@,
            decreases self.peers@.len() - i,
        {
            if self.peers[i].peer_id.same_as(peer_id) {
                proof {
                    lemma_keyed_map_index(self.spec_peer_list(), info_key(), i as int);
                }
                return Some(i);
            }
            i = i + 1;
        }
        proof {
            assert forall|j: int| 0 <= j < self.spec_peer_list().len() implies (info_key())(
                self.spec_peer_list()[j],
            ) != peer_id@ by {
                assert(self.spec_peer_list()[j] == self.peers@[j]@);
            }
            lemma_keyed_map_absent(self.spec_peer_list(), info_key(), peer_id@);
        }
        None
    }

    /// Whether a peer is banned.
    pub fn is_banned(&self, peer_id: &PeerId) -> (r: bool)
        ensures
            r == self.spec_banned().contains(peer_id@),
    {
        match peer_position(&self.banned_peers, peer_id) {
            Some(i) => {
                proof {
                    assert(peer_views(self.banned_peers@)[i as int] == peer_id@);
                }
                true
            },
            None => false,
        }
    }

    /// Adds (or replaces) a peer seen at clock reading `now`; a banned peer
    /// is refused.
    pub fn add_peer_at(&mut self, peer_id: PeerId, addr: String, block_height: u64, now: u64) -> (r: Result<
        (),
        NetworkError,
    >)
        requires
            old(self).wf(),
        ensures
            final(self).wf(),
            peer_added_outcome(*old(self), *final(self), peer_id@, addr@, block_height, now, r),
    {
        if self.is_banned(&peer_id) {
            return Err(NetworkError::PeerBanned);
        }
        let info = PeerInfo {
            addr,
            peer_id: peer_id.duplicate(),
            last_seen: now,
            protocol_version: String::from_str("1.0.0"),
            block_height,
        };
        proof {
            reveal_strlit("1.0.0");
            assert(info.protocol_version@ =~= standard_version());
        }
        let ghost iv = info@;
        let ghost before = self.spec_peer_list();
        match self.find(&peer_id) {
            Some(i) => {
                self.peers.set(i, info);
                proof {
                    assert(self.spec_peer_list() =~= before.update(i as int, iv));
                    lemma_keyed_map_update(before, info_key(), i as int, iv);
                }
            },
            None => {
                proof {
                    lemma_keys_distinct_push(before, info_key(), iv);
                }
                self.peers.push(info);
                proof {
                    assert(self.spec_peer_list() =~= before.push(iv));
                    assert(self.spec_peer_list().drop_last() =~= before);
                }
            },
        }
        Ok(())
    }

    /// Adds (or replaces) a peer seen now.
    pub fn add_peer(&mut self, peer_id: PeerId, addr: String, block_height: u64) -> (r: Result<(), NetworkError>)
        requires
            old(self).wf(),
        ensures
            final(self).wf(),
            exists|now: u64| #[trigger] peer_added_outcome(*old(self), *final(self), peer_id@, addr@, block_height, now, r),
    {
        let now = now_millis();
        let ghost (id, a) = (peer_id@, addr@);
        let r = self.add_peer_at(peer_id, addr, block_height, now);
        assert(peer_added_outcome(*old(self), *self, id, a, block_height, now, r));
        r
    }

    /// Records that a known peer was seen at `now` with a block height.
    pub fn update_peer_at(&mut self, peer_id: &PeerId, block_height: u64, now: u64) -> (r: Result<(), NetworkError>)
        requires
            old(self).wf(),
        ensures
            final(self).wf(),
            peer_updated_outcome(*old(self), *final(self), peer_id@, block_height, now, r),
    {
        match self.find(peer_id) {
            Some(i) => {
                let ghost before = self.spec_peer_list();
                self.peers[i].last_seen = now;
                self.peers[i].block_height = block_height;
                proof {
                    let nv = PeerInfoView { last_seen: now, block_height, ..before[i as int] };
                    assert(self.spec_peer_list() =~= before.update(i as int, nv));
                    lemma_keyed_map_update(before, info_key(), i as int, nv);
                }
                Ok(())
            },
            None => Err(NetworkError::PeerNotFound),
        }
    }

    /// Records that a known peer was seen now.
    pub fn update_peer(&mut self, peer_id: &PeerId, block_height: u64) -> (r: Result<(), NetworkError>)
        requires
            old(self).wf(),
        ensures
            final(self).wf(),
            exists|now: u64| #[trigger] peer_updated_outcome(*old(self), *final(self), peer_id@, block_height, now, r),
    {
        let now = now_millis();
        let r = self.update_peer_at(peer_id, block_height, now);
        assert(peer_updated_outcome(*old(self), *self, peer_id@, block_height, now, r));
        r
    }

    /// Removes the peer at position `i`.
    fn remove_at(&mut self, i: usize)
        requires
            old(self).wf(),
            i < old(self).peers@.len(),
        ensures
            final(self).wf(),
            final(self).spec_peers() == old(self).spec_peers().remove(old(self).spec_peer_list()[i as int].peer_id),
            final(self).spec_peer_list() == old(self).spec_peer_list().remove(i as int),
            final(self).spec_banned() == old(self).spec_banned(),
            final(self).spec_bootstrap() == old(self).spec_bootstrap(),
    {
        let ghost before = self.spec_peer_list();
        self.peers.remove(i);
        proof {
            assert(self.spec_peer_list() =~= before.remove(i as int));
            lemma_keyed_map_remove(before, info_key(), i as int);
            assert forall|k: Seq<u8>| #[trigger] self.spec_peers().contains_key(k) implies !self.spec_banned().contains(k) by {
                assert(old(self).spec_peers().contains_key(k));
            }
        }
    }

    /// Removes a known peer.
    pub fn remove_peer(&mut self, peer_id: &PeerId) -> (r: Result<(), NetworkError>)
        requires
            old(self).wf(),
        ensures
            final(self).wf(),
            final(self).spec_banned() == old(self).spec_banned(),
            final(self).spec_bootstrap() == old(self).spec_bootstrap(),
            final(self).spec_peers() == old(self).spec_peers().remove(peer_id@),
            (r is Ok) == old(self).spec_peers().contains_key(peer_id@),
            r is Err ==> r == Err::<(), NetworkError>(NetworkError::PeerNotFound),
    {
        match self.find(peer_id) {
            Some(i) => {
                self.remove_at(i);
                Ok(())
            },
            None => {
                assert(old(self).spec_peers().remove(peer_id@) =~= old(self).spec_peers());
                Err(NetworkError::PeerNotFound)
            },
        }
    }

    /// Bans a peer and forgets it.
    pub fn ban_peer(&mut self, peer_id: PeerId, reason: &str) -> (r: Result<(), NetworkError>)
        requires
            old(self).wf(),
        ensures
            final(self).wf(),
            r is Ok,
            final(self).spec_peers() == old(self).spec_peers().remove(peer_id@),
            final(self).spec_banned() == old(self).spec_banned().insert(peer_id@),
            final(self).spec_bootstrap() == old(self).spec_bootstrap(),
    {
        match self.find(&peer_id) {
            Some(i) => self.remove_at(i),
            None => {
                assert(old(self).spec_peers().remove(peer_id@) =~= old(self).spec_peers());
            },
        }
        peer_insert(&mut self.banned_peers, &peer_id);
        Ok(())
    }

    /// The peers active at clock reading `now`, in the order they were added.
    pub open spec fn spec_active_peers(&self, now: u64) -> Seq<PeerInfoView> {
        self.spec_peer_list().filter(|p: PeerInfoView| is_active_peer(p, now))
    }

    /// The peers active at `now`, in the order they were added.
    pub fn get_active_peers_at(&self, now: u64) -> (r: Vec<PeerInfo>)
        ensures
            r@.map_values(|p: PeerInfo| p@) == self.spec_peer_list().filter(|p: PeerInfoView| is_active_peer(p, now)),
    {
        let ghost pred = |p: PeerInfoView| is_active_peer(p, now);
        let mut out: Vec<PeerInfo> = Vec::new();
        let mut i: usize = 0;
        while i < self.peers.len()
            invariant
                0 <= i <= self.peers@.len(),
                forall|p: PeerInfoView| #[trigger] pred(p) == is_active_peer(p, now),
                out@.map_values(|p: PeerInfo| p@) == self.spec_peer_list().take(i as int).filter(pred),
            decreases self.peers@.len() - i,
        {
            let ghost before = out@;
            proof {
                reveal_with_fuel(Seq::filter, 1);
                assert(self.spec_peer_list().take(i + 1).drop_last() =~= self.spec_peer_list().take(i as int));
                assert(self.spec_peer_list()[i as int] == self.peers@[i as int]@);
            }
            let last = self.peers[i].last_seen;
            let passed: u64 = if now >= last { now - last } else { 0 };
            if passed < INACTIVE_THRESHOLD_MS {
                out.push(self.peers[i].duplicate());
                assert(out@.map_values(|p: PeerInfo| p@) =~= before.map_values(|p: PeerInfo| p@).push(
                    self.peers@[i as int]@,
                ));
            }
            i = i + 1;
        }
        assert(self.spec_peer_list().take(self.peers@.len() as int) =~= self.spec_peer_list());
        out
    }

    /// The peers active now.
    pub fn get_active_peers(&self) -> (r: Vec<PeerInfo>)
        ensures
            exists|now: u64| r@.map_values(|p: PeerInfo| p@) == #[trigger] self.spec_active_peers(now),
    {
        let now = now_millis();
        let r = self.get_active_peers_at(now);
        assert(r@.map_values(|p: PeerInfo| p@) == self.spec_active_peers(now));
        r
    }

    /// The bootstrap peers.
    pub fn get_bootstrap_peers(&self) -> (r: &[String])
        ensures
            r@.map_values(|s: String| s@) == self.spec_bootstrap(),
    {
        self.bootstrap_peers.as_slice()
    }

    /// Adds a bootstrap peer unless it is listed already.
    pub fn add_bootstrap_peer(&mut self, addr: String)
        requires
            old(self).wf(),
        ensures
            final(self).wf(),
            final(self).spec_bootstrap() == if old(self).spec_bootstrap().contains(addr@) {
                old(self).spec_bootstrap()
            } else {
                old(self).spec_bootstrap().push(addr@)
            },
            final(self).spec_peers() == old(self).spec_peers(),
            final(self).spec_banned() == old(self).spec_banned(),
    {
        let ghost b = self.spec_bootstrap();
        let mut i: usize = 0;
        while i < self.bootstrap_peers.len()
            invariant
                0 <= i <= self.bootstrap_peers@.len(),
                b == self.spec_bootstrap(),
                b == old(self).spec_bootstrap(),
                self.wf(),
                self.spec_peer_list() == old(self).spec_peer_list(),
                self.spec_banned() == old(self).spec_banned(),
                forall|j: int| 0 <= j < i ==> b[j] != addr@,
            decreases self.bootstrap_peers@.len() - i,
        {
            if self.bootstrap_peers[i] == addr {
                proof {
                    assert(b[i as int] == addr@);
                }
                return;
            }
            i = i + 1;
        }
        let ghost pre = *self;
        self.bootstrap_peers.push(addr);
        proof {
            assert(self.spec_bootstrap() =~= b.push(addr@));
            assert(self.spec_peer_list() == pre.spec_peer_list());
            assert(self.spec_banned() == pre.spec_banned());
            assert forall|k: Seq<u8>| #[trigger] self.spec_peers().contains_key(k) implies !self.spec_banned().contains(k) by {
                assert(pre.spec_peers().contains_key(k));
            }
        }
    }

    /// Forgets the peers inactive at `now`; returns how many.
    pub fn clean_inactive_peers_at(&mut self, now: u64) -> (r: usize)
        requires
            old(self).wf(),
        ensures
            final(self).wf(),
            inactive_cleaned_outcome(*old(self), *final(self), now, r),
    {
        let ghost pred = |p: PeerInfoView| is_active_peer(p, now);
        let ghost before = self.spec_peer_list();
        let mut kept: Vec<PeerInfo> = Vec::new();
        let mut removed: usize = 0;
        let mut i: usize = 0;
        while i < self.peers.len()
            invariant
                0 <= i <= self.peers@.len(),
                before == self.spec_peer_list(),
                forall|p: PeerInfoView| #[trigger] pred(p) == is_active_peer(p, now),
                kept@.map_values(|p: PeerInfo| p@) == before.take(i as int).filter(pred),
                removed + kept@.len() == i,
            decreases self.peers@.len() - i,
        {
            let ghost k0 = kept@;
            proof {
                reveal_with_fuel(Seq::filter, 1);
                assert(before.take(i + 1).drop_last() =~= before.take(i as int));
                assert(before[i as int] == self.peers@[i as int]@);
            }
            let last = self.peers[i].last_seen;
            let passed: u64 = if now >= last { now - last } else { 0 };
            if passed < INACTIVE_THRESHOLD_MS {
                kept.push(self.peers[i].duplicate());
                assert(kept@.map_values(|p: PeerInfo| p@) =~= k0.map_values(|p: PeerInfo| p@).push(
                    self.peers@[i as int]@,
                ));
            } else {
                removed = removed + 1;
            }
            i = i + 1;
        }
        proof {
            assert(before.take(before.len() as int) =~= before);
            assert(kept@.map_values(|p: PeerInfo| p@).len() == kept@.len());
            crate::keyed::lemma_filter_keys_distinct(before, info_key(), pred);
        }
        self.peers = kept;
        proof {
            assert(self.spec_peer_list() == before.filter(pred));
            assert(self.spec_banned() == old(self).spec_banned());
            assert forall|k: Seq<u8>| #[trigger] self.spec_peers().contains_key(k) implies !self.spec_banned().contains(
                k,
            ) by {
                lemma_keyed_map_dom(self.spec_peer_list(), info_key(), k);
                let j = choose|j: int| 0 <= j < self.spec_peer_list().len() && (info_key())(self.spec_peer_list()[j]) == k;
                lemma_filter_member(before, pred, j);
                let m = choose|m: int| 0 <= m < before.len() && before[m] == self.spec_peer_list()[j];
                lemma_keyed_map_index(before, info_key(), m);
                assert(old(self).spec_peers().contains_key(k));
            }
        }
        removed
    }

    /// Forgets the peers inactive now; returns how many.
    pub fn clean_inactive_peers(&mut self) -> (r: usize)
        requires
            old(self).wf(),
        ensures
            final(self).wf(),
            exists|now: u64| #[trigger] inactive_cleaned_outcome(*old(self), *final(self), now, r),
    {
        let now = now_millis();
        self.clean_inactive_peers_at(now)
    }

    /// The number of known peers.
    pub fn peer_count(&self) -> (r: usize)
        requires
            self.wf(),
        ensures
            r == self.spec_peers().len(),
    {
        proof {
            lemma_keyed_map_len(self.spec_peer_list(), info_key());
        }
        self.peers.len()
    }

    /// The number of banned peers.
    pub fn banned_count(&self) -> (r: usize)
        requires
            self.wf(),
        ensures
            r == self.spec_banned().len(),
    {
        proof {
            peer_views(self.banned_peers@).unique_seq_to_set();
        }
        self.banned_peers.len()
    }

    /// The peers with the highest block height, in the order they were
    /// added.
    pub fn find_highest_block_peers(&self) -> (r: Vec<PeerInfo>)
        ensures
            r@.map_values(|p: PeerInfo| p@) == self.spec_peer_list().filter(
                |p: PeerInfoView| p.block_height == max_height(self.spec_peer_list()),
            ),
    {
        let ghost s = self.spec_peer_list();
        let mut m: u64 = 0;
        let mut i: usize = 0;
        while i < self.peers.len()
            invariant
                0 <= i <= self.peers@.len(),
                s == self.spec_peer_list(),
                m == max_height(s.take(i as int)),
            decreases self.peers@.len() - i,
        {
            proof {
                assert(s.take(i + 1).drop_last() =~= s.take(i as int));
                assert(s[i as int] == self.peers@[i as int]@);
            }
            if self.peers[i].block_height > m {
                m = self.peers[i].block_height;
            }
            i = i + 1;
        }
        assert(s.take(s.len() as int) =~= s);
        let ghost pred = |p: PeerInfoView| p.block_height == max_height(s);
        let mut out: Vec<PeerInfo> = Vec::new();
        let mut k: usize = 0;
        while k < self.peers.len()
            invariant
                0 <= k <= self.peers@.len(),
                s == self.spec_peer_list(),
                m == max_height(s),
                forall|p: PeerInfoView| #[trigger] pred(p) == (p.block_height == max_height(s)),
                out@.map_values(|p: PeerInfo| p@) == s.take(k as int).filter(pred),
            decreases self.peers@.len() - k,
        {
            let ghost before = out@;
            proof {
                reveal_with_fuel(Seq::filter, 1);
                assert(s.take(k + 1).drop_last() =~= s.take(k as int));
                assert(s[k as int] == self.peers@[k as int]@);
            }
            if self.peers[k].block_height == m {
                out.push(self.peers[k].duplicate());
                assert(out@.map_values(|p: PeerInfo| p@) =~= before.map_values(|p: PeerInfo| p@).push(
                    self.peers@[k as int]@,
                ));
            }
            k = k + 1;
        }
        assert(s.take(s.len() as int) =~= s);
        out
    }
}

/// An item of a filtered sequence comes from the sequence.
proof fn lemma_filter_member(s: Seq<PeerInfoView>, pred: spec_fn(PeerInfoView) -> bool, j: int)
    requires
        0 <= j < s.filter(pred).len(),
    ensures
        exists|m: int| 0 <= m < s.len() && s[m] == s.filter(pred)[j],
{
    assert(s.filter(pred).contains(s.filter(pred)[j]));
    s.lemma_filter_contains_rev(pred, s.filter(pred)[j]);
}

} // verus!
