//! Network security policy: peer authentication by trust level, connection
//! rate limiting against floods, and a score of the configuration. Times
//! are seconds since the UNIX epoch.
use vstd::prelude::*;
use crate::clock::now_secs;
use crate::keyed::{
    keyed_map, keys_distinct, lemma_keyed_map_absent, lemma_keyed_map_index, lemma_keyed_map_len,
    lemma_keyed_map_update, lemma_keys_distinct_push,
};
use crate::network::address::PeerId;
use crate::types::copy_strings;

verus! {

/// Network security configuration
#[derive(Debug, Clone, Copy, PartialEq, Eq, Structural)]
pub struct NetworkSecurityConfig {
    /// Enable Noise protocol for authentication (primary security)
    pub enable_noise: bool,
    /// Connection timeout in seconds
    pub connection_timeout_secs: u64,
    /// Maximum connections per peer
    pub max_connections_per_peer: usize,
    /// Enable peer authentication
    pub enable_peer_auth: bool,
    /// Certificate validation strictness
    pub strict_cert_validation: bool,
}

impl Default for NetworkSecurityConfig {
    /// Noise on, 30 s timeout, 5 connections per peer, peer authentication
    /// and strict validation on.
    fn default() -> (r: NetworkSecurityConfig)
        ensures
            r == (NetworkSecurityConfig {
                enable_noise: true,
                connection_timeout_secs: 30,
                max_connections_per_peer: 5,
                enable_peer_auth: true,
                strict_cert_validation: true,
            }),
    {
        NetworkSecurityConfig {
            enable_noise: true,
            connection_timeout_secs: 30,
            max_connections_per_peer: 5,
            enable_peer_auth: true,
            strict_cert_validation: true,
        }
    }
}

#[derive(Debug, Clone, Copy, PartialEq, Eq, Structural)]
pub enum TrustLevel {
    Unknown,
    Known,
    Trusted,
    Blocked,
}

/// What the authenticator knows of a peer; addresses are multiaddress text.
#[derive(Debug, Clone)]
pub struct PeerInfo {
    pub peer_id: PeerId,
    pub addresses: Vec<String>,
    pub trust_level: TrustLevel,
    pub last_seen: u64,
    pub connection_count: usize,
}

/// The view of a peer: id, addresses, trust level, last seen, connections.
pub type PeerView = (Seq<u8>, Seq<Seq<char>>, TrustLevel, u64, usize);

impl View for PeerInfo {
    type V = PeerView;

    open spec fn view(&self) -> PeerView {
        (
            self.peer_id@,
            self.addresses@.map_values(|s: String| s@),
            self.trust_level,
            self.last_seen,
            self.connection_count,
        )
    }
}

impl PeerInfo {
    /// A copy of the peer information.
    pub fn duplicate(&self) -> (r: PeerInfo)
        ensures
            r@ == self@,
    {
        PeerInfo {
            peer_id: self.peer_id.duplicate(),
            addresses: copy_strings(&self.addresses),
            trust_level: self.trust_level,
            last_seen: self.last_seen,
            connection_count: self.connection_count,
        }
    }
}

/// Errors of the security layer.
#[derive(Debug, Clone, Copy, PartialEq, Eq, Structural)]
pub enum SecurityError {
    /// The peer is blocked.
    PeerBlocked,
    /// The peer has as many connections as it may.
    TooManyConnections,
}

/// The key of a peer: its id.
pub open spec fn peer_info_key() -> spec_fn(PeerView) -> Seq<u8> {
    |p: PeerView| p.0
}

/// How old a peer record may grow: `days` days, in seconds.
pub open spec fn age_limit(days: u64) -> int {
    days * 86400
}

/// A peer record survives a cleanup at `now`: its age is below the limit,
/// or it was seen later than `now`.
pub open spec fn peer_kept(p: PeerView, limit: int, now: u64) -> bool {
    now < p.3 || now - p.3 < limit
}

/// What recording `peer_id` as trusted at clock reading `now` makes of
/// `pre`: the peer's record becomes trusted, with these addresses, seen at
/// `now` and with no connection; the configuration stays.
pub open spec fn trusted_outcome(pre: PeerAuthenticator, post: PeerAuthenticator, peer_id: Seq<u8>, addresses: Seq<String>, now: u64, r: Result<(), SecurityError>) -> bool {
    &&& r is Ok
    &&& post.spec_config() == pre.spec_config()
    &&& post.spec_peers() == pre.spec_peers().insert(
        peer_id,
        (peer_id, addresses.map_values(|s: String| s@), TrustLevel::Trusted, now, 0usize)
    )
}

/// Peer authentication manager
pub struct PeerAuthenticator {
    trusted_peers: Vec<PeerInfo>,
    config: NetworkSecurityConfig,
}

impl PeerAuthenticator {
    /// The peers in the order they were added.
    pub closed spec fn spec_peer_list(&self) -> Seq<PeerView> {
        self.trusted_peers@.map_values(|p: PeerInfo| p@)
    }

    /// The peers by id.
    pub open spec fn spec_peers(&self) -> Map<Seq<u8>, PeerView> {
        keyed_map(self.spec_peer_list(), peer_info_key())
    }

    pub closed spec fn spec_config(&self) -> NetworkSecurityConfig {
        self.config
    }

    /// One record per peer.
    pub closed spec fn wf(&self) -> bool {
        keys_distinct(self.spec_peer_list(), peer_info_key())
    }

    /// An authenticator that knows no peer.
    pub fn new(config: NetworkSecurityConfig) -> (r: PeerAuthenticator)
        ensures
            r.wf(),
            r.spec_config() == config,
            r.spec_peer_list().len() == 0,
    {
        let r = PeerAuthenticator { trusted_peers: Vec::new(), config };
        assert(r.spec_peer_list() =~= Seq::<PeerView>::empty());
        r
    }

    /// Position of a peer.
    fn find(&self, peer_id: &PeerId) -> (r: Option<usize>)
        requires
            self.wf(),
        ensures
            match r {
                Some(i) => i < self.trusted_peers@.len() && self.spec_peer_list()[i as int].0 == peer_id@
                    && self.spec_peers().contains_key(peer_id@) && self.spec_peers()[peer_id@]
                    == self.spec_peer_list()[i as int],
                None => !self.spec_peers().contains_key(peer_id@),
            },
    {
        let mut i: usize = 0;
        while i < self.trusted_peers.len()
            invariant
                0 <= i <= self.trusted_peers@.len(),
                self.wf(),
                forall|j: int| 0 <= j < i ==> (#[trigger] self.trusted_peers@[j]).peer_id@ != peer_id@,
            decreases self.trusted_peers@.len() - i,
        {
            if self.trusted_peers[i].peer_id.same_as(peer_id) {
                proof {
                    lemma_keyed_map_index(self.spec_peer_list(), peer_info_key(), i as int);
                }
                return Some(i);
            }
            i = i + 1;
        }
        proof {
            assert forall|j: int| 0 <= j < self.spec_peer_list().len() implies (peer_info_key())(
                self.spec_peer_list()[j],
            ) != peer_id@ by {
                assert(self.spec_peer_list()[j].0 == self.trusted_peers@[j].peer_id@);
            }
            lemma_keyed_map_absent(self.spec_peer_list(), peer_info_key(), peer_id@);
        }
        None
    }

    /// The trust level a connecting peer gets: a blocked peer, or one at
    /// its connection limit, is refused; an unknown peer is `Unknown` under
    /// peer authentication and `Known` without it.
    pub fn authenticate_peer(&self, peer_id: &PeerId, address: &str) -> (r: Result<TrustLevel, SecurityError>)
        requires
            self.wf(),
        ensures
            r == match self.spec_peers().get(peer_id@) {
                Some(p) => if p.2 == TrustLevel::Blocked {
                    Err(SecurityError::PeerBlocked)
                } else if p.4 >= self.spec_config().max_connections_per_peer {
                    Err(SecurityError::TooManyConnections)
                } else {
                    Ok(p.2)
                },
                None => if self.spec_config().enable_peer_auth {
                    Ok(TrustLevel::Unknown)
                } else {
                    Ok(TrustLevel::Known)
                },
            },
    {
        match self.find(peer_id) {
            Some(i) => {
                let p = &self.trusted_peers[i];
                if p.trust_level == TrustLevel::Blocked {
                    return Err(SecurityError::PeerBlocked);
                }
                if p.connection_count >= self.config.max_connections_per_peer {
                    return Err(SecurityError::TooManyConnections);
                }
                Ok(p.trust_level)
            },
            None => {
                if self.config.enable_peer_auth {
                    Ok(TrustLevel::Unknown)
                } else {
                    Ok(TrustLevel::Known)
                }
            },
        }
    }

    /// Records a peer as trusted at clock reading `now`, with no
    /// connections, replacing what was known of it.
    pub fn add_trusted_peer_at(&mut self, peer_id: PeerId, addresses: Vec<String>, now: u64) -> (r: Result<
        (),
        SecurityError,
    >)
        requires
            old(self).wf(),
        ensures
            final(self).wf(),
            trusted_outcome(*old(self), *final(self), peer_id@, addresses@, now, r),
    {
        let info = PeerInfo {
            peer_id: peer_id.duplicate(),
            addresses,
            trust_level: TrustLevel::Trusted,
            last_seen: now,
            connection_count: 0,
        };
        let ghost iv = info@;
        let ghost before = self.spec_peer_list();
        match self.find(&peer_id) {
            Some(i) => {
                self.trusted_peers.set(i, info);
                proof {
                    assert(self.spec_peer_list() =~= before.update(i as int, iv));
                    lemma_keyed_map_update(before, peer_info_key(), i as int, iv);
                }
            },
            None => {
                proof {
                    lemma_keys_distinct_push(before, peer_info_key(), iv);
                }
                self.trusted_peers.push(info);
                proof {
                    assert(self.spec_peer_list() =~= before.push(iv));
                    assert(self.spec_peer_list().drop_last() =~= before);
                }
            },
        }
        Ok(())
    }

    /// Records a peer as trusted now.
    pub fn add_trusted_peer(&mut self, peer_id: PeerId, addresses: Vec<String>) -> (r: Result<(), SecurityError>)
        requires
            old(self).wf(),
        ensures
            final(self).wf(),
            exists|now: u64| #[trigger] trusted_outcome(*old(self), *final(self), peer_id@, addresses@, now, r),
    {
        let now = now_secs();
        let ghost (id, a) = (peer_id@, addresses@);
        let r = self.add_trusted_peer_at(peer_id, addresses, now);
        assert(trusted_outcome(*old(self), *self, id, a, now, r));
        r
    }

    /// Blocks a known peer; unknown peers are ignored.
    pub fn block_peer(&mut self, peer_id: &PeerId) -> (r: Result<(), SecurityError>)
        requires
            old(self).wf(),
        ensures
            final(self).wf(),
            r is Ok,
            final(self).spec_config() == old(self).spec_config(),
            final(self).spec_peers() == match old(self).spec_peers().get(peer_id@) {
                Some(p) => old(self).spec_peers().insert(peer_id@, (p.0, p.1, TrustLevel::Blocked, p.3, p.4)),
                None => old(self).spec_peers(),
            },
    {
        match self.find(peer_id) {
            Some(i) => {
                let ghost before = self.spec_peer_list();
                self.trusted_peers[i].trust_level = TrustLevel::Blocked;
                proof {
                    let p = before[i as int];
                    let nv = (p.0, p.1, TrustLevel::Blocked, p.3, p.4);
                    assert(self.spec_peer_list() =~= before.update(i as int, nv));
                    lemma_keyed_map_update(before, peer_info_key(), i as int, nv);
                }
            },
            None => {},
        }
        Ok(())
    }

    /// Counts a connection of a known peer opening or closing (saturating)
    /// at clock reading `now`; unknown peers are ignored.
    pub fn update_peer_connection_at(&mut self, peer_id: &PeerId, connected: bool, now: u64) -> (r: Result<
        (),
        SecurityError,
    >)
        requires
            old(self).wf(),
        ensures
            final(self).wf(),
            r is Ok,
            final(self).spec_config() == old(self).spec_config(),
            final(self).spec_peers() == match old(self).spec_peers().get(peer_id@) {
                Some(p) => old(self).spec_peers().insert(
                    peer_id@,
                    (
                        p.0,
                        p.1,
                        p.2,
                        now,
                        if connected {
                            if p.4 == usize::MAX { p.4 } else { (p.4 + 1) as usize }
                        } else {
                            if p.4 == 0 { 0 } else { (p.4 - 1) as usize }
                        },
                    ),
                ),
                None => old(self).spec_peers(),
            },
    {
        match self.find(peer_id) {
            Some(i) => {
                let ghost before = self.spec_peer_list();
                let count = self.trusted_peers[i].connection_count;
                self.trusted_peers[i].connection_count = if connected {
                    count.saturating_add(1)
                } else {
                    count.saturating_sub(1)
                };
                self.trusted_peers[i].last_seen = now;
                proof {
                    let p = before[i as int];
                    let nv = (p.0, p.1, p.2, now, self.trusted_peers@[i as int].connection_count);
                    assert(self.spec_peer_list() =~= before.update(i as int, nv));
                    lemma_keyed_map_update(before, peer_info_key(), i as int, nv);
                }
            },
            None => {},
        }
        Ok(())
    }

    /// The known peers, in the order they were added.
    pub fn get_trusted_peers(&self) -> (r: Result<Vec<PeerInfo>, SecurityError>)
        ensures
            r matches Ok(v) && v@.map_values(|p: PeerInfo| p@) == self.spec_peer_list(),
    {
        let mut out: Vec<PeerInfo> = Vec::new();
        let mut i: usize = 0;
        while i < self.trusted_peers.len()
            invariant
                0 <= i <= self.trusted_peers@.len(),
                out@.map_values(|p: PeerInfo| p@) == self.spec_peer_list().take(i as int),
            decreases self.trusted_peers@.len() - i,
        {
            let ghost before = out@;
            out.push(self.trusted_peers[i].duplicate());
            proof {
                assert(out@.map_values(|p: PeerInfo| p@) =~= before.map_values(|p: PeerInfo| p@).push(
                    self.trusted_peers@[i as int]@,
                ));
                assert(out@.map_values(|p: PeerInfo| p@) =~= self.spec_peer_list().take(i + 1));
            }
            i = i + 1;
        }
        assert(self.spec_peer_list().take(self.trusted_peers@.len() as int) =~= self.spec_peer_list());
        Ok(out)
    }

    /// Forgets the peers last seen `max_age_days` days or more before clock
    /// reading `now`; returns how many.
    pub fn cleanup_old_peers_at(&mut self, max_age_days: u64, now: u64) -> (r: Result<usize, SecurityError>)
        requires
            old(self).wf(),
            max_age_days * 86400 <= u64::MAX,
        ensures
            final(self).wf(),
            final(self).spec_config() == old(self).spec_config(),
            final(self).spec_peer_list() == old(self).spec_peer_list().filter(
                |p: PeerView| peer_kept(p, age_limit(max_age_days), now),
            ),
            r == Ok::<usize, SecurityError>(
                (old(self).spec_peer_list().len() - final(self).spec_peer_list().len()) as usize,
            ),
    {
        let limit: u64 = max_age_days * 86400;
        let ghost pred = |p: PeerView| peer_kept(p, age_limit(max_age_days), now);
        let ghost before = self.spec_peer_list();
        let mut kept: Vec<PeerInfo> = Vec::new();
        let mut removed: usize = 0;
        let mut i: usize = 0;
        while i < self.trusted_peers.len()
            invariant
                0 <= i <= self.trusted_peers@.len(),
                before == self.spec_peer_list(),
                limit == age_limit(max_age_days),
                forall|p: PeerView| #[trigger] pred(p) == peer_kept(p, age_limit(max_age_days), now),
                kept@.map_values(|p: PeerInfo| p@) == before.take(i as int).filter(pred),
                removed + kept@.len() == i,
            decreases self.trusted_peers@.len() - i,
        {
            let ghost k0 = kept@;
            proof {
                reveal_with_fuel(Seq::filter, 1);
                assert(before.take(i + 1).drop_last() =~= before.take(i as int));
                assert(before[i as int] == self.trusted_peers@[i as int]@);
            }
            let last = self.trusted_peers[i].last_seen;
            if now < last || now - last < limit {
                kept.push(self.trusted_peers[i].duplicate());
                assert(kept@.map_values(|p: PeerInfo| p@) =~= k0.map_values(|p: PeerInfo| p@).push(
                    self.trusted_peers@[i as int]@,
                ));
            } else {
                removed = removed + 1;
            }
            i = i + 1;
        }
        proof {
            assert(before.take(before.len() as int) =~= before);
            assert(kept@.map_values(|p: PeerInfo| p@).len() == kept@.len());
            crate::keyed::lemma_filter_keys_distinct(before, peer_info_key(), pred);
        }
        self.trusted_peers = kept;
        Ok(removed)
    }
}

/// Connection-rate limits, per minute, and how long a tracked address is
/// remembered (minutes).
#[derive(Debug, Clone, Copy, PartialEq, Eq, Structural)]
pub struct RateLimits {
    pub max_connections_per_minute: usize,
    pub max_connection_attempts_per_minute: usize,
    pub ban_duration_minutes: u64,
}

impl Default for RateLimits {
    /// 10 connections and 30 attempts per minute, remembered 15 minutes.
    fn default() -> (r: RateLimits)
        ensures
            r == (RateLimits {
                max_connections_per_minute: 10,
                max_connection_attempts_per_minute: 30,
                ban_duration_minutes: 15,
            }),
    {
        RateLimits { max_connections_per_minute: 10, max_connection_attempts_per_minute: 30, ban_duration_minutes: 15 }
    }
}

/// Attempts from one address: count, start of the minute, last attempt.
pub type AttemptView = (Seq<char>, (usize, u64, u64));

/// The key of an attempt record: the address.
pub open spec fn attempt_key() -> spec_fn(AttemptView) -> Seq<char> {
    |a: AttemptView| a.0
}

/// The record of an address after an attempt at `now`: a fresh record, or
/// one whose minute has passed, starts again; then the attempt is counted.
pub open spec fn attempt_after(prev: Option<(usize, u64, u64)>, now: u64) -> (usize, u64, u64) {
    let (count, first) = match prev {
        None => (0usize, now),
        Some(a) => if now >= a.1 && now - a.1 >= 60 {
            (0usize, now)
        } else {
            (a.0, a.1)
        },
    };
    ((count + 1) as usize, first, now)
}

/// The record of an address after attempts at the clock readings `times`,
/// in order, starting from `prev`.
pub open spec fn attempts_from(prev: Option<(usize, u64, u64)>, times: Seq<u64>) -> Option<(usize, u64, u64)>
    decreases times.len(),
{
    if times.len() == 0 {
        prev
    } else {
        Some(attempt_after(attempts_from(prev, times.drop_last()), times.last()))
    }
}

/// Attempts from a new address at readings that stay within a minute of the
/// first are counted one by one: after `n` of them the count is `n`, so the
/// `n`th attempt is allowed exactly when `n` is within the per-minute limit.
pub proof fn lemma_attempts_counted(times: Seq<u64>)
    requires
        0 < times.len() < usize::MAX,
        forall|i: int| 0 <= i < times.len() ==> times[0] <= #[trigger] times[i] && times[i] - times[0] < 60,
        forall|i: int, j: int| 0 <= i <= j < times.len() ==> times[i] <= times[j],
    ensures
        attempts_from(None, times) == Some((times.len() as usize, times[0], times.last())),
    decreases times.len(),
{
    if times.len() > 1 {
        let p = times.drop_last();
        assert(p[0] == times[0]);
        assert forall|i: int| 0 <= i < p.len() implies p[0] <= #[trigger] p[i] && p[i] - p[0] < 60 by {
            assert(p[i] == times[i]);
        }
        assert forall|i: int, j: int| 0 <= i <= j < p.len() implies p[i] <= p[j] by {
            assert(p[i] == times[i] && p[j] == times[j]);
        }
        lemma_attempts_counted(p);
        let t = times[times.len() - 1];
        assert(times.last() == t);
        assert(times[0] <= t && t - times[0] < 60);
        assert(attempts_from(None, p) == Some(((times.len() - 1) as usize, times[0], p.last())));
        assert(attempt_after(attempts_from(None, p), t) == (times.len() as usize, times[0], t));
    } else {
        assert(times.drop_last().len() == 0);
        assert(attempts_from(None, times.drop_last()) == None::<(usize, u64, u64)>);
        assert(attempt_after(None, times.last()) == (1usize, times.last(), times.last()));
        assert(times.last() == times[0]);
    }
}

/// A tracked address survives a cleanup at `now`: seen less than the ban
/// duration ago (and not in the future).
pub open spec fn attempt_kept(a: AttemptView, max_age: int, now: u64) -> bool {
    now >= a.1.2 && now - a.1.2 < max_age
}

/// The attempts of all tracked addresses.
pub open spec fn attempts_total(s: Seq<AttemptView>) -> nat
    decreases s.len(),
{
    if s.len() == 0 {
        0
    } else {
        attempts_total(s.drop_last()) + s.last().1.0 as nat
    }
}

/// What an attempt from `ip_addr` at clock reading `now` makes of `pre`,
/// returning `r`: the address's per-minute count moves on, and the attempt
/// is allowed while the count stays within the limit.
pub open spec fn attempt_outcome(pre: DDoSProtection, post: DDoSProtection, ip_addr: Seq<char>, now: u64, r: Result<bool, SecurityError>) -> bool {
    &&& post.spec_rate_limits() == pre.spec_rate_limits()
    &&& ({
        let prev = match pre.spec_attempts().get(ip_addr) {
            Some(a) => Some(a.1),
            None => None,
        };
        let a = attempt_after(prev, now);
        &&& post.spec_attempts() == pre.spec_attempts().insert(ip_addr, (ip_addr, a))
        &&& r == Ok::<bool, SecurityError>(a.0 <= pre.spec_rate_limits().max_connection_attempts_per_minute)
    })
}

/// `states` is a run of attempts from `ip`: each state follows from the one
/// before by an attempt at the matching clock reading, answered by the
/// matching result; the first has no record of `ip`, and the readings rise
/// and stay within a minute of the first.
pub open spec fn attempt_run(
    states: Seq<DDoSProtection>,
    ip: Seq<char>,
    times: Seq<u64>,
    results: Seq<Result<bool, SecurityError>>,
) -> bool {
    &&& 0 < times.len() < usize::MAX
    &&& states.len() == times.len() + 1
    &&& results.len() == times.len()
    &&& !states[0].spec_attempts().contains_key(ip)
    &&& forall|k: int| 0 <= k < times.len() ==> #[trigger] attempt_outcome(states[k], states[k + 1], ip, times[k], results[k])
    &&& forall|k: int| 0 <= k < times.len() ==> times[0] <= #[trigger] times[k] && times[k] - times[0] < 60
    &&& forall|j: int, k: int| 0 <= j <= k < times.len() ==> times[j] <= times[k]
}

/// After the first `k` attempts of a run, the address has `k` attempts
/// counted in the minute that began with the first.
proof fn lemma_run_prefix(
    states: Seq<DDoSProtection>,
    ip: Seq<char>,
    times: Seq<u64>,
    results: Seq<Result<bool, SecurityError>>,
    k: int,
)
    requires
        attempt_run(states, ip, times, results),
        1 <= k <= times.len(),
    ensures
        states[k].spec_attempts().contains_key(ip),
        states[k].spec_attempts()[ip] == (ip, (k as usize, times[0], times[k - 1])),
        states[k].spec_rate_limits() == states[0].spec_rate_limits(),
        results[k - 1] == Ok::<bool, SecurityError>(k <= states[0].spec_rate_limits().max_connection_attempts_per_minute),
    decreases k,
{
    let j = k - 1;
    assert(attempt_outcome(states[j], states[j + 1], ip, times[j], results[j]));
    assert(j + 1 == k);
    assert(times[0] <= times[j] && times[j] - times[0] < 60);
    if k > 1 {
        lemma_run_prefix(states, ip, times, results, k - 1);
    }
}

/// Attempts from one address within a minute of the first are counted one
/// by one: the `n`th is allowed exactly when `n` is within the per-minute
/// limit, and after `n` attempts the address's count is `n`.
pub proof fn lemma_calls_counted(
    states: Seq<DDoSProtection>,
    ip: Seq<char>,
    times: Seq<u64>,
    results: Seq<Result<bool, SecurityError>>,
)
    requires
        attempt_run(states, ip, times, results),
    ensures
        forall|k: int| 0 <= k < times.len() ==> #[trigger] results[k] == Ok::<bool, SecurityError>(
            k + 1 <= states[0].spec_rate_limits().max_connection_attempts_per_minute,
        ),
        states[times.len() as int].spec_attempts()[ip].1.0 == times.len(),
{
    assert forall|k: int| 0 <= k < times.len() implies #[trigger] results[k] == Ok::<bool, SecurityError>(
        k + 1 <= states[0].spec_rate_limits().max_connection_attempts_per_minute,
    ) by {
        lemma_run_prefix(states, ip, times, results, k + 1);
    }
    lemma_run_prefix(states, ip, times, results, times.len() as int);
}

/// DDoS protection and rate limiting
pub struct DDoSProtection {
    connection_attempts: Vec<(String, (usize, u64, u64))>,
    rate_limits: RateLimits,
}

/// Connection statistics
#[derive(Debug, Clone, Copy)]
pub struct DDoSStats {
    pub total_connection_attempts: usize,
    pub unique_ips_tracked: usize,
}

impl DDoSProtection {
    /// The attempt records in the order their addresses first appeared.
    pub closed spec fn spec_attempt_list(&self) -> Seq<AttemptView> {
        self.connection_attempts@.map_values(|a: (String, (usize, u64, u64))| (a.0@, a.1))
    }

    /// The attempt records by address.
    pub open spec fn spec_attempts(&self) -> Map<Seq<char>, AttemptView> {
        keyed_map(self.spec_attempt_list(), attempt_key())
    }

    pub closed spec fn spec_rate_limits(&self) -> RateLimits {
        self.rate_limits
    }

    /// One record per address.
    pub closed spec fn wf(&self) -> bool {
        keys_distinct(self.spec_attempt_list(), attempt_key())
    }

    /// A protector that tracks no address.
    pub fn new(rate_limits: RateLimits) -> (r: DDoSProtection)
        ensures
            r.wf(),
            r.spec_rate_limits() == rate_limits,
            r.spec_attempt_list().len() == 0,
    {
        let r = DDoSProtection { connection_attempts: Vec::new(), rate_limits };
        assert(r.spec_attempt_list() =~= Seq::<AttemptView>::empty());
        r
    }

    /// Position of the record of an address.
    fn find_attempt(&self, key: &String) -> (r: Option<usize>)
        requires
            self.wf(),
        ensures
            match r {
                Some(i) => i < self.connection_attempts@.len() && self.spec_attempt_list()[i as int].0 == key@
                    && self.spec_attempts().contains_key(key@) && self.spec_attempts()[key@]
                    == self.spec_attempt_list()[i as int],
                None => !self.spec_attempts().contains_key(key@),
            },
    {
        let mut i: usize = 0;
        while i < self.connection_attempts.len()
            invariant
                0 <= i <= self.connection_attempts@.len(),
                self.wf(),
                forall|j: int| 0 <= j < i ==> (#[trigger] self.connection_attempts@[j]).0@ != key@,
            decreases self.connection_attempts@.len() - i,
        {
            if self.connection_attempts[i].0 == *key {
                proof {
                    lemma_keyed_map_index(self.spec_attempt_list(), attempt_key(), i as int);
                }
                return Some(i);
            }
            i = i + 1;
        }
        proof {
            assert forall|j: int| 0 <= j < self.spec_attempt_list().len() implies (attempt_key())(
                self.spec_attempt_list()[j],
            ) != key@ by {
                assert(self.spec_attempt_list()[j].0 == self.connection_attempts@[j].0@);
            }
            lemma_keyed_map_absent(self.spec_attempt_list(), attempt_key(), key@);
        }
        None
    }

    /// Counts an attempt from `ip_addr` at clock reading `now` and says
    /// whether it stays within the attempts allowed per minute.
    pub fn check_connection_allowed_at(&mut self, ip_addr: &str, now: u64) -> (r: Result<bool, SecurityError>)
        requires
            old(self).wf(),
            old(self).spec_attempts().contains_key(ip_addr@) ==> old(self).spec_attempts()[ip_addr@].1.0 < usize::MAX,
        ensures
            final(self).wf(),
            attempt_outcome(*old(self), *final(self), ip_addr@, now, r),
    {
        let key = String::from_str(ip_addr);
        let ghost before = self.spec_attempt_list();
        let pos = self.find_attempt(&key);
        let (count, first) = match pos {
            Some(i) => {
                let (c, f, _) = self.connection_attempts[i].1;
                if now >= f && now - f >= 60 {
                    (0usize, now)
                } else {
                    (c, f)
                }
            },
            None => (0usize, now),
        };
        let count = count + 1;
        let ghost nv = (ip_addr@, (count, first, now));
        match pos {
            Some(i) => {
                self.connection_attempts.set(i, (key, (count, first, now)));
                proof {
                    assert(self.spec_attempt_list() =~= before.update(i as int, nv));
                    lemma_keyed_map_update(before, attempt_key(), i as int, nv);
                }
            },
            None => {
                proof {
                    lemma_keys_distinct_push(before, attempt_key(), nv);
                }
                self.connection_attempts.push((key, (count, first, now)));
                proof {
                    assert(self.spec_attempt_list() =~= before.push(nv));
                    assert(self.spec_attempt_list().drop_last() =~= before);
                }
            },
        }
        Ok(count <= self.rate_limits.max_connection_attempts_per_minute)
    }

    /// Counts an attempt now.
    pub fn check_connection_allowed(&mut self, ip_addr: &str) -> (r: Result<bool, SecurityError>)
        requires
            old(self).wf(),
            old(self).spec_attempts().contains_key(ip_addr@) ==> old(self).spec_attempts()[ip_addr@].1.0 < usize::MAX,
        ensures
            final(self).wf(),
            r is Ok,
            exists|now: u64| #[trigger] attempt_outcome(*old(self), *final(self), ip_addr@, now, r),
    {
        let now = now_secs();
        let r = self.check_connection_allowed_at(ip_addr, now);
        assert(attempt_outcome(*old(self), *self, ip_addr@, now, r));
        r
    }

    /// Forgets the addresses not seen for the ban duration before `now`;
    /// returns how many.
    pub fn cleanup_old_attempts_at(&mut self, now: u64) -> (r: Result<usize, SecurityError>)
        requires
            old(self).wf(),
            old(self).spec_rate_limits().ban_duration_minutes * 60 <= u64::MAX,
        ensures
            final(self).wf(),
            final(self).spec_rate_limits() == old(self).spec_rate_limits(),
            final(self).spec_attempt_list() == old(self).spec_attempt_list().filter(
                |a: AttemptView| attempt_kept(a, old(self).spec_rate_limits().ban_duration_minutes * 60, now),
            ),
            r == Ok::<usize, SecurityError>(
                (old(self).spec_attempt_list().len() - final(self).spec_attempt_list().len()) as usize,
            ),
    {
        let max_age: u64 = self.rate_limits.ban_duration_minutes * 60;
        let ghost pred = |a: AttemptView| attempt_kept(a, old(self).spec_rate_limits().ban_duration_minutes * 60, now);
        let ghost before = self.spec_attempt_list();
        let mut kept: Vec<(String, (usize, u64, u64))> = Vec::new();
        let mut removed: usize = 0;
        let mut i: usize = 0;
        while i < self.connection_attempts.len()
            invariant
                0 <= i <= self.connection_attempts@.len(),
                before == self.spec_attempt_list(),
                max_age == old(self).spec_rate_limits().ban_duration_minutes * 60,
                forall|a: AttemptView| #[trigger] pred(a) == attempt_kept(
                    a,
                    old(self).spec_rate_limits().ban_duration_minutes * 60,
                    now,
                ),
                kept@.map_values(|a: (String, (usize, u64, u64))| (a.0@, a.1)) == before.take(i as int).filter(pred),
                removed + kept@.len() == i,
            decreases self.connection_attempts@.len() - i,
        {
            let ghost k0 = kept@;
            proof {
                reveal_with_fuel(Seq::filter, 1);
                assert(before.take(i + 1).drop_last() =~= before.take(i as int));
                assert(before[i as int] == (self.connection_attempts@[i as int].0@, self.connection_attempts@[i as int].1));
            }
            let last = self.connection_attempts[i].1.2;
            if now >= last && now - last < max_age {
                let entry = (self.connection_attempts[i].0.clone(), self.connection_attempts[i].1);
                kept.push(entry);
                assert(kept@.map_values(|a: (String, (usize, u64, u64))| (a.0@, a.1)) =~= k0.map_values(
                    |a: (String, (usize, u64, u64))| (a.0@, a.1),
                ).push(before[i as int]));
            } else {
                removed = removed + 1;
            }
            i = i + 1;
        }
        proof {
            assert(before.take(before.len() as int) =~= before);
            assert(kept@.map_values(|a: (String, (usize, u64, u64))| (a.0@, a.1)).len() == kept@.len());
            crate::keyed::lemma_filter_keys_distinct(before, attempt_key(), pred);
        }
        self.connection_attempts = kept;
        Ok(removed)
    }

    /// The attempts counted and the addresses tracked.
    pub fn get_stats(&self) -> (r: Result<DDoSStats, SecurityError>)
        requires
            self.wf(),
            attempts_total(self.spec_attempt_list()) <= usize::MAX,
        ensures
            r matches Ok(st) && st.total_connection_attempts == attempts_total(self.spec_attempt_list())
                && st.unique_ips_tracked == self.spec_attempts().len(),
    {
        let ghost s = self.spec_attempt_list();
        let mut total: usize = 0;
        let mut i: usize = 0;
        while i < self.connection_attempts.len()
            invariant
                0 <= i <= self.connection_attempts@.len(),
                s == self.spec_attempt_list(),
                attempts_total(s) <= usize::MAX,
                total == attempts_total(s.take(i as int)),
            decreases self.connection_attempts@.len() - i,
        {
            proof {
                assert(s.take(i + 1).drop_last() =~= s.take(i as int));
                assert(s[i as int] == (self.connection_attempts@[i as int].0@, self.connection_attempts@[i as int].1));
                lemma_attempts_prefix(s, i + 1);
            }
            total = total + self.connection_attempts[i].1.0;
            i = i + 1;
        }
        assert(s.take(s.len() as int) =~= s);
        proof {
            lemma_keyed_map_len(s, attempt_key());
        }
        Ok(DDoSStats { total_connection_attempts: total, unique_ips_tracked: self.connection_attempts.len() })
    }
}

/// A prefix of the records counts no more attempts than all of them.
proof fn lemma_attempts_prefix(s: Seq<AttemptView>, k: int)
    requires
        0 <= k <= s.len(),
    ensures
        attempts_total(s.take(k)) <= attempts_total(s),
    decreases s.len(),
{
    if k < s.len() {
        assert(s.drop_last().take(k) =~= s.take(k));
        lemma_attempts_prefix(s.drop_last(), k);
    } else {
        assert(s.take(k) =~= s);
    }
}

/// A summary of the network security posture.
#[derive(Debug, Clone, Copy)]
pub struct NetworkSecurityAudit {
    pub noise_enabled: bool,
    pub peer_auth_enabled: bool,
    pub trusted_peers_count: usize,
    pub ddos_protection_active: bool,
    pub connection_attempts_tracked: usize,
    pub security_score: u8,
}

/// The security score of a configuration, out of 100: 40 for Noise, 25 for
/// peer authentication, 15 for at most 5 connections per peer, 10 for
/// strict validation, and 10 for the always-on flood protection.
pub open spec fn score_of(config: NetworkSecurityConfig) -> int {
    (if config.enable_noise { 40int } else { 0int }) + (if config.enable_peer_auth { 25int } else { 0int }) + (
    if config.max_connections_per_peer <= 5 {
        15int
    } else {
        0int
    }) + (if config.strict_cert_validation { 10int } else { 0int }) + 10
}

/// The security score of a configuration (see `score_of`).
pub fn calculate_security_score(config: &NetworkSecurityConfig) -> (r: u8)
    ensures
        r == score_of(*config),
        r <= 100,
{
    let mut score: u8 = 0;
    if config.enable_noise {
        score = score + 40;
    }
    if config.enable_peer_auth {
        score = score + 25;
    }
    if config.max_connections_per_peer <= 5 {
        score = score + 15;
    }
    if config.strict_cert_validation {
        score = score + 10;
    }
    score = score + 10;
    if score > 100 {
        100
    } else {
        score
    }
}

/// The audit of a configuration, given the number of trusted peers and the
/// connection attempts tracked.
pub fn perform_security_audit(
    config: &NetworkSecurityConfig,
    trusted_peers_count: usize,
    connection_attempts_tracked: usize,
) -> (r: NetworkSecurityAudit)
    ensures
        r.noise_enabled == config.enable_noise,
        r.peer_auth_enabled == config.enable_peer_auth,
        r.trusted_peers_count == trusted_peers_count,
        r.ddos_protection_active,
        r.connection_attempts_tracked == connection_attempts_tracked,
        r.security_score == score_of(*config),
{
    NetworkSecurityAudit {
        noise_enabled: config.enable_noise,
        peer_auth_enabled: config.enable_peer_auth,
        trusted_peers_count,
        ddos_protection_active: true,
        connection_attempts_tracked,
        security_score: calculate_security_score(config),
    }
}

} // verus!
