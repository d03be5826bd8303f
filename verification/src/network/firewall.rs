//! The network firewall: per-address and per-peer rules, bans, whitelists
//! and connection rate limits. Times are milliseconds of a monotonic clock.
use vstd::prelude::*;
use crate::clock::now_millis;
use crate::keyed::{
    keyed_map, keys_distinct, lemma_keyed_map_absent, lemma_keyed_map_index, lemma_keyed_map_update,
    lemma_keys_distinct_push,
};
use crate::network::address::{IpAddress, PeerId};

verus! {

/// Firewall rule types; a rate limit allows `max` connections per window of
/// the given milliseconds.
#[derive(Debug, Clone, Copy, PartialEq, Eq, Structural)]
pub enum FirewallRule {
    /// Allow connection
    Allow,
    /// Block connection
    Block,
    /// Limit connection rate
    RateLimit(u32, u64),
}

/// Types of security events
#[derive(Debug, Clone)]
pub enum SecurityEvent {
    /// Excessive connection attempts
    ConnectionFlood { count: u32, window_ms: u64 },
    /// Malformed messages
    MalformedMessage { count: u32 },
    /// Suspicious validator behavior
    SuspiciousValidatorBehavior { description: String },
    /// Eclipse attack attempt
    EclipseAttackAttempt,
    /// Repeated invalid transactions
    RepeatedInvalidTransactions { count: u32 },
}

/// The connection limit everyone is held to unless a rule says otherwise:
/// 100 connections per minute.
pub const DEFAULT_RATE_MAX: u32 = 100;

pub const DEFAULT_RATE_WINDOW_MS: u64 = 60_000;

/// The key of an address rule or counter: the address.
pub open spec fn ip_key<T>() -> spec_fn((IpAddress, T)) -> IpAddress {
    |p: (IpAddress, T)| p.0
}

/// The key of a peer rule: the peer.
pub open spec fn peer_key() -> spec_fn((Seq<u8>, FirewallRule)) -> Seq<u8> {
    |p: (Seq<u8>, FirewallRule)| p.0
}

/// The milliseconds from `then` to `now`, zero where `now` is earlier.
pub open spec fn elapsed(now: u64, then: u64) -> u64 {
    if now >= then {
        (now - then) as u64
    } else {
        0
    }
}

/// The counters and verdict after a connection from `ip` at `now` under a
/// limit of `max` per `window` milliseconds: a first connection, or one
/// after the window expired, starts a count of one; below the limit the
/// count grows; at the limit the connection is refused.
pub open spec fn rate_step(
    counters: Map<IpAddress, (IpAddress, (u32, u64))>,
    ip: IpAddress,
    max: u32,
    window: u64,
    now: u64,
) -> (Map<IpAddress, (IpAddress, (u32, u64))>, bool) {
    if !counters.contains_key(ip) {
        (counters.insert(ip, (ip, (1, now))), true)
    } else {
        let c = counters[ip].1;
        if elapsed(now, c.1) > window {
            (counters.insert(ip, (ip, (1, now))), true)
        } else if c.0 >= max {
            (counters, false)
        } else {
            (counters.insert(ip, (ip, ((c.0 + 1) as u32, c.1))), true)
        }
    }
}

/// The verdict of a rule, and the counters after it.
pub open spec fn rule_step(
    counters: Map<IpAddress, (IpAddress, (u32, u64))>,
    ip: IpAddress,
    rule: FirewallRule,
    now: u64,
) -> (Map<IpAddress, (IpAddress, (u32, u64))>, bool) {
    match rule {
        FirewallRule::Allow => (counters, true),
        FirewallRule::Block => (counters, false),
        FirewallRule::RateLimit(max, window) => rate_step(counters, ip, max, window, now),
    }
}

/// The set after a ban: unchanged where whitelisted.
pub open spec fn banned_with<T>(banned: Set<T>, whitelisted: Set<T>, x: T) -> Set<T> {
    if whitelisted.contains(x) {
        banned
    } else {
        banned.insert(x)
    }
}

/// Whether an event bans its source: a connection flood of more than twice
/// the global limit, more than 5 malformed messages, an eclipse attempt,
/// more than 10 invalid transactions.
pub open spec fn event_bans(event: SecurityEvent, global_max: u32) -> bool {
    match event {
        SecurityEvent::ConnectionFlood { count, .. } => count > global_max * 2,
        SecurityEvent::MalformedMessage { count } => count > 5,
        SecurityEvent::SuspiciousValidatorBehavior { .. } => false,
        SecurityEvent::EclipseAttackAttempt => true,
        SecurityEvent::RepeatedInvalidTransactions { count } => count > 10,
    }
}

/// What a connection check gives, and the counters after it: whitelisted
/// address or peer first, then bans, then the address's rule, then the
/// peer's rule, then the global limit.
pub open spec fn connection_verdict(
    fw: NetworkFirewall,
    ip: IpAddress,
    peer: Option<Seq<u8>>,
    now: u64,
) -> (Map<IpAddress, (IpAddress, (u32, u64))>, bool) {
    let counters = fw.spec_counters();
    if fw.spec_whitelisted_ips().contains(ip) || (peer matches Some(p) && fw.spec_whitelisted_peers().contains(p)) {
        (counters, true)
    } else if fw.spec_banned_ips().contains(ip) || (peer matches Some(p) && fw.spec_banned_peers().contains(p)) {
        (counters, false)
    } else if fw.spec_ip_rules().contains_key(ip) {
        rule_step(counters, ip, fw.spec_ip_rules()[ip].1, now)
    } else if peer matches Some(p) && fw.spec_peer_rules().contains_key(p) {
        rule_step(counters, ip, fw.spec_peer_rules()[peer->0].1, now)
    } else {
        rate_step(counters, ip, fw.spec_global_rate_limit().0, fw.spec_global_rate_limit().1, now)
    }
}

/// Two firewalls have the same rules, whitelists and global limit.
pub open spec fn same_policy(a: NetworkFirewall, b: NetworkFirewall) -> bool {
    &&& a.spec_ip_rules() == b.spec_ip_rules()
    &&& a.spec_peer_rules() == b.spec_peer_rules()
    &&& a.spec_whitelisted_ips() == b.spec_whitelisted_ips()
    &&& a.spec_whitelisted_peers() == b.spec_whitelisted_peers()
    &&& a.spec_global_rate_limit() == b.spec_global_rate_limit()
}

/// Two firewalls have the same bans and counters.
pub open spec fn same_state(a: NetworkFirewall, b: NetworkFirewall) -> bool {
    &&& a.spec_banned_ips() == b.spec_banned_ips()
    &&& a.spec_banned_peers() == b.spec_banned_peers()
    &&& a.spec_counters() == b.spec_counters()
}

/// Errors of the network layer.
#[derive(Debug, Clone, Copy, PartialEq, Eq, Structural)]
pub enum NetworkError {
    /// The peer is banned.
    PeerBanned,
    /// The peer is not known.
    PeerNotFound,
}

/// The named peer, taken by value.
pub open spec fn opt_peer(p: Option<&PeerId>) -> Option<PeerId> {
    match p {
        Some(id) => Some(*id),
        None => None,
    }
}

/// What a connection check of `ip` (and the peer, where one is named) at
/// clock reading `now` makes of `pre`, returning `r`.
pub open spec fn connection_check_outcome(pre: NetworkFirewall, post: NetworkFirewall, ip: IpAddress, peer_id: Option<PeerId>, now: u64, r: Result<bool, NetworkError>) -> bool {
    &&& ({
        let peer = match peer_id {
            Some(p) => Some(p@),
            None => None,
        };
        let v = connection_verdict(pre, ip, peer, now);
        r == Ok::<bool, NetworkError>(v.1) && post.spec_counters() == v.0
    })
    &&& same_policy(post, pre)
    &&& post.spec_banned_ips() == pre.spec_banned_ips()
    &&& post.spec_banned_peers() == pre.spec_banned_peers()
}

/// Firewall manager for the blockchain network
pub struct NetworkFirewall {
    ip_rules: Vec<(IpAddress, FirewallRule)>,
    peer_rules: Vec<(PeerId, FirewallRule)>,
    banned_ips: Vec<IpAddress>,
    banned_peers: Vec<PeerId>,
    connection_counters: Vec<(IpAddress, (u32, u64))>,
    global_rate_limit: (u32, u64),
    whitelisted_ips: Vec<IpAddress>,
    whitelisted_peers: Vec<PeerId>,
}

/// The views of a list of peers.
pub open spec fn peer_views(v: Seq<PeerId>) -> Seq<Seq<u8>> {
    v.map_values(|p: PeerId| p@)
}

/// Position of an address in a list.
pub(crate) fn ip_position(v: &Vec<IpAddress>, ip: IpAddress) -> (r: Option<usize>)
    ensures
        match r {
            Some(i) => i < v@.len() && v@[i as int] == ip,
            None => !v@.contains(ip),
        },
{
    let mut i: usize = 0;
    while i < v.len()
        invariant
            0 <= i <= v@.len(),
            forall|j: int| 0 <= j < i ==> v@[j] != ip,
        decreases v@.len() - i,
    {
        if v[i] == ip {
            return Some(i);
        }
        i = i + 1;
    }
    None
}

/// Position of a peer in a list.
pub(crate) fn peer_position(v: &Vec<PeerId>, peer: &PeerId) -> (r: Option<usize>)
    ensures
        match r {
            Some(i) => i < v@.len() && v@[i as int]@ == peer@,
            None => !peer_views(v@).contains(peer@),
        },
{
    let mut i: usize = 0;
    while i < v.len()
        invariant
            0 <= i <= v@.len(),
            forall|j: int| 0 <= j < i ==> v@[j]@ != peer@,
        decreases v@.len() - i,
    {
        if v[i].same_as(peer) {
            return Some(i);
        }
        i = i + 1;
    }
    proof {
        if peer_views(v@).contains(peer@) {
            let j = choose|j: int| 0 <= j < peer_views(v@).len() && peer_views(v@)[j] == peer@;
            assert(v@[j]@ == peer@);
        }
    }
    None
}

/// Adds an address to a list without repeats.
fn ip_insert(v: &mut Vec<IpAddress>, ip: IpAddress)
    requires
        old(v)@.no_duplicates(),
    ensures
        final(v)@.no_duplicates(),
        final(v)@.to_set() == old(v)@.to_set().insert(ip),
{
    if ip_position(v, ip).is_none() {
        let ghost before = v@;
        v.push(ip);
        proof {
            assert(v@ == before.push(ip));
            assert(v@.to_set() =~= before.to_set().insert(ip)) by {
                assert forall|x: IpAddress| v@.to_set().contains(x) <==> before.to_set().insert(ip).contains(x) by {
                    if x != ip && v@.contains(x) {
                        let j = choose|j: int| 0 <= j < v@.len() && v@[j] == x;
                        assert(before[j] == x);
                    }
                    if before.contains(x) {
                        let j = choose|j: int| 0 <= j < before.len() && before[j] == x;
                        assert(v@[j] == x);
                    }
                    if x == ip {
                        assert(v@[before.len() as int] == ip);
                    }
                }
            }
        }
    } else {
        proof {
            assert(v@.to_set() =~= v@.to_set().insert(ip));
        }
    }
}

/// Removes an address from a list without repeats.
fn ip_remove(v: &mut Vec<IpAddress>, ip: IpAddress)
    requires
        old(v)@.no_duplicates(),
    ensures
        final(v)@.no_duplicates(),
        final(v)@.to_set() == old(v)@.to_set().remove(ip),
{
    match ip_position(v, ip) {
        Some(i) => {
            let ghost before = v@;
            v.remove(i);
            proof {
                assert(v@ =~= before.remove(i as int));
                assert(v@.to_set() =~= before.to_set().remove(ip)) by {
                    assert forall|x: IpAddress| v@.to_set().contains(x) <==> before.to_set().remove(ip).contains(x) by {
                        if v@.contains(x) {
                            let j = choose|j: int| 0 <= j < v@.len() && v@[j] == x;
                            let j2 = if j < i { j } else { j + 1 };
                            assert(before[j2] == x);
                            assert(j2 != i);
                        }
                        if before.contains(x) && x != ip {
                            let j = choose|j: int| 0 <= j < before.len() && before[j] == x;
                            assert(j != i);
                            let j1 = if j < i { j } else { j - 1 };
                            assert(v@[j1] == x);
                        }
                    }
                }
            }
        },
        None => {
            proof {
                assert(v@.to_set() =~= v@.to_set().remove(ip));
            }
        },
    }
}

/// Adds a peer to a list without repeats.
pub(crate) fn peer_insert(v: &mut Vec<PeerId>, peer: &PeerId)
    requires
        peer_views(old(v)@).no_duplicates(),
    ensures
        peer_views(final(v)@).no_duplicates(),
        peer_views(final(v)@).to_set() == peer_views(old(v)@).to_set().insert(peer@),
{
    let pos = peer_position(v, peer);
    if pos.is_none() {
        let ghost before = peer_views(v@);
        v.push(peer.duplicate());
        proof {
            let after = peer_views(v@);
            assert(after =~= before.push(peer@));
            assert(after.to_set() =~= before.to_set().insert(peer@)) by {
                assert forall|x: Seq<u8>| after.to_set().contains(x) <==> before.to_set().insert(peer@).contains(x) by {
                    if x != peer@ && after.contains(x) {
                        let j = choose|j: int| 0 <= j < after.len() && after[j] == x;
                        assert(before[j] == x);
                    }
                    if before.contains(x) {
                        let j = choose|j: int| 0 <= j < before.len() && before[j] == x;
                        assert(after[j] == x);
                    }
                    if x == peer@ {
                        assert(after[before.len() as int] == peer@);
                    }
                }
            }
        }
    } else {
        proof {
            let i = pos->0;
            assert(peer_views(v@)[i as int] == peer@);
            assert(peer_views(v@).to_set() =~= peer_views(v@).to_set().insert(peer@));
        }
    }
}

/// Removes a peer from a list without repeats.
pub(crate) fn peer_remove(v: &mut Vec<PeerId>, peer: &PeerId)
    requires
        peer_views(old(v)@).no_duplicates(),
    ensures
        peer_views(final(v)@).no_duplicates(),
        peer_views(final(v)@).to_set() == peer_views(old(v)@).to_set().remove(peer@),
{
    match peer_position(v, peer) {
        Some(i) => {
            let ghost before = peer_views(v@);
            proof {
                assert(before[i as int] == peer@);
            }
            v.remove(i);
            proof {
                let after = peer_views(v@);
                assert(after =~= before.remove(i as int));
                assert(after.to_set() =~= before.to_set().remove(peer@)) by {
                    assert forall|x: Seq<u8>| after.to_set().contains(x) <==> before.to_set().remove(peer@).contains(x) by {
                        if after.contains(x) {
                            let j = choose|j: int| 0 <= j < after.len() && after[j] == x;
                            let j2 = if j < i { j } else { j + 1 };
                            assert(before[j2] == x);
                            assert(j2 != i);
                        }
                        if before.contains(x) && x != peer@ {
                            let j = choose|j: int| 0 <= j < before.len() && before[j] == x;
                            assert(j != i);
                            let j1 = if j < i { j } else { j - 1 };
                            assert(after[j1] == x);
                        }
                    }
                }
            }
        },
        None => {
            proof {
                assert(peer_views(v@).to_set() =~= peer_views(v@).to_set().remove(peer@));
            }
        },
    }
}

impl NetworkFirewall {
    /// The address rules, by address.
    pub closed spec fn spec_ip_rules(&self) -> Map<IpAddress, (IpAddress, FirewallRule)> {
        keyed_map(self.ip_rules@, ip_key::<FirewallRule>())
    }

    /// The peer rules, by peer.
    pub closed spec fn spec_peer_rules(&self) -> Map<Seq<u8>, (Seq<u8>, FirewallRule)> {
        keyed_map(self.peer_rule_list(), peer_key())
    }

    closed spec fn peer_rule_list(&self) -> Seq<(Seq<u8>, FirewallRule)> {
        self.peer_rules@.map_values(|p: (PeerId, FirewallRule)| (p.0@, p.1))
    }

    pub closed spec fn spec_banned_ips(&self) -> Set<IpAddress> {
        self.banned_ips@.to_set()
    }

    pub closed spec fn spec_banned_peers(&self) -> Set<Seq<u8>> {
        peer_views(self.banned_peers@).to_set()
    }

    pub closed spec fn spec_whitelisted_ips(&self) -> Set<IpAddress> {
        self.whitelisted_ips@.to_set()
    }

    pub closed spec fn spec_whitelisted_peers(&self) -> Set<Seq<u8>> {
        peer_views(self.whitelisted_peers@).to_set()
    }

    /// The connection counters, by address: count and start of the window.
    pub closed spec fn spec_counters(&self) -> Map<IpAddress, (IpAddress, (u32, u64))> {
        keyed_map(self.connection_counters@, ip_key::<(u32, u64)>())
    }

    /// The global limit: connections per window of milliseconds.
    pub closed spec fn spec_global_rate_limit(&self) -> (u32, u64) {
        self.global_rate_limit
    }

    /// No list repeats an entry.
    pub closed spec fn wf(&self) -> bool {
        &&& keys_distinct(self.ip_rules@, ip_key::<FirewallRule>())
        &&& keys_distinct(self.peer_rule_list(), peer_key())
        &&& self.banned_ips@.no_duplicates()
        &&& peer_views(self.banned_peers@).no_duplicates()
        &&& self.whitelisted_ips@.no_duplicates()
        &&& peer_views(self.whitelisted_peers@).no_duplicates()
        &&& keys_distinct(self.connection_counters@, ip_key::<(u32, u64)>())
    }

    /// A firewall with no rules, bans or whitelists, and the default global
    /// limit of 100 connections per minute.
    pub fn new() -> (r: NetworkFirewall)
        ensures
            r.wf(),
            r.spec_ip_rules().is_empty(),
            r.spec_peer_rules().is_empty(),
            r.spec_banned_ips().is_empty(),
            r.spec_banned_peers().is_empty(),
            r.spec_whitelisted_ips().is_empty(),
            r.spec_whitelisted_peers().is_empty(),
            r.spec_counters().is_empty(),
            r.spec_global_rate_limit() == (DEFAULT_RATE_MAX, DEFAULT_RATE_WINDOW_MS),
    {
        let r = NetworkFirewall {
            ip_rules: Vec::new(),
            peer_rules: Vec::new(),
            banned_ips: Vec::new(),
            banned_peers: Vec::new(),
            connection_counters: Vec::new(),
            global_rate_limit: (DEFAULT_RATE_MAX, DEFAULT_RATE_WINDOW_MS),
            whitelisted_ips: Vec::new(),
            whitelisted_peers: Vec::new(),
        };
        proof {
            assert(r.peer_rule_list() =~= Seq::<(Seq<u8>, FirewallRule)>::empty());
            assert(r.spec_ip_rules() =~= Map::empty());
            assert(r.spec_peer_rules() =~= Map::empty());
            assert(r.spec_counters() =~= Map::empty());
            assert(r.spec_banned_ips() =~= Set::empty());
            assert(r.spec_banned_peers() =~= Set::empty());
            assert(r.spec_whitelisted_ips() =~= Set::empty());
            assert(r.spec_whitelisted_peers() =~= Set::empty());
        }
        r
    }

    /// Position of an address's rule.
    fn ip_rule_position(&self, ip: IpAddress) -> (r: Option<usize>)
        requires
            self.wf(),
        ensures
            match r {
                Some(i) => i < self.ip_rules@.len() && self.ip_rules@[i as int].0 == ip
                    && self.spec_ip_rules().contains_key(ip) && self.spec_ip_rules()[ip] == self.ip_rules@[i as int],
                None => !self.spec_ip_rules().contains_key(ip),
            },
    {
        let mut i: usize = 0;
        while i < self.ip_rules.len()
            invariant
                0 <= i <= self.ip_rules@.len(),
                self.wf(),
                forall|j: int| 0 <= j < i ==> (#[trigger] self.ip_rules@[j]).0 != ip,
            decreases self.ip_rules@.len() - i,
        {
            if self.ip_rules[i].0 == ip {
                proof {
                    lemma_keyed_map_index(self.ip_rules@, ip_key::<FirewallRule>(), i as int);
                }
                return Some(i);
            }
            i = i + 1;
        }
        proof {
            lemma_keyed_map_absent(self.ip_rules@, ip_key::<FirewallRule>(), ip);
        }
        None
    }

    /// Position of a peer's rule.
    fn peer_rule_position(&self, peer: &PeerId) -> (r: Option<usize>)
        requires
            self.wf(),
        ensures
            match r {
                Some(i) => i < self.peer_rules@.len() && self.peer_rules@[i as int].0@ == peer@
                    && self.spec_peer_rules().contains_key(peer@) && self.spec_peer_rules()[peer@]
                    == self.peer_rule_list()[i as int],
                None => !self.spec_peer_rules().contains_key(peer@),
            },
    {
        let mut i: usize = 0;
        while i < self.peer_rules.len()
            invariant
                0 <= i <= self.peer_rules@.len(),
                self.wf(),
                forall|j: int| 0 <= j < i ==> (#[trigger] self.peer_rules@[j]).0@ != peer@,
            decreases self.peer_rules@.len() - i,
        {
            if self.peer_rules[i].0.same_as(peer) {
                proof {
                    lemma_keyed_map_index(self.peer_rule_list(), peer_key(), i as int);
                }
                return Some(i);
            }
            i = i + 1;
        }
        proof {
            assert forall|j: int| 0 <= j < self.peer_rule_list().len() implies (peer_key())(
                self.peer_rule_list()[j],
            ) != peer@ by {
                assert(self.peer_rule_list()[j] == (self.peer_rules@[j].0@, self.peer_rules@[j].1));
            }
            lemma_keyed_map_absent(self.peer_rule_list(), peer_key(), peer@);
        }
        None
    }

    /// Position of an address's connection counter.
    fn counter_position(&self, ip: IpAddress) -> (r: Option<usize>)
        requires
            self.wf(),
        ensures
            match r {
                Some(i) => i < self.connection_counters@.len() && self.connection_counters@[i as int].0 == ip
                    && self.spec_counters().contains_key(ip) && self.spec_counters()[ip]
                    == self.connection_counters@[i as int],
                None => !self.spec_counters().contains_key(ip),
            },
    {
        let mut i: usize = 0;
        while i < self.connection_counters.len()
            invariant
                0 <= i <= self.connection_counters@.len(),
                self.wf(),
                forall|j: int| 0 <= j < i ==> (#[trigger] self.connection_counters@[j]).0 != ip,
            decreases self.connection_counters@.len() - i,
        {
            if self.connection_counters[i].0 == ip {
                proof {
                    lemma_keyed_map_index(self.connection_counters@, ip_key::<(u32, u64)>(), i as int);
                }
                return Some(i);
            }
            i = i + 1;
        }
        proof {
            lemma_keyed_map_absent(self.connection_counters@, ip_key::<(u32, u64)>(), ip);
        }
        None
    }

    /// Adds a rule for an IP address, replacing any it had.
    pub fn add_ip_rule(&mut self, ip: IpAddress, rule: FirewallRule)
        requires
            old(self).wf(),
        ensures
            final(self).wf(),
            final(self).spec_ip_rules() == old(self).spec_ip_rules().insert(ip, (ip, rule)),
            final(self).spec_peer_rules() == old(self).spec_peer_rules(),
            final(self).spec_whitelisted_ips() == old(self).spec_whitelisted_ips(),
            final(self).spec_whitelisted_peers() == old(self).spec_whitelisted_peers(),
            final(self).spec_global_rate_limit() == old(self).spec_global_rate_limit(),
            same_state(*final(self), *old(self)),
    {
        let ghost before = self.ip_rules@;
        match self.ip_rule_position(ip) {
            Some(i) => {
                self.ip_rules.set(i, (ip, rule));
                proof {
                    lemma_keyed_map_update(before, ip_key::<FirewallRule>(), i as int, (ip, rule));
                }
            },
            None => {
                proof {
                    lemma_keys_distinct_push(before, ip_key::<FirewallRule>(), (ip, rule));
                }
                self.ip_rules.push((ip, rule));
                proof {
                    assert(self.ip_rules@.drop_last() =~= before);
                }
            },
        }
    }

    /// Adds a rule for a peer, replacing any it had.
    pub fn add_peer_rule(&mut self, peer_id: PeerId, rule: FirewallRule)
        requires
            old(self).wf(),
        ensures
            final(self).wf(),
            final(self).spec_peer_rules() == old(self).spec_peer_rules().insert(peer_id@, (peer_id@, rule)),
            final(self).spec_ip_rules() == old(self).spec_ip_rules(),
            final(self).spec_whitelisted_ips() == old(self).spec_whitelisted_ips(),
            final(self).spec_whitelisted_peers() == old(self).spec_whitelisted_peers(),
            final(self).spec_global_rate_limit() == old(self).spec_global_rate_limit(),
            same_state(*final(self), *old(self)),
    {
        let ghost before = self.peer_rule_list();
        let ghost pv = (peer_id@, rule);
        match self.peer_rule_position(&peer_id) {
            Some(i) => {
                self.peer_rules.set(i, (peer_id, rule));
                proof {
                    assert(self.peer_rule_list() =~= before.update(i as int, pv));
                    lemma_keyed_map_update(before, peer_key(), i as int, pv);
                }
            },
            None => {
                proof {
                    lemma_keys_distinct_push(before, peer_key(), pv);
                }
                self.peer_rules.push((peer_id, rule));
                proof {
                    assert(self.peer_rule_list() =~= before.push(pv));
                    assert(self.peer_rule_list().drop_last() =~= before);
                }
            },
        }
    }

    /// Whitelists an address and lifts its ban.
    pub fn whitelist_ip(&mut self, ip: IpAddress)
        requires
            old(self).wf(),
        ensures
            final(self).wf(),
            final(self).spec_whitelisted_ips() == old(self).spec_whitelisted_ips().insert(ip),
            final(self).spec_banned_ips() == old(self).spec_banned_ips().remove(ip),
            final(self).spec_whitelisted_peers() == old(self).spec_whitelisted_peers(),
            final(self).spec_banned_peers() == old(self).spec_banned_peers(),
            final(self).spec_ip_rules() == old(self).spec_ip_rules(),
            final(self).spec_peer_rules() == old(self).spec_peer_rules(),
            final(self).spec_counters() == old(self).spec_counters(),
            final(self).spec_global_rate_limit() == old(self).spec_global_rate_limit(),
    {
        ip_insert(&mut self.whitelisted_ips, ip);
        ip_remove(&mut self.banned_ips, ip);
    }

    /// Whitelists a peer and lifts its ban.
    pub fn whitelist_peer(&mut self, peer_id: PeerId)
        requires
            old(self).wf(),
        ensures
            final(self).wf(),
            final(self).spec_whitelisted_peers() == old(self).spec_whitelisted_peers().insert(peer_id@),
            final(self).spec_banned_peers() == old(self).spec_banned_peers().remove(peer_id@),
            final(self).spec_whitelisted_ips() == old(self).spec_whitelisted_ips(),
            final(self).spec_banned_ips() == old(self).spec_banned_ips(),
            final(self).spec_ip_rules() == old(self).spec_ip_rules(),
            final(self).spec_peer_rules() == old(self).spec_peer_rules(),
            final(self).spec_counters() == old(self).spec_counters(),
            final(self).spec_global_rate_limit() == old(self).spec_global_rate_limit(),
    {
        peer_insert(&mut self.whitelisted_peers, &peer_id);
        peer_remove(&mut self.banned_peers, &peer_id);
    }

    /// Bans an address unless it is whitelisted.
    pub fn ban_ip(&mut self, ip: IpAddress, reason: &str)
        requires
            old(self).wf(),
        ensures
            final(self).wf(),
            final(self).spec_banned_ips() == banned_with(old(self).spec_banned_ips(), old(self).spec_whitelisted_ips(), ip),
            final(self).spec_banned_peers() == old(self).spec_banned_peers(),
            final(self).spec_counters() == old(self).spec_counters(),
            same_policy(*final(self), *old(self)),
    {
        if ip_position(&self.whitelisted_ips, ip).is_none() {
            ip_insert(&mut self.banned_ips, ip);
        }
    }

    /// Bans a peer unless it is whitelisted.
    pub fn ban_peer(&mut self, peer_id: PeerId, reason: &str)
        requires
            old(self).wf(),
        ensures
            final(self).wf(),
            final(self).spec_banned_peers() == banned_with(
                old(self).spec_banned_peers(),
                old(self).spec_whitelisted_peers(),
                peer_id@,
            ),
            final(self).spec_banned_ips() == old(self).spec_banned_ips(),
            final(self).spec_counters() == old(self).spec_counters(),
            same_policy(*final(self), *old(self)),
    {
        if peer_position(&self.whitelisted_peers, &peer_id).is_none() {
            peer_insert(&mut self.banned_peers, &peer_id);
        } else {
            proof {
                let i = choose|i: int| 0 <= i < self.whitelisted_peers@.len() && self.whitelisted_peers@[i]@ == peer_id@;
                assert(peer_views(self.whitelisted_peers@)[i] == peer_id@);
            }
        }
    }

    /// Whether an address is banned.
    pub fn is_ip_banned(&self, ip: &IpAddress) -> (r: bool)
        ensures
            r == self.spec_banned_ips().contains(*ip),
    {
        ip_position(&self.banned_ips, *ip).is_some()
    }

    /// Whether a peer is banned.
    pub fn is_peer_banned(&self, peer_id: &PeerId) -> (r: bool)
        ensures
            r == self.spec_banned_peers().contains(peer_id@),
    {
        match peer_position(&self.banned_peers, peer_id) {
            Some(i) => {
                proof {
                    assert(peer_views(self.banned_peers@)[i as int] == peer_id@);
                }
                true
            },
            None => false,
        }
    }

    /// Applies a rate limit of `max` connections per `window` milliseconds
    /// to a connection from `ip` at clock reading `now`.
    fn check_rate_limit(&mut self, ip: IpAddress, max: u32, window: u64, now: u64) -> (r: bool)
        requires
            old(self).wf(),
        ensures
            final(self).wf(),
            (final(self).spec_counters(), r) == rate_step(old(self).spec_counters(), ip, max, window, now),
            same_policy(*final(self), *old(self)),
            final(self).spec_banned_ips() == old(self).spec_banned_ips(),
            final(self).spec_banned_peers() == old(self).spec_banned_peers(),
    {
        let ghost before = self.connection_counters@;
        match self.counter_position(ip) {
            Some(i) => {
                let (count, start) = self.connection_counters[i].1;
                let passed: u64 = if now >= start { now - start } else { 0 };
                if passed > window {
                    self.connection_counters.set(i, (ip, (1, now)));
                    proof {
                        lemma_keyed_map_update(before, ip_key::<(u32, u64)>(), i as int, (ip, (1u32, now)));
                    }
                    true
                } else if count >= max {
                    false
                } else {
                    self.connection_counters.set(i, (ip, (count + 1, start)));
                    proof {
                        lemma_keyed_map_update(before, ip_key::<(u32, u64)>(), i as int, (ip, ((count + 1) as u32, start)));
                    }
                    true
                }
            },
            None => {
                proof {
                    lemma_keys_distinct_push(before, ip_key::<(u32, u64)>(), (ip, (1u32, now)));
                }
                self.connection_counters.push((ip, (1, now)));
                proof {
                    assert(self.connection_counters@.drop_last() =~= before);
                }
                true
            },
        }
    }

    /// Whether a connection from `ip`, of `peer_id` where known, is allowed
    /// at clock reading `now`.
    pub fn check_connection_at(&mut self, ip: &IpAddress, peer_id: Option<&PeerId>, now: u64) -> (r: Result<
        bool,
        NetworkError,
    >)
        requires
            old(self).wf(),
        ensures
            final(self).wf(),
            connection_check_outcome(*old(self), *final(self), *ip, opt_peer(peer_id), now, r),
    {
        let ip = *ip;
        let peer_white = match peer_id {
            Some(p) => match peer_position(&self.whitelisted_peers, p) {
                Some(i) => {
                    proof {
                        assert(peer_views(self.whitelisted_peers@)[i as int] == p@);
                    }
                    true
                },
                None => false,
            },
            None => false,
        };
        if ip_position(&self.whitelisted_ips, ip).is_some() || peer_white {
            return Ok(true);
        }
        let peer_banned = match peer_id {
            Some(p) => self.is_peer_banned(p),
            None => false,
        };
        if self.is_ip_banned(&ip) || peer_banned {
            return Ok(false);
        }
        match self.ip_rule_position(ip) {
            Some(i) => {
                let rule = self.ip_rules[i].1;
                return match rule {
                    FirewallRule::Allow => Ok(true),
                    FirewallRule::Block => Ok(false),
                    FirewallRule::RateLimit(max, window) => Ok(self.check_rate_limit(ip, max, window, now)),
                };
            },
            None => {},
        }
        match peer_id {
            Some(p) => match self.peer_rule_position(p) {
                Some(i) => {
                    let rule = self.peer_rules[i].1;
                    return match rule {
                        FirewallRule::Allow => Ok(true),
                        FirewallRule::Block => Ok(false),
                        FirewallRule::RateLimit(max, window) => Ok(self.check_rate_limit(ip, max, window, now)),
                    };
                },
                None => {},
            },
            None => {},
        }
        let (max, window) = self.global_rate_limit;
        Ok(self.check_rate_limit(ip, max, window, now))
    }

    /// Whether a connection is allowed now.
    pub fn check_connection(&mut self, ip: &IpAddress, peer_id: Option<&PeerId>) -> (r: Result<bool, NetworkError>)
        requires
            old(self).wf(),
        ensures
            final(self).wf(),
            exists|now: u64| #[trigger] connection_check_outcome(*old(self), *final(self), *ip, opt_peer(peer_id), now, r),
    {
        let now = now_millis();
        let r = self.check_connection_at(ip, peer_id, now);
        assert(connection_check_outcome(*old(self), *self, *ip, opt_peer(peer_id), now, r));
        r
    }

    /// Reacts to a security event from `ip`, of `peer_id` where known: bans
    /// both where the event warrants it (see `event_bans`).
    pub fn process_security_event(&mut self, ip: IpAddress, peer_id: Option<PeerId>, event: SecurityEvent) -> (r: Result<
        (),
        NetworkError,
    >)
        requires
            old(self).wf(),
            event is ConnectionFlood ==> old(self).spec_global_rate_limit().0 * 2 <= u32::MAX,
        ensures
            final(self).wf(),
            r is Ok,
            same_policy(*final(self), *old(self)),
            final(self).spec_counters() == old(self).spec_counters(),
            event_bans(event, old(self).spec_global_rate_limit().0) ==> {
                &&& final(self).spec_banned_ips() == banned_with(
                    old(self).spec_banned_ips(),
                    old(self).spec_whitelisted_ips(),
                    ip,
                )
                &&& final(self).spec_banned_peers() == match peer_id {
                    Some(p) => banned_with(old(self).spec_banned_peers(), old(self).spec_whitelisted_peers(), p@),
                    None => old(self).spec_banned_peers(),
                }
            },
            !event_bans(event, old(self).spec_global_rate_limit().0) ==> same_state(*final(self), *old(self)),
    {
        let bans = match &event {
            SecurityEvent::ConnectionFlood { count, .. } => *count > self.global_rate_limit.0 * 2,
            SecurityEvent::MalformedMessage { count } => *count > 5,
            SecurityEvent::SuspiciousValidatorBehavior { .. } => false,
            SecurityEvent::EclipseAttackAttempt => true,
            SecurityEvent::RepeatedInvalidTransactions { count } => *count > 10,
        };
        if bans {
            self.ban_ip(ip, "security event");
            match peer_id {
                Some(p) => self.ban_peer(p, "security event"),
                None => {},
            }
        }
        Ok(())
    }

    /// Sets the global limit: `max` connections per `window_ms` milliseconds.
    pub fn set_global_rate_limit(&mut self, max: u32, window_ms: u64)
        ensures
            final(self).spec_global_rate_limit() == (max, window_ms),
            final(self).spec_ip_rules() == old(self).spec_ip_rules(),
            final(self).spec_peer_rules() == old(self).spec_peer_rules(),
            final(self).spec_whitelisted_ips() == old(self).spec_whitelisted_ips(),
            final(self).spec_whitelisted_peers() == old(self).spec_whitelisted_peers(),
            same_state(*final(self), *old(self)),
            old(self).wf() ==> final(self).wf(),
    {
        self.global_rate_limit = (max, window_ms);
    }

    /// Drops the counters whose window started longer ago than the global
    /// window at clock reading `now`.
    pub fn clean_expired_counters_at(&mut self, now: u64)
        requires
            old(self).wf(),
        ensures
            final(self).wf(),
            same_policy(*final(self), *old(self)),
            final(self).spec_banned_ips() == old(self).spec_banned_ips(),
            final(self).spec_banned_peers() == old(self).spec_banned_peers(),
            forall|a: IpAddress| #[trigger] final(self).spec_counters().contains_key(a) <==> old(self).spec_counters().contains_key(a) && elapsed(now, old(self).spec_counters()[a].1.1)
                <= old(self).spec_global_rate_limit().1,
            forall|a: IpAddress| #[trigger] final(self).spec_counters().contains_key(a) ==> final(self).spec_counters()[a] == old(self).spec_counters()[a],
    {
        let ghost before = self.connection_counters@;
        let window = self.global_rate_limit.1;
        let mut kept: Vec<(IpAddress, (u32, u64))> = Vec::new();
        let mut i: usize = 0;
        while i < self.connection_counters.len()
            invariant
                0 <= i <= before.len(),
                before == self.connection_counters@,
                window == self.global_rate_limit.1,
                keys_distinct(before, ip_key::<(u32, u64)>()),
                keys_distinct(kept@, ip_key::<(u32, u64)>()),
                forall|j: int| 0 <= j < kept@.len() ==> exists|k: int| 0 <= k < i && #[trigger] kept@[j] == before[k],
                forall|k: int| 0 <= k < i ==> (elapsed(now, #[trigger] before[k].1.1) <= window <==> kept@.contains(
                    before[k],
                )),
            decreases before.len() - i,
        {
            let c = self.connection_counters[i];
            let passed: u64 = if now >= c.1.1 { now - c.1.1 } else { 0 };
            if passed <= window {
                let ghost k0 = kept@;
                proof {
                    assert forall|j: int| 0 <= j < k0.len() implies k0[j].0 != c.0 by {
                        let k = choose|k: int| 0 <= k < i && k0[j] == before[k];
                        assert(before[k].0 != before[i as int].0);
                    }
                    crate::keyed::lemma_keyed_map_absent(k0, ip_key::<(u32, u64)>(), c.0);
                    lemma_keys_distinct_push(k0, ip_key::<(u32, u64)>(), c);
                }
                kept.push(c);
                proof {
                    assert forall|j: int| 0 <= j < kept@.len() implies exists|k: int| 0 <= k < i + 1 && #[trigger] kept@[j]
                        == before[k] by {
                        if j < k0.len() {
                            assert(kept@[j] == k0[j]);
                        } else {
                            assert(kept@[j] == before[i as int]);
                        }
                    }
                    assert forall|k: int| 0 <= k < i + 1 implies (elapsed(now, #[trigger] before[k].1.1) <= window
                        <==> kept@.contains(before[k])) by {
                        if k < i {
                            if k0.contains(before[k]) {
                                let j = choose|j: int| 0 <= j < k0.len() && k0[j] == before[k];
                                assert(kept@[j] == before[k]);
                            }
                            if kept@.contains(before[k]) && !k0.contains(before[k]) {
                                let j = choose|j: int| 0 <= j < kept@.len() && kept@[j] == before[k];
                                assert(j == k0.len());
                                assert(before[k].0 == before[i as int].0);
                            }
                        } else {
                            assert(kept@[k0.len() as int] == before[k]);
                        }
                    }
                }
            } else {
                proof {
                    assert forall|k: int| 0 <= k < i + 1 implies (elapsed(now, #[trigger] before[k].1.1) <= window
                        <==> kept@.contains(before[k])) by {
                        if k == i && kept@.contains(before[k]) {
                            let j = choose|j: int| 0 <= j < kept@.len() && kept@[j] == before[k];
                            let k2 = choose|k2: int| 0 <= k2 < i && kept@[j] == before[k2];
                            assert(before[k2].0 == before[i as int].0);
                        }
                    }
                }
            }
            i = i + 1;
        }
        self.connection_counters = kept;
        proof {
            let m0 = keyed_map(before, ip_key::<(u32, u64)>());
            let m1 = keyed_map(kept@, ip_key::<(u32, u64)>());
            assert forall|a: IpAddress| #[trigger] m1.contains_key(a) implies m0.contains_key(a) && m1[a] == m0[a]
                && elapsed(now, m0[a].1.1) <= window by {
                crate::keyed::lemma_keyed_map_dom(kept@, ip_key::<(u32, u64)>(), a);
                let j = choose|j: int| 0 <= j < kept@.len() && (ip_key::<(u32, u64)>())(kept@[j]) == a;
                let k = choose|k: int| 0 <= k < before.len() && kept@[j] == before[k];
                lemma_keyed_map_index(kept@, ip_key::<(u32, u64)>(), j);
                lemma_keyed_map_index(before, ip_key::<(u32, u64)>(), k);
            }
            assert forall|a: IpAddress| m0.contains_key(a) && elapsed(now, m0[a].1.1) <= window implies #[trigger] m1.contains_key(a) by {
                crate::keyed::lemma_keyed_map_dom(before, ip_key::<(u32, u64)>(), a);
                let k = choose|k: int| 0 <= k < before.len() && (ip_key::<(u32, u64)>())(before[k]) == a;
                lemma_keyed_map_index(before, ip_key::<(u32, u64)>(), k);
                assert(kept@.contains(before[k]));
                let j = choose|j: int| 0 <= j < kept@.len() && kept@[j] == before[k];
                lemma_keyed_map_index(kept@, ip_key::<(u32, u64)>(), j);
            }
        }
    }

    /// The number of banned addresses.
    pub fn banned_ip_count(&self) -> (r: usize)
        requires
            self.wf(),
        ensures
            r == self.spec_banned_ips().len(),
    {
        proof {
            self.banned_ips@.unique_seq_to_set();
        }
        self.banned_ips.len()
    }

    /// The number of banned peers.
    pub fn banned_peer_count(&self) -> (r: usize)
        requires
            self.wf(),
        ensures
            r == self.spec_banned_peers().len(),
    {
        proof {
            peer_views(self.banned_peers@).unique_seq_to_set();
        }
        self.banned_peers.len()
    }
}

impl Default for NetworkFirewall {
    /// The same as `NetworkFirewall::new`.
    fn default() -> (r: NetworkFirewall)
        ensures
            r.wf(),
            r.spec_ip_rules().is_empty(),
            r.spec_peer_rules().is_empty(),
            r.spec_banned_ips().is_empty(),
            r.spec_banned_peers().is_empty(),
            r.spec_whitelisted_ips().is_empty(),
            r.spec_whitelisted_peers().is_empty(),
            r.spec_counters().is_empty(),
            r.spec_global_rate_limit() == (DEFAULT_RATE_MAX, DEFAULT_RATE_WINDOW_MS),
    {
        NetworkFirewall::new()
    }
}

/// Under a limit of at least one, a rate-limit check never lets an
/// address's count pass the limit, and a refused connection changes no
/// counter.
pub proof fn lemma_rate_limit_bounded(
    counters: Map<IpAddress, (IpAddress, (u32, u64))>,
    ip: IpAddress,
    max: u32,
    window: u64,
    now: u64,
)
    requires
        max >= 1,
        counters.contains_key(ip) ==> counters[ip].1.0 <= max,
    ensures
        ({
            let (after, allowed) = rate_step(counters, ip, max, window, now);
            &&& after.contains_key(ip)
            &&& after[ip].1.0 <= max
            &&& !allowed ==> after == counters
            &&& forall|other: IpAddress| other != ip ==> after.contains_key(other) == counters.contains_key(other)
                && (counters.contains_key(other) ==> after[other] == counters[other])
        }),
{
}

/// Once an address is banned, every connection from it is refused and
/// counts nothing, unless the address or the connecting peer is
/// whitelisted; a whitelisted address is always let through.
pub proof fn lemma_ban_then_refused(
    before: NetworkFirewall,
    after: NetworkFirewall,
    ip: IpAddress,
    peer: Option<Seq<u8>>,
    now: u64,
)
    requires
        after.spec_banned_ips() == banned_with(before.spec_banned_ips(), before.spec_whitelisted_ips(), ip),
        same_policy(after, before),
    ensures
        !before.spec_whitelisted_ips().contains(ip) && !(peer matches Some(p) && before.spec_whitelisted_peers().contains(p))
            ==> connection_verdict(after, ip, peer, now) == (after.spec_counters(), false),
        before.spec_whitelisted_ips().contains(ip) ==> connection_verdict(after, ip, peer, now) == (
        after.spec_counters(), true),
{
}

/// A connection from a banned peer is refused and counts nothing, unless
/// the address or the peer is whitelisted, whatever rules or limits the
/// address would otherwise meet; the same holds of a banned address.
pub proof fn lemma_banned_peer_refused(
    pre: NetworkFirewall,
    post: NetworkFirewall,
    ip: IpAddress,
    peer: PeerId,
    now: u64,
    r: Result<bool, NetworkError>,
)
    requires
        connection_check_outcome(pre, post, ip, Some(peer), now, r),
        !pre.spec_whitelisted_ips().contains(ip),
        !pre.spec_whitelisted_peers().contains(peer@),
        pre.spec_banned_peers().contains(peer@) || pre.spec_banned_ips().contains(ip),
    ensures
        r == Ok::<bool, NetworkError>(false),
        post.spec_counters() == pre.spec_counters(),
        post.spec_banned_peers() == pre.spec_banned_peers(),
        post.spec_banned_ips() == pre.spec_banned_ips(),
{
}

/// A whitelisted address, or a whitelisted connecting peer, is always let
/// through, bans and limits notwithstanding, and counts nothing.
pub proof fn lemma_whitelist_admits(
    pre: NetworkFirewall,
    post: NetworkFirewall,
    ip: IpAddress,
    peer: Option<PeerId>,
    now: u64,
    r: Result<bool, NetworkError>,
)
    requires
        connection_check_outcome(pre, post, ip, peer, now, r),
        pre.spec_whitelisted_ips().contains(ip) || (peer matches Some(p) && pre.spec_whitelisted_peers().contains(p@)),
    ensures
        r == Ok::<bool, NetworkError>(true),
        post.spec_counters() == pre.spec_counters(),
{
}

} // verus!
