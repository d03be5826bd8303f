//! The peer-to-peer network's decisions: which blocks to ask a peer for,
//! which bootstrap addresses to trust, which local address to advertise,
//! and the bookkeeping of peers and of the blocks and transactions already
//! seen. Sockets, timers and the chain itself belong to the caller, which
//! hands in what it read and sends what `take_outbox` gives back.
use vstd::prelude::*;
use crate::crypto::{hex_encode, hex_lower, sha256, sha256_digest};
use crate::encoding::{decimal_chars, u64_to_string};
use crate::keyed::{
    keyed_map, keys_distinct, lemma_keyed_map_absent, lemma_keyed_map_index,
    lemma_keyed_map_remove, lemma_keyed_map_update, lemma_keys_distinct_push,
};
use crate::network::address::{is_loopback_ip, is_unspecified_ip, IpAddress, SocketAddress};
use crate::network::dht::{
    buckets_after_seen, elapsed_millis, flatten_contacts, lookup_started, lookups_processed, Contact, DHTConfig, DhtError,
    NodeId, DHT,
};
use crate::clock::now_millis;
use crate::network::opportunistic::OpportunisticDiscoveryConfig;
use crate::text::{lemma_split_nonempty, split_spec, split_text, starts_with_text, string_views};
use crate::types::{digits_value, is_digit, parse_u64, parse_u64_spec, str_equal};

verus! {

// ---------------------------------------------------------------------------
// Messages, configuration, statistics
// ---------------------------------------------------------------------------

/// What the network reads of a block: its hash and its height.
#[derive(Debug, Clone)]
pub struct BlockSummary {
    pub hash: String,
    pub number: u64,
}

/// What the network reads of a transaction: its hash.
#[derive(Debug, Clone)]
pub struct TransactionSummary {
    pub hash: String,
}

/// Network message types
#[derive(Debug, Clone)]
pub enum NetworkMessage {
    /// New block announcement
    NewBlock(BlockSummary),
    /// New transaction announcement
    NewTransaction(TransactionSummary),
    /// Request for blocks
    BlockRequest { start_height: u64, count: u32 },
    /// Response with blocks
    BlockResponse(Vec<BlockSummary>),
    /// Request for transactions, by hash
    TransactionRequest(Vec<String>),
    /// Response with transactions
    TransactionResponse(Vec<TransactionSummary>),
    /// Peer status update
    PeerStatus { height: u64, peers: u32 },
    /// Ping message
    Ping,
    /// Pong response
    Pong,
}

/// Peer information
#[derive(Debug, Clone)]
pub struct PeerInfo {
    pub peer_id: String,
    pub address: String,
    pub last_seen: u64,
    pub best_height: u64,
    pub connected: bool,
}

/// The view of a peer.
pub struct PeerInfoView {
    pub peer_id: Seq<char>,
    pub address: Seq<char>,
    pub last_seen: u64,
    pub best_height: u64,
    pub connected: bool,
}

impl View for PeerInfo {
    type V = PeerInfoView;

    open spec fn view(&self) -> PeerInfoView {
        PeerInfoView {
            peer_id: self.peer_id@,
            address: self.address@,
            last_seen: self.last_seen,
            best_height: self.best_height,
            connected: self.connected,
        }
    }
}

/// The key of a peer: its id.
pub open spec fn peer_key() -> spec_fn(PeerInfoView) -> Seq<char> {
    |p: PeerInfoView| p.peer_id
}

/// P2P network configuration. Intervals are in milliseconds.
#[derive(Debug, Clone)]
pub struct P2PConfig {
    pub listen_address: String,
    pub max_peers: usize,
    pub ping_interval_ms: u64,
    pub sync_interval_ms: u64,
    pub block_announce_interval_ms: u64,
    /// Kademlia K parameter (bucket size)
    pub dht_k: usize,
    /// Kademlia alpha parameter (parallelism)
    pub dht_alpha: usize,
    pub dht_refresh_interval_ms: u64,
    pub opportunistic_enabled: bool,
    pub opportunistic_port: u16,
    pub opportunistic_interval_ms: u64,
}

impl Default for P2PConfig {
    /// Listen on TCP port 30303 of every interface, up to 50 peers, ping
    /// every 30 s, sync every 10 s, announce blocks every 100 ms, standard
    /// Kademlia (k = 20, alpha = 3, refresh hourly), opportunistic
    /// discovery on UDP port 30303 every 5 s.
    fn default() -> (r: P2PConfig)
        ensures
            r.listen_address@ == "/ip4/0.0.0.0/tcp/30303"@,
            r.max_peers == 50,
            r.ping_interval_ms == 30_000,
            r.sync_interval_ms == 10_000,
            r.block_announce_interval_ms == 100,
            r.dht_k == 20,
            r.dht_alpha == 3,
            r.dht_refresh_interval_ms == 3_600_000,
            r.opportunistic_enabled,
            r.opportunistic_port == 30303,
            r.opportunistic_interval_ms == 5000,
    {
        P2PConfig {
            listen_address: String::from_str("/ip4/0.0.0.0/tcp/30303"),
            max_peers: 50,
            ping_interval_ms: 30_000,
            sync_interval_ms: 10_000,
            block_announce_interval_ms: 100,
            dht_k: 20,
            dht_alpha: 3,
            dht_refresh_interval_ms: 3_600_000,
            opportunistic_enabled: true,
            opportunistic_port: 30303,
            opportunistic_interval_ms: 5000,
        }
    }
}

/// Network statistics
#[derive(Debug, Clone, Copy)]
pub struct NetworkStats {
    pub connected_peers: usize,
    pub total_peers: usize,
    pub known_blocks: usize,
    pub known_transactions: usize,
}

/// Why the network refused something.
#[derive(Debug, Clone, Copy, PartialEq, Eq, Structural)]
pub enum P2PError {
    /// No bootstrap node could be added and opportunistic discovery is off.
    NoBootstrapNodes,
    /// The bootstrap configuration lists no usable node.
    NoBootstrapConfigured,
    /// A bootstrap address is not `/ip4/IP/tcp/PORT/p2p/PEER_ID`.
    InvalidBootstrapAddress,
    /// The address part of a bootstrap address is not an IP address.
    InvalidIpAddress,
    /// The port part of a bootstrap address is not a port number.
    InvalidPort,
    /// The routing table refused the node.
    Dht(DhtError),
}

// ---------------------------------------------------------------------------
// Catching up with a peer
// ---------------------------------------------------------------------------

/// The most blocks one request asks for.
pub const SYNC_BATCH_SIZE: u32 = 100;

/// The block requests that fetch heights `from..=to`: consecutive batches
/// of 100 blocks, the last one shorter.
pub open spec fn sync_plan(from: int, to: int) -> Seq<(u64, u32)>
    decreases to - from + 1,
{
    if from < 0 || from > to {
        Seq::empty()
    } else {
        let count = if to - from + 1 < 100 { to - from + 1 } else { 100 };
        seq![(from as u64, count as u32)] + sync_plan(from + count, to)
    }
}

/// The block requests to send to a peer at `peer_height` when this node is
/// at `my_height`: none unless the peer is ahead, else the batches that
/// cover the heights from the next one up to the peer's.
pub open spec fn sync_requests(my_height: u64, peer_height: u64) -> Seq<(u64, u32)> {
    if peer_height > my_height {
        sync_plan(my_height + 1, peer_height as int)
    } else {
        Seq::empty()
    }
}

/// The catch-up is defined on these heights: a peer that is not ahead, or
/// one less than 2^32 blocks ahead whose height leaves room for the next.
pub open spec fn sync_heights_ok(my_height: u64, peer_height: u64) -> bool {
    peer_height <= my_height || (peer_height < u64::MAX && peer_height - my_height <= u32::MAX)
}

/// The number of blocks a list of requests asks for.
pub open spec fn plan_total(p: Seq<(u64, u32)>) -> int
    decreases p.len(),
{
    if p.len() == 0 {
        0
    } else {
        p[0].1 + plan_total(p.drop_first())
    }
}

/// Catching up asks for every missing height exactly once: the requests
/// start at the first missing height, each begins where the one before it
/// ended, each asks for between 1 and 100 blocks, and together they ask for
/// all heights up to the last.
pub proof fn lemma_sync_plan_covers(from: int, to: int)
    requires
        0 <= from <= to + 1,
        to < u64::MAX,
    ensures
        plan_total(sync_plan(from, to)) == to - from + 1,
        forall|i: int| 0 <= i < sync_plan(from, to).len() ==> 1 <= (#[trigger] sync_plan(from, to)[i]).1 <= 100,
        sync_plan(from, to).len() > 0 ==> sync_plan(from, to)[0].0 == from,
        forall|i: int|
            0 <= i < sync_plan(from, to).len() - 1 ==> (#[trigger] sync_plan(from, to)[i + 1]).0 == sync_plan(from, to)[i].0
                + sync_plan(from, to)[i].1,
    decreases to - from + 1,
{
    if from <= to {
        let count = if to - from + 1 < 100 { to - from + 1 } else { 100 };
        let rest = sync_plan(from + count, to);
        let plan = sync_plan(from, to);
        lemma_sync_plan_covers(from + count, to);
        assert(plan == seq![(from as u64, count as u32)] + rest);
        assert(plan.drop_first() =~= rest);
        assert forall|i: int| 0 <= i < plan.len() implies 1 <= (#[trigger] plan[i]).1 <= 100 by {
            if i > 0 {
                assert(plan[i] == rest[i - 1]);
            }
        }
        assert forall|i: int| 0 <= i < plan.len() - 1 implies (#[trigger] plan[i + 1]).0 == plan[i].0 + plan[i].1 by {
            assert(plan[i + 1] == rest[i]);
            if i > 0 {
                assert(plan[i] == rest[i - 1]);
            } else {
                if rest.len() > 0 {
                    assert(rest[0].0 == from + count);
                }
            }
        }
    }
}

/// The batches of block requests that bring this node from `my_height` up
/// to `peer_height`.
pub fn block_request_batches(my_height: u64, peer_height: u64) -> (r: Vec<(u64, u32)>)
    requires
        sync_heights_ok(my_height, peer_height),
    ensures
        r@ == sync_requests(my_height, peer_height),
{
    let mut out: Vec<(u64, u32)> = Vec::new();
    if peer_height <= my_height {
        return out;
    }
    let mut current: u64 = my_height + 1;
    proof {
        assert(out@ + sync_plan(current as int, peer_height as int) =~= sync_plan(current as int, peer_height as int));
    }
    while current <= peer_height
        invariant
            my_height < peer_height < u64::MAX,
            peer_height - my_height <= u32::MAX,
            my_height + 1 <= current <= peer_height + 1,
            out@ + sync_plan(current as int, peer_height as int) == sync_plan(my_height + 1, peer_height as int),
        decreases peer_height + 1 - current,
    {
        let remaining: u32 = (peer_height - current + 1) as u32;
        let count: u32 = if remaining < SYNC_BATCH_SIZE { remaining } else { SYNC_BATCH_SIZE };
        let ghost rest = sync_plan(current + count, peer_height as int);
        proof {
            assert(sync_plan(current as int, peer_height as int) == seq![(current, count)] + rest);
        }
        let ghost before = out@;
        out.push((current, count));
        proof {
            assert(out@ + rest =~= before + (seq![(current, count)] + rest));
        }
        current = current + count as u64;
    }
    proof {
        assert(out@ + sync_plan(current as int, peer_height as int) =~= out@);
    }
    out
}

// ---------------------------------------------------------------------------
// Bootstrap addresses
// ---------------------------------------------------------------------------

/// The value of an IPv4 octet written in decimal as the standard library
/// reads it: one to three digits, no leading zero, at most 255.
pub open spec fn ipv4_octet(s: Seq<char>) -> Option<u8> {
    if 1 <= s.len() <= 3 && (forall|i: int| 0 <= i < s.len() ==> is_digit(#[trigger] s[i])) && (s.len() == 1
        || s[0] != '0') && digits_value(s) <= 255 {
        Some(digits_value(s) as u8)
    } else {
        None
    }
}

/// An IPv4 address in dotted-decimal text: four octets separated by dots.
pub open spec fn ipv4_parse(text: Seq<char>) -> Option<IpAddress> {
    let parts = split_spec(text, '.');
    if parts.len() == 4 && ipv4_octet(parts[0]) is Some && ipv4_octet(parts[1]) is Some && ipv4_octet(parts[2]) is Some
        && ipv4_octet(parts[3]) is Some {
        Some(
            IpAddress {
                bits: (ipv4_octet(parts[0])->0 as int * 0x1000000 + ipv4_octet(parts[1])->0 as int * 0x10000
                    + ipv4_octet(parts[2])->0 as int * 0x100 + ipv4_octet(parts[3])->0 as int) as u128,
                is_v6: false,
            },
        )
    } else {
        None
    }
}

/// Read one decimal IPv4 octet.
fn parse_ipv4_octet(s: &str) -> (r: Option<u8>)
    ensures
        r == ipv4_octet(s@),
{
    let n = s.unicode_len();
    if n < 1 || n > 3 {
        return None;
    }
    let mut value: u32 = 0;
    let mut i: usize = 0;
    while i < n
        invariant
            n == s@.len(),
            1 <= n <= 3,
            0 <= i <= n,
            forall|j: int| 0 <= j < i ==> is_digit(#[trigger] s@[j]),
            value == digits_value(s@.take(i as int)),
            i == 0 ==> value == 0,
            i == 1 ==> value < 10,
            i == 2 ==> value < 100,
            i == 3 ==> value < 1000,
        decreases n - i,
    {
        let c = s.get_char(i);
        if c < '0' || c > '9' {
            return None;
        }
        proof {
            assert(s@.take(i + 1).drop_last() =~= s@.take(i as int));
            assert(s@.take(i as int).len() == i);
            if i == 0 {
                assert(digits_value(s@.take(0)) == 0);
            }
        }
        value = value * 10 + ((c as u32) - ('0' as u32));
        proof {
            assert(digits_value(s@.take(i + 1)) == digits_value(s@.take(i as int)) * 10 + ((c as nat) - ('0' as nat)));
        }
        i = i + 1;
    }
    proof {
        assert(s@.take(n as int) =~= s@);
    }
    if n > 1 && s.get_char(0) == '0' {
        return None;
    }
    if value > 255 {
        return None;
    }
    Some(value as u8)
}

/// Read an IPv4 address in dotted-decimal text.
pub fn parse_ipv4_text(text: &str) -> (r: Option<IpAddress>)
    ensures
        r == ipv4_parse(text@),
{
    let parts = split_text(text, '.');
    proof {
        assert(string_views(parts@).len() == parts@.len());
    }
    if parts.len() != 4 {
        return None;
    }
    proof {
        assert(string_views(parts@)[0] == parts@[0]@);
        assert(string_views(parts@)[1] == parts@[1]@);
        assert(string_views(parts@)[2] == parts@[2]@);
        assert(string_views(parts@)[3] == parts@[3]@);
    }
    let a = match parse_ipv4_octet(parts[0].as_str()) {
        Some(v) => v,
        None => return None,
    };
    let b = match parse_ipv4_octet(parts[1].as_str()) {
        Some(v) => v,
        None => return None,
    };
    let c = match parse_ipv4_octet(parts[2].as_str()) {
        Some(v) => v,
        None => return None,
    };
    let d = match parse_ipv4_octet(parts[3].as_str()) {
        Some(v) => v,
        None => return None,
    };
    Some(IpAddress::v4(a, b, c, d))
}

/// What `str::parse::<u16>` gives.
pub open spec fn parse_port_spec(s: Seq<char>) -> Option<u16> {
    match parse_u64_spec(s) {
        Some(v) => if v <= 65535 { Some(v as u16) } else { None },
        None => None,
    }
}

/// Parse a port number.
pub fn parse_port(s: &str) -> (r: Option<u16>)
    ensures
        r == parse_port_spec(s@),
{
    match parse_u64(s) {
        Some(v) => if v <= 65535 { Some(v as u16) } else { None },
        None => None,
    }
}

/// A bootstrap address `/ip4/IP/tcp/PORT/p2p/PEER_ID` read into its socket
/// address and peer id. The address must be dotted-decimal IPv4.
pub open spec fn bootstrap_parse(addr: Seq<char>) -> Result<(SocketAddress, Seq<char>), P2PError> {
    let parts = split_spec(addr, '/');
    if parts.len() < 7 || parts[1] != "ip4"@ || parts[3] != "tcp"@ {
        Err(P2PError::InvalidBootstrapAddress)
    } else {
        match ipv4_parse(parts[2]) {
            None => Err(P2PError::InvalidIpAddress),
            Some(ip) => match parse_port_spec(parts[4]) {
                None => Err(P2PError::InvalidPort),
                Some(port) => Ok((SocketAddress { ip, port }, parts[6])),
            },
        }
    }
}

/// Read a bootstrap address `/ip4/IP/tcp/PORT/p2p/PEER_ID`.
pub fn parse_bootstrap_address(addr: &str) -> (r: Result<(SocketAddress, String), P2PError>)
    ensures
        match bootstrap_parse(addr@) {
            Ok((sock, peer)) => r matches Ok((s, p)) && s == sock && p@ == peer,
            Err(e) => r == Err::<(SocketAddress, String), P2PError>(e),
        },
{
    let parts = split_text(addr, '/');
    proof {
        assert(string_views(parts@).len() == parts@.len());
    }
    if parts.len() < 7 {
        return Err(P2PError::InvalidBootstrapAddress);
    }
    proof {
        assert(string_views(parts@)[1] == parts@[1]@);
        assert(string_views(parts@)[2] == parts@[2]@);
        assert(string_views(parts@)[3] == parts@[3]@);
        assert(string_views(parts@)[4] == parts@[4]@);
        assert(string_views(parts@)[6] == parts@[6]@);
    }
    if !str_equal(parts[1].as_str(), "ip4") || !str_equal(parts[3].as_str(), "tcp") {
        return Err(P2PError::InvalidBootstrapAddress);
    }
    let ip = match parse_ipv4_text(parts[2].as_str()) {
        Some(ip) => ip,
        None => return Err(P2PError::InvalidIpAddress),
    };
    let port = match parse_port(parts[4].as_str()) {
        Some(p) => p,
        None => return Err(P2PError::InvalidPort),
    };
    Ok((SocketAddress { ip, port }, parts[6].clone()))
}

/// The node id a bootstrap peer id stands for: the first 20 bytes of the
/// SHA-256 of its text.
pub open spec fn bootstrap_node_id(peer: Seq<char>) -> Seq<u8> {
    sha256_digest(vstd::utf8::encode_utf8(peer)).subrange(0, 20)
}

/// The node ids that a list of bootstrap addresses adds to a routing table
/// whose own id is `me`: those of the addresses that parse, other than
/// `me`, in order.
pub open spec fn accepted_bootstrap_ids(addrs: Seq<Seq<char>>, me: Seq<u8>) -> Seq<Seq<u8>>
    decreases addrs.len(),
{
    if addrs.len() == 0 {
        Seq::empty()
    } else {
        let rest = accepted_bootstrap_ids(addrs.drop_last(), me);
        match bootstrap_parse(addrs.last()) {
            Ok((sock, peer)) => if bootstrap_node_id(peer) != me {
                rest.push(bootstrap_node_id(peer))
            } else {
                rest
            },
            Err(_) => rest,
        }
    }
}

/// The bootstrap list a configuration gives: the mainnet nodes, else the
/// testnet nodes, else the development nodes where they are enabled.
pub open spec fn bootstrap_selection(
    mainnet: Seq<Seq<char>>,
    testnet: Seq<Seq<char>>,
    development: Seq<Seq<char>>,
    use_development: bool,
) -> Seq<Seq<char>> {
    if mainnet.len() > 0 {
        mainnet
    } else if testnet.len() > 0 {
        testnet
    } else if use_development {
        development
    } else {
        Seq::empty()
    }
}

/// Choose the bootstrap list from the configured node lists; an error when
/// the choice is empty.
pub fn select_bootstrap_peers(
    mainnet: Vec<String>,
    testnet: Vec<String>,
    development: Vec<String>,
    use_development: bool,
) -> (r: Result<Vec<String>, P2PError>)
    ensures
        ({
            let chosen = bootstrap_selection(
                string_views(mainnet@),
                string_views(testnet@),
                string_views(development@),
                use_development,
            );
            if chosen.len() == 0 {
                r == Err::<Vec<String>, P2PError>(P2PError::NoBootstrapConfigured)
            } else {
                r matches Ok(v) && string_views(v@) == chosen
            }
        }),
{
    let chosen = if mainnet.len() > 0 {
        mainnet
    } else if testnet.len() > 0 {
        testnet
    } else if use_development && development.len() > 0 {
        development
    } else {
        Vec::new()
    };
    if chosen.len() == 0 {
        Err(P2PError::NoBootstrapConfigured)
    } else {
        Ok(chosen)
    }
}

// ---------------------------------------------------------------------------
// Addresses this node advertises
// ---------------------------------------------------------------------------

/// The STUN binding request this node sends.
pub fn stun_binding_request() -> (r: [u8; 20])
    ensures
        r@ == seq![0x00u8, 0x01, 0x00, 0x00, 0x21, 0x12, 0xa4, 0x42, 0x00, 0x01, 0x02, 0x03, 0x04, 0x05,
            0x06, 0x07, 0x08, 0x09, 0x0a, 0x0b],
{
    [0x00, 0x01, 0x00, 0x00, 0x21, 0x12, 0xa4, 0x42, 0x00, 0x01, 0x02, 0x03, 0x04, 0x05, 0x06, 0x07, 0x08,
        0x09, 0x0a, 0x0b]
}

/// The first position from `i` on, below `limit`, where a STUN response
/// holds the XOR-MAPPED-ADDRESS tag (`0x00 0x20`).
pub open spec fn stun_scan(buf: Seq<u8>, limit: int, i: int) -> Option<int>
    decreases limit - i,
{
    if i >= limit {
        None
    } else if buf[i] == 0 && buf[i + 1] == 0x20 {
        Some(i)
    } else {
        stun_scan(buf, limit, i + 1)
    }
}

/// Where the scan of a response of `size` bytes stops.
pub open spec fn stun_limit(size: int) -> int {
    if size >= 8 { size - 8 } else { 0 }
}

/// The dotted-decimal text of an IPv4 address.
pub open spec fn dotted_quad(a: u8, b: u8, c: u8, d: u8) -> Seq<char> {
    decimal_chars(a as nat) + seq!['.'] + decimal_chars(b as nat) + seq!['.'] + decimal_chars(c as nat)
        + seq!['.'] + decimal_chars(d as nat)
}

/// The public IPv4 address a STUN response reports, as text: the address
/// after the first XOR-MAPPED-ADDRESS tag found from byte 20 on, with the
/// magic cookie taken off.
pub open spec fn stun_address(buf: Seq<u8>, size: int) -> Option<Seq<char>> {
    match stun_scan(buf, stun_limit(size), 20) {
        Some(i) => Some(
            dotted_quad(buf[i + 8] ^ 0x21u8, buf[i + 9] ^ 0x12u8, buf[i + 10] ^ 0xa4u8, buf[i + 11] ^ 0x42u8),
        ),
        None => None,
    }
}

/// Read the public address out of the first `size` bytes of a STUN
/// response held in `buf`. The address bytes may lie past `size`, inside
/// the buffer.
pub fn parse_stun_response(buf: &[u8], size: usize) -> (r: Option<String>)
    requires
        size <= buf@.len(),
        stun_scan(buf@, stun_limit(size as int), 20) matches Some(i) ==> i + 11 < buf@.len(),
    ensures
        match stun_address(buf@, size as int) {
            Some(t) => r matches Some(s) && s@ == t,
            None => r is None,
        },
{
    let limit: usize = if size >= 8 { size - 8 } else { 0 };
    let mut i: usize = 20;
    while i < limit
        invariant
            size <= buf@.len(),
            limit == stun_limit(size as int),
            20 <= i,
            stun_scan(buf@, limit as int, 20) == stun_scan(buf@, limit as int, i as int),
            stun_scan(buf@, limit as int, 20) matches Some(k) ==> k + 11 < buf@.len(),
        decreases limit - i,
    {
        if buf[i] == 0 && buf[i + 1] == 0x20 {
            let a = buf[i + 8] ^ 0x21u8;
            let b = buf[i + 9] ^ 0x12u8;
            let c = buf[i + 10] ^ 0xa4u8;
            let d = buf[i + 11] ^ 0x42u8;
            let mut text = u64_to_string(a as u64);
            text.append(".");
            text.append(u64_to_string(b as u64).as_str());
            text.append(".");
            text.append(u64_to_string(c as u64).as_str());
            text.append(".");
            text.append(u64_to_string(d as u64).as_str());
            proof {
                reveal_strlit(".");
                assert(text@ =~= dotted_quad(a, b, c, d));
            }
            return Some(text);
        }
        i = i + 1;
    }
    None
}

/// A detected address is worth using unless it is a loopback (`127.`) or
/// link-local (`169.254.`) one.
pub open spec fn usable_detected_ip(text: Seq<char>) -> bool {
    !(4 <= text.len() && text.subrange(0, 4) == "127."@) && !(8 <= text.len() && text.subrange(0, 8)
        == "169.254."@)
}

/// Whether a detected local address is worth advertising.
pub fn is_usable_detected_ip(text: &str) -> (r: bool)
    ensures
        r == usable_detected_ip(text@),
{
    proof {
        reveal_strlit("127.");
        reveal_strlit("169.254.");
    }
    !starts_with_text(text, "127.") && !starts_with_text(text, "169.254.")
}

/// An address of the family asked for.
pub open spec fn family_ok(ip: IpAddress, prefer_ipv4: bool) -> bool {
    ip.is_v6 != prefer_ipv4
}

/// An interface address that may be advertised.
pub open spec fn usable_local(ip: IpAddress, prefer_ipv4: bool) -> bool {
    family_ok(ip, prefer_ipv4) && !is_unspecified_ip(ip) && !is_loopback_ip(ip)
}

/// An interface address that may stand in when nothing better is found.
pub open spec fn fallback_local(ip: IpAddress, prefer_ipv4: bool) -> bool {
    family_ok(ip, prefer_ipv4) && !is_unspecified_ip(ip)
}

/// The first address of `s` that meets `p`.
pub open spec fn first_where(s: Seq<IpAddress>, p: spec_fn(IpAddress) -> bool) -> Option<IpAddress>
    decreases s.len(),
{
    if s.len() == 0 {
        None
    } else if p(s[0]) {
        Some(s[0])
    } else {
        first_where(s.drop_first(), p)
    }
}

/// The local address to advertise: the first interface address of the
/// preferred family that is neither unspecified nor loopback; else the
/// system's primary address if it is such an address; else the first
/// loopback interface address of that family; else the primary address if
/// it is of that family at all.
pub open spec fn pick_local_ip(prefer_ipv4: bool, interfaces: Seq<IpAddress>, primary: Option<IpAddress>) -> Option<IpAddress> {
    match first_where(interfaces, |ip: IpAddress| usable_local(ip, prefer_ipv4)) {
        Some(ip) => Some(ip),
        None => {
            let fallback = first_where(interfaces, |ip: IpAddress| fallback_local(ip, prefer_ipv4));
            match primary {
                Some(p) => if usable_local(p, prefer_ipv4) {
                    Some(p)
                } else if family_ok(p, prefer_ipv4) && fallback is None {
                    Some(p)
                } else {
                    fallback
                },
                None => fallback,
            }
        },
    }
}

/// The first address at or after `i` that meets `p`.
proof fn lemma_first_where_step(s: Seq<IpAddress>, p: spec_fn(IpAddress) -> bool, i: int)
    requires
        0 <= i < s.len(),
        !p(s[i]),
    ensures
        first_where(s.subrange(i, s.len() as int), p) == first_where(s.subrange(i + 1, s.len() as int), p),
{
    assert(s.subrange(i, s.len() as int).drop_first() =~= s.subrange(i + 1, s.len() as int));
}

/// Choose the local address to advertise among the interface addresses and
/// the system's primary address.
pub fn select_local_ip(prefer_ipv4: bool, interfaces: &[IpAddress], primary: Option<IpAddress>) -> (r: Option<IpAddress>)
    ensures
        r == pick_local_ip(prefer_ipv4, interfaces@, primary),
{
    let ghost usable = |ip: IpAddress| usable_local(ip, prefer_ipv4);
    let ghost fb = |ip: IpAddress| fallback_local(ip, prefer_ipv4);
    let mut fallback: Option<IpAddress> = None;
    let mut i: usize = 0;
    proof {
        assert(interfaces@.subrange(0, interfaces@.len() as int) =~= interfaces@);
    }
    while i < interfaces.len()
        invariant
            0 <= i <= interfaces@.len(),
            usable == (|ip: IpAddress| usable_local(ip, prefer_ipv4)),
            fb == (|ip: IpAddress| fallback_local(ip, prefer_ipv4)),
            first_where(interfaces@, usable) == first_where(interfaces@.subrange(i as int, interfaces@.len() as int), usable),
            match fallback {
                Some(f) => first_where(interfaces@, fb) == Some(f),
                None => first_where(interfaces@, fb) == first_where(interfaces@.subrange(i as int, interfaces@.len() as int), fb),
            },
        decreases interfaces@.len() - i,
    {
        let ip = interfaces[i];
        let fam = ip.is_v6 != prefer_ipv4;
        if fam && !ip.is_unspecified() {
            if !ip.is_loopback() {
                proof {
                    assert(interfaces@.subrange(i as int, interfaces@.len() as int)[0] == ip);
                }
                return Some(ip);
            }
            if fallback.is_none() {
                proof {
                    assert(interfaces@.subrange(i as int, interfaces@.len() as int)[0] == ip);
                }
                fallback = Some(ip);
            }
        }
        proof {
            lemma_first_where_step(interfaces@, usable, i as int);
            if fallback is None {
                lemma_first_where_step(interfaces@, fb, i as int);
            }
        }
        i = i + 1;
    }
    proof {
        assert(interfaces@.subrange(i as int, interfaces@.len() as int).len() == 0);
    }
    match primary {
        Some(p) => {
            if p.is_v6 != prefer_ipv4 {
                if !p.is_loopback() && !p.is_unspecified() {
                    return Some(p);
                }
                if fallback.is_none() {
                    return Some(p);
                }
            }
            fallback
        },
        None => fallback,
    }
}

/// The socket address to advertise for a listen address: none where the
/// listen address did not parse or has port 0; its own address where it is
/// specific, else the local address chosen among the interfaces.
pub open spec fn advertised_socket_spec(
    listen: Option<SocketAddress>,
    interfaces: Seq<IpAddress>,
    primary: Option<IpAddress>,
) -> Option<SocketAddress> {
    match listen {
        None => None,
        Some(l) => if l.port == 0 {
            None
        } else if is_unspecified_ip(l.ip) {
            match pick_local_ip(!l.ip.is_v6, interfaces, primary) {
                Some(ip) => Some(SocketAddress { ip, port: l.port }),
                None => None,
            }
        } else {
            Some(l)
        },
    }
}

/// Decide the socket address to advertise for a listen address.
pub fn determine_advertised_socket(
    listen: Option<SocketAddress>,
    interfaces: &[IpAddress],
    primary: Option<IpAddress>,
) -> (r: Option<SocketAddress>)
    ensures
        r == advertised_socket_spec(listen, interfaces@, primary),
{
    match listen {
        None => None,
        Some(l) => {
            if l.port == 0 {
                return None;
            }
            if l.ip.is_unspecified() {
                match select_local_ip(!l.ip.is_v6, interfaces, primary) {
                    Some(ip) => Some(SocketAddress { ip, port: l.port }),
                    None => None,
                }
            } else {
                Some(l)
            }
        },
    }
}

/// The port of a listen address: the number after its last `:`, else 30303.
pub open spec fn listen_port_spec(listen_address: Seq<char>) -> u16 {
    let parts = split_spec(listen_address, ':');
    match parse_port_spec(parts.last()) {
        Some(p) => p,
        None => 30303,
    }
}

/// The port a listen address names, 30303 where it names none.
pub fn listen_port(listen_address: &str) -> (r: u16)
    ensures
        r == listen_port_spec(listen_address@),
{
    let parts = split_text(listen_address, ':');
    proof {
        lemma_split_nonempty(listen_address@, ':');
        assert(string_views(parts@).len() == parts@.len());
        assert(string_views(parts@).last() == parts@[parts@.len() - 1]@);
    }
    let last = parts.len() - 1;
    match parse_port(parts[last].as_str()) {
        Some(p) => p,
        None => 30303,
    }
}

/// The address other nodes use to bootstrap from this one.
pub open spec fn bootstrap_address_spec(public_ip: Seq<char>, port: u16, peer_id: Seq<char>) -> Seq<char> {
    "/ip4/"@ + public_ip + "/tcp/"@ + decimal_chars(port as nat) + "/p2p/"@ + peer_id
}

/// The address other nodes use to bootstrap from this one:
/// `/ip4/IP/tcp/PORT/p2p/PEER_ID`.
pub fn bootstrap_address(public_ip: &str, port: u16, peer_id: &str) -> (r: String)
    ensures
        r@ == bootstrap_address_spec(public_ip@, port, peer_id@),
{
    let mut text = String::from_str("/ip4/");
    text.append(public_ip);
    text.append("/tcp/");
    text.append(u64_to_string(port as u64).as_str());
    text.append("/p2p/");
    text.append(peer_id);
    text
}

/// The four little-endian bytes of a 32-bit number.
pub open spec fn le4(v: u32) -> Seq<u8> {
    seq![(v % 256) as u8, ((v / 256) % 256) as u8, ((v / 65536) % 256) as u8, (v / 16777216) as u8]
}

/// The peer id of a node: `12D3KooW` and the hexadecimal text of the first
/// 16 bytes of the SHA-256 of its listen address and its process id
/// (little-endian).
pub open spec fn peer_id_spec(listen_address: Seq<char>, process_id: u32) -> Seq<char> {
    "12D3KooW"@ + hex_lower(
        sha256_digest(vstd::utf8::encode_utf8(listen_address) + le4(process_id)).subrange(0, 16),
    )
}

/// Derive a node's peer id from its listen address and process id.
pub fn generate_peer_id(listen_address: &str, process_id: u32) -> (r: String)
    ensures
        r@ == peer_id_spec(listen_address@, process_id),
{
    let bytes = listen_address.as_bytes();
    let mut data: Vec<u8> = Vec::new();
    let mut i: usize = 0;
    while i < bytes.len()
        invariant
            0 <= i <= bytes@.len(),
            data@ == bytes@.take(i as int),
        decreases bytes@.len() - i,
    {
        data.push(bytes[i]);
        proof {
            assert(bytes@.take(i + 1) =~= bytes@.take(i as int).push(bytes@[i as int]));
        }
        i = i + 1;
    }
    proof {
        assert(bytes@.take(bytes@.len() as int) =~= bytes@);
    }
    data.push((process_id % 256) as u8);
    data.push(((process_id / 256) % 256) as u8);
    data.push(((process_id / 65536) % 256) as u8);
    data.push((process_id / 16777216) as u8);
    proof {
        assert(data@ =~= vstd::utf8::encode_utf8(listen_address@) + le4(process_id));
    }
    let digest = sha256(data.as_slice());
    let mut head: Vec<u8> = Vec::new();
    let mut j: usize = 0;
    while j < 16
        invariant
            0 <= j <= 16,
            digest@.len() == 32,
            head@ == digest@.take(j as int),
        decreases 16 - j,
    {
        head.push(digest[j]);
        proof {
            assert(digest@.take(j + 1) =~= digest@.take(j as int).push(digest@[j as int]));
        }
        j = j + 1;
    }
    let mut id = String::from_str("12D3KooW");
    let hex = hex_encode(head.as_slice());
    id.append(hex.as_str());
    proof {
        assert(head@ =~= digest@.subrange(0, 16));
    }
    id
}

// ---------------------------------------------------------------------------
// The network's state
// ---------------------------------------------------------------------------

/// The first position of a text in a list of texts.
pub fn position_of_text(v: &Vec<String>, s: &str) -> (r: Option<usize>)
    ensures
        match r {
            Some(i) => i < v@.len() && v@[i as int]@ == s@,
            None => forall|i: int| 0 <= i < v@.len() ==> v@[i]@ != s@,
        },
{
    let mut i: usize = 0;
    while i < v.len()
        invariant
            0 <= i <= v@.len(),
            forall|j: int| 0 <= j < i ==> v@[j]@ != s@,
        decreases v@.len() - i,
    {
        if str_equal(v[i].as_str(), s) {
            return Some(i);
        }
        i = i + 1;
    }
    None
}

/// Add a text to a list of distinct texts unless it is there; whether it
/// was added.
fn remember_text(v: &mut Vec<String>, s: &String) -> (added: bool)
    requires
        string_views(old(v)@).no_duplicates(),
    ensures
        string_views(final(v)@).no_duplicates(),
        added == !string_views(old(v)@).contains(s@),
        added ==> string_views(final(v)@) == string_views(old(v)@).push(s@),
        !added ==> final(v)@ == old(v)@,
        string_views(final(v)@).to_set() == string_views(old(v)@).to_set().insert(s@),
{
    match position_of_text(v, s.as_str()) {
        Some(i) => {
            proof {
                assert(string_views(v@)[i as int] == s@);
                assert(string_views(v@).to_set() =~= string_views(v@).to_set().insert(s@));
            }
            false
        },
        None => {
            let ghost before = string_views(v@);
            v.push(s.clone());
            proof {
                assert(!before.contains(s@)) by {
                    if before.contains(s@) {
                        let j = choose|j: int| 0 <= j < before.len() && before[j] == s@;
                        assert(old(v)@[j]@ == s@);
                    }
                }
                assert(string_views(v@) =~= before.push(s@));
                before.lemma_push_to_set_commute(s@);
            }
            true
        },
    }
}

/// What the caller does after the network handled a message.
#[derive(Debug, Clone)]
pub enum MessageOutcome {
    /// Nothing more.
    Done,
    /// The block is the next one: add it to the chain, then call
    /// `broadcast_block` with it.
    AppendBlock(BlockSummary),
    /// Look up the blocks from `start_height` on, at most `count`, stopping
    /// at the first missing one, and hand them to `respond_with_blocks`.
    LookupBlocks { start_height: u64, count: u32 },
    /// Add these blocks to the chain in order, stopping at the first refused.
    StoreBlocks(Vec<BlockSummary>),
    /// Look up these transactions and hand those found to
    /// `respond_with_transactions`.
    LookupTransactions(Vec<String>),
    /// The peer is ahead: call `sync_with_peer` for it.
    SyncWithPeer,
}

/// A table of empty buckets holds no contact.
proof fn lemma_empty_buckets_flatten(n: nat)
    ensures
        flatten_contacts(Seq::new(n, |i: int| Seq::<Contact>::empty())).len() == 0,
    decreases n,
{
    if n > 0 {
        lemma_empty_buckets_flatten((n - 1) as nat);
        assert(Seq::new(n, |i: int| Seq::<Contact>::empty()).drop_last() =~= Seq::new(
            (n - 1) as nat,
            |i: int| Seq::<Contact>::empty(),
        ));
    }
}

/// What one round of routing-table upkeep at clock reading `now`, looking
/// up `target`, makes of `pre`: the lookup is started and the completed
/// lookups are processed; nothing else changes.
pub open spec fn dht_maintenance_outcome(pre: P2PNetwork, post: P2PNetwork, target: Seq<u8>, now: u64) -> bool {
    &&& exists|mid: DHT|
        lookup_started(pre.spec_dht(), mid, target, now) && #[trigger] lookups_processed(
            mid,
            post.spec_dht(),
            now,
        )
    &&& post.spec_peers() == pre.spec_peers()
    &&& post.spec_outbox() == pre.spec_outbox()
    &&& post.spec_known_blocks() == pre.spec_known_blocks()
    &&& post.spec_known_txs() == pre.spec_known_txs()
    &&& post.spec_config() == pre.spec_config()
}

/// What refreshing the routing table at clock reading `now` makes of `pre`:
/// every contact not heard from within the refresh interval is marked as
/// seen; nothing else changes.
pub open spec fn dht_refresh_outcome(pre: P2PNetwork, post: P2PNetwork, now: u64) -> bool {
    &&& post.spec_dht().spec_node_id() == pre.spec_dht().spec_node_id()
    &&& post.spec_dht().spec_config() == pre.spec_dht().spec_config()
    &&& post.spec_dht().spec_known() == pre.spec_dht().spec_known()
    &&& post.spec_dht().spec_queries() == pre.spec_dht().spec_queries()
    &&& post.spec_dht().spec_buckets() == buckets_after_seen(
        pre.spec_dht().spec_buckets(),
        pre.spec_dht().spec_all_contacts().filter(
            |c: Contact| elapsed_millis(c.last_seen, now) > pre.spec_dht().spec_config().refresh_interval,
        ).map_values(|c: Contact| c.node_id@),
        now
    )
    &&& post.spec_peers() == pre.spec_peers()
    &&& post.spec_outbox() == pre.spec_outbox()
    &&& post.spec_known_blocks() == pre.spec_known_blocks()
    &&& post.spec_known_txs() == pre.spec_known_txs()
    &&& post.spec_config() == pre.spec_config()
}

/// P2P network state: the configuration, the known peers, the hashes of the
/// blocks and transactions already seen, the routing table, and the
/// messages waiting to be sent.
pub struct P2PNetwork {
    config: P2PConfig,
    peers: Vec<PeerInfo>,
    known_blocks: Vec<String>,
    known_txs: Vec<String>,
    outbox: Vec<NetworkMessage>,
    dht: DHT,
    local_peer_id: String,
}

/// A peer's best height, zero for an unknown peer.
pub open spec fn peer_height_in(peers: Map<Seq<char>, PeerInfoView>, peer_id: Seq<char>) -> u64 {
    if peers.contains_key(peer_id) {
        peers[peer_id].best_height
    } else {
        0
    }
}

/// The block requests for a list of batches.
pub open spec fn batch_requests(b: Seq<(u64, u32)>) -> Seq<NetworkMessage> {
    b.map_values(|x: (u64, u32)| NetworkMessage::BlockRequest { start_height: x.0, count: x.1 })
}

/// A peer's record after it was seen at `now`.
pub open spec fn seen_at(p: PeerInfoView, now: u64) -> PeerInfoView {
    PeerInfoView { last_seen: now, ..p }
}

impl P2PNetwork {
    pub closed spec fn spec_config(&self) -> P2PConfig {
        self.config
    }

    /// The known peers in the order they were added.
    pub closed spec fn spec_peer_list(&self) -> Seq<PeerInfoView> {
        self.peers@.map_values(|p: PeerInfo| p@)
    }

    /// The known peers by id.
    pub open spec fn spec_peers(&self) -> Map<Seq<char>, PeerInfoView> {
        keyed_map(self.spec_peer_list(), peer_key())
    }

    /// The hashes of the blocks already seen.
    pub closed spec fn spec_known_blocks(&self) -> Set<Seq<char>> {
        string_views(self.known_blocks@).to_set()
    }

    /// The hashes of the transactions already seen.
    pub closed spec fn spec_known_txs(&self) -> Set<Seq<char>> {
        string_views(self.known_txs@).to_set()
    }

    /// The messages waiting to be sent, oldest first.
    pub closed spec fn spec_outbox(&self) -> Seq<NetworkMessage> {
        self.outbox@
    }

    /// The routing table.
    pub closed spec fn spec_dht(&self) -> DHT {
        self.dht
    }

    /// This node's peer id.
    pub closed spec fn spec_peer_id(&self) -> Seq<char> {
        self.local_peer_id@
    }

    /// Peers are unique by id, the known hashes do not repeat, the routing
    /// table is well formed.
    pub closed spec fn wf(&self) -> bool {
        &&& keys_distinct(self.spec_peer_list(), peer_key())
        &&& string_views(self.known_blocks@).no_duplicates()
        &&& string_views(self.known_txs@).no_duplicates()
        &&& self.dht.wf()
    }

    /// A network for this configuration, whose peer id is derived from the
    /// listen address and the process id, with a routing table of 160-bit
    /// ids sized by the configuration, and no peers, hashes or messages.
    pub fn new_with_dht(config: P2PConfig, process_id: u32) -> (r: P2PNetwork)
        ensures
            r.wf(),
            r.spec_config() == config,
            r.spec_peer_id() == peer_id_spec(config.listen_address@, process_id),
            r.spec_peers().is_empty(),
            r.spec_known_blocks().is_empty(),
            r.spec_known_txs().is_empty(),
            r.spec_outbox().len() == 0,
            r.spec_dht().spec_config() == (DHTConfig {
                k: config.dht_k,
                alpha: config.dht_alpha,
                id_bits: 160,
                refresh_interval: config.dht_refresh_interval_ms,
                republish_interval: 86_400_000,
                expire_interval: 86_400_000,
            }),
            r.spec_dht().spec_known().len() == 0,
            r.spec_dht().spec_all_contacts().len() == 0,
    {
        let dht_config = DHTConfig {
            k: config.dht_k,
            alpha: config.dht_alpha,
            id_bits: 160,
            refresh_interval: config.dht_refresh_interval_ms,
            republish_interval: 86_400_000,
            expire_interval: 86_400_000,
        };
        let dht = DHT::new(dht_config);
        let local_peer_id = generate_peer_id(config.listen_address.as_str(), process_id);
        let r = P2PNetwork {
            config,
            peers: Vec::new(),
            known_blocks: Vec::new(),
            known_txs: Vec::new(),
            outbox: Vec::new(),
            dht,
            local_peer_id,
        };
        proof {
            lemma_keyed_map_absent(r.spec_peer_list(), peer_key(), Seq::<char>::empty());
            assert(r.spec_peer_list() =~= Seq::<PeerInfoView>::empty());
            assert(r.spec_peers() =~= Map::<Seq<char>, PeerInfoView>::empty());
            assert(string_views(r.known_blocks@).to_set() =~= Set::<Seq<char>>::empty());
            assert(string_views(r.known_txs@).to_set() =~= Set::<Seq<char>>::empty());
            lemma_empty_buckets_flatten(160);
        }
        r
    }

    /// The same as `new_with_dht`.
    pub fn new(config: P2PConfig, process_id: u32) -> (r: P2PNetwork)
        ensures
            r.wf(),
            r.spec_config() == config,
            r.spec_peer_id() == peer_id_spec(config.listen_address@, process_id),
            r.spec_peers().is_empty(),
            r.spec_known_blocks().is_empty(),
            r.spec_known_txs().is_empty(),
            r.spec_outbox().len() == 0,
    {
        Self::new_with_dht(config, process_id)
    }

    /// This node's peer id.
    pub fn get_peer_id(&self) -> (r: &str)
        ensures
            r@ == self.spec_peer_id(),
    {
        self.local_peer_id.as_str()
    }

    /// The configuration.
    pub fn config(&self) -> (r: &P2PConfig)
        ensures
            *r == self.spec_config(),
    {
        &self.config
    }

    /// The routing table.
    pub fn dht(&self) -> (r: &DHT)
        ensures
            *r == self.spec_dht(),
    {
        &self.dht
    }

    /// Hand over the messages waiting to be sent, oldest first.
    pub fn take_outbox(&mut self) -> (r: Vec<NetworkMessage>)
        requires
            old(self).wf(),
        ensures
            final(self).wf(),
            r@ == old(self).spec_outbox(),
            final(self).spec_outbox().len() == 0,
            final(self).spec_peers() == old(self).spec_peers(),
            final(self).spec_known_blocks() == old(self).spec_known_blocks(),
            final(self).spec_known_txs() == old(self).spec_known_txs(),
            final(self).spec_dht() == old(self).spec_dht(),
    {
        let mut out: Vec<NetworkMessage> = Vec::new();
        std::mem::swap(&mut out, &mut self.outbox);
        out
    }

    /// Announce a block unless it was seen before; either way it is seen
    /// afterwards.
    pub fn broadcast_block(&mut self, block: BlockSummary)
        requires
            old(self).wf(),
        ensures
            final(self).wf(),
            final(self).spec_known_blocks() == old(self).spec_known_blocks().insert(block.hash@),
            old(self).spec_known_blocks().contains(block.hash@) ==> final(self).spec_outbox() == old(self).spec_outbox(),
            !old(self).spec_known_blocks().contains(block.hash@) ==> final(self).spec_outbox()
                == old(self).spec_outbox().push(NetworkMessage::NewBlock(block)),
            final(self).spec_peers() == old(self).spec_peers(),
            final(self).spec_known_txs() == old(self).spec_known_txs(),
            final(self).spec_dht() == old(self).spec_dht(),
    {
        let ghost before = string_views(self.known_blocks@);
        let added = remember_text(&mut self.known_blocks, &block.hash);
        proof {
            assert(before.to_set().contains(block.hash@) == before.contains(block.hash@));
        }
        if added {
            self.outbox.push(NetworkMessage::NewBlock(block));
        }
    }

    /// Announce a transaction unless it was seen before; either way it is
    /// seen afterwards.
    pub fn broadcast_transaction(&mut self, transaction: TransactionSummary)
        requires
            old(self).wf(),
        ensures
            final(self).wf(),
            final(self).spec_known_txs() == old(self).spec_known_txs().insert(transaction.hash@),
            old(self).spec_known_txs().contains(transaction.hash@) ==> final(self).spec_outbox() == old(self).spec_outbox(),
            !old(self).spec_known_txs().contains(transaction.hash@) ==> final(self).spec_outbox()
                == old(self).spec_outbox().push(NetworkMessage::NewTransaction(transaction)),
            final(self).spec_peers() == old(self).spec_peers(),
            final(self).spec_known_blocks() == old(self).spec_known_blocks(),
            final(self).spec_dht() == old(self).spec_dht(),
    {
        let ghost before = string_views(self.known_txs@);
        let added = remember_text(&mut self.known_txs, &transaction.hash);
        proof {
            assert(before.to_set().contains(transaction.hash@) == before.contains(transaction.hash@));
        }
        if added {
            self.outbox.push(NetworkMessage::NewTransaction(transaction));
        }
    }

    /// Ask peers for `count` blocks from `start_height` on.
    pub fn request_blocks(&mut self, start_height: u64, count: u32)
        requires
            old(self).wf(),
        ensures
            final(self).wf(),
            final(self).spec_outbox() == old(self).spec_outbox().push(
                NetworkMessage::BlockRequest { start_height, count },
            ),
            final(self).spec_peers() == old(self).spec_peers(),
            final(self).spec_known_blocks() == old(self).spec_known_blocks(),
            final(self).spec_known_txs() == old(self).spec_known_txs(),
            final(self).spec_dht() == old(self).spec_dht(),
    {
        self.outbox.push(NetworkMessage::BlockRequest { start_height, count });
    }

    /// The position of a peer in the list.
    fn peer_position(&self, peer_id: &str) -> (r: Option<usize>)
        requires
            self.wf(),
        ensures
            match r {
                Some(i) => i < self.peers@.len() && self.peers@[i as int].peer_id@ == peer_id@
                    && self.spec_peers().contains_key(peer_id@)
                    && self.spec_peers()[peer_id@] == self.peers@[i as int]@,
                None => !self.spec_peers().contains_key(peer_id@),
            },
    {
        let mut i: usize = 0;
        while i < self.peers.len()
            invariant
                self.wf(),
                0 <= i <= self.peers@.len(),
                forall|j: int| 0 <= j < i ==> self.peers@[j].peer_id@ != peer_id@,
            decreases self.peers@.len() - i,
        {
            if str_equal(self.peers[i].peer_id.as_str(), peer_id) {
                proof {
                    assert(self.spec_peer_list()[i as int] == self.peers@[i as int]@);
                    lemma_keyed_map_index(self.spec_peer_list(), peer_key(), i as int);
                }
                return Some(i);
            }
            i = i + 1;
        }
        proof {
            assert forall|j: int| 0 <= j < self.spec_peer_list().len() implies (peer_key())(self.spec_peer_list()[j]) != peer_id@ by {
                assert(self.spec_peer_list()[j] == self.peers@[j]@);
            }
            lemma_keyed_map_absent(self.spec_peer_list(), peer_key(), peer_id@);
        }
        None
    }

    /// A peer's best height, zero for an unknown peer.
    pub fn peer_height(&self, peer_id: &str) -> (r: u64)
        requires
            self.wf(),
        ensures
            r == peer_height_in(self.spec_peers(), peer_id@),
    {
        match self.peer_position(peer_id) {
            Some(i) => self.peers[i].best_height,
            None => 0,
        }
    }

    /// Set a known peer's record; `p` keeps the peer's id.
    fn set_peer(&mut self, i: usize, p: PeerInfo)
        requires
            old(self).wf(),
            i < old(self).peers@.len(),
            p.peer_id@ == old(self).peers@[i as int].peer_id@,
        ensures
            final(self).wf(),
            final(self).spec_peers() == old(self).spec_peers().insert(p.peer_id@, p@),
            final(self).spec_outbox() == old(self).spec_outbox(),
            final(self).spec_known_blocks() == old(self).spec_known_blocks(),
            final(self).spec_known_txs() == old(self).spec_known_txs(),
            final(self).spec_dht() == old(self).spec_dht(),
            final(self).spec_config() == old(self).spec_config(),
            final(self).peers@.len() == old(self).peers@.len(),
    {
        let ghost list = self.spec_peer_list();
        self.peers.set(i, p);
        proof {
            assert(list[i as int] == old(self).peers@[i as int]@);
            assert(self.spec_peer_list() =~= list.update(i as int, p@));
            lemma_keyed_map_update(list, peer_key(), i as int, p@);
        }
    }

    /// Record that a peer was seen at `now`; nothing for an unknown peer.
    pub fn update_peer_last_seen_at(&mut self, peer_id: &str, now: u64)
        requires
            old(self).wf(),
        ensures
            final(self).wf(),
            final(self).spec_peers() == if old(self).spec_peers().contains_key(peer_id@) {
                old(self).spec_peers().insert(peer_id@, seen_at(old(self).spec_peers()[peer_id@], now))
            } else {
                old(self).spec_peers()
            },
            final(self).spec_outbox() == old(self).spec_outbox(),
            final(self).spec_known_blocks() == old(self).spec_known_blocks(),
            final(self).spec_known_txs() == old(self).spec_known_txs(),
            final(self).spec_dht() == old(self).spec_dht(),
            final(self).spec_config() == old(self).spec_config(),
    {
        match self.peer_position(peer_id) {
            Some(i) => {
                let mut p = self.peers[i].clone();
                let q = PeerInfo {
                    peer_id: self.peers[i].peer_id.clone(),
                    address: self.peers[i].address.clone(),
                    last_seen: now,
                    best_height: self.peers[i].best_height,
                    connected: self.peers[i].connected,
                };
                p = q;
                self.set_peer(i, p);
            },
            None => {},
        }
    }

    /// The requests that catch up with a peer, given the peers this node
    /// knows and its own height; none unless the peer is ahead.
    pub fn sync_with_peer_standalone(&self, peer_id: &str, my_height: u64) -> (r: Vec<NetworkMessage>)
        requires
            self.wf(),
            sync_heights_ok(my_height, peer_height_in(self.spec_peers(), peer_id@)),
        ensures
            r@ == batch_requests(sync_requests(my_height, peer_height_in(self.spec_peers(), peer_id@))),
    {
        let peer_height = self.peer_height(peer_id);
        let batches = block_request_batches(my_height, peer_height);
        let mut out: Vec<NetworkMessage> = Vec::new();
        let mut i: usize = 0;
        while i < batches.len()
            invariant
                0 <= i <= batches@.len(),
                out@ == batch_requests(batches@.take(i as int)),
            decreases batches@.len() - i,
        {
            let (start_height, count) = batches[i];
            out.push(NetworkMessage::BlockRequest { start_height, count });
            proof {
                assert(batches@.take(i + 1) =~= batches@.take(i as int).push(batches@[i as int]));
                assert(batch_requests(batches@.take(i + 1)) =~= batch_requests(batches@.take(i as int)).push(
                    NetworkMessage::BlockRequest { start_height, count },
                ));
            }
            i = i + 1;
        }
        proof {
            assert(batches@.take(batches@.len() as int) =~= batches@);
        }
        out
    }

    /// Catch up with a peer: queue the block requests that bring this node
    /// from `my_height` to the peer's height, in batches of 100.
    pub fn sync_with_peer(&mut self, peer_id: &str, my_height: u64)
        requires
            old(self).wf(),
            sync_heights_ok(my_height, peer_height_in(old(self).spec_peers(), peer_id@)),
        ensures
            final(self).wf(),
            final(self).spec_outbox() == old(self).spec_outbox() + batch_requests(
                sync_requests(my_height, peer_height_in(old(self).spec_peers(), peer_id@)),
            ),
            final(self).spec_peers() == old(self).spec_peers(),
            final(self).spec_known_blocks() == old(self).spec_known_blocks(),
            final(self).spec_known_txs() == old(self).spec_known_txs(),
            final(self).spec_dht() == old(self).spec_dht(),
            final(self).spec_config() == old(self).spec_config(),
    {
        let mut msgs = self.sync_with_peer_standalone(peer_id, my_height);
        let ghost before = self.outbox@;
        let ghost added = msgs@;
        self.outbox.append(&mut msgs);
        proof {
            assert(self.outbox@ =~= before + added);
        }
    }

    /// Add a peer, replacing one with the same id, then catch up with it.
    pub fn add_peer(&mut self, peer_info: PeerInfo, my_height: u64)
        requires
            old(self).wf(),
            sync_heights_ok(my_height, peer_info.best_height),
        ensures
            final(self).wf(),
            final(self).spec_peers() == old(self).spec_peers().insert(peer_info.peer_id@, peer_info@),
            final(self).spec_outbox() == old(self).spec_outbox() + batch_requests(
                sync_requests(my_height, peer_info.best_height),
            ),
            final(self).spec_known_blocks() == old(self).spec_known_blocks(),
            final(self).spec_known_txs() == old(self).spec_known_txs(),
            final(self).spec_dht() == old(self).spec_dht(),
    {
        let id = peer_info.peer_id.clone();
        match self.peer_position(id.as_str()) {
            Some(i) => {
                self.set_peer(i, peer_info);
            },
            None => {
                let ghost list = self.spec_peer_list();
                let ghost v = peer_info@;
                self.peers.push(peer_info);
                proof {
                    assert(self.spec_peer_list() =~= list.push(v));
                    lemma_keys_distinct_push(list, peer_key(), v);
                    assert(keyed_map(list.push(v), peer_key()) =~= keyed_map(list, peer_key()).insert(v.peer_id, v)) by {
                        assert(list.push(v).drop_last() =~= list);
                    }
                }
            },
        }
        self.sync_with_peer(id.as_str(), my_height);
    }

    /// Forget a peer.
    pub fn remove_peer(&mut self, peer_id: &str)
        requires
            old(self).wf(),
        ensures
            final(self).wf(),
            final(self).spec_peers() == old(self).spec_peers().remove(peer_id@),
            final(self).spec_outbox() == old(self).spec_outbox(),
            final(self).spec_known_blocks() == old(self).spec_known_blocks(),
            final(self).spec_known_txs() == old(self).spec_known_txs(),
            final(self).spec_dht() == old(self).spec_dht(),
    {
        match self.peer_position(peer_id) {
            Some(i) => {
                let ghost list = self.spec_peer_list();
                self.peers.remove(i);
                proof {
                    assert(self.spec_peer_list() =~= list.remove(i as int));
                    assert(list[i as int].peer_id == peer_id@);
                    lemma_keyed_map_remove(list, peer_key(), i as int);
                }
            },
            None => {
                proof {
                    assert(old(self).spec_peers().remove(peer_id@) =~= old(self).spec_peers());
                }
            },
        }
    }

    /// Record a peer's status report at `now`: its height and the time.
    /// Whether this node should catch up with it.
    pub fn handle_peer_status_at(&mut self, peer_id: &str, height: u64, my_height: u64, now: u64) -> (sync: bool)
        requires
            old(self).wf(),
        ensures
            final(self).wf(),
            sync == (height > my_height),
            final(self).spec_peers() == if old(self).spec_peers().contains_key(peer_id@) {
                old(self).spec_peers().insert(
                    peer_id@,
                    PeerInfoView { best_height: height, last_seen: now, ..old(self).spec_peers()[peer_id@] },
                )
            } else {
                old(self).spec_peers()
            },
            final(self).spec_outbox() == old(self).spec_outbox(),
            final(self).spec_known_blocks() == old(self).spec_known_blocks(),
            final(self).spec_known_txs() == old(self).spec_known_txs(),
            final(self).spec_dht() == old(self).spec_dht(),
    {
        match self.peer_position(peer_id) {
            Some(i) => {
                let q = PeerInfo {
                    peer_id: self.peers[i].peer_id.clone(),
                    address: self.peers[i].address.clone(),
                    last_seen: now,
                    best_height: height,
                    connected: self.peers[i].connected,
                };
                self.set_peer(i, q);
            },
            None => {},
        }
        height > my_height
    }

    /// Answer a ping at `now`: queue a pong and record the peer as seen.
    pub fn handle_ping_at(&mut self, peer_id: &str, now: u64)
        requires
            old(self).wf(),
        ensures
            final(self).wf(),
            final(self).spec_outbox() == old(self).spec_outbox().push(NetworkMessage::Pong),
            final(self).spec_peers() == if old(self).spec_peers().contains_key(peer_id@) {
                old(self).spec_peers().insert(peer_id@, seen_at(old(self).spec_peers()[peer_id@], now))
            } else {
                old(self).spec_peers()
            },
            final(self).spec_known_blocks() == old(self).spec_known_blocks(),
            final(self).spec_known_txs() == old(self).spec_known_txs(),
            final(self).spec_dht() == old(self).spec_dht(),
    {
        self.outbox.push(NetworkMessage::Pong);
        self.update_peer_last_seen_at(peer_id, now);
    }

    /// Handle a new block from a peer when this node's chain is at
    /// `current_height`. A block seen before is ignored. Otherwise it is
    /// remembered and: a block beyond the next one makes this node ask for
    /// the `number - current_height` blocks from the next height on (the
    /// count cut to 32 bits); the next block is to be appended; an older one
    /// is dropped.
    pub fn handle_new_block(&mut self, block: BlockSummary, current_height: u64) -> (r: MessageOutcome)
        requires
            old(self).wf(),
            current_height < u64::MAX,
        ensures
            final(self).wf(),
            final(self).spec_known_blocks() == old(self).spec_known_blocks().insert(block.hash@),
            old(self).spec_known_blocks().contains(block.hash@) ==> r is Done
                && final(self).spec_outbox() == old(self).spec_outbox(),
            !old(self).spec_known_blocks().contains(block.hash@) && block.number > current_height + 1 ==> r is Done
                && final(self).spec_outbox() == old(self).spec_outbox().push(
                    NetworkMessage::BlockRequest {
                        start_height: (current_height + 1) as u64,
                        count: (block.number - current_height) as u32,
                    },
                ),
            !old(self).spec_known_blocks().contains(block.hash@) && block.number == current_height + 1 ==> r
                == MessageOutcome::AppendBlock(block) && final(self).spec_outbox() == old(self).spec_outbox(),
            !old(self).spec_known_blocks().contains(block.hash@) && block.number <= current_height ==> r is Done
                && final(self).spec_outbox() == old(self).spec_outbox(),
            final(self).spec_peers() == old(self).spec_peers(),
            final(self).spec_known_txs() == old(self).spec_known_txs(),
            final(self).spec_dht() == old(self).spec_dht(),
    {
        let ghost before = string_views(self.known_blocks@);
        let added = remember_text(&mut self.known_blocks, &block.hash);
        proof {
            assert(before.to_set().contains(block.hash@) == before.contains(block.hash@));
        }
        if !added {
            return MessageOutcome::Done;
        }
        if block.number > current_height + 1 {
            #[verifier::truncate]
            let count: u32 = (block.number - current_height) as u32;
            self.request_blocks(current_height + 1, count);
            MessageOutcome::Done
        } else if block.number == current_height + 1 {
            MessageOutcome::AppendBlock(block)
        } else {
            MessageOutcome::Done
        }
    }

    /// Handle a new transaction from a peer: remember it. (Passing it on
    /// goes through `broadcast_transaction`, which sends nothing for a
    /// transaction already remembered.)
    pub fn handle_new_transaction(&mut self, transaction: TransactionSummary)
        requires
            old(self).wf(),
        ensures
            final(self).wf(),
            final(self).spec_known_txs() == old(self).spec_known_txs().insert(transaction.hash@),
            final(self).spec_outbox() == old(self).spec_outbox(),
            final(self).spec_peers() == old(self).spec_peers(),
            final(self).spec_known_blocks() == old(self).spec_known_blocks(),
            final(self).spec_dht() == old(self).spec_dht(),
    {
        let ghost before = string_views(self.known_txs@);
        let added = remember_text(&mut self.known_txs, &transaction.hash);
        if added {
            self.broadcast_transaction(transaction);
            proof {
                assert(before.push(transaction.hash@).to_set().contains(transaction.hash@)) by {
                    assert(before.push(transaction.hash@)[before.len() as int] == transaction.hash@);
                }
                before.lemma_push_to_set_commute(transaction.hash@);
            }
        }
    }

    /// Answer a block request with the blocks found for it, if any.
    pub fn respond_with_blocks(&mut self, blocks: Vec<BlockSummary>)
        requires
            old(self).wf(),
        ensures
            final(self).wf(),
            blocks@.len() == 0 ==> final(self).spec_outbox() == old(self).spec_outbox(),
            blocks@.len() > 0 ==> final(self).spec_outbox() == old(self).spec_outbox().push(
                NetworkMessage::BlockResponse(blocks),
            ),
            final(self).spec_peers() == old(self).spec_peers(),
            final(self).spec_known_blocks() == old(self).spec_known_blocks(),
            final(self).spec_known_txs() == old(self).spec_known_txs(),
            final(self).spec_dht() == old(self).spec_dht(),
    {
        if blocks.len() > 0 {
            self.outbox.push(NetworkMessage::BlockResponse(blocks));
        }
    }

    /// Answer a transaction request with the transactions found, if any.
    pub fn respond_with_transactions(&mut self, transactions: Vec<TransactionSummary>)
        requires
            old(self).wf(),
        ensures
            final(self).wf(),
            transactions@.len() == 0 ==> final(self).spec_outbox() == old(self).spec_outbox(),
            transactions@.len() > 0 ==> final(self).spec_outbox() == old(self).spec_outbox().push(
                NetworkMessage::TransactionResponse(transactions),
            ),
            final(self).spec_peers() == old(self).spec_peers(),
            final(self).spec_known_blocks() == old(self).spec_known_blocks(),
            final(self).spec_known_txs() == old(self).spec_known_txs(),
            final(self).spec_dht() == old(self).spec_dht(),
    {
        if transactions.len() > 0 {
            self.outbox.push(NetworkMessage::TransactionResponse(transactions));
        }
    }

    /// Handle a message from a peer at `now`, when this node's chain is at
    /// `my_height`, and say what the caller is to do next.
    pub fn handle_message_at(
        &mut self,
        message: NetworkMessage,
        peer_id: &str,
        my_height: u64,
        now: u64,
    ) -> (r: MessageOutcome)
        requires
            old(self).wf(),
            my_height < u64::MAX,
        ensures
            final(self).wf(),
            match message {
                NetworkMessage::BlockRequest { start_height, count } => r == MessageOutcome::LookupBlocks {
                    start_height,
                    count,
                } && final(self).spec_outbox() == old(self).spec_outbox(),
                NetworkMessage::BlockResponse(blocks) => r == MessageOutcome::StoreBlocks(blocks)
                    && final(self).spec_outbox() == old(self).spec_outbox(),
                NetworkMessage::TransactionRequest(hashes) => r == MessageOutcome::LookupTransactions(hashes)
                    && final(self).spec_outbox() == old(self).spec_outbox(),
                NetworkMessage::TransactionResponse(_) => r is Done && final(self).spec_outbox()
                    == old(self).spec_outbox(),
                NetworkMessage::PeerStatus { height, peers } => (r is SyncWithPeer <==> height > my_height)
                    && (r is Done || r is SyncWithPeer) && final(self).spec_outbox() == old(self).spec_outbox(),
                NetworkMessage::Ping => r is Done && final(self).spec_outbox() == old(self).spec_outbox().push(
                    NetworkMessage::Pong,
                ),
                NetworkMessage::Pong => r is Done && final(self).spec_outbox() == old(self).spec_outbox(),
                NetworkMessage::NewBlock(block) => final(self).spec_known_blocks()
                    == old(self).spec_known_blocks().insert(block.hash@),
                NetworkMessage::NewTransaction(tx) => r is Done && final(self).spec_known_txs()
                    == old(self).spec_known_txs().insert(tx.hash@) && final(self).spec_outbox()
                    == old(self).spec_outbox(),
            },
    {
        match message {
            NetworkMessage::NewBlock(block) => self.handle_new_block(block, my_height),
            NetworkMessage::NewTransaction(tx) => {
                self.handle_new_transaction(tx);
                MessageOutcome::Done
            },
            NetworkMessage::BlockRequest { start_height, count } => MessageOutcome::LookupBlocks { start_height, count },
            NetworkMessage::BlockResponse(blocks) => MessageOutcome::StoreBlocks(blocks),
            NetworkMessage::TransactionRequest(hashes) => MessageOutcome::LookupTransactions(hashes),
            NetworkMessage::TransactionResponse(_) => MessageOutcome::Done,
            NetworkMessage::PeerStatus { height, peers } => {
                if self.handle_peer_status_at(peer_id, height, my_height, now) {
                    MessageOutcome::SyncWithPeer
                } else {
                    MessageOutcome::Done
                }
            },
            NetworkMessage::Ping => {
                self.handle_ping_at(peer_id, now);
                MessageOutcome::Done
            },
            NetworkMessage::Pong => {
                self.update_peer_last_seen_at(peer_id, now);
                MessageOutcome::Done
            },
        }
    }

    /// Network statistics: the connected peers, all peers, and the blocks
    /// and transactions seen.
    pub fn get_stats(&self) -> (r: NetworkStats)
        requires
            self.wf(),
        ensures
            r.connected_peers == self.spec_peer_list().filter(|p: PeerInfoView| p.connected).len(),
            r.total_peers == self.spec_peers().len(),
            r.known_blocks == self.spec_known_blocks().len(),
            r.known_transactions == self.spec_known_txs().len(),
    {
        let ghost pred = |p: PeerInfoView| p.connected;
        let mut connected: usize = 0;
        let mut i: usize = 0;
        while i < self.peers.len()
            invariant
                0 <= i <= self.peers@.len(),
                pred == (|p: PeerInfoView| p.connected),
                connected == self.spec_peer_list().take(i as int).filter(pred).len(),
                connected <= i,
            decreases self.peers@.len() - i,
        {
            proof {
                reveal_with_fuel(Seq::filter, 1);
                assert(self.spec_peer_list().take(i + 1).drop_last() =~= self.spec_peer_list().take(i as int));
                assert(self.spec_peer_list()[i as int] == self.peers@[i as int]@);
            }
            if self.peers[i].connected {
                connected = connected + 1;
            }
            i = i + 1;
        }
        proof {
            assert(self.spec_peer_list().take(self.peers@.len() as int) =~= self.spec_peer_list());
            crate::keyed::lemma_keyed_map_len(self.spec_peer_list(), peer_key());
            string_views(self.known_blocks@).unique_seq_to_set();
            string_views(self.known_txs@).unique_seq_to_set();
        }
        NetworkStats {
            connected_peers: connected,
            total_peers: self.peers.len(),
            known_blocks: self.known_blocks.len(),
            known_transactions: self.known_txs.len(),
        }
    }

    /// Add the bootstrap nodes of a list of addresses to the routing table.
    /// The number added; an error where none was added and opportunistic
    /// discovery is off.
    pub fn initialize_dht_bootstrap(&mut self, bootstrap_peers: &Vec<String>) -> (r: Result<usize, P2PError>)
        requires
            old(self).wf(),
        ensures
            final(self).wf(),
            ({
                let ids = accepted_bootstrap_ids(string_views(bootstrap_peers@), old(self).spec_dht().spec_node_id());
                &&& final(self).spec_dht().spec_known().to_set() == old(self).spec_dht().spec_known().to_set()
                    + ids.to_set()
                &&& if ids.len() == 0 && !old(self).spec_config().opportunistic_enabled {
                    r == Err::<usize, P2PError>(P2PError::NoBootstrapNodes)
                } else {
                    r == Ok::<usize, P2PError>(ids.len() as usize)
                }
            }),
            final(self).spec_dht().spec_node_id() == old(self).spec_dht().spec_node_id(),
            final(self).spec_dht().spec_config() == old(self).spec_dht().spec_config(),
            final(self).spec_peers() == old(self).spec_peers(),
            final(self).spec_outbox() == old(self).spec_outbox(),
            final(self).spec_known_blocks() == old(self).spec_known_blocks(),
            final(self).spec_known_txs() == old(self).spec_known_txs(),
            final(self).spec_config() == old(self).spec_config(),
    {
        let ghost addrs = string_views(bootstrap_peers@);
        let ghost me = self.dht.spec_node_id();
        let ghost known0 = self.dht.spec_known().to_set();
        let mut successful: usize = 0;
        let mut i: usize = 0;
        proof {
            assert(addrs.take(0) =~= Seq::<Seq<char>>::empty());
            assert(known0 + Seq::<Seq<u8>>::empty().to_set() =~= known0);
        }
        while i < bootstrap_peers.len()
            invariant
                0 <= i <= bootstrap_peers@.len(),
                addrs == string_views(bootstrap_peers@),
                self.wf(),
                self.dht.spec_node_id() == me,
                me == old(self).spec_dht().spec_node_id(),
                self.dht.spec_config() == old(self).spec_dht().spec_config(),
                known0 == old(self).spec_dht().spec_known().to_set(),
                self.dht.spec_known().to_set() == known0 + accepted_bootstrap_ids(addrs.take(i as int), me).to_set(),
                successful == accepted_bootstrap_ids(addrs.take(i as int), me).len(),
                successful <= i,
                self.config == old(self).config,
                self.peers == old(self).peers,
                self.outbox == old(self).outbox,
                self.known_blocks == old(self).known_blocks,
                self.known_txs == old(self).known_txs,
            decreases bootstrap_peers@.len() - i,
        {
            let ghost prev = accepted_bootstrap_ids(addrs.take(i as int), me);
            proof {
                assert(addrs.take(i + 1).drop_last() =~= addrs.take(i as int));
                assert(addrs.take(i + 1).last() == bootstrap_peers@[i as int]@);
            }
            match parse_bootstrap_address(bootstrap_peers[i].as_str()) {
                Ok((socket, peer)) => {
                    let node_id = NodeId::from_hash(peer.as_str().as_bytes());
                    let contact = Contact::new(node_id, socket);
                    let ghost known_before = self.dht.spec_known().to_set();
                    match self.dht.add_bootstrap_node(contact) {
                        Ok(()) => {
                            proof {
                                assert(accepted_bootstrap_ids(addrs.take(i + 1), me) == prev.push(node_id@));
                                prev.lemma_push_to_set_commute(node_id@);
                                assert(self.dht.spec_known().to_set() =~= known0 + prev.push(node_id@).to_set());
                            }
                            successful = successful + 1;
                        },
                        Err(_) => {
                            proof {
                                assert(accepted_bootstrap_ids(addrs.take(i + 1), me) == prev);
                            }
                        },
                    }
                },
                Err(_) => {
                    proof {
                        assert(accepted_bootstrap_ids(addrs.take(i + 1), me) == prev);
                    }
                },
            }
            i = i + 1;
        }
        proof {
            assert(addrs.take(bootstrap_peers@.len() as int) =~= addrs);
        }
        if successful == 0 && !self.config.opportunistic_enabled {
            return Err(P2PError::NoBootstrapNodes);
        }
        Ok(successful)
    }

    /// Record a peer found by opportunistic discovery in the routing table.
    pub fn register_discovered_contact(&mut self, remote_node_id: NodeId, advertised: SocketAddress)
        requires
            old(self).wf(),
        ensures
            final(self).wf(),
            final(self).spec_dht().spec_node_id() == old(self).spec_dht().spec_node_id(),
            remote_node_id@ != old(self).spec_dht().spec_node_id() ==> final(self).spec_dht().spec_known().to_set()
                == old(self).spec_dht().spec_known().to_set().insert(remote_node_id@),
            remote_node_id@ == old(self).spec_dht().spec_node_id() ==> final(self).spec_dht().spec_known()
                == old(self).spec_dht().spec_known(),
            final(self).spec_peers() == old(self).spec_peers(),
            final(self).spec_outbox() == old(self).spec_outbox(),
            final(self).spec_known_blocks() == old(self).spec_known_blocks(),
            final(self).spec_known_txs() == old(self).spec_known_txs(),
            final(self).spec_config() == old(self).spec_config(),
    {
        crate::network::opportunistic::OpportunisticDiscovery::register_contact(
            &mut self.dht,
            remote_node_id,
            advertised,
        );
    }

    /// One round of routing-table upkeep at clock reading `now`: start a
    /// lookup of `target` (a lookup already running for it stays as it is),
    /// then finish the lookups that are done and add the live contacts they
    /// found.
    pub fn perform_dht_maintenance_at(&mut self, target: NodeId, now: u64)
        requires
            old(self).wf(),
        ensures
            final(self).wf(),
            dht_maintenance_outcome(*old(self), *final(self), target@, now),
    {
        let _ = self.dht.start_lookup_at(target, now);
        let ghost mid = self.dht;
        self.dht.process_completed_lookups_at(now);
        assert(lookup_started(old(self).spec_dht(), mid, target@, now));
        assert(lookups_processed(mid, self.spec_dht(), now));
    }

    /// One round of routing-table upkeep now, looking up a random
    /// identifier; see `perform_dht_maintenance_at`.
    pub fn perform_dht_maintenance(&mut self)
        requires
            old(self).wf(),
        ensures
            final(self).wf(),
            exists|target: Seq<u8>, now: u64| #[trigger] dht_maintenance_outcome(*old(self), *final(self), target, now),
    {
        let target = NodeId::random();
        let now = now_millis();
        let ghost t = target@;
        self.perform_dht_maintenance_at(target, now);
        assert(dht_maintenance_outcome(*old(self), *self, t, now));
    }

    /// Refresh the routing table at clock reading `now`: every contact not
    /// heard from within the refresh interval is marked as seen.
    pub fn refresh_dht_buckets_at(&mut self, now: u64)
        requires
            old(self).wf(),
        ensures
            final(self).wf(),
            dht_refresh_outcome(*old(self), *final(self), now),
    {
        self.dht.refresh_contacts_at(now);
    }

    /// Refresh the routing table now; see `refresh_dht_buckets_at`.
    pub fn refresh_dht_buckets(&mut self)
        requires
            old(self).wf(),
        ensures
            final(self).wf(),
            exists|now: u64| #[trigger] dht_refresh_outcome(*old(self), *final(self), now),
    {
        let now = now_millis();
        self.refresh_dht_buckets_at(now);
    }

    /// Announce this node in its own routing table under its public IPv4
    /// address and listen port; the bootstrap address other nodes can use.
    /// An error where the address is not dotted-decimal IPv4.
    pub fn announce_to_dht(&mut self, public_ip: &str) -> (r: Result<String, P2PError>)
        requires
            old(self).wf(),
        ensures
            final(self).wf(),
            final(self).spec_dht().spec_node_id() == old(self).spec_dht().spec_node_id(),
            final(self).spec_dht().spec_known() == old(self).spec_dht().spec_known(),
            ipv4_parse(public_ip@) is None ==> r == Err::<String, P2PError>(P2PError::InvalidIpAddress)
                && *final(self) == *old(self),
            ipv4_parse(public_ip@) is Some ==> (r matches Ok(a) && a@ == bootstrap_address_spec(
                public_ip@,
                listen_port_spec(old(self).spec_config().listen_address@),
                old(self).spec_peer_id(),
            )),
            final(self).spec_peers() == old(self).spec_peers(),
            final(self).spec_outbox() == old(self).spec_outbox(),
            final(self).spec_config() == old(self).spec_config(),
            final(self).spec_peer_id() == old(self).spec_peer_id(),
    {
        let port = listen_port(self.config.listen_address.as_str());
        let text = bootstrap_address(public_ip, port, self.local_peer_id.as_str());
        let ip = match parse_ipv4_text(public_ip) {
            Some(ip) => ip,
            None => return Err(P2PError::InvalidIpAddress),
        };
        let own = *self.dht.node_id();
        let contact = Contact::new(own, SocketAddress { ip, port });
        self.dht.insert_contact(contact);
        Ok(text)
    }

    /// The opportunistic discovery to start, if any: none where it is off
    /// or no address can be advertised; else the configured port and
    /// interval with packets of up to 2048 bytes.
    pub fn opportunistic_plan(&self, advertised: Option<SocketAddress>) -> (r: Option<OpportunisticDiscoveryConfig>)
        ensures
            r == if !self.spec_config().opportunistic_enabled || advertised is None {
                None
            } else {
                Some(
                    OpportunisticDiscoveryConfig {
                        port: self.spec_config().opportunistic_port,
                        interval_ms: self.spec_config().opportunistic_interval_ms,
                        max_packet_size: 2048,
                    },
                )
            },
    {
        if !self.config.opportunistic_enabled {
            return None;
        }
        match advertised {
            None => None,
            Some(_) => Some(
                OpportunisticDiscoveryConfig {
                    port: self.config.opportunistic_port,
                    interval_ms: self.config.opportunistic_interval_ms,
                    max_packet_size: 2048,
                },
            ),
        }
    }
}

} // verus!
