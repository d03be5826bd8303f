//! The TCP transport's bookkeeping and wire framing. A message travels as a
//! four-byte big-endian length followed by that many bytes of envelope. The
//! sockets and tasks are the caller's; this module keeps the table of
//! connections, decides whether a connection or a send may go ahead, and
//! cuts frames out of the bytes read.
use vstd::prelude::*;
use crate::encoding::copy_range;
use crate::keyed::{
    keyed_map, keys_distinct, lemma_keyed_map_absent, lemma_keyed_map_index, lemma_keyed_map_remove,
    lemma_keyed_map_update, lemma_keys_distinct_push,
};
use crate::text::{replace_chars, replace_chars_text};
use crate::types::str_equal;

verus! {

/// Transport configuration. Times are in milliseconds.
#[derive(Debug, Clone)]
pub struct TransportConfig {
    pub listen_address: String,
    pub max_connections: usize,
    pub connection_timeout_ms: u64,
    pub message_timeout_ms: u64,
    pub heartbeat_interval_ms: u64,
}

impl Default for TransportConfig {
    /// Every interface, a port the system picks, up to 50 connections,
    /// connect within 10 s, ping after 30 s of silence, heartbeat every
    /// minute.
    fn default() -> (r: TransportConfig)
        ensures
            r.listen_address@ == "0.0.0.0:0"@,
            r.max_connections == 50,
            r.connection_timeout_ms == 10_000,
            r.message_timeout_ms == 30_000,
            r.heartbeat_interval_ms == 60_000,
    {
        TransportConfig {
            listen_address: String::from_str("0.0.0.0:0"),
            max_connections: 50,
            connection_timeout_ms: 10_000,
            message_timeout_ms: 30_000,
            heartbeat_interval_ms: 60_000,
        }
    }
}

/// Connection information. Times are seconds.
#[derive(Debug, Clone)]
pub struct ConnectionInfo {
    pub peer_id: String,
    pub address: String,
    pub connected_at: u64,
    pub last_message: u64,
    pub messages_sent: u64,
    pub messages_received: u64,
}

/// The view of a connection.
pub struct ConnectionView {
    pub peer_id: Seq<char>,
    pub address: Seq<char>,
    pub connected_at: u64,
    pub last_message: u64,
    pub messages_sent: u64,
    pub messages_received: u64,
}

impl View for ConnectionInfo {
    type V = ConnectionView;

    open spec fn view(&self) -> ConnectionView {
        ConnectionView {
            peer_id: self.peer_id@,
            address: self.address@,
            connected_at: self.connected_at,
            last_message: self.last_message,
            messages_sent: self.messages_sent,
            messages_received: self.messages_received,
        }
    }
}

/// The key of a connection: its peer id.
pub open spec fn conn_key() -> spec_fn(ConnectionView) -> Seq<char> {
    |c: ConnectionView| c.peer_id
}

/// Transport statistics
#[derive(Debug, Clone, Copy)]
pub struct TransportStats {
    pub connected_peers: usize,
    pub total_connections: usize,
    pub messages_sent: u64,
    pub messages_received: u64,
}

/// Why the transport refused.
#[derive(Debug, Clone, Copy, PartialEq, Eq, Structural)]
pub enum TransportError {
    /// The transport is not running.
    NotRunning,
    /// As many connections as allowed are open.
    MaxConnections,
}

/// The peer id of the connection to an address: `peer_` and the address
/// with its dots and colons turned into underscores.
pub open spec fn peer_id_for_address_spec(address: Seq<char>) -> Seq<char> {
    "peer_"@ + replace_chars(address, seq!['.', ':'], '_')
}

/// The peer id of the connection to an address.
pub fn peer_id_for_address(address: &str) -> (r: String)
    ensures
        r@ == peer_id_for_address_spec(address@),
{
    let mut id = String::from_str("peer_");
    proof {
        reveal_strlit(".:");
        reveal_strlit("_");
        assert(".:"@ =~= seq!['.', ':']);
    }
    let tail = replace_chars_text(address, ".:", "_");
    id.append(tail.as_str());
    id
}

// ---------------------------------------------------------------------------
// Framing
// ---------------------------------------------------------------------------

/// The four big-endian bytes of a 32-bit length.
pub open spec fn be4(n: u32) -> Seq<u8> {
    seq![(n / 16777216) as u8, ((n / 65536) % 256) as u8, ((n / 256) % 256) as u8, (n % 256) as u8]
}

/// The length a frame header announces.
pub open spec fn header_len(d: Seq<u8>) -> int {
    d[0] * 16777216 + d[1] * 65536 + d[2] * 256 + d[3]
}

/// The first complete frame of the bytes read so far: its body and the
/// bytes after it; none while the header or the body is incomplete.
pub open spec fn parse_frame_spec(d: Seq<u8>) -> Option<(Seq<u8>, Seq<u8>)> {
    if d.len() < 4 {
        None
    } else if d.len() < 4 + header_len(d) {
        None
    } else {
        Some((d.subrange(4, 4 + header_len(d)), d.subrange(4 + header_len(d), d.len() as int)))
    }
}

/// A header gives back the length it was made from.
proof fn lemma_be4_value(n: u32)
    ensures
        header_len(be4(n)) == n,
{
    let s = be4(n);
    let x = n as int;
    assert(s[0] == x / 16777216);
    assert(s[1] == (x / 65536) % 256);
    assert(s[2] == (x / 256) % 256);
    assert(s[3] == x % 256);
    assert(x / 16777216 * 16777216 + (x / 65536) % 256 * 65536 + (x / 256) % 256 * 256 + x % 256 == x) by (nonlinear_arith)
        requires
            0 <= x < 0x1_0000_0000,
    {
        assert(x == (x / 256) * 256 + x % 256);
        assert(x / 256 == (x / 65536) * 256 + (x / 256) % 256) by {
            assert(x / 65536 == (x / 256) / 256);
        }
        assert(x / 65536 == (x / 16777216) * 256 + (x / 65536) % 256) by {
            assert(x / 16777216 == (x / 65536) / 256);
        }
    }
}

/// What a frame carries is read back from it, whatever follows it: the
/// body comes out whole and the bytes after it are left.
pub proof fn lemma_frame_roundtrip(body: Seq<u8>, rest: Seq<u8>)
    requires
        body.len() <= u32::MAX,
    ensures
        parse_frame_spec(be4(body.len() as u32) + body + rest) == Some((body, rest)),
{
    let d = be4(body.len() as u32) + body + rest;
    lemma_be4_value(body.len() as u32);
    assert(d.subrange(0, 4) =~= be4(body.len() as u32));
    assert(header_len(d) == header_len(be4(body.len() as u32)));
    assert(d.subrange(4, 4 + body.len() as int) =~= body);
    assert(d.subrange(4 + body.len() as int, d.len() as int) =~= rest);
}

/// Put a body in a frame.
pub fn encode_frame(body: &[u8]) -> (r: Vec<u8>)
    requires
        body@.len() <= u32::MAX,
    ensures
        r@ == be4(body@.len() as u32) + body@,
{
    let n: u32 = body.len() as u32;
    let mut out: Vec<u8> = Vec::new();
    out.push((n / 16777216) as u8);
    out.push(((n / 65536) % 256) as u8);
    out.push(((n / 256) % 256) as u8);
    out.push((n % 256) as u8);
    let mut i: usize = 0;
    while i < body.len()
        invariant
            0 <= i <= body@.len(),
            out@ == be4(n) + body@.take(i as int),
        decreases body@.len() - i,
    {
        out.push(body[i]);
        proof {
            assert(body@.take(i + 1) =~= body@.take(i as int).push(body@[i as int]));
            assert(out@ =~= be4(n) + body@.take(i + 1));
        }
        i = i + 1;
    }
    proof {
        assert(body@.take(body@.len() as int) =~= body@);
    }
    out
}

/// Cut the first complete frame out of the bytes read so far.
pub fn try_parse_frame(data: &[u8]) -> (r: Option<(Vec<u8>, Vec<u8>)>)
    ensures
        match parse_frame_spec(data@) {
            Some((body, rest)) => r matches Some((b, t)) && b@ == body && t@ == rest,
            None => r is None,
        },
{
    if data.len() < 4 {
        return None;
    }
    let len: u64 = (data[0] as u64) * 16777216 + (data[1] as u64) * 65536 + (data[2] as u64) * 256 + (data[3] as u64);
    if (data.len() as u64) < 4 + len {
        return None;
    }
    let end: usize = 4 + (len as usize);
    let body = copy_range(data, 4, end);
    let rest = copy_range(data, end, data.len());
    Some((body, rest))
}

/// The bytes read from a connection that do not yet make a whole frame,
/// and the frames ahead of them.
pub struct FrameBuffer {
    data: Vec<u8>,
}

impl View for FrameBuffer {
    type V = Seq<u8>;

    closed spec fn view(&self) -> Seq<u8> {
        self.data@
    }
}

impl FrameBuffer {
    /// An empty buffer.
    pub fn new() -> (r: FrameBuffer)
        ensures
            r@ == Seq::<u8>::empty(),
    {
        FrameBuffer { data: Vec::new() }
    }

    /// Add bytes read from the connection.
    pub fn extend(&mut self, bytes: &[u8])
        ensures
            final(self)@ == old(self)@ + bytes@,
    {
        let mut i: usize = 0;
        let ghost start = self.data@;
        while i < bytes.len()
            invariant
                0 <= i <= bytes@.len(),
                self.data@ == start + bytes@.take(i as int),
            decreases bytes@.len() - i,
        {
            self.data.push(bytes[i]);
            proof {
                assert(bytes@.take(i + 1) =~= bytes@.take(i as int).push(bytes@[i as int]));
                assert(self.data@ =~= start + bytes@.take(i + 1));
            }
            i = i + 1;
        }
        proof {
            assert(bytes@.take(bytes@.len() as int) =~= bytes@);
        }
    }

    /// The body of the first complete frame, if there is one.
    pub fn next_frame(&self) -> (r: Option<Vec<u8>>)
        ensures
            match parse_frame_spec(self@) {
                Some((body, _)) => r matches Some(b) && b@ == body,
                None => r is None,
            },
    {
        match try_parse_frame(self.data.as_slice()) {
            Some((body, _)) => Some(body),
            None => None,
        }
    }

    /// Drop the first complete frame; nothing where there is none.
    pub fn drop_frame(&mut self)
        ensures
            match parse_frame_spec(old(self)@) {
                Some((_, rest)) => final(self)@ == rest,
                None => final(self)@ == old(self)@,
            },
    {
        match try_parse_frame(self.data.as_slice()) {
            Some((_, rest)) => {
                self.data = rest;
            },
            None => {},
        }
    }
}

/// The kinds of envelope the transport understands.
#[derive(Debug, Clone, Copy, PartialEq, Eq, Structural)]
pub enum EnvelopeKind {
    Ping,
    Pong,
    NewBlock,
    NewTransaction,
}

/// The kind an envelope's type names, if any.
pub open spec fn envelope_kind_spec(t: Seq<char>) -> Option<EnvelopeKind> {
    if t == "ping"@ {
        Some(EnvelopeKind::Ping)
    } else if t == "pong"@ {
        Some(EnvelopeKind::Pong)
    } else if t == "new_block"@ {
        Some(EnvelopeKind::NewBlock)
    } else if t == "new_transaction"@ {
        Some(EnvelopeKind::NewTransaction)
    } else {
        None
    }
}

/// The kind an envelope's type names; none for a type the transport does
/// not know, which ends the reading of that connection's buffer.
pub fn envelope_kind(message_type: &str) -> (r: Option<EnvelopeKind>)
    ensures
        r == envelope_kind_spec(message_type@),
{
    if str_equal(message_type, "ping") {
        Some(EnvelopeKind::Ping)
    } else if str_equal(message_type, "pong") {
        Some(EnvelopeKind::Pong)
    } else if str_equal(message_type, "new_block") {
        Some(EnvelopeKind::NewBlock)
    } else if str_equal(message_type, "new_transaction") {
        Some(EnvelopeKind::NewTransaction)
    } else {
        None
    }
}

// ---------------------------------------------------------------------------
// The connection table
// ---------------------------------------------------------------------------

/// The sum of the sent counters.
pub open spec fn total_sent(s: Seq<ConnectionView>) -> int
    decreases s.len(),
{
    if s.len() == 0 {
        0
    } else {
        total_sent(s.drop_last()) + s.last().messages_sent
    }
}

/// The sum of the received counters.
pub open spec fn total_received(s: Seq<ConnectionView>) -> int
    decreases s.len(),
{
    if s.len() == 0 {
        0
    } else {
        total_received(s.drop_last()) + s.last().messages_received
    }
}

/// A connection after a message went through it at `now`.
pub open spec fn after_message(c: ConnectionView, now: u64, sent: bool) -> ConnectionView {
    if sent {
        ConnectionView { messages_sent: (c.messages_sent + 1) as u64, last_message: now, ..c }
    } else {
        ConnectionView { messages_received: (c.messages_received + 1) as u64, last_message: now, ..c }
    }
}

/// TCP-based P2P transport: its configuration, whether it runs, and the
/// open connections by peer id.
pub struct P2PTransport {
    config: TransportConfig,
    running: bool,
    connections: Vec<ConnectionInfo>,
}

impl P2PTransport {
    pub closed spec fn spec_config(&self) -> TransportConfig {
        self.config
    }

    pub closed spec fn spec_running(&self) -> bool {
        self.running
    }

    /// The connections in the order they were opened.
    pub closed spec fn spec_conn_list(&self) -> Seq<ConnectionView> {
        self.connections@.map_values(|c: ConnectionInfo| c@)
    }

    /// The connections by peer id.
    pub open spec fn spec_connections(&self) -> Map<Seq<char>, ConnectionView> {
        keyed_map(self.spec_conn_list(), conn_key())
    }

    /// One connection per peer id.
    pub closed spec fn wf(&self) -> bool {
        keys_distinct(self.spec_conn_list(), conn_key())
    }

    /// A stopped transport with no connections.
    pub fn new(config: TransportConfig) -> (r: P2PTransport)
        ensures
            r.wf(),
            r.spec_config() == config,
            !r.spec_running(),
            r.spec_connections().is_empty(),
    {
        let r = P2PTransport { config, running: false, connections: Vec::new() };
        proof {
            assert(r.spec_conn_list() =~= Seq::<ConnectionView>::empty());
            assert(r.spec_connections() =~= Map::<Seq<char>, ConnectionView>::empty());
        }
        r
    }

    /// The configuration.
    pub fn config(&self) -> (r: &TransportConfig)
        ensures
            *r == self.spec_config(),
    {
        &self.config
    }

    /// Mark the transport running, once its listener is bound.
    pub fn start(&mut self)
        ensures
            final(self).spec_running(),
            final(self).spec_config() == old(self).spec_config(),
            final(self).spec_conn_list() == old(self).spec_conn_list(),
            final(self).wf() == old(self).wf(),
    {
        self.running = true;
    }

    /// Stop the transport and close every connection.
    pub fn stop(&mut self)
        ensures
            final(self).wf(),
            !final(self).spec_running(),
            final(self).spec_config() == old(self).spec_config(),
            final(self).spec_connections().is_empty(),
    {
        self.running = false;
        self.connections = Vec::new();
        proof {
            assert(self.spec_conn_list() =~= Seq::<ConnectionView>::empty());
            assert(self.spec_connections() =~= Map::<Seq<char>, ConnectionView>::empty());
        }
    }

    /// Whether the transport is running.
    pub fn is_running(&self) -> (r: bool)
        ensures
            r == self.spec_running(),
    {
        self.running
    }

    /// Whether a message may be queued for sending: only while running.
    pub fn check_send(&self) -> (r: Result<(), TransportError>)
        ensures
            r == if self.spec_running() {
                Ok::<(), TransportError>(())
            } else {
                Err::<(), TransportError>(TransportError::NotRunning)
            },
    {
        if !self.running {
            return Err(TransportError::NotRunning);
        }
        Ok(())
    }

    /// Whether a new outgoing connection may be attempted: only while
    /// running and below the connection limit.
    pub fn check_connect(&self) -> (r: Result<(), TransportError>)
        requires
            self.wf(),
        ensures
            !self.spec_running() ==> r == Err::<(), TransportError>(TransportError::NotRunning),
            self.spec_running() && self.spec_connections().len() >= self.spec_config().max_connections ==> r
                == Err::<(), TransportError>(TransportError::MaxConnections),
            self.spec_running() && self.spec_connections().len() < self.spec_config().max_connections ==> r is Ok,
    {
        if !self.running {
            return Err(TransportError::NotRunning);
        }
        proof {
            crate::keyed::lemma_keyed_map_len(self.spec_conn_list(), conn_key());
        }
        if self.connections.len() >= self.config.max_connections {
            return Err(TransportError::MaxConnections);
        }
        Ok(())
    }

    /// The position of a peer's connection.
    fn position(&self, peer_id: &str) -> (r: Option<usize>)
        requires
            self.wf(),
        ensures
            match r {
                Some(i) => i < self.connections@.len() && self.connections@[i as int].peer_id@ == peer_id@
                    && self.spec_connections().contains_key(peer_id@)
                    && self.spec_connections()[peer_id@] == self.connections@[i as int]@,
                None => !self.spec_connections().contains_key(peer_id@),
            },
    {
        let mut i: usize = 0;
        while i < self.connections.len()
            invariant
                self.wf(),
                0 <= i <= self.connections@.len(),
                forall|j: int| 0 <= j < i ==> self.connections@[j].peer_id@ != peer_id@,
            decreases self.connections@.len() - i,
        {
            if str_equal(self.connections[i].peer_id.as_str(), peer_id) {
                proof {
                    assert(self.spec_conn_list()[i as int] == self.connections@[i as int]@);
                    lemma_keyed_map_index(self.spec_conn_list(), conn_key(), i as int);
                }
                return Some(i);
            }
            i = i + 1;
        }
        proof {
            assert forall|j: int| 0 <= j < self.spec_conn_list().len() implies (conn_key())(self.spec_conn_list()[j])
                != peer_id@ by {
                assert(self.spec_conn_list()[j] == self.connections@[j]@);
            }
            lemma_keyed_map_absent(self.spec_conn_list(), conn_key(), peer_id@);
        }
        None
    }

    /// Set the record at a position; the record keeps the peer id.
    fn set_connection(&mut self, i: usize, c: ConnectionInfo)
        requires
            old(self).wf(),
            i < old(self).connections@.len(),
            c.peer_id@ == old(self).connections@[i as int].peer_id@,
        ensures
            final(self).wf(),
            final(self).spec_connections() == old(self).spec_connections().insert(c.peer_id@, c@),
            final(self).spec_running() == old(self).spec_running(),
            final(self).spec_config() == old(self).spec_config(),
    {
        let ghost list = self.spec_conn_list();
        self.connections.set(i, c);
        proof {
            assert(list[i as int] == old(self).connections@[i as int]@);
            assert(self.spec_conn_list() =~= list.update(i as int, c@));
            lemma_keyed_map_update(list, conn_key(), i as int, c@);
        }
    }

    /// Record a connection to `address` opened at `now`, replacing one to
    /// the same peer; its peer id.
    pub fn register_connection(&mut self, address: &str, now: u64) -> (peer_id: String)
        requires
            old(self).wf(),
        ensures
            final(self).wf(),
            peer_id@ == peer_id_for_address_spec(address@),
            final(self).spec_connections() == old(self).spec_connections().insert(
                peer_id@,
                ConnectionView {
                    peer_id: peer_id@,
                    address: address@,
                    connected_at: now,
                    last_message: now,
                    messages_sent: 0,
                    messages_received: 0,
                },
            ),
            final(self).spec_running() == old(self).spec_running(),
            final(self).spec_config() == old(self).spec_config(),
    {
        let peer_id = peer_id_for_address(address);
        let info = ConnectionInfo {
            peer_id: peer_id.clone(),
            address: String::from_str(address),
            connected_at: now,
            last_message: now,
            messages_sent: 0,
            messages_received: 0,
        };
        match self.position(peer_id.as_str()) {
            Some(i) => {
                self.set_connection(i, info);
            },
            None => {
                let ghost list = self.spec_conn_list();
                let ghost v = info@;
                self.connections.push(info);
                proof {
                    assert(self.spec_conn_list() =~= list.push(v));
                    lemma_keys_distinct_push(list, conn_key(), v);
                    assert(list.push(v).drop_last() =~= list);
                }
            },
        }
        peer_id
    }

    /// Record that a connection was active at `now`; nothing for an
    /// unknown peer.
    pub fn touch(&mut self, peer_id: &str, now: u64)
        requires
            old(self).wf(),
        ensures
            final(self).wf(),
            final(self).spec_connections() == if old(self).spec_connections().contains_key(peer_id@) {
                old(self).spec_connections().insert(
                    peer_id@,
                    ConnectionView { last_message: now, ..old(self).spec_connections()[peer_id@] },
                )
            } else {
                old(self).spec_connections()
            },
            final(self).spec_running() == old(self).spec_running(),
            final(self).spec_config() == old(self).spec_config(),
    {
        match self.position(peer_id) {
            Some(i) => {
                let c = ConnectionInfo {
                    peer_id: self.connections[i].peer_id.clone(),
                    address: self.connections[i].address.clone(),
                    connected_at: self.connections[i].connected_at,
                    last_message: now,
                    messages_sent: self.connections[i].messages_sent,
                    messages_received: self.connections[i].messages_received,
                };
                self.set_connection(i, c);
            },
            None => {},
        }
    }

    /// Count a message sent (`sent`) or received through a peer's
    /// connection at `now`; nothing for an unknown peer.
    pub fn note_message(&mut self, peer_id: &str, sent: bool, now: u64)
        requires
            old(self).wf(),
            old(self).spec_connections().contains_key(peer_id@) ==> (if sent {
                old(self).spec_connections()[peer_id@].messages_sent < u64::MAX
            } else {
                old(self).spec_connections()[peer_id@].messages_received < u64::MAX
            }),
        ensures
            final(self).wf(),
            final(self).spec_connections() == if old(self).spec_connections().contains_key(peer_id@) {
                old(self).spec_connections().insert(
                    peer_id@,
                    after_message(old(self).spec_connections()[peer_id@], now, sent),
                )
            } else {
                old(self).spec_connections()
            },
            final(self).spec_running() == old(self).spec_running(),
            final(self).spec_config() == old(self).spec_config(),
    {
        match self.position(peer_id) {
            Some(i) => {
                let old_c = &self.connections[i];
                let c = ConnectionInfo {
                    peer_id: old_c.peer_id.clone(),
                    address: old_c.address.clone(),
                    connected_at: old_c.connected_at,
                    last_message: now,
                    messages_sent: if sent { old_c.messages_sent + 1 } else { old_c.messages_sent },
                    messages_received: if sent { old_c.messages_received } else { old_c.messages_received + 1 },
                };
                self.set_connection(i, c);
            },
            None => {},
        }
    }

    /// Forget a peer's connection.
    pub fn remove_connection(&mut self, peer_id: &str)
        requires
            old(self).wf(),
        ensures
            final(self).wf(),
            final(self).spec_connections() == old(self).spec_connections().remove(peer_id@),
            final(self).spec_running() == old(self).spec_running(),
            final(self).spec_config() == old(self).spec_config(),
    {
        match self.position(peer_id) {
            Some(i) => {
                let ghost list = self.spec_conn_list();
                self.connections.remove(i);
                proof {
                    assert(self.spec_conn_list() =~= list.remove(i as int));
                    lemma_keyed_map_remove(list, conn_key(), i as int);
                }
            },
            None => {
                proof {
                    assert(old(self).spec_connections().remove(peer_id@) =~= old(self).spec_connections());
                }
            },
        }
    }

    /// The peers with an open connection, in the order they connected.
    pub fn get_connected_peers(&self) -> (r: Vec<String>)
        ensures
            r@.map_values(|s: String| s@) == self.spec_conn_list().map_values(|c: ConnectionView| c.peer_id),
    {
        let mut out: Vec<String> = Vec::new();
        let mut i: usize = 0;
        while i < self.connections.len()
            invariant
                0 <= i <= self.connections@.len(),
                out@.map_values(|s: String| s@) == self.spec_conn_list().take(i as int).map_values(
                    |c: ConnectionView| c.peer_id,
                ),
            decreases self.connections@.len() - i,
        {
            let ghost before = out@;
            let id = self.connections[i].peer_id.clone();
            out.push(id);
            proof {
                assert(out@.map_values(|s: String| s@) =~= before.map_values(|s: String| s@).push(id@));
                assert(self.spec_conn_list()[i as int] == self.connections@[i as int]@);
                assert(self.spec_conn_list().take(i + 1) =~= self.spec_conn_list().take(i as int).push(
                    self.spec_conn_list()[i as int],
                ));
                assert(out@.map_values(|s: String| s@) =~= self.spec_conn_list().take(i + 1).map_values(
                    |c: ConnectionView| c.peer_id,
                ));
            }
            i = i + 1;
        }
        proof {
            assert(self.spec_conn_list().take(self.connections@.len() as int) =~= self.spec_conn_list());
        }
        out
    }

    /// The peers a broadcast goes to: every connected one, while running.
    pub fn broadcast_targets(&self) -> (r: Result<Vec<String>, TransportError>)
        ensures
            !self.spec_running() ==> r == Err::<Vec<String>, TransportError>(TransportError::NotRunning),
            self.spec_running() ==> (r matches Ok(v) && v@.map_values(|s: String| s@)
                == self.spec_conn_list().map_values(|c: ConnectionView| c.peer_id)),
    {
        if !self.running {
            return Err(TransportError::NotRunning);
        }
        Ok(self.get_connected_peers())
    }

    /// Transport statistics: the connections, and the messages sent and
    /// received over all of them.
    pub fn get_stats(&self) -> (r: TransportStats)
        requires
            self.wf(),
            total_sent(self.spec_conn_list()) <= u64::MAX,
            total_received(self.spec_conn_list()) <= u64::MAX,
        ensures
            r.connected_peers == self.spec_connections().len(),
            r.total_connections == self.spec_connections().len(),
            r.messages_sent == total_sent(self.spec_conn_list()),
            r.messages_received == total_received(self.spec_conn_list()),
    {
        let mut sent: u64 = 0;
        let mut received: u64 = 0;
        let mut i: usize = 0;
        while i < self.connections.len()
            invariant
                0 <= i <= self.connections@.len(),
                total_sent(self.spec_conn_list()) <= u64::MAX,
                total_received(self.spec_conn_list()) <= u64::MAX,
                sent == total_sent(self.spec_conn_list().take(i as int)),
                received == total_received(self.spec_conn_list().take(i as int)),
            decreases self.connections@.len() - i,
        {
            proof {
                let s = self.spec_conn_list();
                assert(s.take(i + 1).drop_last() =~= s.take(i as int));
                assert(s[i as int] == self.connections@[i as int]@);
                lemma_totals_prefix(s, i + 1);
            }
            sent = sent + self.connections[i].messages_sent;
            received = received + self.connections[i].messages_received;
            i = i + 1;
        }
        proof {
            assert(self.spec_conn_list().take(self.connections@.len() as int) =~= self.spec_conn_list());
            crate::keyed::lemma_keyed_map_len(self.spec_conn_list(), conn_key());
        }
        let n = self.connections.len();
        TransportStats { connected_peers: n, total_connections: n, messages_sent: sent, messages_received: received }
    }
}

/// The totals of a prefix are at most those of the whole.
proof fn lemma_totals_prefix(s: Seq<ConnectionView>, n: int)
    requires
        0 <= n <= s.len(),
    ensures
        total_sent(s.take(n)) <= total_sent(s),
        total_received(s.take(n)) <= total_received(s),
    decreases s.len(),
{
    if n < s.len() {
        assert(s.drop_last().take(n) =~= s.take(n));
        lemma_totals_prefix(s.drop_last(), n);
    } else {
        assert(s.take(n) =~= s);
    }
}

} // verus!
