//! Opportunistic peer discovery on the local network: nodes broadcast a
//! small packet naming themselves, and listeners register the senders as
//! contacts. The sockets and timers are the caller's; this module builds
//! the packets and decides what a received one means.
use vstd::prelude::*;
use crate::crypto::{hex_decoded, hex_lower};
use crate::network::address::SocketAddress;
use crate::network::dht::{buckets_after_insert, Contact, NodeId, DHT};

verus! {

/// The tag every discovery packet carries.
pub const DISCOVERY_MAGIC: &'static str = "ERBIUM_OPPORTUNISTIC_V1";

/// Where and how often to broadcast, and the largest packet read.
#[derive(Debug, Clone, Copy, PartialEq, Eq, Structural)]
pub struct OpportunisticDiscoveryConfig {
    pub port: u16,
    pub interval_ms: u64,
    pub max_packet_size: usize,
}

impl Default for OpportunisticDiscoveryConfig {
    /// Port 30303, every five seconds, packets of up to 2048 bytes.
    fn default() -> (r: OpportunisticDiscoveryConfig)
        ensures
            r == (OpportunisticDiscoveryConfig { port: 30_303, interval_ms: 5000, max_packet_size: 2048 }),
    {
        OpportunisticDiscoveryConfig { port: 30_303, interval_ms: 5000, max_packet_size: 2048 }
    }
}

/// A discovery packet: the tag, the sender's node id in hexadecimal, the
/// address it can be reached at, and when it was sent (seconds).
#[derive(Debug, Clone)]
pub struct DiscoveryPacket {
    pub magic: String,
    pub node_id: String,
    pub address: String,
    pub timestamp: u64,
}

/// What a received packet means.
#[derive(Debug, Clone, Copy)]
pub enum PacketDecision {
    /// Not a discovery packet, or our own.
    Ignore,
    /// The sender's node id is not 40 hexadecimal digits.
    InvalidNodeId,
    /// A peer to register, at the address it advertised or else where the
    /// packet came from.
    Register { node_id: NodeId, address: SocketAddress },
}

/// What registering `remote_node_id` at `advertised`, discovered at clock
/// reading `now`, makes of the routing table `pre`: the peer is known as a
/// bootstrap node (unless it is this node) and inserted into its k-bucket.
pub open spec fn registered_outcome(pre: DHT, post: DHT, remote_node_id: NodeId, advertised: SocketAddress, now: u64) -> bool {
    &&& post.spec_node_id() == pre.spec_node_id()
    &&& post.spec_config() == pre.spec_config()
    &&& post.spec_queries() == pre.spec_queries()
    &&& remote_node_id@ != pre.spec_node_id() ==> post.spec_known().to_set() == pre.spec_known().to_set().insert(remote_node_id@)
    &&& remote_node_id@ == pre.spec_node_id() ==> post.spec_known() == pre.spec_known()
    &&& ({
        let c = Contact { node_id: remote_node_id, address: advertised, last_seen: now, failures: 0 };
        let k = pre.spec_config().k as nat;
        let me = pre.spec_node_id();
        post.spec_buckets() == if remote_node_id@ != me {
            buckets_after_insert(buckets_after_insert(pre.spec_buckets(), me, k, c), me, k, c)
        } else {
            buckets_after_insert(pre.spec_buckets(), me, k, c)
        }
    })
}

/// The broadcaster: nodes that broadcast discovery packets.
pub struct OpportunisticDiscovery;

impl OpportunisticDiscovery {
    /// The packet a node broadcasts at time `timestamp`.
    pub fn build_packet(node_id: &NodeId, advertised_address: String, timestamp: u64) -> (r: DiscoveryPacket)
        ensures
            r.magic@ == DISCOVERY_MAGIC@,
            r.node_id@ == hex_lower(node_id@),
            r.address@ == advertised_address@,
            r.timestamp == timestamp,
    {
        DiscoveryPacket {
            magic: String::from_str(DISCOVERY_MAGIC),
            node_id: node_id.to_hex(),
            address: advertised_address,
            timestamp,
        }
    }

    /// What a packet from `source` means to the node `own_id`; `advertised`
    /// is the packet's address where it parses as a socket address.
    pub fn classify_packet(
        packet: &DiscoveryPacket,
        own_id: &NodeId,
        advertised: Option<SocketAddress>,
        source: SocketAddress,
    ) -> (r: PacketDecision)
        ensures
            packet.magic@ != DISCOVERY_MAGIC@ ==> r is Ignore,
            packet.magic@ == DISCOVERY_MAGIC@ && packet.node_id@ == hex_lower(own_id@) ==> r is Ignore,
            packet.magic@ == DISCOVERY_MAGIC@ && packet.node_id@ != hex_lower(own_id@) ==> match hex_decoded(
                vstd::utf8::encode_utf8(packet.node_id@),
            ) {
                Some(b) => if b.len() == 20 {
                    r matches PacketDecision::Register { node_id, address } && node_id@ == b && address == match advertised {
                        Some(a) => a,
                        None => source,
                    }
                } else {
                    r is InvalidNodeId
                },
                None => r is InvalidNodeId,
            },
    {
        let magic = String::from_str(DISCOVERY_MAGIC);
        if packet.magic != magic {
            return PacketDecision::Ignore;
        }
        if packet.node_id == own_id.to_hex() {
            return PacketDecision::Ignore;
        }
        match NodeId::from_hex(packet.node_id.as_str()) {
            Ok(node_id) => {
                let address = match advertised {
                    Some(a) => a,
                    None => source,
                };
                PacketDecision::Register { node_id, address }
            },
            Err(_) => PacketDecision::InvalidNodeId,
        }
    }

    /// Registers a peer discovered at clock reading `now` as a contact: as a
    /// bootstrap node (a refusal, for our own id, is ignored) and in its
    /// k-bucket.
    pub fn register_contact_at(dht: &mut DHT, remote_node_id: NodeId, advertised: SocketAddress, now: u64)
        requires
            old(dht).wf(),
        ensures
            final(dht).wf(),
            registered_outcome(*old(dht), *final(dht), remote_node_id, advertised, now),
    {
        let contact = Contact { node_id: remote_node_id, address: advertised, last_seen: now, failures: 0 };
        let _ = dht.add_bootstrap_node(contact);
        dht.insert_contact(contact);
    }

    /// Registers a peer discovered now as a contact.
    pub fn register_contact(dht: &mut DHT, remote_node_id: NodeId, advertised: SocketAddress)
        requires
            old(dht).wf(),
        ensures
            final(dht).wf(),
            exists|now: u64| #[trigger] registered_outcome(*old(dht), *final(dht), remote_node_id, advertised, now),
    {
        let now = crate::clock::now_millis();
        Self::register_contact_at(dht, remote_node_id, advertised, now);
    }
}

} // verus!
