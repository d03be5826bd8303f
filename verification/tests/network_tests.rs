use erbium_blockchain::network::firewall::{FirewallRule, NetworkFirewall};
use erbium_blockchain::network::address::{IpAddress, SocketAddress};
use erbium_blockchain::network::p2p_network::{
    block_request_batches, bootstrap_address, determine_advertised_socket, generate_peer_id, is_usable_detected_ip,
    listen_port, parse_bootstrap_address, parse_ipv4_text, parse_stun_response, select_bootstrap_peers,
    select_local_ip, BlockSummary, MessageOutcome, NetworkMessage, P2PConfig, P2PError, P2PNetwork, PeerInfo,
    TransactionSummary,
};
use erbium_blockchain::network::sync::{SyncManager, SyncStatus};
use erbium_blockchain::network::transport::{
    encode_frame, envelope_kind, peer_id_for_address, try_parse_frame, EnvelopeKind, FrameBuffer, P2PTransport,
    TransportConfig, TransportError,
};

fn block(hash: &str, number: u64) -> BlockSummary {
    BlockSummary { hash: hash.to_string(), number }
}

fn peer(id: &str, height: u64) -> PeerInfo {
    PeerInfo { peer_id: id.to_string(), address: "10.0.0.1:30303".to_string(), last_seen: 0, best_height: height, connected: true }
}

#[test]
fn test_p2p_network_creation() {
    let config = P2PConfig::default();
    let network = P2PNetwork::new(config, 4242);

    let stats = network.get_stats();
    assert_eq!(stats.connected_peers, 0);
    assert_eq!(stats.total_peers, 0);
}

#[test]
fn sync_batches_cover_the_missing_heights() {
    let batches = block_request_batches(10, 260);
    assert_eq!(batches, vec![(11, 100), (111, 100), (211, 50)]);
    assert!(block_request_batches(10, 10).is_empty());
    assert!(block_request_batches(10, 5).is_empty());
    assert_eq!(block_request_batches(0, 1), vec![(1, 1)]);
    assert_eq!(block_request_batches(0, 100), vec![(1, 100)]);
}

#[test]
fn sync_with_peer_queues_batched_requests() {
    let mut net = P2PNetwork::new(P2PConfig::default(), 1);
    net.add_peer(peer("peer_a", 150), 20);
    let out = net.take_outbox();
    assert_eq!(out.len(), 2);
    match (&out[0], &out[1]) {
        (
            NetworkMessage::BlockRequest { start_height: s0, count: c0 },
            NetworkMessage::BlockRequest { start_height: s1, count: c1 },
        ) => {
            assert_eq!((*s0, *c0), (21, 100));
            assert_eq!((*s1, *c1), (121, 30));
        },
        _ => panic!("expected block requests"),
    }
    net.sync_with_peer("unknown_peer", 5);
    assert!(net.take_outbox().is_empty());
}

#[test]
fn new_blocks_are_requested_appended_or_ignored() {
    let mut net = P2PNetwork::new(P2PConfig::default(), 1);
    match net.handle_new_block(block("b11", 11), 10) {
        MessageOutcome::AppendBlock(b) => assert_eq!(b.number, 11),
        _ => panic!("the next block is appended"),
    }
    assert!(matches!(net.handle_new_block(block("b11", 11), 10), MessageOutcome::Done));
    assert!(matches!(net.handle_new_block(block("b20", 20), 10), MessageOutcome::Done));
    let out = net.take_outbox();
    assert_eq!(out.len(), 1);
    assert!(matches!(out[0], NetworkMessage::BlockRequest { start_height: 11, count: 10 }));
    net.broadcast_block(block("b11", 11));
    assert!(net.take_outbox().is_empty());
    net.broadcast_block(block("b12", 12));
    assert_eq!(net.take_outbox().len(), 1);
    assert_eq!(net.get_stats().known_blocks, 3);
}

#[test]
fn transactions_are_remembered_once() {
    let mut net = P2PNetwork::new(P2PConfig::default(), 1);
    net.handle_new_transaction(TransactionSummary { hash: "t1".to_string() });
    assert!(net.take_outbox().is_empty());
    net.broadcast_transaction(TransactionSummary { hash: "t1".to_string() });
    assert!(net.take_outbox().is_empty());
    net.broadcast_transaction(TransactionSummary { hash: "t2".to_string() });
    assert_eq!(net.take_outbox().len(), 1);
    assert_eq!(net.get_stats().known_transactions, 2);
}

#[test]
fn messages_are_dispatched() {
    let mut net = P2PNetwork::new(P2PConfig::default(), 1);
    net.add_peer(peer("p", 3), 5);
    assert!(matches!(net.handle_message_at(NetworkMessage::Ping, "p", 5, 99), MessageOutcome::Done));
    let out = net.take_outbox();
    assert!(matches!(out[0], NetworkMessage::Pong));
    assert!(matches!(
        net.handle_message_at(NetworkMessage::PeerStatus { height: 9, peers: 1 }, "p", 5, 100),
        MessageOutcome::SyncWithPeer
    ));
    assert_eq!(net.peer_height("p"), 9);
    assert!(matches!(
        net.handle_message_at(NetworkMessage::PeerStatus { height: 4, peers: 1 }, "p", 5, 101),
        MessageOutcome::Done
    ));
    assert!(matches!(
        net.handle_message_at(NetworkMessage::BlockRequest { start_height: 2, count: 3 }, "p", 5, 102),
        MessageOutcome::LookupBlocks { start_height: 2, count: 3 }
    ));
    net.respond_with_blocks(vec![]);
    assert!(net.take_outbox().is_empty());
    net.respond_with_blocks(vec![block("x", 2)]);
    assert_eq!(net.take_outbox().len(), 1);
    net.remove_peer("p");
    assert_eq!(net.get_stats().total_peers, 0);
}

#[test]
fn bootstrap_addresses_are_parsed() {
    // The documented form `/ip4/IP/tcp/PORT/p2p/PEER_ID`, with or without
    // a trailing slash.
    let (sock, peer_id) = parse_bootstrap_address("/ip4/192.168.1.20/tcp/30303/p2p/12D3KooWabc").unwrap();
    assert_eq!(sock, SocketAddress::new(IpAddress::v4(192, 168, 1, 20), 30303));
    assert_eq!(peer_id, "12D3KooWabc");
    let (sock, peer_id) = parse_bootstrap_address("/ip4/192.168.1.20/tcp/30303/p2p/12D3KooWabc/").unwrap();
    assert_eq!(sock, SocketAddress::new(IpAddress::v4(192, 168, 1, 20), 30303));
    assert_eq!(peer_id, "12D3KooWabc");
    assert_eq!(
        parse_bootstrap_address("/ip4/192.168.1.20/tcp/30303/p2p").unwrap_err(),
        P2PError::InvalidBootstrapAddress
    );
    assert_eq!(parse_bootstrap_address("/ip6/::1/tcp/1/p2p/x/").unwrap_err(), P2PError::InvalidBootstrapAddress);
    assert_eq!(parse_bootstrap_address("/ip4/1.2.3/tcp/1/p2p/x/").unwrap_err(), P2PError::InvalidIpAddress);
    assert_eq!(parse_bootstrap_address("/ip4/1.2.3.4/tcp/70000/p2p/x/").unwrap_err(), P2PError::InvalidPort);
    assert_eq!(parse_bootstrap_address("/ip4/1.2.3.4/tcp").unwrap_err(), P2PError::InvalidBootstrapAddress);
}

#[test]
fn ipv4_text_follows_the_standard_grammar() {
    assert_eq!(parse_ipv4_text("10.0.0.255"), Some(IpAddress::v4(10, 0, 0, 255)));
    assert_eq!(parse_ipv4_text("0.0.0.0"), Some(IpAddress::v4(0, 0, 0, 0)));
    assert_eq!(parse_ipv4_text("256.0.0.1"), None);
    assert_eq!(parse_ipv4_text("01.2.3.4"), None);
    assert_eq!(parse_ipv4_text("1.2.3.4."), None);
    assert_eq!(parse_ipv4_text("a.b.c.d"), None);
}

#[test]
fn bootstrap_initialization_counts_added_nodes() {
    let mut config = P2PConfig::default();
    config.opportunistic_enabled = false;
    let mut net = P2PNetwork::new(config, 1);
    let none: Vec<String> = vec![];
    assert_eq!(net.initialize_dht_bootstrap(&none), Err(P2PError::NoBootstrapNodes));
    let peers = vec![
        "/ip4/10.0.0.1/tcp/30303/p2p/alpha/".to_string(),
        "garbage".to_string(),
        "/ip4/10.0.0.2/tcp/30304/p2p/beta/".to_string(),
    ];
    assert_eq!(net.initialize_dht_bootstrap(&peers), Ok(2));
    assert_eq!(net.dht().get_stats().total_contacts, 2);

    let mut open = P2PNetwork::new(P2PConfig::default(), 1);
    assert_eq!(open.initialize_dht_bootstrap(&none), Ok(0));
}

#[test]
fn bootstrap_selection_prefers_mainnet() {
    let m = vec!["m".to_string()];
    let t = vec!["t".to_string()];
    let d = vec!["d".to_string()];
    assert_eq!(select_bootstrap_peers(m.clone(), t.clone(), d.clone(), true).unwrap(), m);
    assert_eq!(select_bootstrap_peers(vec![], t.clone(), d.clone(), true).unwrap(), t);
    assert_eq!(select_bootstrap_peers(vec![], vec![], d.clone(), true).unwrap(), d);
    assert_eq!(select_bootstrap_peers(vec![], vec![], d, false).unwrap_err(), P2PError::NoBootstrapConfigured);
}

#[test]
fn stun_responses_give_the_mapped_address() {
    let mut buf = [0u8; 1024];
    buf[20] = 0x00;
    buf[21] = 0x20;
    buf[28] = 203 ^ 0x21;
    buf[29] = 0 ^ 0x12;
    buf[30] = 113 ^ 0xa4;
    buf[31] = 7 ^ 0x42;
    assert_eq!(parse_stun_response(&buf, 40), Some("203.0.113.7".to_string()));
    assert_eq!(parse_stun_response(&buf, 28), None);
    let empty = [0u8; 1024];
    assert_eq!(parse_stun_response(&empty, 100), None);
}

#[test]
fn advertised_address_choice() {
    let lo = IpAddress::v4(127, 0, 0, 1);
    let lan = IpAddress::v4(192, 168, 0, 9);
    assert_eq!(select_local_ip(true, &[lo, lan], None), Some(lan));
    assert_eq!(select_local_ip(true, &[lo], None), Some(lo));
    assert_eq!(select_local_ip(true, &[lo], Some(lan)), Some(lan));
    assert_eq!(select_local_ip(true, &[], None), None);
    let any = SocketAddress::new(IpAddress::v4(0, 0, 0, 0), 30303);
    assert_eq!(determine_advertised_socket(Some(any), &[lan], None), Some(SocketAddress::new(lan, 30303)));
    let zero_port = SocketAddress::new(lan, 0);
    assert_eq!(determine_advertised_socket(Some(zero_port), &[lan], None), None);
    assert_eq!(determine_advertised_socket(None, &[lan], None), None);
    assert!(is_usable_detected_ip("8.8.8.8"));
    assert!(!is_usable_detected_ip("127.0.0.1"));
    assert!(!is_usable_detected_ip("169.254.1.1"));
}

#[test]
fn announce_address_and_port() {
    assert_eq!(listen_port("0.0.0.0:4000"), 4000);
    assert_eq!(listen_port("/ip4/0.0.0.0/tcp/30303"), 30303);
    assert_eq!(listen_port("host:notaport"), 30303);
    assert_eq!(bootstrap_address("1.2.3.4", 30303, "12D3KooWx"), "/ip4/1.2.3.4/tcp/30303/p2p/12D3KooWx");
    let id = generate_peer_id("/ip4/0.0.0.0/tcp/30303", 7);
    assert!(id.starts_with("12D3KooW"));
    assert_eq!(id.len(), 8 + 32);
    assert_eq!(id, generate_peer_id("/ip4/0.0.0.0/tcp/30303", 7));
    assert_ne!(id, generate_peer_id("/ip4/0.0.0.0/tcp/30303", 8));
}

#[test]
fn opportunistic_discovery_plan() {
    let net = P2PNetwork::new(P2PConfig::default(), 1);
    let addr = SocketAddress::new(IpAddress::v4(10, 0, 0, 1), 30303);
    let plan = net.opportunistic_plan(Some(addr)).unwrap();
    assert_eq!(plan.port, 30303);
    assert_eq!(plan.max_packet_size, 2048);
    assert!(net.opportunistic_plan(None).is_none());
    let mut config = P2PConfig::default();
    config.opportunistic_enabled = false;
    let off = P2PNetwork::new(config, 1);
    assert!(off.opportunistic_plan(Some(addr)).is_none());
}

#[test]
fn test_transport_creation() {
    let transport = P2PTransport::new(TransportConfig::default());
    assert!(!transport.is_running());
}

#[test]
fn test_transport_start_stop() {
    let mut transport = P2PTransport::new(TransportConfig::default());
    transport.start();
    assert!(transport.is_running());
    transport.stop();
    assert!(!transport.is_running());
}

#[test]
fn transport_connections_and_counters() {
    let mut t = P2PTransport::new(TransportConfig { max_connections: 1, ..TransportConfig::default() });
    assert_eq!(t.check_connect(), Err(TransportError::NotRunning));
    assert_eq!(t.check_send(), Err(TransportError::NotRunning));
    t.start();
    assert_eq!(t.check_connect(), Ok(()));
    let id = t.register_connection("10.0.0.1:30303", 5);
    assert_eq!(id, "peer_10_0_0_1_30303");
    assert_eq!(t.check_connect(), Err(TransportError::MaxConnections));
    t.note_message(&id, true, 6);
    t.note_message(&id, false, 7);
    t.note_message(&id, false, 8);
    let stats = t.get_stats();
    assert_eq!(stats.connected_peers, 1);
    assert_eq!(stats.messages_sent, 1);
    assert_eq!(stats.messages_received, 2);
    assert_eq!(t.broadcast_targets().unwrap(), vec![id.clone()]);
    t.remove_connection(&id);
    assert_eq!(t.get_stats().total_connections, 0);
    assert_eq!(peer_id_for_address("a.b:c"), "peer_a_b_c");
}

#[test]
fn frames_round_trip() {
    let framed = encode_frame(b"hello");
    assert_eq!(framed, vec![0, 0, 0, 5, b'h', b'e', b'l', b'l', b'o']);
    let mut data = framed.clone();
    data.extend_from_slice(&[9, 9]);
    let (body, rest) = try_parse_frame(&data).unwrap();
    assert_eq!(body, b"hello".to_vec());
    assert_eq!(rest, vec![9, 9]);
    assert!(try_parse_frame(&[0, 0, 0]).is_none());
    assert!(try_parse_frame(&[0, 0, 0, 4, 1]).is_none());
    let mut buffer = FrameBuffer::new();
    buffer.extend(&framed[..3]);
    assert!(buffer.next_frame().is_none());
    buffer.extend(&framed[3..]);
    assert_eq!(buffer.next_frame().unwrap(), b"hello".to_vec());
    buffer.drop_frame();
    assert!(buffer.next_frame().is_none());
    assert_eq!(envelope_kind("ping"), Some(EnvelopeKind::Ping));
    assert_eq!(envelope_kind("new_block"), Some(EnvelopeKind::NewBlock));
    assert_eq!(envelope_kind("other"), None);
}

#[test]
fn sync_manager_steps() {
    let mut sync = SyncManager::new();
    assert_eq!(sync.get_status(), SyncStatus::Initializing);
    sync.start_sync(100);
    assert_eq!(sync.get_status(), SyncStatus::Syncing(0));
    assert_eq!(sync.sync_step(100), Some((101, 50)));
    assert_eq!(sync.get_status(), SyncStatus::Behind(10));
    assert_eq!(sync.heights_to_process(101, 50), (101..=110).collect::<Vec<u64>>());
    assert_eq!(sync.sync_step(110), None);
    assert!(sync.is_synced());
}

#[test]
fn test_firewall_ban_whitelist_and_rate_limit() {
    let mut fw = NetworkFirewall::new();
    let bad = IpAddress::v4(10, 0, 0, 66);
    let friend = IpAddress::v4(10, 0, 0, 7);
    assert_eq!(fw.check_connection_at(&bad, None, 1000), Ok(true));
    fw.ban_ip(bad, "flood");
    assert!(fw.is_ip_banned(&bad));
    assert_eq!(fw.check_connection_at(&bad, None, 1001), Ok(false));
    fw.whitelist_ip(friend);
    fw.ban_ip(friend, "ignored");
    assert!(!fw.is_ip_banned(&friend));
    assert_eq!(fw.check_connection_at(&friend, None, 1002), Ok(true));
    let limited = IpAddress::v4(10, 0, 0, 9);
    fw.add_ip_rule(limited, FirewallRule::RateLimit(2, 60_000));
    assert_eq!(fw.check_connection_at(&limited, None, 0), Ok(true));
    assert_eq!(fw.check_connection_at(&limited, None, 1), Ok(true));
    assert_eq!(fw.check_connection_at(&limited, None, 2), Ok(false));
    // A new window starts once the old one has passed.
    assert_eq!(fw.check_connection_at(&limited, None, 60_001), Ok(true));
}
