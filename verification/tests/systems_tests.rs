use sha2::Digest;
use erbium_blockchain::gpu::{GpuAccelerator, GpuConfig, HashAlgorithm};
use erbium_blockchain::network::address::{IpAddress, SocketAddress};
use erbium_blockchain::networking::rdma::{
    ConnectionState, MessagePriority, RdmaConfig, RdmaError, RdmaManager, RdmaMessage,
};
use erbium_blockchain::node::cli::Cli;
use erbium_blockchain::node::config::NodeConfig;
use erbium_blockchain::privacy::stealth_addresses::StealthAddressSystem;
use erbium_blockchain::privacy::PrivacyConfig;
use erbium_blockchain::security::audit_trail::{RiskLevel, SecurityAuditor};
use erbium_blockchain::security::security_audit::{
    AuditStatus, SecurityAuditor as ComponentAuditor, SecurityRiskLevel,
};

fn local_peer() -> SocketAddress {
    SocketAddress::new(IpAddress::v4(127, 0, 0, 1), 8333)
}

#[test]
fn test_rdma_manager_creation() {
    let config = RdmaConfig::default();
    let manager = RdmaManager::new(config);

    assert!(manager.config().enable_rdma);
    assert_eq!(manager.config().max_connections, 1000);
}

#[test]
fn test_rdma_connection() {
    let mut manager = RdmaManager::new(RdmaConfig::default());
    let connection_id = manager.connect(local_peer()).unwrap();
    let _ = connection_id;

    let stats = manager.get_stats();
    assert_eq!(stats.total_connections, 1);
    assert_eq!(stats.active_connections, 1);
}

#[test]
fn test_rdma_message_send() {
    let mut manager = RdmaManager::new(RdmaConfig::default());
    manager.connect(local_peer()).unwrap();

    let message = RdmaMessage::Transaction { data: vec![1, 2, 3, 4], priority: MessagePriority::Normal, requires_ack: false };
    manager.send_message_timed(local_peer(), message, 80).unwrap();

    let stats = manager.get_stats();
    assert_eq!(stats.messages_sent, 1);
    assert!(stats.bytes_sent > 0);
    assert_eq!(stats.bytes_sent, 104);
}

#[test]
fn test_rdma_transaction_send() {
    let mut manager = RdmaManager::new(RdmaConfig::default());
    manager.connect(local_peer()).unwrap();

    let tx_data = vec![0; 1024];
    manager.send_transaction_timed(local_peer(), tx_data, 100).unwrap();

    let conn_stats = manager.get_connection_stats(local_peer()).unwrap();
    assert!(conn_stats.bytes_sent > 0);
    assert_eq!(conn_stats.bytes_sent, 1124);
    assert_eq!(conn_stats.latency_us, 50);
}

#[test]
fn test_rdma_maintenance() {
    let mut manager = RdmaManager::new(RdmaConfig::default());
    manager.connect(local_peer()).unwrap();

    manager.perform_maintenance();

    let conn_stats = manager.get_connection_stats(local_peer()).unwrap();
    assert_eq!(conn_stats.state, ConnectionState::Connected);
}

#[test]
fn test_connection_close() {
    let mut manager = RdmaManager::new(RdmaConfig::default());
    manager.connect(local_peer()).unwrap();

    manager.close_connection(local_peer());

    let stats = manager.get_stats();
    assert_eq!(stats.active_connections, 0);
}

#[test]
fn rdma_refusals_and_maintenance_timeline() {
    let mut off = RdmaManager::new(RdmaConfig { enable_rdma: false, ..RdmaConfig::default() });
    assert_eq!(off.connect_at(local_peer(), 0, 1), Err(RdmaError::Disabled));
    let mut m = RdmaManager::new(RdmaConfig { max_connections: 1, ..RdmaConfig::default() });
    assert_eq!(m.connect_at(local_peer(), 1000, 7), Ok(7));
    assert_eq!(m.connect_at(local_peer(), 1000, 8), Err(RdmaError::MaxConnections));
    let other = SocketAddress::new(IpAddress::v4(10, 0, 0, 1), 1);
    let ack = RdmaMessage::Ack { message_id: 1, success: true };
    assert_eq!(m.send_message_timed(other, ack.clone(), 1), Err(RdmaError::NotFound));
    m.perform_maintenance_at(2500);
    let q = m.receive_messages();
    assert_eq!(q.len(), 1);
    assert_eq!(q[0].destination, local_peer());
    assert_eq!(m.get_stats().messages_received, 1);
    assert_eq!(m.get_stats().bytes_received, 50);
    m.perform_maintenance_at(9000);
    assert_eq!(m.get_connection_stats(local_peer()).unwrap().state, ConnectionState::Failed);
    assert_eq!(m.get_stats().failed_connections, 1);
    assert_eq!(m.send_message_timed(local_peer(), ack, 1), Err(RdmaError::NotReady));
    let mut big = RdmaManager::new(RdmaConfig { max_message_size: 10, ..RdmaConfig::default() });
    big.connect_at(local_peer(), 0, 1).unwrap();
    let tx = RdmaMessage::Transaction { data: vec![], priority: MessagePriority::Low, requires_ack: false };
    assert_eq!(big.send_message_timed(local_peer(), tx, 1), Err(RdmaError::TooLarge));
    let mut dup = RdmaManager::new(RdmaConfig::default());
    dup.connect_at(local_peer(), 0, 1).unwrap();
    assert_eq!(dup.connect_at(local_peer(), 0, 2), Err(RdmaError::AlreadyConnected));
    let mut b = RdmaManager::new(RdmaConfig::default());
    b.broadcast_message(&[local_peer(), other], &RdmaMessage::Ack { message_id: 2, success: false });
    assert_eq!(b.get_stats().messages_sent, 2);
    assert_eq!(b.get_stats().bytes_sent, 40);
}

#[test]
fn test_gpu_accelerator_creation() {
    let accelerator = GpuAccelerator::new(GpuConfig::default()).unwrap();
    assert!(accelerator.config().enable_gpu_acceleration);
}

#[test]
fn test_batch_hash_gpu() {
    let mut accelerator = GpuAccelerator::new(GpuConfig::default()).unwrap();

    let inputs = vec![b"test1".to_vec(), b"test2".to_vec(), b"test3".to_vec()];

    let hashes = accelerator.batch_hash_timed(&inputs, HashAlgorithm::Blake3, 1);
    assert_eq!(hashes.len(), 3);
    assert_ne!(hashes[0], hashes[1]);
    assert_ne!(hashes[1], hashes[2]);
    assert_eq!(hashes[0], *blake3::hash(b"test1").as_bytes());
}

#[test]
fn test_gpu_stats() {
    let mut accelerator = GpuAccelerator::new(GpuConfig::default()).unwrap();

    let inputs = vec![b"test".to_vec()];
    let _ = accelerator.batch_hash_timed(&inputs, HashAlgorithm::Blake3, 0);

    let stats = accelerator.get_stats();
    assert!(stats.total_operations >= 1);
    assert_eq!(stats.gpu_operations, 1);
}

#[test]
fn gpu_device_choice_and_fallback() {
    let acc = GpuAccelerator::new(GpuConfig::default()).unwrap();
    assert_eq!(acc.get_devices().len(), 2);
    assert_eq!(acc.get_active_device().unwrap().name, "AMD Radeon RX 7900 XTX");
    let pref = GpuAccelerator::new(GpuConfig { preferred_gpu_device: Some("NVIDIA".to_string()), ..GpuConfig::default() })
        .unwrap();
    assert_eq!(pref.get_active_device().unwrap().name, "NVIDIA RTX 4090");
    let none = GpuAccelerator::new(GpuConfig { preferred_gpu_device: Some("Intel".to_string()), ..GpuConfig::default() })
        .unwrap();
    assert!(!none.is_gpu_available());
    let mut off = GpuAccelerator::new(GpuConfig { enable_gpu_acceleration: false, ..GpuConfig::default() }).unwrap();
    let h = off.batch_hash_timed(&vec![b"abc".to_vec()], HashAlgorithm::Sha3, 5);
    let expected: [u8; 32] = sha3::Sha3_256::digest(b"abc").into();
    assert_eq!(h[0], expected);
    let k = off.batch_hash_timed(&vec![b"abc".to_vec()], HashAlgorithm::Keccak, 5);
    let expected_k: [u8; 32] = sha3::Keccak256::digest(b"abc").into();
    assert_eq!(k[0], expected_k);
    assert_eq!(off.get_stats().cpu_fallback_operations, 2);
    assert_eq!(off.get_stats().total_cpu_time_ms, 10);
    let verdicts = off.batch_verify_range_proofs_timed(&vec![vec![1u8], vec![2u8]], &vec![vec![3u8]], 0);
    let mut d = vec![1u8, 3u8];
    let expect0 = blake3::hash(&d).as_bytes()[0] & 1 == 0;
    d.clear();
    assert_eq!(verdicts, vec![expect0]);
}

#[test]
fn test_security_auditor_creation() {
    let auditor = SecurityAuditor::new();
    assert!(!auditor.security_policies().is_empty());
    assert!(!auditor.compliance_frameworks().is_empty());
}

#[test]
fn test_comprehensive_audit() {
    let mut auditor = SecurityAuditor::new();
    let result = auditor.perform_comprehensive_audit("test_system");

    assert!(!result.audit_id.is_empty());
    assert!(!result.findings.is_empty());
    assert!(result.compliance_score > 0);
    assert!(result.compliance_score <= 100);
}

#[test]
fn test_audit_history() {
    let mut auditor = SecurityAuditor::new();

    auditor.perform_comprehensive_audit("system1");
    auditor.perform_comprehensive_audit("system2");

    let history = auditor.get_audit_history();
    assert_eq!(history.len(), 2);

    let latest = auditor.get_latest_audit().unwrap();
    assert_eq!(latest.target_system, "system2");
}

#[test]
fn audit_results_are_rated_and_found_again() {
    let mut auditor = SecurityAuditor::new();
    let r = auditor.perform_comprehensive_audit_at("node", 1234);
    assert_eq!(r.audit_id, "audit_1234");
    assert_eq!(r.findings.len(), 7);
    assert_eq!(r.overall_risk_level, RiskLevel::Low);
    assert_eq!(r.recommendations, vec!["Continue current security practices".to_string()]);
    assert_eq!(r.compliance_score, 100);
    assert_eq!(auditor.find_audit("audit_1234").unwrap().target_system, "node");
    assert!(auditor.find_audit("audit_0").is_err());
}

#[test]
fn test_security_audit_creation() {
    let auditor = ComponentAuditor::new();
    assert!(auditor.is_ok());
}

#[test]
fn test_full_security_audit() {
    let mut auditor = ComponentAuditor::new().unwrap();
    let report = auditor.perform_full_audit(true, 1952);

    assert!(report.total_issues > 0);
    assert!(report.recommendations.len() > 0);
    assert!(report.critical_issues >= 1);
    assert!(report.high_issues >= 3);
}

#[test]
fn test_cryptographic_audit() {
    let mut auditor = ComponentAuditor::new().unwrap();
    auditor.audit_cryptographic_security_at(0, true, 1952);
    assert!(auditor.audit_results().len() >= 2);
}

#[test]
fn component_audit_report_in_detail() {
    let mut auditor = ComponentAuditor::new().unwrap();
    let report = auditor.perform_full_audit_at(77, true, 1952);
    assert_eq!(report.total_issues, 17);
    assert_eq!(report.critical_issues, 2);
    assert_eq!(report.high_issues, 6);
    assert_eq!(report.medium_issues, 5);
    assert_eq!(report.info_items, 4);
    assert_eq!(report.failed_checks, 1);
    assert_eq!(report.overall_risk_level, SecurityRiskLevel::Critical);
    assert_eq!(
        report.recommendations[0],
        "[CRITICAL] Storage: Implement AES-256 encryption for all persistent storage"
    );
    assert_eq!(report.recommendations.len(), 5);
    assert!(!report.passed());
    assert_eq!(report.total_issues(), 13);
    let mut weak = ComponentAuditor::new().unwrap();
    weak.audit_cryptographic_security_at(0, false, 10);
    let results = weak.audit_results();
    assert_eq!(results.len(), 3);
    assert_eq!(results[1].status, AuditStatus::Fail);
}

#[test]
fn node_configuration_from_the_command_line() {
    let d = NodeConfig::default();
    assert_eq!(d.network, "mainnet");
    assert_eq!(d.port, 3030);
    assert_eq!(d.chain_id, 1337);
    let cli = Cli {
        network: "testnet".to_string(),
        port: 1,
        rpc_port: 2,
        rest_port: 3,
        data_dir: "/tmp/x".to_string(),
        max_peers: 4,
        enable_mining: true,
        log_level: "debug".to_string(),
    };
    let c = cli.to_config();
    assert_eq!(c.network, "testnet");
    assert_eq!(c.max_peers, 4);
    assert!(c.enable_mining);
    assert_eq!(c.asset_symbol, "ERB");
    assert_eq!(c.asset_decimals, 8);
}

#[test]
fn stealth_metadata_framing_and_derivations() {
    let p = PrivacyConfig::default();
    assert_eq!(p.max_confidential_amount, 1_000_000_000);
    let s = StealthAddressSystem::new();
    let framed = s.encode_stealth_payload(&[1, 2, 3]);
    assert_eq!(framed, vec![b'S', b'T', b'L', b'H', 1, 2, 3]);
    assert_eq!(s.extract_stealth_payload(&framed), Some(vec![1, 2, 3]));
    assert_eq!(s.extract_stealth_payload(b"XXXX12"), None);
    assert_eq!(s.extract_stealth_payload(b"ST"), None);
    let addr = s.derive_address_from_public_key(&[7u8; 32]);
    assert!(addr.starts_with("0x"));
    assert_eq!(addr.len(), 42);
    let mut h = sha2::Sha512::new();
    h.update(b"erbium_stealth_address_v1");
    h.update(b"address_derivation");
    h.update([7u8; 32]);
    let digest = h.finalize();
    assert_eq!(addr, format!("0x{}", hex::encode(&digest[..20])));
    assert_eq!(s.derive_view_tag(&[9u8; 32]), 9);
    let scalar = s.hash_to_scalar(b"ctx", b"data");
    assert_eq!(scalar, s.hash_to_scalar(b"ctx", b"data"));
}
