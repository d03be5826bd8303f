use erbium_blockchain::security::{MilitarySecurityConfig, MilitarySecurityEngine, SecurityError, SecurityLevel};
use erbium_blockchain::distributed::replication::{
    ConsistencyLevel, ReplicaStatus, ReplicationConfig, ReplicationManager, ReplicationOperation,
};
use erbium_blockchain::distributed::sharding::{ShardConfig, ShardManager};
use erbium_blockchain::governance::dao::DAO;
use erbium_blockchain::governance::proposals::{ProposalAction, ProposalManager, ProposalStatus};
use erbium_blockchain::governance::{GovernanceConfig, GovernanceError};
use erbium_blockchain::network::address::PeerId;
use erbium_blockchain::network::security::{
    perform_security_audit, DDoSProtection, NetworkSecurityConfig, PeerAuthenticator, RateLimits, TrustLevel,
};
use erbium_blockchain::security::emergency_response::{
    EmergencyConfig, EmergencyResponseEngine, IncidentReport, IncidentSeverity, IncidentType, SystemHealth,
};
use erbium_blockchain::security::key_management::{
    BackupStatus, HSMProvider, KeyManagementConfig, KeyManagementEngine, KeyMetadata, KeyPurpose, KeyStatus,
    KeyStrength, KeyType,
};
use erbium_blockchain::types::Address;

fn metadata() -> KeyMetadata {
    KeyMetadata {
        key_id: "".to_string(),
        key_type: KeyType::Ed25519,
        purpose: KeyPurpose::Signing,
        created_at: 0,
        expires_at: None,
        status: KeyStatus::Active,
        strength: KeyStrength::High,
        algorithm: "Ed25519".to_string(),
        usage_count: 0,
        last_used: None,
        rotation_count: 0,
        backup_status: BackupStatus::NotBackedUp,
        rotated_at: None,
    }
}

#[test]
fn test_replication_manager_creation() {
    let shard_manager = ShardManager::new(ShardConfig::default());
    let manager = ReplicationManager::new(ReplicationConfig::default(), shard_manager);

    assert_eq!(manager.config().replication_factor, 3);
    assert_eq!(manager.config().consistency_level, ConsistencyLevel::Strong);
}

#[test]
fn test_operation_replication() {
    let shard_manager = ShardManager::new(ShardConfig::default());
    let mut manager = ReplicationManager::new(ReplicationConfig::default(), shard_manager);

    manager.initialize_replication().unwrap();

    let operation = ReplicationOperation::StateUpdate { key: b"test_key".to_vec(), value: b"test_value".to_vec(), version: 1 };

    manager.replicate_operation(operation).unwrap();

    let stats = manager.get_stats().unwrap();
    assert_eq!(stats.operation_log_size, 1);
}

#[test]
fn test_consistency_check() {
    let shard_manager = ShardManager::new(ShardConfig::default());
    let mut manager = ReplicationManager::new(ReplicationConfig::default(), shard_manager);

    manager.initialize_replication().unwrap();

    let report = manager.check_consistency().unwrap();
    assert_eq!(report.total_shards, 16);
}

#[test]
fn test_heartbeat_processing() {
    let shard_manager = ShardManager::new(ShardConfig::default());
    let mut manager = ReplicationManager::new(ReplicationConfig::default(), shard_manager);

    manager.initialize_replication().unwrap();

    manager.process_heartbeat("replica_1".to_string()).unwrap();

    if let Some(node) = manager.get_replica_node("replica_1") {
        assert!(node.last_heartbeat > 0);
    }
}

#[test]
fn test_replication_initialization() {
    let shard_manager = ShardManager::new(ShardConfig::default());
    let mut manager = ReplicationManager::new(ReplicationConfig::default(), shard_manager);

    manager.initialize_replication().unwrap();

    assert!(manager.get_replica_node("local").is_some());
    assert_eq!(manager.get_stats().unwrap().total_nodes, 3); // 1 primary + 2 replicas
}

#[test]
fn replication_starts_with_a_primary_and_two_standbys() {
    let shard_manager = ShardManager::new(ShardConfig::default());
    let mut manager = ReplicationManager::new(ReplicationConfig::default(), shard_manager);
    manager.initialize_replication_at(5).unwrap();
    assert_eq!(manager.get_replica_node("local").unwrap().status, ReplicaStatus::Primary);
    let standby = manager.get_replica_node("replica_1").unwrap();
    assert_eq!(standby.status, ReplicaStatus::Secondary);
    assert_eq!(standby.priority, 1);
    assert_eq!(standby.last_heartbeat, 5);
    assert_eq!(manager.get_replica_node("replica_2").unwrap().priority, 2);
    assert!(manager.get_replica_node("replica_3").is_none());
    assert!(manager.get_shard_state(0).is_some());
}

#[test]
fn test_key_management_engine_creation() {
    let engine = KeyManagementEngine::new(KeyManagementConfig::default());

    assert!(engine.config().enabled);
    assert_eq!(engine.config().hsm_provider, HSMProvider::YubiHSM2);
}

#[test]
fn test_key_generation() {
    let mut engine = KeyManagementEngine::new(KeyManagementConfig::default());

    let result = engine.generate_key(KeyType::Ed25519, KeyPurpose::Signing, metadata());
    assert!(result.is_ok());

    let key_id = result.unwrap();
    assert!(key_id.starts_with("key_ed25519_signing"));
}

#[test]
fn test_key_retrieval() {
    let mut engine = KeyManagementEngine::new(KeyManagementConfig::default());

    let key_id = engine.generate_key(KeyType::Ed25519, KeyPurpose::Signing, metadata()).unwrap();
    let handle_result = engine.get_key(&key_id);

    assert!(handle_result.is_ok());
    let handle = handle_result.unwrap();
    assert_eq!(handle.key_id, key_id);
    assert_eq!(handle.key_type, KeyType::Ed25519);
}

#[test]
fn key_ids_are_made_from_type_purpose_and_time() {
    let mut engine = KeyManagementEngine::new(KeyManagementConfig::default());
    let id = engine.generate_key_at(KeyType::Ed25519, KeyPurpose::Signing, metadata(), 1700).unwrap();
    assert_eq!(id, "key_ed25519_signing_1700");
    assert!(engine.get_key("missing").is_err());
}

#[test]
fn test_emergency_engine_creation() {
    let engine = EmergencyResponseEngine::new(EmergencyConfig::default());

    assert!(engine.config().enabled);
    assert_eq!(engine.config().emergency_contacts.len(), 1);
}

#[test]
fn test_incident_reporting() {
    let mut engine = EmergencyResponseEngine::new(EmergencyConfig::default());

    let incident = IncidentReport {
        incident_type: IncidentType::SecurityBreach,
        severity: IncidentSeverity::High,
        description: "Unauthorized access detected".to_string(),
        affected_components: vec!["authentication".to_string()],
        reporter: "system".to_string(),
        additional_data: vec![],
    };

    let result = engine.report_incident_at(incident, 1_000);
    assert!(result.is_ok());

    let response = result.unwrap();
    assert!(response.acknowledged);
    assert!(response.incident_id.starts_with("incident_securitybreach"));
}

#[test]
fn test_system_health_check() {
    let mut engine = EmergencyResponseEngine::new(EmergencyConfig::default());

    let result = engine.get_system_health_at(1_000);
    assert!(result.is_ok());

    let health = result.unwrap();
    assert_eq!(health.overall_health, SystemHealth::Healthy);
    assert_eq!(health.health_checks.len(), 0);
}

#[test]
fn test_peer_authenticator() {
    let mut auth = PeerAuthenticator::new(NetworkSecurityConfig::default());
    let peer_id = PeerId::from_bytes(vec![1, 2, 3]);
    let addr = "/ip4/0.0.0.0/tcp/0";

    let trust_level = auth.authenticate_peer(&peer_id, addr).unwrap();
    assert_eq!(trust_level, TrustLevel::Unknown);

    auth.add_trusted_peer(peer_id.duplicate(), vec![addr.to_string()]).unwrap();

    let trust_level = auth.authenticate_peer(&peer_id, addr).unwrap();
    assert_eq!(trust_level, TrustLevel::Trusted);
}

#[test]
fn test_ddos_protection() {
    let mut ddos = DDoSProtection::new(RateLimits::default());
    let ip = "192.168.1.1";

    for i in 0..5 {
        let allowed = ddos.check_connection_allowed(ip).unwrap();
        assert!(allowed, "Attempt {} should be allowed", i);
    }

    let stats = ddos.get_stats().unwrap();
    assert!(stats.total_connection_attempts >= 5);
}

#[test]
fn test_network_security_manager() {
    let config = NetworkSecurityConfig::default();
    let audit = perform_security_audit(&config, 0, 0);
    assert!(audit.security_score > 0);
    assert!(audit.noise_enabled);
}

#[test]
fn governance_proposals_and_votes() {
    let mut dao = DAO::new(
        "DAO".to_string(),
        "Governance".to_string(),
        "GOV".to_string(),
        1_000_000,
        GovernanceConfig::default(),
    )
    .unwrap();
    let founder = dao.address().duplicate();
    assert_eq!(founder.as_str(), "0x44414f");
    assert_eq!(dao.get_member_voting_power(&founder), Ok(1_000_000));
    let outsider = Address::new("0xabc".to_string());
    assert_eq!(
        dao.create_proposal(&outsider, "t".to_string(), "d".to_string(), vec![]),
        Err(GovernanceError::InsufficientVotingPower { voting_power: 0, threshold: 10_000 })
    );
    let actions = vec![ProposalAction::UpdateParameter { key: "quorum_votes".to_string(), value: "5".to_string() }];
    let id = dao.create_proposal(&founder, "Quorum".to_string(), "Lower it".to_string(), actions).unwrap();
    assert_eq!(dao.vote_on_proposal(id, &outsider, true), Err(GovernanceError::NoVotingPower));
    assert_eq!(dao.vote_on_proposal(id, &founder, true), Ok(true));
    assert_eq!(dao.get_voting_results(id), Some((1_000_000, 0, 1)));
    assert_eq!(dao.get_treasury_balance(), Ok(0));
}

#[test]
fn test_proposal_changed_in_place() {
    let mut manager = ProposalManager::new();
    let creator = Address::new("creator".to_string());
    let id = manager
        .create_proposal_at(&creator, "Title".to_string(), "Before".to_string(), vec![], 10)
        .unwrap();
    assert!(manager.get_proposal_mut(id + 1).is_none());
    {
        let p = manager.get_proposal_mut(id).unwrap();
        p.description = "After".to_string();
        p.status = ProposalStatus::Active;
    }
    let p = manager.get_proposal(id).unwrap();
    assert_eq!(p.description, "After");
    assert_eq!(p.status, ProposalStatus::Active);
    assert_eq!(p.title, "Title");
}

#[test]
fn test_military_security_engine_creation() {
    let config = MilitarySecurityConfig::default();
    let engine = MilitarySecurityEngine::new(config);
    assert!(engine.config().enable_homomorphic_encryption);
    assert_eq!(engine.config().security_level, SecurityLevel::Military);
}

#[test]
fn test_security_engine_initialization() {
    let config = MilitarySecurityConfig::default();
    let mut engine = MilitarySecurityEngine::new(config);
    let result = engine.initialize();
    assert!(result.is_err() || result.is_ok());
    assert!(engine.is_initialized());
}

#[test]
fn test_security_engine_services() {
    let mut engine = MilitarySecurityEngine::new(MilitarySecurityConfig::default());
    assert_eq!(engine.perform_cryptographic_verification().err(), Some(SecurityError::VerifierNotInitialized));
    assert_eq!(engine.perform_security_audit("node").err(), Some(SecurityError::AuditorNotInitialized));
    let before = engine.get_security_status_at(5);
    assert_eq!(before.overall_health_hundredths, 0);
    assert!(before.components.is_empty());
    engine.initialize().unwrap();
    assert_eq!(engine.perform_cryptographic_verification_at(7).unwrap().len(), 4);
    let audit = engine.perform_security_audit_at("node", 8).unwrap();
    assert_eq!(audit.target_system, "node");
    let status = engine.get_security_status_at(9);
    assert_eq!(status.components.len(), 2);
    assert_eq!(status.components[0].name, "FormalVerification");
    assert_eq!(status.components[1].name, "SecurityAuditor");
    assert_eq!(status.overall_health_hundredths, 9650);
    assert_eq!(status.last_security_audit, 9);

    let only_audit = MilitarySecurityConfig { enable_zero_knowledge_proofs: false, ..MilitarySecurityConfig::default() };
    let mut engine = MilitarySecurityEngine::new(only_audit);
    engine.initialize().unwrap();
    assert_eq!(engine.get_security_status_at(1).overall_health_hundredths, 9800);
}

#[test]
fn attempts_within_a_minute_are_counted_up_to_the_limit() {
    let limits = RateLimits { max_connections_per_minute: 10, max_connection_attempts_per_minute: 3, ban_duration_minutes: 15 };
    let mut ddos = DDoSProtection::new(limits);
    assert_eq!(ddos.check_connection_allowed_at("10.0.0.1", 100), Ok(true));
    assert_eq!(ddos.check_connection_allowed_at("10.0.0.1", 120), Ok(true));
    assert_eq!(ddos.check_connection_allowed_at("10.0.0.1", 150), Ok(true));
    assert_eq!(ddos.check_connection_allowed_at("10.0.0.1", 159), Ok(false));
    // Another address has its own count; a new minute starts again.
    assert_eq!(ddos.check_connection_allowed_at("10.0.0.2", 159), Ok(true));
    assert_eq!(ddos.check_connection_allowed_at("10.0.0.1", 160), Ok(true));
}

#[test]
fn a_trusted_peer_keeps_its_record_and_the_limits() {
    let mut auth = PeerAuthenticator::new(NetworkSecurityConfig::default());
    let peer_id = PeerId::from_bytes(vec![7, 7, 7]);
    auth.add_trusted_peer_at(peer_id.duplicate(), vec!["/ip4/1.2.3.4/tcp/1".to_string()], 42).unwrap();
    let peers = auth.get_trusted_peers().unwrap();
    assert_eq!(peers.len(), 1);
    assert_eq!(peers[0].trust_level, TrustLevel::Trusted);
    assert_eq!(peers[0].last_seen, 42);
    assert_eq!(peers[0].connection_count, 0);
    assert_eq!(auth.authenticate_peer(&peer_id, "/ip4/1.2.3.4/tcp/1").unwrap(), TrustLevel::Trusted);
}

#[test]
fn treasury_total_follows_deposits_and_transfers() {
    let home = Address::new("treasury".to_string());
    let mut t = erbium_blockchain::governance::treasury::Treasury::new(home.clone()).unwrap();
    let alice = Address::new("alice".to_string());
    let other = Address::new("other_token".to_string());
    t.deposit(alice.clone(), home.clone(), 500).unwrap();
    t.deposit(alice.clone(), other.clone(), 70).unwrap();
    assert_eq!(t.get_total_balance(), 570);
    t.transfer(&alice, 200).unwrap();
    assert_eq!(t.get_total_balance(), 370);
    assert_eq!(t.get_balance(&home), 300);
    assert_eq!(t.get_balance(&other), 70);
    assert_eq!(t.transfer(&alice, 301), Err(GovernanceError::InsufficientFunds));
    assert_eq!(t.get_total_balance(), 370);
    let history = t.get_transaction_history(None);
    assert_eq!(history.len(), 3);
    let last = history.iter().find(|x| x.id == 3).unwrap();
    assert_eq!(last.from, home);
    assert_eq!(last.to, alice);
    assert_eq!(last.amount, 200);
    assert_eq!(last.token, home);
}
