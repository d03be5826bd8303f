use erbium_blockchain::distributed::sharding::{ShardConfig, ShardManager};
use erbium_blockchain::security::emergency_response::{
    EmergencyContact, Incident, IncidentSeverity, IncidentStatus, IncidentType, NotificationEngine,
    NotificationMethod,
};

fn contact(name: &str, phone: Option<&str>, methods: Vec<NotificationMethod>) -> EmergencyContact {
    EmergencyContact {
        name: name.to_string(),
        email: format!("{}@example.org", name),
        phone: phone.map(|p| p.to_string()),
        role: "operator".to_string(),
        notification_methods: methods,
    }
}

fn incident() -> Incident {
    Incident {
        id: "inc_1".to_string(),
        incident_type: IncidentType::SystemFailure,
        severity: IncidentSeverity::High,
        description: "disk failure".to_string(),
        affected_components: vec![],
        detected_at: 1,
        status: IncidentStatus::Active,
        assigned_to: None,
        response_actions: vec![],
        resolution_notes: None,
        resolved_at: None,
        escalated: false,
    }
}

#[test]
fn test_notification_targets_in_contact_order() {
    let engine = NotificationEngine::new(vec![
        contact("ann", Some("+100"), vec![NotificationMethod::SMS, NotificationMethod::Email]),
        contact("bob", None, vec![NotificationMethod::SMS]),
        contact("cid", Some("+300"), vec![NotificationMethod::Slack]),
        contact("dan", Some("+400"), vec![NotificationMethod::SMS]),
    ]);
    let reached = engine.send_incident_notification(&incident()).unwrap();
    assert_eq!(reached, vec!["ann@example.org".to_string(), "+100".to_string(), "+400".to_string()]);
    let escalated = engine.send_escalation_notification(&incident()).unwrap();
    assert_eq!(escalated, reached);
}

#[test]
fn test_node_shards_of_local_node() {
    let manager = ShardManager::new(ShardConfig::default());
    let shards = manager.get_node_shards("local");
    assert_eq!(shards.len(), 16);
    for (i, s) in shards.iter().enumerate() {
        assert_eq!(s.id as usize, i);
    }
    assert!(manager.get_node_shards("remote").is_empty());
}
