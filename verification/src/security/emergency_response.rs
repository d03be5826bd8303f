//! Emergency response: incidents and their lifecycle, the circuit breaker,
//! health checks, emergency procedures and incident reports. Events for
//! the notification side are queued in an outbox that the caller drains.
//! Times are seconds since the UNIX epoch.
use vstd::prelude::*;
use crate::encoding::{decimal_chars, u64_to_string};
use crate::keyed::{keyed_map, keys_distinct, lemma_keyed_map_absent, lemma_keyed_map_index, lemma_keyed_map_update, lemma_keys_distinct_push};
use crate::types::copy_strings;

verus! {

/// Incident types
#[derive(Debug, Clone, Copy, PartialEq, Eq, Structural)]
pub enum IncidentType {
    SecurityBreach,
    SystemFailure,
    NetworkAttack,
    DataCorruption,
    ConsensusFailure,
    BridgeFailure,
    PerformanceDegradation,
    ComplianceViolation,
    Other,
}

/// Incident severity levels, least severe first.
#[derive(Debug, Clone, Copy, PartialEq, Eq, Structural)]
pub enum IncidentSeverity {
    Low,
    Medium,
    High,
    Critical,
}

/// Incident status
#[derive(Debug, Clone, Copy, PartialEq, Eq, Structural)]
pub enum IncidentStatus {
    Active,
    Investigating,
    Mitigating,
    Resolved,
    Closed,
}

/// Emergency procedure types
#[derive(Debug, Clone, Copy, PartialEq, Eq, Structural)]
pub enum EmergencyProcedureType {
    SystemShutdown,
    IsolateComponent,
    Failover,
    SecurityLockdown,
}

/// System health levels
#[derive(Debug, Clone, Copy, PartialEq, Eq, Structural)]
pub enum SystemHealth {
    Healthy,
    Warning,
    Degraded,
    Critical,
}

/// Notification methods
#[derive(Debug, Clone, Copy, PartialEq, Eq, Structural)]
pub enum NotificationMethod {
    Email,
    SMS,
    Phone,
    Slack,
    PagerDuty,
}

/// Circuit breaker action
#[derive(Debug, Clone, Copy, PartialEq, Eq, Structural)]
pub enum CircuitBreakerAction {
    Tripped,
    Reset,
}

/// The rank of a severity: 0 for low up to 3 for critical.
pub open spec fn severity_rank(s: IncidentSeverity) -> int {
    match s {
        IncidentSeverity::Low => 0,
        IncidentSeverity::Medium => 1,
        IncidentSeverity::High => 2,
        IncidentSeverity::Critical => 3,
    }
}

/// `a` is at least as severe as `b`.
pub fn severity_at_least(a: IncidentSeverity, b: IncidentSeverity) -> (r: bool)
    ensures
        r == (severity_rank(a) >= severity_rank(b)),
{
    let ra: u8 = match a {
        IncidentSeverity::Low => 0,
        IncidentSeverity::Medium => 1,
        IncidentSeverity::High => 2,
        IncidentSeverity::Critical => 3,
    };
    let rb: u8 = match b {
        IncidentSeverity::Low => 0,
        IncidentSeverity::Medium => 1,
        IncidentSeverity::High => 2,
        IncidentSeverity::Critical => 3,
    };
    ra >= rb
}

/// The name of an incident type, as written.
pub open spec fn incident_type_text(t: IncidentType) -> Seq<char> {
    match t {
        IncidentType::SecurityBreach => "SecurityBreach"@,
        IncidentType::SystemFailure => "SystemFailure"@,
        IncidentType::NetworkAttack => "NetworkAttack"@,
        IncidentType::DataCorruption => "DataCorruption"@,
        IncidentType::ConsensusFailure => "ConsensusFailure"@,
        IncidentType::BridgeFailure => "BridgeFailure"@,
        IncidentType::PerformanceDegradation => "PerformanceDegradation"@,
        IncidentType::ComplianceViolation => "ComplianceViolation"@,
        IncidentType::Other => "Other"@,
    }
}

/// The name of an incident type in lower case.
pub open spec fn incident_type_lower(t: IncidentType) -> Seq<char> {
    match t {
        IncidentType::SecurityBreach => "securitybreach"@,
        IncidentType::SystemFailure => "systemfailure"@,
        IncidentType::NetworkAttack => "networkattack"@,
        IncidentType::DataCorruption => "datacorruption"@,
        IncidentType::ConsensusFailure => "consensusfailure"@,
        IncidentType::BridgeFailure => "bridgefailure"@,
        IncidentType::PerformanceDegradation => "performancedegradation"@,
        IncidentType::ComplianceViolation => "complianceviolation"@,
        IncidentType::Other => "other"@,
    }
}

/// The name of a severity, as written.
pub open spec fn severity_name(s: IncidentSeverity) -> Seq<char> {
    match s {
        IncidentSeverity::Low => "Low"@,
        IncidentSeverity::Medium => "Medium"@,
        IncidentSeverity::High => "High"@,
        IncidentSeverity::Critical => "Critical"@,
    }
}

/// The name of a status, as written.
pub open spec fn status_name(s: IncidentStatus) -> Seq<char> {
    match s {
        IncidentStatus::Active => "Active"@,
        IncidentStatus::Investigating => "Investigating"@,
        IncidentStatus::Mitigating => "Mitigating"@,
        IncidentStatus::Resolved => "Resolved"@,
        IncidentStatus::Closed => "Closed"@,
    }
}

impl IncidentType {
    /// The type's name, as written.
    pub fn name(&self) -> (r: &'static str)
        ensures
            r@ == incident_type_text(*self),
    {
        match self {
            IncidentType::SecurityBreach => "SecurityBreach",
            IncidentType::SystemFailure => "SystemFailure",
            IncidentType::NetworkAttack => "NetworkAttack",
            IncidentType::DataCorruption => "DataCorruption",
            IncidentType::ConsensusFailure => "ConsensusFailure",
            IncidentType::BridgeFailure => "BridgeFailure",
            IncidentType::PerformanceDegradation => "PerformanceDegradation",
            IncidentType::ComplianceViolation => "ComplianceViolation",
            IncidentType::Other => "Other",
        }
    }

    /// The type's name in lower case.
    pub fn lower_name(&self) -> (r: &'static str)
        ensures
            r@ == incident_type_lower(*self),
    {
        match self {
            IncidentType::SecurityBreach => "securitybreach",
            IncidentType::SystemFailure => "systemfailure",
            IncidentType::NetworkAttack => "networkattack",
            IncidentType::DataCorruption => "datacorruption",
            IncidentType::ConsensusFailure => "consensusfailure",
            IncidentType::BridgeFailure => "bridgefailure",
            IncidentType::PerformanceDegradation => "performancedegradation",
            IncidentType::ComplianceViolation => "complianceviolation",
            IncidentType::Other => "other",
        }
    }
}

impl IncidentSeverity {
    /// The severity's name, as written.
    pub fn name(&self) -> (r: &'static str)
        ensures
            r@ == severity_name(*self),
    {
        match self {
            IncidentSeverity::Low => "Low",
            IncidentSeverity::Medium => "Medium",
            IncidentSeverity::High => "High",
            IncidentSeverity::Critical => "Critical",
        }
    }
}

impl IncidentStatus {
    /// The status's name, as written.
    pub fn name(&self) -> (r: &'static str)
        ensures
            r@ == status_name(*self),
    {
        match self {
            IncidentStatus::Active => "Active",
            IncidentStatus::Investigating => "Investigating",
            IncidentStatus::Mitigating => "Mitigating",
            IncidentStatus::Resolved => "Resolved",
            IncidentStatus::Closed => "Closed",
        }
    }
}

/// The text of a list of strings.
pub open spec fn texts(v: Seq<String>) -> Seq<Seq<char>> {
    v.map_values(|s: String| s@)
}

/// The text of an optional string.
pub open spec fn opt_text(o: Option<String>) -> Option<Seq<char>> {
    match o {
        Some(s) => Some(s@),
        None => None,
    }
}

/// A copy of an optional string.
fn copy_opt(o: &Option<String>) -> (r: Option<String>)
    ensures
        opt_text(r) == opt_text(*o),
{
    match o {
        Some(s) => Some(s.clone()),
        None => None,
    }
}

/// Emergency contact
#[derive(Debug, Clone)]
pub struct EmergencyContact {
    pub name: String,
    pub email: String,
    pub phone: Option<String>,
    pub role: String,
    pub notification_methods: Vec<NotificationMethod>,
}

/// Emergency response configuration
#[derive(Debug, Clone)]
pub struct EmergencyConfig {
    pub enabled: bool,
    pub auto_response_enabled: bool,
    pub circuit_breaker_enabled: bool,
    pub emergency_notification_enabled: bool,
    pub max_concurrent_incidents: usize,
    pub incident_timeout_seconds: u64,
    pub escalation_threshold: IncidentSeverity,
    pub emergency_contacts: Vec<EmergencyContact>,
    pub system_health_checks: Vec<String>,
}

impl Default for EmergencyConfig {
    /// Everything on; at most 10 concurrent incidents, timing out after an
    /// hour; escalation from high severity; the security team as the one
    /// contact; four health checks.
    fn default() -> (r: EmergencyConfig)
        ensures
            r.enabled && r.auto_response_enabled && r.circuit_breaker_enabled && r.emergency_notification_enabled,
            r.max_concurrent_incidents == 10,
            r.incident_timeout_seconds == 3600,
            r.escalation_threshold == IncidentSeverity::High,
            r.emergency_contacts@.len() == 1,
            texts(r.system_health_checks@) == seq![
                "node_connectivity"@,
                "database_health"@,
                "consensus_health"@,
                "bridge_connectivity"@,
            ],
    {
        let mut contacts: Vec<EmergencyContact> = Vec::new();
        let mut methods: Vec<NotificationMethod> = Vec::new();
        methods.push(NotificationMethod::Email);
        methods.push(NotificationMethod::SMS);
        contacts.push(
            EmergencyContact {
                name: String::from_str("Security Team"),
                email: String::from_str("security@erbium.io"),
                phone: Some(String::from_str("+1-555-0100")),
                role: String::from_str("Primary"),
                notification_methods: methods,
            },
        );
        let mut checks: Vec<String> = Vec::new();
        checks.push(String::from_str("node_connectivity"));
        checks.push(String::from_str("database_health"));
        checks.push(String::from_str("consensus_health"));
        checks.push(String::from_str("bridge_connectivity"));
        assert(texts(checks@) =~= seq![
            "node_connectivity"@,
            "database_health"@,
            "consensus_health"@,
            "bridge_connectivity"@,
        ]);
        EmergencyConfig {
            enabled: true,
            auto_response_enabled: true,
            circuit_breaker_enabled: true,
            emergency_notification_enabled: true,
            max_concurrent_incidents: 10,
            incident_timeout_seconds: 3600,
            escalation_threshold: IncidentSeverity::High,
            emergency_contacts: contacts,
            system_health_checks: checks,
        }
    }
}

/// Incident report
#[derive(Debug, Clone)]
pub struct IncidentReport {
    pub incident_type: IncidentType,
    pub severity: IncidentSeverity,
    pub description: String,
    pub affected_components: Vec<String>,
    pub reporter: String,
    pub additional_data: Vec<(String, String)>,
}

/// Incident record
#[derive(Debug, Clone)]
pub struct Incident {
    pub id: String,
    pub incident_type: IncidentType,
    pub severity: IncidentSeverity,
    pub description: String,
    pub affected_components: Vec<String>,
    pub detected_at: u64,
    pub status: IncidentStatus,
    pub assigned_to: Option<String>,
    pub response_actions: Vec<String>,
    pub resolution_notes: Option<String>,
    pub resolved_at: Option<u64>,
    pub escalated: bool,
}

/// The view of an incident.
pub struct IncidentView {
    pub id: Seq<char>,
    pub incident_type: IncidentType,
    pub severity: IncidentSeverity,
    pub description: Seq<char>,
    pub affected_components: Seq<Seq<char>>,
    pub detected_at: u64,
    pub status: IncidentStatus,
    pub assigned_to: Option<Seq<char>>,
    pub response_actions: Seq<Seq<char>>,
    pub resolution_notes: Option<Seq<char>>,
    pub resolved_at: Option<u64>,
    pub escalated: bool,
}

impl View for Incident {
    type V = IncidentView;

    open spec fn view(&self) -> IncidentView {
        IncidentView {
            id: self.id@,
            incident_type: self.incident_type,
            severity: self.severity,
            description: self.description@,
            affected_components: texts(self.affected_components@),
            detected_at: self.detected_at,
            status: self.status,
            assigned_to: opt_text(self.assigned_to),
            response_actions: texts(self.response_actions@),
            resolution_notes: opt_text(self.resolution_notes),
            resolved_at: self.resolved_at,
            escalated: self.escalated,
        }
    }
}

impl Incident {
    /// A copy of the incident.
    pub fn duplicate(&self) -> (r: Incident)
        ensures
            r@ == self@,
    {
        Incident {
            id: self.id.clone(),
            incident_type: self.incident_type,
            severity: self.severity,
            description: self.description.clone(),
            affected_components: copy_strings(&self.affected_components),
            detected_at: self.detected_at,
            status: self.status,
            assigned_to: copy_opt(&self.assigned_to),
            response_actions: copy_strings(&self.response_actions),
            resolution_notes: copy_opt(&self.resolution_notes),
            resolved_at: self.resolved_at,
            escalated: self.escalated,
        }
    }
}

/// Incident response
#[derive(Debug, Clone)]
pub struct IncidentResponse {
    pub incident_id: String,
    pub acknowledged: bool,
    pub estimated_resolution_time: u64,
    pub auto_actions_taken: Vec<String>,
    pub manual_intervention_required: bool,
}

/// Emergency procedure
#[derive(Debug, Clone)]
pub struct EmergencyProcedure {
    pub procedure_id: String,
    pub procedure_type: EmergencyProcedureType,
    pub target_components: Vec<String>,
    pub reason: String,
    pub initiated_by: String,
    pub requires_approval: bool,
}

/// Procedure execution result
#[derive(Debug, Clone)]
pub struct ProcedureExecutionResult {
    pub procedure_id: String,
    pub success: bool,
    pub actions_taken: Vec<String>,
    pub errors: Vec<String>,
    pub execution_time_seconds: u64,
}

/// Health check result
#[derive(Debug, Clone)]
pub struct HealthCheckResult {
    pub check_name: String,
    pub healthy: bool,
    pub last_checked: u64,
    pub response_time_ms: u64,
    pub error_message: Option<String>,
}

/// The view of a health check: name, healthy, last checked, response time,
/// error message.
pub type CheckView = (Seq<char>, bool, u64, u64, Option<Seq<char>>);

impl View for HealthCheckResult {
    type V = CheckView;

    open spec fn view(&self) -> CheckView {
        (self.check_name@, self.healthy, self.last_checked, self.response_time_ms, opt_text(self.error_message))
    }
}

impl HealthCheckResult {
    /// A copy of the check.
    pub fn duplicate(&self) -> (r: HealthCheckResult)
        ensures
            r@ == self@,
    {
        HealthCheckResult {
            check_name: self.check_name.clone(),
            healthy: self.healthy,
            last_checked: self.last_checked,
            response_time_ms: self.response_time_ms,
            error_message: copy_opt(&self.error_message),
        }
    }
}

/// System health status
#[derive(Debug, Clone)]
pub struct SystemHealthStatus {
    pub overall_health: SystemHealth,
    pub health_checks: Vec<HealthCheckResult>,
    pub circuit_breaker_tripped: bool,
    pub active_incidents_count: usize,
    pub last_health_check: u64,
}

/// Circuit breaker event
#[derive(Debug, Clone)]
pub struct CircuitBreakerEvent {
    pub timestamp: u64,
    pub incident_id: Option<String>,
    pub action: CircuitBreakerAction,
    pub reason: String,
}

/// Circuit breaker status
#[derive(Debug, Clone, Copy)]
pub struct CircuitBreakerStatus {
    pub is_tripped: bool,
    pub last_changed: u64,
}

/// Incident events
#[derive(Debug, Clone)]
pub enum IncidentEvent {
    NewIncident(Incident),
    EscalateIncident(String),
    StatusUpdate(String, IncidentStatus),
    ProcedureExecuted(EmergencyProcedure, ProcedureExecutionResult),
}

/// Errors of emergency response.
#[derive(Debug, Clone, Copy, PartialEq, Eq, Structural)]
pub enum EmergencyError {
    /// The emergency response system is disabled.
    Disabled,
    /// No incident has the id.
    IncidentNotFound,
    /// Automatic responses are disabled.
    AutoResponseDisabled,
}

/// The circuit breaker: tripped by critical incidents, reset by hand.
pub struct CircuitBreaker {
    is_tripped: bool,
    event_history: Vec<CircuitBreakerEvent>,
}

impl CircuitBreaker {
    pub closed spec fn spec_tripped(&self) -> bool {
        self.is_tripped
    }

    /// The actions of the events so far, oldest first.
    pub closed spec fn spec_actions(&self) -> Seq<CircuitBreakerAction> {
        self.event_history@.map_values(|e: CircuitBreakerEvent| e.action)
    }

    /// A breaker that is not tripped and has no history.
    pub fn new() -> (r: CircuitBreaker)
        ensures
            !r.spec_tripped(),
            r.spec_actions().len() == 0,
    {
        let r = CircuitBreaker { is_tripped: false, event_history: Vec::new() };
        assert(r.spec_actions() =~= Seq::<CircuitBreakerAction>::empty());
        r
    }

    /// Trips the breaker for an incident at clock reading `now`.
    pub fn trigger_circuit_breaker_at(&mut self, incident: &IncidentReport, now: u64) -> (r: Result<(), EmergencyError>)
        ensures
            r is Ok,
            final(self).spec_tripped(),
            final(self).spec_actions() == old(self).spec_actions().push(CircuitBreakerAction::Tripped),
    {
        self.is_tripped = true;
        let mut reason = String::from_str("Critical incident: ");
        reason.append(incident.description.as_str());
        let event = CircuitBreakerEvent { timestamp: now, incident_id: None, action: CircuitBreakerAction::Tripped, reason };
        self.event_history.push(event);
        assert(self.spec_actions() =~= old(self).spec_actions().push(CircuitBreakerAction::Tripped));
        Ok(())
    }

    /// Resets the breaker at clock reading `now`.
    pub fn reset_circuit_breaker_at(&mut self, now: u64) -> (r: Result<(), EmergencyError>)
        ensures
            r is Ok,
            !final(self).spec_tripped(),
            final(self).spec_actions() == old(self).spec_actions().push(CircuitBreakerAction::Reset),
    {
        self.is_tripped = false;
        let event = CircuitBreakerEvent {
            timestamp: now,
            incident_id: None,
            action: CircuitBreakerAction::Reset,
            reason: String::from_str("Manual reset"),
        };
        self.event_history.push(event);
        assert(self.spec_actions() =~= old(self).spec_actions().push(CircuitBreakerAction::Reset));
        Ok(())
    }

    /// Whether the breaker is tripped, as of clock reading `now`.
    pub fn get_status_at(&self, now: u64) -> (r: CircuitBreakerStatus)
        ensures
            r.is_tripped == self.spec_tripped(),
            r.last_changed == now,
    {
        CircuitBreakerStatus { is_tripped: self.is_tripped, last_changed: now }
    }

    /// The events so far; the period asked for is not applied.
    pub fn get_event_history(&self, start_date: u64, end_date: u64) -> (r: Result<Vec<CircuitBreakerEvent>, EmergencyError>)
        ensures
            r matches Ok(v) && v@.map_values(|e: CircuitBreakerEvent| e.action) == self.spec_actions(),
    {
        let mut out: Vec<CircuitBreakerEvent> = Vec::new();
        let mut i: usize = 0;
        while i < self.event_history.len()
            invariant
                0 <= i <= self.event_history@.len(),
                out@.map_values(|e: CircuitBreakerEvent| e.action) == self.spec_actions().take(i as int),
            decreases self.event_history@.len() - i,
        {
            let e = &self.event_history[i];
            let ghost before = out@;
            out.push(
                CircuitBreakerEvent {
                    timestamp: e.timestamp,
                    incident_id: copy_opt(&e.incident_id),
                    action: e.action,
                    reason: e.reason.clone(),
                },
            );
            proof {
                assert(out@.map_values(|e: CircuitBreakerEvent| e.action) =~= before.map_values(
                    |e: CircuitBreakerEvent| e.action,
                ).push(self.event_history@[i as int].action));
                assert(out@.map_values(|e: CircuitBreakerEvent| e.action) =~= self.spec_actions().take(i + 1));
            }
            i = i + 1;
        }
        assert(self.spec_actions().take(self.event_history@.len() as int) =~= self.spec_actions());
        Ok(out)
    }
}

/// Where a notification to one contact goes: the e-mail address where the
/// contact takes e-mail, then the phone number where the contact takes SMS
/// and has one.
pub open spec fn contact_targets(c: EmergencyContact) -> Seq<Seq<char>> {
    let by_mail: Seq<Seq<char>> = if c.notification_methods@.contains(NotificationMethod::Email) {
        seq![c.email@]
    } else {
        Seq::empty()
    };
    let by_sms: Seq<Seq<char>> = match c.phone {
        Some(p) => if c.notification_methods@.contains(NotificationMethod::SMS) {
            seq![p@]
        } else {
            Seq::empty()
        },
        None => Seq::empty(),
    };
    by_mail + by_sms
}

/// Where notifications to the contacts go, contact by contact.
pub open spec fn notification_targets(cs: Seq<EmergencyContact>) -> Seq<Seq<char>>
    decreases cs.len(),
{
    if cs.len() == 0 {
        Seq::empty()
    } else {
        notification_targets(cs.drop_last()) + contact_targets(cs.last())
    }
}

/// Sends incident notifications to the emergency contacts. Delivery is not
/// part of this library.
pub struct NotificationEngine {
    contacts: Vec<EmergencyContact>,
}

impl NotificationEngine {
    /// An engine for a list of contacts.
    pub fn new(contacts: Vec<EmergencyContact>) -> (r: NotificationEngine)
        ensures
            r.spec_contact_count() == contacts@.len(),
    {
        NotificationEngine { contacts }
    }

    pub closed spec fn spec_contact_count(&self) -> nat {
        self.contacts@.len()
    }

    /// The contacts.
    pub closed spec fn spec_contacts(&self) -> Seq<EmergencyContact> {
        self.contacts@
    }

    /// Where notifications about an incident go: for each contact, in
    /// order, the e-mail address where the contact takes e-mail, then the
    /// phone number where the contact takes SMS and has one.
    pub fn send_incident_notification(&self, incident: &Incident) -> (r: Result<Vec<String>, EmergencyError>)
        ensures
            r matches Ok(v) && texts(v@) == notification_targets(self.spec_contacts()),
    {
        let mut reached: Vec<String> = Vec::new();
        let mut i: usize = 0;
        while i < self.contacts.len()
            invariant
                0 <= i <= self.contacts@.len(),
                texts(reached@) == notification_targets(self.contacts@.take(i as int)),
            decreases self.contacts@.len() - i,
        {
            let c = &self.contacts[i];
            let ghost before = reached@;
            proof {
                assert(self.contacts@.take(i + 1).drop_last() =~= self.contacts@.take(i as int));
                assert(self.contacts@.take(i + 1).last() == self.contacts@[i as int]);
            }
            let mut email = false;
            let mut sms = false;
            let mut k: usize = 0;
            while k < c.notification_methods.len()
                invariant
                    0 <= k <= c.notification_methods@.len(),
                    email == c.notification_methods@.take(k as int).contains(NotificationMethod::Email),
                    sms == c.notification_methods@.take(k as int).contains(NotificationMethod::SMS),
                decreases c.notification_methods@.len() - k,
            {
                let m = c.notification_methods[k];
                proof {
                    let t = c.notification_methods@.take(k as int);
                    let t1 = c.notification_methods@.take(k + 1);
                    assert(t1 =~= t.push(m));
                    assert(t1[k as int] == m);
                    assert(forall|x: NotificationMethod| t.contains(x) ==> t1.contains(x)) by {
                        assert forall|x: NotificationMethod| t.contains(x) implies t1.contains(x) by {
                            let w = choose|w: int| 0 <= w < t.len() && t[w] == x;
                            assert(t1[w] == x);
                        }
                    }
                    assert(forall|x: NotificationMethod| t1.contains(x) ==> (t.contains(x) || x == m)) by {
                        assert forall|x: NotificationMethod| t1.contains(x) implies (t.contains(x) || x == m) by {
                            let w = choose|w: int| 0 <= w < t1.len() && t1[w] == x;
                            if w < k {
                                assert(t[w] == x);
                            }
                        }
                    }
                }
                if m == NotificationMethod::Email {
                    email = true;
                }
                if m == NotificationMethod::SMS {
                    sms = true;
                }
                k = k + 1;
            }
            proof {
                assert(c.notification_methods@.take(k as int) =~= c.notification_methods@);
            }
            if email {
                reached.push(c.email.clone());
            }
            if sms {
                match &c.phone {
                    Some(p) => reached.push(p.clone()),
                    None => {},
                }
            }
            proof {
                assert(texts(reached@) =~= texts(before) + contact_targets(self.contacts@[i as int]));
            }
            i = i + 1;
        }
        proof {
            assert(self.contacts@.take(self.contacts@.len() as int) =~= self.contacts@);
        }
        Ok(reached)
    }

    /// Escalates an incident: the same notifications.
    pub fn send_escalation_notification(&self, incident: &Incident) -> (r: Result<Vec<String>, EmergencyError>)
        ensures
            r matches Ok(v) && texts(v@) == notification_targets(self.spec_contacts()),
    {
        self.send_incident_notification(incident)
    }
}

/// The checks after a run at `now`: each healthy, checked at `now`, with a
/// response time of 50 ms plus the clock reading modulo 100.
pub open spec fn checks_after_run(c: Seq<CheckView>, now: u64) -> Seq<CheckView> {
    c.map_values(|x: CheckView| (x.0, true, now, (50 + now % 100) as u64, x.4))
}

/// Runs the system health checks.
pub struct HealthMonitor {
    health_checks: Vec<HealthCheckResult>,
}

impl HealthMonitor {
    /// The checks, in the order they were configured.
    pub closed spec fn spec_checks(&self) -> Seq<CheckView> {
        self.health_checks@.map_values(|c: HealthCheckResult| c@)
    }

    /// A monitor with no checks.
    pub fn new() -> (r: HealthMonitor)
        ensures
            r.spec_checks().len() == 0,
    {
        let r = HealthMonitor { health_checks: Vec::new() };
        assert(r.spec_checks() =~= Seq::<CheckView>::empty());
        r
    }

    /// Sets up the named checks at clock reading `now`, each healthy with a
    /// response time of 100 ms.
    pub fn initialize_at(&mut self, check_names: &Vec<String>, now: u64) -> (r: Result<(), EmergencyError>)
        ensures
            r is Ok,
            final(self).spec_checks() == texts(check_names@).map_values(|n: Seq<char>| (n, true, now, 100u64, None::<Seq<char>>)),
    {
        let mut checks: Vec<HealthCheckResult> = Vec::new();
        let mut i: usize = 0;
        while i < check_names.len()
            invariant
                0 <= i <= check_names@.len(),
                checks@.map_values(|c: HealthCheckResult| c@) == texts(check_names@).take(i as int).map_values(
                    |n: Seq<char>| (n, true, now, 100u64, None::<Seq<char>>),
                ),
            decreases check_names@.len() - i,
        {
            let ghost before = checks@;
            checks.push(
                HealthCheckResult {
                    check_name: check_names[i].clone(),
                    healthy: true,
                    last_checked: now,
                    response_time_ms: 100,
                    error_message: None,
                },
            );
            proof {
                assert(checks@.map_values(|c: HealthCheckResult| c@) =~= before.map_values(|c: HealthCheckResult| c@).push(
                    (check_names@[i as int]@, true, now, 100u64, None::<Seq<char>>),
                ));
                assert(checks@.map_values(|c: HealthCheckResult| c@) =~= texts(check_names@).take(i + 1).map_values(
                    |n: Seq<char>| (n, true, now, 100u64, None::<Seq<char>>),
                ));
            }
            i = i + 1;
        }
        assert(texts(check_names@).take(check_names@.len() as int) =~= texts(check_names@));
        self.health_checks = checks;
        Ok(())
    }

    /// Runs every check at clock reading `now` and returns the results.
    pub fn run_health_checks_at(&mut self, now: u64) -> (r: Result<Vec<HealthCheckResult>, EmergencyError>)
        ensures
            final(self).spec_checks() == checks_after_run(old(self).spec_checks(), now),
            r matches Ok(v) && v@.map_values(|c: HealthCheckResult| c@) == checks_after_run(old(self).spec_checks(), now),
    {
        let ghost c0 = self.spec_checks();
        let mut results: Vec<HealthCheckResult> = Vec::new();
        let mut i: usize = 0;
        while i < self.health_checks.len()
            invariant
                0 <= i <= self.health_checks@.len(),
                c0.len() == self.health_checks@.len(),
                forall|j: int| i <= j < c0.len() ==> (#[trigger] self.health_checks@[j])@ == c0[j],
                forall|j: int| 0 <= j < i ==> (#[trigger] self.health_checks@[j])@ == checks_after_run(c0, now)[j],
                results@.map_values(|c: HealthCheckResult| c@) == checks_after_run(c0, now).take(i as int),
            decreases self.health_checks@.len() - i,
        {
            self.health_checks[i].last_checked = now;
            self.health_checks[i].healthy = true;
            self.health_checks[i].response_time_ms = 50 + now % 100;
            let ghost before = results@;
            results.push(self.health_checks[i].duplicate());
            proof {
                assert(results@.map_values(|c: HealthCheckResult| c@) =~= before.map_values(|c: HealthCheckResult| c@).push(
                    self.health_checks@[i as int]@,
                ));
                assert(self.health_checks@[i as int]@ == checks_after_run(c0, now)[i as int]);
                assert(results@.map_values(|c: HealthCheckResult| c@) =~= checks_after_run(c0, now).take(i + 1));
            }
            i = i + 1;
        }
        assert(self.spec_checks() =~= checks_after_run(c0, now));
        assert(checks_after_run(c0, now).take(c0.len() as int) =~= checks_after_run(c0, now));
        Ok(results)
    }

    /// The checks; the period asked for is not applied.
    pub fn get_health_history(&self, start_date: u64, end_date: u64) -> (r: Result<Vec<HealthCheckResult>, EmergencyError>)
        ensures
            r matches Ok(v) && v@.map_values(|c: HealthCheckResult| c@) == self.spec_checks(),
    {
        let mut out: Vec<HealthCheckResult> = Vec::new();
        let mut i: usize = 0;
        while i < self.health_checks.len()
            invariant
                0 <= i <= self.health_checks@.len(),
                out@.map_values(|c: HealthCheckResult| c@) == self.spec_checks().take(i as int),
            decreases self.health_checks@.len() - i,
        {
            let ghost before = out@;
            out.push(self.health_checks[i].duplicate());
            proof {
                assert(out@.map_values(|c: HealthCheckResult| c@) =~= before.map_values(|c: HealthCheckResult| c@).push(
                    self.health_checks@[i as int]@,
                ));
                assert(out@.map_values(|c: HealthCheckResult| c@) =~= self.spec_checks().take(i + 1));
            }
            i = i + 1;
        }
        assert(self.spec_checks().take(self.health_checks@.len() as int) =~= self.spec_checks());
        Ok(out)
    }
}

/// The view of an event: the incident for a new incident, the incident id
/// for an escalation or a status update, the procedure type and the result
/// id for an executed procedure.
pub enum EventView {
    NewIncident(IncidentView),
    EscalateIncident(Seq<char>),
    StatusUpdate(Seq<char>, IncidentStatus),
    ProcedureExecuted(EmergencyProcedureType, Seq<char>),
}

impl View for IncidentEvent {
    type V = EventView;

    open spec fn view(&self) -> EventView {
        match self {
            IncidentEvent::NewIncident(i) => EventView::NewIncident(i@),
            IncidentEvent::EscalateIncident(id) => EventView::EscalateIncident(id@),
            IncidentEvent::StatusUpdate(id, st) => EventView::StatusUpdate(id@, *st),
            IncidentEvent::ProcedureExecuted(p, r) => EventView::ProcedureExecuted(p.procedure_type, r.procedure_id@),
        }
    }
}

/// The key of an incident: its id.
pub open spec fn incident_key() -> spec_fn(IncidentView) -> Seq<char> {
    |i: IncidentView| i.id
}

/// The id of an incident reported at `now`: `incident_<type>_<now>`.
pub open spec fn incident_id_for(t: IncidentType, now: u64) -> Seq<char> {
    "incident_"@ + incident_type_lower(t) + "_"@ + decimal_chars(now as nat)
}

/// How long an incident of a severity is expected to take, in seconds:
/// one hour for low, doubling with each level.
pub open spec fn resolution_estimate(s: IncidentSeverity) -> u64 {
    match s {
        IncidentSeverity::Low => 3600,
        IncidentSeverity::Medium => 7200,
        IncidentSeverity::High => 14400,
        IncidentSeverity::Critical => 28800,
    }
}

/// The record of a reported incident.
pub open spec fn recorded_incident(id: Seq<char>, r: IncidentReport, now: u64) -> IncidentView {
    IncidentView {
        id,
        incident_type: r.incident_type,
        severity: r.severity,
        description: r.description@,
        affected_components: texts(r.affected_components@),
        detected_at: now,
        status: IncidentStatus::Active,
        assigned_to: None,
        response_actions: Seq::empty(),
        resolution_notes: None,
        resolved_at: None,
        escalated: false,
    }
}

/// An incident after a status update at `now`, with optional notes.
pub open spec fn updated_incident(i: IncidentView, status: IncidentStatus, notes: Option<Seq<char>>, now: u64) -> IncidentView {
    let actions = match notes {
        Some(n) => i.response_actions.push("Status update: "@ + status_name(status) + " - "@ + n),
        None => i.response_actions,
    };
    if status == IncidentStatus::Resolved {
        IncidentView { status, response_actions: actions, resolved_at: Some(now), resolution_notes: notes, ..i }
    } else {
        IncidentView { status, response_actions: actions, ..i }
    }
}

/// The id and duration (seconds) of a procedure run at `now`, and the one
/// action it reports.
pub open spec fn procedure_outcome(t: EmergencyProcedureType, now: u64) -> (Seq<char>, u64, Seq<char>) {
    match t {
        EmergencyProcedureType::SystemShutdown => ("shutdown_001"@, 30, "System shutdown initiated"@),
        EmergencyProcedureType::IsolateComponent => (
            "isolation_"@ + decimal_chars(now as nat),
            10,
            "Component isolated"@,
        ),
        EmergencyProcedureType::Failover => ("failover_"@ + decimal_chars(now as nat), 60, "Failover completed"@),
        EmergencyProcedureType::SecurityLockdown => (
            "lockdown_"@ + decimal_chars(now as nat),
            15,
            "Security lockdown activated"@,
        ),
    }
}

/// The overall health: critical while the breaker is tripped; degraded
/// with an active incident of high severity or more; warning with an
/// unhealthy check; healthy otherwise.
pub open spec fn overall_health(tripped: bool, active: Seq<IncidentView>, checks: Seq<CheckView>) -> SystemHealth {
    if tripped {
        SystemHealth::Critical
    } else if exists|k: int| 0 <= k < active.len() && severity_rank(#[trigger] active[k].severity) >= 2 {
        SystemHealth::Degraded
    } else if exists|k: int| 0 <= k < checks.len() && !(#[trigger] checks[k]).1 {
        SystemHealth::Warning
    } else {
        SystemHealth::Healthy
    }
}

/// Incident counts over a period, and the time the resolved ones took.
#[derive(Debug, Clone, Copy)]
pub struct IncidentCounts {
    pub total_incidents: usize,
    pub resolved_incidents: usize,
    pub critical_incidents: usize,
    pub resolved_with_time: usize,
    pub total_resolution_seconds: u64,
}

/// `r` is the health report of `e` at clock reading `now`, after the
/// health checks were run: the overall health of the breaker, the active
/// incidents and the checks, and the counts behind it.
pub open spec fn health_report(e: EmergencyResponseEngine, now: u64, r: Result<SystemHealthStatus, EmergencyError>) -> bool {
    r matches Ok(h) && {
        let active = e.spec_incident_list().filter(|i: IncidentView| i.status == IncidentStatus::Active);
        let checks = checks_after_run(e.spec_monitor().spec_checks(), now);
        &&& h.overall_health == overall_health(e.spec_breaker().spec_tripped(), active, checks)
        &&& h.health_checks@.map_values(|c: HealthCheckResult| c@) == checks
        &&& h.circuit_breaker_tripped == e.spec_breaker().spec_tripped()
        &&& h.active_incidents_count == active.len()
        &&& h.last_health_check == now
    }
}

/// The reported health follows the breaker and the incidents: critical
/// while the breaker is tripped; otherwise degraded while some active
/// incident is of high or critical severity, and healthy when none is (the
/// checks run just before report healthy).
pub proof fn lemma_health_follows_incidents(e: EmergencyResponseEngine, now: u64, r: Result<SystemHealthStatus, EmergencyError>)
    requires
        health_report(e, now, r),
    ensures
        e.spec_breaker().spec_tripped() ==> (r matches Ok(h) && h.overall_health == SystemHealth::Critical),
        !e.spec_breaker().spec_tripped() && (exists|k: int|
            0 <= k < e.spec_incident_list().len() && (#[trigger] e.spec_incident_list()[k]).status
                == IncidentStatus::Active && (e.spec_incident_list()[k].severity == IncidentSeverity::High
                || e.spec_incident_list()[k].severity == IncidentSeverity::Critical)) ==> (r matches Ok(h)
            && h.overall_health == SystemHealth::Degraded),
        !e.spec_breaker().spec_tripped() && (forall|k: int|
            0 <= k < e.spec_incident_list().len() && (#[trigger] e.spec_incident_list()[k]).status
                == IncidentStatus::Active ==> e.spec_incident_list()[k].severity == IncidentSeverity::Low
                || e.spec_incident_list()[k].severity == IncidentSeverity::Medium) ==> (r matches Ok(h)
            && h.overall_health == SystemHealth::Healthy),
{
    let l = e.spec_incident_list();
    let pred = |i: IncidentView| i.status == IncidentStatus::Active;
    let active = l.filter(pred);
    let checks = checks_after_run(e.spec_monitor().spec_checks(), now);
    assert forall|k: int| 0 <= k < checks.len() implies (#[trigger] checks[k]).1 by {}
    if exists|k: int| 0 <= k < l.len() && (#[trigger] l[k]).status == IncidentStatus::Active && (l[k].severity
        == IncidentSeverity::High || l[k].severity == IncidentSeverity::Critical) {
        let k = choose|k: int| 0 <= k < l.len() && (#[trigger] l[k]).status == IncidentStatus::Active && (l[k].severity
            == IncidentSeverity::High || l[k].severity == IncidentSeverity::Critical);
        l.lemma_filter_contains(pred, k);
        assert(active.contains(l[k]));
        let j = choose|j: int| 0 <= j < active.len() && active[j] == l[k];
        assert(severity_rank(active[j].severity) >= 2);
    }
    if forall|k: int| 0 <= k < l.len() && (#[trigger] l[k]).status == IncidentStatus::Active ==> l[k].severity
        == IncidentSeverity::Low || l[k].severity == IncidentSeverity::Medium {
        assert forall|j: int| 0 <= j < active.len() implies severity_rank(#[trigger] active[j].severity) < 2 by {
            assert(active.contains(active[j]));
            l.lemma_filter_contains_rev(pred, active[j]);
            l.lemma_filter_pred(pred, j);
            let k = choose|k: int| 0 <= k < l.len() && l[k] == active[j];
            assert(l[k].status == IncidentStatus::Active);
        }
    }
}

/// What reporting `incident` at clock reading `now` makes of `pre`,
/// returning `r`: refused with nothing changed while the engine is
/// disabled; otherwise the incident is recorded as active, escalated when it
/// reaches the escalation threshold, and a critical one trips the breaker
/// where the breaker is enabled.
pub open spec fn report_outcome(pre: EmergencyResponseEngine, post: EmergencyResponseEngine, incident: IncidentReport, now: u64, r: Result<IncidentResponse, EmergencyError>) -> bool {
    &&& post.spec_config() == pre.spec_config()
    &&& post.spec_monitor() == pre.spec_monitor()
    &&& !pre.spec_config().enabled ==> r == Err::<IncidentResponse, EmergencyError>(EmergencyError::Disabled)
        && post == pre
    &&& pre.spec_config().enabled ==> ({
        let id = incident_id_for(incident.incident_type, now);
        let rec = recorded_incident(id, incident, now);
        let escalate = severity_rank(incident.severity) >= severity_rank(pre.spec_config().escalation_threshold);
        let trip = pre.spec_config().circuit_breaker_enabled && incident.severity == IncidentSeverity::Critical;
        &&& r matches Ok(resp) && resp.incident_id@ == id && resp.acknowledged
            && resp.estimated_resolution_time == resolution_estimate(incident.severity)
            && resp.manual_intervention_required == escalate && texts(resp.auto_actions_taken@) == seq![
            "Incident logged"@,
            "Notifications sent"@,
        ]
        &&& post.spec_incidents() == pre.spec_incidents().insert(id, rec)
        &&& post.spec_events() == if escalate {
            pre.spec_events().push(EventView::NewIncident(rec)).push(EventView::EscalateIncident(id))
        } else {
            pre.spec_events().push(EventView::NewIncident(rec))
        }
        &&& post.spec_breaker().spec_tripped() == (pre.spec_breaker().spec_tripped() || trip)
    })
}

/// Reporting an incident records it as active, and trips the circuit
/// breaker exactly when the incident is critical and the breaker is enabled;
/// a tripped breaker stays tripped, and a less severe incident does not trip
/// it. A critical incident, or one at the escalation threshold, asks for
/// manual intervention; a low one under a higher threshold does not.
pub proof fn lemma_report_trips_breaker(
    pre: EmergencyResponseEngine,
    post: EmergencyResponseEngine,
    incident: IncidentReport,
    now: u64,
    r: Result<IncidentResponse, EmergencyError>,
)
    requires
        report_outcome(pre, post, incident, now, r),
        pre.spec_config().enabled,
    ensures
        r is Ok,
        pre.spec_config().circuit_breaker_enabled && incident.severity == IncidentSeverity::Critical
            ==> post.spec_breaker().spec_tripped(),
        pre.spec_breaker().spec_tripped() ==> post.spec_breaker().spec_tripped(),
        !pre.spec_breaker().spec_tripped() && (incident.severity == IncidentSeverity::Low || incident.severity
            == IncidentSeverity::Medium || incident.severity == IncidentSeverity::High)
            ==> !post.spec_breaker().spec_tripped(),
        r matches Ok(resp) && post.spec_incidents().contains_key(resp.incident_id@)
            && post.spec_incidents()[resp.incident_id@].status == IncidentStatus::Active
            && post.spec_incidents()[resp.incident_id@].severity == incident.severity,
        incident.severity == IncidentSeverity::Critical || incident.severity == pre.spec_config().escalation_threshold
            ==> (r matches Ok(resp) && resp.manual_intervention_required),
        incident.severity == IncidentSeverity::Low && pre.spec_config().escalation_threshold != IncidentSeverity::Low
            ==> (r matches Ok(resp) && !resp.manual_intervention_required),
{
}

/// Emergency response engine
pub struct EmergencyResponseEngine {
    config: EmergencyConfig,
    incidents: Vec<Incident>,
    circuit_breaker: CircuitBreaker,
    notification_engine: NotificationEngine,
    health_monitor: HealthMonitor,
    outbox: Vec<IncidentEvent>,
}

impl EmergencyResponseEngine {
    pub closed spec fn spec_config(&self) -> EmergencyConfig {
        self.config
    }

    /// The incidents in the order they were reported.
    pub closed spec fn spec_incident_list(&self) -> Seq<IncidentView> {
        self.incidents@.map_values(|i: Incident| i@)
    }

    /// The incidents by id.
    pub open spec fn spec_incidents(&self) -> Map<Seq<char>, IncidentView> {
        keyed_map(self.spec_incident_list(), incident_key())
    }

    pub closed spec fn spec_breaker(&self) -> CircuitBreaker {
        self.circuit_breaker
    }

    pub closed spec fn spec_monitor(&self) -> HealthMonitor {
        self.health_monitor
    }

    /// The events waiting for the notification side, oldest first.
    pub closed spec fn spec_events(&self) -> Seq<EventView> {
        self.outbox@.map_values(|e: IncidentEvent| e@)
    }

    /// One record per incident id.
    pub closed spec fn wf(&self) -> bool {
        keys_distinct(self.spec_incident_list(), incident_key())
    }

    /// An engine with no incidents, an untripped breaker and no checks.
    pub fn new(config: EmergencyConfig) -> (r: EmergencyResponseEngine)
        ensures
            r.wf(),
            r.spec_config() == config,
            r.spec_incident_list().len() == 0,
            !r.spec_breaker().spec_tripped(),
            r.spec_monitor().spec_checks().len() == 0,
            r.spec_events().len() == 0,
    {
        let contacts = config.emergency_contacts.clone();
        let r = EmergencyResponseEngine {
            config,
            incidents: Vec::new(),
            circuit_breaker: CircuitBreaker::new(),
            notification_engine: NotificationEngine::new(contacts),
            health_monitor: HealthMonitor::new(),
            outbox: Vec::new(),
        };
        assert(r.spec_incident_list() =~= Seq::<IncidentView>::empty());
        assert(r.spec_events() =~= Seq::<EventView>::empty());
        r
    }

    /// The configuration.
    pub fn config(&self) -> (r: &EmergencyConfig)
        ensures
            *r == self.spec_config(),
    {
        &self.config
    }

    /// The circuit breaker.
    pub fn circuit_breaker(&self) -> (r: &CircuitBreaker)
        ensures
            *r == self.spec_breaker(),
    {
        &self.circuit_breaker
    }

    /// Sets up the configured health checks at clock reading `now`.
    pub fn initialize_at(&mut self, now: u64) -> (r: Result<(), EmergencyError>)
        ensures
            r is Ok,
            final(self).spec_monitor().spec_checks() == texts(old(self).spec_config().system_health_checks@).map_values(
                |n: Seq<char>| (n, true, now, 100u64, None::<Seq<char>>),
            ),
            final(self).spec_config() == old(self).spec_config(),
            final(self).spec_incident_list() == old(self).spec_incident_list(),
            final(self).spec_breaker() == old(self).spec_breaker(),
            final(self).spec_events() == old(self).spec_events(),
    {
        let names = &self.config.system_health_checks;
        self.health_monitor.initialize_at(names, now)
    }

    /// Position of an incident.
    fn find(&self, incident_id: &str) -> (r: Option<usize>)
        requires
            self.wf(),
        ensures
            match r {
                Some(i) => i < self.incidents@.len() && self.spec_incident_list()[i as int].id == incident_id@
                    && self.spec_incidents().contains_key(incident_id@) && self.spec_incidents()[incident_id@]
                    == self.spec_incident_list()[i as int],
                None => !self.spec_incidents().contains_key(incident_id@),
            },
    {
        let wanted = String::from_str(incident_id);
        let mut i: usize = 0;
        while i < self.incidents.len()
            invariant
                0 <= i <= self.incidents@.len(),
                wanted@ == incident_id@,
                self.wf(),
                forall|j: int| 0 <= j < i ==> (#[trigger] self.incidents@[j]).id@ != incident_id@,
            decreases self.incidents@.len() - i,
        {
            if self.incidents[i].id == wanted {
                proof {
                    lemma_keyed_map_index(self.spec_incident_list(), incident_key(), i as int);
                }
                return Some(i);
            }
            i = i + 1;
        }
        proof {
            assert forall|j: int| 0 <= j < self.spec_incident_list().len() implies (incident_key())(
                self.spec_incident_list()[j],
            ) != incident_id@ by {
                assert(self.spec_incident_list()[j].id == self.incidents@[j].id@);
            }
            lemma_keyed_map_absent(self.spec_incident_list(), incident_key(), incident_id@);
        }
        None
    }

    /// How long an incident of a severity is expected to take (seconds).
    pub fn estimate_resolution_time(&self, severity: IncidentSeverity) -> (r: u64)
        ensures
            r == resolution_estimate(severity),
    {
        match severity {
            IncidentSeverity::Low => 3600,
            IncidentSeverity::Medium => 7200,
            IncidentSeverity::High => 14400,
            IncidentSeverity::Critical => 28800,
        }
    }

    /// Records an incident reported at clock reading `now`, queues its
    /// event, trips the breaker for a critical incident where the breaker
    /// is enabled, and queues an escalation from the configured severity.
    pub fn report_incident_at(&mut self, incident: IncidentReport, now: u64) -> (r: Result<
        IncidentResponse,
        EmergencyError,
    >)
        requires
            old(self).wf(),
        ensures
            final(self).wf(),
            report_outcome(*old(self), *final(self), incident, now, r),
    {
        if !self.config.enabled {
            return Err(EmergencyError::Disabled);
        }
        let mut incident_id = String::from_str("incident_");
        incident_id.append(incident.incident_type.lower_name());
        incident_id.append("_");
        incident_id.append(u64_to_string(now).as_str());
        let record = Incident {
            id: incident_id.clone(),
            incident_type: incident.incident_type,
            severity: incident.severity,
            description: incident.description.clone(),
            affected_components: copy_strings(&incident.affected_components),
            detected_at: now,
            status: IncidentStatus::Active,
            assigned_to: None,
            response_actions: Vec::new(),
            resolution_notes: None,
            resolved_at: None,
            escalated: false,
        };
        let ghost rv = record@;
        proof {
            assert(rv.response_actions =~= Seq::<Seq<char>>::empty());
            assert(rv == recorded_incident(incident_id@, incident, now));
        }
        let ghost before = self.spec_incident_list();
        match self.find(incident_id.as_str()) {
            Some(i) => {
                self.incidents.set(i, record.duplicate());
                proof {
                    assert(self.spec_incident_list() =~= before.update(i as int, rv));
                    lemma_keyed_map_update(before, incident_key(), i as int, rv);
                }
            },
            None => {
                proof {
                    lemma_keys_distinct_push(before, incident_key(), rv);
                }
                self.incidents.push(record.duplicate());
                proof {
                    assert(self.spec_incident_list() =~= before.push(rv));
                    assert(self.spec_incident_list().drop_last() =~= before);
                }
            },
        }
        let ghost ev0 = self.spec_events();
        self.outbox.push(IncidentEvent::NewIncident(record));
        proof {
            assert(self.spec_events() =~= ev0.push(EventView::NewIncident(rv)));
        }
        if self.config.circuit_breaker_enabled && severity_at_least(incident.severity, IncidentSeverity::Critical) {
            match self.circuit_breaker.trigger_circuit_breaker_at(&incident, now) {
                Ok(()) => {},
                Err(e) => return Err(e),
            }
        }
        let should_escalate = severity_at_least(incident.severity, self.config.escalation_threshold);
        if should_escalate {
            let ghost ev1 = self.spec_events();
            self.outbox.push(IncidentEvent::EscalateIncident(incident_id.clone()));
            proof {
                assert(self.spec_events() =~= ev1.push(EventView::EscalateIncident(incident_id@)));
            }
        }
        let mut actions: Vec<String> = Vec::new();
        actions.push(String::from_str("Incident logged"));
        actions.push(String::from_str("Notifications sent"));
        assert(texts(actions@) =~= seq!["Incident logged"@, "Notifications sent"@]);
        proof {
            reveal_strlit("incident_");
            reveal_strlit("_");
            assert(incident_id@ =~= incident_id_for(incident.incident_type, now));
        }
        Ok(
            IncidentResponse {
                incident_id,
                acknowledged: true,
                estimated_resolution_time: self.estimate_resolution_time(incident.severity),
                auto_actions_taken: actions,
                manual_intervention_required: should_escalate,
            },
        )
    }

    /// Sets an incident's status at clock reading `now`, noting the update
    /// where notes are given; resolving records the time and the notes.
    pub fn update_incident_status_at(&mut self, incident_id: &str, status: IncidentStatus, notes: Option<String>, now: u64) -> (r:
        Result<(), EmergencyError>)
        requires
            old(self).wf(),
        ensures
            final(self).wf(),
            final(self).spec_config() == old(self).spec_config(),
            final(self).spec_breaker() == old(self).spec_breaker(),
            final(self).spec_monitor() == old(self).spec_monitor(),
            !old(self).spec_incidents().contains_key(incident_id@) ==> r == Err::<(), EmergencyError>(
                EmergencyError::IncidentNotFound,
            ) && *final(self) == *old(self),
            old(self).spec_incidents().contains_key(incident_id@) ==> r is Ok && final(self).spec_incidents()
                == old(self).spec_incidents().insert(
                incident_id@,
                updated_incident(old(self).spec_incidents()[incident_id@], status, opt_text(notes), now),
            ) && final(self).spec_events() == old(self).spec_events().push(
                EventView::StatusUpdate(incident_id@, status),
            ),
    {
        let i = match self.find(incident_id) {
            Some(i) => i,
            None => return Err(EmergencyError::IncidentNotFound),
        };
        let ghost before = self.spec_incident_list();
        let ghost nv = updated_incident(before[i as int], status, opt_text(notes), now);
        self.incidents[i].status = status;
        match &notes {
            Some(n) => {
                let mut line = String::from_str("Status update: ");
                line.append(status.name());
                line.append(" - ");
                line.append(n.as_str());
                self.incidents[i].response_actions.push(line);
            },
            None => {},
        }
        if status == IncidentStatus::Resolved {
            self.incidents[i].resolved_at = Some(now);
            self.incidents[i].resolution_notes = notes;
        }
        proof {
            assert(self.incidents@[i as int]@.response_actions =~= nv.response_actions);
            assert(self.spec_incident_list() =~= before.update(i as int, nv));
            lemma_keyed_map_update(before, incident_key(), i as int, nv);
        }
        let ghost ev0 = self.spec_events();
        self.outbox.push(IncidentEvent::StatusUpdate(String::from_str(incident_id), status));
        proof {
            assert(self.spec_events() =~= ev0.push(EventView::StatusUpdate(incident_id@, status)));
        }
        Ok(())
    }

    /// Runs an emergency procedure at clock reading `now`, where automatic
    /// responses are enabled, and queues its result.
    pub fn execute_emergency_procedure_at(&mut self, procedure: EmergencyProcedure, now: u64) -> (r: Result<
        ProcedureExecutionResult,
        EmergencyError,
    >)
        ensures
            final(self).spec_config() == old(self).spec_config(),
            final(self).spec_incident_list() == old(self).spec_incident_list(),
            final(self).spec_breaker() == old(self).spec_breaker(),
            final(self).spec_monitor() == old(self).spec_monitor(),
            !old(self).spec_config().auto_response_enabled ==> r == Err::<ProcedureExecutionResult, EmergencyError>(
                EmergencyError::AutoResponseDisabled,
            ) && *final(self) == *old(self),
            old(self).spec_config().auto_response_enabled ==> ({
                let o = procedure_outcome(procedure.procedure_type, now);
                &&& r matches Ok(res) && res.procedure_id@ == o.0 && res.success && res.execution_time_seconds == o.1
                    && texts(res.actions_taken@) == seq![o.2] && res.errors@.len() == 0
                &&& final(self).spec_events() == old(self).spec_events().push(
                    EventView::ProcedureExecuted(procedure.procedure_type, o.0),
                )
            }),
    {
        if !self.config.auto_response_enabled {
            return Err(EmergencyError::AutoResponseDisabled);
        }
        let (id, time, action) = match procedure.procedure_type {
            EmergencyProcedureType::SystemShutdown => (String::from_str("shutdown_001"), 30u64, "System shutdown initiated"),
            EmergencyProcedureType::IsolateComponent => {
                let mut id = String::from_str("isolation_");
                id.append(u64_to_string(now).as_str());
                (id, 10u64, "Component isolated")
            },
            EmergencyProcedureType::Failover => {
                let mut id = String::from_str("failover_");
                id.append(u64_to_string(now).as_str());
                (id, 60u64, "Failover completed")
            },
            EmergencyProcedureType::SecurityLockdown => {
                let mut id = String::from_str("lockdown_");
                id.append(u64_to_string(now).as_str());
                (id, 15u64, "Security lockdown activated")
            },
        };
        proof {
            reveal_strlit("isolation_");
            reveal_strlit("failover_");
            reveal_strlit("lockdown_");
            let o = procedure_outcome(procedure.procedure_type, now);
            assert(id@ =~= o.0);
            assert(action@ == o.2);
        }
        let mut actions: Vec<String> = Vec::new();
        actions.push(String::from_str(action));
        assert(texts(actions@) =~= seq![action@]);
        let result = ProcedureExecutionResult {
            procedure_id: id.clone(),
            success: true,
            actions_taken: actions,
            errors: Vec::new(),
            execution_time_seconds: time,
        };
        let logged = ProcedureExecutionResult {
            procedure_id: id,
            success: true,
            actions_taken: copy_strings(&result.actions_taken),
            errors: Vec::new(),
            execution_time_seconds: time,
        };
        let ghost ev0 = self.spec_events();
        let ptype = procedure.procedure_type;
        self.outbox.push(IncidentEvent::ProcedureExecuted(procedure, logged));
        proof {
            assert(self.spec_events() =~= ev0.push(
                EventView::ProcedureExecuted(ptype, procedure_outcome(ptype, now).0),
            ));
        }
        Ok(result)
    }

    /// The incidents that are still active, in the order they were reported.
    pub fn get_active_incidents(&self) -> (r: Result<Vec<Incident>, EmergencyError>)
        ensures
            r matches Ok(v) && v@.map_values(|i: Incident| i@) == self.spec_incident_list().filter(
                |i: IncidentView| i.status == IncidentStatus::Active,
            ),
    {
        let ghost pred = |i: IncidentView| i.status == IncidentStatus::Active;
        let mut out: Vec<Incident> = Vec::new();
        let mut k: usize = 0;
        while k < self.incidents.len()
            invariant
                0 <= k <= self.incidents@.len(),
                forall|i: IncidentView| #[trigger] pred(i) == (i.status == IncidentStatus::Active),
                out@.map_values(|i: Incident| i@) == self.spec_incident_list().take(k as int).filter(pred),
            decreases self.incidents@.len() - k,
        {
            let ghost before = out@;
            proof {
                reveal_with_fuel(Seq::filter, 1);
                assert(self.spec_incident_list().take(k + 1).drop_last() =~= self.spec_incident_list().take(k as int));
                assert(self.spec_incident_list()[k as int] == self.incidents@[k as int]@);
            }
            if self.incidents[k].status == IncidentStatus::Active {
                out.push(self.incidents[k].duplicate());
                assert(out@.map_values(|i: Incident| i@) =~= before.map_values(|i: Incident| i@).push(
                    self.incidents@[k as int]@,
                ));
            }
            k = k + 1;
        }
        assert(self.spec_incident_list().take(self.incidents@.len() as int) =~= self.spec_incident_list());
        Ok(out)
    }

    /// The incidents detected from `start_date` to `end_date` inclusive, in
    /// the order they were reported.
    pub fn get_incidents_in_range(&self, start_date: u64, end_date: u64) -> (r: Result<Vec<Incident>, EmergencyError>)
        ensures
            r matches Ok(v) && v@.map_values(|i: Incident| i@) == self.spec_incident_list().filter(
                |i: IncidentView| start_date <= i.detected_at <= end_date,
            ),
    {
        let ghost pred = |i: IncidentView| start_date <= i.detected_at <= end_date;
        let mut out: Vec<Incident> = Vec::new();
        let mut k: usize = 0;
        while k < self.incidents.len()
            invariant
                0 <= k <= self.incidents@.len(),
                forall|i: IncidentView| #[trigger] pred(i) == (start_date <= i.detected_at <= end_date),
                out@.map_values(|i: Incident| i@) == self.spec_incident_list().take(k as int).filter(pred),
            decreases self.incidents@.len() - k,
        {
            let ghost before = out@;
            proof {
                reveal_with_fuel(Seq::filter, 1);
                assert(self.spec_incident_list().take(k + 1).drop_last() =~= self.spec_incident_list().take(k as int));
                assert(self.spec_incident_list()[k as int] == self.incidents@[k as int]@);
            }
            let d = self.incidents[k].detected_at;
            if d >= start_date && d <= end_date {
                out.push(self.incidents[k].duplicate());
                assert(out@.map_values(|i: Incident| i@) =~= before.map_values(|i: Incident| i@).push(
                    self.incidents@[k as int]@,
                ));
            }
            k = k + 1;
        }
        assert(self.spec_incident_list().take(self.incidents@.len() as int) =~= self.spec_incident_list());
        Ok(out)
    }

    /// The system's health at clock reading `now`, running the checks.
    pub fn get_system_health_at(&mut self, now: u64) -> (r: Result<SystemHealthStatus, EmergencyError>)
        ensures
            final(self).spec_monitor().spec_checks() == checks_after_run(old(self).spec_monitor().spec_checks(), now),
            final(self).spec_incident_list() == old(self).spec_incident_list(),
            final(self).spec_breaker() == old(self).spec_breaker(),
            final(self).spec_events() == old(self).spec_events(),
            final(self).spec_config() == old(self).spec_config(),
            health_report(*old(self), now, r),
    {
        let checks = match self.health_monitor.run_health_checks_at(now) {
            Ok(c) => c,
            Err(e) => return Err(e),
        };
        let status = self.circuit_breaker.get_status_at(now);
        let active = match self.get_active_incidents() {
            Ok(a) => a,
            Err(e) => return Err(e),
        };
        let ghost av = active@.map_values(|i: Incident| i@);
        let ghost cv = checks@.map_values(|c: HealthCheckResult| c@);
        let mut severe = false;
        let mut k: usize = 0;
        while k < active.len()
            invariant
                0 <= k <= active@.len(),
                av == active@.map_values(|i: Incident| i@),
                severe == exists|j: int| 0 <= j < k && severity_rank(#[trigger] av[j].severity) >= 2,
            decreases active@.len() - k,
        {
            if severity_at_least(active[k].severity, IncidentSeverity::High) {
                assert(severity_rank(av[k as int].severity) >= 2);
                severe = true;
            }
            proof {
                if severe && !(exists|j: int| 0 <= j < k && severity_rank(#[trigger] av[j].severity) >= 2) {
                    assert(severity_rank(av[k as int].severity) >= 2);
                }
            }
            k = k + 1;
        }
        let mut unhealthy = false;
        let mut m: usize = 0;
        while m < checks.len()
            invariant
                0 <= m <= checks@.len(),
                cv == checks@.map_values(|c: HealthCheckResult| c@),
                unhealthy == exists|j: int| 0 <= j < m && !(#[trigger] cv[j]).1,
            decreases checks@.len() - m,
        {
            if !checks[m].healthy {
                assert(!cv[m as int].1);
                unhealthy = true;
            }
            proof {
                if unhealthy && !(exists|j: int| 0 <= j < m && !(#[trigger] cv[j]).1) {
                    assert(!cv[m as int].1);
                }
            }
            m = m + 1;
        }
        let overall = if status.is_tripped {
            SystemHealth::Critical
        } else if severe {
            SystemHealth::Degraded
        } else if unhealthy {
            SystemHealth::Warning
        } else {
            SystemHealth::Healthy
        };
        proof {
            assert(av.len() == active@.len());
            assert(cv.len() == checks@.len());
        }
        Ok(
            SystemHealthStatus {
                overall_health: overall,
                health_checks: checks,
                circuit_breaker_tripped: status.is_tripped,
                active_incidents_count: active.len(),
                last_health_check: now,
            },
        )
    }

    /// Hands over the queued events, oldest first, and empties the queue.
    pub fn take_events(&mut self) -> (r: Vec<IncidentEvent>)
        ensures
            r@.map_values(|e: IncidentEvent| e@) == old(self).spec_events(),
            final(self).spec_events().len() == 0,
            final(self).spec_incident_list() == old(self).spec_incident_list(),
            final(self).spec_breaker() == old(self).spec_breaker(),
            final(self).spec_monitor() == old(self).spec_monitor(),
            final(self).spec_config() == old(self).spec_config(),
            old(self).wf() ==> final(self).wf(),
    {
        let mut out: Vec<IncidentEvent> = Vec::new();
        std::mem::swap(&mut out, &mut self.outbox);
        out
    }
}

} // verus!
