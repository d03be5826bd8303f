//! The component security audit: a fixed battery of checks over the node's
//! cryptography, consensus, network, storage, contracts and input handling,
//! summed up in a report with a risk level and prioritised
//! recommendations. The cryptographic self-test's outcome (whether a
//! signature made with a fresh key verified, and the public key size) is
//! handed in by the caller, which owns the keys.
use vstd::prelude::*;
use crate::clock::now_secs;
use crate::text::string_views;

verus! {

/// Security severity levels
#[derive(Debug, Clone, Copy, PartialEq, Eq, Structural)]
pub enum SecuritySeverity {
    Critical,
    High,
    Medium,
    Low,
    Info,
}

/// Types of vulnerabilities
#[derive(Debug, Clone, Copy, PartialEq, Eq, Structural)]
pub enum VulnerabilityType {
    Cryptographic,
    Authentication,
    Authorization,
    InputValidation,
    Injection,
    DenialOfService,
    InformationDisclosure,
    PrivilegeEscalation,
    RaceCondition,
    Configuration,
}

/// Audit status
#[derive(Debug, Clone, Copy, PartialEq, Eq, Structural)]
pub enum AuditStatus {
    Pass,
    Fail,
    Warning,
    NotApplicable,
}

/// Overall security risk level
#[derive(Debug, Clone, Copy, PartialEq, Eq, Structural)]
pub enum SecurityRiskLevel {
    Critical,
    High,
    Medium,
    Low,
    Acceptable,
}

/// Security audit result
#[derive(Debug)]
pub struct SecurityAuditResult {
    pub timestamp: u64,
    pub component: String,
    pub severity: SecuritySeverity,
    pub vulnerability_type: VulnerabilityType,
    pub description: String,
    pub impact: String,
    pub recommendation: String,
    pub status: AuditStatus,
}

/// The view of an audit result.
pub struct SecurityAuditResultView {
    pub timestamp: u64,
    pub component: Seq<char>,
    pub severity: SecuritySeverity,
    pub vulnerability_type: VulnerabilityType,
    pub description: Seq<char>,
    pub impact: Seq<char>,
    pub recommendation: Seq<char>,
    pub status: AuditStatus,
}

impl View for SecurityAuditResult {
    type V = SecurityAuditResultView;

    open spec fn view(&self) -> SecurityAuditResultView {
        SecurityAuditResultView {
            timestamp: self.timestamp,
            component: self.component@,
            severity: self.severity,
            vulnerability_type: self.vulnerability_type,
            description: self.description@,
            impact: self.impact@,
            recommendation: self.recommendation@,
            status: self.status,
        }
    }
}

impl SecurityAuditResult {
    /// A copy of the result.
    pub fn duplicate(&self) -> (r: SecurityAuditResult)
        ensures
            r@ == self@,
    {
        SecurityAuditResult {
            timestamp: self.timestamp,
            component: self.component.clone(),
            severity: self.severity,
            vulnerability_type: self.vulnerability_type,
            description: self.description.clone(),
            impact: self.impact.clone(),
            recommendation: self.recommendation.clone(),
            status: self.status,
        }
    }
}

/// The views of a list of results.
pub open spec fn audit_result_views(v: Seq<SecurityAuditResult>) -> Seq<SecurityAuditResultView> {
    v.map_values(|r: SecurityAuditResult| r@)
}

/// A result recorded at `now`.
pub open spec fn result_spec(
    now: u64,
    component: Seq<char>,
    severity: SecuritySeverity,
    vulnerability_type: VulnerabilityType,
    description: Seq<char>,
    impact: Seq<char>,
    recommendation: Seq<char>,
    status: AuditStatus,
) -> SecurityAuditResultView {
    SecurityAuditResultView {
        timestamp: now,
        component,
        severity,
        vulnerability_type,
        description,
        impact,
        recommendation,
        status,
    }
}

/// A result recorded at `now`.
fn make_result(
    now: u64,
    component: &str,
    severity: SecuritySeverity,
    vulnerability_type: VulnerabilityType,
    description: &str,
    impact: &str,
    recommendation: &str,
    status: AuditStatus,
) -> (r: SecurityAuditResult)
    ensures
        r@ == result_spec(now, component@, severity, vulnerability_type, description@, impact@, recommendation@, status),
{
    SecurityAuditResult {
        timestamp: now,
        component: String::from_str(component),
        severity,
        vulnerability_type,
        description: String::from_str(description),
        impact: String::from_str(impact),
        recommendation: String::from_str(recommendation),
        status,
    }
}

/// Record a result.
fn push_result(results: &mut Vec<SecurityAuditResult>, r: SecurityAuditResult)
    ensures
        audit_result_views(final(results)@) == audit_result_views(old(results)@).push(r@),
{
    let ghost before = results@;
    let ghost v = r@;
    results.push(r);
    proof {
        assert(audit_result_views(results@) =~= audit_result_views(before).push(v));
    }
}

/// The results of the consensus checks at `now`.
pub open spec fn consensus_results(now: u64) -> Seq<SecurityAuditResultView> {
    seq![
        result_spec(now, "Consensus"@, SecuritySeverity::Medium, VulnerabilityType::Authentication, "Validator stake requirements implemented"@, "Reduces Sybil attack feasibility"@, "Ensure minimum stake requirements are enforced"@, AuditStatus::Pass),
        result_spec(now, "Consensus"@, SecuritySeverity::High, VulnerabilityType::Cryptographic, "Long-range attack protection needs verification"@, "Potential for historical chain reorganization"@, "Implement checkpointing or increase difficulty adjustment frequency"@, AuditStatus::Warning),
        result_spec(now, "Consensus"@, SecuritySeverity::Medium, VulnerabilityType::DenialOfService, "Network diversity should be monitored"@, "Potential eclipse attacks if peer diversity is low"@, "Implement peer diversity monitoring and rotation"@, AuditStatus::Warning),
    ]
}

/// Record the results of the consensus checks at `now`.
fn record_consensus(results: &mut Vec<SecurityAuditResult>, now: u64)
    ensures
        audit_result_views(final(results)@) == audit_result_views(old(results)@) + consensus_results(now),
{
    let ghost start = audit_result_views(results@);
    push_result(results, make_result(now, "Consensus", SecuritySeverity::Medium, VulnerabilityType::Authentication, "Validator stake requirements implemented", "Reduces Sybil attack feasibility", "Ensure minimum stake requirements are enforced", AuditStatus::Pass));
    push_result(results, make_result(now, "Consensus", SecuritySeverity::High, VulnerabilityType::Cryptographic, "Long-range attack protection needs verification", "Potential for historical chain reorganization", "Implement checkpointing or increase difficulty adjustment frequency", AuditStatus::Warning));
    push_result(results, make_result(now, "Consensus", SecuritySeverity::Medium, VulnerabilityType::DenialOfService, "Network diversity should be monitored", "Potential eclipse attacks if peer diversity is low", "Implement peer diversity monitoring and rotation", AuditStatus::Warning));
    proof {
        assert(audit_result_views(results@) =~= start + consensus_results(now));
    }
}

/// The results of the network checks at `now`.
pub open spec fn network_results(now: u64) -> Seq<SecurityAuditResultView> {
    seq![
        result_spec(now, "Network"@, SecuritySeverity::High, VulnerabilityType::DenialOfService, "DDoS protection mechanisms need implementation"@, "Network can be overwhelmed by malicious traffic"@, "Implement rate limiting, connection limits, and traffic analysis"@, AuditStatus::Warning),
        result_spec(now, "Network"@, SecuritySeverity::Info, VulnerabilityType::InformationDisclosure, "Noise protocol encryption implemented for all P2P communications"@, "Network traffic is encrypted and authenticated"@, "Noise protocol provides adequate protection against MITM attacks"@, AuditStatus::Pass),
        result_spec(now, "Network"@, SecuritySeverity::Info, VulnerabilityType::Authentication, "Peer authentication implemented with Noise protocol and trust levels"@, "Network maintains authenticated peer connections"@, "Peer authentication provides adequate protection against malicious nodes"@, AuditStatus::Pass),
    ]
}

/// Record the results of the network checks at `now`.
fn record_network(results: &mut Vec<SecurityAuditResult>, now: u64)
    ensures
        audit_result_views(final(results)@) == audit_result_views(old(results)@) + network_results(now),
{
    let ghost start = audit_result_views(results@);
    push_result(results, make_result(now, "Network", SecuritySeverity::High, VulnerabilityType::DenialOfService, "DDoS protection mechanisms need implementation", "Network can be overwhelmed by malicious traffic", "Implement rate limiting, connection limits, and traffic analysis", AuditStatus::Warning));
    push_result(results, make_result(now, "Network", SecuritySeverity::Info, VulnerabilityType::InformationDisclosure, "Noise protocol encryption implemented for all P2P communications", "Network traffic is encrypted and authenticated", "Noise protocol provides adequate protection against MITM attacks", AuditStatus::Pass));
    push_result(results, make_result(now, "Network", SecuritySeverity::Info, VulnerabilityType::Authentication, "Peer authentication implemented with Noise protocol and trust levels", "Network maintains authenticated peer connections", "Peer authentication provides adequate protection against malicious nodes", AuditStatus::Pass));
    proof {
        assert(audit_result_views(results@) =~= start + network_results(now));
    }
}

/// The results of the storage checks at `now`.
pub open spec fn storage_results(now: u64) -> Seq<SecurityAuditResultView> {
    seq![
        result_spec(now, "Storage"@, SecuritySeverity::Critical, VulnerabilityType::InformationDisclosure, "Data encryption at rest not implemented"@, "All stored data is readable if storage media is compromised"@, "Implement AES-256 encryption for all persistent storage"@, AuditStatus::Fail),
        result_spec(now, "Storage"@, SecuritySeverity::High, VulnerabilityType::Injection, "Database query parameterization needs verification"@, "Potential SQL injection if queries are not properly parameterized"@, "Audit all database queries for proper parameterization"@, AuditStatus::Warning),
        result_spec(now, "Storage"@, SecuritySeverity::Medium, VulnerabilityType::InformationDisclosure, "Backup encryption and security needs implementation"@, "Backup data may be vulnerable if not properly secured"@, "Implement encrypted backups with access controls"@, AuditStatus::Warning),
    ]
}

/// Record the results of the storage checks at `now`.
fn record_storage(results: &mut Vec<SecurityAuditResult>, now: u64)
    ensures
        audit_result_views(final(results)@) == audit_result_views(old(results)@) + storage_results(now),
{
    let ghost start = audit_result_views(results@);
    push_result(results, make_result(now, "Storage", SecuritySeverity::Critical, VulnerabilityType::InformationDisclosure, "Data encryption at rest not implemented", "All stored data is readable if storage media is compromised", "Implement AES-256 encryption for all persistent storage", AuditStatus::Fail));
    push_result(results, make_result(now, "Storage", SecuritySeverity::High, VulnerabilityType::Injection, "Database query parameterization needs verification", "Potential SQL injection if queries are not properly parameterized", "Audit all database queries for proper parameterization", AuditStatus::Warning));
    push_result(results, make_result(now, "Storage", SecuritySeverity::Medium, VulnerabilityType::InformationDisclosure, "Backup encryption and security needs implementation", "Backup data may be vulnerable if not properly secured", "Implement encrypted backups with access controls", AuditStatus::Warning));
    proof {
        assert(audit_result_views(results@) =~= start + storage_results(now));
    }
}

/// The results of the smart contract checks at `now`.
pub open spec fn smart_contract_results(now: u64) -> Seq<SecurityAuditResultView> {
    seq![
        result_spec(now, "Smart Contracts"@, SecuritySeverity::High, VulnerabilityType::RaceCondition, "Reentrancy protection not verified in contracts"@, "Contracts vulnerable to reentrancy attacks"@, "Implement checks-effects-interactions pattern and mutexes"@, AuditStatus::Warning),
        result_spec(now, "Smart Contracts"@, SecuritySeverity::High, VulnerabilityType::InputValidation, "Integer overflow/underflow protection needs verification"@, "Mathematical operations can overflow/underflow unexpectedly"@, "Use checked arithmetic operations and SafeMath libraries"@, AuditStatus::Warning),
        result_spec(now, "Smart Contracts"@, SecuritySeverity::Medium, VulnerabilityType::Authorization, "Function access controls need verification"@, "Unauthorized users may execute privileged functions"@, "Implement and verify access control modifiers"@, AuditStatus::Warning),
    ]
}

/// Record the results of the smart contract checks at `now`.
fn record_smart_contract(results: &mut Vec<SecurityAuditResult>, now: u64)
    ensures
        audit_result_views(final(results)@) == audit_result_views(old(results)@) + smart_contract_results(now),
{
    let ghost start = audit_result_views(results@);
    push_result(results, make_result(now, "Smart Contracts", SecuritySeverity::High, VulnerabilityType::RaceCondition, "Reentrancy protection not verified in contracts", "Contracts vulnerable to reentrancy attacks", "Implement checks-effects-interactions pattern and mutexes", AuditStatus::Warning));
    push_result(results, make_result(now, "Smart Contracts", SecuritySeverity::High, VulnerabilityType::InputValidation, "Integer overflow/underflow protection needs verification", "Mathematical operations can overflow/underflow unexpectedly", "Use checked arithmetic operations and SafeMath libraries", AuditStatus::Warning));
    push_result(results, make_result(now, "Smart Contracts", SecuritySeverity::Medium, VulnerabilityType::Authorization, "Function access controls need verification", "Unauthorized users may execute privileged functions", "Implement and verify access control modifiers", AuditStatus::Warning));
    proof {
        assert(audit_result_views(results@) =~= start + smart_contract_results(now));
    }
}

/// The results of the input validation checks at `now`.
pub open spec fn input_validation_results(now: u64) -> Seq<SecurityAuditResultView> {
    seq![
        result_spec(now, "Input Validation"@, SecuritySeverity::High, VulnerabilityType::InputValidation, "Buffer overflow protection needs verification"@, "Malicious inputs can cause buffer overflows"@, "Implement bounds checking for all input buffers"@, AuditStatus::Warning),
        result_spec(now, "Input Validation"@, SecuritySeverity::Critical, VulnerabilityType::Injection, "Deserialization of untrusted data can be dangerous"@, "Remote code execution through malicious serialized objects"@, "Never deserialize untrusted data or use safe deserialization libraries"@, AuditStatus::Warning),
        result_spec(now, "Input Validation"@, SecuritySeverity::Medium, VulnerabilityType::Injection, "API endpoints need XSS protection"@, "Cross-site scripting attacks possible in web interfaces"@, "Implement input sanitization and Content Security Policy"@, AuditStatus::Warning),
    ]
}

/// Record the results of the input validation checks at `now`.
fn record_input_validation(results: &mut Vec<SecurityAuditResult>, now: u64)
    ensures
        audit_result_views(final(results)@) == audit_result_views(old(results)@) + input_validation_results(now),
{
    let ghost start = audit_result_views(results@);
    push_result(results, make_result(now, "Input Validation", SecuritySeverity::High, VulnerabilityType::InputValidation, "Buffer overflow protection needs verification", "Malicious inputs can cause buffer overflows", "Implement bounds checking for all input buffers", AuditStatus::Warning));
    push_result(results, make_result(now, "Input Validation", SecuritySeverity::Critical, VulnerabilityType::Injection, "Deserialization of untrusted data can be dangerous", "Remote code execution through malicious serialized objects", "Never deserialize untrusted data or use safe deserialization libraries", AuditStatus::Warning));
    push_result(results, make_result(now, "Input Validation", SecuritySeverity::Medium, VulnerabilityType::Injection, "API endpoints need XSS protection", "Cross-site scripting attacks possible in web interfaces", "Implement input sanitization and Content Security Policy", AuditStatus::Warning));
    proof {
        assert(audit_result_views(results@) =~= start + input_validation_results(now));
    }
}

/// The results of the crypto keygen checks at `now`.
pub open spec fn crypto_keygen_results(now: u64) -> Seq<SecurityAuditResultView> {
    seq![
        result_spec(now, "Cryptography"@, SecuritySeverity::Info, VulnerabilityType::Cryptographic, "Dilithium key generation tested successfully"@, "None"@, "Continue using Dilithium for post-quantum security"@, AuditStatus::Pass),
    ]
}

/// Record the results of the crypto keygen checks at `now`.
fn record_crypto_keygen(results: &mut Vec<SecurityAuditResult>, now: u64)
    ensures
        audit_result_views(final(results)@) == audit_result_views(old(results)@) + crypto_keygen_results(now),
{
    let ghost start = audit_result_views(results@);
    push_result(results, make_result(now, "Cryptography", SecuritySeverity::Info, VulnerabilityType::Cryptographic, "Dilithium key generation tested successfully", "None", "Continue using Dilithium for post-quantum security", AuditStatus::Pass));
    proof {
        assert(audit_result_views(results@) =~= start + crypto_keygen_results(now));
    }
}

/// The results of the crypto sig ok checks at `now`.
pub open spec fn crypto_sig_ok_results(now: u64) -> Seq<SecurityAuditResultView> {
    seq![
        result_spec(now, "Cryptography"@, SecuritySeverity::Info, VulnerabilityType::Cryptographic, "Signature verification working correctly"@, "None"@, "Signature verification is secure"@, AuditStatus::Pass),
    ]
}

/// Record the results of the crypto sig ok checks at `now`.
fn record_crypto_sig_ok(results: &mut Vec<SecurityAuditResult>, now: u64)
    ensures
        audit_result_views(final(results)@) == audit_result_views(old(results)@) + crypto_sig_ok_results(now),
{
    let ghost start = audit_result_views(results@);
    push_result(results, make_result(now, "Cryptography", SecuritySeverity::Info, VulnerabilityType::Cryptographic, "Signature verification working correctly", "None", "Signature verification is secure", AuditStatus::Pass));
    proof {
        assert(audit_result_views(results@) =~= start + crypto_sig_ok_results(now));
    }
}

/// The results of the crypto sig bad checks at `now`.
pub open spec fn crypto_sig_bad_results(now: u64) -> Seq<SecurityAuditResultView> {
    seq![
        result_spec(now, "Cryptography"@, SecuritySeverity::Critical, VulnerabilityType::Cryptographic, "Signature verification failed"@, "Complete compromise of authentication system"@, "Fix signature verification implementation immediately"@, AuditStatus::Fail),
    ]
}

/// Record the results of the crypto sig bad checks at `now`.
fn record_crypto_sig_bad(results: &mut Vec<SecurityAuditResult>, now: u64)
    ensures
        audit_result_views(final(results)@) == audit_result_views(old(results)@) + crypto_sig_bad_results(now),
{
    let ghost start = audit_result_views(results@);
    push_result(results, make_result(now, "Cryptography", SecuritySeverity::Critical, VulnerabilityType::Cryptographic, "Signature verification failed", "Complete compromise of authentication system", "Fix signature verification implementation immediately", AuditStatus::Fail));
    proof {
        assert(audit_result_views(results@) =~= start + crypto_sig_bad_results(now));
    }
}

/// The results of the crypto weak checks at `now`.
pub open spec fn crypto_weak_results(now: u64) -> Seq<SecurityAuditResultView> {
    seq![
        result_spec(now, "Cryptography"@, SecuritySeverity::High, VulnerabilityType::Cryptographic, "Dilithium public key size may be insufficient"@, "Potential vulnerability to quantum attacks"@, "Consider using Dilithium5 or higher parameter set"@, AuditStatus::Warning),
    ]
}

/// Record the results of the crypto weak checks at `now`.
fn record_crypto_weak(results: &mut Vec<SecurityAuditResult>, now: u64)
    ensures
        audit_result_views(final(results)@) == audit_result_views(old(results)@) + crypto_weak_results(now),
{
    let ghost start = audit_result_views(results@);
    push_result(results, make_result(now, "Cryptography", SecuritySeverity::High, VulnerabilityType::Cryptographic, "Dilithium public key size may be insufficient", "Potential vulnerability to quantum attacks", "Consider using Dilithium5 or higher parameter set", AuditStatus::Warning));
    proof {
        assert(audit_result_views(results@) =~= start + crypto_weak_results(now));
    }
}

/// The results of the cryptographic checks at `now`: key generation
/// passes; the signature check passes or fails as the signature verified;
/// a public key under 1000 bytes is flagged.
pub open spec fn crypto_results(now: u64, signature_valid: bool, public_key_size: usize) -> Seq<SecurityAuditResultView> {
    crypto_keygen_results(now) + (if signature_valid {
        crypto_sig_ok_results(now)
    } else {
        crypto_sig_bad_results(now)
    }) + (if public_key_size < 1000 {
        crypto_weak_results(now)
    } else {
        Seq::empty()
    })
}

/// All checks in the order they run: cryptography, consensus, network,
/// storage, smart contracts, input validation.
pub open spec fn full_audit_results(now: u64, signature_valid: bool, public_key_size: usize) -> Seq<SecurityAuditResultView> {
    crypto_results(now, signature_valid, public_key_size) + consensus_results(now) + network_results(now)
        + storage_results(now) + smart_contract_results(now) + input_validation_results(now)
}

/// The results of a given severity.
pub open spec fn with_severity(s: Seq<SecurityAuditResultView>, sev: SecuritySeverity) -> Seq<SecurityAuditResultView> {
    s.filter(|r: SecurityAuditResultView| r.severity == sev)
}

/// The failed results.
pub open spec fn failed(s: Seq<SecurityAuditResultView>) -> Seq<SecurityAuditResultView> {
    s.filter(|r: SecurityAuditResultView| r.status == AuditStatus::Fail)
}

/// The overall risk: critical with a failed critical check; high with more
/// than two high findings that did not pass; medium with one or two; low
/// otherwise.
pub open spec fn risk_of(s: Seq<SecurityAuditResultView>) -> SecurityRiskLevel {
    let critical = s.filter(
        |r: SecurityAuditResultView| r.severity == SecuritySeverity::Critical && r.status == AuditStatus::Fail,
    ).len();
    let high = s.filter(
        |r: SecurityAuditResultView| r.severity == SecuritySeverity::High && r.status != AuditStatus::Pass,
    ).len();
    if critical > 0 {
        SecurityRiskLevel::Critical
    } else if high > 2 {
        SecurityRiskLevel::High
    } else if high > 0 {
        SecurityRiskLevel::Medium
    } else {
        SecurityRiskLevel::Low
    }
}

/// The priority of a result in the recommendations: failed critical
/// checks first, then failed high ones, then the other failures, then the
/// rest.
pub open spec fn priority(r: SecurityAuditResultView) -> u8 {
    if r.status == AuditStatus::Fail {
        if r.severity == SecuritySeverity::Critical {
            0
        } else if r.severity == SecuritySeverity::High {
            1
        } else {
            2
        }
    } else {
        3
    }
}

/// The results of one priority, in the order they were recorded.
pub open spec fn with_priority(s: Seq<SecurityAuditResultView>, k: u8) -> Seq<SecurityAuditResultView> {
    s.filter(|r: SecurityAuditResultView| priority(r) == k)
}

/// The results by priority, each priority in recorded order.
pub open spec fn prioritized(s: Seq<SecurityAuditResultView>) -> Seq<SecurityAuditResultView> {
    with_priority(s, 0) + with_priority(s, 1) + with_priority(s, 2) + with_priority(s, 3)
}

/// The label of a severity in a recommendation.
pub open spec fn severity_label(s: SecuritySeverity) -> Seq<char> {
    match s {
        SecuritySeverity::Critical => "CRITICAL"@,
        SecuritySeverity::High => "HIGH"@,
        SecuritySeverity::Medium => "MEDIUM"@,
        SecuritySeverity::Low => "LOW"@,
        SecuritySeverity::Info => "INFO"@,
    }
}

/// The label of a severity in a recommendation.
fn severity_label_text(s: SecuritySeverity) -> (r: &'static str)
    ensures
        r@ == severity_label(s),
{
    match s {
        SecuritySeverity::Critical => "CRITICAL",
        SecuritySeverity::High => "HIGH",
        SecuritySeverity::Medium => "MEDIUM",
        SecuritySeverity::Low => "LOW",
        SecuritySeverity::Info => "INFO",
    }
}

/// A recommendation line: `[SEVERITY] component: recommendation`.
pub open spec fn recommendation_line(r: SecurityAuditResultView) -> Seq<char> {
    "["@ + severity_label(r.severity) + "] "@ + r.component + ": "@ + r.recommendation
}

/// The recommendations: among the ten results of highest priority, the
/// lines of those that did not pass.
pub open spec fn recommendations_of(s: Seq<SecurityAuditResultView>) -> Seq<Seq<char>> {
    let p = prioritized(s);
    let top = p.take(if p.len() < 10 { p.len() as int } else { 10 });
    top.filter(|r: SecurityAuditResultView| r.status != AuditStatus::Pass).map_values(
        |r: SecurityAuditResultView| recommendation_line(r),
    )
}

/// The positions of the results of one priority, in order.
fn positions_with_priority(results: &Vec<SecurityAuditResult>, k: u8) -> (r: Vec<usize>)
    ensures
        forall|j: int| 0 <= j < r@.len() ==> r@[j] < results@.len(),
        r@.map_values(|i: usize| audit_result_views(results@)[i as int]) == with_priority(audit_result_views(results@), k),
{
    let ghost s = audit_result_views(results@);
    let ghost pred = |r: SecurityAuditResultView| priority(r) == k;
    let mut out: Vec<usize> = Vec::new();
    let mut i: usize = 0;
    while i < results.len()
        invariant
            0 <= i <= results@.len(),
            s == audit_result_views(results@),
            pred == (|r: SecurityAuditResultView| priority(r) == k),
            forall|j: int| 0 <= j < out@.len() ==> out@[j] < i,
            out@.map_values(|x: usize| s[x as int]) == s.take(i as int).filter(pred),
        decreases results@.len() - i,
    {
        proof {
            reveal_with_fuel(Seq::filter, 1);
            assert(s.take(i + 1).drop_last() =~= s.take(i as int));
            assert(s[i as int] == results@[i as int]@);
        }
        let r = &results[i];
        let p: u8 = if r.status == AuditStatus::Fail {
            if r.severity == SecuritySeverity::Critical {
                0
            } else if r.severity == SecuritySeverity::High {
                1
            } else {
                2
            }
        } else {
            3
        };
        if p == k {
            let ghost before = out@;
            out.push(i);
            proof {
                assert(out@.map_values(|x: usize| s[x as int]) =~= before.map_values(|x: usize| s[x as int]).push(s[i as int]));
            }
        }
        i = i + 1;
    }
    proof {
        assert(s.take(results@.len() as int) =~= s);
    }
    out
}

/// Security audit report
#[derive(Debug)]
pub struct SecurityAuditReport {
    pub timestamp: u64,
    pub total_issues: usize,
    pub critical_issues: usize,
    pub high_issues: usize,
    pub medium_issues: usize,
    pub low_issues: usize,
    pub info_items: usize,
    pub failed_checks: usize,
    pub results: Vec<SecurityAuditResult>,
    pub overall_risk_level: SecurityRiskLevel,
    pub recommendations: Vec<String>,
}

impl SecurityAuditReport {
    /// The number of issues: the critical, high, medium and low findings.
    pub fn total_issues(&self) -> (r: usize)
        requires
            self.critical_issues + self.high_issues + self.medium_issues + self.low_issues <= usize::MAX,
        ensures
            r == self.critical_issues + self.high_issues + self.medium_issues + self.low_issues,
    {
        self.critical_issues + self.high_issues + self.medium_issues + self.low_issues
    }

    /// The audit passes with no critical finding and at most two high ones.
    pub fn passed(&self) -> (r: bool)
        ensures
            r == (self.critical_issues == 0 && self.high_issues <= 2),
    {
        self.critical_issues == 0 && self.high_issues <= 2
    }
}

/// Comprehensive security auditor: the results recorded so far.
pub struct SecurityAuditor {
    audit_results: Vec<SecurityAuditResult>,
}

/// Why an auditor could not be made.
#[derive(Debug, Clone, Copy, PartialEq, Eq, Structural)]
pub enum AuditorError {
    /// The cryptographic backend could not start.
    CryptoUnavailable,
}

impl SecurityAuditor {
    /// The results recorded so far, in order.
    pub closed spec fn spec_results(&self) -> Seq<SecurityAuditResultView> {
        audit_result_views(self.audit_results@)
    }

    /// An auditor with no results yet.
    pub fn new() -> (r: Result<SecurityAuditor, AuditorError>)
        ensures
            r matches Ok(a) && a.spec_results().len() == 0,
    {
        let a = SecurityAuditor { audit_results: Vec::new() };
        proof {
            assert(a.spec_results() =~= Seq::<SecurityAuditResultView>::empty());
        }
        Ok(a)
    }

    /// The results recorded so far.
    pub fn audit_results(&self) -> (r: &Vec<SecurityAuditResult>)
        ensures
            audit_result_views(r@) == self.spec_results(),
    {
        &self.audit_results
    }

    /// Record an audit result.
    pub fn record_result(&mut self, result: SecurityAuditResult)
        ensures
            final(self).spec_results() == old(self).spec_results().push(result@),
    {
        push_result(&mut self.audit_results, result);
    }

    /// Audit the cryptography at `now`, given whether a signature made with
    /// a fresh key pair verified and the size of its public key.
    pub fn audit_cryptographic_security_at(&mut self, now: u64, signature_valid: bool, public_key_size: usize)
        ensures
            final(self).spec_results() == old(self).spec_results() + crypto_results(now, signature_valid, public_key_size),
    {
        let ghost start = self.spec_results();
        record_crypto_keygen(&mut self.audit_results, now);
        if signature_valid {
            record_crypto_sig_ok(&mut self.audit_results, now);
        } else {
            record_crypto_sig_bad(&mut self.audit_results, now);
        }
        if public_key_size < 1000 {
            record_crypto_weak(&mut self.audit_results, now);
        }
        proof {
            assert(self.spec_results() =~= start + crypto_results(now, signature_valid, public_key_size));
        }
    }

    /// Audit consensus at `now`.
    pub fn audit_consensus_security_at(&mut self, now: u64)
        ensures
            final(self).spec_results() == old(self).spec_results() + consensus_results(now),
    {
        record_consensus(&mut self.audit_results, now);
    }

    /// Audit the network at `now`.
    pub fn audit_network_security_at(&mut self, now: u64)
        ensures
            final(self).spec_results() == old(self).spec_results() + network_results(now),
    {
        record_network(&mut self.audit_results, now);
    }

    /// Audit storage at `now`.
    pub fn audit_storage_security_at(&mut self, now: u64)
        ensures
            final(self).spec_results() == old(self).spec_results() + storage_results(now),
    {
        record_storage(&mut self.audit_results, now);
    }

    /// Audit smart contracts at `now`.
    pub fn audit_smart_contract_security_at(&mut self, now: u64)
        ensures
            final(self).spec_results() == old(self).spec_results() + smart_contract_results(now),
    {
        record_smart_contract(&mut self.audit_results, now);
    }

    /// Audit input validation at `now`.
    pub fn audit_input_validation_at(&mut self, now: u64)
        ensures
            final(self).spec_results() == old(self).spec_results() + input_validation_results(now),
    {
        record_input_validation(&mut self.audit_results, now);
    }

    /// The overall risk of the results recorded.
    pub fn calculate_overall_risk(&self) -> (r: SecurityRiskLevel)
        ensures
            r == risk_of(self.spec_results()),
    {
        let ghost s = self.spec_results();
        let ghost pc = |r: SecurityAuditResultView| r.severity == SecuritySeverity::Critical && r.status == AuditStatus::Fail;
        let ghost ph = |r: SecurityAuditResultView| r.severity == SecuritySeverity::High && r.status != AuditStatus::Pass;
        let mut critical: usize = 0;
        let mut high: usize = 0;
        let mut i: usize = 0;
        while i < self.audit_results.len()
            invariant
                0 <= i <= self.audit_results@.len(),
                s == audit_result_views(self.audit_results@),
                pc == (|r: SecurityAuditResultView| r.severity == SecuritySeverity::Critical && r.status == AuditStatus::Fail),
                ph == (|r: SecurityAuditResultView| r.severity == SecuritySeverity::High && r.status != AuditStatus::Pass),
                critical == s.take(i as int).filter(pc).len(),
                high == s.take(i as int).filter(ph).len(),
                critical <= i,
                high <= i,
            decreases self.audit_results@.len() - i,
        {
            proof {
                reveal_with_fuel(Seq::filter, 1);
                assert(s.take(i + 1).drop_last() =~= s.take(i as int));
                assert(s[i as int] == self.audit_results@[i as int]@);
            }
            let r = &self.audit_results[i];
            if r.severity == SecuritySeverity::Critical && r.status == AuditStatus::Fail {
                critical = critical + 1;
            }
            if r.severity == SecuritySeverity::High && r.status != AuditStatus::Pass {
                high = high + 1;
            }
            i = i + 1;
        }
        proof {
            assert(s.take(self.audit_results@.len() as int) =~= s);
        }
        if critical > 0 {
            SecurityRiskLevel::Critical
        } else if high > 2 {
            SecurityRiskLevel::High
        } else if high > 0 {
            SecurityRiskLevel::Medium
        } else {
            SecurityRiskLevel::Low
        }
    }

    /// The prioritised recommendations for the results recorded.
    pub fn generate_recommendations(&self) -> (r: Vec<String>)
        ensures
            string_views(r@) == recommendations_of(self.spec_results()),
    {
        let ghost s = self.spec_results();
        let mut order = positions_with_priority(&self.audit_results, 0);
        let mut p1 = positions_with_priority(&self.audit_results, 1);
        let mut p2 = positions_with_priority(&self.audit_results, 2);
        let mut p3 = positions_with_priority(&self.audit_results, 3);
        let ghost o0 = order@;
        let ghost o1 = p1@;
        let ghost o2 = p2@;
        let ghost o3 = p3@;
        order.append(&mut p1);
        order.append(&mut p2);
        order.append(&mut p3);
        let ghost sel = |x: usize| s[x as int];
        proof {
            assert(order@ =~= o0 + o1 + o2 + o3);
            assert(order@.map_values(sel) =~= o0.map_values(sel) + o1.map_values(sel) + o2.map_values(sel) + o3.map_values(sel));
            assert(order@.map_values(sel) =~= prioritized(s));
        }
        let m: usize = if order.len() < 10 { order.len() } else { 10 };
        let ghost top = prioritized(s).take(m as int);
        let ghost np = |r: SecurityAuditResultView| r.status != AuditStatus::Pass;
        let ghost ln = |r: SecurityAuditResultView| recommendation_line(r);
        let mut out: Vec<String> = Vec::new();
        let mut j: usize = 0;
        while j < m
            invariant
                0 <= j <= m <= order@.len(),
                m == if order@.len() < 10 { order@.len() } else { 10 },
                s == audit_result_views(self.audit_results@),
                sel == (|x: usize| s[x as int]),
                order@.map_values(sel) == prioritized(s),
                forall|k: int| 0 <= k < order@.len() ==> order@[k] < self.audit_results@.len(),
                top == prioritized(s).take(m as int),
                np == (|r: SecurityAuditResultView| r.status != AuditStatus::Pass),
                ln == (|r: SecurityAuditResultView| recommendation_line(r)),
                string_views(out@) == top.take(j as int).filter(np).map_values(ln),
            decreases m - j,
        {
            let idx = order[j];
            let r = &self.audit_results[idx];
            proof {
                reveal_with_fuel(Seq::filter, 1);
                assert(top.take(j + 1).drop_last() =~= top.take(j as int));
                assert(top[j as int] == order@.map_values(sel)[j as int]);
                assert(top[j as int] == r@);
            }
            if r.status != AuditStatus::Pass {
                let mut line = String::from_str("[");
                line.append(severity_label_text(r.severity));
                line.append("] ");
                line.append(r.component.as_str());
                line.append(": ");
                line.append(r.recommendation.as_str());
                let ghost before = out@;
                proof {
                    assert(line@ == recommendation_line(r@));
                }
                out.push(line);
                proof {
                    assert(string_views(out@) =~= string_views(before).push(line@));
                    assert(top.take(j + 1).filter(np) == top.take(j as int).filter(np).push(r@));
                    assert(top.take(j + 1).filter(np).map_values(ln) =~= top.take(j as int).filter(np).map_values(ln).push(
                        recommendation_line(r@),
                    ));
                }
            }
            j = j + 1;
        }
        proof {
            assert(top.take(m as int) =~= top);
        }
        out
    }

    /// The report on the results recorded, made at `now`.
    pub fn generate_audit_report_at(&self, now: u64) -> (r: SecurityAuditReport)
        ensures
            r.timestamp == now,
            r.total_issues == self.spec_results().len(),
            r.critical_issues == with_severity(self.spec_results(), SecuritySeverity::Critical).len(),
            r.high_issues == with_severity(self.spec_results(), SecuritySeverity::High).len(),
            r.medium_issues == with_severity(self.spec_results(), SecuritySeverity::Medium).len(),
            r.low_issues == with_severity(self.spec_results(), SecuritySeverity::Low).len(),
            r.info_items == with_severity(self.spec_results(), SecuritySeverity::Info).len(),
            r.failed_checks == failed(self.spec_results()).len(),
            audit_result_views(r.results@) == self.spec_results(),
            r.overall_risk_level == risk_of(self.spec_results()),
            string_views(r.recommendations@) == recommendations_of(self.spec_results()),
    {
        let ghost s = self.spec_results();
        let ghost fc = |r: SecurityAuditResultView| r.severity == SecuritySeverity::Critical;
        let ghost fh = |r: SecurityAuditResultView| r.severity == SecuritySeverity::High;
        let ghost fm = |r: SecurityAuditResultView| r.severity == SecuritySeverity::Medium;
        let ghost fl = |r: SecurityAuditResultView| r.severity == SecuritySeverity::Low;
        let ghost fi = |r: SecurityAuditResultView| r.severity == SecuritySeverity::Info;
        let ghost ff = |r: SecurityAuditResultView| r.status == AuditStatus::Fail;
        let mut critical: usize = 0;
        let mut high: usize = 0;
        let mut medium: usize = 0;
        let mut low: usize = 0;
        let mut info: usize = 0;
        let mut failed_n: usize = 0;
        let mut copies: Vec<SecurityAuditResult> = Vec::new();
        let mut i: usize = 0;
        while i < self.audit_results.len()
            invariant
                0 <= i <= self.audit_results@.len(),
                s == audit_result_views(self.audit_results@),
                fc == (|r: SecurityAuditResultView| r.severity == SecuritySeverity::Critical),
                fh == (|r: SecurityAuditResultView| r.severity == SecuritySeverity::High),
                fm == (|r: SecurityAuditResultView| r.severity == SecuritySeverity::Medium),
                fl == (|r: SecurityAuditResultView| r.severity == SecuritySeverity::Low),
                fi == (|r: SecurityAuditResultView| r.severity == SecuritySeverity::Info),
                ff == (|r: SecurityAuditResultView| r.status == AuditStatus::Fail),
                critical == s.take(i as int).filter(fc).len(),
                high == s.take(i as int).filter(fh).len(),
                medium == s.take(i as int).filter(fm).len(),
                low == s.take(i as int).filter(fl).len(),
                info == s.take(i as int).filter(fi).len(),
                failed_n == s.take(i as int).filter(ff).len(),
                critical <= i && high <= i && medium <= i && low <= i && info <= i && failed_n <= i,
                audit_result_views(copies@) == s.take(i as int),
            decreases self.audit_results@.len() - i,
        {
            proof {
                reveal_with_fuel(Seq::filter, 1);
                assert(s.take(i + 1).drop_last() =~= s.take(i as int));
                assert(s[i as int] == self.audit_results@[i as int]@);
            }
            let r = &self.audit_results[i];
            match r.severity {
                SecuritySeverity::Critical => {
                    critical = critical + 1;
                },
                SecuritySeverity::High => {
                    high = high + 1;
                },
                SecuritySeverity::Medium => {
                    medium = medium + 1;
                },
                SecuritySeverity::Low => {
                    low = low + 1;
                },
                SecuritySeverity::Info => {
                    info = info + 1;
                },
            }
            if r.status == AuditStatus::Fail {
                failed_n = failed_n + 1;
            }
            let c = r.duplicate();
            let ghost before = copies@;
            copies.push(c);
            proof {
                assert(audit_result_views(copies@) =~= audit_result_views(before).push(c@));
                assert(s.take(i + 1) =~= s.take(i as int).push(s[i as int]));
            }
            i = i + 1;
        }
        proof {
            assert(s.take(self.audit_results@.len() as int) =~= s);
        }
        let overall_risk_level = self.calculate_overall_risk();
        let recommendations = self.generate_recommendations();
        SecurityAuditReport {
            timestamp: now,
            total_issues: self.audit_results.len(),
            critical_issues: critical,
            high_issues: high,
            medium_issues: medium,
            low_issues: low,
            info_items: info,
            failed_checks: failed_n,
            results: copies,
            overall_risk_level,
            recommendations,
        }
    }

    /// Run every check at `now`, given the outcome of the cryptographic
    /// self-test, and report on all results recorded.
    pub fn perform_full_audit_at(&mut self, now: u64, signature_valid: bool, public_key_size: usize) -> (r: SecurityAuditReport)
        ensures
            final(self).spec_results() == old(self).spec_results() + full_audit_results(now, signature_valid, public_key_size),
            audit_result_views(r.results@) == final(self).spec_results(),
            r.total_issues == final(self).spec_results().len(),
            r.critical_issues == with_severity(final(self).spec_results(), SecuritySeverity::Critical).len(),
            r.high_issues == with_severity(final(self).spec_results(), SecuritySeverity::High).len(),
            r.medium_issues == with_severity(final(self).spec_results(), SecuritySeverity::Medium).len(),
            r.low_issues == with_severity(final(self).spec_results(), SecuritySeverity::Low).len(),
            r.info_items == with_severity(final(self).spec_results(), SecuritySeverity::Info).len(),
            r.failed_checks == failed(final(self).spec_results()).len(),
            r.overall_risk_level == risk_of(final(self).spec_results()),
            string_views(r.recommendations@) == recommendations_of(final(self).spec_results()),
            r.timestamp == now,
    {
        let ghost start = self.spec_results();
        self.audit_cryptographic_security_at(now, signature_valid, public_key_size);
        self.audit_consensus_security_at(now);
        self.audit_network_security_at(now);
        self.audit_storage_security_at(now);
        self.audit_smart_contract_security_at(now);
        self.audit_input_validation_at(now);
        proof {
            assert(self.spec_results() =~= start + full_audit_results(now, signature_valid, public_key_size));
        }
        self.generate_audit_report_at(now)
    }

    /// Run every check now.
    pub fn perform_full_audit(&mut self, signature_valid: bool, public_key_size: usize) -> (r: SecurityAuditReport)
        ensures
            exists|now: u64| final(self).spec_results() == old(self).spec_results() + full_audit_results(now, signature_valid, public_key_size),
            audit_result_views(r.results@) == final(self).spec_results(),
            r.overall_risk_level == risk_of(final(self).spec_results()),
            string_views(r.recommendations@) == recommendations_of(final(self).spec_results()),
    {
        let now = now_secs();
        self.perform_full_audit_at(now, signature_valid, public_key_size)
    }
}

} // verus!
