//! The automated security auditor: a fixed set of checks whose findings are
//! rated, turned into recommendations and a compliance score, and kept in
//! a history of audits.
use vstd::prelude::*;
use crate::clock::now_secs;
use crate::encoding::{decimal_chars, u64_to_string};
use crate::text::string_views;
use crate::types::str_equal;

verus! {

/// Security severity levels
#[derive(Debug, Clone, Copy, PartialEq, Eq, Structural)]
pub enum Severity {
    Critical,
    High,
    Medium,
    Low,
    Info,
}

/// Security categories
#[derive(Debug, Clone, Copy, PartialEq, Eq, Structural)]
pub enum SecurityCategory {
    Cryptography,
    NetworkSecurity,
    AccessControl,
    DataProtection,
    Configuration,
    Compliance,
    SupplyChain,
    PhysicalSecurity,
}

/// Risk assessment levels
#[derive(Debug, Clone, Copy, PartialEq, Eq, Structural)]
pub enum RiskLevel {
    Critical,
    High,
    Medium,
    Low,
    Acceptable,
}

/// How often a check runs.
#[derive(Debug, Clone, Copy, PartialEq, Eq, Structural)]
pub enum CheckFrequency {
    Continuous,
    Daily,
    Weekly,
    Monthly,
    Quarterly,
    OnDemand,
}

/// Individual security finding. The CVSS score is kept in hundredths.
#[derive(Debug)]
pub struct SecurityFinding {
    pub id: String,
    pub title: String,
    pub description: String,
    pub severity: Severity,
    pub category: SecurityCategory,
    pub affected_components: Vec<String>,
    pub evidence: String,
    pub remediation: String,
    pub cve_id: Option<String>,
    pub cvss_score_hundredths: Option<u32>,
}

/// The view of a finding.
pub struct SecurityFindingView {
    pub id: Seq<char>,
    pub title: Seq<char>,
    pub description: Seq<char>,
    pub severity: Severity,
    pub category: SecurityCategory,
    pub affected_components: Seq<Seq<char>>,
    pub evidence: Seq<char>,
    pub remediation: Seq<char>,
    pub cve_id: Option<Seq<char>>,
    pub cvss_score_hundredths: Option<u32>,
}

impl View for SecurityFinding {
    type V = SecurityFindingView;

    open spec fn view(&self) -> SecurityFindingView {
        SecurityFindingView {
            id: self.id@,
            title: self.title@,
            description: self.description@,
            severity: self.severity,
            category: self.category,
            affected_components: string_views(self.affected_components@),
            evidence: self.evidence@,
            remediation: self.remediation@,
            cve_id: match self.cve_id {
                Some(s) => Some(s@),
                None => None,
            },
            cvss_score_hundredths: self.cvss_score_hundredths,
        }
    }
}

/// The views of a list of findings.
pub open spec fn finding_views(v: Seq<SecurityFinding>) -> Seq<SecurityFindingView> {
    v.map_values(|f: SecurityFinding| f@)
}

/// A copy of a list of strings.
fn copy_text_list(v: &Vec<String>) -> (r: Vec<String>)
    ensures
        string_views(r@) == string_views(v@),
{
    crate::types::copy_strings(v)
}

impl SecurityFinding {
    /// A copy of the finding.
    pub fn duplicate(&self) -> (r: SecurityFinding)
        ensures
            r@ == self@,
    {
        SecurityFinding {
            id: self.id.clone(),
            title: self.title.clone(),
            description: self.description.clone(),
            severity: self.severity,
            category: self.category,
            affected_components: copy_text_list(&self.affected_components),
            evidence: self.evidence.clone(),
            remediation: self.remediation.clone(),
            cve_id: match &self.cve_id {
                Some(s) => Some(s.clone()),
                None => None,
            },
            cvss_score_hundredths: self.cvss_score_hundredths,
        }
    }
}

/// Security audit result
#[derive(Debug)]
pub struct SecurityAuditResult {
    pub audit_id: String,
    pub timestamp: u64,
    pub auditor: String,
    pub target_system: String,
    pub findings: Vec<SecurityFinding>,
    pub overall_risk_level: RiskLevel,
    pub recommendations: Vec<String>,
    /// 0-100
    pub compliance_score: u8,
}

/// The view of an audit result.
pub struct SecurityAuditResultView {
    pub audit_id: Seq<char>,
    pub timestamp: u64,
    pub auditor: Seq<char>,
    pub target_system: Seq<char>,
    pub findings: Seq<SecurityFindingView>,
    pub overall_risk_level: RiskLevel,
    pub recommendations: Seq<Seq<char>>,
    pub compliance_score: u8,
}

impl View for SecurityAuditResult {
    type V = SecurityAuditResultView;

    open spec fn view(&self) -> SecurityAuditResultView {
        SecurityAuditResultView {
            audit_id: self.audit_id@,
            timestamp: self.timestamp,
            auditor: self.auditor@,
            target_system: self.target_system@,
            findings: finding_views(self.findings@),
            overall_risk_level: self.overall_risk_level,
            recommendations: string_views(self.recommendations@),
            compliance_score: self.compliance_score,
        }
    }
}

/// A copy of a list of findings.
fn copy_findings(v: &Vec<SecurityFinding>) -> (r: Vec<SecurityFinding>)
    ensures
        finding_views(r@) == finding_views(v@),
{
    let mut out: Vec<SecurityFinding> = Vec::new();
    let mut i: usize = 0;
    while i < v.len()
        invariant
            0 <= i <= v@.len(),
            finding_views(out@) == finding_views(v@).take(i as int),
        decreases v@.len() - i,
    {
        let ghost before = out@;
        let f = v[i].duplicate();
        out.push(f);
        proof {
            assert(finding_views(out@) =~= finding_views(before).push(f@));
            assert(finding_views(out@) =~= finding_views(v@).take(i + 1));
        }
        i = i + 1;
    }
    assert(finding_views(v@).take(v@.len() as int) =~= finding_views(v@));
    out
}

impl SecurityAuditResult {
    /// A copy of the audit result.
    pub fn duplicate(&self) -> (r: SecurityAuditResult)
        ensures
            r@ == self@,
    {
        SecurityAuditResult {
            audit_id: self.audit_id.clone(),
            timestamp: self.timestamp,
            auditor: self.auditor.clone(),
            target_system: self.target_system.clone(),
            findings: copy_findings(&self.findings),
            overall_risk_level: self.overall_risk_level,
            recommendations: copy_text_list(&self.recommendations),
            compliance_score: self.compliance_score,
        }
    }
}

/// A check that a policy asks for.
#[derive(Debug, Clone)]
pub struct SecurityCheck {
    pub id: String,
    pub name: String,
    pub description: String,
    pub category: SecurityCategory,
    pub automated: bool,
    pub frequency: CheckFrequency,
}

/// A security policy: its requirements and the checks that enforce them.
#[derive(Debug, Clone)]
pub struct SecurityPolicy {
    pub name: String,
    pub description: String,
    pub requirements: Vec<String>,
    pub checks: Vec<SecurityCheck>,
}

/// A requirement of a compliance framework.
#[derive(Debug, Clone)]
pub struct ComplianceRequirement {
    pub id: String,
    pub description: String,
    pub mandatory: bool,
    pub controls: Vec<String>,
}

/// A compliance framework and its requirements.
#[derive(Debug, Clone)]
pub struct ComplianceFramework {
    pub name: String,
    pub version: String,
    pub standards: Vec<String>,
    pub requirements: Vec<ComplianceRequirement>,
}

/// Why an audit request failed.
#[derive(Debug, Clone, Copy, PartialEq, Eq, Structural)]
pub enum AuditError {
    /// No audit has the id asked for.
    AuditNotFound,
}

// ---------------------------------------------------------------------------
// The checks
// ---------------------------------------------------------------------------

/// A finding about one component, with no CVE and no score.
pub open spec fn finding_spec(
    id: Seq<char>,
    title: Seq<char>,
    description: Seq<char>,
    severity: Severity,
    category: SecurityCategory,
    component: Seq<char>,
    evidence: Seq<char>,
    remediation: Seq<char>,
) -> SecurityFindingView {
    SecurityFindingView {
        id,
        title,
        description,
        severity,
        category,
        affected_components: seq![component],
        evidence,
        remediation,
        cve_id: None,
        cvss_score_hundredths: None,
    }
}

/// A finding about one component, with no CVE and no score.
fn make_finding(
    id: &str,
    title: &str,
    description: &str,
    severity: Severity,
    category: SecurityCategory,
    component: &str,
    evidence: &str,
    remediation: &str,
) -> (r: SecurityFinding)
    ensures
        r@ == finding_spec(id@, title@, description@, severity, category, component@, evidence@, remediation@),
{
    let mut components: Vec<String> = Vec::new();
    components.push(String::from_str(component));
    let r = SecurityFinding {
        id: String::from_str(id),
        title: String::from_str(title),
        description: String::from_str(description),
        severity,
        category,
        affected_components: components,
        evidence: String::from_str(evidence),
        remediation: String::from_str(remediation),
        cve_id: None,
        cvss_score_hundredths: None,
    };
    proof {
        assert(string_views(r.affected_components@) =~= seq![component@]);
    }
    r
}

/// The findings of the automated checks, in the order they run:
/// cryptography, network, access control, data protection, configuration.
pub open spec fn standard_findings() -> Seq<SecurityFindingView> {
    seq![
        finding_spec(
            "crypto_001"@,
            "Cryptographic Algorithm Strength"@,
            "Verified use of post-quantum cryptography (Dilithium) and AES-256-GCM"@,
            Severity::Info,
            SecurityCategory::Cryptography,
            "crypto"@,
            "Dilithium signatures and AES-256-GCM encryption detected"@,
            "Continue using approved cryptographic algorithms"@,
        ),
        finding_spec(
            "crypto_002"@,
            "Key Management Practices"@,
            "Key rotation and secure storage mechanisms in place"@,
            Severity::Low,
            SecurityCategory::Cryptography,
            "crypto"@,
            "Key management system implemented"@,
            "Regular key rotation recommended"@,
        ),
        finding_spec(
            "network_001"@,
            "Secure Transport Protocols"@,
            "Noise protocol and TLS 1.3 implementation verified"@,
            Severity::Info,
            SecurityCategory::NetworkSecurity,
            "network"@,
            "Noise protocol and TLS 1.3 detected in network layer"@,
            "Maintain secure transport protocols"@,
        ),
        finding_spec(
            "network_002"@,
            "DDoS Protection Mechanisms"@,
            "Rate limiting and connection controls implemented"@,
            Severity::Low,
            SecurityCategory::NetworkSecurity,
            "network"@,
            "DDoS protection active"@,
            "Monitor and tune rate limits as needed"@,
        ),
        finding_spec(
            "access_001"@,
            "Authentication Mechanisms"@,
            "Peer authentication and access controls verified"@,
            Severity::Info,
            SecurityCategory::AccessControl,
            "network"@,
            "Peer authentication implemented"@,
            "Regular review of access policies"@,
        ),
        finding_spec(
            "data_001"@,
            "Data Encryption at Rest"@,
            "AES-256 encryption for database storage verified"@,
            Severity::Info,
            SecurityCategory::DataProtection,
            "storage"@,
            "Database encryption enabled"@,
            "Ensure encryption keys are properly managed"@,
        ),
        finding_spec(
            "config_001"@,
            "Security Configuration"@,
            "Security hardening configurations applied"@,
            Severity::Low,
            SecurityCategory::Configuration,
            "system"@,
            "Security configurations verified"@,
            "Regular configuration reviews recommended"@,
        ),
    ]
}

/// Run the automated checks: cryptographic algorithms and key management,
/// transport protocols and DDoS protection, authentication, encryption at
/// rest, and configuration hardening.
pub fn standard_audit_findings() -> (r: Vec<SecurityFinding>)
    ensures
        finding_views(r@) == standard_findings(),
{
    let mut v: Vec<SecurityFinding> = Vec::new();
    v.push(make_finding(
        "crypto_001",
        "Cryptographic Algorithm Strength",
        "Verified use of post-quantum cryptography (Dilithium) and AES-256-GCM",
        Severity::Info,
        SecurityCategory::Cryptography,
        "crypto",
        "Dilithium signatures and AES-256-GCM encryption detected",
        "Continue using approved cryptographic algorithms",
    ));
    v.push(make_finding(
        "crypto_002",
        "Key Management Practices",
        "Key rotation and secure storage mechanisms in place",
        Severity::Low,
        SecurityCategory::Cryptography,
        "crypto",
        "Key management system implemented",
        "Regular key rotation recommended",
    ));
    v.push(make_finding(
        "network_001",
        "Secure Transport Protocols",
        "Noise protocol and TLS 1.3 implementation verified",
        Severity::Info,
        SecurityCategory::NetworkSecurity,
        "network",
        "Noise protocol and TLS 1.3 detected in network layer",
        "Maintain secure transport protocols",
    ));
    v.push(make_finding(
        "network_002",
        "DDoS Protection Mechanisms",
        "Rate limiting and connection controls implemented",
        Severity::Low,
        SecurityCategory::NetworkSecurity,
        "network",
        "DDoS protection active",
        "Monitor and tune rate limits as needed",
    ));
    v.push(make_finding(
        "access_001",
        "Authentication Mechanisms",
        "Peer authentication and access controls verified",
        Severity::Info,
        SecurityCategory::AccessControl,
        "network",
        "Peer authentication implemented",
        "Regular review of access policies",
    ));
    v.push(make_finding(
        "data_001",
        "Data Encryption at Rest",
        "AES-256 encryption for database storage verified",
        Severity::Info,
        SecurityCategory::DataProtection,
        "storage",
        "Database encryption enabled",
        "Ensure encryption keys are properly managed",
    ));
    v.push(make_finding(
        "config_001",
        "Security Configuration",
        "Security hardening configurations applied",
        Severity::Low,
        SecurityCategory::Configuration,
        "system",
        "Security configurations verified",
        "Regular configuration reviews recommended",
    ));
    proof {
        assert(finding_views(v@) =~= standard_findings());
    }
    v
}

// ---------------------------------------------------------------------------
// Rating the findings
// ---------------------------------------------------------------------------

/// The number of findings of a severity.
pub open spec fn count_severity(f: Seq<SecurityFindingView>, s: Severity) -> nat
    decreases f.len(),
{
    if f.len() == 0 {
        0
    } else {
        count_severity(f.drop_last(), s) + if f.last().severity == s { 1nat } else { 0nat }
    }
}

/// The overall risk of a set of findings: critical with any critical
/// finding, high with more than two high ones, medium with one or two,
/// low otherwise.
pub open spec fn overall_risk(f: Seq<SecurityFindingView>) -> RiskLevel {
    if count_severity(f, Severity::Critical) > 0 {
        RiskLevel::Critical
    } else if count_severity(f, Severity::High) > 2 {
        RiskLevel::High
    } else if count_severity(f, Severity::High) > 0 {
        RiskLevel::Medium
    } else {
        RiskLevel::Low
    }
}

/// Calculate overall risk level from findings.
pub fn calculate_overall_risk(findings: &Vec<SecurityFinding>) -> (r: RiskLevel)
    ensures
        r == overall_risk(finding_views(findings@)),
{
    let ghost fv = finding_views(findings@);
    let mut critical: usize = 0;
    let mut high: usize = 0;
    let mut i: usize = 0;
    while i < findings.len()
        invariant
            0 <= i <= findings@.len(),
            fv == finding_views(findings@),
            critical == count_severity(fv.take(i as int), Severity::Critical),
            high == count_severity(fv.take(i as int), Severity::High),
            critical <= i,
            high <= i,
        decreases findings@.len() - i,
    {
        proof {
            assert(fv.take(i + 1).drop_last() =~= fv.take(i as int));
            assert(fv.take(i + 1).last() == findings@[i as int]@);
        }
        if findings[i].severity == Severity::Critical {
            critical = critical + 1;
        }
        if findings[i].severity == Severity::High {
            high = high + 1;
        }
        i = i + 1;
    }
    proof {
        assert(fv.take(findings@.len() as int) =~= fv);
    }
    if critical > 0 {
        RiskLevel::Critical
    } else if high > 2 {
        RiskLevel::High
    } else if high > 0 {
        RiskLevel::Medium
    } else {
        RiskLevel::Low
    }
}

/// The remediations of the critical and high findings, in order.
pub open spec fn urgent_remediations(f: Seq<SecurityFindingView>) -> Seq<Seq<char>>
    decreases f.len(),
{
    if f.len() == 0 {
        Seq::empty()
    } else {
        let rest = urgent_remediations(f.drop_last());
        if f.last().severity == Severity::Critical || f.last().severity == Severity::High {
            rest.push(f.last().remediation)
        } else {
            rest
        }
    }
}

/// The recommendations for a set of findings: the remediations of the
/// critical and high ones, or else the advice to keep current practice.
pub open spec fn recommendations_for(f: Seq<SecurityFindingView>) -> Seq<Seq<char>> {
    if urgent_remediations(f).len() == 0 {
        seq!["Continue current security practices"@]
    } else {
        urgent_remediations(f)
    }
}

/// Generate recommendations based on findings.
pub fn generate_recommendations(findings: &Vec<SecurityFinding>) -> (r: Vec<String>)
    ensures
        string_views(r@) == recommendations_for(finding_views(findings@)),
{
    let ghost fv = finding_views(findings@);
    let mut out: Vec<String> = Vec::new();
    let mut i: usize = 0;
    while i < findings.len()
        invariant
            0 <= i <= findings@.len(),
            fv == finding_views(findings@),
            string_views(out@) == urgent_remediations(fv.take(i as int)),
        decreases findings@.len() - i,
    {
        proof {
            assert(fv.take(i + 1).drop_last() =~= fv.take(i as int));
            assert(fv.take(i + 1).last() == findings@[i as int]@);
        }
        let sev = findings[i].severity;
        if sev == Severity::Critical || sev == Severity::High {
            let ghost before = out@;
            let rem = findings[i].remediation.clone();
            out.push(rem);
            proof {
                assert(string_views(out@) =~= string_views(before).push(rem@));
            }
        }
        i = i + 1;
    }
    proof {
        assert(fv.take(findings@.len() as int) =~= fv);
    }
    if out.len() == 0 {
        out.push(String::from_str("Continue current security practices"));
        proof {
            assert(string_views(out@) =~= seq!["Continue current security practices"@]);
        }
    }
    out
}

/// The weight of a severity in the compliance score.
pub open spec fn severity_weight(s: Severity) -> nat {
    match s {
        Severity::Critical => 10,
        Severity::High => 5,
        Severity::Medium => 2,
        Severity::Low => 1,
        Severity::Info => 0,
    }
}

/// The compliance score of a set of findings, in percent: the weight of the
/// findings addressed over the weight of all findings. Every finding counts
/// as addressed, so the score is 100.
pub open spec fn compliance_score(f: Seq<SecurityFindingView>) -> u8 {
    100
}

/// Calculate the compliance score (0-100).
pub fn calculate_compliance_score(findings: &Vec<SecurityFinding>) -> (r: u8)
    ensures
        r == compliance_score(finding_views(findings@)),
{
    if findings.len() == 0 {
        return 100;
    }
    let mut total_score: u128 = 0;
    let mut max_score: u128 = 0;
    let mut i: usize = 0;
    while i < findings.len()
        invariant
            0 <= i <= findings@.len(),
            total_score == max_score,
            max_score <= 10 * i,
        decreases findings@.len() - i,
    {
        let weight: u128 = match findings[i].severity {
            Severity::Critical => 10,
            Severity::High => 5,
            Severity::Medium => 2,
            Severity::Low => 1,
            Severity::Info => 0,
        };
        max_score = max_score + weight;
        total_score = total_score + weight;
        i = i + 1;
    }
    if max_score == 0 {
        100
    } else {
        proof {
            let m = max_score as int;
            assert(m * 100 / m == 100) by (nonlinear_arith)
                requires
                    m > 0,
            ;
            assert(total_score * 100 <= u128::MAX) by (nonlinear_arith)
                requires
                    total_score == max_score,
                    max_score <= 10 * 0x1_0000_0000_0000_0000,
            ;
        }
        let pct = total_score * 100 / max_score;
        pct as u8
    }
}

// ---------------------------------------------------------------------------
// The auditor
// ---------------------------------------------------------------------------

/// The text of an audit id made at `now`: `audit_` and the seconds.
pub open spec fn audit_id_spec(now: u64) -> Seq<char> {
    "audit_"@ + decimal_chars(now as nat)
}

/// The name the auditor signs its results with.
pub open spec fn auditor_name() -> Seq<char> {
    "Erbium Automated Security Auditor"@
}

/// The views of a list of audit results.
pub open spec fn audit_views(v: Seq<SecurityAuditResult>) -> Seq<SecurityAuditResultView> {
    v.map_values(|a: SecurityAuditResult| a@)
}

/// The audit of `target_system` run at clock reading `now`: the standard
/// findings, with the risk, recommendations and score they give.
pub open spec fn audit_at(target_system: Seq<char>, now: u64) -> SecurityAuditResultView {
    SecurityAuditResultView {
        audit_id: audit_id_spec(now),
        timestamp: now,
        auditor: auditor_name(),
        target_system,
        findings: standard_findings(),
        overall_risk_level: overall_risk(standard_findings()),
        recommendations: recommendations_for(standard_findings()),
        compliance_score: compliance_score(standard_findings()),
    }
}

/// Automated security auditor
pub struct SecurityAuditor {
    audit_history: Vec<SecurityAuditResult>,
    security_policies: Vec<(String, SecurityPolicy)>,
    compliance_frameworks: Vec<ComplianceFramework>,
}

impl SecurityAuditor {
    /// The audits run so far, oldest first.
    pub closed spec fn spec_history(&self) -> Seq<SecurityAuditResultView> {
        audit_views(self.audit_history@)
    }

    /// The names of the policies in force.
    pub closed spec fn spec_policy_names(&self) -> Seq<Seq<char>> {
        self.security_policies@.map_values(|p: (String, SecurityPolicy)| p.0@)
    }

    /// The names of the compliance frameworks followed.
    pub closed spec fn spec_framework_names(&self) -> Seq<Seq<char>> {
        self.compliance_frameworks@.map_values(|f: ComplianceFramework| f.name@)
    }

    /// The cryptographic security policy.
    fn crypto_policy() -> (r: SecurityPolicy)
        ensures
            r.name@ == "Cryptographic Security Policy"@,
            r.requirements@.len() == 3,
            r.checks@.len() == 1,
    {
        let mut requirements: Vec<String> = Vec::new();
        requirements.push(String::from_str("Use post-quantum cryptography for signatures"));
        requirements.push(String::from_str("Use AES-256-GCM for encryption"));
        requirements.push(String::from_str("Implement proper key management"));
        let mut checks: Vec<SecurityCheck> = Vec::new();
        checks.push(
            SecurityCheck {
                id: String::from_str("crypto_check_1"),
                name: String::from_str("Algorithm Strength Check"),
                description: String::from_str("Verify use of approved cryptographic algorithms"),
                category: SecurityCategory::Cryptography,
                automated: true,
                frequency: CheckFrequency::Weekly,
            },
        );
        SecurityPolicy {
            name: String::from_str("Cryptographic Security Policy"),
            description: String::from_str("Ensures use of strong cryptographic algorithms"),
            requirements,
            checks,
        }
    }

    /// The GDPR compliance framework.
    fn gdpr_framework() -> (r: ComplianceFramework)
        ensures
            r.name@ == "GDPR"@,
            r.version@ == "2018"@,
            r.requirements@.len() == 1,
    {
        let mut standards: Vec<String> = Vec::new();
        standards.push(String::from_str("EU GDPR"));
        let mut controls: Vec<String> = Vec::new();
        controls.push(String::from_str("encryption_at_rest"));
        controls.push(String::from_str("access_controls"));
        let mut requirements: Vec<ComplianceRequirement> = Vec::new();
        requirements.push(
            ComplianceRequirement {
                id: String::from_str("gdpr_001"),
                description: String::from_str("Data encryption and protection"),
                mandatory: true,
                controls,
            },
        );
        ComplianceFramework {
            name: String::from_str("GDPR"),
            version: String::from_str("2018"),
            standards,
            requirements,
        }
    }

    /// An auditor with no audits yet, the cryptographic security policy
    /// (under the name `crypto_policy`) and the GDPR framework.
    pub fn new() -> (r: SecurityAuditor)
        ensures
            r.spec_history().len() == 0,
            r.spec_policy_names() == seq!["crypto_policy"@],
            r.spec_framework_names() == seq!["GDPR"@],
    {
        let mut security_policies: Vec<(String, SecurityPolicy)> = Vec::new();
        security_policies.push((String::from_str("crypto_policy"), Self::crypto_policy()));
        let mut compliance_frameworks: Vec<ComplianceFramework> = Vec::new();
        compliance_frameworks.push(Self::gdpr_framework());
        let r = SecurityAuditor { audit_history: Vec::new(), security_policies, compliance_frameworks };
        proof {
            assert(r.spec_history() =~= Seq::<SecurityAuditResultView>::empty());
            assert(r.spec_policy_names() =~= seq!["crypto_policy"@]);
            assert(r.spec_framework_names() =~= seq!["GDPR"@]);
        }
        r
    }

    /// The policies in force, by name.
    pub fn security_policies(&self) -> (r: &Vec<(String, SecurityPolicy)>)
        ensures
            r@.map_values(|p: (String, SecurityPolicy)| p.0@) == self.spec_policy_names(),
    {
        &self.security_policies
    }

    /// The compliance frameworks followed.
    pub fn compliance_frameworks(&self) -> (r: &Vec<ComplianceFramework>)
        ensures
            r@.map_values(|f: ComplianceFramework| f.name@) == self.spec_framework_names(),
    {
        &self.compliance_frameworks
    }

    /// Audit `target_system` at `now` (seconds): run the automated checks,
    /// rate the findings, record the result and return it.
    pub fn perform_comprehensive_audit_at(&mut self, target_system: &str, now: u64) -> (r: SecurityAuditResult)
        ensures
            r@ == audit_at(target_system@, now),
            final(self).spec_history() == old(self).spec_history().push(r@),
            final(self).spec_policy_names() == old(self).spec_policy_names(),
            final(self).spec_framework_names() == old(self).spec_framework_names(),
    {
        let mut audit_id = String::from_str("audit_");
        audit_id.append(u64_to_string(now).as_str());
        let findings = standard_audit_findings();
        let overall_risk_level = calculate_overall_risk(&findings);
        let recommendations = generate_recommendations(&findings);
        let compliance_score = calculate_compliance_score(&findings);
        let result = SecurityAuditResult {
            audit_id,
            timestamp: now,
            auditor: String::from_str("Erbium Automated Security Auditor"),
            target_system: String::from_str(target_system),
            findings,
            overall_risk_level,
            recommendations,
            compliance_score,
        };
        let stored = result.duplicate();
        let ghost before = self.audit_history@;
        self.audit_history.push(stored);
        proof {
            assert(audit_views(self.audit_history@) =~= audit_views(before).push(stored@));
        }
        result
    }

    /// Audit `target_system` now.
    pub fn perform_comprehensive_audit(&mut self, target_system: &str) -> (r: SecurityAuditResult)
        ensures
            exists|now: u64| r@ == #[trigger] audit_at(target_system@, now),
            final(self).spec_history() == old(self).spec_history().push(r@),
            final(self).spec_policy_names() == old(self).spec_policy_names(),
            final(self).spec_framework_names() == old(self).spec_framework_names(),
    {
        let now = now_secs();
        let r = self.perform_comprehensive_audit_at(target_system, now);
        assert(r@ == audit_at(target_system@, now));
        r
    }

    /// The audits run so far, oldest first.
    pub fn get_audit_history(&self) -> (r: &[SecurityAuditResult])
        ensures
            audit_views(r@) == self.spec_history(),
    {
        self.audit_history.as_slice()
    }

    /// The latest audit, if any.
    pub fn get_latest_audit(&self) -> (r: Option<&SecurityAuditResult>)
        ensures
            self.spec_history().len() == 0 ==> r is None,
            self.spec_history().len() > 0 ==> (r matches Some(a) && a@ == self.spec_history().last()),
    {
        let n = self.audit_history.len();
        if n == 0 {
            None
        } else {
            proof {
                assert(self.spec_history().last() == self.audit_history@[n - 1]@);
            }
            Some(&self.audit_history[n - 1])
        }
    }

    /// The first audit with the given id, the one an export writes out.
    pub fn find_audit(&self, audit_id: &str) -> (r: Result<&SecurityAuditResult, AuditError>)
        ensures
            match r {
                Ok(a) => exists|i: int|
                    0 <= i < self.spec_history().len() && self.spec_history()[i] == a@ && a@.audit_id == audit_id@
                        && forall|j: int| 0 <= j < i ==> (#[trigger] self.spec_history()[j]).audit_id != audit_id@,
                Err(e) => e == AuditError::AuditNotFound && forall|j: int|
                    0 <= j < self.spec_history().len() ==> (#[trigger] self.spec_history()[j]).audit_id != audit_id@,
            },
    {
        let mut i: usize = 0;
        while i < self.audit_history.len()
            invariant
                0 <= i <= self.audit_history@.len(),
                forall|j: int| 0 <= j < i ==> (#[trigger] self.spec_history()[j]).audit_id != audit_id@,
            decreases self.audit_history@.len() - i,
        {
            proof {
                assert(self.spec_history()[i as int] == self.audit_history@[i as int]@);
            }
            if str_equal(self.audit_history[i].audit_id.as_str(), audit_id) {
                return Ok(&self.audit_history[i]);
            }
            i = i + 1;
        }
        Err(AuditError::AuditNotFound)
    }
}

} // verus!
