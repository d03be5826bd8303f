//! Security services: homomorphic encryption, trusted execution, formal
//! verification records, hardware keys, audits and incident response.
use vstd::prelude::*;

pub mod audit_trail;
pub mod emergency_response;
pub mod hardware_security;
pub mod homomorphic;
pub mod key_management;
pub mod security_audit;
pub mod tee;
pub mod zero_knowledge;

use crate::clock::now_secs;
use crate::security::audit_trail::{finding_views, standard_findings, SecurityAuditResult, SecurityAuditResultView, SecurityAuditor};
use crate::security::zero_knowledge::{comprehensive_results, FormalVerifier, ResultView, VerificationResult};

verus! {

/// Security levels
#[derive(Debug, Clone, Copy, PartialEq, Eq, Structural)]
pub enum SecurityLevel {
    Standard,
    Enterprise,
    Military,
    Classified,
}

/// Encryption schemes for homomorphic operations
#[derive(Debug, Clone, Copy, PartialEq, Eq, Structural)]
pub enum EncryptionScheme {
    /// Brakerski-Fan-Vercauteren (integer arithmetic)
    BFV,
    /// Cheon-Kim-Kim-Song (approximate arithmetic)
    CKKS,
    /// Fast Fully Homomorphic Encryption over Torus
    TFHE,
}

/// Security component status enumeration
#[derive(Debug, Clone, Copy, PartialEq, Eq, Structural)]
pub enum SecurityStatusEnum {
    Operational,
    Degraded,
    Failed,
    NotAvailable,
}

/// Military-grade security configuration
#[derive(Debug, Clone, Copy, PartialEq, Eq, Structural)]
pub struct MilitarySecurityConfig {
    pub enable_homomorphic_encryption: bool,
    pub enable_tee_support: bool,
    pub enable_zero_knowledge_proofs: bool,
    pub enable_hardware_security: bool,
    pub enable_audit_trails: bool,
    pub security_level: SecurityLevel,
    pub encryption_scheme: EncryptionScheme,
    pub key_rotation_interval_days: u64,
    pub audit_retention_days: u64,
}

impl Default for MilitarySecurityConfig {
    /// Every service on, military level, BFV, keys rotated every 30 days,
    /// audits kept 2555 days (seven years).
    fn default() -> (r: MilitarySecurityConfig)
        ensures
            r == (MilitarySecurityConfig {
                enable_homomorphic_encryption: true,
                enable_tee_support: true,
                enable_zero_knowledge_proofs: true,
                enable_hardware_security: true,
                enable_audit_trails: true,
                security_level: SecurityLevel::Military,
                encryption_scheme: EncryptionScheme::BFV,
                key_rotation_interval_days: 30,
                audit_retention_days: 2555,
            }),
    {
        MilitarySecurityConfig {
            enable_homomorphic_encryption: true,
            enable_tee_support: true,
            enable_zero_knowledge_proofs: true,
            enable_hardware_security: true,
            enable_audit_trails: true,
            security_level: SecurityLevel::Military,
            encryption_scheme: EncryptionScheme::BFV,
            key_rotation_interval_days: 30,
            audit_retention_days: 2555,
        }
    }
}

/// Errors of the security services.
#[derive(Debug, Clone, Copy, PartialEq, Eq, Structural)]
pub enum SecurityError {
    /// No verification is known for the component.
    UnknownComponent,
    /// The formal verifier was not initialized.
    VerifierNotInitialized,
    /// The security auditor was not initialized.
    AuditorNotInitialized,
}

/// Individual security component status; health in hundredths of a
/// percent.
#[derive(Debug, Clone)]
pub struct SecurityComponent {
    pub name: String,
    pub status: SecurityStatusEnum,
    pub last_check: u64,
    pub health_score_hundredths: u32,
}

/// Security status information; health in hundredths of a percent.
#[derive(Debug, Clone)]
pub struct SecurityStatus {
    pub overall_health_hundredths: u32,
    pub security_level: SecurityLevel,
    pub components: Vec<SecurityComponent>,
    pub last_security_audit: u64,
    pub encryption_scheme: EncryptionScheme,
}

/// The health of the formal verifier (95%), in hundredths of a percent.
pub const VERIFIER_HEALTH: u32 = 9500;

/// The health of the security auditor (98%), in hundredths of a percent.
pub const AUDITOR_HEALTH: u32 = 9800;

/// The average health of the components present: the verifier's and the
/// auditor's where each is there, none when neither is.
pub open spec fn overall_health(verifier: bool, auditor: bool) -> u32 {
    if verifier && auditor {
        ((VERIFIER_HEALTH + AUDITOR_HEALTH) / 2) as u32
    } else if verifier {
        VERIFIER_HEALTH
    } else if auditor {
        AUDITOR_HEALTH
    } else {
        0
    }
}

/// What verifying the cryptographic components at clock reading `now`
/// makes of `pre`, returning `r`: without a verifier an error; otherwise the
/// four standard results, which join the verifier's history.
pub open spec fn crypto_verification_outcome(pre: MilitarySecurityEngine, post: MilitarySecurityEngine, now: u64, r: Result<Vec<VerificationResult>, SecurityError>) -> bool {
    &&& post.spec_config() == pre.spec_config()
    &&& post.spec_auditor() == pre.spec_auditor()
    &&& post.spec_initialized() == pre.spec_initialized()
    &&& match pre.spec_verifier() {
        None => r == Err::<Vec<VerificationResult>, SecurityError>(SecurityError::VerifierNotInitialized)
            && post.spec_verifier() is None,
        Some(h) => (r matches Ok(v) && v@.map_values(|x: VerificationResult| x@) == comprehensive_results(now))
            && post.spec_verifier() == Some(h + comprehensive_results(now))
    }
}

/// What auditing `target_system` at clock reading `now` makes of `pre`,
/// returning `r`: without an auditor an error; otherwise the standard
/// findings for the system, stamped `now`, which join the auditor's history.
pub open spec fn audit_outcome(pre: MilitarySecurityEngine, post: MilitarySecurityEngine, target_system: Seq<char>, now: u64, r: Result<SecurityAuditResult, SecurityError>) -> bool {
    &&& post.spec_config() == pre.spec_config()
    &&& post.spec_verifier() == pre.spec_verifier()
    &&& post.spec_initialized() == pre.spec_initialized()
    &&& match pre.spec_auditor() {
        None => r == Err::<SecurityAuditResult, SecurityError>(SecurityError::AuditorNotInitialized)
            && post.spec_auditor() is None,
        Some(h) => (r matches Ok(a) && a.target_system@ == target_system && a.timestamp == now && finding_views(
            a.findings@,
        ) == standard_findings() && post.spec_auditor() == Some(h.push(a@)))
    }
}

/// `r` is the security status of `e` at clock reading `now`: one
/// operational component per service present (the verifier at 95%, then the
/// auditor at 98%), checked at `now`, and their average health.
pub open spec fn status_as_of(e: MilitarySecurityEngine, now: u64, r: SecurityStatus) -> bool {
    &&& r.overall_health_hundredths == overall_health(e.spec_verifier() is Some, e.spec_auditor() is Some)
    &&& r.security_level == e.spec_config().security_level
    &&& r.encryption_scheme == e.spec_config().encryption_scheme
    &&& r.last_security_audit == now
    &&& r.components@.len() == (if e.spec_verifier() is Some { 1int } else { 0 }) + (if e.spec_auditor() is Some {
        1int
    } else {
        0
    })
    &&& forall|i: int|
        0 <= i < r.components@.len() ==> (#[trigger] r.components@[i]).status == SecurityStatusEnum::Operational
            && r.components@[i].last_check == now
    &&& e.spec_verifier() is Some ==> r.components@[0].name@ == "FormalVerification"@
        && r.components@[0].health_score_hundredths == VERIFIER_HEALTH
    &&& e.spec_auditor() is Some ==> r.components@.last().name@ == "SecurityAuditor"@
        && r.components@.last().health_score_hundredths == AUDITOR_HEALTH
}

/// Military-grade security engine: a formal verifier and a security
/// auditor, each made when the engine is initialized and its service is
/// enabled.
pub struct MilitarySecurityEngine {
    config: MilitarySecurityConfig,
    formal_verifier: Option<FormalVerifier>,
    auditor: Option<SecurityAuditor>,
    is_initialized: bool,
}

impl MilitarySecurityEngine {
    /// The configuration.
    pub closed spec fn spec_config(&self) -> MilitarySecurityConfig {
        self.config
    }

    /// The verifier's history, where there is a verifier.
    pub closed spec fn spec_verifier(&self) -> Option<Seq<ResultView>> {
        match self.formal_verifier {
            Some(v) => Some(v.spec_history()),
            None => None,
        }
    }

    /// The auditor's history, where there is an auditor.
    pub closed spec fn spec_auditor(&self) -> Option<Seq<SecurityAuditResultView>> {
        match self.auditor {
            Some(a) => Some(a.spec_history()),
            None => None,
        }
    }

    /// Whether the engine was initialized.
    pub closed spec fn spec_initialized(&self) -> bool {
        self.is_initialized
    }

    /// A new engine; nothing is made before it is initialized.
    pub fn new(config: MilitarySecurityConfig) -> (r: MilitarySecurityEngine)
        ensures
            r.spec_config() == config,
            r.spec_verifier() is None,
            r.spec_auditor() is None,
            !r.spec_initialized(),
    {
        MilitarySecurityEngine { config, formal_verifier: None, auditor: None, is_initialized: false }
    }

    /// The configuration.
    pub fn config(&self) -> (r: &MilitarySecurityConfig)
        ensures
            *r == self.spec_config(),
    {
        &self.config
    }

    /// Whether the engine was initialized.
    pub fn is_initialized(&self) -> (r: bool)
        ensures
            r == self.spec_initialized(),
    {
        self.is_initialized
    }

    /// Initialize the services: a fresh formal verifier where zero-knowledge
    /// proofs are enabled, a fresh auditor where audit trails are.
    pub fn initialize(&mut self) -> (r: Result<(), SecurityError>)
        ensures
            r is Ok,
            final(self).spec_initialized(),
            final(self).spec_config() == old(self).spec_config(),
            final(self).spec_verifier() == if old(self).spec_config().enable_zero_knowledge_proofs {
                Some(Seq::<ResultView>::empty())
            } else {
                old(self).spec_verifier()
            },
            final(self).spec_auditor() == if old(self).spec_config().enable_audit_trails {
                Some(Seq::<SecurityAuditResultView>::empty())
            } else {
                old(self).spec_auditor()
            },
    {
        if self.config.enable_zero_knowledge_proofs {
            self.formal_verifier = Some(FormalVerifier::new());
        }
        if self.config.enable_audit_trails {
            self.auditor = Some(SecurityAuditor::new());
        }
        self.is_initialized = true;
        Ok(())
    }

    /// Verify every known cryptographic component at clock reading `now`;
    /// an error without a verifier.
    pub fn perform_cryptographic_verification_at(&mut self, now: u64) -> (r: Result<Vec<VerificationResult>, SecurityError>)
        ensures
            crypto_verification_outcome(*old(self), *final(self), now, r),
    {
        match &mut self.formal_verifier {
            Some(verifier) => verifier.perform_comprehensive_verification_at(now),
            None => Err(SecurityError::VerifierNotInitialized),
        }
    }

    /// Verify every known cryptographic component now; see
    /// `perform_cryptographic_verification_at`.
    pub fn perform_cryptographic_verification(&mut self) -> (r: Result<Vec<VerificationResult>, SecurityError>)
        ensures
            exists|now: u64| #[trigger] crypto_verification_outcome(*old(self), *final(self), now, r),
    {
        let now = now_secs();
        let r = self.perform_cryptographic_verification_at(now);
        assert(crypto_verification_outcome(*old(self), *self, now, r));
        r
    }

    /// Audit a system at clock reading `now`; an error without an auditor.
    pub fn perform_security_audit_at(&mut self, target_system: &str, now: u64) -> (r: Result<SecurityAuditResult, SecurityError>)
        ensures
            audit_outcome(*old(self), *final(self), target_system@, now, r),
    {
        match &mut self.auditor {
            Some(auditor) => Ok(auditor.perform_comprehensive_audit_at(target_system, now)),
            None => Err(SecurityError::AuditorNotInitialized),
        }
    }

    /// Audit a system now; see `perform_security_audit_at`.
    pub fn perform_security_audit(&mut self, target_system: &str) -> (r: Result<SecurityAuditResult, SecurityError>)
        ensures
            exists|now: u64| #[trigger] audit_outcome(*old(self), *final(self), target_system@, now, r),
    {
        let now = now_secs();
        let r = self.perform_security_audit_at(target_system, now);
        assert(audit_outcome(*old(self), *self, target_system@, now, r));
        r
    }

    /// The security status at clock reading `now`: one operational
    /// component per service present (the verifier at 95%, then the
    /// auditor at 98%), checked now, and their average health.
    pub fn get_security_status_at(&self, now: u64) -> (r: SecurityStatus)
        ensures
            status_as_of(*self, now, r),
    {
        let mut components: Vec<SecurityComponent> = Vec::new();
        let mut total: u32 = 0;
        if self.formal_verifier.is_some() {
            components.push(
                SecurityComponent {
                    name: String::from_str("FormalVerification"),
                    status: SecurityStatusEnum::Operational,
                    last_check: now,
                    health_score_hundredths: VERIFIER_HEALTH,
                },
            );
            total = total + VERIFIER_HEALTH;
        }
        if self.auditor.is_some() {
            components.push(
                SecurityComponent {
                    name: String::from_str("SecurityAuditor"),
                    status: SecurityStatusEnum::Operational,
                    last_check: now,
                    health_score_hundredths: AUDITOR_HEALTH,
                },
            );
            total = total + AUDITOR_HEALTH;
        }
        let count = components.len();
        let overall: u32 = if count == 0 {
            0
        } else if count == 1 {
            total
        } else {
            assert(count == 2 && total == VERIFIER_HEALTH + AUDITOR_HEALTH);
            total / 2
        };
        proof {
            reveal_strlit("FormalVerification");
            reveal_strlit("SecurityAuditor");
        }
        SecurityStatus {
            overall_health_hundredths: overall,
            security_level: self.config.security_level,
            components,
            last_security_audit: now,
            encryption_scheme: self.config.encryption_scheme,
        }
    }

    /// The security status now; see `get_security_status_at`.
    pub fn get_security_status(&self) -> (r: SecurityStatus)
        ensures
            exists|now: u64| #[trigger] status_as_of(*self, now, r),
    {
        let now = now_secs();
        self.get_security_status_at(now)
    }
}

} // verus!
