//! Records of the formal verification of the critical cryptographic
//! components, and whether they meet the confidence required. Confidence
//! is in basis points: hundredths of a percent, 10000 being certainty.
use vstd::prelude::*;
use crate::clock::now_secs;
use crate::security::SecurityError;
use crate::types::{copy_strings, str_equal};

verus! {

#[derive(Debug, Clone, Copy, PartialEq, Eq, Structural)]
pub enum VerificationMethod {
    AutomatedTheoremProver,
    ModelChecking,
    SymbolicExecution,
    ManualReview,
    StatisticalTesting,
}

#[derive(Debug, Clone, Copy, PartialEq, Eq, Structural)]
pub enum VerificationStatus {
    Passed,
    Failed,
    InsufficientConfidence,
}

/// Formal verification result
#[derive(Debug, Clone)]
pub struct VerificationResult {
    pub component: String,
    pub property: String,
    pub verified: bool,
    pub confidence_bp: u32,
    pub proof_method: String,
    pub assumptions: Vec<String>,
    pub limitations: Vec<String>,
    pub timestamp: u64,
}

/// The view of a verification result.
pub struct ResultView {
    pub component: Seq<char>,
    pub property: Seq<char>,
    pub verified: bool,
    pub confidence_bp: u32,
    pub proof_method: Seq<char>,
    pub assumptions: Seq<Seq<char>>,
    pub limitations: Seq<Seq<char>>,
    pub timestamp: u64,
}

impl View for VerificationResult {
    type V = ResultView;

    open spec fn view(&self) -> ResultView {
        ResultView {
            component: self.component@,
            property: self.property@,
            verified: self.verified,
            confidence_bp: self.confidence_bp,
            proof_method: self.proof_method@,
            assumptions: self.assumptions@.map_values(|s: String| s@),
            limitations: self.limitations@.map_values(|s: String| s@),
            timestamp: self.timestamp,
        }
    }
}

impl VerificationResult {
    /// A copy of the result.
    pub fn duplicate(&self) -> (r: VerificationResult)
        ensures
            r@ == self@,
    {
        VerificationResult {
            component: self.component.clone(),
            property: self.property.clone(),
            verified: self.verified,
            confidence_bp: self.confidence_bp,
            proof_method: self.proof_method.clone(),
            assumptions: copy_strings(&self.assumptions),
            limitations: copy_strings(&self.limitations),
            timestamp: self.timestamp,
        }
    }
}

/// A verification rule; its confidence in basis points.
#[derive(Debug, Clone)]
pub struct VerificationRule {
    pub name: String,
    pub description: String,
    pub property: String,
    pub method: VerificationMethod,
    pub required_confidence_bp: u32,
}

/// The view of a rule under its key: key, name, description, property,
/// method, required confidence in basis points.
pub type RuleView = (Seq<char>, Seq<char>, Seq<char>, Seq<char>, VerificationMethod, u32);

/// The views of keyed rules.
pub open spec fn rule_views(v: Seq<(String, VerificationRule)>) -> Seq<RuleView> {
    v.map_values(
        |p: (String, VerificationRule)|
            (p.0@, p.1.name@, p.1.description@, p.1.property@, p.1.method, p.1.required_confidence_bp),
    )
}

/// The default rules: Dilithium signatures (EUF-CMA, 90%) and AES
/// encryption (IND-CPA, 95%), both by automated theorem proving.
pub open spec fn default_rules() -> Seq<RuleView> {
    seq![
        (
            "dilithium"@,
            "Dilithium Signature Verification"@,
            "Verify post-quantum signature scheme"@,
            "EUF-CMA security"@,
            VerificationMethod::AutomatedTheoremProver,
            9000u32,
        ),
        (
            "aes"@,
            "AES Encryption Verification"@,
            "Verify block cipher security"@,
            "IND-CPA security"@,
            VerificationMethod::AutomatedTheoremProver,
            9500u32,
        ),
    ]
}

/// The results of verifying every known component at `now`, in order:
/// Dilithium signatures, AES encryption, bulletproofs, hash functions.
pub open spec fn comprehensive_results(now: u64) -> Seq<ResultView> {
    seq![
        verification_of("dilithium_signature"@, now)->0,
        verification_of("aes_encryption"@, now)->0,
        verification_of("bulletproofs"@, now)->0,
        verification_of("hash_functions"@, now)->0,
    ]
}

/// The recorded verification of a known component at `now`.
pub open spec fn verification_of(component: Seq<char>, now: u64) -> Option<ResultView> {
    if component == "dilithium_signature"@ {
        Some(
            ResultView {
                component,
                property: "Post-quantum security and correctness"@,
                verified: true,
                confidence_bp: 9500,
                proof_method: "Mathematical proof and implementation review"@,
                assumptions: seq!["Underlying hash function is secure"@, "Random oracle model holds"@],
                limitations: seq!["Quantum attacks not fully analyzed"@, "Side-channel attacks not covered"@],
                timestamp: now,
            },
        )
    } else if component == "aes_encryption"@ {
        Some(
            ResultView {
                component,
                property: "Semantic security and correctness"@,
                verified: true,
                confidence_bp: 9900,
                proof_method: "Standard cryptographic proof"@,
                assumptions: seq!["Key is randomly chosen"@, "AES implementation is correct"@],
                limitations: seq!["Side-channel attacks not covered"@, "Key management not verified"@],
                timestamp: now,
            },
        )
    } else if component == "bulletproofs"@ {
        Some(
            ResultView {
                component,
                property: "Zero-knowledge and soundness"@,
                verified: true,
                confidence_bp: 9000,
                proof_method: "Cryptographic proof in literature"@,
                assumptions: seq!["Discrete log assumption holds"@, "Implementation is faithful to specification"@],
                limitations: seq!["Performance not formally verified"@, "Complex proofs may have subtle bugs"@],
                timestamp: now,
            },
        )
    } else if component == "hash_functions"@ {
        Some(
            ResultView {
                component,
                property: "Collision resistance and preimage resistance"@,
                verified: true,
                confidence_bp: 9800,
                proof_method: "Standard cryptographic analysis"@,
                assumptions: seq!["Underlying primitives are secure"@, "No quantum attacks applicable"@],
                limitations: seq!["Length extension attacks not covered for all functions"@],
                timestamp: now,
            },
        )
    } else {
        None
    }
}

/// The last recorded result of a component.
pub open spec fn last_result(h: Seq<ResultView>, component: Seq<char>) -> Option<ResultView>
    decreases h.len(),
{
    if h.len() == 0 {
        None
    } else if h.last().component == component {
        Some(h.last())
    } else {
        last_result(h.drop_last(), component)
    }
}

/// The confidence the critical components need: 85%.
pub const REQUIRED_CONFIDENCE_BP: u32 = 8500;

/// The status of a history: failed unless both critical components (the
/// Dilithium signature and AES) were verified in their last results;
/// passed where both reach the required confidence.
pub open spec fn status_of(h: Seq<ResultView>) -> VerificationStatus {
    let d = last_result(h, "dilithium_signature"@);
    let a = last_result(h, "aes_encryption"@);
    if d is None || a is None || !d->0.verified || !a->0.verified {
        VerificationStatus::Failed
    } else if d->0.confidence_bp >= REQUIRED_CONFIDENCE_BP && a->0.confidence_bp >= REQUIRED_CONFIDENCE_BP {
        VerificationStatus::Passed
    } else {
        VerificationStatus::InsufficientConfidence
    }
}

/// A report of the verification history.
#[derive(Debug, Clone)]
pub struct VerificationReport {
    pub timestamp: u64,
    pub results: Vec<VerificationResult>,
    pub overall_status: VerificationStatus,
}

/// Formal verifier for cryptographic operations
pub struct FormalVerifier {
    verification_history: Vec<VerificationResult>,
    verification_rules: Vec<(String, VerificationRule)>,
}

/// The views of a list of strings.
pub open spec fn texts(v: Seq<String>) -> Seq<Seq<char>> {
    v.map_values(|s: String| s@)
}

/// Strings from two texts.
fn pair_of(a: &str, b: &str) -> (r: Vec<String>)
    ensures
        texts(r@) == seq![a@, b@],
{
    let mut v: Vec<String> = Vec::new();
    v.push(String::from_str(a));
    v.push(String::from_str(b));
    assert(texts(v@) =~= seq![a@, b@]);
    v
}

/// The recorded result of a known component, built.
fn build_result(
    component: &str,
    property: &str,
    confidence_bp: u32,
    proof_method: &str,
    assumptions: Vec<String>,
    limitations: Vec<String>,
    now: u64,
) -> (r: VerificationResult)
    ensures
        r@ == (ResultView {
            component: component@,
            property: property@,
            verified: true,
            confidence_bp,
            proof_method: proof_method@,
            assumptions: texts(assumptions@),
            limitations: texts(limitations@),
            timestamp: now,
        }),
{
    VerificationResult {
        component: String::from_str(component),
        property: String::from_str(property),
        verified: true,
        confidence_bp,
        proof_method: String::from_str(proof_method),
        assumptions,
        limitations,
        timestamp: now,
    }
}

impl FormalVerifier {
    /// The verification history, oldest first.
    pub closed spec fn spec_history(&self) -> Seq<ResultView> {
        self.verification_history@.map_values(|r: VerificationResult| r@)
    }

    /// The rules, each under its key.
    pub closed spec fn spec_rules(&self) -> Seq<RuleView> {
        rule_views(self.verification_rules@)
    }

    /// A verifier with the default rules and no history.
    pub fn new() -> (r: FormalVerifier)
        ensures
            r.spec_history().len() == 0,
            r.spec_rules() == default_rules(),
    {
        let mut verifier = FormalVerifier { verification_history: Vec::new(), verification_rules: Vec::new() };
        verifier.initialize_default_rules();
        assert(verifier.spec_history() =~= Seq::<ResultView>::empty());
        assert(verifier.spec_rules() =~= default_rules());
        verifier
    }

    /// The rules by name.
    pub fn verification_rules(&self) -> (r: &Vec<(String, VerificationRule)>)
        ensures
            rule_views(r@) == self.spec_rules(),
    {
        &self.verification_rules
    }

    /// Records the rules for Dilithium signatures and AES encryption.
    fn initialize_default_rules(&mut self)
        ensures
            final(self).verification_history == old(self).verification_history,
            final(self).spec_rules() == old(self).spec_rules() + default_rules(),
    {
        let ghost before = self.spec_rules();
        let dilithium_rule = VerificationRule {
            name: String::from_str("Dilithium Signature Verification"),
            description: String::from_str("Verify post-quantum signature scheme"),
            property: String::from_str("EUF-CMA security"),
            method: VerificationMethod::AutomatedTheoremProver,
            required_confidence_bp: 9000,
        };
        let aes_rule = VerificationRule {
            name: String::from_str("AES Encryption Verification"),
            description: String::from_str("Verify block cipher security"),
            property: String::from_str("IND-CPA security"),
            method: VerificationMethod::AutomatedTheoremProver,
            required_confidence_bp: 9500,
        };
        self.verification_rules.push((String::from_str("dilithium"), dilithium_rule));
        self.verification_rules.push((String::from_str("aes"), aes_rule));
        assert(self.spec_rules() =~= before + default_rules());
    }

    /// Verifies a known component at clock reading `now` and records the
    /// result.
    pub fn verify_cryptographic_component_at(&mut self, component: &str, now: u64) -> (r: Result<
        VerificationResult,
        SecurityError,
    >)
        ensures
            match verification_of(component@, now) {
                Some(v) => r matches Ok(res) && res@ == v && final(self).spec_history() == old(
                    self).spec_history().push(v),
                None => r == Err::<VerificationResult, SecurityError>(SecurityError::UnknownComponent)
                    && final(self).spec_history() == old(self).spec_history(),
            },
    {
        let result = if str_equal(component, "dilithium_signature") {
            build_result(
                "dilithium_signature",
                "Post-quantum security and correctness",
                9500,
                "Mathematical proof and implementation review",
                pair_of("Underlying hash function is secure", "Random oracle model holds"),
                pair_of("Quantum attacks not fully analyzed", "Side-channel attacks not covered"),
                now,
            )
        } else if str_equal(component, "aes_encryption") {
            build_result(
                "aes_encryption",
                "Semantic security and correctness",
                9900,
                "Standard cryptographic proof",
                pair_of("Key is randomly chosen", "AES implementation is correct"),
                pair_of("Side-channel attacks not covered", "Key management not verified"),
                now,
            )
        } else if str_equal(component, "bulletproofs") {
            build_result(
                "bulletproofs",
                "Zero-knowledge and soundness",
                9000,
                "Cryptographic proof in literature",
                pair_of("Discrete log assumption holds", "Implementation is faithful to specification"),
                pair_of("Performance not formally verified", "Complex proofs may have subtle bugs"),
                now,
            )
        } else if str_equal(component, "hash_functions") {
            let mut limitations: Vec<String> = Vec::new();
            limitations.push(String::from_str("Length extension attacks not covered for all functions"));
            proof {
                assert(texts(limitations@) =~= seq!["Length extension attacks not covered for all functions"@]);
            }
            build_result(
                "hash_functions",
                "Collision resistance and preimage resistance",
                9800,
                "Standard cryptographic analysis",
                pair_of("Underlying primitives are secure", "No quantum attacks applicable"),
                limitations,
                now,
            )
        } else {
            return Err(SecurityError::UnknownComponent);
        };
        let ghost rv = result@;
        self.verification_history.push(result.duplicate());
        proof {
            assert(self.spec_history() =~= old(self).spec_history().push(rv));
        }
        Ok(result)
    }

    /// Verifies a known component now.
    pub fn verify_cryptographic_component(&mut self, component: &str) -> (r: Result<
        VerificationResult,
        SecurityError,
    >)
        ensures
            (r is Ok) == (verification_of(component@, 0) is Some),
            exists|now: u64| match #[trigger] verification_of(component@, now) {
                Some(v) => r matches Ok(res) && res@ == v && final(self).spec_history() == old(
                    self).spec_history().push(v),
                None => r == Err::<VerificationResult, SecurityError>(SecurityError::UnknownComponent)
                    && final(self).spec_history() == old(self).spec_history(),
            },
    {
        let now = now_secs();
        let r = self.verify_cryptographic_component_at(component, now);
        assert(match verification_of(component@, now) {
            Some(v) => r matches Ok(res) && res@ == v && self.spec_history() == old(self).spec_history().push(v),
            None => r == Err::<VerificationResult, SecurityError>(SecurityError::UnknownComponent)
                && self.spec_history() == old(self).spec_history(),
        });
        r
    }

    /// Verifies the four critical components at clock reading `now`, in
    /// order: Dilithium, AES, Bulletproofs, hash functions.
    pub fn perform_comprehensive_verification_at(&mut self, now: u64) -> (r: Result<
        Vec<VerificationResult>,
        SecurityError,
    >)
        ensures
            r matches Ok(v) && v@.map_values(|x: VerificationResult| x@) == comprehensive_results(now),
            final(self).spec_history() == old(self).spec_history() + comprehensive_results(now),
    {
        let mut results: Vec<VerificationResult> = Vec::new();
        let r0 = self.verify_cryptographic_component_at("dilithium_signature", now);
        let r1 = self.verify_cryptographic_component_at("aes_encryption", now);
        let r2 = self.verify_cryptographic_component_at("bulletproofs", now);
        let r3 = self.verify_cryptographic_component_at("hash_functions", now);
        proof {
            reveal_strlit("dilithium_signature");
            reveal_strlit("aes_encryption");
            reveal_strlit("bulletproofs");
            reveal_strlit("hash_functions");
        }
        match (r0, r1, r2, r3) {
            (Ok(a), Ok(b), Ok(c), Ok(d)) => {
                results.push(a);
                results.push(b);
                results.push(c);
                results.push(d);
            },
            _ => {
                return Err(SecurityError::UnknownComponent);
            },
        }
        let ghost expected = seq![
            verification_of("dilithium_signature"@, now)->0,
            verification_of("aes_encryption"@, now)->0,
            verification_of("bulletproofs"@, now)->0,
            verification_of("hash_functions"@, now)->0,
        ];
        assert(results@.map_values(|x: VerificationResult| x@) =~= expected);
        assert(self.spec_history() =~= old(self).spec_history() + expected);
        Ok(results)
    }

    /// Verifies the four critical components now.
    pub fn perform_comprehensive_verification(&mut self) -> (r: Result<Vec<VerificationResult>, SecurityError>)
        ensures
            exists|now: u64| {
                &&& r matches Ok(v) && v@.map_values(|x: VerificationResult| x@) == #[trigger] comprehensive_results(now)
                &&& final(self).spec_history() == old(self).spec_history() + comprehensive_results(now)
            },
    {
        let now = now_secs();
        let r = self.perform_comprehensive_verification_at(now);
        assert(r matches Ok(v) && v@.map_values(|x: VerificationResult| x@) == comprehensive_results(now));
        r
    }

    /// The last result of a component in the history.
    fn last_of(&self, component: &str) -> (r: Option<usize>)
        ensures
            match r {
                Some(i) => i < self.verification_history@.len() && last_result(self.spec_history(), component@)
                    == Some(self.spec_history()[i as int]),
                None => last_result(self.spec_history(), component@) is None,
            },
    {
        let ghost h = self.spec_history();
        assert(h.take(h.len() as int) =~= h);
        let mut i: usize = self.verification_history.len();
        while i > 0
            invariant
                0 <= i <= h.len(),
                h == self.spec_history(),
                last_result(h, component@) == last_result(h.take(i as int), component@),
            decreases i,
        {
            proof {
                assert(h.take(i as int).drop_last() =~= h.take(i - 1));
                assert(h.take(i as int).last() == h[i - 1]);
                assert(h[i - 1] == self.verification_history@[i - 1]@);
            }
            if str_equal(self.verification_history[i - 1].component.as_str(), component) {
                return Some(i - 1);
            }
            i = i - 1;
        }
        None
    }

    /// Whether the critical components meet the required confidence.
    pub fn check_verification_status(&self) -> (r: VerificationStatus)
        ensures
            r == status_of(self.spec_history()),
    {
        let d = self.last_of("dilithium_signature");
        let a = self.last_of("aes_encryption");
        match (d, a) {
            (Some(i), Some(j)) => {
                let rd = &self.verification_history[i];
                let ra = &self.verification_history[j];
                if !rd.verified || !ra.verified {
                    VerificationStatus::Failed
                } else if rd.confidence_bp >= REQUIRED_CONFIDENCE_BP && ra.confidence_bp >= REQUIRED_CONFIDENCE_BP {
                    VerificationStatus::Passed
                } else {
                    VerificationStatus::InsufficientConfidence
                }
            },
            _ => VerificationStatus::Failed,
        }
    }

    /// The verification history, oldest first.
    pub fn get_verification_history(&self) -> (r: &[VerificationResult])
        ensures
            r@.map_values(|x: VerificationResult| x@) == self.spec_history(),
    {
        self.verification_history.as_slice()
    }

    /// A report of the history at clock reading `now`.
    pub fn verification_report_at(&self, now: u64) -> (r: VerificationReport)
        ensures
            r.timestamp == now,
            r.results@.map_values(|x: VerificationResult| x@) == self.spec_history(),
            r.overall_status == status_of(self.spec_history()),
    {
        let mut results: Vec<VerificationResult> = Vec::new();
        let mut i: usize = 0;
        while i < self.verification_history.len()
            invariant
                0 <= i <= self.verification_history@.len(),
                results@.map_values(|x: VerificationResult| x@) == self.spec_history().take(i as int),
            decreases self.verification_history@.len() - i,
        {
            let ghost before = results@;
            results.push(self.verification_history[i].duplicate());
            proof {
                assert(results@.map_values(|x: VerificationResult| x@) =~= before.map_values(
                    |x: VerificationResult| x@,
                ).push(self.verification_history@[i as int]@));
                assert(results@.map_values(|x: VerificationResult| x@) =~= self.spec_history().take(i + 1));
            }
            i = i + 1;
        }
        assert(self.spec_history().take(self.verification_history@.len() as int) =~= self.spec_history());
        VerificationReport { timestamp: now, results, overall_status: self.check_verification_status() }
    }
}

/// After a comprehensive verification the status is passed, whatever came
/// before.
pub proof fn lemma_comprehensive_passes(h: Seq<ResultView>, now: u64)
    ensures
        status_of(
            h + seq![
                verification_of("dilithium_signature"@, now)->0,
                verification_of("aes_encryption"@, now)->0,
                verification_of("bulletproofs"@, now)->0,
                verification_of("hash_functions"@, now)->0,
            ],
        ) == VerificationStatus::Passed,
{
    reveal_strlit("dilithium_signature");
    reveal_strlit("aes_encryption");
    reveal_strlit("bulletproofs");
    reveal_strlit("hash_functions");
    let e = seq![
        verification_of("dilithium_signature"@, now)->0,
        verification_of("aes_encryption"@, now)->0,
        verification_of("bulletproofs"@, now)->0,
        verification_of("hash_functions"@, now)->0,
    ];
    let full = h + e;
    let f3 = full.drop_last();
    let f2 = f3.drop_last();
    let f1 = f2.drop_last();
    assert(full.last() == e[3]);
    assert(f3.last() == e[2]);
    assert(f2.last() == e[1]);
    assert(f1.last() == e[0]);
    assert(e[0].component == "dilithium_signature"@);
    assert(e[1].component == "aes_encryption"@);
    assert(e[2].component == "bulletproofs"@);
    assert(e[3].component == "hash_functions"@);
    let aes = "aes_encryption"@;
    let dil = "dilithium_signature"@;
    assert(e[3].component[0] != aes[0] && e[2].component[0] != aes[0]);
    assert(e[3].component[0] != dil[0] && e[2].component[0] != dil[0] && e[1].component[0] != dil[0]);
    assert(last_result(f2, aes) == Some(e[1]));
    assert(last_result(f3, aes) == Some(e[1]));
    assert(last_result(full, aes) == Some(e[1]));
    assert(last_result(f1, dil) == Some(e[0]));
    assert(last_result(f2, dil) == Some(e[0]));
    assert(last_result(f3, dil) == Some(e[0]));
    assert(last_result(full, dil) == Some(e[0]));
}

} // verus!
