//! Privacy features: their configuration, range proofs and stealth
//! addresses.
pub mod range_proofs;
pub mod stealth_addresses;

use vstd::prelude::*;

verus! {

/// Privacy configuration
#[derive(Debug, Clone, Copy, PartialEq, Eq, Structural)]
pub struct PrivacyConfig {
    pub enable_zk_proofs: bool,
    pub enable_stealth_addresses: bool,
    pub max_confidential_amount: u64,
    pub zk_circuit_complexity: u32,
}

impl Default for PrivacyConfig {
    /// Zero-knowledge proofs and stealth addresses on, confidential amounts
    /// up to 1 000 000 000, circuits of complexity 1000.
    fn default() -> (r: PrivacyConfig)
        ensures
            r == (PrivacyConfig {
                enable_zk_proofs: true,
                enable_stealth_addresses: true,
                max_confidential_amount: 1_000_000_000,
                zk_circuit_complexity: 1000,
            }),
    {
        PrivacyConfig {
            enable_zk_proofs: true,
            enable_stealth_addresses: true,
            max_confidential_amount: 1_000_000_000,
            zk_circuit_complexity: 1000,
        }
    }
}

} // verus!
