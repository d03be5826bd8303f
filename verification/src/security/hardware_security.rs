//! Hardware security module access. The module here is simulated: it
//! accepts every key and hands back a fixed one.
use vstd::prelude::*;
use crate::security::SecurityError;

verus! {

/// Hardware security module
pub struct HardwareSecurityModule;

/// Security enclave
#[derive(Debug, Clone, Copy)]
pub struct SecurityEnclave;

/// Key management system
#[derive(Debug, Clone, Copy)]
pub struct KeyManagement;

/// The key the module hands back for every id.
pub open spec fn stored_key() -> Seq<u8> {
    seq![1u8, 2, 3, 4, 5]
}

impl HardwareSecurityModule {
    /// Create a new HSM instance
    pub fn new() -> (r: Result<HardwareSecurityModule, SecurityError>)
        ensures
            r is Ok,
    {
        Ok(HardwareSecurityModule)
    }

    /// Stores a key under an id.
    pub fn store_key(&self, key_id: &str, key_data: &[u8]) -> (r: Result<(), SecurityError>)
        ensures
            r is Ok,
    {
        Ok(())
    }

    /// Retrieves the key of an id.
    pub fn retrieve_key(&self, key_id: &str) -> (r: Result<Vec<u8>, SecurityError>)
        ensures
            r matches Ok(v) && v@ == stored_key(),
    {
        let v: Vec<u8> = vec![1, 2, 3, 4, 5];
        assert(v@ =~= stored_key());
        Ok(v)
    }
}

} // verus!
