//! Trusted execution environments: enclaves measured by the SHA-256 digest
//! of their code. Execution and attestation here are simulated.
use vstd::prelude::*;
use crate::crypto::{sha256, sha256_digest};
use crate::encoding::{decimal_chars, u64_to_string};
use crate::security::SecurityError;

verus! {

/// TEE types
#[derive(Debug, Clone, Copy, PartialEq, Eq, Structural)]
pub enum TEEType {
    /// Intel Software Guard Extensions
    SGX,
    /// Intel Trust Domain Extensions
    TDX,
    /// AMD Secure Encrypted Virtualization
    SEV,
    /// ARM TrustZone
    TrustZone,
}

/// TEE configuration
#[derive(Debug, Clone, Copy, PartialEq, Eq, Structural)]
pub struct TEEConfig {
    pub tee_type: TEEType,
    pub enable_remote_attestation: bool,
    pub measurement_log_enabled: bool,
    pub max_enclave_memory_mb: usize,
}

impl Default for TEEConfig {
    /// SGX with remote attestation and a measurement log, 1024 MB.
    fn default() -> (r: TEEConfig)
        ensures
            r == (TEEConfig {
                tee_type: TEEType::SGX,
                enable_remote_attestation: true,
                measurement_log_enabled: true,
                max_enclave_memory_mb: 1024,
            }),
    {
        TEEConfig {
            tee_type: TEEType::SGX,
            enable_remote_attestation: true,
            measurement_log_enabled: true,
            max_enclave_memory_mb: 1024,
        }
    }
}

/// Secure enclave
#[derive(Debug, Clone)]
pub struct SecureEnclave {
    pub id: String,
    pub tee_type: TEEType,
    pub measurement: Vec<u8>,
    pub is_attested: bool,
    pub memory_usage_mb: usize,
}

/// The view of an enclave: id, type, measurement, attested, memory.
pub type EnclaveView = (Seq<char>, TEEType, Seq<u8>, bool, usize);

impl View for SecureEnclave {
    type V = EnclaveView;

    open spec fn view(&self) -> EnclaveView {
        (self.id@, self.tee_type, self.measurement@, self.is_attested, self.memory_usage_mb)
    }
}

/// The id of the `n`th enclave: `enclave_<n>`.
pub open spec fn enclave_id(n: nat) -> Seq<char> {
    seq!['e', 'n', 'c', 'l', 'a', 'v', 'e', '_'] + decimal_chars(n)
}

/// The attestation report handed out.
pub open spec fn attestation_report() -> Seq<u8> {
    seq![1u8, 2, 3, 4, 5]
}

/// What running code in an enclave gives: the input followed by the code.
pub open spec fn secure_output(code: Seq<u8>, input: Seq<u8>) -> Seq<u8> {
    input + code
}

/// Trusted Execution Environment manager
pub struct TrustedExecutionEnvironment {
    config: TEEConfig,
    enclaves: Vec<SecureEnclave>,
}

impl TrustedExecutionEnvironment {
    pub closed spec fn spec_config(&self) -> TEEConfig {
        self.config
    }

    /// The enclaves in the order they were created.
    pub closed spec fn spec_enclaves(&self) -> Seq<EnclaveView> {
        self.enclaves@.map_values(|e: SecureEnclave| e@)
    }

    /// An environment with the default configuration and no enclave.
    pub fn new() -> (r: Result<TrustedExecutionEnvironment, SecurityError>)
        ensures
            r matches Ok(t) && t.spec_config() == (TEEConfig {
                tee_type: TEEType::SGX,
                enable_remote_attestation: true,
                measurement_log_enabled: true,
                max_enclave_memory_mb: 1024,
            }) && t.spec_enclaves().len() == 0,
    {
        let t = TrustedExecutionEnvironment { config: TEEConfig::default(), enclaves: Vec::new() };
        assert(t.spec_enclaves() =~= Seq::<EnclaveView>::empty());
        Ok(t)
    }

    /// Runs code on input in an enclave.
    pub fn execute_secure_code(&self, code: &[u8], input_data: &[u8]) -> (r: Result<Vec<u8>, SecurityError>)
        ensures
            r matches Ok(v) && v@ == secure_output(code@, input_data@),
    {
        let mut result: Vec<u8> = Vec::new();
        let mut i: usize = 0;
        while i < input_data.len()
            invariant
                0 <= i <= input_data@.len(),
                result@ == input_data@.take(i as int),
            decreases input_data@.len() - i,
        {
            result.push(input_data[i]);
            proof {
                assert(result@ =~= input_data@.take(i + 1));
            }
            i = i + 1;
        }
        let mut j: usize = 0;
        while j < code.len()
            invariant
                0 <= j <= code@.len(),
                i == input_data@.len(),
                result@ == input_data@.take(i as int) + code@.take(j as int),
            decreases code@.len() - j,
        {
            result.push(code[j]);
            proof {
                assert(result@ =~= input_data@.take(i as int) + code@.take(j + 1));
            }
            j = j + 1;
        }
        assert(result@ =~= input_data@ + code@);
        Ok(result)
    }

    /// Creates an enclave for code: id `enclave_<n>` for the `n`th, measured
    /// by the SHA-256 digest of the code, attested, 128 MB.
    pub fn create_enclave(&mut self, code: &[u8]) -> (r: Result<String, SecurityError>)
        ensures
            r matches Ok(id) && id@ == enclave_id(old(self).spec_enclaves().len()),
            final(self).spec_config() == old(self).spec_config(),
            final(self).spec_enclaves() == old(self).spec_enclaves().push(
                (
                    enclave_id(old(self).spec_enclaves().len()),
                    old(self).spec_config().tee_type,
                    sha256_digest(code@),
                    true,
                    128usize,
                ),
            ),
    {
        let mut enclave_id_text = String::from_str("enclave_");
        let digits = u64_to_string(self.enclaves.len() as u64);
        enclave_id_text.append(digits.as_str());
        proof {
            reveal_strlit("enclave_");
            assert(enclave_id_text@ =~= enclave_id(old(self).spec_enclaves().len()));
        }
        let measurement = self.calculate_measurement(code);
        let enclave = SecureEnclave {
            id: enclave_id_text.clone(),
            tee_type: self.config.tee_type,
            measurement,
            is_attested: true,
            memory_usage_mb: 128,
        };
        self.enclaves.push(enclave);
        proof {
            assert(self.spec_enclaves() =~= old(self).spec_enclaves().push(
                (
                    enclave_id(old(self).spec_enclaves().len()),
                    old(self).spec_config().tee_type,
                    sha256_digest(code@),
                    true,
                    128usize,
                ),
            ));
        }
        Ok(enclave_id_text)
    }

    /// The attestation report of an enclave.
    pub fn remote_attestation(&self, enclave_id: &str) -> (r: Result<Vec<u8>, SecurityError>)
        ensures
            r matches Ok(v) && v@ == attestation_report(),
    {
        let v: Vec<u8> = vec![1, 2, 3, 4, 5];
        assert(v@ =~= attestation_report());
        Ok(v)
    }

    /// The measurement of code: its SHA-256 digest.
    fn calculate_measurement(&self, code: &[u8]) -> (r: Vec<u8>)
        ensures
            r@ == sha256_digest(code@),
    {
        sha256(code)
    }
}

} // verus!
