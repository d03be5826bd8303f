//! Homomorphic encryption. The scheme here is simulated: a ciphertext
//! is the plaintext followed by the public key.
use vstd::prelude::*;
use crate::security::SecurityError;

verus! {

/// Homomorphic encryption operations
#[derive(Debug, Clone, Copy, PartialEq, Eq, Structural)]
pub enum FHEOperations {
    Addition,
    Multiplication,
    Comparison,
    AggregateSum,
    AggregateAverage,
    PrivacyPreservingQuery,
}

#[derive(Debug, Clone, Copy, PartialEq, Eq, Structural)]
pub enum EncryptionScheme {
    BFV,
    CKKS,
    TFHE,
}

/// The byte that marks an operation in a computation result: its position
/// in the list of operations.
pub open spec fn operation_code(op: FHEOperations) -> u8 {
    match op {
        FHEOperations::Addition => 0,
        FHEOperations::Multiplication => 1,
        FHEOperations::Comparison => 2,
        FHEOperations::AggregateSum => 3,
        FHEOperations::AggregateAverage => 4,
        FHEOperations::PrivacyPreservingQuery => 5,
    }
}

/// Whether a scheme supports an operation: BFV adds and multiplies; CKKS
/// also sums and averages; TFHE compares.
pub open spec fn scheme_supports(scheme: EncryptionScheme, op: FHEOperations) -> bool {
    match (scheme, op) {
        (EncryptionScheme::BFV, FHEOperations::Addition) => true,
        (EncryptionScheme::BFV, FHEOperations::Multiplication) => true,
        (EncryptionScheme::CKKS, FHEOperations::Addition) => true,
        (EncryptionScheme::CKKS, FHEOperations::Multiplication) => true,
        (EncryptionScheme::CKKS, FHEOperations::AggregateSum) => true,
        (EncryptionScheme::CKKS, FHEOperations::AggregateAverage) => true,
        (EncryptionScheme::TFHE, FHEOperations::Comparison) => true,
        _ => false,
    }
}

/// What decryption gives: the ciphertext without the key's length of
/// trailing bytes, or the ciphertext itself where it is no longer than
/// the key.
pub open spec fn decrypted(data: Seq<u8>, key: Seq<u8>) -> Seq<u8> {
    if data.len() > key.len() {
        data.take(data.len() - key.len())
    } else {
        data
    }
}

/// Homomorphic encryption engine
pub struct HomomorphicEncryption {
    scheme: EncryptionScheme,
    public_key: Vec<u8>,
    private_key: Vec<u8>,
    evaluation_key: Vec<u8>,
}

/// Appends bytes to a vector.
fn extend(out: &mut Vec<u8>, data: &[u8])
    ensures
        final(out)@ == old(out)@ + data@,
{
    let mut i: usize = 0;
    while i < data.len()
        invariant
            0 <= i <= data@.len(),
            out@ == old(out)@ + data@.take(i as int),
        decreases data@.len() - i,
    {
        out.push(data[i]);
        proof {
            assert(out@ =~= old(out)@ + data@.take(i + 1));
        }
        i = i + 1;
    }
    assert(data@.take(data@.len() as int) =~= data@);
}

/// The first `n` bytes of a slice.
fn prefix(data: &[u8], n: usize) -> (r: Vec<u8>)
    requires
        n <= data@.len(),
    ensures
        r@ == data@.take(n as int),
{
    let mut out: Vec<u8> = Vec::new();
    let mut i: usize = 0;
    while i < n
        invariant
            0 <= i <= n <= data@.len(),
            out@ == data@.take(i as int),
        decreases n - i,
    {
        out.push(data[i]);
        proof {
            assert(out@ =~= data@.take(i + 1));
        }
        i = i + 1;
    }
    out
}

impl HomomorphicEncryption {
    pub closed spec fn spec_scheme(&self) -> EncryptionScheme {
        self.scheme
    }

    pub closed spec fn spec_public_key(&self) -> Seq<u8> {
        self.public_key@
    }

    pub closed spec fn spec_private_key(&self) -> Seq<u8> {
        self.private_key@
    }

    pub closed spec fn spec_evaluation_key(&self) -> Seq<u8> {
        self.evaluation_key@
    }

    /// An engine for a scheme, with its initial keys.
    pub fn new(scheme: EncryptionScheme) -> (r: Result<HomomorphicEncryption, SecurityError>)
        ensures
            r matches Ok(h) && h.spec_scheme() == scheme && h.spec_public_key() == seq![1u8, 2, 3, 4]
                && h.spec_private_key() == seq![5u8, 6, 7, 8] && h.spec_evaluation_key() == seq![9u8, 10, 11, 12],
    {
        let h = HomomorphicEncryption {
            scheme,
            public_key: vec![1, 2, 3, 4],
            private_key: vec![5, 6, 7, 8],
            evaluation_key: vec![9, 10, 11, 12],
        };
        assert(h.spec_public_key() =~= seq![1u8, 2, 3, 4]);
        assert(h.spec_private_key() =~= seq![5u8, 6, 7, 8]);
        assert(h.spec_evaluation_key() =~= seq![9u8, 10, 11, 12]);
        Ok(h)
    }

    /// Encrypts data: the data followed by the public key.
    pub fn encrypt(&self, data: &[u8]) -> (r: Result<Vec<u8>, SecurityError>)
        ensures
            r matches Ok(v) && v@ == data@ + self.spec_public_key(),
    {
        let mut encrypted = prefix(data, data.len());
        assert(data@.take(data@.len() as int) =~= data@);
        extend(&mut encrypted, self.public_key.as_slice());
        Ok(encrypted)
    }

    /// Decrypts data: drops the public key's length of trailing bytes.
    pub fn decrypt(&self, encrypted_data: &[u8]) -> (r: Result<Vec<u8>, SecurityError>)
        ensures
            r matches Ok(v) && v@ == decrypted(encrypted_data@, self.spec_public_key()),
    {
        if encrypted_data.len() > self.public_key.len() {
            let data_len = encrypted_data.len() - self.public_key.len();
            Ok(prefix(encrypted_data, data_len))
        } else {
            let r = prefix(encrypted_data, encrypted_data.len());
            assert(encrypted_data@.take(encrypted_data@.len() as int) =~= encrypted_data@);
            Ok(r)
        }
    }

    /// The result of an operation on encrypted data: the data followed by
    /// the operation's code.
    pub fn computation_result(encrypted_data: &[u8], operation: FHEOperations) -> (r: Vec<u8>)
        ensures
            r@ == encrypted_data@.push(operation_code(operation)),
    {
        let mut result = prefix(encrypted_data, encrypted_data.len());
        assert(encrypted_data@.take(encrypted_data@.len() as int) =~= encrypted_data@);
        let code: u8 = match operation {
            FHEOperations::Addition => 0,
            FHEOperations::Multiplication => 1,
            FHEOperations::Comparison => 2,
            FHEOperations::AggregateSum => 3,
            FHEOperations::AggregateAverage => 4,
            FHEOperations::PrivacyPreservingQuery => 5,
        };
        result.push(code);
        result
    }

    /// Replaces the keys with the next generation.
    pub fn generate_keys(&mut self) -> (r: Result<(), SecurityError>)
        ensures
            r is Ok,
            final(self).spec_scheme() == old(self).spec_scheme(),
            final(self).spec_public_key() == seq![1u8, 2, 3, 4, 5],
            final(self).spec_private_key() == seq![6u8, 7, 8, 9, 10],
            final(self).spec_evaluation_key() == seq![11u8, 12, 13, 14, 15],
    {
        self.public_key = vec![1, 2, 3, 4, 5];
        self.private_key = vec![6, 7, 8, 9, 10];
        self.evaluation_key = vec![11, 12, 13, 14, 15];
        assert(self.spec_public_key() =~= seq![1u8, 2, 3, 4, 5]);
        assert(self.spec_private_key() =~= seq![6u8, 7, 8, 9, 10]);
        assert(self.spec_evaluation_key() =~= seq![11u8, 12, 13, 14, 15]);
        Ok(())
    }

    /// Whether the scheme supports the operation.
    pub fn supports_operation(&self, operation: &FHEOperations) -> (r: bool)
        ensures
            r == scheme_supports(self.spec_scheme(), *operation),
    {
        match (self.scheme, *operation) {
            (EncryptionScheme::BFV, FHEOperations::Addition) => true,
            (EncryptionScheme::BFV, FHEOperations::Multiplication) => true,
            (EncryptionScheme::CKKS, FHEOperations::Addition) => true,
            (EncryptionScheme::CKKS, FHEOperations::Multiplication) => true,
            (EncryptionScheme::CKKS, FHEOperations::AggregateSum) => true,
            (EncryptionScheme::CKKS, FHEOperations::AggregateAverage) => true,
            (EncryptionScheme::TFHE, FHEOperations::Comparison) => true,
            _ => false,
        }
    }
}

/// Decrypting an encryption gives the data back, for data that is not
/// empty (or under an empty key).
pub proof fn lemma_decrypt_encrypt(data: Seq<u8>, key: Seq<u8>)
    requires
        data.len() > 0 || key.len() == 0,
    ensures
        decrypted(data + key, key) == data,
{
    if data.len() > 0 {
        assert((data + key).take(data.len() as int) =~= data);
    } else {
        assert(data + key =~= data);
    }
}

} // verus!
