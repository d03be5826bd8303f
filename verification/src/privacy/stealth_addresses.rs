//! Stealth addresses: the hashing that turns a shared secret into a view
//! tag and a one-time key into an address, and the framing of the stealth
//! metadata a transaction carries. The curve arithmetic that produces the
//! keys and the shared secret is the caller's.
use vstd::prelude::*;
use crate::crypto::{hex_encode, hex_lower};
use crate::encoding::copy_range;
use sha2::Digest;
use crate::privacy::range_proofs::random_scalar;
use curve25519_dalek_ng::constants::RISTRETTO_BASEPOINT_TABLE;
use curve25519_dalek_ng::ristretto::CompressedRistretto;
use curve25519_dalek_ng::scalar::Scalar;

verus! {

/// Stealth address metadata included in a transaction
#[derive(Debug, Clone)]
pub struct StealthMetadata {
    /// Ephemeral public key
    pub ephemeral_public_key: Vec<u8>,
    /// View tag
    pub view_tag: u8,
    /// Optional encrypted memo data
    pub encrypted_memo: Option<Vec<u8>>,
}

/// The SHA-512 digest of a byte string.
pub uninterp spec fn sha512_digest(data: Seq<u8>) -> Seq<u8>;

/// Calls `sha2::Sha512::digest`; the contract names the digest and claims
/// its length, 64 bytes.
#[verifier::external_body]
fn sha512(data: &[u8]) -> (r: Vec<u8>)
    ensures
        r@ == sha512_digest(data@),
        r@.len() == 64,
{
    sha2::Sha512::digest(data).to_vec()
}

/// The canonical scalar a 32-byte string reduces to, as its bytes.
pub uninterp spec fn scalar_mod_order(bytes: Seq<u8>) -> Seq<u8>;

/// Calls `curve25519_dalek_ng::scalar::Scalar::from_bytes_mod_order` and
/// gives back the bytes of the scalar; the contract names the result.
#[verifier::external_body]
fn reduce_scalar(bytes: [u8; 32]) -> (r: [u8; 32])
    ensures
        r@ == scalar_mod_order(bytes@),
{
    curve25519_dalek_ng::scalar::Scalar::from_bytes_mod_order(bytes).to_bytes()
}

/// The compressed point of a scalar (read modulo the group order) times
/// the base point.
pub uninterp spec fn base_times(s: Seq<u8>) -> Seq<u8>;

/// Multiplies the scalar by `RISTRETTO_BASEPOINT_TABLE` and compresses the
/// point; the contract names the result.
#[verifier::external_body]
fn base_point_times(s: [u8; 32]) -> (r: [u8; 32])
    ensures
        r@ == base_times(s@),
{
    (&Scalar::from_bytes_mod_order(s) * &RISTRETTO_BASEPOINT_TABLE).compress().to_bytes()
}

/// Whether 32 bytes are the compression of a point.
pub uninterp spec fn decodes(p: Seq<u8>) -> bool;

/// The compressed product of a scalar (read modulo the group order) and
/// a point given compressed.
pub uninterp spec fn point_product(s: Seq<u8>, p: Seq<u8>) -> Seq<u8>;

/// Calls `CompressedRistretto::decompress` on the point, multiplies it by
/// the scalar and compresses the product; none where the bytes are not a
/// point. The contract names whether they are, and the product.
#[verifier::external_body]
fn point_times(s: [u8; 32], p: [u8; 32]) -> (r: Option<[u8; 32]>)
    ensures
        r is Some <==> decodes(p@),
        r matches Some(q) ==> q@ == point_product(s@, p@),
{
    match CompressedRistretto(p).decompress() {
        Some(point) => Some((Scalar::from_bytes_mod_order(s) * point).compress().to_bytes()),
        None => None,
    }
}

/// The compressed sum of a point given compressed and a scalar (read
/// modulo the group order) times the base point.
pub uninterp spec fn offset_by_base(p: Seq<u8>, s: Seq<u8>) -> Seq<u8>;

/// Calls `CompressedRistretto::decompress` on the point, adds the scalar
/// times `RISTRETTO_BASEPOINT_TABLE` and compresses the sum; none where the
/// bytes are not a point. The contract names whether they are, and the
/// sum.
#[verifier::external_body]
fn add_base_times(p: [u8; 32], s: [u8; 32]) -> (r: Option<[u8; 32]>)
    ensures
        r is Some <==> decodes(p@),
        r matches Some(q) ==> q@ == offset_by_base(p@, s@),
{
    match CompressedRistretto(p).decompress() {
        Some(point) => Some((point + &Scalar::from_bytes_mod_order(s) * &RISTRETTO_BASEPOINT_TABLE).compress().to_bytes()),
        None => None,
    }
}

/// A key pair: a scalar and its point, both as 32 bytes.
#[derive(Debug, Clone, Copy)]
pub struct KeyPair {
    pub private_key: [u8; 32],
    pub public_key: [u8; 32],
}

/// Key pair for stealth addresses
#[derive(Debug, Clone, Copy)]
pub struct StealthKeyPair {
    /// View key (used to identify received transactions)
    pub view_key: KeyPair,
    /// Spend key (used to spend received funds)
    pub spend_key: KeyPair,
}

/// Complete stealth address with metadata
#[derive(Debug, Clone)]
pub struct StealthAddress {
    /// Derived address
    pub address: String,
    /// Ephemeral public key used to derive the address
    pub ephemeral_public_key: [u8; 32],
    /// View tag used by the recipient to identify their transactions
    pub view_tag: u8,
}

/// Why a stealth address could not be made or checked.
#[derive(Debug, Clone, Copy, PartialEq, Eq, Structural)]
pub enum StealthError {
    /// The recipient's view key is not a point.
    InvalidViewKey,
    /// The spend key is not a point.
    InvalidSpendKey,
    /// The ephemeral key is not 32 bytes.
    InvalidEphemeralKeyLength,
    /// The ephemeral key is not a point.
    InvalidEphemeralKey,
}

/// A key pair is a scalar and its point.
pub open spec fn key_pair_of(k: KeyPair) -> bool {
    k.public_key@ == base_times(k.private_key@)
}

/// The context of shared secrets: `shared_secret`.
pub open spec fn secret_context() -> Seq<u8> {
    seq![115u8, 104, 97, 114, 101, 100, 95, 115, 101, 99, 114, 101, 116]
}

/// The secret a scalar shares with a point: their product, hashed to a
/// scalar.
pub open spec fn shared_secret(s: Seq<u8>, p: Seq<u8>) -> Seq<u8> {
    hashed_scalar(secret_context(), point_product(s, p))
}

/// The one-time address for a spend key and a shared secret.
pub open spec fn one_time_address(spend_public: Seq<u8>, secret: Seq<u8>) -> Seq<char> {
    stealth_address_text(offset_by_base(spend_public, secret))
}

/// The domain every stealth derivation is separated by.
pub open spec fn stealth_domain() -> Seq<u8> {
    seq![101u8, 114, 98, 105, 117, 109, 95, 115, 116, 101, 97, 108, 116, 104, 95, 97, 100, 100, 114, 101, 115, 115,
        95, 118, 49]
}

/// The context of address derivation.
pub open spec fn address_context() -> Seq<u8> {
    seq![97u8, 100, 100, 114, 101, 115, 115, 95, 100, 101, 114, 105, 118, 97, 116, 105, 111, 110]
}

/// The marker that opens stealth metadata in a transaction's data.
pub open spec fn stealth_marker() -> Seq<u8> {
    seq![83u8, 84, 76, 72]
}

/// The address of a one-time public key: `0x` and the hexadecimal text of
/// the first 20 bytes of the SHA-512 of the domain, the derivation context
/// and the key.
pub open spec fn stealth_address_text(public_key: Seq<u8>) -> Seq<char> {
    "0x"@ + hex_lower(sha512_digest(stealth_domain() + address_context() + public_key).subrange(0, 20))
}

/// The scalar a context and data hash to: the first 32 bytes of the
/// SHA-512 of the domain, the context and the data, reduced.
pub open spec fn hashed_scalar(context: Seq<u8>, data: Seq<u8>) -> Seq<u8> {
    scalar_mod_order(sha512_digest(stealth_domain() + context + data).subrange(0, 32))
}

/// Append bytes to a vector.
fn push_all(out: &mut Vec<u8>, bytes: &[u8])
    ensures
        final(out)@ == old(out)@ + bytes@,
{
    let mut i: usize = 0;
    let ghost start = out@;
    while i < bytes.len()
        invariant
            0 <= i <= bytes@.len(),
            out@ == start + bytes@.take(i as int),
        decreases bytes@.len() - i,
    {
        out.push(bytes[i]);
        proof {
            assert(bytes@.take(i + 1) =~= bytes@.take(i as int).push(bytes@[i as int]));
            assert(out@ =~= start + bytes@.take(i + 1));
        }
        i = i + 1;
    }
    proof {
        assert(bytes@.take(bytes@.len() as int) =~= bytes@);
    }
}

/// Stealth address system for transaction privacy
pub struct StealthAddressSystem {
    domain_separator: Vec<u8>,
}

impl StealthAddressSystem {
    /// The domain separator.
    pub closed spec fn spec_domain(&self) -> Seq<u8> {
        self.domain_separator@
    }

    /// A system separated by the domain `erbium_stealth_address_v1`.
    pub fn new() -> (r: StealthAddressSystem)
        ensures
            r.spec_domain() == stealth_domain(),
    {
        let domain: Vec<u8> = vec![101u8, 114, 98, 105, 117, 109, 95, 115, 116, 101, 97, 108, 116, 104, 95, 97, 100,
            100, 114, 101, 115, 115, 95, 118, 49];
        proof {
            assert(domain@ =~= stealth_domain());
        }
        StealthAddressSystem { domain_separator: domain }
    }

    /// The address of a one-time public key.
    pub fn derive_address_from_public_key(&self, public_key: &[u8; 32]) -> (r: String)
        requires
            self.spec_domain() == stealth_domain(),
        ensures
            r@ == stealth_address_text(public_key@),
    {
        let mut data: Vec<u8> = Vec::new();
        push_all(&mut data, self.domain_separator.as_slice());
        let context: Vec<u8> = vec![97u8, 100, 100, 114, 101, 115, 115, 95, 100, 101, 114, 105, 118, 97, 116, 105,
            111, 110];
        proof {
            assert(context@ =~= address_context());
        }
        push_all(&mut data, context.as_slice());
        push_all(&mut data, public_key.as_slice());
        let digest = sha512(data.as_slice());
        let head = copy_range(digest.as_slice(), 0, 20);
        let mut text = String::from_str("0x");
        let hex = hex_encode(head.as_slice());
        text.append(hex.as_str());
        text
    }

    /// The view tag of a shared secret: its first byte.
    pub fn derive_view_tag(&self, shared_secret: &[u8; 32]) -> (r: u8)
        ensures
            r == shared_secret@[0],
    {
        shared_secret[0]
    }

    /// Hash a context and data to a scalar.
    pub fn hash_to_scalar(&self, context: &[u8], data: &[u8]) -> (r: [u8; 32])
        requires
            self.spec_domain() == stealth_domain(),
        ensures
            r@ == hashed_scalar(context@, data@),
    {
        let mut all: Vec<u8> = Vec::new();
        push_all(&mut all, self.domain_separator.as_slice());
        push_all(&mut all, context);
        push_all(&mut all, data);
        let digest = sha512(all.as_slice());
        let mut bytes = [0u8; 32];
        let mut i: usize = 0;
        while i < 32
            invariant
                0 <= i <= 32,
                digest@.len() == 64,
                bytes@.len() == 32,
                forall|j: int| 0 <= j < i ==> bytes@[j] == digest@[j],
            decreases 32 - i,
        {
            bytes[i] = digest[i];
            i = i + 1;
        }
        proof {
            assert(bytes@ =~= digest@.subrange(0, 32));
        }
        reduce_scalar(bytes)
    }

    /// A fresh key pair.
    pub fn generate_key_pair(&self) -> (r: Result<KeyPair, StealthError>)
        ensures
            r matches Ok(k) && key_pair_of(k),
    {
        let private_key = random_scalar();
        let public_key = base_point_times(private_key);
        Ok(KeyPair { private_key, public_key })
    }

    /// A fresh view key pair and a fresh spend key pair.
    pub fn generate_stealth_key_pair(&self) -> (r: Result<StealthKeyPair, StealthError>)
        ensures
            r matches Ok(k) && key_pair_of(k.view_key) && key_pair_of(k.spend_key),
    {
        let view_key = match self.generate_key_pair() {
            Ok(k) => k,
            Err(e) => return Err(e),
        };
        let spend_key = match self.generate_key_pair() {
            Ok(k) => k,
            Err(e) => return Err(e),
        };
        Ok(StealthKeyPair { view_key, spend_key })
    }

    /// A one-time address for a recipient's view and spend keys, with a
    /// fresh ephemeral scalar (returned too): the secret it shares with the
    /// view key gives the view tag (its first byte) and offsets the spend
    /// key to the one-time key the address is derived from.
    pub fn generate_stealth_address(&self, recipient_view_public: &[u8; 32], recipient_spend_public: &[u8; 32]) -> (r:
        Result<(StealthAddress, [u8; 32]), StealthError>)
        requires
            self.spec_domain() == stealth_domain(),
        ensures
            !decodes(recipient_view_public@) ==> r == Err::<(StealthAddress, [u8; 32]), StealthError>(
                StealthError::InvalidViewKey,
            ),
            decodes(recipient_view_public@) && !decodes(recipient_spend_public@) ==> r == Err::<
                (StealthAddress, [u8; 32]),
                StealthError,
            >(StealthError::InvalidSpendKey),
            decodes(recipient_view_public@) && decodes(recipient_spend_public@) ==> (r matches Ok((a, e)) && {
                let secret = shared_secret(e@, recipient_view_public@);
                &&& a.ephemeral_public_key@ == base_times(e@)
                &&& a.view_tag == secret[0]
                &&& a.address@ == one_time_address(recipient_spend_public@, secret)
            }),
    {
        let ephemeral_private = random_scalar();
        let ephemeral_public = base_point_times(ephemeral_private);
        let shared_point = match point_times(ephemeral_private, *recipient_view_public) {
            Some(p) => p,
            None => return Err(StealthError::InvalidViewKey),
        };
        let context: Vec<u8> = vec![115u8, 104, 97, 114, 101, 100, 95, 115, 101, 99, 114, 101, 116];
        proof {
            assert(context@ =~= secret_context());
        }
        let secret = self.hash_to_scalar(context.as_slice(), shared_point.as_slice());
        let view_tag = self.derive_view_tag(&secret);
        let stealth_point = match add_base_times(*recipient_spend_public, secret) {
            Some(p) => p,
            None => return Err(StealthError::InvalidSpendKey),
        };
        let address = self.derive_address_from_public_key(&stealth_point);
        Ok((StealthAddress { address, ephemeral_public_key: ephemeral_public, view_tag }, ephemeral_private))
    }

    /// The one-time address a stealth payment is to, where it is for this
    /// key pair: none where the view tag differs from the one the shared
    /// secret gives.
    pub fn is_stealth_address_mine(&self, stealth_metadata: &StealthMetadata, key_pair: &StealthKeyPair) -> (r: Result<
        Option<String>,
        StealthError,
    >)
        requires
            self.spec_domain() == stealth_domain(),
        ensures
            stealth_metadata.ephemeral_public_key@.len() != 32 ==> r == Err::<Option<String>, StealthError>(
                StealthError::InvalidEphemeralKeyLength,
            ),
            stealth_metadata.ephemeral_public_key@.len() == 32 ==> ({
                let e = stealth_metadata.ephemeral_public_key@;
                let secret = shared_secret(key_pair.view_key.private_key@, e);
                &&& !decodes(e) ==> r == Err::<Option<String>, StealthError>(StealthError::InvalidEphemeralKey)
                &&& decodes(e) && secret[0] != stealth_metadata.view_tag ==> r == Ok::<Option<String>, StealthError>(
                    None,
                )
                &&& decodes(e) && secret[0] == stealth_metadata.view_tag && !decodes(key_pair.spend_key.public_key@)
                    ==> r == Err::<Option<String>, StealthError>(StealthError::InvalidSpendKey)
                &&& decodes(e) && secret[0] == stealth_metadata.view_tag && decodes(key_pair.spend_key.public_key@)
                    ==> (r matches Ok(Some(a)) && a@ == one_time_address(key_pair.spend_key.public_key@, secret))
            }),
    {
        if stealth_metadata.ephemeral_public_key.len() != 32 {
            return Err(StealthError::InvalidEphemeralKeyLength);
        }
        let mut key_bytes = [0u8; 32];
        let mut i: usize = 0;
        while i < 32
            invariant
                0 <= i <= 32,
                stealth_metadata.ephemeral_public_key@.len() == 32,
                key_bytes@.len() == 32,
                forall|j: int| 0 <= j < i ==> key_bytes@[j] == stealth_metadata.ephemeral_public_key@[j],
            decreases 32 - i,
        {
            key_bytes[i] = stealth_metadata.ephemeral_public_key[i];
            i = i + 1;
        }
        assert(key_bytes@ =~= stealth_metadata.ephemeral_public_key@);
        let shared_point = match point_times(key_pair.view_key.private_key, key_bytes) {
            Some(p) => p,
            None => return Err(StealthError::InvalidEphemeralKey),
        };
        let context: Vec<u8> = vec![115u8, 104, 97, 114, 101, 100, 95, 115, 101, 99, 114, 101, 116];
        proof {
            assert(context@ =~= secret_context());
        }
        let secret = self.hash_to_scalar(context.as_slice(), shared_point.as_slice());
        let expected_view_tag = self.derive_view_tag(&secret);
        if expected_view_tag != stealth_metadata.view_tag {
            return Ok(None);
        }
        let stealth_point = match add_base_times(key_pair.spend_key.public_key, secret) {
            Some(p) => p,
            None => return Err(StealthError::InvalidSpendKey),
        };
        Ok(Some(self.derive_address_from_public_key(&stealth_point)))
    }

    /// The serialized stealth metadata in a transaction's data: what
    /// follows the `STLH` marker; none for data without the marker.
    pub fn extract_stealth_payload(&self, data: &[u8]) -> (r: Option<Vec<u8>>)
        ensures
            data@.len() >= 4 && data@.subrange(0, 4) == stealth_marker() ==> (r matches Some(p) && p@ == data@.subrange(
                4,
                data@.len() as int,
            )),
            !(data@.len() >= 4 && data@.subrange(0, 4) == stealth_marker()) ==> r is None,
    {
        if data.len() < 4 {
            return None;
        }
        if data[0] != 83u8 || data[1] != 84u8 || data[2] != 76u8 || data[3] != 72u8 {
            proof {
                assert(!(data@.subrange(0, 4) =~= stealth_marker()) || (data[0] == 83u8 && data[1] == 84u8 && data[2] == 76u8 && data[3] == 72u8)) by {
                    if data@.subrange(0, 4) =~= stealth_marker() {
                        assert(data@.subrange(0, 4)[0] == 83u8);
                        assert(data@.subrange(0, 4)[1] == 84u8);
                        assert(data@.subrange(0, 4)[2] == 76u8);
                        assert(data@.subrange(0, 4)[3] == 72u8);
                    }
                }
            }
            return None;
        }
        proof {
            assert(data@.subrange(0, 4) =~= stealth_marker());
        }
        Some(copy_range(data, 4, data.len()))
    }

    /// Frame serialized stealth metadata for a transaction: the `STLH`
    /// marker, then the bytes.
    pub fn encode_stealth_payload(&self, serialized: &[u8]) -> (r: Vec<u8>)
        ensures
            r@ == stealth_marker() + serialized@,
    {
        let mut out: Vec<u8> = vec![83u8, 84, 76, 72];
        proof {
            assert(out@ =~= stealth_marker());
        }
        push_all(&mut out, serialized);
        out
    }
}

/// What framing gives back is what was framed.
pub proof fn lemma_stealth_payload_roundtrip(serialized: Seq<u8>)
    ensures
        (stealth_marker() + serialized).subrange(0, 4) == stealth_marker(),
        (stealth_marker() + serialized).subrange(4, (stealth_marker() + serialized).len() as int) == serialized,
{
    assert((stealth_marker() + serialized).subrange(0, 4) =~= stealth_marker());
    assert((stealth_marker() + serialized).subrange(4, (stealth_marker() + serialized).len() as int) =~= serialized);
}

} // verus!
