//! Range proofs over Pedersen commitments, made and checked with the
//! bulletproofs crate. Scalars and compressed points travel as their 32
//! bytes; a blinding factor is read as a scalar modulo the group order.
use vstd::prelude::*;
use bulletproofs::{BulletproofGens, PedersenGens, ProofError, RangeProof};
use curve25519_dalek_ng::ristretto::CompressedRistretto;
use curve25519_dalek_ng::scalar::Scalar;
use merlin::Transcript;

verus! {

/// The bulletproofs range proof, carried through unopened.
#[verifier::external_type_specification]
#[verifier::external_body]
pub struct ExRangeProof(bulletproofs::RangeProof);

/// The bulletproofs error, carried through unopened.
#[verifier::external_type_specification]
#[verifier::external_body]
pub struct ExProofError(bulletproofs::ProofError);

/// The merlin transcript, carried through unopened.
#[verifier::external_type_specification]
#[verifier::external_body]
pub struct ExTranscript(merlin::Transcript);

/// The bit sizes a range proof can cover.
pub open spec fn valid_bit_length(n: usize) -> bool {
    n == 8 || n == 16 || n == 32 || n == 64
}

/// The compressed Pedersen commitment, under the default generators, of a
/// value with a blinding factor.
pub uninterp spec fn pedersen_commitment(value: u64, blinding: Seq<u8>) -> Seq<u8>;

/// Calls `PedersenGens::commit` on the default generators with the value
/// as a scalar and the blinding read modulo the group order, and
/// compresses the point; the contract names the result.
#[verifier::external_body]
fn pedersen_commit(value: u64, blinding: [u8; 32]) -> (r: [u8; 32])
    ensures
        r@ == pedersen_commitment(value, blinding@),
{
    PedersenGens::default().commit(Scalar::from(value), Scalar::from_bytes_mod_order(blinding)).compress().to_bytes()
}

/// Calls `Scalar::random` with the operating system's generator. The bytes
/// are random; `Scalar::random` reduces them modulo the group order, so the
/// scalar is canonical and its last byte is at most 0x10, and that is all
/// the contract claims.
#[verifier::external_body]
pub(crate) fn random_scalar() -> (r: [u8; 32])
    ensures
        r@[31] <= 0x10,
{
    Scalar::random(&mut rand::rngs::OsRng).to_bytes()
}

/// Calls `Transcript::new` with the label's bytes; nothing is claimed of
/// the transcript.
#[verifier::external_body]
fn new_transcript(label: &'static str) -> (r: Transcript) {
    Transcript::new(label.as_bytes())
}

/// Calls `Transcript::append_message` with the label's bytes; nothing is
/// claimed of the transcript after it. `Transcript::append_message` asserts
/// that the message's length fits in 32 bits.
#[verifier::external_body]
fn append_message(transcript: &mut Transcript, label: &'static str, message: &[u8])
    requires
        message@.len() <= u32::MAX,
{
    transcript.append_message(label.as_bytes(), message)
}

/// Calls `RangeProof::prove_single` with generators for `gens_capacity`
/// bits and `party_capacity` parties and the default Pedersen generators,
/// and gives back the proof's `to_bytes` and the commitment's bytes.
/// `RangeProof::prove_single` refuses a bit size other than 8, 16, 32 or 64
/// before anything else, and the commitment it returns is the Pedersen
/// commitment of the value under the blinding. The proof draws on a random
/// generator; nothing is claimed of its bytes.
#[verifier::external_body]
fn prove_single(
    gens_capacity: usize,
    party_capacity: usize,
    transcript: &mut Transcript,
    value: u64,
    blinding: [u8; 32],
    bit_length: usize,
) -> (r: Result<(Vec<u8>, [u8; 32]), ProofError>)
    requires
        gens_capacity <= 64,
        party_capacity <= 1,
    ensures
        !valid_bit_length(bit_length) ==> r is Err,
        r matches Ok((_, c)) ==> c@ == pedersen_commitment(value, blinding@),
{
    let bp_gens = BulletproofGens::new(gens_capacity, party_capacity);
    let pc_gens = PedersenGens::default();
    let blinding = Scalar::from_bytes_mod_order(blinding);
    match RangeProof::prove_single(&bp_gens, &pc_gens, transcript, value, &blinding, bit_length) {
        Ok((proof, commitment)) => Ok((proof.to_bytes(), commitment.to_bytes())),
        Err(e) => Err(e),
    }
}

/// Whether `RangeProof::from_bytes` reads these bytes as a proof.
pub uninterp spec fn range_proof_reads(bytes: Seq<u8>) -> bool;

/// Calls `RangeProof::from_bytes`, which reads the bytes alone: whether it
/// reads them is named `range_proof_reads`. `RangeProof::from_bytes` refuses
/// a length that is not a multiple of 32 or is below 224 bytes; what else it
/// refuses (scalars out of range, a malformed inner-product proof) is left
/// to the name.
#[verifier::external_body]
fn proof_from_bytes(bytes: &[u8]) -> (r: Result<RangeProof, ProofError>)
    ensures
        (r is Ok) == range_proof_reads(bytes@),
        bytes@.len() % 32 != 0 || bytes@.len() < 224 ==> r is Err,
{
    RangeProof::from_bytes(bytes)
}

/// Calls `RangeProof::verify_single` with generators for `gens_capacity`
/// bits and `party_capacity` parties, the default Pedersen generators, and
/// the commitment bytes as a compressed point. `RangeProof::verify_single`
/// refuses a bit size other than 8, 16, 32 or 64; verification weighs its
/// checks with a random generator, and nothing more is claimed.
#[verifier::external_body]
fn verify_single(
    proof: &RangeProof,
    gens_capacity: usize,
    party_capacity: usize,
    transcript: &mut Transcript,
    commitment: [u8; 32],
    bit_length: usize,
) -> (r: Result<(), ProofError>)
    requires
        gens_capacity <= 64,
        party_capacity <= 1,
    ensures
        !valid_bit_length(bit_length) ==> r is Err,
{
    let bp_gens = BulletproofGens::new(gens_capacity, party_capacity);
    let pc_gens = PedersenGens::default();
    proof.verify_single(&bp_gens, &pc_gens, transcript, &CompressedRistretto(commitment), bit_length)
}

/// Why a range proof could not be made or checked.
#[derive(Debug, Clone, Copy, PartialEq, Eq, Structural)]
pub enum RangeProofError {
    /// The prover refused the request.
    Generation,
    /// The proof bytes could not be read.
    Deserialization,
    /// A commitment is not 32 bytes.
    InvalidCommitmentLength,
    /// A batch's proofs, commitments and bit sizes differ in number.
    MismatchedBatch,
}

/// Range proofs for values of up to 64 bits, one party at a time.
pub struct RangeProofSystem {
    gens_capacity: usize,
    party_capacity: usize,
}

impl RangeProofSystem {
    /// Generators for 64-bit values and one party.
    pub closed spec fn wf(&self) -> bool {
        self.gens_capacity == 64 && self.party_capacity == 1
    }

    pub fn new() -> (r: RangeProofSystem)
        ensures
            r.wf(),
    {
        RangeProofSystem { gens_capacity: 64, party_capacity: 1 }
    }

    /// Commit to an amount with a blinding factor.
    pub fn commit_amount(&self, amount: u64, blinding: &[u8; 32]) -> (r: Result<[u8; 32], RangeProofError>)
        ensures
            r matches Ok(c) && c@ == pedersen_commitment(amount, blinding@),
    {
        Ok(pedersen_commit(amount, *blinding))
    }

    /// A range proof that `value`, committed with `blinding`, fits in
    /// `bit_length` bits; refused for a bit size other than 8, 16, 32 or
    /// 64.
    pub fn generate_range_proof(&self, value: u64, blinding: &[u8; 32], bit_length: usize) -> (r: Result<
        Vec<u8>,
        RangeProofError,
    >)
        requires
            self.wf(),
        ensures
            !valid_bit_length(bit_length) ==> r == Err::<Vec<u8>, RangeProofError>(RangeProofError::Generation),
            r is Err ==> r == Err::<Vec<u8>, RangeProofError>(RangeProofError::Generation),
    {
        let mut transcript = new_transcript("RangeProof");
        match prove_single(self.gens_capacity, self.party_capacity, &mut transcript, value, *blinding, bit_length) {
            Ok((proof, _commitment)) => Ok(proof),
            Err(_) => Err(RangeProofError::Generation),
        }
    }

    /// Check a range proof against a commitment: the proof must read, the
    /// commitment must be 32 bytes, and then the answer is whether the
    /// proof verifies (never for a bit size other than 8, 16, 32 or 64).
    pub fn verify_range_proof(&self, proof_bytes: &[u8], commitment_bytes: &[u8], bit_length: usize) -> (r: Result<
        bool,
        RangeProofError,
    >)
        requires
            self.wf(),
        ensures
            !range_proof_reads(proof_bytes@) ==> r == Err::<bool, RangeProofError>(RangeProofError::Deserialization),
            proof_bytes@.len() % 32 != 0 || proof_bytes@.len() < 224 ==> r == Err::<bool, RangeProofError>(
                RangeProofError::Deserialization,
            ),
            range_proof_reads(proof_bytes@) && commitment_bytes@.len() != 32 ==> r == Err::<bool, RangeProofError>(
                RangeProofError::InvalidCommitmentLength,
            ),
            range_proof_reads(proof_bytes@) && commitment_bytes@.len() == 32 ==> r is Ok,
            r == Ok::<bool, RangeProofError>(true) ==> valid_bit_length(bit_length),
    {
        let proof = match proof_from_bytes(proof_bytes) {
            Ok(p) => p,
            Err(_) => return Err(RangeProofError::Deserialization),
        };
        if commitment_bytes.len() != 32 {
            return Err(RangeProofError::InvalidCommitmentLength);
        }
        let mut commitment = [0u8; 32];
        let mut i: usize = 0;
        while i < 32
            invariant
                0 <= i <= 32,
                commitment_bytes@.len() == 32,
            decreases 32 - i,
        {
            commitment.set(i, commitment_bytes[i]);
            i = i + 1;
        }
        let mut transcript = new_transcript("RangeProof");
        match verify_single(&proof, self.gens_capacity, self.party_capacity, &mut transcript, commitment, bit_length) {
            Ok(()) => Ok(true),
            Err(_) => Ok(false),
        }
    }

    /// Check a batch of range proofs, each under a transcript that also
    /// records its position in the batch: an error where the batch's parts
    /// differ in number or a proof does not read, else whether every proof
    /// verifies (an empty batch does).
    pub fn verify_batch_range_proofs(
        &self,
        proofs: &[Vec<u8>],
        commitments: &[[u8; 32]],
        bit_lengths: &[usize],
    ) -> (r: Result<bool, RangeProofError>)
        requires
            self.wf(),
        ensures
            (proofs@.len() != commitments@.len() || proofs@.len() != bit_lengths@.len()) <==> r == Err::<
                bool,
                RangeProofError,
            >(RangeProofError::MismatchedBatch),
            proofs@.len() == 0 && commitments@.len() == 0 && bit_lengths@.len() == 0 ==> r == Ok::<
                bool,
                RangeProofError,
            >(true),
            r == Ok::<bool, RangeProofError>(true) ==> forall|i: int|
                0 <= i < bit_lengths@.len() ==> valid_bit_length(#[trigger] bit_lengths@[i]),
            proofs@.len() == commitments@.len() && proofs@.len() == bit_lengths@.len() && (forall|i: int|
                0 <= i < proofs@.len() ==> range_proof_reads(#[trigger] proofs@[i]@)) ==> r is Ok,
            r is Err ==> r == Err::<bool, RangeProofError>(RangeProofError::MismatchedBatch) || (r == Err::<
                bool,
                RangeProofError,
            >(RangeProofError::Deserialization) && exists|i: int|
                0 <= i < proofs@.len() && !range_proof_reads(#[trigger] proofs@[i]@)),
    {
        if proofs.len() != commitments.len() || proofs.len() != bit_lengths.len() {
            return Err(RangeProofError::MismatchedBatch);
        }
        let mut i: usize = 0;
        while i < proofs.len()
            invariant
                0 <= i <= proofs@.len(),
                proofs@.len() == commitments@.len(),
                proofs@.len() == bit_lengths@.len(),
                self.wf(),
                forall|j: int| 0 <= j < i ==> valid_bit_length(#[trigger] bit_lengths@[j]),
                forall|j: int| 0 <= j < i ==> range_proof_reads(#[trigger] proofs@[j]@),
            decreases proofs@.len() - i,
        {
            let proof = match proof_from_bytes(proofs[i].as_slice()) {
                Ok(p) => p,
                Err(_) => return Err(RangeProofError::Deserialization),
            };
            let mut transcript = new_transcript("RangeProof");
            let position = crate::encoding::to_le_vec(i as u64);
            append_message(&mut transcript, "index", position.as_slice());
            match verify_single(
                &proof,
                self.gens_capacity,
                self.party_capacity,
                &mut transcript,
                commitments[i],
                bit_lengths[i],
            ) {
                Ok(()) => {},
                Err(_) => return Ok(false),
            }
            i = i + 1;
        }
        Ok(true)
    }

    /// A random scalar for blinding factors, as bytes: a canonical scalar,
    /// whose last byte is at most 0x10.
    pub fn generate_random_scalar(&self) -> (r: [u8; 32])
        ensures
            r@[31] <= 0x10,
    {
        random_scalar()
    }

    /// A fresh blinding factor, the commitment of `value` under it, and a
    /// range proof of the value: the commitment is the Pedersen commitment
    /// of the value under the returned blinding; refused for a bit size
    /// other than 8, 16, 32 or 64.
    pub fn create_commitment_with_proof(&self, value: u64, bit_length: usize) -> (r: Result<
        ([u8; 32], Vec<u8>, [u8; 32]),
        RangeProofError,
    >)
        requires
            self.wf(),
        ensures
            r matches Ok((c, _, b)) ==> c@ == pedersen_commitment(value, b@) && b@[31] <= 0x10,
            !valid_bit_length(bit_length) ==> r == Err::<([u8; 32], Vec<u8>, [u8; 32]), RangeProofError>(
                RangeProofError::Generation,
            ),
    {
        let blinding = self.generate_random_scalar();
        let commitment = match self.commit_amount(value, &blinding) {
            Ok(c) => c,
            Err(e) => return Err(e),
        };
        let proof = match self.generate_range_proof(value, &blinding, bit_length) {
            Ok(p) => p,
            Err(e) => return Err(e),
        };
        Ok((commitment, proof, blinding))
    }
}

} // verus!
