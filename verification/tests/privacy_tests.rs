use erbium_blockchain::privacy::range_proofs::{RangeProofError, RangeProofSystem};
use erbium_blockchain::privacy::stealth_addresses::{StealthAddressSystem, StealthError, StealthMetadata};

#[test]
fn test_commitment_is_deterministic() {
    let system = RangeProofSystem::new();
    let blinding = system.generate_random_scalar();
    let c1 = system.commit_amount(5, &blinding).unwrap();
    let c2 = system.commit_amount(5, &blinding).unwrap();
    let c3 = system.commit_amount(6, &blinding).unwrap();
    assert_eq!(c1, c2);
    assert_ne!(c1, c3);
    assert_ne!(c1, blinding);
}

#[test]
fn test_range_proof_round_trip() {
    let system = RangeProofSystem::new();
    let blinding = system.generate_random_scalar();
    let commitment = system.commit_amount(1_000, &blinding).unwrap();
    let proof = system.generate_range_proof(1_000, &blinding, 32).unwrap();
    assert_eq!(proof.len() % 32, 0);
    assert_eq!(system.verify_range_proof(&proof, &commitment, 32), Ok(true));
    let other = system.commit_amount(1_001, &blinding).unwrap();
    assert_eq!(system.verify_range_proof(&proof, &other, 32), Ok(false));
    assert_eq!(system.verify_range_proof(&proof, &commitment, 12), Ok(false));
    assert_eq!(
        system.verify_range_proof(&proof, &commitment[..31], 32),
        Err(RangeProofError::InvalidCommitmentLength)
    );
    assert_eq!(system.verify_range_proof(&proof[..5], &commitment, 32), Err(RangeProofError::Deserialization));
}

#[test]
fn test_range_proof_refused_bit_size() {
    let system = RangeProofSystem::new();
    let blinding = system.generate_random_scalar();
    assert_eq!(system.generate_range_proof(3, &blinding, 10), Err(RangeProofError::Generation));
    assert!(system.create_commitment_with_proof(3, 7).is_err());
}

#[test]
fn test_commitment_with_proof() {
    let system = RangeProofSystem::new();
    let (commitment, proof, blinding) = system.create_commitment_with_proof(42, 64).unwrap();
    assert_eq!(system.commit_amount(42, &blinding).unwrap(), commitment);
    assert_eq!(system.verify_range_proof(&proof, &commitment, 64), Ok(true));
}

#[test]
fn test_batch_range_proofs() {
    let system = RangeProofSystem::new();
    assert_eq!(system.verify_batch_range_proofs(&[], &[], &[]), Ok(true));
    let (commitment, proof, _) = system.create_commitment_with_proof(9, 32).unwrap();
    assert_eq!(
        system.verify_batch_range_proofs(&[proof.clone()], &[commitment], &[]),
        Err(RangeProofError::MismatchedBatch)
    );
    assert_eq!(
        system.verify_batch_range_proofs(&[vec![1, 2, 3]], &[commitment], &[32]),
        Err(RangeProofError::Deserialization)
    );
    // Each batch transcript also records the proof's position, which the
    // single prover did not: the batch check refuses such a proof.
    assert_eq!(system.verify_batch_range_proofs(&[proof], &[commitment], &[32]), Ok(false));
}

#[test]
fn test_stealth_address_found_by_recipient() {
    let system = StealthAddressSystem::new();
    let recipient = system.generate_stealth_key_pair().unwrap();
    let (address, ephemeral) = system
        .generate_stealth_address(&recipient.view_key.public_key, &recipient.spend_key.public_key)
        .unwrap();
    assert!(address.address.starts_with("0x"));
    assert_eq!(address.address.len(), 42);
    assert_ne!(ephemeral, address.ephemeral_public_key);
    let metadata = StealthMetadata {
        ephemeral_public_key: address.ephemeral_public_key.to_vec(),
        view_tag: address.view_tag,
        encrypted_memo: None,
    };
    assert_eq!(system.is_stealth_address_mine(&metadata, &recipient), Ok(Some(address.address.clone())));
    let stranger = system.generate_stealth_key_pair().unwrap();
    assert_ne!(system.is_stealth_address_mine(&metadata, &stranger), Ok(Some(address.address.clone())));
}

#[test]
fn test_stealth_address_errors() {
    let system = StealthAddressSystem::new();
    let keys = system.generate_stealth_key_pair().unwrap();
    let not_a_point = [0xffu8; 32];
    assert_eq!(
        system.generate_stealth_address(&not_a_point, &keys.spend_key.public_key).map(|_| ()),
        Err(StealthError::InvalidViewKey)
    );
    assert_eq!(
        system.generate_stealth_address(&keys.view_key.public_key, &not_a_point).map(|_| ()),
        Err(StealthError::InvalidSpendKey)
    );
    let short = StealthMetadata { ephemeral_public_key: vec![1; 31], view_tag: 0, encrypted_memo: None };
    assert_eq!(system.is_stealth_address_mine(&short, &keys), Err(StealthError::InvalidEphemeralKeyLength));
    let bad = StealthMetadata { ephemeral_public_key: not_a_point.to_vec(), view_tag: 0, encrypted_memo: None };
    assert_eq!(system.is_stealth_address_mine(&bad, &keys), Err(StealthError::InvalidEphemeralKey));
}

#[test]
fn proof_bytes_that_read_are_checked() {
    let system = RangeProofSystem::new();
    // Seven zero 32-byte fields and an inner-product proof of two zero
    // scalars read as a proof, which then does not verify.
    let zeros = vec![0u8; 288];
    assert_eq!(system.verify_range_proof(&zeros, &[0u8; 32], 64), Ok(false));
    assert_eq!(system.verify_range_proof(&zeros, &[0u8; 31], 64), Err(RangeProofError::InvalidCommitmentLength));
    // A scalar field that is not canonical does not read.
    let mut bad = zeros.clone();
    for b in bad[4 * 32..5 * 32].iter_mut() {
        *b = 0xff;
    }
    assert_eq!(system.verify_range_proof(&bad, &[0u8; 32], 64), Err(RangeProofError::Deserialization));
    assert_eq!(
        system.verify_batch_range_proofs(&[zeros.clone(), bad], &[[0u8; 32], [0u8; 32]], &[64, 64]),
        Ok(false)
    );
    assert_eq!(
        system.verify_batch_range_proofs(&[zeros], &[[0u8; 32]], &[64]),
        Ok(false)
    );
}

#[test]
fn random_scalars_are_canonical() {
    let system = RangeProofSystem::new();
    for _ in 0..16 {
        assert!(system.generate_random_scalar()[31] <= 0x10);
    }
}
