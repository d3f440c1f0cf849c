use curve25519_dalek::scalar::Scalar;
use pedersen_vector_proofs::{BatchProof, PedersenVectorCommitment, Proof};
use rand::rngs::OsRng;

// A commitment and a single proof for a 1-element vector verify.
#[test]
fn test_single_proof_valid() {
    let n = 1;
    let pvp = PedersenVectorCommitment::new(n);
    let values: Vec<Scalar> = vec![Scalar::from(1u64)];
    let mut rng = OsRng;
    let r = Scalar::random(&mut rng);
    let commitment = pvp.commit(&values, r).unwrap();

    let proof = Proof::generate(&pvp, &values, r, 0).unwrap();
    assert!(proof.verify(commitment, &pvp), "Proof failed for index 0");
}

// A batch proof for a full opening (all indices) verifies.
#[test]
fn test_batch_proof_valid() {
    let n = 5;
    let pvp = PedersenVectorCommitment::new(n);
    let values: Vec<Scalar> = vec![
        Scalar::from(1u64),
        Scalar::from(2u64),
        Scalar::from(3u64),
        Scalar::from(4u64),
        Scalar::from(5u64),
    ];
    let mut rng = OsRng;
    let r = Scalar::random(&mut rng);
    let commitment = pvp.commit(&values, r).unwrap();

    // Open the entire vector.
    let indices: Vec<usize> = (0..n).collect();
    let batch_proof = BatchProof::generate(&pvp, &values, r, &indices).unwrap();
    assert!(
        batch_proof.verify(commitment, &pvp),
        "Batch proof failed verification"
    );
}

// A single proof with a tampered value fails verification.
#[test]
fn test_single_proof_invalid() {
    let n = 1;
    let pvp = PedersenVectorCommitment::new(n);
    let values: Vec<Scalar> = vec![Scalar::from(1u64)];
    let mut rng = OsRng;
    let r = Scalar::random(&mut rng);
    let commitment = pvp.commit(&values, r).unwrap();

    let mut proof = Proof::generate(&pvp, &values, r, 0).unwrap();
    proof.value = proof.value + Scalar::from(1u64); // Alter the value.
    assert!(
        !proof.verify(commitment, &pvp),
        "Invalid single proof passed verification"
    );
}

// A batch proof with one tampered value fails verification.
#[test]
fn test_batch_proof_invalid() {
    let n = 5;
    let pvp = PedersenVectorCommitment::new(n);
    let values: Vec<Scalar> = vec![
        Scalar::from(1u64),
        Scalar::from(2u64),
        Scalar::from(3u64),
        Scalar::from(4u64),
        Scalar::from(5u64),
    ];
    let mut rng = OsRng;
    let r = Scalar::random(&mut rng);
    let commitment = pvp.commit(&values, r).unwrap();

    let indices: Vec<usize> = (0..n).collect();
    let mut batch_proof = BatchProof::generate(&pvp, &values, r, &indices).unwrap();
    // Tamper with one of the proof values.
    if let Some(first_value) = batch_proof.values.first_mut() {
        *first_value = *first_value + Scalar::from(1u64);
    }
    assert!(
        !batch_proof.verify(commitment, &pvp),
        "Invalid batch proof passed verification"
    );
}
