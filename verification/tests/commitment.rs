use curve25519_dalek::constants::RISTRETTO_BASEPOINT_POINT;
use curve25519_dalek::ristretto::RistrettoPoint;
use curve25519_dalek::scalar::Scalar;
use pedersen_vector_proofs::{PedersenError, PedersenVectorCommitment};
use rand::rngs::OsRng;

// The multiple of the basepoint by a small integer.
fn multiple(k: u64) -> RistrettoPoint {
    RISTRETTO_BASEPOINT_POINT * Scalar::from(k)
}

fn scalars(values: &[u64]) -> Vec<Scalar> {
    values.iter().map(|&v| Scalar::from(v)).collect()
}

#[test]
fn new_has_the_requested_dimension() {
    for n in [0usize, 1, 2, 5, 17] {
        let scheme = PedersenVectorCommitment::new(n);
        assert_eq!(scheme.dimension(), n);
        for i in 0..n {
            assert!(scheme.generator(i).is_some());
        }
        assert!(scheme.generator(n).is_none());
        assert!(scheme.generator(usize::MAX).is_none());
    }
}

#[test]
fn new_draws_each_generator_afresh() {
    let scheme = PedersenVectorCommitment::new(3);
    let g0 = *scheme.generator(0).unwrap();
    let g1 = *scheme.generator(1).unwrap();
    let g2 = *scheme.generator(2).unwrap();
    let h = *scheme.blinding_generator();
    assert_ne!(g0, g1);
    assert_ne!(g0, g2);
    assert_ne!(g1, g2);
    assert_ne!(g0, h);
    assert_ne!(g0, RistrettoPoint::default());
    let other = PedersenVectorCommitment::new(3);
    assert_ne!(*other.generator(0).unwrap(), g0);
    assert_ne!(*other.blinding_generator(), h);
}

#[test]
fn from_generators_keeps_the_generators_in_order() {
    let scheme = PedersenVectorCommitment::from_generators(vec![multiple(2), multiple(3)], multiple(5));
    assert_eq!(scheme.dimension(), 2);
    assert_eq!(*scheme.generator(0).unwrap(), multiple(2));
    assert_eq!(*scheme.generator(1).unwrap(), multiple(3));
    assert!(scheme.generator(2).is_none());
    assert_eq!(*scheme.blinding_generator(), multiple(5));
}

#[test]
fn commit_on_known_generators_gives_the_expected_multiple() {
    // 7 * 5 + 4 * 2 + 6 * 3 = 61
    let scheme = PedersenVectorCommitment::from_generators(vec![multiple(2), multiple(3)], multiple(5));
    let commitment = scheme.commit(&scalars(&[4, 6]), Scalar::from(7u64)).unwrap();
    assert_eq!(commitment, multiple(61));
    assert_ne!(commitment, multiple(60));
}

#[test]
fn commit_reduces_modulo_the_group_order() {
    // (l - 1) * 1 + 1 * 1 = l, which is the identity.
    let scheme = PedersenVectorCommitment::from_generators(vec![multiple(1)], multiple(1));
    let commitment = scheme.commit(&[Scalar::ONE], -Scalar::ONE).unwrap();
    assert_eq!(commitment, RistrettoPoint::default());
}

#[test]
fn commit_matches_the_formula_on_random_generators() {
    let n = 4;
    let scheme = PedersenVectorCommitment::new(n);
    let mut rng = OsRng;
    let values: Vec<Scalar> = (0..n).map(|_| Scalar::random(&mut rng)).collect();
    let r = Scalar::random(&mut rng);
    let mut expected = r * *scheme.blinding_generator();
    for i in 0..n {
        expected = expected + values[i] * *scheme.generator(i).unwrap();
    }
    assert_eq!(scheme.commit(&values, r).unwrap(), expected);
}

#[test]
fn commit_to_the_empty_vector_is_the_blinding_term() {
    let scheme = PedersenVectorCommitment::new(0);
    let r = Scalar::from(9u64);
    let commitment = scheme.commit(&[], r).unwrap();
    assert_eq!(commitment, r * *scheme.blinding_generator());
}

#[test]
fn commit_with_zero_blinding_is_the_sum_of_the_terms() {
    let scheme = PedersenVectorCommitment::from_generators(vec![multiple(2), multiple(3)], multiple(5));
    let commitment = scheme.commit(&scalars(&[1, 1]), Scalar::ZERO).unwrap();
    assert_eq!(commitment, multiple(5));
}

#[test]
fn commit_is_deterministic() {
    let scheme = PedersenVectorCommitment::new(3);
    let values = scalars(&[10, 20, 30]);
    let r = Scalar::from(77u64);
    assert_eq!(scheme.commit(&values, r).unwrap(), scheme.commit(&values, r).unwrap());
}

#[test]
fn commit_depends_on_every_value_and_on_the_blinding() {
    let scheme = PedersenVectorCommitment::new(2);
    let r = Scalar::from(3u64);
    let base = scheme.commit(&scalars(&[1, 2]), r).unwrap();
    assert_ne!(scheme.commit(&scalars(&[2, 2]), r).unwrap(), base);
    assert_ne!(scheme.commit(&scalars(&[1, 3]), r).unwrap(), base);
    assert_ne!(scheme.commit(&scalars(&[2, 1]), r).unwrap(), base);
    assert_ne!(scheme.commit(&scalars(&[1, 2]), Scalar::from(4u64)).unwrap(), base);
}

#[test]
fn commit_refuses_a_vector_that_is_too_short() {
    let scheme = PedersenVectorCommitment::new(3);
    let result = scheme.commit(&scalars(&[1, 2]), Scalar::ONE);
    assert_eq!(result.unwrap_err(), PedersenError::LengthMismatch);
}

#[test]
fn commit_refuses_a_vector_that_is_too_long() {
    let scheme = PedersenVectorCommitment::new(1);
    let result = scheme.commit(&scalars(&[1, 2]), Scalar::ONE);
    assert_eq!(result.unwrap_err(), PedersenError::LengthMismatch);
    let empty = PedersenVectorCommitment::new(0);
    assert_eq!(
        empty.commit(&scalars(&[1]), Scalar::ONE).unwrap_err(),
        PedersenError::LengthMismatch
    );
    assert_eq!(scheme.commit(&[], Scalar::ONE).unwrap_err(), PedersenError::LengthMismatch);
}

#[test]
fn error_messages_name_the_refusal() {
    assert_eq!(PedersenError::LengthMismatch.message(), "Vector Length Mismatch");
    assert_eq!(PedersenError::IndexOutOfBounds.message(), "Index out of bounds!");
    assert_ne!(PedersenError::LengthMismatch, PedersenError::IndexOutOfBounds);
}
