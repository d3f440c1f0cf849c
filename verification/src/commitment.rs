//! The commitment scheme: its generators, and the commitment to a value vector.

use crate::error::PedersenError;
use crate::group::{
    group_order, group_order_bounds, point_add, point_log, point_logs, point_mul_scalar,
    random_point, scalar_mul_point, scalar_value, scalar_values,
};
use crate::model::{commitment_of, partial_sum, SchemeView};
use curve25519_dalek::ristretto::RistrettoPoint;
use curve25519_dalek::scalar::Scalar;
use vstd::arithmetic::div_mod::lemma_add_mod_noop;
use vstd::prelude::*;

verus! {

/// A Pedersen commitment scheme for vectors of a fixed dimension: one generator
/// for each coordinate and one for the blinding scalar, all fixed when the
/// scheme is made.
#[derive(Debug)]
pub struct PedersenVectorCommitment {
    generators: Vec<RistrettoPoint>,
    blinding_generator: RistrettoPoint,
}

impl View for PedersenVectorCommitment {
    type V = SchemeView;

    closed spec fn view(&self) -> SchemeView {
        SchemeView {
            generators: point_logs(self.generators@),
            blinding_generator: point_log(self.blinding_generator),
        }
    }
}

impl PedersenVectorCommitment {
    /// A scheme for vectors of dimension `n`, with `n + 1` generators drawn
    /// independently and uniformly from the group by the operating system's
    /// random number generator. Which generators come back is not determined;
    /// there are `n` of them, and the blinding generator. Without a source of
    /// random bytes no scheme can be made, and the call panics.
    pub fn new(n: usize) -> (scheme: Self)
        ensures
            scheme@.generators.len() == n,
    {
        let mut generators: Vec<RistrettoPoint> = Vec::new();
        let mut i: usize = 0;
        while i < n
            invariant
                i <= n,
                generators@.len() == i,
            decreases n - i,
        {
            generators.push(random_point());
            i += 1;
        }
        let blinding_generator = random_point();
        PedersenVectorCommitment { generators, blinding_generator }
    }

    /// A scheme with the generators given, one for each coordinate in their
    /// order. Binding rests on nobody knowing a relation among them: the caller
    /// answers for how they were chosen.
    pub fn from_generators(
        generators: Vec<RistrettoPoint>,
        blinding_generator: RistrettoPoint,
    ) -> (scheme: Self)
        ensures
            scheme@.generators == point_logs(generators@),
            scheme@.blinding_generator == point_log(blinding_generator),
    {
        PedersenVectorCommitment { generators, blinding_generator }
    }

    /// The dimension of the vectors that the scheme commits to.
    pub fn dimension(&self) -> (n: usize)
        ensures
            n == self@.generators.len(),
    {
        self.generators.len()
    }

    /// The generator of coordinate `index`, where the scheme has such a
    /// coordinate.
    pub fn generator(&self, index: usize) -> (found: Option<&RistrettoPoint>)
        ensures
            found is Some <==> index < self@.generators.len(),
            found matches Some(g) ==> point_log(*g) == self@.generators[index as int],
    {
        if index < self.generators.len() {
            Some(&self.generators[index])
        } else {
            None
        }
    }

    /// The generator that carries the blinding scalar.
    pub fn blinding_generator(&self) -> (h: &RistrettoPoint)
        ensures
            point_log(*h) == self@.blinding_generator,
    {
        &self.blinding_generator
    }

    /// The commitment `r * H + values[0] * G_0 + .. + values[n - 1] * G_(n - 1)`,
    /// or `LengthMismatch` where `values` has not one value for each generator.
    pub fn commit(&self, values: &[Scalar], r: Scalar) -> (result: Result<
        RistrettoPoint,
        PedersenError,
    >)
        ensures
            result is Ok <==> values@.len() == self@.generators.len(),
            result matches Ok(commitment) ==> point_log(commitment) == commitment_of(
                self@,
                scalar_values(values@),
                scalar_value(r),
            ),
            result matches Err(e) ==> e == PedersenError::LengthMismatch,
    {
        let n = self.generators.len();
        if values.len() != n {
            return Err(PedersenError::LengthMismatch);
        }
        let ghost gens = self@.generators;
        let ghost vals = scalar_values(values@);
        let ghost blinded = self@.blinding_generator * scalar_value(r);
        let mut commitment = scalar_mul_point(&r, &self.blinding_generator);
        proof {
            group_order_bounds();
        }
        let mut i: usize = 0;
        while i < n
            invariant
                i <= n,
                n == self.generators@.len(),
                n == values@.len(),
                gens == self@.generators,
                vals == scalar_values(values@),
                blinded == self@.blinding_generator * scalar_value(r),
                group_order() > 1,
                point_log(commitment) == (blinded + partial_sum(gens, vals, i as nat))
                    % group_order(),
            decreases n - i,
        {
            let term = point_mul_scalar(&self.generators[i], &values[i]);
            proof {
                let before = blinded + partial_sum(gens, vals, i as nat);
                let added = gens[i as int] * vals[i as int];
                assert(partial_sum(gens, vals, (i + 1) as nat) == partial_sum(gens, vals, i as nat)
                    + added);
                lemma_add_mod_noop(before as int, added as int, group_order() as int);
            }
            commitment = point_add(&commitment, &term);
            i += 1;
        }
        Ok(commitment)
    }
}

} // verus!
