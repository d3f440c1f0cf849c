//! Opening one coordinate of a commitment.

use crate::commitment::PedersenVectorCommitment;
use crate::error::PedersenError;
use crate::group::{
    point_log, point_mul_scalar, point_sub, points_equal, scalar_value, scalar_values,
};
use crate::model::{genuine_opening, opening_holds, OpeningView};
use curve25519_dalek::ristretto::RistrettoPoint;
use curve25519_dalek::scalar::Scalar;
use vstd::prelude::*;

verus! {

/// An opening of one coordinate: `value` is the value claimed for coordinate
/// `index`, and `blinding` is the blinding scalar of the commitment, disclosed
/// in full.
#[derive(Debug)]
pub struct Proof {
    pub index: usize,
    pub value: Scalar,
    pub blinding: Scalar,
}

impl View for Proof {
    type V = OpeningView;

    open spec fn view(&self) -> OpeningView {
        OpeningView {
            index: self.index as nat,
            value: scalar_value(self.value),
            blinding: scalar_value(self.blinding),
        }
    }
}

impl Proof {
    /// Whether the index names a coordinate of a vector of dimension
    /// `dimension`.
    pub open spec fn well_formed(&self, dimension: nat) -> bool {
        self.index < dimension
    }

    /// The opening of coordinate `index` of `values`, or `IndexOutOfBounds`
    /// where `values` has no such entry. Nothing is checked against the scheme.
    #[allow(unused_variables)]
    pub fn generate(
        commitment_scheme: &PedersenVectorCommitment,
        values: &[Scalar],
        blinding: Scalar,
        index: usize,
    ) -> (result: Result<Proof, PedersenError>)
        ensures
            result is Ok <==> index < values@.len(),
            result matches Ok(proof) ==> {
                &&& proof.index == index
                &&& proof.value == values@[index as int]
                &&& proof.blinding == blinding
                &&& proof.well_formed(values@.len())
                &&& proof@ == genuine_opening(
                    scalar_values(values@),
                    scalar_value(blinding),
                    index as nat,
                )
            },
            result matches Err(e) ==> e == PedersenError::IndexOutOfBounds,
    {
        if index >= values.len() {
            return Err(PedersenError::IndexOutOfBounds);
        }
        Ok(Proof { index, value: values[index], blinding })
    }

    /// Whether the opening is accepted for `commitment`: the commitment less
    /// the disclosed term must be the blinding term. An index that names no
    /// coordinate of the scheme is not accepted.
    pub fn verify(
        &self,
        commitment: RistrettoPoint,
        commitment_scheme: &PedersenVectorCommitment,
    ) -> (accepted: bool)
        ensures
            accepted == opening_holds(self@, point_log(commitment), commitment_scheme@),
    {
        match commitment_scheme.generator(self.index) {
            None => false,
            Some(generator) => {
                let disclosed = point_mul_scalar(generator, &self.value);
                let expected_commitment = point_sub(&commitment, &disclosed);
                let blinded = point_mul_scalar(
                    commitment_scheme.blinding_generator(),
                    &self.blinding,
                );
                points_equal(&expected_commitment, &blinded)
            },
        }
    }
}

} // verus!
