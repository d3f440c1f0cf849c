//! Opening several coordinates of a commitment at once.
//!
//! The disclosed terms are added up with the fixed weight one. A verifier's
//! random weights would bind each term on its own; with weight one only the
//! sum of the disclosed terms is bound.

use crate::commitment::PedersenVectorCommitment;
use crate::error::PedersenError;
use crate::group::{
    group_order, group_order_bounds, identity_point, point_add, point_log, point_mul_scalar,
    point_sub, points_equal, scalar_from_u64, scalar_mul, scalar_value, scalar_values,
};
use crate::model::{
    batch_holds, genuine_batch, index_values, opened_generators, pair_count, partial_sum,
    BatchView,
};
use curve25519_dalek::ristretto::RistrettoPoint;
use curve25519_dalek::scalar::Scalar;
use vstd::arithmetic::div_mod::{lemma_add_mod_noop, lemma_mul_mod_noop_right, lemma_small_mod};
use vstd::prelude::*;

verus! {

/// An opening of several coordinates: `values[j]` is the value claimed for
/// coordinate `indices[j]`, and `blinding` is the blinding scalar of the
/// commitment, disclosed in full.
#[derive(Debug)]
pub struct BatchProof {
    pub indices: Vec<usize>,
    pub values: Vec<Scalar>,
    pub blinding: Scalar,
}

impl View for BatchProof {
    type V = BatchView;

    open spec fn view(&self) -> BatchView {
        BatchView {
            indices: index_values(self.indices@),
            values: scalar_values(self.values@),
            blinding: scalar_value(self.blinding),
        }
    }
}

/// The entries of `values` that `indices` names, in the order of `indices`.
pub open spec fn selected(values: Seq<Scalar>, indices: Seq<usize>) -> Seq<Scalar> {
    Seq::new(indices.len(), |j: int| values[indices[j] as int])
}

/// Whether every index names an entry of a vector of `len` values.
pub open spec fn all_below(indices: Seq<usize>, len: nat) -> bool {
    forall|j: int| 0 <= j < indices.len() ==> #[trigger] indices[j] < len
}

/// As many scalars of value one as a batch opening has pairs: the weight with
/// which each disclosed term enters the aggregate.
fn unit_weights(count: usize) -> (weights: Vec<Scalar>)
    ensures
        weights@.len() == count,
        forall|j: int| 0 <= j < count ==> scalar_value(#[trigger] weights@[j]) == 1,
{
    let mut weights: Vec<Scalar> = Vec::new();
    let mut j: usize = 0;
    while j < count
        invariant
            j <= count,
            weights@.len() == j,
            forall|k: int| 0 <= k < j ==> scalar_value(#[trigger] weights@[k]) == 1,
        decreases count - j,
    {
        weights.push(scalar_from_u64(1u64));
        j += 1;
    }
    weights
}

impl BatchProof {
    /// Whether the opening has one value for each index, and every index names
    /// a coordinate of a vector of dimension `dimension`.
    pub open spec fn well_formed(&self, dimension: nat) -> bool {
        &&& self.indices@.len() == self.values@.len()
        &&& all_below(self.indices@, dimension)
    }

    /// The opening of the coordinates `indices` of `values`, in the order given
    /// and with repetitions kept, or `IndexOutOfBounds` where an index names no
    /// entry of `values`. Nothing is checked against the scheme.
    #[allow(unused_variables)]
    pub fn generate(
        commitment_scheme: &PedersenVectorCommitment,
        values: &[Scalar],
        blinding: Scalar,
        indices: &[usize],
    ) -> (result: Result<BatchProof, PedersenError>)
        ensures
            result is Ok <==> all_below(indices@, values@.len()),
            result matches Ok(proof) ==> {
                &&& proof.indices@ == indices@
                &&& proof.values@ == selected(values@, indices@)
                &&& proof.blinding == blinding
                &&& proof.well_formed(values@.len())
                &&& proof@ == genuine_batch(
                    scalar_values(values@),
                    scalar_value(blinding),
                    index_values(indices@),
                )
            },
            result matches Err(e) ==> e == PedersenError::IndexOutOfBounds,
    {
        let count = indices.len();
        let mut kept: Vec<usize> = Vec::new();
        let mut opened: Vec<Scalar> = Vec::new();
        let mut j: usize = 0;
        while j < count
            invariant
                j <= count,
                count == indices@.len(),
                kept@.len() == j,
                opened@.len() == j,
                forall|k: int| 0 <= k < j ==> #[trigger] indices@[k] < values@.len(),
                forall|k: int| 0 <= k < j ==> kept@[k] == indices@[k],
                forall|k: int| 0 <= k < j ==> opened@[k] == values@[indices@[k] as int],
            decreases count - j,
        {
            let index = indices[j];
            if index >= values.len() {
                return Err(PedersenError::IndexOutOfBounds);
            }
            kept.push(index);
            opened.push(values[index]);
            j += 1;
        }
        assert(kept@ =~= indices@);
        assert(opened@ =~= selected(values@, indices@));
        let proof = BatchProof { indices: kept, values: opened, blinding };
        assert(proof@.values =~= genuine_batch(
            scalar_values(values@),
            scalar_value(blinding),
            index_values(indices@),
        ).values);
        Ok(proof)
    }

    /// Whether the opening is accepted for `commitment`: every disclosed term
    /// enters an aggregate with weight one, and the commitment less the
    /// aggregate must be the blinding term.
    pub fn verify(
        &self,
        commitment: RistrettoPoint,
        commitment_scheme: &PedersenVectorCommitment,
    ) -> (accepted: bool)
        ensures
            accepted == batch_holds(self@, point_log(commitment), commitment_scheme@),
    {
        let count = if self.indices.len() <= self.values.len() {
            self.indices.len()
        } else {
            self.values.len()
        };
        let betas = unit_weights(count);
        let ghost gens = opened_generators(commitment_scheme@.generators, self@.indices);
        let mut aggregated = identity_point();
        proof {
            group_order_bounds();
            lemma_small_mod(0, group_order());
        }
        let mut j: usize = 0;
        while j < count
            invariant
                j <= count,
                count == pair_count(self@),
                betas@.len() == count,
                forall|k: int| 0 <= k < count ==> scalar_value(#[trigger] betas@[k]) == 1,
                gens == opened_generators(commitment_scheme@.generators, self@.indices),
                forall|k: int|
                    0 <= k < j ==> #[trigger] self@.indices[k]
                        < commitment_scheme@.generators.len(),
                group_order() > 1,
                point_log(aggregated) == partial_sum(gens, self@.values, j as nat) % group_order(),
            decreases count - j,
        {
            match commitment_scheme.generator(self.indices[j]) {
                None => {
                    assert(!(self@.indices[j as int] < commitment_scheme@.generators.len()));
                    return false;
                },
                Some(generator) => {
                    let weighted = scalar_mul(&betas[j], &self.values[j]);
                    let term = point_mul_scalar(generator, &weighted);
                    proof {
                        let before = partial_sum(gens, self@.values, j as nat);
                        let g = gens[j as int];
                        let v = self@.values[j as int];
                        assert(g == point_log(*generator));
                        assert(scalar_value(weighted) == v % group_order()) by {
                            assert(1 * v == v);
                        }
                        lemma_mul_mod_noop_right(g as int, v as int, group_order() as int);
                        assert(point_log(term) == (g * v) % group_order());
                        assert(partial_sum(gens, self@.values, (j + 1) as nat) == before + g * v);
                        lemma_add_mod_noop(before as int, (g * v) as int, group_order() as int);
                    }
                    aggregated = point_add(&aggregated, &term);
                },
            }
            j += 1;
        }
        let expected = point_sub(&commitment, &aggregated);
        let blinded = point_mul_scalar(commitment_scheme.blinding_generator(), &self.blinding);
        points_equal(&expected, &blinded)
    }
}

} // verus!
