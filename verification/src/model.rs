//! What a scheme, a commitment and the two kinds of opening are, mathematically.
//!
//! Every group element is taken by its discrete logarithm and every scalar by
//! its value (see the `group` module), so a commitment is a number: the
//! blinding term plus the sum of the coordinates' terms, modulo the group
//! order.

use crate::group::{group_mul, group_order, group_sub};
use vstd::prelude::*;

verus! {

/// A commitment scheme: the generators, one for each coordinate, and the
/// blinding generator.
pub ghost struct SchemeView {
    pub generators: Seq<nat>,
    pub blinding_generator: nat,
}

/// An opening of one coordinate.
pub ghost struct OpeningView {
    pub index: nat,
    pub value: nat,
    pub blinding: nat,
}

/// An opening of several coordinates: `values[j]` is claimed for coordinate
/// `indices[j]`.
pub ghost struct BatchView {
    pub indices: Seq<nat>,
    pub values: Seq<nat>,
    pub blinding: nat,
}

/// A sequence of indices as numbers.
pub open spec fn index_values(indices: Seq<usize>) -> Seq<nat> {
    Seq::new(indices.len(), |j: int| indices[j] as nat)
}

/// `generators[0] * values[0] + .. + generators[count - 1] * values[count - 1]`,
/// over the integers.
pub open spec fn partial_sum(generators: Seq<nat>, values: Seq<nat>, count: nat) -> nat
    decreases count,
{
    if count == 0 {
        0
    } else {
        partial_sum(generators, values, (count - 1) as nat) + generators[count - 1]
            * values[count - 1]
    }
}

/// The sum of all coordinates' terms of a value vector, over the integers.
pub open spec fn weighted_sum(generators: Seq<nat>, values: Seq<nat>) -> nat {
    partial_sum(generators, values, generators.len())
}

/// The commitment to `values` under `blinding`:
/// `blinding * H + values[0] * G_0 + .. + values[n - 1] * G_(n - 1)`.
pub open spec fn commitment_of(scheme: SchemeView, values: Seq<nat>, blinding: nat) -> nat {
    (scheme.blinding_generator * blinding + weighted_sum(scheme.generators, values))
        % group_order()
}

/// The opening of coordinate `index` that discloses the committed value and
/// the blinding scalar.
pub open spec fn genuine_opening(values: Seq<nat>, blinding: nat, index: nat) -> OpeningView {
    OpeningView { index, value: values[index as int], blinding }
}

/// The batch opening of the coordinates `indices`, in that order, that
/// discloses the committed values and the blinding scalar.
pub open spec fn genuine_batch(values: Seq<nat>, blinding: nat, indices: Seq<nat>) -> BatchView {
    BatchView {
        indices,
        values: Seq::new(indices.len(), |j: int| values[indices[j] as int]),
        blinding,
    }
}

/// Whether a single opening is accepted for a commitment: its index names a
/// coordinate of the scheme, and the commitment less the disclosed term is the
/// blinding term.
pub open spec fn opening_holds(proof: OpeningView, commitment: nat, scheme: SchemeView) -> bool {
    &&& proof.index < scheme.generators.len()
    &&& group_sub(commitment, group_mul(scheme.generators[proof.index as int], proof.value))
        == group_mul(scheme.blinding_generator, proof.blinding)
}

/// How many pairs of an index and a value a batch opening holds. Entries of the
/// longer of the two sequences that have no partner are not looked at.
pub open spec fn pair_count(proof: BatchView) -> nat {
    if proof.indices.len() <= proof.values.len() {
        proof.indices.len()
    } else {
        proof.values.len()
    }
}

/// The generators that a sequence of indices names, in that order and as often
/// as each index occurs.
pub open spec fn opened_generators(generators: Seq<nat>, indices: Seq<nat>) -> Seq<nat> {
    Seq::new(indices.len(), |j: int| generators[indices[j] as int])
}

/// The sum of the terms that a batch opening discloses, each with weight one,
/// over the integers.
pub open spec fn aggregate(generators: Seq<nat>, proof: BatchView) -> nat {
    partial_sum(opened_generators(generators, proof.indices), proof.values, pair_count(proof))
}

/// Whether every index that has a value names a coordinate of the scheme.
pub open spec fn indices_in_range(proof: BatchView, scheme: SchemeView) -> bool {
    forall|j: int|
        0 <= j < pair_count(proof) ==> #[trigger] proof.indices[j] < scheme.generators.len()
}

/// Whether a batch opening is accepted for a commitment: its indices name
/// coordinates of the scheme, and the commitment less the disclosed terms is
/// the blinding term.
pub open spec fn batch_holds(proof: BatchView, commitment: nat, scheme: SchemeView) -> bool {
    &&& indices_in_range(proof, scheme)
    &&& group_sub(commitment, aggregate(scheme.generators, proof) % group_order())
        == group_mul(scheme.blinding_generator, proof.blinding)
}

} // verus!
