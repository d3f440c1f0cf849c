//! What holds of commitments and openings, whatever the generators, the values
//! and the blinding scalar are.
//!
//! Each law is stated over the mathematical model of the `model` module, in
//! which the contracts of `commit`, `generate` and `verify` are written.

use crate::group::{group_mul, group_order, group_order_bounds, scalar_sum};
use crate::model::{
    aggregate, batch_holds, commitment_of, genuine_batch, genuine_opening, indices_in_range,
    opened_generators, opening_holds, pair_count, partial_sum, weighted_sum, BatchView,
    OpeningView, SchemeView,
};
use crate::modular::{
    lemma_negation_vanishes, lemma_partial_sum_agrees, lemma_partial_sum_update, lemma_same_shift,
};
use vstd::arithmetic::div_mod::{
    lemma_mod_equivalence, lemma_mod_twice, lemma_mul_mod_noop_right, lemma_small_mod,
    lemma_sub_mod_noop, lemma_sub_mod_noop_right,
};
use vstd::arithmetic::mul::lemma_mul_is_distributive_add;
use vstd::prelude::*;

verus! {

/// The indices `0, 1, .., n - 1`.
pub open spec fn all_indices(n: nat) -> Seq<nat> {
    Seq::new(n, |j: int| j as nat)
}

/// Whether the coordinates other than `index` add up to the identity of the
/// group.
pub open spec fn rest_vanishes(scheme: SchemeView, values: Seq<nat>, index: nat) -> bool {
    (weighted_sum(scheme.generators, values) - scheme.generators[index as int]
        * values[index as int]) % (group_order() as int) == 0
}

/// A genuine opening of one coordinate is accepted exactly when the other
/// coordinates add up to the identity of the group: the check compares the
/// commitment less one term with the blinding term alone.
pub proof fn single_opening_accepted_iff_rest_vanishes(
    scheme: SchemeView,
    values: Seq<nat>,
    blinding: nat,
    index: nat,
)
    requires
        values.len() == scheme.generators.len(),
        index < values.len(),
    ensures
        opening_holds(
            genuine_opening(values, blinding, index),
            commitment_of(scheme, values, blinding),
            scheme,
        ) <==> rest_vanishes(scheme, values, index),
{
    let m = group_order() as int;
    group_order_bounds();
    let blinded = (scheme.blinding_generator * blinding) as int;
    let sum = weighted_sum(scheme.generators, values) as int;
    let term = (scheme.generators[index as int] * values[index as int]) as int;
    lemma_sub_mod_noop(blinded + sum, term, m);
    lemma_same_shift(blinded, sum - term, 0, m);
    lemma_small_mod(0, m as nat);
    assert(blinded + sum - term == blinded + (sum - term));
}

/// Completeness of the single opening: the genuine opening of a coordinate is
/// accepted for the commitment, provided the other coordinates add up to the
/// identity of the group.
pub proof fn single_opening_complete(
    scheme: SchemeView,
    values: Seq<nat>,
    blinding: nat,
    index: nat,
)
    requires
        values.len() == scheme.generators.len(),
        index < values.len(),
        rest_vanishes(scheme, values, index),
    ensures
        opening_holds(
            genuine_opening(values, blinding, index),
            commitment_of(scheme, values, blinding),
            scheme,
        ),
{
    single_opening_accepted_iff_rest_vanishes(scheme, values, blinding, index);
}

/// Completeness of the single opening in dimension one: there are no other
/// coordinates, and the genuine opening is accepted whatever the generators,
/// the value and the blinding scalar are.
pub proof fn single_opening_complete_in_dimension_one(
    scheme: SchemeView,
    values: Seq<nat>,
    blinding: nat,
)
    requires
        scheme.generators.len() == 1,
        values.len() == 1,
    ensures
        opening_holds(
            genuine_opening(values, blinding, 0),
            commitment_of(scheme, values, blinding),
            scheme,
        ),
{
    group_order_bounds();
    assert(partial_sum(scheme.generators, values, 1) == partial_sum(scheme.generators, values, 0)
        + scheme.generators[0] * values[0]);
    lemma_small_mod(0, group_order());
    single_opening_complete(scheme, values, blinding, 0);
}

/// Completeness of the batch opening: the genuine opening of all coordinates,
/// in their order, is accepted, in every dimension.
pub proof fn full_batch_opening_complete(scheme: SchemeView, values: Seq<nat>, blinding: nat)
    requires
        values.len() == scheme.generators.len(),
    ensures
        batch_holds(
            genuine_batch(values, blinding, all_indices(values.len())),
            commitment_of(scheme, values, blinding),
            scheme,
        ),
{
    let n = values.len();
    let proof = genuine_batch(values, blinding, all_indices(n));
    let m = group_order() as int;
    group_order_bounds();
    let blinded = (scheme.blinding_generator * blinding) as int;
    let sum = weighted_sum(scheme.generators, values) as int;
    assert(pair_count(proof) == n);
    lemma_partial_sum_agrees(
        opened_generators(scheme.generators, proof.indices),
        proof.values,
        scheme.generators,
        values,
        n,
    );
    assert(aggregate(scheme.generators, proof) == sum);
    lemma_sub_mod_noop(blinded + sum, sum, m);
    assert(blinded + sum - sum == blinded);
}

/// Soundness of the single opening: when an opening is accepted, the opening
/// that discloses another value in its place is accepted exactly when both
/// values give the same multiple of the coordinate's generator.
pub proof fn forged_opening_accepted_iff_same_term(
    proof: OpeningView,
    forged: nat,
    commitment: nat,
    scheme: SchemeView,
)
    requires
        opening_holds(proof, commitment, scheme),
    ensures
        opening_holds(OpeningView { value: forged, ..proof }, commitment, scheme) <==> group_mul(
            scheme.generators[proof.index as int],
            forged,
        ) == group_mul(scheme.generators[proof.index as int], proof.value),
{
    let m = group_order() as int;
    group_order_bounds();
    let g = scheme.generators[proof.index as int];
    let c = commitment as int;
    let honest = (g * proof.value) as int;
    let other = (g * forged) as int;
    lemma_sub_mod_noop_right(c, honest, m);
    lemma_sub_mod_noop_right(c, other, m);
    lemma_same_shift(c, -other, -honest, m);
    lemma_mod_equivalence(-other, -honest, m);
    lemma_mod_equivalence(honest, other, m);
    assert(c - other == c + (-other));
    assert(c - honest == c + (-honest));
    assert((-other) - (-honest) == honest - other);
}

/// Soundness of the single opening under the smallest change: when an opening
/// is accepted and its generator is not the identity of the group, the opening
/// that discloses the value plus one is rejected.
pub proof fn incremented_opening_rejected(
    proof: OpeningView,
    commitment: nat,
    scheme: SchemeView,
)
    requires
        opening_holds(proof, commitment, scheme),
        scheme.generators[proof.index as int] % group_order() != 0,
    ensures
        !opening_holds(
            OpeningView { value: scalar_sum(proof.value, 1), ..proof },
            commitment,
            scheme,
        ),
{
    let g = scheme.generators[proof.index as int];
    forged_opening_accepted_iff_same_term(proof, scalar_sum(proof.value, 1), commitment, scheme);
    lemma_increment_changes_term(g, proof.value);
}

/// Adding one to a scalar changes the multiple of every element but the
/// identity.
proof fn lemma_increment_changes_term(g: nat, value: nat)
    requires
        g % group_order() != 0,
    ensures
        group_mul(g, scalar_sum(value, 1)) != group_mul(g, value),
{
    let m = group_order() as int;
    group_order_bounds();
    let next = (value + 1) as int;
    lemma_mul_mod_noop_right(g as int, next, m);
    lemma_mul_is_distributive_add(g as int, value as int, 1);
    assert(g * next == g * value + g) by {
        assert(g * 1 == g);
    }
    lemma_same_shift((g * value) as int, g as int, 0, m);
    lemma_small_mod(0, m as nat);
}

/// The batch opening that discloses `forged` in place of the value at
/// `position`.
pub open spec fn forged_batch(proof: BatchView, position: int, forged: nat) -> BatchView {
    BatchView { values: proof.values.update(position, forged), ..proof }
}

/// Soundness of the batch opening: when a batch opening is accepted, the
/// opening that discloses another value at one position is accepted exactly
/// when both values give the same multiple of that position's generator.
pub proof fn forged_batch_accepted_iff_same_term(
    proof: BatchView,
    position: int,
    forged: nat,
    commitment: nat,
    scheme: SchemeView,
)
    requires
        batch_holds(proof, commitment, scheme),
        0 <= position < pair_count(proof),
    ensures
        batch_holds(forged_batch(proof, position, forged), commitment, scheme) <==> group_mul(
            scheme.generators[proof.indices[position] as int],
            forged,
        ) == group_mul(scheme.generators[proof.indices[position] as int], proof.values[position]),
{
    let m = group_order() as int;
    group_order_bounds();
    let tampered = forged_batch(proof, position, forged);
    let gens = opened_generators(scheme.generators, proof.indices);
    let g = scheme.generators[proof.indices[position] as int];
    let c = commitment as int;
    let honest = (g * proof.values[position]) as int;
    let other = (g * forged) as int;
    let before = aggregate(scheme.generators, proof) as int;
    let after = aggregate(scheme.generators, tampered) as int;
    assert(pair_count(tampered) == pair_count(proof));
    assert(indices_in_range(tampered, scheme));
    assert(gens[position] == g);
    lemma_partial_sum_update(gens, proof.values, position, forged, pair_count(proof));
    assert(after + honest == before + other);
    lemma_sub_mod_noop_right(c, before, m);
    lemma_sub_mod_noop_right(c, after, m);
    lemma_same_shift(c - before, honest - other, 0, m);
    lemma_mod_equivalence(honest, other, m);
    lemma_small_mod(0, m as nat);
    assert(c - after == (c - before) + (honest - other));
    assert(c - before == (c - before) + 0);
}

/// Soundness of the batch opening under the smallest change: when a batch
/// opening is accepted and the generator of one position is not the identity
/// of the group, the opening that discloses that position's value plus one is
/// rejected.
pub proof fn incremented_batch_rejected(
    proof: BatchView,
    position: int,
    commitment: nat,
    scheme: SchemeView,
)
    requires
        batch_holds(proof, commitment, scheme),
        0 <= position < pair_count(proof),
        scheme.generators[proof.indices[position] as int] % group_order() != 0,
    ensures
        !batch_holds(
            forged_batch(proof, position, scalar_sum(proof.values[position], 1)),
            commitment,
            scheme,
        ),
{
    let g = scheme.generators[proof.indices[position] as int];
    let value = proof.values[position];
    forged_batch_accepted_iff_same_term(
        proof,
        position,
        scalar_sum(value, 1),
        commitment,
        scheme,
    );
    lemma_increment_changes_term(g, value);
}

/// The empty batch opening: it is accepted for a commitment exactly when the
/// committed coordinates add up to the identity of the group, so that the
/// commitment is the blinding term alone.
pub proof fn empty_batch_accepted_iff_sum_vanishes(
    scheme: SchemeView,
    values: Seq<nat>,
    blinding: nat,
)
    requires
        values.len() == scheme.generators.len(),
    ensures
        batch_holds(
            genuine_batch(values, blinding, Seq::empty()),
            commitment_of(scheme, values, blinding),
            scheme,
        ) <==> weighted_sum(scheme.generators, values) % group_order() == 0,
{
    let m = group_order() as int;
    group_order_bounds();
    let proof = genuine_batch(values, blinding, Seq::empty());
    let blinded = (scheme.blinding_generator * blinding) as int;
    let sum = weighted_sum(scheme.generators, values) as int;
    assert(pair_count(proof) == 0);
    assert(aggregate(scheme.generators, proof) == 0);
    lemma_small_mod(0, m as nat);
    lemma_mod_twice(blinded + sum, m);
    lemma_same_shift(blinded, sum, 0, m);
}

/// The empty batch opening is rejected for every commitment whose coordinates
/// do not add up to the identity of the group.
pub proof fn empty_batch_rejected(scheme: SchemeView, values: Seq<nat>, blinding: nat)
    requires
        values.len() == scheme.generators.len(),
        weighted_sum(scheme.generators, values) % group_order() != 0,
    ensures
        !batch_holds(
            genuine_batch(values, blinding, Seq::empty()),
            commitment_of(scheme, values, blinding),
            scheme,
        ),
{
    empty_batch_accepted_iff_sum_vanishes(scheme, values, blinding);
}

/// The batch opening with one more pair at its end.
pub open spec fn with_pair(proof: BatchView, index: nat, value: nat) -> BatchView {
    BatchView {
        indices: proof.indices.push(index),
        values: proof.values.push(value),
        blinding: proof.blinding,
    }
}

/// Every pair of a batch opening counts, whether or not its index occurred
/// before: one more pair adds its term to the aggregate.
pub proof fn aggregate_counts_every_pair(
    generators: Seq<nat>,
    proof: BatchView,
    index: nat,
    value: nat,
)
    requires
        proof.indices.len() == proof.values.len(),
    ensures
        aggregate(generators, with_pair(proof, index, value)) == aggregate(generators, proof)
            + generators[index as int] * value,
{
    let longer = with_pair(proof, index, value);
    let count = pair_count(proof);
    assert(pair_count(longer) == count + 1);
    lemma_partial_sum_agrees(
        opened_generators(generators, longer.indices),
        longer.values,
        opened_generators(generators, proof.indices),
        proof.values,
        count,
    );
}

/// A repeated index is counted twice: the genuine opening of all coordinates
/// followed by one of them a second time is accepted exactly when that
/// coordinate's term is the identity of the group.
pub proof fn repeated_index_accepted_iff_term_vanishes(
    scheme: SchemeView,
    values: Seq<nat>,
    blinding: nat,
    index: nat,
)
    requires
        values.len() == scheme.generators.len(),
        index < values.len(),
    ensures
        batch_holds(
            genuine_batch(values, blinding, all_indices(values.len()).push(index)),
            commitment_of(scheme, values, blinding),
            scheme,
        ) <==> group_mul(scheme.generators[index as int], values[index as int]) == 0,
{
    let n = values.len();
    let m = group_order() as int;
    group_order_bounds();
    let full = genuine_batch(values, blinding, all_indices(n));
    let proof = genuine_batch(values, blinding, all_indices(n).push(index));
    let blinded = (scheme.blinding_generator * blinding) as int;
    let sum = weighted_sum(scheme.generators, values) as int;
    let term = (scheme.generators[index as int] * values[index as int]) as int;
    assert(proof.indices =~= with_pair(full, index, values[index as int]).indices);
    assert(proof.values =~= with_pair(full, index, values[index as int]).values);
    assert(proof == with_pair(full, index, values[index as int]));
    aggregate_counts_every_pair(scheme.generators, full, index, values[index as int]);
    lemma_partial_sum_agrees(
        opened_generators(scheme.generators, full.indices),
        full.values,
        scheme.generators,
        values,
        n,
    );
    assert(aggregate(scheme.generators, proof) == sum + term);
    assert(indices_in_range(proof, scheme));
    lemma_sub_mod_noop(blinded + sum, sum + term, m);
    lemma_same_shift(blinded, -term, 0, m);
    lemma_negation_vanishes(term, m);
    lemma_small_mod(0, m as nat);
    assert(blinded + sum - (sum + term) == blinded + (-term));
}

} // verus!
