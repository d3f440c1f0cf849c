//! Facts about sums of terms and about remainders that the laws of the scheme
//! rest on.

use crate::model::partial_sum;
use vstd::arithmetic::div_mod::lemma_mod_equivalence;
use vstd::prelude::*;

verus! {

/// Adding the same number to both sides does not change whether two numbers
/// leave the same remainder.
pub proof fn lemma_same_shift(a: int, b: int, c: int, m: int)
    requires
        m > 0,
    ensures
        (a + b) % m == (a + c) % m <==> b % m == c % m,
{
    lemma_mod_equivalence(a + b, a + c, m);
    lemma_mod_equivalence(b, c, m);
    assert((a + b) - (a + c) == b - c);
}

/// A number leaves no remainder exactly when its negative leaves none.
pub proof fn lemma_negation_vanishes(a: int, m: int)
    requires
        m > 0,
    ensures
        (-a) % m == 0 <==> a % m == 0,
{
    lemma_mod_equivalence(0, a, m);
    lemma_mod_equivalence(a, 0, m);
    assert(0 - a == -a);
    assert(a - 0 == a);
}

/// A partial sum looks only at the entries that it counts.
pub proof fn lemma_partial_sum_agrees(
    generators: Seq<nat>,
    values: Seq<nat>,
    other_generators: Seq<nat>,
    other_values: Seq<nat>,
    count: nat,
)
    requires
        forall|i: int| 0 <= i < count ==> generators[i] == other_generators[i],
        forall|i: int| 0 <= i < count ==> values[i] == other_values[i],
    ensures
        partial_sum(generators, values, count) == partial_sum(
            other_generators,
            other_values,
            count,
        ),
    decreases count,
{
    if count > 0 {
        lemma_partial_sum_agrees(
            generators,
            values,
            other_generators,
            other_values,
            (count - 1) as nat,
        );
    }
}

/// Replacing one counted value changes a partial sum by the difference of the
/// two terms.
pub proof fn lemma_partial_sum_update(
    generators: Seq<nat>,
    values: Seq<nat>,
    position: int,
    replacement: nat,
    count: nat,
)
    requires
        0 <= position < count <= values.len(),
    ensures
        partial_sum(generators, values.update(position, replacement), count) + generators[position]
            * values[position] == partial_sum(generators, values, count) + generators[position]
            * replacement,
    decreases count,
{
    let updated = values.update(position, replacement);
    if position == count - 1 {
        lemma_partial_sum_agrees(generators, values, generators, updated, (count - 1) as nat);
    } else {
        lemma_partial_sum_update(generators, values, position, replacement, (count - 1) as nat);
    }
}

} // verus!
