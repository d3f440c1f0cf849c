//! The prime-order group and its scalar field, as the rest of the crate sees them.
//!
//! Group elements and scalars are values of `curve25519-dalek`. Their arithmetic
//! is not verified here: each operation is reached through one small function
//! whose contract is taken on trust. The contracts speak of two numbers that
//! stand for the values, `point_log` and `scalar_value`, and of integer
//! arithmetic modulo the group order.

use curve25519_dalek::ristretto::RistrettoPoint;
use curve25519_dalek::scalar::Scalar;
use rand::rngs::OsRng;
use vstd::prelude::*;

verus! {

/// A group element of `curve25519-dalek`, opaque to the verifier.
#[verifier::external_type_specification]
#[verifier::external_body]
pub struct ExRistrettoPoint(RistrettoPoint);

/// A scalar of `curve25519-dalek`, opaque to the verifier.
#[verifier::external_type_specification]
#[verifier::external_body]
pub struct ExScalar(Scalar);

/// The order of the group, which is also the modulus of its scalar field:
/// 2^252 + 27742317777372353535851937790883648493.
#[verifier::opaque]
pub open spec fn group_order() -> nat {
    7237005577332262213973186563042994240857116359379907606001950938285454250989nat
}

/// The group is not trivial.
pub proof fn group_order_bounds()
    ensures
        group_order() > 1,
{
    reveal(group_order);
}

/// What a `RistrettoPoint` holds: a group element, named by its discrete
/// logarithm, the one `k` below `group_order()` for which the element is `k`
/// times the Ristretto basepoint. The group is cyclic of prime order, so every
/// element has exactly one, the identity has 0, and two values hold the same
/// element exactly when theirs agree. No program computes it from an element:
/// it serves to say what the group operations do.
pub uninterp spec fn point_log(p: RistrettoPoint) -> nat;

/// What a `Scalar` holds: an integer below `group_order()`, the one that its
/// 32 bytes spell in little-endian order.
pub uninterp spec fn scalar_value(s: Scalar) -> nat;

/// Logarithm of the sum of two elements.
pub open spec fn group_add(a: nat, b: nat) -> nat {
    (a + b) % group_order()
}

/// Logarithm of the difference of two elements.
pub open spec fn group_sub(a: nat, b: nat) -> nat {
    ((a - b) % (group_order() as int)) as nat
}

/// Logarithm of the multiple of an element with logarithm `p` by a scalar with
/// value `s`.
pub open spec fn group_mul(p: nat, s: nat) -> nat {
    (p * s) % group_order()
}

/// Value of the sum of two scalars.
pub open spec fn scalar_sum(a: nat, b: nat) -> nat {
    (a + b) % group_order()
}

/// Value of the product of two scalars.
pub open spec fn scalar_product(a: nat, b: nat) -> nat {
    (a * b) % group_order()
}

/// The logarithms of a sequence of elements, one for one.
pub open spec fn point_logs(points: Seq<RistrettoPoint>) -> Seq<nat> {
    Seq::new(points.len(), |i: int| point_log(points[i]))
}

/// The values of a sequence of scalars, one for one.
pub open spec fn scalar_values(scalars: Seq<Scalar>) -> Seq<nat> {
    Seq::new(scalars.len(), |i: int| scalar_value(scalars[i]))
}

/// `RistrettoPoint::random` on `rand`'s `OsRng`. Any element may come back, so
/// nothing is promised of it. Where the operating system cannot give random
/// bytes, `OsRng` panics.
#[verifier::external_body]
pub(crate) fn random_point() -> (p: RistrettoPoint) {
    RistrettoPoint::random(&mut OsRng)
}

/// `RistrettoPoint::default`: the identity of the group.
#[verifier::external_body]
pub(crate) fn identity_point() -> (p: RistrettoPoint)
    ensures
        point_log(p) == 0,
{
    RistrettoPoint::default()
}

/// `+` on two `&RistrettoPoint`: the group operation, under which logarithms
/// add modulo the group order.
#[verifier::external_body]
pub(crate) fn point_add(a: &RistrettoPoint, b: &RistrettoPoint) -> (sum: RistrettoPoint)
    ensures
        point_log(sum) == group_add(point_log(*a), point_log(*b)),
{
    a + b
}

/// `-` on two `&RistrettoPoint`: the first plus the inverse of the second,
/// under which logarithms subtract modulo the group order.
#[verifier::external_body]
pub(crate) fn point_sub(a: &RistrettoPoint, b: &RistrettoPoint) -> (difference: RistrettoPoint)
    ensures
        point_log(difference) == group_sub(point_log(*a), point_log(*b)),
{
    a - b
}

/// `*` with a `&RistrettoPoint` on the left and a `&Scalar` on the right: the
/// multiple of the element by the scalar, whose logarithm is the product
/// modulo the group order.
#[verifier::external_body]
pub(crate) fn point_mul_scalar(p: &RistrettoPoint, s: &Scalar) -> (multiple: RistrettoPoint)
    ensures
        point_log(multiple) == group_mul(point_log(*p), scalar_value(*s)),
{
    p * s
}

/// `*` with a `&Scalar` on the left and a `&RistrettoPoint` on the right: the
/// same multiple.
#[verifier::external_body]
pub(crate) fn scalar_mul_point(s: &Scalar, p: &RistrettoPoint) -> (multiple: RistrettoPoint)
    ensures
        point_log(multiple) == group_mul(point_log(*p), scalar_value(*s)),
{
    s * p
}

/// `==` on two `RistrettoPoint`s: whether they hold the same group element,
/// whatever coordinates each is kept in.
#[verifier::external_body]
pub(crate) fn points_equal(a: &RistrettoPoint, b: &RistrettoPoint) -> (same: bool)
    ensures
        same == (point_log(*a) == point_log(*b)),
{
    a == b
}

/// `Scalar::from` on a `u64`: the scalar that holds that integer, which is
/// below the group order.
#[verifier::external_body]
pub(crate) fn scalar_from_u64(x: u64) -> (s: Scalar)
    ensures
        scalar_value(s) == x,
{
    Scalar::from(x)
}

/// `*` on two `&Scalar`: the product modulo the group order.
#[verifier::external_body]
pub(crate) fn scalar_mul(a: &Scalar, b: &Scalar) -> (product: Scalar)
    ensures
        scalar_value(product) == scalar_product(scalar_value(*a), scalar_value(*b)),
{
    a * b
}

} // verus!
