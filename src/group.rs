//! The prime-order group and its scalar field, as this library sees them.
//!
//! Points and scalars are carried as the curve library's own values; what the
//! protocol needs of them (the group operation, field addition, inversion,
//! scalar multiplication and canonical encodings) is named here, and every
//! aggregate is an explicit left fold from the neutral element.
use curve25519_dalek::ristretto::RistrettoPoint;
use curve25519_dalek::scalar::Scalar;
use curve25519_dalek::traits::Identity;
use vstd::prelude::*;

verus! {

#[verifier::external_type_specification]
#[verifier::external_body]
pub struct ExRistrettoPoint(RistrettoPoint);

#[verifier::external_type_specification]
#[verifier::external_body]
pub struct ExScalar(Scalar);

/// Relies on the `Clone` impl of `RistrettoPoint`, which copies the point.
pub assume_specification[ <RistrettoPoint as Clone>::clone ](p: &RistrettoPoint) -> (r: RistrettoPoint)
    ensures
        r == *p,
;

/// Relies on the `Clone` impl of `Scalar`, which copies the scalar.
pub assume_specification[ <Scalar as Clone>::clone ](s: &Scalar) -> (r: Scalar)
    ensures
        r == *s,
;

/// The group operation on two points.
pub uninterp spec fn point_sum(a: RistrettoPoint, b: RistrettoPoint) -> RistrettoPoint;

/// Addition in the scalar field.
pub uninterp spec fn scalar_sum(a: Scalar, b: Scalar) -> Scalar;

/// The multiplicative inverse of a nonzero scalar.
pub uninterp spec fn scalar_inverse(a: Scalar) -> Scalar;

/// A point multiplied by a scalar.
pub uninterp spec fn scaled_point(s: Scalar, p: RistrettoPoint) -> RistrettoPoint;

/// The 32-byte compressed encoding of a point.
pub uninterp spec fn compressed_point(p: RistrettoPoint) -> Seq<u8>;

/// The 32 bytes that a scalar is stored as.
pub uninterp spec fn scalar_encoding(s: Scalar) -> Seq<u8>;

/// `e` is a neutral element of the group operation.
pub open spec fn is_neutral_point(e: RistrettoPoint) -> bool {
    forall|p: RistrettoPoint|
        #![trigger point_sum(e, p)]
        #![trigger point_sum(p, e)]
        point_sum(e, p) == p && point_sum(p, e) == p
}

/// `e` is a neutral element of scalar addition.
pub open spec fn is_neutral_scalar(e: Scalar) -> bool {
    forall|s: Scalar|
        #![trigger scalar_sum(e, s)]
        #![trigger scalar_sum(s, e)]
        scalar_sum(e, s) == s && scalar_sum(s, e) == s
}

/// The identity point.
pub open spec fn identity_point() -> RistrettoPoint {
    choose|e: RistrettoPoint| is_neutral_point(e)
}

/// The zero scalar.
pub open spec fn zero_scalar() -> Scalar {
    choose|e: Scalar| is_neutral_scalar(e)
}

/// The sum of a sequence of points, taken left to right; the identity when
/// there are none.
pub open spec fn sum_points(s: Seq<RistrettoPoint>) -> RistrettoPoint
    decreases s.len(),
{
    if s.len() == 0 {
        identity_point()
    } else if s.len() == 1 {
        s[0]
    } else {
        point_sum(sum_points(s.drop_last()), s.last())
    }
}

/// The sum of a sequence of scalars, taken left to right; zero when there
/// are none.
pub open spec fn sum_scalars(s: Seq<Scalar>) -> Scalar
    decreases s.len(),
{
    if s.len() == 0 {
        zero_scalar()
    } else if s.len() == 1 {
        s[0]
    } else {
        scalar_sum(sum_scalars(s.drop_last()), s.last())
    }
}

/// A neutral point is the identity point: the neutral element is unique.
pub proof fn lemma_neutral_point_unique(e: RistrettoPoint)
    requires
        is_neutral_point(e),
    ensures
        e == identity_point(),
{
    let i = identity_point();
    assert(point_sum(e, i) == i);
    assert(point_sum(e, i) == e);
}

/// A neutral scalar is the zero scalar: the neutral element is unique.
pub proof fn lemma_neutral_scalar_unique(e: Scalar)
    requires
        is_neutral_scalar(e),
    ensures
        e == zero_scalar(),
{
    let z = zero_scalar();
    assert(scalar_sum(e, z) == z);
    assert(scalar_sum(e, z) == e);
}

/// The aggregate of a single point is that point, unchanged.
pub proof fn lemma_sum_of_one_point(p: RistrettoPoint)
    ensures
        sum_points(seq![p]) == p,
{
}

/// The aggregate of two points is their group sum, in batch order.
pub proof fn lemma_sum_of_two_points(p1: RistrettoPoint, p2: RistrettoPoint)
    ensures
        sum_points(seq![p1, p2]) == point_sum(p1, p2),
{
    assert(seq![p1, p2].drop_last() =~= seq![p1]);
    lemma_sum_of_one_point(p1);
}

/// The aggregate of a single scalar is that scalar, unchanged.
pub proof fn lemma_sum_of_one_scalar(s: Scalar)
    ensures
        sum_scalars(seq![s]) == s,
{
}

/// The aggregate of two scalars is their field sum.
pub proof fn lemma_sum_of_two_scalars(s1: Scalar, s2: Scalar)
    ensures
        sum_scalars(seq![s1, s2]) == scalar_sum(s1, s2),
{
    assert(seq![s1, s2].drop_last() =~= seq![s1]);
    lemma_sum_of_one_scalar(s1);
}

/// Relies on `RistrettoPoint::identity`: the neutral element of the group.
#[verifier::external_body]
pub(crate) fn point_identity() -> (r: RistrettoPoint)
    ensures
        is_neutral_point(r),
{
    RistrettoPoint::identity()
}

/// Relies on `Scalar::ZERO`: the neutral element of scalar addition.
#[verifier::external_body]
pub(crate) fn scalar_zero() -> (r: Scalar)
    ensures
        is_neutral_scalar(r),
{
    Scalar::ZERO
}

/// Relies on `&RistrettoPoint + &RistrettoPoint`: the group operation.
#[verifier::external_body]
pub(crate) fn add_points(a: &RistrettoPoint, b: &RistrettoPoint) -> (r: RistrettoPoint)
    ensures
        r == point_sum(*a, *b),
{
    a + b
}

/// Relies on `&Scalar + &Scalar`: addition modulo the group order.
#[verifier::external_body]
pub(crate) fn add_scalars(a: &Scalar, b: &Scalar) -> (r: Scalar)
    ensures
        r == scalar_sum(*a, *b),
{
    a + b
}

/// Relies on `Scalar::invert`: the inverse modulo the group order. It returns
/// without panicking on every input; nothing is stated of its result on zero.
#[verifier::external_body]
pub(crate) fn invert_scalar(a: &Scalar) -> (r: Scalar)
    ensures
        r == scalar_inverse(*a),
{
    a.invert()
}

/// Relies on `&Scalar * &RistrettoPoint`: scalar multiplication.
#[verifier::external_body]
pub(crate) fn scale_point(s: &Scalar, p: &RistrettoPoint) -> (r: RistrettoPoint)
    ensures
        r == scaled_point(*s, *p),
{
    s * p
}

/// Relies on `RistrettoPoint::compress` and `CompressedRistretto::to_bytes`:
/// the point's 32-byte encoding.
#[verifier::external_body]
pub(crate) fn compress_point(p: &RistrettoPoint) -> (r: [u8; 32])
    ensures
        r@ == compressed_point(*p),
{
    p.compress().to_bytes()
}

/// Relies on `Scalar::to_bytes`: the scalar's 32-byte encoding.
#[verifier::external_body]
pub(crate) fn scalar_to_bytes(s: &Scalar) -> (r: [u8; 32])
    ensures
        r@ == scalar_encoding(*s),
{
    s.to_bytes()
}

/// Sums a list of points left to right, starting from the identity.
pub fn aggregate_points(points: &Vec<RistrettoPoint>) -> (r: RistrettoPoint)
    ensures
        r == sum_points(points@),
{
    let mut acc = point_identity();
    proof {
        lemma_neutral_point_unique(acc);
    }
    let mut i: usize = 0;
    while i < points.len()
        invariant
            i <= points.len(),
            is_neutral_point(identity_point()),
            acc == sum_points(points@.take(i as int)),
        decreases points.len() - i,
    {
        acc = add_points(&acc, &points[i]);
        proof {
            assert(points@.take(i as int + 1).drop_last() =~= points@.take(i as int));
        }
        i = i + 1;
    }
    proof {
        assert(points@.take(i as int) =~= points@);
    }
    acc
}

/// Sums a list of scalars left to right, starting from zero.
pub fn aggregate_scalars(scalars: &Vec<Scalar>) -> (r: Scalar)
    ensures
        r == sum_scalars(scalars@),
{
    let mut acc = scalar_zero();
    proof {
        lemma_neutral_scalar_unique(acc);
    }
    let mut i: usize = 0;
    while i < scalars.len()
        invariant
            i <= scalars.len(),
            is_neutral_scalar(zero_scalar()),
            acc == sum_scalars(scalars@.take(i as int)),
        decreases scalars.len() - i,
    {
        acc = add_scalars(&acc, &scalars[i]);
        proof {
            assert(scalars@.take(i as int + 1).drop_last() =~= scalars@.take(i as int));
        }
        i = i + 1;
    }
    proof {
        assert(scalars@.take(i as int) =~= scalars@);
    }
    acc
}

} // verus!
