//! Scalars and points of the secp256k1 group, with a mathematical model.
//!
//! An `Fr` is an element of the prime field of order `group_order()` (the
//! order of the secp256k1 group); a `Point` is an element of the group itself.
//! Because the group is cyclic of prime order and generated by `G`, every
//! point is `d * G` for exactly one `d < group_order()`: a point is modelled
//! by that discrete logarithm, a scalar by its canonical value. The arithmetic
//! itself is done by the `k256` crate behind the trusted wrappers below; all
//! reasoning above this module is in terms of the models alone.

use vstd::prelude::*;
use k256::elliptic_curve::group::GroupEncoding;
use k256::elliptic_curve::ops::Reduce;

verus! {

/// The order of the secp256k1 group (a prime).
pub open spec fn group_order() -> nat {
    0xFFFFFFFF_FFFFFFFF_FFFFFFFF_FFFFFFFE_BAAEDCE6_AF48A03B_BFD25E8C_D0364141nat
}

/// Modular addition in the scalar field.
pub open spec fn addm(a: nat, b: nat) -> nat {
    (a + b) % group_order()
}

/// Modular multiplication in the scalar field.
pub open spec fn mulm(a: nat, b: nat) -> nat {
    (a * b) % group_order()
}

/// Modular subtraction in the scalar field (well-behaved for `b <= group_order()`).
pub open spec fn subm(a: nat, b: nat) -> nat {
    ((a + group_order() - b) % (group_order() as int)) as nat
}

/// The big-endian value of a byte string.
pub open spec fn be_bytes_val(s: Seq<u8>) -> nat
    decreases s.len(),
{
    if s.len() == 0 {
        0
    } else {
        (be_bytes_val(s.drop_last()) * 256 + s.last()) as nat
    }
}

#[verifier::external_type_specification]
#[verifier::external_body]
pub struct ExScalar(k256::Scalar);

#[verifier::external_type_specification]
#[verifier::external_body]
pub struct ExProjectivePoint(k256::ProjectivePoint);

/// An element of the secp256k1 scalar field, modelled by its value.
#[derive(Clone, Copy)]
pub struct Fr {
    inner: k256::Scalar,
    value: Ghost<nat>,
}

impl Fr {
    /// The value of the scalar, as a natural number below `group_order()`.
    pub closed spec fn val(self) -> nat {
        self.value@
    }

    /// Every scalar produced by this module is reduced.
    pub open spec fn wf(self) -> bool {
        self.val() < group_order()
    }
}

/// An element of the secp256k1 group, modelled by its discrete logarithm
/// with respect to the generator.
#[derive(Clone, Copy)]
pub struct Point {
    inner: k256::ProjectivePoint,
    exponent: Ghost<nat>,
}

impl Point {
    /// The discrete logarithm of the point with respect to the generator:
    /// the unique `d < group_order()` with `self == d * G`.
    pub closed spec fn dlog(self) -> nat {
        self.exponent@
    }

    pub open spec fn wf(self) -> bool {
        self.dlog() < group_order()
    }
}

/// The canonical 33-byte SEC1 compressed encoding of the point whose discrete
/// logarithm is the argument. Named, not defined: the encoding is computed
/// only by the `k256` crate.
pub uninterp spec fn compress_of(exponent: nat) -> Seq<u8>;

/// Relies on `k256::Scalar::from(u64)`: the scalar with that value
/// (every `u64` is below the group order).
#[verifier::external_body]
pub fn scalar_from_u64(x: u64) -> (r: Fr)
    ensures
        r.val() == x as nat,
        r.wf(),
{
    Fr { inner: k256::Scalar::from(x), value: Ghost(arbitrary()) }
}

/// Relies on `k256::Scalar`'s field addition modulo the group order.
#[verifier::external_body]
pub fn scalar_add(a: &Fr, b: &Fr) -> (r: Fr)
    requires
        a.wf(),
        b.wf(),
    ensures
        r.val() == addm(a.val(), b.val()),
        r.wf(),
{
    Fr { inner: a.inner + b.inner, value: Ghost(arbitrary()) }
}

/// Relies on `k256::Scalar`'s field subtraction modulo the group order.
#[verifier::external_body]
pub(crate) fn scalar_sub(a: &Fr, b: &Fr) -> (r: Fr)
    requires
        a.wf(),
        b.wf(),
    ensures
        r.val() == subm(a.val(), b.val()),
        r.wf(),
{
    Fr { inner: a.inner - b.inner, value: Ghost(arbitrary()) }
}

/// Relies on `k256::Scalar`'s field multiplication modulo the group order.
#[verifier::external_body]
pub(crate) fn scalar_mul(a: &Fr, b: &Fr) -> (r: Fr)
    requires
        a.wf(),
        b.wf(),
    ensures
        r.val() == mulm(a.val(), b.val()),
        r.wf(),
{
    Fr { inner: a.inner * b.inner, value: Ghost(arbitrary()) }
}

/// Relies on `k256::Scalar::invert`: the multiplicative inverse of a
/// non-zero field element.
#[verifier::external_body]
pub(crate) fn scalar_invert(a: &Fr) -> (r: Fr)
    requires
        a.wf(),
        a.val() != 0,
    ensures
        r.wf(),
        mulm(a.val(), r.val()) == 1,
{
    Fr { inner: a.inner.invert().unwrap(), value: Ghost(arbitrary()) }
}

/// Relies on `k256::Scalar`'s equality: canonical values compare equal
/// exactly when they are the same field element.
#[verifier::external_body]
pub fn scalar_eq(a: &Fr, b: &Fr) -> (r: bool)
    requires
        a.wf(),
        b.wf(),
    ensures
        r == (a.val() == b.val()),
{
    a.inner == b.inner
}

/// Relies on `k256::Scalar::reduce_bytes`: the big-endian value of the
/// 32 bytes, reduced modulo the group order.
#[verifier::external_body]
pub(crate) fn scalar_reduce_bytes(bytes: &[u8; 32]) -> (r: Fr)
    ensures
        r.val() == be_bytes_val(bytes@) % group_order(),
        r.wf(),
{
    let fb: k256::FieldBytes = (*bytes).into();
    Fr { inner: <k256::Scalar as Reduce<k256::U256>>::reduce_bytes(&fb), value: Ghost(arbitrary()) }
}

/// Relies on `k256::Scalar::to_bytes`: the canonical 32-byte big-endian
/// encoding of the scalar's value.
#[verifier::external_body]
pub fn scalar_to_bytes(a: &Fr) -> (r: Vec<u8>)
    requires
        a.wf(),
    ensures
        r@.len() == 32,
        be_bytes_val(r@) == a.val(),
{
    a.inner.to_bytes().as_slice().to_vec()
}

/// Relies on `k256::Scalar::generate_biased` over the operating system's
/// entropy source. The draw is random: nothing is promised beyond reduction.
#[verifier::external_body]
pub fn scalar_random() -> (r: Fr)
    ensures
        r.wf(),
{
    Fr { inner: k256::Scalar::generate_biased(&mut rand::rngs::OsRng), value: Ghost(arbitrary()) }
}

/// Relies on `k256::ProjectivePoint::GENERATOR`: the base point `G`, whose
/// discrete logarithm with respect to itself is 1.
#[verifier::external_body]
pub fn point_generator() -> (r: Point)
    ensures
        r.dlog() == 1,
        r.wf(),
{
    Point { inner: k256::ProjectivePoint::GENERATOR, exponent: Ghost(arbitrary()) }
}

/// Relies on `k256::ProjectivePoint::IDENTITY`: the neutral element `0 * G`.
#[verifier::external_body]
pub fn point_identity() -> (r: Point)
    ensures
        r.dlog() == 0,
        r.wf(),
{
    Point { inner: k256::ProjectivePoint::IDENTITY, exponent: Ghost(arbitrary()) }
}

/// Relies on `k256::ProjectivePoint`'s group addition:
/// `a*G + b*G == ((a + b) mod order) * G`.
#[verifier::external_body]
pub(crate) fn point_add(p: &Point, q: &Point) -> (r: Point)
    requires
        p.wf(),
        q.wf(),
    ensures
        r.dlog() == addm(p.dlog(), q.dlog()),
        r.wf(),
{
    Point { inner: p.inner + q.inner, exponent: Ghost(arbitrary()) }
}

/// Relies on `k256::ProjectivePoint`'s scalar multiplication:
/// `s * (d*G) == ((d * s) mod order) * G`.
#[verifier::external_body]
pub fn point_mul(p: &Point, s: &Fr) -> (r: Point)
    requires
        p.wf(),
        s.wf(),
    ensures
        r.dlog() == mulm(p.dlog(), s.val()),
        r.wf(),
{
    Point { inner: p.inner * s.inner, exponent: Ghost(arbitrary()) }
}

/// Relies on `k256::ProjectivePoint`'s equality. The group is cyclic of
/// prime order, so two points are equal exactly when their discrete
/// logarithms with respect to the generator are.
#[verifier::external_body]
pub fn point_eq(p: &Point, q: &Point) -> (r: bool)
    requires
        p.wf(),
        q.wf(),
    ensures
        r == (p.dlog() == q.dlog()),
{
    p.inner == q.inner
}

/// Relies on `GroupEncoding::to_bytes` of `k256::ProjectivePoint`: the
/// canonical 33-byte SEC1 compressed encoding, a function of the point alone.
#[verifier::external_body]
pub fn point_compress(p: &Point) -> (r: Vec<u8>)
    requires
        p.wf(),
    ensures
        r@ == compress_of(p.dlog()),
        r@.len() == 33,
{
    p.inner.to_bytes().as_slice().to_vec()
}

/// Relies on `GroupEncoding::from_bytes` and `to_bytes` of
/// `k256::ProjectivePoint`: the decoded point is re-encoded and compared
/// with the input, so a `Some` holds exactly the point whose canonical
/// encoding the input is. (`from_bytes` alone also admits a non-standard
/// compact tag; the comparison rejects every non-canonical input.)
#[verifier::external_body]
pub fn point_decompress(bytes: &[u8]) -> (r: Option<Point>)
    requires
        bytes@.len() == 33,
    ensures
        r is Some ==> {
            &&& r.unwrap().wf()
            &&& compress_of(r.unwrap().dlog()) == bytes@
            &&& forall|d: nat| d < group_order() && compress_of(d) == bytes@ ==> d == r.unwrap().dlog()
        },
        (exists|d: nat| d < group_order() && compress_of(d) == bytes@) ==> r is Some,
{
    let mut arr = [0u8; 33];
    arr.copy_from_slice(bytes);
    let ct = k256::ProjectivePoint::from_bytes(&arr.into());
    if !bool::from(ct.is_some()) {
        return None;
    }
    let p = ct.unwrap();
    if p.to_bytes().as_slice() != bytes {
        return None;
    }
    Some(Point { inner: p, exponent: Ghost(arbitrary()) })
}

} // verus!
