//! Trusted bindings to the group arithmetic of `curve25519-dalek`.
//!
//! Scalars travel as their canonical 32-byte little-endian encodings and
//! points as their canonical compressed Ristretto encodings, so the rest of
//! the crate works on plain byte arrays. The Ristretto group is cyclic of
//! prime order, generated by the basepoint, so every point is determined by
//! its discrete logarithm with respect to the basepoint; `point_enc_of`
//! names the encoding of the point with a given discrete logarithm.

use crate::field::{canonical_scalar, group_order, le_value};
use vstd::prelude::*;

verus! {

/// The canonical compressed encoding of the Ristretto point whose discrete
/// logarithm with respect to the basepoint is `n`: what basepoint
/// multiplication by a scalar of value `n` followed by compression returns.
pub uninterp spec fn point_enc_of(n: nat) -> Seq<u8>;

/// Relies on `Scalar::from_bytes_mod_order` and `Scalar::to_bytes` of
/// `curve25519_dalek`: the result is the canonical little-endian encoding of
/// the input read as a 256-bit little-endian integer and reduced modulo the
/// group order.
#[verifier::external_body]
pub(crate) fn scalar_from_bytes_mod_order(b: &[u8; 32]) -> (r: [u8; 32])
    ensures
        le_value(r@) == le_value(b@) % group_order(),
{
    curve25519_dalek::scalar::Scalar::from_bytes_mod_order(*b).to_bytes()
}

/// Relies on scalar addition of `curve25519_dalek`: on canonical encodings
/// the result is the canonical encoding of the sum modulo the group order.
#[verifier::external_body]
pub(crate) fn scalar_add(a: &[u8; 32], b: &[u8; 32]) -> (r: [u8; 32])
    requires
        canonical_scalar(a@),
        canonical_scalar(b@),
    ensures
        le_value(r@) == (le_value(a@) + le_value(b@)) % group_order(),
{
    let x = curve25519_dalek::scalar::Scalar::from_bytes_mod_order(*a);
    let y = curve25519_dalek::scalar::Scalar::from_bytes_mod_order(*b);
    (x + y).to_bytes()
}

/// Relies on scalar multiplication of `curve25519_dalek`: on canonical
/// encodings the result is the canonical encoding of the product modulo the
/// group order.
#[verifier::external_body]
pub(crate) fn scalar_mul(a: &[u8; 32], b: &[u8; 32]) -> (r: [u8; 32])
    requires
        canonical_scalar(a@),
        canonical_scalar(b@),
    ensures
        le_value(r@) == (le_value(a@) * le_value(b@)) % group_order(),
{
    let x = curve25519_dalek::scalar::Scalar::from_bytes_mod_order(*a);
    let y = curve25519_dalek::scalar::Scalar::from_bytes_mod_order(*b);
    (x * y).to_bytes()
}

/// Relies on `RistrettoPoint::mul_base` and `compress` of
/// `curve25519_dalek`: the result is the canonical encoding of the basepoint
/// multiple, and — the group being cyclic of prime order with the basepoint
/// as generator, and compression injective — no other reduced scalar's
/// basepoint multiple has this encoding.
#[verifier::external_body]
pub(crate) fn base_mul(k: &[u8; 32]) -> (r: [u8; 32])
    requires
        canonical_scalar(k@),
    ensures
        r@ == point_enc_of(le_value(k@)),
        forall|m: nat| m < group_order() && m != le_value(k@) ==> point_enc_of(m) != r@,
{
    let s = curve25519_dalek::scalar::Scalar::from_bytes_mod_order(*k);
    curve25519_dalek::ristretto::RistrettoPoint::mul_base(&s).compress().to_bytes()
}

/// Relies on Ristretto decompression and point addition of
/// `curve25519_dalek`: adding the points with discrete logarithms `n1` and
/// `n2` yields the point with discrete logarithm `(n1 + n2)` modulo the
/// group order.
#[verifier::external_body]
pub(crate) fn point_add(p: &[u8; 32], q: &[u8; 32]) -> (r: [u8; 32])
    requires
        exists|n: nat| n < group_order() && p@ == point_enc_of(n),
        exists|n: nat| n < group_order() && q@ == point_enc_of(n),
    ensures
        forall|n1: nat, n2: nat|
            #![trigger point_enc_of(n1), point_enc_of(n2)]
            n1 < group_order() && n2 < group_order() && p@ == point_enc_of(n1) && q@
                == point_enc_of(n2) ==> r@ == point_enc_of((n1 + n2) % group_order()),
{
    let pp = curve25519_dalek::ristretto::CompressedRistretto(*p).decompress().unwrap();
    let qq = curve25519_dalek::ristretto::CompressedRistretto(*q).decompress().unwrap();
    (pp + qq).compress().to_bytes()
}

/// Relies on Ristretto decompression and scalar multiplication of
/// `curve25519_dalek`: multiplying the point with discrete logarithm `n` by
/// a canonical scalar `e` yields the point with discrete logarithm
/// `e * n` modulo the group order.
#[verifier::external_body]
pub(crate) fn scalar_mul_point(e: &[u8; 32], p: &[u8; 32]) -> (r: [u8; 32])
    requires
        canonical_scalar(e@),
        exists|n: nat| n < group_order() && p@ == point_enc_of(n),
    ensures
        forall|n: nat|
            #![trigger point_enc_of(n)]
            n < group_order() && p@ == point_enc_of(n) ==> r@ == point_enc_of(
                (le_value(e@) * n) % group_order(),
            ),
{
    let s = curve25519_dalek::scalar::Scalar::from_bytes_mod_order(*e);
    let pp = curve25519_dalek::ristretto::CompressedRistretto(*p).decompress().unwrap();
    (s * &pp).compress().to_bytes()
}

} // verus!
