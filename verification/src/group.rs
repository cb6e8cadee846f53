//! Trusted interface to the BLS12-381 curve groups of the `ark-bls12-381`
//! and `ark-ec` crates.  Verus refuses declarations of the curve types
//! themselves (their generic parameters carry foreign trait bounds), so each
//! is held in an opaque struct of this crate.
//!
//! A group element is modelled by its discrete logarithm with respect to one
//! fixed generator of the prime-order subgroup, a natural number below
//! `fr_order()`.  The `..._in_subgroup` predicates confine the claims to
//! elements of the prime-order subgroup; every constructor in this module
//! yields such elements, and the group operations preserve membership.
use vstd::prelude::*;
use crate::math::{fr_order, addm, subm, mulm, dot_log};
use crate::field::{Scalar, TestRng, fr_int, frs};
use ark_bls12_381::{Bls12_381, G1Affine, G1Projective, G2Affine, G2Projective};
use ark_ec::{AffineRepr, CurveGroup, VariableBaseMSM, pairing::Pairing, pairing::PairingOutput};
use ark_ff::UniformRand;

verus! {

/// A point of the first source group, in projective coordinates.
#[verifier::external_body]
pub struct PointG1 {
    pub(crate) inner: G1Projective,
}

/// A point of the first source group, in affine form.
#[verifier::external_body]
pub struct AffineG1 {
    pub(crate) inner: G1Affine,
}

/// A point of the second source group, in projective coordinates.
#[verifier::external_body]
pub struct PointG2 {
    pub(crate) inner: G2Projective,
}

/// A point of the second source group, in affine form.
#[verifier::external_body]
pub struct AffineG2 {
    pub(crate) inner: G2Affine,
}

/// An element of the pairing's target group.
#[verifier::external_body]
pub struct GtElem {
    pub(crate) inner: PairingOutput<Bls12_381>,
}

pub uninterp spec fn g1_log(p: PointG1) -> nat;

pub uninterp spec fn g1_in_subgroup(p: PointG1) -> bool;

pub uninterp spec fn g1a_log(p: AffineG1) -> nat;

pub uninterp spec fn g1a_in_subgroup(p: AffineG1) -> bool;

pub uninterp spec fn g2_log(p: PointG2) -> nat;

pub uninterp spec fn g2_in_subgroup(p: PointG2) -> bool;

pub uninterp spec fn g2a_log(p: AffineG2) -> nat;

pub uninterp spec fn g2a_in_subgroup(p: AffineG2) -> bool;

pub uninterp spec fn gt_log(p: GtElem) -> nat;

pub uninterp spec fn gt_in_subgroup(p: GtElem) -> bool;

/// The discrete logarithms of a sequence of projective points.
pub open spec fn g1_logs(s: Seq<PointG1>) -> Seq<nat> {
    Seq::new(s.len(), |i: int| g1_log(s[i]))
}

/// The discrete logarithms of a sequence of affine points.
pub open spec fn g1a_logs(s: Seq<AffineG1>) -> Seq<nat> {
    Seq::new(s.len(), |i: int| g1a_log(s[i]))
}

/// Whether every point of the sequence lies in the prime-order subgroup.
pub open spec fn g1_all_in_subgroup(s: Seq<PointG1>) -> bool {
    forall|i: int| 0 <= i < s.len() ==> g1_in_subgroup(#[trigger] s[i])
}

/// Whether every affine point of the sequence lies in the subgroup.
pub open spec fn g1a_all_in_subgroup(s: Seq<AffineG1>) -> bool {
    forall|i: int| 0 <= i < s.len() ==> g1a_in_subgroup(#[trigger] s[i])
}

/// Relies on UniformRand::rand for Projective: a uniformly random element of
/// the prime-order subgroup.  Nothing is assumed about its value.
#[verifier::external_body]
pub(crate) fn g1_rand(rng: &mut TestRng) -> (r: PointG1)
    ensures
        g1_log(r) < fr_order(),
        g1_in_subgroup(r),
{
    PointG1 { inner: G1Projective::rand(&mut rng.inner) }
}

/// Relies on Mul<Fr> for Projective: scalar multiplication multiplies the
/// discrete logarithm by the scalar.
#[verifier::external_body]
pub(crate) fn g1_mul(p: &PointG1, s: &Scalar) -> (r: PointG1)
    ensures
        g1_log(r) == mulm(fr_int(*s) as int, g1_log(*p) as int),
        g1_in_subgroup(*p) ==> g1_in_subgroup(r),
{
    PointG1 { inner: p.inner * s.inner }
}

/// Relies on Sub for Projective: group subtraction subtracts the logarithms.
#[verifier::external_body]
pub(crate) fn g1_sub(a: &PointG1, b: &PointG1) -> (r: PointG1)
    ensures
        g1_log(r) == subm(g1_log(*a) as int, g1_log(*b) as int),
        g1_in_subgroup(*a) && g1_in_subgroup(*b) ==> g1_in_subgroup(r),
{
    PointG1 { inner: a.inner - b.inner }
}

/// Relies on CurveGroup::into_affine: a change of coordinates only; the
/// group element, and so its logarithm, is unchanged.
#[verifier::external_body]
pub(crate) fn g1_to_affine(p: &PointG1) -> (r: AffineG1)
    ensures
        g1a_log(r) == g1_log(*p),
        g1_in_subgroup(*p) ==> g1a_in_subgroup(r),
{
    AffineG1 { inner: p.inner.into_affine() }
}

/// Relies on AffineRepr::into_group: a change of coordinates only.
#[verifier::external_body]
pub(crate) fn g1a_to_proj(p: &AffineG1) -> (r: PointG1)
    ensures
        g1_log(r) == g1a_log(*p),
        g1a_in_subgroup(*p) ==> g1_in_subgroup(r),
{
    PointG1 { inner: p.inner.into_group() }
}

/// Relies on Mul<Fr> for Affine: scalar multiplication multiplies the
/// discrete logarithm by the scalar.
#[verifier::external_body]
pub(crate) fn g1a_mul(p: &AffineG1, s: &Scalar) -> (r: PointG1)
    ensures
        g1_log(r) == mulm(fr_int(*s) as int, g1a_log(*p) as int),
        g1a_in_subgroup(*p) ==> g1_in_subgroup(r),
{
    PointG1 { inner: p.inner * s.inner }
}

/// Relies on AffineRepr::is_zero: a `true` answer means the point is the
/// group identity, whose discrete logarithm is 0.
#[verifier::external_body]
pub(crate) fn g1a_is_identity(p: &AffineG1) -> (r: bool)
    ensures
        r ==> g1a_log(*p) == 0,
{
    p.inner.is_zero()
}

/// Relies on VariableBaseMSM::msm for Projective: on equal-length inputs it
/// returns the linear combination of the bases by the scalars, whose
/// logarithm is the modular dot product of the logarithms.
#[verifier::external_body]
pub(crate) fn g1_msm(bases: &[AffineG1], scalars: &[Scalar]) -> (r: PointG1)
    requires
        bases@.len() == scalars@.len(),
    ensures
        g1_log(r) == dot_log(g1a_logs(bases@), frs(scalars@)),
        g1a_all_in_subgroup(bases@) ==> g1_in_subgroup(r),
{
    let raw_bases: Vec<G1Affine> = bases.iter().map(|p| p.inner).collect();
    let raw_scalars: Vec<ark_bls12_381::Fr> = scalars.iter().map(|s| s.inner).collect();
    PointG1 { inner: G1Projective::msm(&raw_bases, &raw_scalars).unwrap() }
}

/// Relies on UniformRand::rand for Projective: a uniformly random element of
/// the prime-order subgroup.  Nothing is assumed about its value.
#[verifier::external_body]
pub(crate) fn g2_rand(rng: &mut TestRng) -> (r: PointG2)
    ensures
        g2_log(r) < fr_order(),
        g2_in_subgroup(r),
{
    PointG2 { inner: G2Projective::rand(&mut rng.inner) }
}

/// Relies on Mul<Fr> for Projective: scalar multiplication multiplies the
/// discrete logarithm by the scalar.
#[verifier::external_body]
pub(crate) fn g2_mul(p: &PointG2, s: &Scalar) -> (r: PointG2)
    ensures
        g2_log(r) == mulm(fr_int(*s) as int, g2_log(*p) as int),
        g2_in_subgroup(*p) ==> g2_in_subgroup(r),
{
    PointG2 { inner: p.inner * s.inner }
}

/// Relies on Sub for Projective: group subtraction subtracts the logarithms.
#[verifier::external_body]
pub(crate) fn g2_sub(a: &PointG2, b: &PointG2) -> (r: PointG2)
    ensures
        g2_log(r) == subm(g2_log(*a) as int, g2_log(*b) as int),
        g2_in_subgroup(*a) && g2_in_subgroup(*b) ==> g2_in_subgroup(r),
{
    PointG2 { inner: a.inner - b.inner }
}

/// Relies on CurveGroup::into_affine: a change of coordinates only.
#[verifier::external_body]
pub(crate) fn g2_to_affine(p: &PointG2) -> (r: AffineG2)
    ensures
        g2a_log(r) == g2_log(*p),
        g2_in_subgroup(*p) ==> g2a_in_subgroup(r),
{
    AffineG2 { inner: p.inner.into_affine() }
}

/// Relies on AffineRepr::into_group: a change of coordinates only.
#[verifier::external_body]
pub(crate) fn g2a_to_proj(p: &AffineG2) -> (r: PointG2)
    ensures
        g2_log(r) == g2a_log(*p),
        g2a_in_subgroup(*p) ==> g2_in_subgroup(r),
{
    PointG2 { inner: p.inner.into_group() }
}

/// Relies on Mul<Fr> for Affine: scalar multiplication multiplies the
/// discrete logarithm by the scalar.
#[verifier::external_body]
pub(crate) fn g2a_mul(p: &AffineG2, s: &Scalar) -> (r: PointG2)
    ensures
        g2_log(r) == mulm(fr_int(*s) as int, g2a_log(*p) as int),
        g2a_in_subgroup(*p) ==> g2_in_subgroup(r),
{
    PointG2 { inner: p.inner * s.inner }
}

/// Relies on Pairing::pairing for Bls12_381: the pairing is bilinear on the
/// prime-order subgroups, so the logarithm of the output with respect to the
/// paired generators is the product of the input logarithms.
#[verifier::external_body]
pub(crate) fn pairing(a: &AffineG1, b: &AffineG2) -> (r: GtElem)
    requires
        g1a_in_subgroup(*a),
        g2a_in_subgroup(*b),
    ensures
        gt_log(r) == mulm(g1a_log(*a) as int, g2a_log(*b) as int),
        gt_in_subgroup(r),
{
    GtElem { inner: Bls12_381::pairing(a.inner, b.inner) }
}

/// Relies on PartialEq for PairingOutput: within the order-`fr_order()`
/// target subgroup the discrete logarithm is one-to-one, so elements are
/// equal exactly when their logarithms are.
#[verifier::external_body]
pub(crate) fn gt_eq(a: &GtElem, b: &GtElem) -> (r: bool)
    requires
        gt_in_subgroup(*a),
        gt_in_subgroup(*b),
    ensures
        r == (gt_log(*a) == gt_log(*b)),
{
    a.inner == b.inner
}

/// Whether an affine point is the group identity.
pub fn g1_point_is_identity(p: &AffineG1) -> (r: bool)
    ensures
        r ==> g1a_log(*p) == 0,
{
    g1a_is_identity(p)
}

} // verus!
