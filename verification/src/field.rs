//! Trusted interface to the BLS12-381 scalar field of the `ark-bls12-381`
//! crate.  Verus refuses a declaration of `ark_ff::Fp` itself (its generic
//! parameter is bound by the foreign trait `FpConfig`), so a scalar is held
//! in an opaque struct of this crate.  Every element is modelled by
//! `fr_int`, its canonical integer representative in `[0, fr_order())`; the
//! arithmetic wrappers state how the crate's field operations act on that
//! representative.
use vstd::prelude::*;
use crate::math::{fr_order, addm, subm, mulm};
use ark_bls12_381::Fr;
use ark_ff::{One, Zero, UniformRand, PrimeField};
use ark_serialize::CanonicalSerialize;
use ark_std::rand::SeedableRng;
use ark_std::rand::rngs::StdRng;
use sha2::{Digest, Sha256};

verus! {

/// An element of the BLS12-381 scalar field.
#[verifier::external_body]
pub struct Scalar {
    pub(crate) inner: Fr,
}

/// A pseudorandom generator handle for sampling field and group elements.
#[verifier::external_body]
pub struct TestRng {
    pub(crate) inner: StdRng,
}

/// The canonical integer representative of a scalar-field element.
pub uninterp spec fn fr_int(x: Scalar) -> nat;

/// The representatives of a sequence of field elements.
pub open spec fn frs(s: Seq<Scalar>) -> Seq<nat> {
    Seq::new(s.len(), |i: int| fr_int(s[i]))
}

/// Relies on rand's StdRng::seed_from_u64: a deterministic pseudorandom
/// stream, as the reference generator of ark-std's test helpers.  Nothing is
/// assumed about the values drawn from it.
#[verifier::external_body]
pub(crate) fn new_rng() -> TestRng {
    TestRng { inner: StdRng::seed_from_u64(0) }
}

/// Relies on UniformRand::rand for Fp: the sample is a reduced field
/// element.  Nothing is assumed about its value beyond that.
#[verifier::external_body]
pub(crate) fn fr_rand(rng: &mut TestRng) -> (r: Scalar)
    ensures
        fr_int(r) < fr_order(),
{
    Scalar { inner: Fr::rand(&mut rng.inner) }
}

/// Relies on Zero::zero for Fp: the additive identity, representative 0.
#[verifier::external_body]
pub(crate) fn fr_zero() -> (r: Scalar)
    ensures
        fr_int(r) == 0,
{
    Scalar { inner: Fr::zero() }
}

/// Relies on One::one for Fp: the multiplicative identity, representative 1.
#[verifier::external_body]
pub(crate) fn fr_one() -> (r: Scalar)
    ensures
        fr_int(r) == 1,
{
    Scalar { inner: Fr::one() }
}

/// Relies on Add for Fp: field addition of the representatives.
#[verifier::external_body]
pub(crate) fn fr_add(a: &Scalar, b: &Scalar) -> (r: Scalar)
    ensures
        fr_int(r) == addm(fr_int(*a) as int, fr_int(*b) as int),
{
    Scalar { inner: a.inner + b.inner }
}

/// Relies on Sub for Fp: field subtraction of the representatives.
#[verifier::external_body]
pub(crate) fn fr_sub(a: &Scalar, b: &Scalar) -> (r: Scalar)
    ensures
        fr_int(r) == subm(fr_int(*a) as int, fr_int(*b) as int),
{
    Scalar { inner: a.inner - b.inner }
}

/// Relies on Mul for Fp: field multiplication of the representatives.
#[verifier::external_body]
pub(crate) fn fr_mul(a: &Scalar, b: &Scalar) -> (r: Scalar)
    ensures
        fr_int(r) == mulm(fr_int(*a) as int, fr_int(*b) as int),
{
    Scalar { inner: a.inner * b.inner }
}

/// Relies on Fp being a plain copy type: duplicating a scalar preserves its
/// value.
#[verifier::external_body]
pub(crate) fn fr_dup(a: &Scalar) -> (r: Scalar)
    ensures
        fr_int(r) == fr_int(*a),
{
    Scalar { inner: a.inner }
}

/// Relies on PartialEq for Fp: elements are kept in canonical form, so
/// equality of elements is equality of representatives.
#[verifier::external_body]
pub(crate) fn fr_eq(a: &Scalar, b: &Scalar) -> (r: bool)
    ensures
        r == (fr_int(*a) == fr_int(*b)),
{
    a.inner == b.inner
}

/// The field element that the witness-hashing step assigns to an input
/// element: the SHA-256 digest of its canonical bytes, reduced into the
/// field.  It depends on the input's value alone.
pub uninterp spec fn h2f(x: nat) -> nat;

/// Relies on CanonicalSerialize::serialize_compressed for Fp, Sha256, and
/// PrimeField::from_be_bytes_mod_order: the digest of the element's canonical
/// byte encoding, interpreted big-endian and reduced modulo the field order.
/// The result is a function of the element's value alone.
#[verifier::external_body]
pub(crate) fn hash_to_field(x: &Scalar) -> (r: Scalar)
    ensures
        fr_int(r) == h2f(fr_int(*x)),
        fr_int(r) < fr_order(),
{
    let mut hasher = Sha256::new();
    let mut bytes = Vec::new();
    x.inner.serialize_compressed(&mut bytes).unwrap();
    hasher.update(&bytes);
    Scalar { inner: Fr::from_be_bytes_mod_order(&hasher.finalize()) }
}

/// A fresh generator for sampling; the library's only entropy source.
pub fn new_test_rng() -> TestRng {
    new_rng()
}

/// Draw one uniformly random scalar.
pub fn sample_scalar(rng: &mut TestRng) -> (r: Scalar)
    ensures
        fr_int(r) < fr_order(),
{
    fr_rand(rng)
}

/// Whether two scalars are the same field element.
pub fn scalar_eq(a: &Scalar, b: &Scalar) -> (r: bool)
    ensures
        r == (fr_int(*a) == fr_int(*b)),
{
    fr_eq(a, b)
}

/// The field's zero.
pub fn scalar_zero() -> (r: Scalar)
    ensures
        fr_int(r) == 0,
{
    fr_zero()
}

/// The field's one.
pub fn scalar_one() -> (r: Scalar)
    ensures
        fr_int(r) == 1,
{
    fr_one()
}

/// The sum of two scalars.
pub fn scalar_add(a: &Scalar, b: &Scalar) -> (r: Scalar)
    ensures
        fr_int(r) == addm(fr_int(*a) as int, fr_int(*b) as int),
{
    fr_add(a, b)
}

/// The difference of two scalars.
pub fn scalar_sub(a: &Scalar, b: &Scalar) -> (r: Scalar)
    ensures
        fr_int(r) == subm(fr_int(*a) as int, fr_int(*b) as int),
{
    fr_sub(a, b)
}

/// The product of two scalars.
pub fn scalar_mul(a: &Scalar, b: &Scalar) -> (r: Scalar)
    ensures
        fr_int(r) == mulm(fr_int(*a) as int, fr_int(*b) as int),
{
    fr_mul(a, b)
}

/// The one-way binding map of the witness-hashing step: hash the scalar's
/// canonical bytes and reduce the digest into the field.
pub fn hash_witness(x: &Scalar) -> (r: Scalar)
    ensures
        fr_int(r) == h2f(fr_int(*x)),
        fr_int(r) < fr_order(),
{
    hash_to_field(x)
}

} // verus!
