//! The FFT evaluation domain: conversion between the coefficient and the
//! evaluation form of a vector, over the scalar field and, by the same
//! linear map, over the first source group.
//!
//! The transforms themselves are the `ark-poly` crate's; the names `fft_of`
//! and `ifft_of` stand for their results, and the wrappers state that the
//! two are mutually inverse on vectors of the domain's size, which is the
//! pair's defining property.
use vstd::prelude::*;
use vstd::arithmetic::power2::{pow2, is_pow2, lemma_pow2_unfold, lemma_pow2_strictly_increases};
use crate::field::{Scalar, frs};
use crate::group::{PointG1, g1_logs, g1_all_in_subgroup};
use crate::errors::ProtocolError;
use ark_bls12_381::Fr;
use ark_poly::{EvaluationDomain, Radix2EvaluationDomain};

verus! {

/// An FFT evaluation domain of power-of-two size over the scalar field.
#[verifier::external_body]
pub struct Domain {
    inner: Radix2EvaluationDomain<Fr>,
}

/// The number of points of the domain.
pub uninterp spec fn domain_size_of(d: Domain) -> nat;

/// What the forward transform of size `n` returns on a vector of field
/// values: the evaluations, over the size-`n` domain, of the polynomial
/// with those coefficients.
pub uninterp spec fn fft_of(n: nat, v: Seq<nat>) -> Seq<nat>;

/// What the inverse transform of size `n` returns: the coefficients of the
/// polynomial whose evaluations over the size-`n` domain are `v`.
pub uninterp spec fn ifft_of(n: nat, v: Seq<nat>) -> Seq<nat>;

/// A domain size the scalar field supports: a power of two within the
/// two-adicity of its multiplicative group.
pub open spec fn supported_domain(n: nat) -> bool {
    is_pow2(n as int) && n <= pow2(32)
}

/// Relies on EvaluationDomain::new for Radix2EvaluationDomain: for a
/// power-of-two size within the field's two-adicity, `2^32`, the domain
/// exists and has exactly the requested size.
#[verifier::external_body]
pub(crate) fn domain_new(size: usize) -> (r: Domain)
    requires
        exists|k: nat| k <= 32 && size == pow2(k),
    ensures
        domain_size_of(r) == size,
{
    Domain { inner: Radix2EvaluationDomain::<Fr>::new(size).unwrap() }
}

/// Relies on EvaluationDomain::fft_in_place: the forward transform of the
/// input; on a vector of the domain's size the inverse transform undoes it.
#[verifier::external_body]
pub(crate) fn fft_field(d: &Domain, v: &Vec<Scalar>) -> (r: Vec<Scalar>)
    requires
        v@.len() == domain_size_of(*d),
    ensures
        r@.len() == v@.len(),
        frs(r@) == fft_of(domain_size_of(*d), frs(v@)),
        ifft_of(domain_size_of(*d), frs(r@)) == frs(v@),
{
    let mut c: Vec<Fr> = v.iter().map(|s| s.inner).collect();
    d.inner.fft_in_place(&mut c);
    c.into_iter().map(|x| Scalar { inner: x }).collect()
}

/// Relies on EvaluationDomain::ifft_in_place: the inverse transform of the
/// input; on a vector of the domain's size the forward transform undoes it.
#[verifier::external_body]
pub(crate) fn ifft_field(d: &Domain, v: &Vec<Scalar>) -> (r: Vec<Scalar>)
    requires
        v@.len() == domain_size_of(*d),
    ensures
        r@.len() == v@.len(),
        frs(r@) == ifft_of(domain_size_of(*d), frs(v@)),
        fft_of(domain_size_of(*d), frs(r@)) == frs(v@),
{
    let mut c: Vec<Fr> = v.iter().map(|s| s.inner).collect();
    d.inner.ifft_in_place(&mut c);
    c.into_iter().map(|x| Scalar { inner: x }).collect()
}

/// Relies on EvaluationDomain::ifft_in_place on group elements: the same
/// linear combination as over field elements, taken with group operations,
/// so on discrete logarithms it acts exactly as `ifft_of` does on field
/// representatives, and it keeps every point in the subgroup.
#[verifier::external_body]
pub(crate) fn ifft_group(d: &Domain, v: &Vec<PointG1>) -> (r: Vec<PointG1>)
    requires
        v@.len() == domain_size_of(*d),
    ensures
        r@.len() == v@.len(),
        g1_logs(r@) == ifft_of(domain_size_of(*d), g1_logs(v@)),
        g1_all_in_subgroup(v@) ==> g1_all_in_subgroup(r@),
{
    let mut c: Vec<ark_bls12_381::G1Projective> = v.iter().map(|p| p.inner).collect();
    d.inner.ifft_in_place(&mut c);
    c.into_iter().map(|x| PointG1 { inner: x }).collect()
}

/// The exact base-two logarithm of `n`, or `None` when `n` is not a power
/// of two.
pub fn log2_exact(n: usize) -> (r: Option<u32>)
    ensures
        match r {
            Some(k) => n == pow2(k as nat) && k < 64,
            None => !is_pow2(n as int),
        },
{
    proof {
        reveal(is_pow2);
    }
    if n == 0 {
        return None;
    }
    let mut m: usize = n;
    let mut k: u32 = 0;
    proof {
        vstd::arithmetic::power2::lemma2_to64();
    }
    while m > 1
        invariant
            1 <= m <= n,
            k < 64,
            n == m * pow2(k as nat),
            is_pow2(n as int) == is_pow2(m as int),
        decreases m,
    {
        proof {
            reveal(is_pow2);
        }
        if m % 2 == 1 {
            return None;
        }
        proof {
            lemma_pow2_unfold((k + 1) as nat);
            assert(n == (m / 2) * pow2((k + 1) as nat)) by (nonlinear_arith)
                requires
                    n == m * pow2(k as nat),
                    m % 2 == 0,
                    pow2((k + 1) as nat) == 2 * pow2(k as nat),
                    m >= 2,
            ;
            if k as nat + 1 >= 64 {
                assert(pow2(64) <= n) by (nonlinear_arith)
                    requires
                        n == (m / 2) * pow2(64),
                        m / 2 >= 1,
                ;
                vstd::layout::unsigned_int_max_values();
                vstd::arithmetic::power2::lemma2_to64_rest();
                assert(usize::BITS == 32 || usize::BITS == 64);
                assert(false);
            }
        }
        m = m / 2;
        k = k + 1;
    }
    proof {
        reveal(is_pow2);
        assert(m == 1);
        assert(n == pow2(k as nat));
    }
    Some(k)
}

/// The forward transform: from coefficients to evaluations over the domain
/// of the vector's size.
pub fn forward_transform(v: &Vec<Scalar>) -> (r: Result<Vec<Scalar>, ProtocolError>)
    ensures
        r is Ok <==> supported_domain(v@.len()),
        r is Err ==> r->Err_0 == ProtocolError::InvalidDomainSize,
        r is Ok ==> {
            &&& r->Ok_0@.len() == v@.len()
            &&& frs(r->Ok_0@) == fft_of(v@.len() as nat, frs(v@))
            &&& ifft_of(v@.len() as nat, frs(r->Ok_0@)) == frs(v@)
        },
{
    let d = match checked_domain(v.len()) {
        Some(d) => d,
        None => {
            return Err(ProtocolError::InvalidDomainSize);
        },
    };
    Ok(fft_field(&d, v))
}

/// The inverse transform: from evaluations over the domain of the vector's
/// size back to coefficients.
pub fn inverse_transform(v: &Vec<Scalar>) -> (r: Result<Vec<Scalar>, ProtocolError>)
    ensures
        r is Ok <==> supported_domain(v@.len()),
        r is Err ==> r->Err_0 == ProtocolError::InvalidDomainSize,
        r is Ok ==> {
            &&& r->Ok_0@.len() == v@.len()
            &&& frs(r->Ok_0@) == ifft_of(v@.len() as nat, frs(v@))
            &&& fft_of(v@.len() as nat, frs(r->Ok_0@)) == frs(v@)
        },
{
    let d = match checked_domain(v.len()) {
        Some(d) => d,
        None => {
            return Err(ProtocolError::InvalidDomainSize);
        },
    };
    Ok(ifft_field(&d, v))
}

/// The two transforms are mutually inverse: applying the forward and then
/// the inverse transform to any vector of a supported size returns the
/// vector unchanged.
pub fn transform_round_trip(v: &Vec<Scalar>) -> (r: Result<Vec<Scalar>, ProtocolError>)
    ensures
        r is Ok <==> supported_domain(v@.len()),
        r is Ok ==> frs(r->Ok_0@) == frs(v@),
{
    let w = forward_transform(v)?;
    inverse_transform(&w)
}

/// The domain for `size` points, when `size` is a supported power of two.
pub(crate) fn checked_domain(size: usize) -> (r: Option<Domain>)
    ensures
        r is Some <==> supported_domain(size as nat),
        r is Some ==> domain_size_of(r->Some_0) == size,
{
    match log2_exact(size) {
        Some(k) => {
            if k <= 32 {
                proof {
                    vstd::arithmetic::power::lemma_pow_positive(2, k as nat);
                    assert(is_pow2(size as int)) by {
                        broadcast use vstd::arithmetic::power2::is_pow2_equiv;

                        assert(vstd::arithmetic::power::pow(2, k as nat) == size as int);
                        assert(vstd::arithmetic::power2::is_pow2_exists(size as int));
                    }
                    if (k as nat) < 32 {
                        lemma_pow2_strictly_increases(k as nat, 32);
                    }
                    assert(exists|j: nat| j <= 32 && size == pow2(j)) by {
                        assert(k as nat <= 32 && size == pow2(k as nat));
                    }
                }
                Some(domain_new(size))
            } else {
                proof {
                    lemma_pow2_strictly_increases(32, k as nat);
                }
                None
            }
        },
        None => None,
    }
}

} // verus!
