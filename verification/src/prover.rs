//! The prover: derives a witness, commits to its blinded, transformed image
//! under the Lagrange reference string, and opens the committed polynomial
//! at arbitrary points with a quotient-commitment proof.
use vstd::prelude::*;
use crate::math::{fr_order, subm, mulm, dot_log};
use crate::field::{Scalar, fr_int, frs, fr_zero, fr_mul, fr_sub, fr_eq, fr_rand, new_rng, hash_to_field};
use crate::group::{
    PointG1, AffineG1, g1_log, g1a_log, g1_logs, g1a_logs, g1a_in_subgroup, g1_in_subgroup, g1_all_in_subgroup,
    g1a_all_in_subgroup, g1_to_affine, g1_msm,
};
use crate::domain::{fft_of, ifft_of, supported_domain, checked_domain, domain_new, fft_field,
    ifft_field};
use crate::poly::{poly_eval, quot_coeffs, hadamard, eval_poly, divide_by_linear,
    lemma_eval_shift_const};
use crate::setup::Setup;
use crate::errors::ProtocolError;
use vstd::slice::slice_subrange;

verus! {

/// A claim that the committed polynomial takes `evaluation` at `point`,
/// with the quotient commitment as evidence.
pub struct OpeningProof {
    /// The evaluation point.
    pub point: Scalar,
    /// The claimed evaluation.
    pub evaluation: Scalar,
    /// The proof element: a commitment to the quotient polynomial.
    pub proof: AffineG1,
}

/// The shifted coefficient vector whose quotient the opening proof commits
/// to: `c` with its claimed value at the point removed from the constant
/// term.
pub open spec fn shifted_coeffs(c: Seq<nat>, v: nat) -> Seq<nat> {
    c.update(0, subm(c[0] as int, v as int))
}

pub struct Prover<'a> {
    pub setup: &'a Setup,
}

impl<'a> Prover<'a> {
    pub fn new(setup: &'a Setup) -> (r: Prover<'a>)
        ensures
            r.setup == setup,
    {
        Prover { setup }
    }

    /// Derive a fresh witness, bind each entry by hashing it into the
    /// field, zero-pad, transform to evaluation form, blind it pointwise,
    /// and commit with one multi-scalar multiplication over the Lagrange
    /// reference string.  Returns the commitment and the blinded
    /// evaluation-form vector, which later openings take as the polynomial.
    pub fn prove(&self) -> (r: (AffineG1, Vec<Scalar>))
        requires
            self.setup.wf(),
        ensures
            r.1@.len() == self.setup.config.two_n_spec(),
            g1a_log(r.0) == dot_log(g1_logs(self.setup.srs_lagrange_g1@), frs(r.1@)),
            g1a_in_subgroup(r.0),
            exists|hs: Seq<nat>|
                {
                    &&& hs.len() == self.setup.config.two_n_spec()
                    &&& forall|i: int|
                        self.setup.config.n_spec() <= i < hs.len() ==> #[trigger] hs[i] == 0
                    &&& frs(r.1@) == hadamard(
                        frs(self.setup.c_eval@),
                        fft_of(self.setup.config.two_n_spec(), hs),
                    )
                },
    {
        let n = self.setup.config.n();
        let two_n = self.setup.config.two_n();
        let mut rng = new_rng();

        // 1. The witness: fresh uniform field elements.
        let mut x_values: Vec<Scalar> = Vec::new();
        let mut i: usize = 0;
        while i < n
            invariant
                i <= n,
                x_values@.len() == i,
            decreases n - i,
        {
            x_values.push(fr_rand(&mut rng));
            i = i + 1;
        }

        // 2. Bind each witness entry with the hash-to-field map.
        let mut f_values: Vec<Scalar> = Vec::new();
        let mut i: usize = 0;
        while i < n
            invariant
                i <= n,
                x_values@.len() == n,
                f_values@.len() == i,
            decreases n - i,
        {
            f_values.push(hash_to_field(&x_values[i]));
            i = i + 1;
        }

        // 3. Zero-pad to the domain size.
        let mut padded = f_values;
        while padded.len() < two_n
            invariant
                n <= two_n,
                n <= padded@.len() <= two_n,
                forall|i: int| n <= i < padded@.len() ==> fr_int(#[trigger] padded@[i]) == 0,
            decreases two_n - padded@.len(),
        {
            padded.push(fr_zero());
        }

        // 4. Forward transform to evaluation form.
        proof {
            vstd::arithmetic::power2::lemma_pow2_unfold((self.setup.config.log_n + 1) as nat);
            let kk = (self.setup.config.log_n + 1) as nat;
            assert(kk <= 32 && two_n == vstd::arithmetic::power2::pow2(kk));
        }
        let d = domain_new(two_n);
        let f_eval = fft_field(&d, &padded);

        // 5. The Hadamard blinding.
        let mut blinded: Vec<Scalar> = Vec::new();
        let mut i: usize = 0;
        while i < two_n
            invariant
                i <= two_n,
                f_eval@.len() == two_n,
                self.setup.c_eval@.len() == two_n,
                blinded@.len() == i,
                forall|j: int|
                    0 <= j < i ==> fr_int(#[trigger] blinded@[j]) == mulm(
                        fr_int(self.setup.c_eval@[j]) as int,
                        fr_int(f_eval@[j]) as int,
                    ),
            decreases two_n - i,
        {
            blinded.push(fr_mul(&self.setup.c_eval[i], &f_eval[i]));
            i = i + 1;
        }

        // 6. One multi-scalar multiplication over the Lagrange string.
        let mut lagrange_affine: Vec<AffineG1> = Vec::new();
        let mut i: usize = 0;
        while i < two_n
            invariant
                i <= two_n,
                self.setup.srs_lagrange_g1@.len() == two_n,
                g1_all_in_subgroup(self.setup.srs_lagrange_g1@),
                lagrange_affine@.len() == i,
                forall|j: int|
                    0 <= j < i ==> g1a_log(#[trigger] lagrange_affine@[j]) == g1_log(
                        self.setup.srs_lagrange_g1@[j],
                    ),
                g1a_all_in_subgroup(lagrange_affine@),
            decreases two_n - i,
        {
            lagrange_affine.push(g1_to_affine(&self.setup.srs_lagrange_g1[i]));
            i = i + 1;
        }
        let commitment = g1_msm(lagrange_affine.as_slice(), blinded.as_slice());
        let commitment_affine = g1_to_affine(&commitment);

        proof {
            assert(g1a_logs(lagrange_affine@) =~= g1_logs(self.setup.srs_lagrange_g1@));
            let hs = frs(padded@);
            assert(hs.len() == self.setup.config.two_n_spec());
            assert(frs(blinded@) =~= hadamard(
                frs(self.setup.c_eval@),
                fft_of(self.setup.config.two_n_spec(), hs),
            ));
        }
        (commitment_affine, blinded)
    }

    /// Open the committed polynomial, given in evaluation form, at `point`:
    /// recover the coefficients, evaluate, divide out the root, and commit
    /// to the quotient over the monomial reference string.
    pub fn create_opening_proof(&self, polynomial_evals: &Vec<Scalar>, point: Scalar) -> (r:
        Result<OpeningProof, ProtocolError>)
        requires
            self.setup.wf(),
        ensures
            ({
                let len = polynomial_evals@.len();
                let coeffs = ifft_of(len as nat, frs(polynomial_evals@));
                let zv = fr_int(point);
                &&& (r is Ok <==> supported_domain(len as nat) && len - 1
                    <= self.setup.srs_monomial_g1@.len())
                &&& (!supported_domain(len as nat) ==> r is Err && r->Err_0
                    == ProtocolError::InvalidDomainSize)
                &&& (supported_domain(len as nat) && len - 1 > self.setup.srs_monomial_g1@.len()
                    ==> r is Err && r->Err_0 == ProtocolError::DegreeTooLarge)
                &&& (r is Ok ==> {
                    let pf = r->Ok_0;
                    &&& pf.point == point
                    &&& fr_int(pf.evaluation) == poly_eval(coeffs, zv)
                    &&& g1a_log(pf.proof) == dot_log(
                        g1a_logs(self.setup.srs_monomial_g1@.subrange(0, len - 1)),
                        quot_coeffs(shifted_coeffs(coeffs, poly_eval(coeffs, zv)), zv),
                    )
                    &&& g1a_in_subgroup(pf.proof)
                })
            }),
    {
        // Recover the coefficient form over the matching domain.
        let d = match checked_domain(polynomial_evals.len()) {
            Some(d) => d,
            None => {
                return Err(ProtocolError::InvalidDomainSize);
            },
        };
        let coeffs = ifft_field(&d, polynomial_evals);
        proof {
            reveal(vstd::arithmetic::power2::is_pow2);
        }
        assert(coeffs@.len() >= 1);

        // Evaluate at the requested point.
        let evaluation = eval_poly(&coeffs, &point);

        // Remove the value from the constant term, so that `point` becomes
        // a root, and divide out the monic linear factor exactly.
        let mut shifted = coeffs;
        let c0 = fr_sub(&shifted[0], &evaluation);
        shifted.set(0, c0);
        let (quotient, rem) = divide_by_linear(&shifted, &point);

        // The remainder is the shifted polynomial's value at the point,
        // which vanishes by construction; a nonzero remainder would mean
        // the evaluation and the coefficients disagree.
        proof {
            let cv = ifft_of(polynomial_evals@.len() as nat, frs(polynomial_evals@));
            assert(frs(shifted@) =~= shifted_coeffs(cv, poly_eval(cv, fr_int(point))));
            lemma_eval_shift_const(cv, poly_eval(cv, fr_int(point)), fr_int(point));
            let pe = poly_eval(cv, fr_int(point)) as int;
            assert(subm(pe, pe) == 0) by {
                vstd::arithmetic::div_mod::lemma_small_mod(0, fr_order());
            }
        }
        let zero = fr_zero();
        if !fr_eq(&rem, &zero) {
            return Err(ProtocolError::ExactDivisionFailure);
        }

        // Commit to the quotient under the monomial reference string.
        if quotient.len() > self.setup.srs_monomial_g1.len() {
            return Err(ProtocolError::DegreeTooLarge);
        }
        let bases = slice_subrange(self.setup.srs_monomial_g1.as_slice(), 0, quotient.len());
        let proof_point = g1_msm(bases, quotient.as_slice());
        proof {
            assert(g1a_all_in_subgroup(bases@)) by {
                assert(forall|j: int|
                    0 <= j < bases@.len() ==> bases@[j] == self.setup.srs_monomial_g1@[j]);
            }
        }
        Ok(
            OpeningProof {
                point,
                evaluation,
                proof: g1_to_affine(&proof_point),
            },
        )
    }

    /// The multi-scalar multiplication at the heart of both commitments:
    /// the linear combination of `bases` by `scalars`, which fails exactly
    /// on mismatched lengths.
    pub fn efficient_msm(bases: &Vec<AffineG1>, scalars: &Vec<Scalar>) -> (r: Result<
        PointG1,
        ProtocolError,
    >)
        ensures
            r is Ok <==> bases@.len() == scalars@.len(),
            r is Err ==> r->Err_0 == ProtocolError::LengthMismatch,
            r is Ok ==> g1_log(r->Ok_0) == dot_log(g1a_logs(bases@), frs(scalars@)),
            r is Ok && g1a_all_in_subgroup(bases@) ==> g1_in_subgroup(r->Ok_0),
    {
        if bases.len() != scalars.len() {
            return Err(ProtocolError::LengthMismatch);
        }
        Ok(g1_msm(bases.as_slice(), scalars.as_slice()))
    }
}

} // verus!
