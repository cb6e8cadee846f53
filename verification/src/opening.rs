//! The verifier: one pairing equation decides an opening claim.  The
//! equation is the polynomial identity `P(X) - v = (X - z) * Q(X)`,
//! evaluated at the trapdoor in the exponent and compared through the
//! bilinear pairing.
use vstd::prelude::*;
use crate::math::{
    fr_order, addm, subm, mulm, pow_mod, dot_log, lemma_mulm_reduces, lemma_addm_reduces,
    lemma_subm_reduces, lemma_mulm_zero, lemma_pow_mod_adds,
};
use crate::field::fr_int;
use crate::group::{
    AffineG1, g1a_log, g1a_logs, g1a_in_subgroup, g2a_log, g1_sub, g1a_to_proj, g1a_mul,
    g1_to_affine, g2_sub, g2a_to_proj, g2a_mul, g2_to_affine, pairing, gt_eq,
};
use crate::poly::{
    poly_eval, quot_coeffs, lemma_quot_len, lemma_division_law, lemma_eval_shift_const,
    lemma_poly_eval_bound,
};
use crate::prover::{OpeningProof, shifted_coeffs};
use crate::setup::Setup;
use vstd::arithmetic::div_mod::{lemma_small_mod, lemma_mod_bound};

verus! {

pub struct Verifier<'a> {
    pub setup: &'a Setup,
}

/// The pairing check, written on discrete logarithms: with `G` the first
/// reference-string element and `H` the second-group generator,
/// `e(C - v*G, H) == e(proof, tau*H - z*H)`.
pub open spec fn accepts(setup: Setup, clog: nat, zv: nat, vv: nat, pflog: nat) -> bool {
    let glog = g1a_log(setup.srs_monomial_g1@[0]);
    let hlog = g2a_log(setup.g2);
    let thlog = g2a_log(setup.tau_g2);
    mulm(subm(clog as int, mulm(vv as int, glog as int) as int) as int, hlog as int) == mulm(
        pflog as int,
        subm(thlog as int, mulm(zv as int, hlog as int) as int) as int,
    )
}

impl<'a> Verifier<'a> {
    pub fn new(setup: &'a Setup) -> (r: Verifier<'a>)
        ensures
            r.setup == setup,
    {
        Verifier { setup }
    }

    /// Check an opening proof against a commitment.  A `false` answer is an
    /// ordinary protocol outcome, not an error.
    pub fn verify_opening(&self, commitment: &AffineG1, proof: &OpeningProof) -> (r: bool)
        requires
            self.setup.wf(),
            g1a_in_subgroup(*commitment),
            g1a_in_subgroup(proof.proof),
        ensures
            r == accepts(
                *self.setup,
                g1a_log(*commitment),
                fr_int(proof.point),
                fr_int(proof.evaluation),
                g1a_log(proof.proof),
            ),
    {
        proof {
            vstd::arithmetic::power2::lemma_pow2_pos(self.setup.config.log_n as nat);
        }
        let g1_gen = &self.setup.srs_monomial_g1[0];

        // Left side: C - v*G, paired with H.
        let left = g1_sub(&g1a_to_proj(commitment), &g1a_mul(g1_gen, &proof.evaluation));

        // Right side in the second group: tau*H - z*H.
        let right = g2_sub(
            &g2a_to_proj(&self.setup.tau_g2),
            &g2a_mul(&self.setup.g2, &proof.point),
        );

        let lhs = pairing(&g1_to_affine(&left), &self.setup.g2);
        let rhs = pairing(&proof.proof, &g2_to_affine(&right));
        gt_eq(&lhs, &rhs)
    }
}

/// Completeness of the pairing equation.  Suppose the commitment is the
/// generator behind `p_tau`, the proof element is the generator behind
/// `q_tau`, the second-group pair hides the trapdoor, and the committed
/// value splits at `z` as the division law gives it:
/// `p_tau = q_tau * (tau - z) + v`.  Then the verifier's equation holds:
/// an honestly produced opening is always accepted.
pub proof fn lemma_check_completeness(
    glog: nat,
    hlog: nat,
    tau: nat,
    zv: nat,
    vv: nat,
    p_tau: nat,
    q_tau: nat,
    clog: nat,
    pflog: nat,
    thlog: nat,
)
    requires
        p_tau == addm(mulm(q_tau as int, subm(tau as int, zv as int) as int) as int, vv as int),
        clog == mulm(glog as int, p_tau as int),
        pflog == mulm(glog as int, q_tau as int),
        thlog == mulm(tau as int, hlog as int),
    ensures
        mulm(subm(clog as int, mulm(vv as int, glog as int) as int) as int, hlog as int) == mulm(
            pflog as int,
            subm(thlog as int, mulm(zv as int, hlog as int) as int) as int,
        ),
{
    let m = fr_order() as int;
    let g = glog as int;
    let h = hlog as int;
    let t = tau as int;
    let z = zv as int;
    let v = vv as int;
    let q = q_tau as int;
    let x = q * (t - z) + v;

    // The reduced split value is `x % m`.
    assert(p_tau as int == x % m) by {
        lemma_mulm_reduces(q, t - z);
        lemma_addm_reduces(q * (t - z), v);
    }

    // The left pairing's logarithm is `(g*x - v*g) * h`, reduced.
    assert(clog as int == (g * x) % m) by {
        lemma_mulm_reduces(g, x);
    }
    assert(subm(clog as int, mulm(v, g) as int) as int == (g * x - v * g) % m) by {
        lemma_subm_reduces(g * x, v * g);
        lemma_subm_reduces((g * x) % m, v * g);
    }
    assert(mulm(subm(clog as int, mulm(v, g) as int) as int, h) as int == ((g * x - v * g) * h)
        % m) by {
        lemma_mulm_reduces(g * x - v * g, h);
    }

    // The right pairing's logarithm is `(g*q) * (t*h - z*h)`, reduced.
    assert(subm(thlog as int, mulm(z, h) as int) as int == (t * h - z * h) % m) by {
        lemma_subm_reduces(t * h, z * h);
        lemma_subm_reduces((t * h) % m, z * h);
    }
    assert(mulm(pflog as int, subm(thlog as int, mulm(z, h) as int) as int) as int == ((g * q) * (
    t * h - z * h)) % m) by {
        lemma_mulm_reduces(g * q, (t * h - z * h) % m);
        lemma_mulm_reduces(g * q, t * h - z * h);
    }

    // The two unreduced integers are equal.
    assert((g * x - v * g) * h == (g * q) * (t * h - z * h)) by (nonlinear_arith)
        requires
            x == q * (t - z) + v,
    ;
}

/// A linear combination over a power sequence commits to the polynomial's
/// value: if `bases[i]` is the generator `g` behind `t^(s+i)`, then the
/// combination of `bases` by `q` is `g` behind `t^s * q(t)`.
pub proof fn lemma_dot_powers(q: Seq<nat>, t: nat, g: nat, bases: Seq<nat>, s: nat)
    requires
        t < fr_order(),
        bases.len() == q.len(),
        forall|i: int|
            0 <= i < bases.len() ==> #[trigger] bases[i] == mulm(
                pow_mod(t, (s + i) as nat) as int,
                g as int,
            ),
    ensures
        dot_log(bases, q) == mulm(
            mulm(pow_mod(t, s) as int, g as int) as int,
            poly_eval(q, t) as int,
        ),
    decreases q.len(),
{
    let m = fr_order() as int;
    let p = pow_mod(t, s) as int;
    let gi = g as int;
    if q.len() == 0 {
        lemma_mulm_zero(mulm(p, gi) as int);
    } else {
        assert forall|i: int| 0 <= i < bases.drop_first().len() implies #[trigger] bases.drop_first()[i]
            == mulm(pow_mod(t, (s + 1 + i) as nat) as int, gi) by {
            assert(bases.drop_first()[i] == bases[i + 1]);
        }
        lemma_dot_powers(q.drop_first(), t, g, bases.drop_first(), s + 1);
        let q0 = q[0] as int;
        let e = poly_eval(q.drop_first(), t) as int;
        let p1 = pow_mod(t, (s + 1) as nat) as int;

        // The next power is `p * t`, reduced.
        assert(p1 == (p * (t as int)) % m) by {
            lemma_pow_mod_adds(t, s, 1);
            assert(pow_mod(t, 0) == 1);
            assert(pow_mod(t, 1) == mulm(1, t as int));
            assert(1 * (t as int) == t as int);
            lemma_small_mod(t, fr_order());
            lemma_mulm_reduces(p, t as int);
        }
        let ti = t as int;

        // Normalize the head term.
        assert(bases[0] as int == (p * gi) % m);
        assert(mulm(q0, bases[0] as int) as int == (q0 * (p * gi)) % m) by {
            lemma_mulm_reduces(p * gi, q0);
        }

        // Normalize the tail term from the induction hypothesis.
        assert(mulm(p1, gi) as int == ((p * ti) * gi) % m) by {
            lemma_mulm_reduces(p * ti, gi);
        }
        assert(mulm(mulm(p1, gi) as int, e) as int == (((p * ti) * gi) * e) % m) by {
            lemma_mulm_reduces((p * ti) * gi, e);
        }

        // The whole combination, unreduced.
        assert(dot_log(bases, q) as int == ((q0 * (p * gi)) + (((p * ti) * gi) * e)) % m) by {
            lemma_addm_reduces(q0 * (p * gi), ((p * ti) * gi) * e);
            lemma_addm_reduces(q0 * (p * gi), ((((p * ti) * gi) * e) % m));
        }

        // The claimed form, unreduced.
        assert(poly_eval(q, t) as int == (q0 + ti * e) % m) by {
            lemma_addm_reduces(q0, ti * e);
        }
        assert(mulm(mulm(p, gi) as int, poly_eval(q, t) as int) as int == ((p * gi) * (q0 + ti
            * e)) % m) by {
            lemma_mulm_reduces(p * gi, (q0 + ti * e) % m);
            lemma_mulm_reduces(p * gi, q0 + ti * e);
        }

        assert((q0 * (p * gi)) + (((p * ti) * gi) * e) == (p * gi) * (q0 + ti * e))
            by (nonlinear_arith);
    }
}

/// The opening-completeness law.  For a well-formed setup, any coefficient
/// vector whose quotient fits the reference string, and any point:
/// if the claimed value is the polynomial's value at the point, the proof
/// element commits to the synthetic quotient over the monomial string, and
/// the commitment is the generator behind the polynomial's value at the
/// trapdoor, then the verifier's pairing equation accepts.
#[verifier::rlimit(60)]
pub proof fn lemma_opening_accepted(
    setup: Setup,
    coeffs: Seq<nat>,
    zv: nat,
    vv: nat,
    pflog: nat,
    clog: nat,
)
    requires
        setup.wf(),
        1 <= coeffs.len(),
        coeffs.len() - 1 <= setup.config.two_n_spec(),
        vv == poly_eval(coeffs, zv),
        pflog == dot_log(
            g1a_logs(setup.srs_monomial_g1@.subrange(0, coeffs.len() - 1)),
            quot_coeffs(shifted_coeffs(coeffs, vv), zv),
        ),
        clog == mulm(
            g1a_log(setup.srs_monomial_g1@[0]) as int,
            poly_eval(coeffs, setup.trapdoor@) as int,
        ),
    ensures
        accepts(setup, clog, zv, vv, pflog),
{
    let m = fr_order() as int;
    let tau = setup.trapdoor@;
    let glog = g1a_log(setup.srs_monomial_g1@[0]);
    let hlog = g2a_log(setup.g2);
    let thlog = g2a_log(setup.tau_g2);
    let sh = shifted_coeffs(coeffs, vv);
    let q = quot_coeffs(sh, zv);
    let p_tau = poly_eval(coeffs, tau);
    let q_tau = poly_eval(q, tau);

    // The generator's logarithm is reduced: the reference string's first
    // entry carries the zeroth power.
    assert(setup.config.two_n_spec() > 0) by {
        vstd::arithmetic::power2::lemma_pow2_pos(setup.config.log_n as nat);
    }
    assert(glog < fr_order()) by {
        assert(pow_mod(tau, 0) == 1);
        assert(glog == mulm(pow_mod(tau, 0) as int, glog as int));
        assert(1 * (glog as int) == glog as int);
        assert(glog as int == (glog as int) % m);
        lemma_mod_bound(glog as int, m);
    }

    // The proof element commits to the quotient's value at the trapdoor.
    assert(sh.len() == coeffs.len());
    lemma_quot_len(sh, zv);
    let bases = g1a_logs(setup.srs_monomial_g1@.subrange(0, coeffs.len() - 1));
    assert forall|i: int| 0 <= i < bases.len() implies #[trigger] bases[i] == mulm(
        pow_mod(tau, (0 + i) as nat) as int,
        glog as int,
    ) by {
        assert(setup.srs_monomial_g1@.subrange(0, coeffs.len() - 1)[i]
            == setup.srs_monomial_g1@[i]);
    }
    lemma_dot_powers(q, tau, glog, bases, 0);
    assert(pflog == mulm(glog as int, q_tau as int)) by {
        assert(mulm(pow_mod(tau, 0) as int, glog as int) == glog) by {
            assert(pow_mod(tau, 0) == 1);
            assert(1 * (glog as int) == glog as int);
            lemma_small_mod(glog, fr_order());
        }
        lemma_mulm_reduces(glog as int, q_tau as int);
        assert(mulm(mulm(pow_mod(tau, 0) as int, glog as int) as int, q_tau as int) == mulm(
            glog as int,
            q_tau as int,
        ));
    }

    // The division law at the trapdoor, through the constant-term shift.
    lemma_division_law(sh, zv, tau);
    lemma_eval_shift_const(coeffs, vv, tau);
    lemma_eval_shift_const(coeffs, vv, zv);
    assert(poly_eval(sh, zv) == 0) by {
        assert(poly_eval(sh, zv) == subm(vv as int, vv as int));
        lemma_small_mod(0, fr_order());
    }
    let big_m = mulm(q_tau as int, subm(tau as int, zv as int) as int);
    assert(poly_eval(sh, tau) == big_m) by {
        assert(poly_eval(sh, tau) == addm(big_m as int, 0));
        lemma_mod_bound(q_tau as int * subm(tau as int, zv as int) as int, m);
        lemma_small_mod(big_m, fr_order());
    }
    assert(subm(p_tau as int, vv as int) == big_m);

    // Recover the unsplit value: `p_tau = q_tau * (tau - z) + v`, reduced.
    assert(p_tau == addm(big_m as int, vv as int)) by {
        lemma_addm_reduces(p_tau as int - vv as int, vv as int);
        assert(addm(p_tau as int - vv as int, vv as int) == (p_tau as int) % m) by {
            lemma_mod_bound(p_tau as int - vv as int + vv as int, m);
        }
        lemma_poly_eval_bound(coeffs, tau);
        lemma_small_mod(p_tau, fr_order());
    }

    // The second-group pair hides the trapdoor, so the equation closes.
    lemma_check_completeness(glog, hlog, tau, zv, vv, p_tau, q_tau, clog, pflog, thlog);
}

} // verus!
