//! The trusted-setup phase: from a secret scalar it derives the structured
//! reference string in monomial and Lagrange bases, a fresh pair of
//! second-group elements, and a random blinding vector.  The secret exists
//! only inside the constructor; what the finished `Setup` remembers of it is
//! a specification-level record, erased at compile time.
use vstd::prelude::*;
use vstd::arithmetic::power2::pow2;
use crate::math::{fr_order, mulm, pow_mod, lemma_pow_mod_adds, lemma_pow_mod_bound};
use crate::config::Config;
use crate::field::{Scalar, fr_int, fr_one, fr_mul, fr_rand, new_rng};
use crate::group::{
    PointG1, AffineG1, AffineG2, g1_log, g1a_log, g2a_log, g1_logs, g1a_logs, g1_in_subgroup,
    g2a_in_subgroup, g1_all_in_subgroup, g1a_all_in_subgroup, g1_rand, g1_mul, g1_to_affine,
    g2_rand, g2_mul, g2_to_affine,
};
use crate::domain::{ifft_of, ifft_group, domain_new};
use crate::errors::ProtocolError;

verus! {

/// The public parameters of one protocol run.
pub struct Setup {
    /// The reference string in the Lagrange basis: `two_n` first-group
    /// elements, kept in projective form.
    pub srs_lagrange_g1: Vec<PointG1>,
    /// The reference string in the monomial basis, in affine form.
    pub srs_monomial_g1: Vec<AffineG1>,
    /// The freshly sampled second-group generator.
    pub g2: AffineG2,
    /// The generator raised to the secret scalar.
    pub tau_g2: AffineG2,
    /// The random blinding vector, one scalar per domain point.
    pub c_eval: Vec<Scalar>,
    /// The sizing this setup was built for.
    pub config: Config,
    /// The specification-level record of the secret scalar.  It has no
    /// run-time presence: the secret itself dies with the constructor.
    pub trapdoor: Ghost<nat>,
}

impl Setup {
    /// The structural invariant of a setup: every vector has the domain's
    /// length, every group element lies in the prime-order subgroup, the
    /// monomial string is the powers of the trapdoor behind one generator,
    /// the Lagrange string is its inverse transform, and the second-group
    /// pair hides the same trapdoor.
    pub open spec fn wf(self) -> bool {
        let two_n = self.config.two_n_spec();
        &&& self.config.wf()
        &&& self.srs_monomial_g1@.len() == two_n
        &&& self.srs_lagrange_g1@.len() == two_n
        &&& self.c_eval@.len() == two_n
        &&& self.trapdoor@ < fr_order()
        &&& g1a_all_in_subgroup(self.srs_monomial_g1@)
        &&& g1_all_in_subgroup(self.srs_lagrange_g1@)
        &&& g2a_in_subgroup(self.g2)
        &&& g2a_in_subgroup(self.tau_g2)
        &&& forall|i: int|
            0 <= i < two_n ==> g1a_log(#[trigger] self.srs_monomial_g1@[i]) == mulm(
                pow_mod(self.trapdoor@, i as nat) as int,
                g1a_log(self.srs_monomial_g1@[0]) as int,
            )
        &&& g1_logs(self.srs_lagrange_g1@) == ifft_of(two_n, g1a_logs(self.srs_monomial_g1@))
        &&& g2a_log(self.tau_g2) == mulm(self.trapdoor@ as int, g2a_log(self.g2) as int)
        &&& forall|i: int| 0 <= i < two_n ==> fr_int(#[trigger] self.c_eval@[i]) < fr_order()
    }

    /// Generate the public parameters for `config` from fresh randomness.
    /// Fails exactly when the configuration's domain size is unsupported.
    pub fn new(config: Config) -> (r: Result<Setup, ProtocolError>)
        ensures
            r is Ok <==> config.wf(),
            r is Err ==> r->Err_0 == ProtocolError::InvalidDomainSize,
            r is Ok ==> r->Ok_0.wf() && r->Ok_0.config == config,
    {
        if config.log_n < 1 || config.log_n > 31 || (usize::BITS as usize) < config.log_n + 2 {
            return Err(ProtocolError::InvalidDomainSize);
        }
        let two_n = config.two_n();
        let mut rng = new_rng();

        // 1. The secret scalar; it never leaves this constructor.
        let tau = fr_rand(&mut rng);
        let ghost tv = fr_int(tau);

        // 2. Its powers, one per domain point.
        let tau_powers = Self::compute_powers(&tau, two_n);

        // 3. Fresh generators of the two source groups.
        let g1 = g1_rand(&mut rng);
        let g2 = g2_rand(&mut rng);

        // 4. The monomial reference string: `g1` behind each power.
        let mut srs_proj: Vec<PointG1> = Vec::new();
        let mut i: usize = 0;
        while i < two_n
            invariant
                i <= two_n,
                two_n == config.two_n_spec(),
                tau_powers@.len() == two_n,
                forall|j: int|
                    0 <= j < two_n ==> fr_int(#[trigger] tau_powers@[j]) == pow_mod(tv, j as nat),
                srs_proj@.len() == i,
                g1_in_subgroup(g1),
                forall|j: int|
                    0 <= j < i ==> g1_log(#[trigger] srs_proj@[j]) == mulm(
                        pow_mod(tv, j as nat) as int,
                        g1_log(g1) as int,
                    ),
                g1_all_in_subgroup(srs_proj@),
            decreases two_n - i,
        {
            srs_proj.push(g1_mul(&g1, &tau_powers[i]));
            i = i + 1;
        }

        let mut srs_monomial: Vec<AffineG1> = Vec::new();
        let mut i: usize = 0;
        while i < two_n
            invariant
                i <= two_n,
                srs_proj@.len() == two_n,
                srs_monomial@.len() == i,
                forall|j: int|
                    0 <= j < i ==> g1a_log(#[trigger] srs_monomial@[j]) == g1_log(srs_proj@[j]),
                g1_all_in_subgroup(srs_proj@),
                g1a_all_in_subgroup(srs_monomial@),
            decreases two_n - i,
        {
            srs_monomial.push(g1_to_affine(&srs_proj[i]));
            i = i + 1;
        }

        // 5. The Lagrange reference string: the inverse transform of the
        //    monomial one, taken with group operations.
        proof {
            vstd::arithmetic::power2::lemma_pow2_unfold((config.log_n + 1) as nat);
            let kk = (config.log_n + 1) as nat;
            assert(kk <= 32 && two_n == pow2(kk));
        }
        let d = domain_new(two_n);
        let srs_lagrange = ifft_group(&d, &srs_proj);

        // 6. The blinding vector: independent uniform scalars.
        let mut c_eval: Vec<Scalar> = Vec::new();
        let mut i: usize = 0;
        while i < two_n
            invariant
                i <= two_n,
                c_eval@.len() == i,
                forall|j: int| 0 <= j < i ==> fr_int(#[trigger] c_eval@[j]) < fr_order(),
            decreases two_n - i,
        {
            c_eval.push(fr_rand(&mut rng));
            i = i + 1;
        }

        // 7. The second-group pair for the pairing check.
        let tau_g2 = g2_to_affine(&g2_mul(&g2, &tau));
        let g2_aff = g2_to_affine(&g2);

        let result = Setup {
            srs_lagrange_g1: srs_lagrange,
            srs_monomial_g1: srs_monomial,
            g2: g2_aff,
            tau_g2,
            c_eval,
            config,
            trapdoor: Ghost(tv),
        };
        proof {
            let two_ns = config.two_n_spec();
            lemma_pow_mod_bound(tv, 0);
            assert(pow_mod(tv, 0) == 1);
            assert(g1a_log(result.srs_monomial_g1@[0]) == mulm(1, g1_log(g1) as int));
            assert(mulm(1, g1_log(g1) as int) == g1_log(g1)) by {
                assert(1 * (g1_log(g1) as int) == g1_log(g1) as int);
                vstd::arithmetic::div_mod::lemma_small_mod(g1_log(g1), fr_order());
            }
            assert forall|i: int| 0 <= i < two_ns implies g1a_log(
                #[trigger] result.srs_monomial_g1@[i],
            ) == mulm(
                pow_mod(tv, i as nat) as int,
                g1a_log(result.srs_monomial_g1@[0]) as int,
            ) by {
                assert(g1a_log(result.srs_monomial_g1@[i]) == g1_log(srs_proj@[i]));
            }
            assert(g1a_logs(result.srs_monomial_g1@) =~= g1_logs(srs_proj@));
        }
        Ok(result)
    }

    /// The powers `tau^0 .. tau^(count-1)`.  Small counts run one sequential
    /// multiplication chain; large counts use a windowed decomposition whose
    /// entries are each pinned to the same mathematical power, so the two
    /// strategies agree at every index.
    pub fn compute_powers(tau: &Scalar, count: usize) -> (r: Vec<Scalar>)
        requires
            1 <= count <= 0x100000000,
        ensures
            r@.len() == count,
            forall|i: int| 0 <= i < count ==> fr_int(#[trigger] r@[i]) == pow_mod(fr_int(*tau), i as nat),
    {
        let ghost tv = fr_int(*tau);
        if count <= 1024 {
            // Sequential repeated multiplication.
            let mut powers: Vec<Scalar> = Vec::new();
            powers.push(fr_one());
            let mut i: usize = 1;
            while i < count
                invariant
                    1 <= i <= count,
                    powers@.len() == i,
                    tv == fr_int(*tau),
                    forall|j: int| 0 <= j < i ==> fr_int(#[trigger] powers@[j]) == pow_mod(tv, j as nat),
                decreases count - i,
            {
                let t = fr_mul(&powers[i - 1], tau);
                powers.push(t);
                i = i + 1;
            }
            powers
        } else {
            // Windowed decomposition: bases tau^(256k), offsets tau^(i mod 256).
            let w: usize = 256;
            let full = count / w;
            let num_windows = if count % w == 0 {
                full
            } else {
                full + 1
            };
            proof {
                assert(num_windows == window_count(count as int, 256));
            }

            // tau^w, by a short chain.
            let mut tau_w = fr_one();
            let mut j: usize = 0;
            while j < w
                invariant
                    j <= w,
                    tv == fr_int(*tau),
                    fr_int(tau_w) == pow_mod(tv, j as nat),
                decreases w - j,
            {
                tau_w = fr_mul(&tau_w, tau);
                j = j + 1;
            }

            // window_bases[k] == tau^(k * w), each from the previous.
            let mut window_bases: Vec<Scalar> = Vec::new();
            window_bases.push(fr_one());
            let mut k: usize = 1;
            while k < num_windows
                invariant
                    1 <= k <= num_windows,
                    window_bases@.len() == k,
                    tv == fr_int(*tau),
                    fr_int(tau_w) == pow_mod(tv, w as nat),
                    w == 256,
                    forall|j: int|
                        0 <= j < k ==> fr_int(#[trigger] window_bases@[j]) == pow_mod(
                            tv,
                            (j * 256) as nat,
                        ),
                decreases num_windows - k,
            {
                let t = fr_mul(&window_bases[k - 1], &tau_w);
                proof {
                    lemma_pow_mod_adds(tv, ((k - 1) * 256) as nat, 256);
                    assert((k - 1) * 256 + 256 == k * 256) by (nonlinear_arith);
                }
                window_bases.push(t);
                k = k + 1;
            }

            // Every index independently: base times a short offset chain.
            let mut powers: Vec<Scalar> = Vec::new();
            let mut i: usize = 0;
            while i < count
                invariant
                    i <= count,
                    count <= 0x100000000,
                    powers@.len() == i,
                    tv == fr_int(*tau),
                    w == 256,
                    num_windows == window_count(count as int, 256),
                    window_bases@.len() == num_windows,
                    forall|j: int|
                        0 <= j < num_windows ==> fr_int(#[trigger] window_bases@[j]) == pow_mod(
                            tv,
                            (j * 256) as nat,
                        ),
                    forall|j: int| 0 <= j < i ==> fr_int(#[trigger] powers@[j]) == pow_mod(tv, j as nat),
                decreases count - i,
            {
                let widx = i / w;
                let off = i % w;
                proof {
                    lemma_window_index(i as int, 256, count as int);
                    vstd::arithmetic::div_mod::lemma_fundamental_div_mod(i as int, 256);
                    vstd::arithmetic::div_mod::lemma_mod_bound(i as int, 256);
                }
                let mut tau_off = fr_one();
                let mut j: usize = 0;
                while j < off
                    invariant
                        j <= off,
                        off < 256,
                        tv == fr_int(*tau),
                        fr_int(tau_off) == pow_mod(tv, j as nat),
                    decreases off - j,
                {
                    tau_off = fr_mul(&tau_off, tau);
                    j = j + 1;
                }
                let t = fr_mul(&window_bases[widx], &tau_off);
                proof {
                    lemma_pow_mod_adds(tv, (widx * 256) as nat, off as nat);
                    assert(widx * 256 + off == i) by {
                        assert(i as int == 256 * (i as int / 256) + i as int % 256);
                        assert(widx as int == i as int / 256);
                        assert((widx * 256) as int == 256 * (i as int / 256)) by (nonlinear_arith)
                            requires
                                widx as int == i as int / 256,
                        ;
                    }
                }
                powers.push(t);
                i = i + 1;
            }
            powers
        }
    }
}

/// The number of windows of width `w` that cover `count` indices.
pub open spec fn window_count(count: int, w: int) -> int {
    if count % w == 0 {
        count / w
    } else {
        count / w + 1
    }
}

/// An index below `count` falls in a window below `window_count(count, w)`.
proof fn lemma_window_index(i: int, w: int, count: int)
    requires
        0 <= i < count,
        w > 0,
    ensures
        i / w < window_count(count, w),
{
    let nw = window_count(count, w);
    vstd::arithmetic::div_mod::lemma_fundamental_div_mod(count, w);
    vstd::arithmetic::div_mod::lemma_mod_bound(count, w);
    vstd::arithmetic::div_mod::lemma_fundamental_div_mod(i, w);
    vstd::arithmetic::div_mod::lemma_mod_bound(i, w);
    assert(w * (count / w + 1) == w * (count / w) + w) by (nonlinear_arith);
    assert(w * nw >= count);
    if i / w >= nw {
        assert(w * (i / w) >= w * nw) by (nonlinear_arith)
            requires
                w > 0,
                i / w >= nw,
        ;
        assert(false);
    }
}

} // verus!
