//! Protocol sizing: `log_n` fixes the witness count `n = 2^log_n` and the
//! FFT domain size `two_n = 2 * n`.
use vstd::prelude::*;
use vstd::arithmetic::power2::pow2;
use vstd::bits::lemma_usize_shl_is_mul;

verus! {

/// `n = 2^17`, the production witness count.
pub const PRODUCTION_LOG_N: usize = 17;

/// Configuration for the protocol.
///
/// `log_n` must stay between 1 and 31: the domain size `two_n = 2^(log_n+1)`
/// may not exceed `2^32`, the two-adicity of the scalar field's
/// multiplicative group.
#[derive(Clone, Copy)]
pub struct Config {
    pub log_n: usize,
}

impl Config {
    /// A configuration is well formed when its domain size is supported by
    /// the scalar field's two-adicity and fits in a `usize`.
    pub open spec fn wf(self) -> bool {
        &&& 1 <= self.log_n <= 31
        &&& self.log_n + 2 <= usize::BITS
    }

    /// The witness count `2^log_n`.
    pub open spec fn n_spec(self) -> nat {
        pow2(self.log_n as nat)
    }

    /// The FFT domain size `2 * 2^log_n`.
    pub open spec fn two_n_spec(self) -> nat {
        2 * pow2(self.log_n as nat)
    }

    pub fn production() -> (r: Config)
        ensures
            r.log_n == PRODUCTION_LOG_N,
            r.wf(),
    {
        proof {
            vstd::arithmetic::power2::lemma2_to64();
        }
        Config { log_n: PRODUCTION_LOG_N }
    }

    pub fn test() -> (r: Config)
        ensures
            r.log_n == 10,
            r.wf(),
    {
        // A much smaller size, 2^10 = 1024, keeps runs short.
        proof {
            vstd::arithmetic::power2::lemma2_to64();
        }
        Config { log_n: 10 }
    }

    pub fn n(&self) -> (r: usize)
        requires
            self.wf(),
        ensures
            r == self.n_spec(),
            2 <= r <= 0x80000000,
    {
        proof {
            vstd::layout::unsigned_int_max_values();
            vstd::arithmetic::power2::lemma_pow2_strictly_increases(
                (self.log_n + 1) as nat,
                usize::BITS as nat,
            );
            vstd::arithmetic::power2::lemma_pow2_unfold((self.log_n + 1) as nat);
            lemma_usize_shl_is_mul(1, self.log_n);
            vstd::arithmetic::power2::lemma_pow2_strictly_increases(self.log_n as nat, 32);
            vstd::arithmetic::power2::lemma_pow2_strictly_increases(0, self.log_n as nat);
            vstd::arithmetic::power2::lemma2_to64();
        }
        1usize << self.log_n
    }

    pub fn two_n(&self) -> (r: usize)
        requires
            self.wf(),
        ensures
            r == self.two_n_spec(),
            4 <= r <= 0x100000000,
    {
        proof {
            vstd::layout::unsigned_int_max_values();
            vstd::arithmetic::power2::lemma_pow2_unfold((self.log_n + 1) as nat);
            vstd::arithmetic::power2::lemma_pow2_strictly_increases(
                (self.log_n + 1) as nat,
                usize::BITS as nat,
            );
        }
        2 * self.n()
    }
}

} // verus!
