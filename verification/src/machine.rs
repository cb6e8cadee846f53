//! A clocked register that reduces arbitrary inputs modulo a fixed 256-bit
//! prime.  On a rising clock edge the register latches `x mod P`; a reset
//! clears it; otherwise it holds.  The arithmetic itself is the
//! `num-bigint` crate's; the machine's behaviour is the verified part.
use vstd::prelude::*;
use vstd::arithmetic::power2::pow2;
use crate::bigint::{
    big_val, big_from_u64, big_mod, big_clone, big_bits, big_shl, big_add_u64, big_parse,
    valid_numeral, radix_val, lemma_bit_len_bound,
};
use num_bigint::BigUint;

verus! {

/// The decimal digits of the machine's prime modulus `P`.
pub const P_STR: &'static str =
    "104899928942039473597645237135751317405745389583683433800060134911610808289117";

/// The value of the prime modulus `P`.
pub open spec fn machine_prime() -> nat {
    104899928942039473597645237135751317405745389583683433800060134911610808289117nat
}

/// A string that is not a numeral of the requested radix.
#[derive(PartialEq, Eq, Structural, Clone, Copy, Debug)]
pub struct ParseNumeralError;

/// Relies on BigUint::parse_bytes applied to the fixed decimal literal
/// `P_STR`: the returned integer denotes the machine's prime modulus.
#[verifier::external_body]
fn make_prime() -> (r: BigUint)
    ensures
        big_val(r) == machine_prime(),
{
    BigUint::parse_bytes(P_STR.as_bytes(), 10).unwrap()
}

/// The single-register modular-reduction machine.
pub struct ModuloMachine {
    /// The prime modulus `P`.
    p: BigUint,
    /// The current 256-bit output register.
    output: BigUint,
    /// The clock level seen by the previous tick, for edge detection.
    clk_prev: bool,
}

impl ModuloMachine {
    /// The modulus the machine reduces by.
    pub closed spec fn prime_val(self) -> nat {
        big_val(self.p)
    }

    /// The number in the output register.
    pub closed spec fn output_val(self) -> nat {
        big_val(self.output)
    }

    /// The clock level latched for edge detection.
    pub closed spec fn clk_latch(self) -> bool {
        self.clk_prev
    }

    /// The machine's invariant: the modulus is `P`, and the register holds
    /// a reduced value.
    pub closed spec fn wf(self) -> bool {
        &&& big_val(self.p) == machine_prime()
        &&& big_val(self.output) < machine_prime()
    }

    /// One clock step as a pure function: the new latch and register from
    /// the old latch and register and this tick's inputs.
    pub open spec fn step(clk_prev: bool, out_prev: nat, clk: bool, reset: bool, x: nat) -> (
        bool,
        nat,
    ) {
        if reset {
            (false, 0)
        } else if clk && !clk_prev {
            (clk, x % machine_prime())
        } else {
            (clk, out_prev)
        }
    }

    /// The register values a machine answers over a run of ticks.
    pub open spec fn trace(clk_prev: bool, out_prev: nat, ins: Seq<(bool, bool, nat)>) -> Seq<nat>
        decreases ins.len(),
    {
        if ins.len() == 0 {
            Seq::empty()
        } else {
            let s = Self::step(clk_prev, out_prev, ins[0].0, ins[0].1, ins[0].2);
            seq![s.1] + Self::trace(s.0, s.1, ins.drop_first())
        }
    }

    /// A fresh machine: modulus `P`, cleared register, low clock.
    pub fn new() -> (r: Self)
        ensures
            r.wf(),
            r.output_val() == 0,
            r.clk_latch() == false,
            r.prime_val() == machine_prime(),
    {
        ModuloMachine { p: make_prime(), output: big_from_u64(0), clk_prev: false }
    }

    /// Clear the output register and the clock latch.
    pub fn reset(&mut self)
        requires
            old(self).wf(),
        ensures
            final(self).wf(),
            final(self).prime_val() == old(self).prime_val(),
            final(self).output_val() == 0,
            final(self).clk_latch() == false,
    {
        self.output = big_from_u64(0);
        self.clk_prev = false;
    }

    /// Process one clock cycle: a reset clears the register, a rising
    /// clock edge latches `x mod P`, anything else holds the register.
    /// Returns the current output.
    pub fn tick(&mut self, clk: bool, reset: bool, x: &BigUint) -> (r: &BigUint)
        requires
            old(self).wf(),
        ensures
            final(self).wf(),
            final(self).prime_val() == old(self).prime_val(),
            (final(self).clk_latch(), final(self).output_val()) == Self::step(
                old(self).clk_latch(),
                old(self).output_val(),
                clk,
                reset,
                big_val(*x),
            ),
            big_val(*r) == final(self).output_val(),
    {
        if reset {
            self.reset();
            return &self.output;
        }
        if clk && !self.clk_prev {
            proof {
                vstd::arithmetic::div_mod::lemma_mod_bound(
                    big_val(*x) as int,
                    machine_prime() as int,
                );
            }
            self.output = big_mod(x, &self.p);
        }
        self.clk_prev = clk;
        &self.output
    }

    /// Run several clock cycles and collect the output after each one.
    pub fn process_batch(&mut self, inputs: &Vec<(bool, bool, BigUint)>) -> (r: Vec<BigUint>)
        requires
            old(self).wf(),
        ensures
            final(self).wf(),
            final(self).prime_val() == old(self).prime_val(),
            r@.len() == inputs@.len(),
            Seq::new(r@.len(), |i: int| big_val(r@[i])) == Self::trace(
                old(self).clk_latch(),
                old(self).output_val(),
                Seq::new(inputs@.len(), |i: int| (inputs@[i].0, inputs@[i].1, big_val(inputs@[i].2))),
            ),
    {
        let ghost ins = Seq::new(
            inputs@.len(),
            |i: int| (inputs@[i].0, inputs@[i].1, big_val(inputs@[i].2)),
        );
        let ghost full = Self::trace(old(self).clk_latch(), old(self).output_val(), ins);
        let mut results: Vec<BigUint> = Vec::new();
        let mut i: usize = 0;
        proof {
            assert(ins.skip(0) =~= ins);
        }
        while i < inputs.len()
            invariant
                i <= inputs@.len(),
                ins == Seq::new(
                    inputs@.len(),
                    |i: int| (inputs@[i].0, inputs@[i].1, big_val(inputs@[i].2)),
                ),
                self.wf(),
                self.prime_val() == old(self).prime_val(),
                results@.len() == i,
                Seq::new(results@.len(), |j: int| big_val(results@[j])) + Self::trace(
                    self.clk_latch(),
                    self.output_val(),
                    ins.skip(i as int),
                ) == full,
            decreases inputs@.len() - i,
        {
            let clk = inputs[i].0;
            let reset = inputs[i].1;
            let ghost pre_results = results@;
            let out = self.tick(clk, reset, &inputs[i].2);
            let copied = big_clone(out);
            results.push(copied);
            proof {
                let rest = ins.skip(i as int);
                assert(rest[0] == ins[i as int]);
                assert(rest.drop_first() =~= ins.skip(i as int + 1));
                let bigs_pre = Seq::new(pre_results.len(), |j: int| big_val(pre_results[j]));
                let v = big_val(results@[results@.len() - 1]);
                let tail_trace = Self::trace(self.clk_latch(), self.output_val(), ins.skip(i as int + 1));
                assert(Seq::new(results@.len(), |j: int| big_val(results@[j])) =~= bigs_pre
                    + seq![v]);
                assert((bigs_pre + seq![v]) + tail_trace =~= bigs_pre + (seq![v] + tail_trace));
            }
            i = i + 1;
        }
        proof {
            assert(ins.skip(inputs@.len() as int) =~= Seq::empty());
            assert(Self::trace(self.clk_latch(), self.output_val(), Seq::empty()) =~= Seq::empty());
            assert(Seq::new(results@.len(), |j: int| big_val(results@[j])) + Seq::<nat>::empty()
                =~= Seq::new(results@.len(), |j: int| big_val(results@[j])));
        }
        results
    }

    /// The current output, without a clock tick.
    pub fn get_output(&self) -> (r: &BigUint)
        ensures
            big_val(*r) == self.output_val(),
    {
        &self.output
    }

    /// The prime modulus `P`.
    pub fn get_prime(&self) -> (r: &BigUint)
        ensures
            big_val(*r) == self.prime_val(),
    {
        &self.p
    }

    /// Whether an input fits the machine's 300-bit input port.
    pub fn validate_input_size(x: &BigUint) -> (r: bool)
        ensures
            r == (big_val(*x) < pow2(300)),
    {
        proof {
            lemma_bit_len_bound(big_val(*x), 300);
        }
        big_bits(x) <= 300
    }

    /// Whether a value fits the machine's 256-bit output port.
    pub fn validate_output_size(output: &BigUint) -> (r: bool)
        ensures
            r == (big_val(*output) < pow2(256)),
    {
        proof {
            lemma_bit_len_bound(big_val(*output), 256);
        }
        big_bits(output) <= 256
    }

    /// Parse an input from a digit string in the given radix.
    pub fn create_input(s: &str, radix: i32) -> (r: Result<BigUint, ParseNumeralError>)
        requires
            2 <= radix <= 36,
        ensures
            valid_numeral(s@, radix as nat) ==> r is Ok && big_val(r->Ok_0) == radix_val(
                s@,
                radix as nat,
            ),
            r is Err ==> !valid_numeral(s@, radix as nat),
    {
        match big_parse(s, radix as u32) {
            Some(v) => Ok(v),
            None => Err(ParseNumeralError),
        }
    }

    /// An input with the given small value.
    pub fn create_input_u64(val: u64) -> (r: BigUint)
        ensures
            big_val(r) == val,
    {
        big_from_u64(val)
    }

    /// The input `2^base_power + offset`, for building large test values.
    pub fn create_large_input(base_power: u32, offset: u64) -> (r: BigUint)
        ensures
            big_val(r) == pow2(base_power as nat) + offset,
    {
        let one = big_from_u64(1);
        let shifted = big_shl(&one, base_power);
        proof {
            assert(1 * pow2(base_power as nat) == pow2(base_power as nat));
        }
        big_add_u64(&shifted, offset)
    }
}

impl Default for ModuloMachine {
    /// A fresh machine, as `new` builds it.
    fn default() -> (r: Self)
        ensures
            r.wf(),
            r.output_val() == 0,
            r.clk_latch() == false,
    {
        ModuloMachine::new()
    }
}

} // verus!
