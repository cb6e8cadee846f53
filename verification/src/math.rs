//! Modular arithmetic over the scalar field's order, used by every contract
//! that speaks about field or group values.
use vstd::prelude::*;
use vstd::arithmetic::div_mod::{
    lemma_mul_mod_noop_general, lemma_small_mod, lemma_mod_bound, lemma_mod_twice,
    lemma_add_mod_noop, lemma_sub_mod_noop,
};

verus! {

/// The order of the BLS12-381 scalar field: the prime
/// 52435875175126190479447740508185965837690552500527637822603658699938581184513.
pub open spec fn fr_order() -> nat {
    0x73eda753299d7d483339d80809a1d80553bda402fffe5bfeffffffff00000001nat
}

/// Sum modulo the scalar field order.
pub open spec fn addm(a: int, b: int) -> nat {
    ((a + b) % (fr_order() as int)) as nat
}

/// Difference modulo the scalar field order.
pub open spec fn subm(a: int, b: int) -> nat {
    ((a - b) % (fr_order() as int)) as nat
}

/// Product modulo the scalar field order.
pub open spec fn mulm(a: int, b: int) -> nat {
    ((a * b) % (fr_order() as int)) as nat
}

/// `b` raised to the power `e`, modulo the scalar field order.
pub open spec fn pow_mod(b: nat, e: nat) -> nat
    decreases e,
{
    if e == 0 {
        1
    } else {
        mulm(pow_mod(b, (e - 1) as nat) as int, b as int)
    }
}

/// The linear combination of `bases` by `scalars`, modulo the scalar field
/// order: the discrete logarithm of a multi-scalar multiplication.
pub open spec fn dot_log(bases: Seq<nat>, scalars: Seq<nat>) -> nat
    decreases bases.len(),
{
    if bases.len() == 0 || scalars.len() == 0 {
        0
    } else {
        addm(
            mulm(scalars[0] as int, bases[0] as int) as int,
            dot_log(bases.drop_first(), scalars.drop_first()) as int,
        )
    }
}

/// Reducing either factor of a modular product first does not change it.
pub proof fn lemma_mulm_reduces(a: int, b: int)
    ensures
        mulm(a % (fr_order() as int), b) == mulm(a, b),
        mulm(a, b % (fr_order() as int)) == mulm(a, b),
{
    lemma_mul_mod_noop_general(a, b, fr_order() as int);
}

/// A modular product with zero vanishes.
pub proof fn lemma_mulm_zero(y: int)
    ensures
        mulm(0, y) == 0,
        mulm(y, 0) == 0,
{
    assert(0 * y == 0) by (nonlinear_arith);
    assert(y * 0 == 0) by (nonlinear_arith);
    lemma_small_mod(0, fr_order());
}

/// Reducing either summand of a modular sum first does not change it.
pub proof fn lemma_addm_reduces(a: int, b: int)
    ensures
        addm(a % (fr_order() as int), b) == addm(a, b),
        addm(a, b % (fr_order() as int)) == addm(a, b),
{
    let m = fr_order() as int;
    lemma_mod_twice(a, m);
    lemma_mod_twice(b, m);
    lemma_add_mod_noop(a, b, m);
    lemma_add_mod_noop(a % m, b, m);
    lemma_add_mod_noop(a, b % m, m);
}

/// Reducing either side of a modular difference first does not change it.
pub proof fn lemma_subm_reduces(a: int, b: int)
    ensures
        subm(a % (fr_order() as int), b) == subm(a, b),
        subm(a, b % (fr_order() as int)) == subm(a, b),
{
    let m = fr_order() as int;
    lemma_mod_twice(a, m);
    lemma_mod_twice(b, m);
    lemma_sub_mod_noop(a, b, m);
    lemma_sub_mod_noop(a % m, b, m);
    lemma_sub_mod_noop(a, b % m, m);
}

/// Modular multiplication is associative.
pub proof fn lemma_mulm_assoc(a: int, b: int, c: int)
    ensures
        mulm(mulm(a, b) as int, c) == mulm(a, mulm(b, c) as int),
{
    let m = fr_order() as int;
    lemma_mul_mod_noop_general(a * b, c, m);
    lemma_mul_mod_noop_general(a, b * c, m);
    lemma_mulm_reduces(a * b, c);
    lemma_mulm_reduces(b * c, a);
    assert((a * b) * c == a * (b * c)) by (nonlinear_arith);
}

/// Every power of any base is reduced, except the zeroth, which is 1.
pub proof fn lemma_pow_mod_bound(b: nat, e: nat)
    ensures
        pow_mod(b, e) < fr_order(),
    decreases e,
{
    if e == 0 {
    } else {
        lemma_mod_bound((pow_mod(b, (e - 1) as nat) * b) as int, fr_order() as int);
    }
}

/// Powers with added exponents multiply.
pub proof fn lemma_pow_mod_adds(b: nat, e1: nat, e2: nat)
    ensures
        pow_mod(b, e1 + e2) == mulm(pow_mod(b, e1) as int, pow_mod(b, e2) as int),
    decreases e2,
{
    let m = fr_order() as int;
    let p1 = pow_mod(b, e1) as int;
    if e2 == 0 {
        lemma_pow_mod_bound(b, e1);
        lemma_small_mod(pow_mod(b, e1), fr_order());
        assert(p1 * 1 == p1);
    } else {
        lemma_pow_mod_adds(b, e1, (e2 - 1) as nat);
        let p2 = pow_mod(b, (e2 - 1) as nat) as int;
        // pow_mod(b, e1 + e2) == mulm(mulm(p1, p2), b) == mulm(p1, mulm(p2, b))
        lemma_mulm_assoc(p1, p2, b as int);
    }
}

} // verus!
