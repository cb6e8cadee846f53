//! Trusted interface to the `num-bigint` crate's unsigned big integers,
//! which carry the modulo machine's 300-bit inputs and 256-bit outputs.
//! Every value is modelled by `big_val`, the natural number it denotes.
use vstd::prelude::*;
use vstd::arithmetic::power2::pow2;
use num_bigint::BigUint;

verus! {

#[verifier::external_type_specification]
#[verifier::external_body]
pub struct ExBigUint(BigUint);

/// The natural number a big integer denotes.
pub uninterp spec fn big_val(x: BigUint) -> nat;

/// The value of one numeral character: 0-9, then a-z and A-Z for 10-35;
/// 36 marks everything else.
pub open spec fn digit_val(c: char) -> nat {
    if '0' <= c && c <= '9' {
        (c as nat - '0' as nat) as nat
    } else if 'a' <= c && c <= 'z' {
        (c as nat - 'a' as nat + 10) as nat
    } else if 'A' <= c && c <= 'Z' {
        (c as nat - 'A' as nat + 10) as nat
    } else {
        36
    }
}

/// Whether `c` is a digit of the given radix.
pub open spec fn is_radix_digit(c: char, radix: nat) -> bool {
    digit_val(c) < radix
}

/// A nonempty string of digits of the given radix.
pub open spec fn valid_numeral(s: Seq<char>, radix: nat) -> bool {
    s.len() > 0 && forall|i: int| 0 <= i < s.len() ==> is_radix_digit(#[trigger] s[i], radix)
}

/// The number a digit string denotes in the given radix.
pub open spec fn radix_val(s: Seq<char>, radix: nat) -> nat
    decreases s.len(),
{
    if s.len() == 0 {
        0
    } else {
        radix_val(s.drop_last(), radix) * radix + digit_val(s.last())
    }
}

/// The number of binary digits of `n`: 0 for 0, else one more than for
/// `n / 2`.
pub open spec fn bit_len(n: nat) -> nat
    decreases n,
{
    if n == 0 {
        0
    } else {
        1 + bit_len(n / 2)
    }
}

/// A number has at most `k` bits exactly when it is below `2^k`.
pub proof fn lemma_bit_len_bound(n: nat, k: nat)
    ensures
        bit_len(n) <= k <==> n < pow2(k),
    decreases k,
{
    if k == 0 {
        assert(pow2(0) == 1) by {
            vstd::arithmetic::power2::lemma2_to64();
        }
    } else {
        lemma_bit_len_bound(n / 2, (k - 1) as nat);
        vstd::arithmetic::power2::lemma_pow2_unfold(k);
        vstd::arithmetic::div_mod::lemma_fundamental_div_mod(n as int, 2);
        vstd::arithmetic::div_mod::lemma_mod_bound(n as int, 2);
    }
}

/// Relies on From<u64> for BigUint: the denoted value is the argument.
#[verifier::external_body]
pub(crate) fn big_from_u64(v: u64) -> (r: BigUint)
    ensures
        big_val(r) == v,
{
    BigUint::from(v)
}

/// Relies on Rem for BigUint: the remainder of the denoted values.
#[verifier::external_body]
pub(crate) fn big_mod(x: &BigUint, p: &BigUint) -> (r: BigUint)
    requires
        big_val(*p) > 0,
    ensures
        big_val(r) == big_val(*x) % big_val(*p),
{
    x % p
}

/// Relies on Clone for BigUint: the copy denotes the same number.
#[verifier::external_body]
pub(crate) fn big_clone(x: &BigUint) -> (r: BigUint)
    ensures
        big_val(r) == big_val(*x),
{
    x.clone()
}

/// Relies on BigUint::bits: the number of binary digits of the value,
/// which is 0 for the value 0.
#[verifier::external_body]
pub(crate) fn big_bits(x: &BigUint) -> (r: u64)
    ensures
        r == bit_len(big_val(*x)),
{
    x.bits()
}

/// Relies on Shl<u32> for BigUint: a left shift multiplies the value by
/// the corresponding power of two.
#[verifier::external_body]
pub(crate) fn big_shl(x: &BigUint, k: u32) -> (r: BigUint)
    ensures
        big_val(r) == big_val(*x) * pow2(k as nat),
{
    x << k
}

/// Relies on Add<u64> for BigUint: addition of the denoted values.
#[verifier::external_body]
pub(crate) fn big_add_u64(x: &BigUint, v: u64) -> (r: BigUint)
    ensures
        big_val(r) == big_val(*x) + v,
{
    x + v
}

/// Relies on BigUint::parse_bytes: on a nonempty string of digits of the
/// radix it returns the denoted number; it returns `None` only on strings
/// that are not such numerals (it also accepts a leading plus sign and
/// ignores underscores, about which this contract stays silent).
#[verifier::external_body]
pub(crate) fn big_parse(s: &str, radix: u32) -> (r: Option<BigUint>)
    requires
        2 <= radix <= 36,
    ensures
        valid_numeral(s@, radix as nat) ==> r is Some && big_val(r->Some_0) == radix_val(
            s@,
            radix as nat,
        ),
        r is None ==> !valid_numeral(s@, radix as nat),
{
    BigUint::parse_bytes(s.as_bytes(), radix)
}

} // verus!
