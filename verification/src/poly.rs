//! Verified polynomial arithmetic over the scalar field: Horner evaluation
//! and exact division by a monic linear factor, together with the division
//! law that makes an opening proof sound.
use vstd::prelude::*;
use crate::math::{
    fr_order, addm, subm, mulm, lemma_mulm_reduces, lemma_addm_reduces, lemma_subm_reduces,
};
use crate::field::{Scalar, fr_int, frs, fr_add, fr_mul, fr_zero, fr_dup};

verus! {

/// The value at `x` of the polynomial whose coefficient vector is `c`
/// (`c[0]` the constant term), modulo the field order: Horner's rule.
pub open spec fn poly_eval(c: Seq<nat>, x: nat) -> nat
    decreases c.len(),
{
    if c.len() == 0 {
        0
    } else {
        addm(c[0] as int, mulm(x as int, poly_eval(c.drop_first(), x) as int) as int)
    }
}

/// The coefficients of the quotient of `c` by the monic linear polynomial
/// `X - z`: the leading `c.len() - 1` coefficients of synthetic division.
/// The head coefficient is the value at `z` of the tail of `c`.
pub open spec fn quot_coeffs(c: Seq<nat>, z: nat) -> Seq<nat>
    decreases c.len(),
{
    if c.len() <= 1 {
        Seq::empty()
    } else {
        seq![poly_eval(c.drop_first(), z)] + quot_coeffs(c.drop_first(), z)
    }
}

pub proof fn lemma_quot_len(c: Seq<nat>, z: nat)
    ensures
        c.len() == 0 ==> quot_coeffs(c, z).len() == 0,
        c.len() >= 1 ==> quot_coeffs(c, z).len() == c.len() - 1,
    decreases c.len(),
{
    if c.len() > 1 {
        lemma_quot_len(c.drop_first(), z);
    }
}

/// Each quotient coefficient in closed form: the value at `z` of the
/// coefficients above it.
proof fn lemma_quot_closed(c: Seq<nat>, z: nat, i: int)
    requires
        0 <= i < c.len() - 1,
    ensures
        quot_coeffs(c, z).len() == c.len() - 1,
        quot_coeffs(c, z)[i] == poly_eval(c.skip(i + 1), z),
    decreases c.len(),
{
    lemma_quot_len(c, z);
    if i == 0 {
        assert(c.drop_first() =~= c.skip(1));
    } else {
        lemma_quot_closed(c.drop_first(), z, i - 1);
        assert(c.drop_first().skip(i) =~= c.skip(i + 1));
    }
}

/// The modular identity behind one step of the division law.
proof fn lemma_step_identity(a: nat, qt: nat, rt: nat, t: nat, z: nat)
    ensures
        addm(a as int, mulm(t as int, addm(mulm(qt as int, subm(t as int, z as int) as int) as int, rt as int) as int) as int)
            == addm(
                mulm(addm(rt as int, mulm(t as int, qt as int) as int) as int, subm(t as int, z as int) as int) as int,
                addm(a as int, mulm(z as int, rt as int) as int) as int,
            ),
{
    let m = fr_order() as int;
    let ai = a as int;
    let qi = qt as int;
    let ri = rt as int;
    let ti = t as int;
    let zi = z as int;
    // Left side: push every reduction outward.
    lemma_mulm_reduces(ti - zi, qi);
    assert(mulm(qi, subm(ti, zi) as int) == mulm(qi, ti - zi)) by {
        lemma_mulm_reduces(qi, ti - zi);
    }
    lemma_addm_reduces(qi * (ti - zi), ri);
    assert(addm(mulm(qi, subm(ti, zi) as int) as int, ri) == addm(qi * (ti - zi), ri));
    lemma_mulm_reduces(ti, qi * (ti - zi) + ri);
    assert(mulm(ti, addm(qi * (ti - zi), ri) as int) == mulm(ti, qi * (ti - zi) + ri)) by {
        lemma_mulm_reduces(ti, qi * (ti - zi) + ri);
    }
    lemma_addm_reduces(ai, ti * (qi * (ti - zi) + ri));
    assert(addm(ai, mulm(ti, addm(mulm(qi, subm(ti, zi) as int) as int, ri) as int) as int)
        == addm(ai, ti * (qi * (ti - zi) + ri)));
    // Right side: push every reduction outward.
    assert(mulm(ti, qi) == mulm(ti, qi));
    lemma_addm_reduces(ri, ti * qi);
    assert(addm(ri, mulm(ti, qi) as int) == addm(ri, ti * qi)) by {
        lemma_addm_reduces(ri, ti * qi);
    }
    assert(mulm(addm(ri, ti * qi) as int, subm(ti, zi) as int) == mulm(ri + ti * qi, ti - zi)) by {
        lemma_mulm_reduces(ri + ti * qi, ti - zi);
        lemma_mulm_reduces((ri + ti * qi) % m, ti - zi);
    }
    lemma_addm_reduces(ai, zi * ri);
    assert(addm(ai, mulm(zi, ri) as int) == addm(ai, zi * ri));
    assert(addm(mulm(addm(ri, mulm(ti, qi) as int) as int, subm(ti, zi) as int) as int, addm(ai, mulm(zi, ri) as int) as int)
        == addm((ri + ti * qi) * (ti - zi), ai + zi * ri)) by {
        lemma_addm_reduces((ri + ti * qi) * (ti - zi), ai + zi * ri);
        lemma_addm_reduces((ri + ti * qi) * (ti - zi), (ai + zi * ri) % m);
    }
    // The unreduced integer identity.
    assert(ai + ti * (qi * (ti - zi) + ri) == (ri + ti * qi) * (ti - zi) + (ai + zi * ri))
        by (nonlinear_arith);
}

/// The division law: for every coefficient vector `c` and all points `z`
/// and `t`, the polynomial splits as
/// `P(t) = Q(t) * (t - z) + P(z)  (mod fr_order())`,
/// where `Q` is the synthetic quotient of `c` by `X - z`.  Taking `t = z`
/// shows the division is exact: the remainder is the value at `z`.
pub proof fn lemma_division_law(c: Seq<nat>, z: nat, t: nat)
    requires
        c.len() >= 1,
    ensures
        poly_eval(c, t) == addm(
            mulm(poly_eval(quot_coeffs(c, z), t) as int, subm(t as int, z as int) as int) as int,
            poly_eval(c, z) as int,
        ),
    decreases c.len(),
{
    let m = fr_order() as int;
    if c.len() == 1 {
        // The quotient is empty; both sides reduce the constant term.
        assert(quot_coeffs(c, z) =~= Seq::<nat>::empty());
        assert(poly_eval(quot_coeffs(c, z), t) == 0);
        assert(c.drop_first().len() == 0);
        assert(poly_eval(c.drop_first(), t) == 0);
        assert(poly_eval(c.drop_first(), z) == 0);
        crate::math::lemma_mulm_zero(t as int);
        crate::math::lemma_mulm_zero(z as int);
        crate::math::lemma_mulm_zero(subm(t as int, z as int) as int);
        assert(poly_eval(c, t) == addm(c[0] as int, 0));
        assert(poly_eval(c, z) == addm(c[0] as int, 0));
        assert(addm(0, poly_eval(c, z) as int) == poly_eval(c, z)) by {
            vstd::arithmetic::div_mod::lemma_mod_bound(c[0] as int + 0, m);
            vstd::arithmetic::div_mod::lemma_small_mod(poly_eval(c, z), fr_order());
        }
    } else {
        let tail = c.drop_first();
        lemma_division_law(tail, z, t);
        let a = c[0];
        let qt = poly_eval(quot_coeffs(tail, z), t);
        let rt = poly_eval(tail, z);
        // The quotient of `c` is `rt` followed by the quotient of the tail.
        let q = quot_coeffs(c, z);
        assert(q.drop_first() =~= quot_coeffs(tail, z));
        assert(q[0] == rt);
        assert(poly_eval(q, t) == addm(rt as int, mulm(t as int, qt as int) as int));
        // The tail satisfies the law at `t`.
        assert(poly_eval(tail, t) == addm(mulm(qt as int, subm(t as int, z as int) as int) as int, rt as int));
        lemma_step_identity(a, qt, rt, t, z);
        assert(poly_eval(c, z) == addm(a as int, mulm(z as int, rt as int) as int));
    }
}

/// Every polynomial value is reduced.
pub proof fn lemma_poly_eval_bound(c: Seq<nat>, x: nat)
    ensures
        poly_eval(c, x) < fr_order(),
{
    if c.len() == 0 {
    } else {
        vstd::arithmetic::div_mod::lemma_mod_bound(
            c[0] as int + mulm(x as int, poly_eval(c.drop_first(), x) as int) as int,
            fr_order() as int,
        );
    }
}

/// The pointwise modular product of two vectors, over the first one's
/// length.
pub open spec fn hadamard(a: Seq<nat>, b: Seq<nat>) -> Seq<nat> {
    Seq::new(a.len(), |i: int| mulm(a[i] as int, b[i] as int))
}

/// Subtracting `v` from the constant term subtracts it from the value at
/// every point.
pub proof fn lemma_eval_shift_const(c: Seq<nat>, v: nat, t: nat)
    requires
        c.len() >= 1,
    ensures
        poly_eval(c.update(0, subm(c[0] as int, v as int)), t) == subm(
            poly_eval(c, t) as int,
            v as int,
        ),
{
    let s = c.update(0, subm(c[0] as int, v as int));
    assert(s.drop_first() =~= c.drop_first());
    let mm = mulm(t as int, poly_eval(c.drop_first(), t) as int);
    assert(poly_eval(s, t) == addm(subm(c[0] as int, v as int) as int, mm as int));
    assert(poly_eval(c, t) == addm(c[0] as int, mm as int));
    lemma_addm_reduces(c[0] as int - v as int, mm as int);
    lemma_subm_reduces(c[0] as int + mm as int, v as int);
    assert(addm(subm(c[0] as int, v as int) as int, mm as int) == addm(
        c[0] as int - v as int,
        mm as int,
    ));
    assert(subm(addm(c[0] as int, mm as int) as int, v as int) == subm(
        c[0] as int + mm as int,
        v as int,
    ));
}

/// Evaluate the polynomial with coefficients `c` at `x` by Horner's rule.
pub fn eval_poly(c: &Vec<Scalar>, x: &Scalar) -> (r: Scalar)
    ensures
        fr_int(r) == poly_eval(frs(c@), fr_int(*x)),
{
    let mut acc = fr_zero();
    let mut i: usize = c.len();
    proof {
        assert(frs(c@).skip(c@.len() as int) =~= Seq::<nat>::empty());
    }
    while i > 0
        invariant
            i <= c@.len(),
            fr_int(acc) == poly_eval(frs(c@).skip(i as int), fr_int(*x)),
        decreases i,
    {
        i = i - 1;
        let t = fr_mul(x, &acc);
        acc = fr_add(&c[i], &t);
        proof {
            let s = frs(c@).skip(i as int);
            assert(s.drop_first() =~= frs(c@).skip(i as int + 1));
            assert(s[0] == fr_int(c@[i as int]));
        }
    }
    proof {
        assert(frs(c@).skip(0) =~= frs(c@));
    }
    acc
}

/// Divide the polynomial with coefficients `c` by the monic linear
/// polynomial `X - z`.  Returns the quotient's coefficients and the
/// remainder, which is the polynomial's value at `z`.
pub fn divide_by_linear(c: &Vec<Scalar>, z: &Scalar) -> (r: (Vec<Scalar>, Scalar))
    requires
        c@.len() >= 1,
    ensures
        r.0@.len() == c@.len() - 1,
        frs(r.0@) == quot_coeffs(frs(c@), fr_int(*z)),
        fr_int(r.1) == poly_eval(frs(c@), fr_int(*z)),
{
    let ghost cv = frs(c@);
    let ghost zv = fr_int(*z);
    let n = c.len();
    // Synthetic division from the top coefficient down; `acc` carries the
    // value at `z` of the coefficients already seen.
    let mut qrev: Vec<Scalar> = Vec::new();
    let mut acc = fr_zero();
    let mut i: usize = n;
    proof {
        assert(cv.skip(n as int) =~= Seq::<nat>::empty());
    }
    while i > 1
        invariant
            1 <= i <= n,
            n == c@.len(),
            cv == frs(c@),
            zv == fr_int(*z),
            qrev@.len() == n - i,
            fr_int(acc) == poly_eval(cv.skip(i as int), zv),
            forall|k: int|
                0 <= k < qrev@.len() ==> fr_int(qrev@[k]) == poly_eval(
                    cv.skip(n - 1 - k),
                    zv,
                ),
        decreases i,
    {
        i = i - 1;
        let t = fr_mul(z, &acc);
        acc = fr_add(&c[i], &t);
        proof {
            let s = cv.skip(i as int);
            assert(s.drop_first() =~= cv.skip(i as int + 1));
            assert(s[0] == fr_int(c@[i as int]));
        }
        qrev.push(fr_dup(&acc));
    }
    // The remainder extends the same recurrence through the constant term.
    let t0 = fr_mul(z, &acc);
    let rem = fr_add(&c[0], &t0);
    proof {
        let s = cv.skip(1);
        assert(s =~= cv.skip(0).drop_first());
        assert(cv.skip(0) =~= cv);
        assert(cv[0] == fr_int(c@[0]));
    }
    // Reverse into ascending coefficient order.
    let mut q: Vec<Scalar> = Vec::new();
    let mut j: usize = qrev.len();
    while j > 0
        invariant
            j <= qrev@.len(),
            qrev@.len() == n - 1,
            n == c@.len(),
            cv == frs(c@),
            zv == fr_int(*z),
            q@.len() == qrev@.len() - j,
            forall|k: int|
                0 <= k < qrev@.len() ==> fr_int(qrev@[k]) == poly_eval(
                    cv.skip(n - 1 - k),
                    zv,
                ),
            forall|k: int|
                0 <= k < q@.len() ==> fr_int(q@[k]) == poly_eval(cv.skip(k + 1), zv),
        decreases j,
    {
        j = j - 1;
        q.push(fr_dup(&qrev[j]));
        proof {
            let k = q@.len() - 1;
            assert(fr_int(q@[k]) == poly_eval(cv.skip(n - 1 - j), zv));
            assert(n - 1 - j == k + 1);
        }
    }
    proof {
        lemma_quot_len(cv, zv);
        assert forall|k: int| 0 <= k < q@.len() implies frs(q@)[k] == quot_coeffs(cv, zv)[k] by {
            lemma_quot_closed(cv, zv, k);
        }
        assert(frs(q@) =~= quot_coeffs(cv, zv));
    }
    (q, rem)
}

} // verus!
