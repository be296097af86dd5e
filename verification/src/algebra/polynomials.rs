//! Polynomials over the scalar field, as vectors of coefficients in order of
//! increasing degree, with evaluation and three independently written
//! multiplication routines.

use vstd::prelude::*;
use crate::algebra::arith::{add_fr, fr_order, mul_fr};
use crate::algebra::evaluation_domain::BatchEvaluationDomain;
use crate::algebra::fft::{fft, ifft};
use crate::algebra::scalar::{scalar_add, scalar_mul, scalar_values, scalars_wf, Scalar};

verus! {

/// Horner evaluation of the polynomial with coefficients `c` (lowest degree
/// first) at the point `x`, in the scalar field.
pub open spec fn poly_eval_spec(c: Seq<nat>, x: nat) -> nat
    decreases c.len(),
{
    if c.len() == 0 {
        0
    } else {
        (c[0] + x * poly_eval_spec(c.drop_first(), x)) % fr_order()
    }
}

/// The first `upto` terms of the convolution sum of `f` and `g` at index
/// `k`: the sum over `i < upto` of `f[i] * g[k - i]` where `k - i` is in
/// range, in the scalar field.
pub open spec fn conv_partial(f: Seq<nat>, g: Seq<nat>, k: int, upto: int) -> nat
    decreases upto,
{
    if upto <= 0 {
        0
    } else {
        add_fr(
            conv_partial(f, g, k, upto - 1),
            if 0 <= k - (upto - 1) < g.len() && upto - 1 < f.len() {
                mul_fr(f[upto - 1], g[k - (upto - 1)])
            } else {
                0
            },
        )
    }
}

/// The coefficient of degree `k` of the product of the polynomials with
/// coefficient values `f` and `g`.
pub open spec fn conv_at(f: Seq<nat>, g: Seq<nat>, k: int) -> nat {
    conv_partial(f, g, k, f.len() as int)
}

/// Every partial convolution lies below the field order.
proof fn lemma_conv_partial_bound(f: Seq<nat>, g: Seq<nat>, k: int, upto: int)
    ensures
        conv_partial(f, g, k, upto) < fr_order(),
    decreases upto,
{
    if upto <= 0 {
    } else {
        lemma_conv_partial_bound(f, g, k, upto - 1);
    }
}

/// A term whose index pair falls outside either polynomial adds nothing.
proof fn lemma_conv_partial_out(f: Seq<nat>, g: Seq<nat>, k: int, upto: int)
    requires
        upto >= 1,
        !(0 <= k - (upto - 1) < g.len()) || upto - 1 >= f.len(),
    ensures
        conv_partial(f, g, k, upto) == conv_partial(f, g, k, upto - 1),
{
    lemma_conv_partial_bound(f, g, k, upto - 1);
    vstd::arithmetic::div_mod::lemma_small_mod(conv_partial(f, g, k, upto - 1), fr_order());
}

/// Evaluates the polynomial with coefficients `f` (lowest degree first) at
/// `x`, by Horner's rule.
pub fn poly_eval(f: &Vec<Scalar>, x: &Scalar) -> (r: Scalar)
    requires
        scalars_wf(f@),
        x.wf(),
    ensures
        r.wf(),
        r.value() == poly_eval_spec(scalar_values(f@), x.value()),
{
    let ghost vals = scalar_values(f@);
    let mut r = Scalar::zero();
    let mut i: usize = f.len();
    proof {
        assert(vals.skip(i as int) =~= Seq::<nat>::empty());
    }
    while i > 0
        invariant
            i <= f@.len(),
            scalars_wf(f@),
            x.wf(),
            r.wf(),
            vals == scalar_values(f@),
            r.value() == poly_eval_spec(vals.skip(i as int), x.value()),
        decreases i,
    {
        i -= 1;
        let t = scalar_mul(&r, x);
        let next = scalar_add(&t, &f[i]);
        proof {
            let tail = vals.skip(i as int);
            assert(tail.len() == vals.len() - i);
            assert(tail[0] == vals[i as int]);
            assert(tail.drop_first() =~= vals.skip(i as int + 1));
            assert(poly_eval_spec(tail, x.value()) == (vals[i as int] + x.value()
                * poly_eval_spec(tail.drop_first(), x.value())) % fr_order());
            vstd::arithmetic::div_mod::lemma_add_mod_noop_right(
                vals[i as int] as int, (x.value() * r.value()) as int, fr_order() as int);
        }
        r = next;
    }
    proof {
        assert(vals.skip(0) =~= vals);
    }
    r
}

/// A vector of `n` zero coefficients.
fn zero_poly(n: usize) -> (r: Vec<Scalar>)
    ensures
        r@.len() == n,
        scalars_wf(r@),
        forall|k: int| 0 <= k < n ==> (#[trigger] r@[k]).value() == 0,
{
    let mut r: Vec<Scalar> = Vec::new();
    let mut i: usize = 0;
    while i < n
        invariant
            i <= n,
            r@.len() == i,
            scalars_wf(r@),
            forall|k: int| 0 <= k < i ==> (#[trigger] r@[k]).value() == 0,
        decreases n - i,
    {
        r.push(Scalar::zero());
        i += 1;
    }
    r
}

/// Schoolbook multiplication: the coefficient of degree `k` of the result
/// is the full convolution of the coefficients of `f` and `g` at `k`.
pub fn poly_mul_slow(f: &Vec<Scalar>, g: &Vec<Scalar>) -> (r: Vec<Scalar>)
    requires
        1 <= f@.len(),
        1 <= g@.len(),
        f@.len() + g@.len() <= 0x10000000,
        scalars_wf(f@),
        scalars_wf(g@),
    ensures
        r@.len() == f@.len() + g@.len() - 1,
        scalars_wf(r@),
        forall|k: int|
            0 <= k < r@.len() ==> (#[trigger] r@[k]).value() == conv_at(
                scalar_values(f@), scalar_values(g@), k),
{
    let ghost fv = scalar_values(f@);
    let ghost gv = scalar_values(g@);
    let n = f.len();
    let m = g.len();
    let mut r = zero_poly(n + m - 1);
    let mut i: usize = 0;
    while i < n
        invariant
            i <= n,
            n + m <= 0x10000000,
            n == f@.len(),
            m == g@.len(),
            r@.len() == n + m - 1,
            scalars_wf(f@),
            scalars_wf(g@),
            scalars_wf(r@),
            fv == scalar_values(f@),
            gv == scalar_values(g@),
            forall|k: int|
                0 <= k < r@.len() ==> (#[trigger] r@[k]).value() == conv_partial(fv, gv, k, i as int),
        decreases n - i,
    {
        proof {
            assert forall|k: int| 0 <= k < i implies #[trigger] conv_partial(fv, gv, k, i + 1)
                == conv_partial(fv, gv, k, i as int) by {
                lemma_conv_partial_out(fv, gv, k, i + 1);
            }
        }
        let mut j: usize = 0;
        while j < m
            invariant
                j <= m,
                i < n,
                n + m <= 0x10000000,
                n == f@.len(),
                m == g@.len(),
                r@.len() == n + m - 1,
                scalars_wf(f@),
                scalars_wf(g@),
                scalars_wf(r@),
                fv == scalar_values(f@),
                gv == scalar_values(g@),
                forall|k: int|
                    0 <= k < i + j ==> (#[trigger] r@[k]).value() == conv_partial(fv, gv, k, i + 1),
                forall|k: int|
                    i + j <= k < r@.len() ==> (#[trigger] r@[k]).value() == conv_partial(
                        fv, gv, k, i as int),
            decreases m - j,
        {
            let idx = i + j;
            let prod = scalar_mul(&f[i], &g[j]);
            let updated = scalar_add(&r[idx], &prod);
            proof {
                assert(conv_partial(fv, gv, idx as int, i + 1) == add_fr(
                    conv_partial(fv, gv, idx as int, i as int),
                    mul_fr(fv[i as int], gv[j as int])));
            }
            r.set(idx, updated);
            j += 1;
        }
        proof {
            assert forall|k: int| i + m <= k < r@.len() implies #[trigger] r@[k].value()
                == conv_partial(fv, gv, k, i + 1) by {
                lemma_conv_partial_out(fv, gv, k, i + 1);
            }
        }
        i += 1;
    }
    r
}

/// Multiplies `f` by the monomial of degree `n`: prepends `n` zero
/// coefficients.
pub fn poly_xnmul(f: &Vec<Scalar>, n: usize) -> (r: Vec<Scalar>)
    requires
        scalars_wf(f@),
        f@.len() + n <= 0x10000000,
    ensures
        r@.len() == n + f@.len(),
        scalars_wf(r@),
        forall|k: int| 0 <= k < n ==> (#[trigger] r@[k]).value() == 0,
        forall|k: int|
            n <= k < r@.len() ==> (#[trigger] r@[k]).value() == f@[k - n].value(),
{
    let mut r = zero_poly(n);
    let mut i: usize = 0;
    while i < f.len()
        invariant
            i <= f@.len(),
            r@.len() == n + i,
            scalars_wf(f@),
            scalars_wf(r@),
            forall|k: int| 0 <= k < n ==> (#[trigger] r@[k]).value() == 0,
            forall|k: int| n <= k < r@.len() ==> (#[trigger] r@[k]).value() == f@[k - n].value(),
        decreases f@.len() - i,
    {
        r.push(f[i].clone());
        i += 1;
    }
    r
}

/// Adds two polynomials coefficient-wise; the result has the length of the
/// longer one.
fn poly_add(f: &Vec<Scalar>, g: &Vec<Scalar>) -> (r: Vec<Scalar>)
    requires
        scalars_wf(f@),
        scalars_wf(g@),
    ensures
        r@.len() == if f@.len() >= g@.len() { f@.len() } else { g@.len() },
        scalars_wf(r@),
{
    let (longer, shorter) = if f.len() >= g.len() {
        (f, g)
    } else {
        (g, f)
    };
    let mut r: Vec<Scalar> = Vec::new();
    let mut i: usize = 0;
    while i < shorter.len()
        invariant
            i <= shorter@.len(),
            shorter@.len() <= longer@.len(),
            r@.len() == i,
            scalars_wf(longer@),
            scalars_wf(shorter@),
            scalars_wf(r@),
        decreases shorter@.len() - i,
    {
        r.push(scalar_add(&longer[i], &shorter[i]));
        i += 1;
    }
    while i < longer.len()
        invariant
            i <= longer@.len(),
            r@.len() == i,
            scalars_wf(longer@),
            scalars_wf(r@),
        decreases longer@.len() - i,
    {
        r.push(longer[i].clone());
        i += 1;
    }
    r
}

/// A copy of the coefficients of `v` between `start` (inclusive) and `end`
/// (exclusive).
pub(crate) fn poly_slice(v: &Vec<Scalar>, start: usize, end: usize) -> (r: Vec<Scalar>)
    requires
        start <= end <= v@.len(),
        scalars_wf(v@),
    ensures
        r@.len() == end - start,
        scalars_wf(r@),
        forall|k: int|
            0 <= k < r@.len() ==> (#[trigger] r@[k]).value() == v@[start + k].value(),
{
    let mut r: Vec<Scalar> = Vec::new();
    let mut i: usize = start;
    while i < end
        invariant
            start <= i <= end <= v@.len(),
            r@.len() == i - start,
            scalars_wf(v@),
            scalars_wf(r@),
            forall|k: int| 0 <= k < r@.len() ==> (#[trigger] r@[k]).value() == v@[start + k].value(),
        decreases end - i,
    {
        r.push(v[i].clone());
        i += 1;
    }
    r
}

/// Divide-and-conquer multiplication: splits each operand in two around half
/// the length of the shorter one, multiplies the four parts recursively, and
/// recombines them with shifts and additions. An independently written
/// reference for the FFT-based multiplication.
pub fn poly_mul_less_slow(f: &Vec<Scalar>, g: &Vec<Scalar>) -> (r: Vec<Scalar>)
    requires
        1 <= f@.len(),
        1 <= g@.len(),
        f@.len() + g@.len() <= 0x10000000,
        scalars_wf(f@),
        scalars_wf(g@),
    ensures
        r@.len() == f@.len() + g@.len() - 1,
        scalars_wf(r@),
    decreases f@.len() + g@.len(),
{
    if f.len() <= 8 || g.len() <= 8 {
        return poly_mul_slow(f, g);
    }
    let half = if f.len() < g.len() {
        f.len() / 2
    } else {
        g.len() / 2
    };
    let f_low = poly_slice(f, 0, half);
    let f_high = poly_slice(f, half, f.len());
    let g_low = poly_slice(g, 0, half);
    let g_high = poly_slice(g, half, g.len());
    let p00 = poly_mul_less_slow(&f_low, &g_low);
    let p01 = poly_mul_less_slow(&f_low, &g_high);
    let p10 = poly_mul_less_slow(&f_high, &g_low);
    let p11 = poly_mul_less_slow(&f_high, &g_high);
    let mid = poly_add(&p01, &p10);
    let mid_shifted = poly_xnmul(&mid, half);
    let high_shifted = poly_xnmul(&p11, 2 * half);
    let low_and_mid = poly_add(&p00, &mid_shifted);
    poly_add(&low_and_mid, &high_shifted)
}

/// FFT-based multiplication: evaluates both operands over the smallest
/// power-of-two domain covering the degree of the product, multiplies the
/// evaluations pointwise, and interpolates back.
pub fn poly_mul_fft(f: &Vec<Scalar>, g: &Vec<Scalar>) -> (r: Vec<Scalar>)
    requires
        1 <= f@.len(),
        1 <= g@.len(),
        f@.len() + g@.len() <= 0x10000000,
        scalars_wf(f@),
        scalars_wf(g@),
    ensures
        r@.len() == f@.len() + g@.len() - 1,
        scalars_wf(r@),
{
    let target = f.len() + g.len() - 1;
    let batch = BatchEvaluationDomain::new(target);
    let dom = batch.get_subdomain(target);
    let f_evals = fft(f, &dom);
    let g_evals = fft(g, &dom);
    let mut h_evals: Vec<Scalar> = Vec::new();
    let mut i: usize = 0;
    while i < f_evals.len()
        invariant
            i <= f_evals@.len(),
            f_evals@.len() == g_evals@.len(),
            h_evals@.len() == i,
            scalars_wf(f_evals@),
            scalars_wf(g_evals@),
            scalars_wf(h_evals@),
        decreases f_evals@.len() - i,
    {
        h_evals.push(scalar_mul(&f_evals[i], &g_evals[i]));
        i += 1;
    }
    let coeffs = ifft(&h_evals, &dom);
    poly_slice(&coeffs, 0, target)
}

/// The coefficients of the monomial of degree `n`: `n` zeros and then a one.
pub open spec fn monomial_values(n: int) -> Seq<nat> {
    Seq::new((n + 1) as nat, |i: int| if i == n { 1nat } else { 0nat })
}

/// One prefix of the convolution with a monomial: only the term at index
/// `k - n` contributes, and it contributes the coefficient itself.
proof fn lemma_conv_monomial_partial(f: Seq<nat>, n: int, k: int, upto: int)
    requires
        forall|i: int| 0 <= i < f.len() ==> f[i] < fr_order(),
        n >= 0,
        upto <= f.len(),
    ensures
        conv_partial(f, monomial_values(n), k, upto) == if n <= k && k - n < upto {
            f[k - n]
        } else {
            0nat
        },
    decreases upto,
{
    if upto <= 0 {
    } else {
        lemma_conv_monomial_partial(f, n, k, upto - 1);
        let g = monomial_values(n);
        let i = upto - 1;
        let prior = conv_partial(f, g, k, upto - 1);
        assert(prior < fr_order());
        vstd::arithmetic::div_mod::lemma_small_mod(prior, fr_order());
        if 0 <= k - i < g.len() && i < f.len() {
            if k - i == n {
                assert(g[k - i] == 1nat);
                assert(prior == 0);
                assert(mul_fr(f[i], 1) == f[i]) by {
                    vstd::arithmetic::div_mod::lemma_small_mod(f[i], fr_order());
                }
                assert(add_fr(0, f[i]) == f[i]) by {
                    vstd::arithmetic::div_mod::lemma_small_mod(f[i], fr_order());
                }
            } else {
                assert(g[k - i] == 0nat);
                assert(f[i] * 0 == 0) by (nonlinear_arith);
                assert(mul_fr(f[i], 0) == 0);
            }
        }
    }
}

/// Multiplying a polynomial by the explicit monomial of degree `n` shifts
/// its coefficients up by `n` places: the convolution that `poly_mul_slow`
/// computes against `monomial_values(n)` is, index for index, the vector
/// that `poly_xnmul` returns — zeros below `n`, and `f[k - n]` from `n` on.
pub proof fn lemma_xnmul_is_monomial_mul(f: Seq<nat>, n: int)
    requires
        forall|i: int| 0 <= i < f.len() ==> f[i] < fr_order(),
        n >= 0,
    ensures
        forall|k: int|
            0 <= k < f.len() + n ==> conv_at(f, monomial_values(n), k) == (if n <= k {
                f[k - n]
            } else {
                0nat
            }),
{
    assert forall|k: int| 0 <= k < f.len() + n implies conv_at(f, monomial_values(n), k) == (
    if n <= k {
        f[k - n]
    } else {
        0nat
    }) by {
        lemma_conv_monomial_partial(f, n, k, f.len() as int);
    }
}

/// The even-index coefficients of a polynomial.
pub open spec fn even_coeffs(c: Seq<nat>) -> Seq<nat> {
    Seq::new((c.len() + 1) / 2, |i: int| c[2 * i])
}

/// The odd-index coefficients of a polynomial.
pub open spec fn odd_coeffs(c: Seq<nat>) -> Seq<nat> {
    Seq::new(c.len() / 2, |i: int| c[2 * i + 1])
}

/// Replacing a summand by one with the same residue keeps the sum's residue.
proof fn lemma_add_term_mod(a: nat, t1: nat, t2: nat)
    requires
        t1 % fr_order() == t2 % fr_order(),
    ensures
        (a + t1) % fr_order() == (a + t2) % fr_order(),
{
    vstd::arithmetic::div_mod::lemma_add_mod_noop_right(a as int, t1 as int, fr_order() as int);
    vstd::arithmetic::div_mod::lemma_add_mod_noop_right(a as int, t2 as int, fr_order() as int);
}

/// A factor may be reduced before multiplying without changing the residue.
proof fn lemma_mul_resid(a: nat, t: nat)
    ensures
        (a * (t % fr_order())) % fr_order() == (a * t) % fr_order(),
{
    vstd::arithmetic::div_mod::lemma_mul_mod_noop_right(a as int, t as int, fr_order() as int);
}

/// Horner evaluation splits into the even and odd coefficients:
/// `f(x) = f_even(x^2) + x * f_odd(x^2)` in the field.
pub proof fn lemma_poly_eval_split(c: Seq<nat>, x: nat)
    ensures
        poly_eval_spec(c, x) == add_fr(
            poly_eval_spec(even_coeffs(c), mul_fr(x, x)),
            mul_fr(x, poly_eval_spec(odd_coeffs(c), mul_fr(x, x))),
        ),
    decreases c.len(),
{
    let q = fr_order();
    let y = mul_fr(x, x);
    if c.len() == 0 {
        assert(even_coeffs(c) =~= Seq::<nat>::empty());
        assert(odd_coeffs(c) =~= Seq::<nat>::empty());
        assert(x * 0 == 0) by (nonlinear_arith);
        assert(add_fr(0, mul_fr(x, 0)) == 0) by {
            vstd::arithmetic::div_mod::lemma_small_mod(0nat, q);
        }
    } else if c.len() == 1 {
        assert(even_coeffs(c) =~= seq![c[0]]);
        assert(odd_coeffs(c) =~= Seq::<nat>::empty());
        assert(c.drop_first() =~= Seq::<nat>::empty());
        assert(seq![c[0]].drop_first() =~= Seq::<nat>::empty());
        assert(x * 0 == 0) by (nonlinear_arith);
        assert(y * 0 == 0) by (nonlinear_arith);
        assert(poly_eval_spec(c, x) == c[0] % q) by {
            assert(poly_eval_spec(c, x) == (c[0] + x * poly_eval_spec(c.drop_first(), x)) % q);
        }
        assert(poly_eval_spec(seq![c[0]], y) == c[0] % q) by {
            assert(poly_eval_spec(seq![c[0]], y) == (c[0] + y * poly_eval_spec(
                seq![c[0]].drop_first(), y)) % q);
        }
        assert(mul_fr(x, 0) == 0) by {
            vstd::arithmetic::div_mod::lemma_small_mod(0nat, q);
        }
        assert(add_fr(c[0] % q, 0) == c[0] % q) by {
            vstd::arithmetic::div_mod::lemma_mod_twice(c[0] as int, q as int);
        }
    } else {
        let c0 = c[0];
        let c1 = c[1];
        let rest1 = c.drop_first();
        let rest2 = rest1.drop_first();
        lemma_poly_eval_split(rest2, x);
        let ec = even_coeffs(c);
        let oc = odd_coeffs(c);
        assert(ec.drop_first() =~= even_coeffs(rest2));
        assert(oc.drop_first() =~= odd_coeffs(rest2));
        assert(ec[0] == c0);
        assert(oc[0] == c1);
        let ev = poly_eval_spec(even_coeffs(rest2), y);
        let ov = poly_eval_spec(odd_coeffs(rest2), y);
        let big_r = poly_eval_spec(rest2, x);
        let xx = x * x;
        // the left side, brought to (c0 + x*c1 + xx*ev + xx*(x*ov)) % q
        assert(poly_eval_spec(c, x) == (c0 + x * poly_eval_spec(rest1, x)) % q);
        assert(poly_eval_spec(rest1, x) == (c1 + x * big_r) % q);
        lemma_mul_resid(x, c1 + x * big_r);
        lemma_add_term_mod(c0, x * ((c1 + x * big_r) % q), x * (c1 + x * big_r));
        assert(x * (c1 + x * big_r) == x * c1 + xx * big_r) by (nonlinear_arith)
            requires
                xx == x * x,
        ;
        assert(poly_eval_spec(c, x) == (c0 + x * c1 + xx * big_r) % q);
        // substitute the induction hypothesis for big_r
        assert(big_r == (ev + (x * ov) % q) % q);
        lemma_mul_resid(xx, ev + (x * ov) % q);
        lemma_add_term_mod(
            c0 + x * c1, xx * ((ev + (x * ov) % q) % q), xx * (ev + (x * ov) % q));
        let m_ov = (x * ov) % q;
        assert(xx * (ev + m_ov) == xx * ev + xx * m_ov) by (nonlinear_arith);
        lemma_mul_resid(xx, x * ov);
        lemma_add_term_mod(c0 + x * c1 + xx * ev, xx * ((x * ov) % q), xx * (x * ov));
        assert(poly_eval_spec(c, x) == (c0 + x * c1 + xx * ev + xx * (x * ov)) % q);
        // the right side, brought to the same form
        assert(poly_eval_spec(ec, y) == (c0 + y * ev) % q);
        assert(poly_eval_spec(oc, y) == (c1 + y * ov) % q);
        let rhs = add_fr(poly_eval_spec(ec, y), mul_fr(x, poly_eval_spec(oc, y)));
        assert(rhs == ((c0 + y * ev) % q + (x * ((c1 + y * ov) % q)) % q) % q);
        lemma_mul_resid(x, c1 + y * ov);
        vstd::arithmetic::div_mod::lemma_mod_twice((x * (c1 + y * ov)) as int, q as int);
        lemma_add_term_mod((c0 + y * ev) % q, (x * ((c1 + y * ov) % q)) % q, x * (c1 + y * ov));
        vstd::arithmetic::div_mod::lemma_mod_twice((c0 + y * ev) as int, q as int);
        lemma_add_term_mod(x * (c1 + y * ov), (c0 + y * ev) % q, c0 + y * ev);
        assert(rhs == (c0 + y * ev + x * (c1 + y * ov)) % q);
        assert(x * (c1 + y * ov) == x * c1 + x * (y * ov)) by (nonlinear_arith);
        assert(rhs == (c0 + y * ev + x * c1 + x * (y * ov)) % q);
        // replace y by xx in both remaining terms
        assert((y * ev) % q == (xx * ev) % q) by {
            vstd::arithmetic::div_mod::lemma_mul_mod_noop_left(xx as int, ev as int, q as int);
        }
        lemma_add_term_mod(c0 + x * c1 + x * (y * ov), y * ev, xx * ev);
        assert((y * ov) % q == (xx * ov) % q) by {
            vstd::arithmetic::div_mod::lemma_mul_mod_noop_left(xx as int, ov as int, q as int);
        }
        lemma_mul_resid(x, y * ov);
        lemma_mul_resid(x, xx * ov);
        assert((x * (y * ov)) % q == (x * (xx * ov)) % q);
        lemma_add_term_mod(c0 + x * c1 + xx * ev, x * (y * ov), x * (xx * ov));
        assert(x * (xx * ov) == xx * (x * ov)) by (nonlinear_arith);
        assert(rhs == (c0 + x * c1 + xx * ev + xx * (x * ov)) % q);
    }
}

/// Appending a zero coefficient does not change any evaluation.
pub proof fn lemma_poly_eval_push_zero(c: Seq<nat>, x: nat)
    ensures
        poly_eval_spec(c.push(0nat), x) == poly_eval_spec(c, x),
    decreases c.len(),
{
    if c.len() == 0 {
        assert(c.push(0nat).drop_first() =~= Seq::<nat>::empty());
        assert(c.push(0nat)[0] == 0nat);
        assert(x * 0 == 0) by (nonlinear_arith);
        assert(poly_eval_spec(c.push(0nat), x) == (c.push(0nat)[0] + x * poly_eval_spec(
            c.push(0nat).drop_first(), x)) % fr_order());
        assert(0nat % fr_order() == 0) by {
            vstd::arithmetic::div_mod::lemma_small_mod(0nat, fr_order());
        }
    } else {
        assert(c.push(0nat).drop_first() =~= c.drop_first().push(0nat));
        assert(c.push(0nat)[0] == c[0]);
        lemma_poly_eval_push_zero(c.drop_first(), x);
    }
}

/// Extending a polynomial with zero coefficients does not change any
/// evaluation.
pub proof fn lemma_poly_eval_pad(c: Seq<nat>, padded: Seq<nat>, x: nat)
    requires
        c.len() <= padded.len(),
        forall|i: int| 0 <= i < c.len() ==> padded[i] == c[i],
        forall|i: int| c.len() <= i < padded.len() ==> padded[i] == 0,
    ensures
        poly_eval_spec(padded, x) == poly_eval_spec(c, x),
    decreases padded.len() - c.len(),
{
    if padded.len() == c.len() {
        assert(padded =~= c);
    } else {
        let shorter = padded.drop_last();
        assert(padded =~= shorter.push(0nat));
        lemma_poly_eval_push_zero(shorter, x);
        lemma_poly_eval_pad(c, shorter, x);
    }
}

} // verus!
