//! The radix-2 Cooley-Tukey transform over the scalar field: evaluates a
//! polynomial at all the roots of unity of an evaluation domain. The
//! transform is proved pointwise: entry `j` of the result is the Horner
//! evaluation of the coefficients at the `j`-th power of the root.

use vstd::prelude::*;
use crate::algebra::arith::{
    fr_order, lemma_add_neg_one_times, lemma_inv_mod_order_facts, lemma_pow_mod_adds,
    lemma_pow_mod_mul, lemma_pow_mod_two, mul_fr, pow_mod,
};
use crate::algebra::evaluation_domain::EvaluationDomain;
use crate::algebra::polynomials::{
    even_coeffs, lemma_poly_eval_pad, lemma_poly_eval_split, odd_coeffs, poly_eval_spec,
};
use crate::algebra::scalar::{
    scalar_add, scalar_mul, scalar_sub, scalar_values, scalars_wf, Scalar,
};
use crate::utils::{is_pow2, lemma_pow2_is_pow2};

verus! {

/// Extends a copy of `coeffs` with zero coefficients up to length `n`.
fn pad_zeros(coeffs: &Vec<Scalar>, n: usize) -> (r: Vec<Scalar>)
    requires
        scalars_wf(coeffs@),
        coeffs@.len() <= n,
    ensures
        r@.len() == n,
        scalars_wf(r@),
        forall|i: int|
            0 <= i < coeffs@.len() ==> (#[trigger] r@[i]).value() == coeffs@[i].value(),
        forall|i: int| coeffs@.len() <= i < n ==> (#[trigger] r@[i]).value() == 0,
{
    let mut r: Vec<Scalar> = Vec::new();
    let mut i: usize = 0;
    while i < coeffs.len()
        invariant
            i <= coeffs@.len(),
            r@.len() == i,
            scalars_wf(coeffs@),
            scalars_wf(r@),
            forall|j: int| 0 <= j < i ==> (#[trigger] r@[j]).value() == coeffs@[j].value(),
        decreases coeffs@.len() - i,
    {
        r.push(coeffs[i].clone());
        i += 1;
    }
    while i < n
        invariant
            coeffs@.len() <= i <= n,
            r@.len() == i,
            scalars_wf(r@),
            forall|j: int| 0 <= j < coeffs@.len() ==> (#[trigger] r@[j]).value() == coeffs@[j].value(),
            forall|j: int| coeffs@.len() <= j < i ==> (#[trigger] r@[j]).value() == 0,
        decreases n - i,
    {
        r.push(Scalar::zero());
        i += 1;
    }
    r
}

/// One level of the radix-2 divide-and-conquer: splits into even and odd
/// coefficients, transforms each half at the squared root of unity, and
/// recombines with the twiddle factors. Entry `j` of the result is the
/// evaluation of the coefficients at the `j`-th power of `omega`.
#[verifier::rlimit(60)]
fn fft_rec(coeffs: &Vec<Scalar>, omega: &Scalar) -> (r: Vec<Scalar>)
    requires
        is_pow2(coeffs@.len() as nat),
        coeffs@.len() <= 0x40000000,
        scalars_wf(coeffs@),
        omega.wf(),
        pow_mod(omega.value(), coeffs@.len() as nat) == 1,
        coeffs@.len() >= 2 ==> pow_mod(omega.value(), (coeffs@.len() / 2) as nat) == (fr_order()
            - 1) as nat,
    ensures
        r@.len() == coeffs@.len(),
        scalars_wf(r@),
        forall|j: int|
            0 <= j < r@.len() ==> (#[trigger] r@[j]).value() == poly_eval_spec(
                scalar_values(coeffs@), pow_mod(omega.value(), j as nat)),
    decreases coeffs@.len(),
{
    let ghost cv = scalar_values(coeffs@);
    let ghost wv = omega.value();
    let n = coeffs.len();
    if n == 1 {
        let mut r: Vec<Scalar> = Vec::new();
        r.push(coeffs[0].clone());
        proof {
            vstd::arithmetic::div_mod::lemma_small_mod(1nat, fr_order());
            assert(pow_mod(wv, 0) == 1);
            assert(cv.drop_first() =~= Seq::<nat>::empty());
            assert(poly_eval_spec(cv, 1) == (cv[0] + 1 * poly_eval_spec(
                cv.drop_first(), 1)) % fr_order());
            assert(coeffs@[0].wf());
            vstd::arithmetic::div_mod::lemma_small_mod(cv[0], fr_order());
        }
        return r;
    }
    proof {
        assert(n > 1);
        assert(n % 2 == 0 && is_pow2((n / 2) as nat));
    }
    let half = n / 2;
    let mut evens: Vec<Scalar> = Vec::new();
    let mut odds: Vec<Scalar> = Vec::new();
    let mut i: usize = 0;
    while i < half
        invariant
            i <= half,
            2 * half == coeffs@.len(),
            coeffs@.len() <= 0x40000000,
            evens@.len() == i,
            odds@.len() == i,
            scalars_wf(coeffs@),
            scalars_wf(evens@),
            scalars_wf(odds@),
            forall|k: int|
                0 <= k < i ==> (#[trigger] evens@[k]).value() == coeffs@[2 * k].value(),
            forall|k: int|
                0 <= k < i ==> (#[trigger] odds@[k]).value() == coeffs@[2 * k + 1].value(),
        decreases half - i,
    {
        evens.push(coeffs[2 * i].clone());
        odds.push(coeffs[2 * i + 1].clone());
        i += 1;
    }
    proof {
        assert(scalar_values(evens@) =~= even_coeffs(cv));
        assert(scalar_values(odds@) =~= odd_coeffs(cv));
    }
    let omega_sq = scalar_mul(omega, omega);
    let ghost wsqv = omega_sq.value();
    proof {
        lemma_pow_mod_two(wv);
        lemma_pow_mod_mul(wv, 2, (half) as nat);
        assert(pow_mod(wsqv, half as nat) == pow_mod(wv, n as nat));
        if half >= 2 {
            assert(half % 2 == 0);
            lemma_pow_mod_mul(wv, 2, (half / 2) as nat);
            assert(2 * ((half / 2) as nat) == half as nat);
            assert(pow_mod(wsqv, (half / 2) as nat) == pow_mod(wv, half as nat));
        }
    }
    let e = fft_rec(&evens, &omega_sq);
    let o = fft_rec(&odds, &omega_sq);
    let mut low: Vec<Scalar> = Vec::new();
    let mut high: Vec<Scalar> = Vec::new();
    let mut w = Scalar::one();
    proof {
        vstd::arithmetic::div_mod::lemma_small_mod(1nat, fr_order());
    }
    let mut j: usize = 0;
    while j < half
        invariant
            j <= half,
            2 * half == coeffs@.len(),
            e@.len() == half,
            o@.len() == half,
            low@.len() == j,
            high@.len() == j,
            scalars_wf(e@),
            scalars_wf(o@),
            scalars_wf(low@),
            scalars_wf(high@),
            w.wf(),
            omega.wf(),
            wv == omega.value(),
            wsqv == omega_sq.value(),
            cv == scalar_values(coeffs@),
            scalar_values(evens@) == even_coeffs(cv),
            scalar_values(odds@) == odd_coeffs(cv),
            pow_mod(wv, coeffs@.len() as nat) == 1,
            pow_mod(wv, half as nat) == (fr_order() - 1) as nat,
            wsqv == pow_mod(wv, 2),
            w.value() == pow_mod(wv, j as nat),
            forall|k: int|
                0 <= k < half ==> (#[trigger] e@[k]).value() == poly_eval_spec(
                    even_coeffs(cv), pow_mod(wsqv, k as nat)),
            forall|k: int|
                0 <= k < half ==> (#[trigger] o@[k]).value() == poly_eval_spec(
                    odd_coeffs(cv), pow_mod(wsqv, k as nat)),
            forall|k: int|
                0 <= k < j ==> (#[trigger] low@[k]).value() == poly_eval_spec(
                    cv, pow_mod(wv, k as nat)),
            forall|k: int|
                0 <= k < j ==> (#[trigger] high@[k]).value() == poly_eval_spec(
                    cv, pow_mod(wv, (k + half) as nat)),
        decreases half - j,
    {
        let t = scalar_mul(&w, &o[j]);
        low.push(scalar_add(&e[j], &t));
        high.push(scalar_sub(&e[j], &t));
        proof {
            let q = fr_order();
            let xj = pow_mod(wv, j as nat);
            let ej = e@[j as int].value();
            let oj = o@[j as int].value();
            // the twiddle point squared is the half-size domain point
            lemma_pow_mod_adds(wv, j as nat, j as nat);
            lemma_pow_mod_mul(wv, 2, j as nat);
            assert(mul_fr(xj, xj) == pow_mod(wsqv, j as nat));
            // the low half: evaluation at the j-th power itself
            lemma_poly_eval_split(cv, xj);
            assert(low@[j as int].value() == poly_eval_spec(cv, pow_mod(wv, j as nat)));
            // the high half: evaluation at the (j + half)-th power, which is
            // the j-th power times the square root of one
            let xh = pow_mod(wv, (j + half) as nat);
            lemma_pow_mod_adds(wv, j as nat, half as nat);
            assert(xh == mul_fr(xj, (q - 1) as nat));
            lemma_poly_eval_split(cv, xh);
            lemma_pow_mod_adds(wv, (j + half) as nat, (j + half) as nat);
            lemma_pow_mod_adds(wv, (2 * j) as nat, coeffs@.len() as nat);
            assert((j + half) + (j + half) == 2 * j + coeffs@.len());
            assert(mul_fr(pow_mod(wv, (2 * j) as nat), 1nat) == pow_mod(wv, (2 * j) as nat)) by {
                assert(pow_mod(wv, (2 * j) as nat) * 1 == pow_mod(wv, (2 * j) as nat))
                    by (nonlinear_arith);
                vstd::arithmetic::div_mod::lemma_small_mod(pow_mod(wv, (2 * j) as nat), q);
            }
            assert(mul_fr(xh, xh) == pow_mod(wsqv, j as nat));
            // x * (q - 1) times oj regroups to (q - 1) times (x * oj)
            assert(mul_fr(mul_fr(xj, (q - 1) as nat), oj) == mul_fr(
                (q - 1) as nat, mul_fr(xj, oj))) by {
                crate::algebra::arith::lemma_mul_fr_assoc(xj, (q - 1) as nat, oj);
                crate::algebra::arith::lemma_mul_fr_assoc((q - 1) as nat, xj, oj);
            }
            lemma_add_neg_one_times(ej, mul_fr(xj, oj));
            assert(high@[j as int].value() == poly_eval_spec(cv, pow_mod(wv, (j + half) as nat)));
        }
        let next = scalar_mul(&w, omega);
        proof {
            assert(pow_mod(wv, (j + 1) as nat) == (wv * pow_mod(wv, j as nat)) % fr_order());
        }
        w = next;
        j += 1;
    }
    let mut r = low;
    let mut j: usize = 0;
    while j < half
        invariant
            j <= half,
            2 * half == coeffs@.len(),
            high@.len() == half,
            r@.len() == half + j,
            scalars_wf(high@),
            scalars_wf(r@),
            wv == omega.value(),
            cv == scalar_values(coeffs@),
            forall|k: int|
                0 <= k < half ==> (#[trigger] r@[k]).value() == poly_eval_spec(
                    cv, pow_mod(wv, k as nat)),
            forall|k: int|
                0 <= k < half ==> (#[trigger] high@[k]).value() == poly_eval_spec(
                    cv, pow_mod(wv, (k + half) as nat)),
            forall|k: int|
                half <= k < r@.len() ==> (#[trigger] r@[k]).value() == poly_eval_spec(
                    cv, pow_mod(wv, k as nat)),
        decreases half - j,
    {
        r.push(high[j].clone());
        proof {
            assert(r@[(half + j) as int].value() == poly_eval_spec(
                cv, pow_mod(wv, (j + half) as nat)));
        }
        j += 1;
    }
    r
}

/// Evaluates the polynomial with the given coefficients at all the roots of
/// unity of the domain: entry `j` of the result is the evaluation at the
/// `j`-th power of the domain's root.
pub fn fft(coeffs: &Vec<Scalar>, dom: &EvaluationDomain) -> (r: Vec<Scalar>)
    requires
        dom.wf(),
        scalars_wf(coeffs@),
        coeffs@.len() <= dom.size_spec(),
    ensures
        r@.len() == dom.size_spec(),
        scalars_wf(r@),
        forall|j: int|
            0 <= j < r@.len() ==> (#[trigger] r@[j]).value() == poly_eval_spec(
                scalar_values(coeffs@), pow_mod(dom.omega_val(), j as nat)),
{
    proof {
        lemma_pow2_is_pow2(dom.log_size_spec());
        crate::algebra::evaluation_domain::lemma_domain_size_bound(dom);
    }
    let n = dom.size();
    let padded = pad_zeros(coeffs, n);
    let omega = dom.get_omega();
    let r = fft_rec(&padded, &omega);
    proof {
        assert forall|i: int|
            0 <= i < scalar_values(coeffs@).len() implies scalar_values(padded@)[i]
            == scalar_values(coeffs@)[i] by {
            assert(padded@[i].value() == coeffs@[i].value());
        }
        assert forall|j: int| 0 <= j < r@.len() implies (#[trigger] r@[j]).value()
            == poly_eval_spec(scalar_values(coeffs@), pow_mod(dom.omega_val(), j as nat)) by {
            lemma_poly_eval_pad(
                scalar_values(coeffs@),
                scalar_values(padded@),
                pow_mod(dom.omega_val(), j as nat),
            );
        }
    }
    r
}

/// Replaces `coeffs` by its forward transform over the domain.
pub fn fft_assign(coeffs: &mut Vec<Scalar>, dom: &EvaluationDomain)
    requires
        dom.wf(),
        scalars_wf(old(coeffs)@),
        old(coeffs)@.len() <= dom.size_spec(),
    ensures
        final(coeffs)@.len() == dom.size_spec(),
        scalars_wf(final(coeffs)@),
        forall|j: int|
            0 <= j < final(coeffs)@.len() ==> (#[trigger] final(coeffs)@[j]).value()
                == poly_eval_spec(
                scalar_values(old(coeffs)@), pow_mod(dom.omega_val(), j as nat)),
{
    let r = fft(coeffs, dom);
    *coeffs = r;
}

/// The inverse transform: interpolates the coefficients of the polynomial
/// whose evaluations over the domain are given. Entry `j` of the result is
/// the evaluation of the input, read as coefficients, at the `j`-th power of
/// the inverse root, scaled by the inverse of the size.
pub fn ifft(evals: &Vec<Scalar>, dom: &EvaluationDomain) -> (r: Vec<Scalar>)
    requires
        dom.wf(),
        scalars_wf(evals@),
        evals@.len() == dom.size_spec(),
    ensures
        r@.len() == dom.size_spec(),
        scalars_wf(r@),
        forall|j: int|
            0 <= j < r@.len() ==> (#[trigger] r@[j]).value() == mul_fr(
                dom.size_inv_val(),
                poly_eval_spec(scalar_values(evals@), pow_mod(dom.omega_inv_val(), j as nat)),
            ),
{
    proof {
        lemma_pow2_is_pow2(dom.log_size_spec());
        crate::algebra::evaluation_domain::lemma_domain_size_bound(dom);
        lemma_inv_mod_order_facts(dom.omega_val(), dom.size_spec());
    }
    let omega_inv = dom.get_omega_inv();
    let unscaled = fft_rec(evals, &omega_inv);
    let size_inv = dom.get_size_inv();
    let mut r: Vec<Scalar> = Vec::new();
    let mut i: usize = 0;
    while i < unscaled.len()
        invariant
            i <= unscaled@.len(),
            r@.len() == i,
            scalars_wf(unscaled@),
            scalars_wf(r@),
            size_inv.wf(),
            size_inv.value() == dom.size_inv_val(),
            forall|k: int|
                0 <= k < unscaled@.len() ==> (#[trigger] unscaled@[k]).value() == poly_eval_spec(
                    scalar_values(evals@), pow_mod(dom.omega_inv_val(), k as nat)),
            forall|k: int|
                0 <= k < i ==> (#[trigger] r@[k]).value() == mul_fr(
                    dom.size_inv_val(),
                    poly_eval_spec(scalar_values(evals@), pow_mod(dom.omega_inv_val(), k as nat)),
                ),
        decreases unscaled@.len() - i,
    {
        r.push(scalar_mul(&size_inv, &unscaled[i]));
        i += 1;
    }
    r
}

} // verus!
