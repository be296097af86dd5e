//! Lagrange interpolation coefficients over roots-of-unity domains: the
//! weights with which evaluations of a polynomial combine to its value at
//! another point. Each coefficient is pinned to its defining product
//! formula in the scalar field.

use vstd::prelude::*;
use crate::algebra::arith::{
    fr_order, inv_mod, lemma_mul_fr_assoc, mul_fr, pow_mod, sub_fr,
};
use crate::algebra::evaluation_domain::{invert_or_zero, BatchEvaluationDomain};
use crate::algebra::scalar::{
    scalar_mul, scalar_sub, scalar_values, scalars_wf, Scalar,
};

verus! {

/// The product of a sequence of field values.
pub open spec fn prod_fr(s: Seq<nat>) -> nat
    decreases s.len(),
{
    if s.len() == 0 {
        1
    } else {
        mul_fr(s[0], prod_fr(s.drop_first()))
    }
}

/// Every product lies below the field order.
pub proof fn lemma_prod_fr_bound(s: Seq<nat>)
    ensures
        prod_fr(s) < fr_order(),
    decreases s.len(),
{
    if s.len() == 0 {
    } else {
        lemma_prod_fr_bound(s.drop_first());
    }
}

/// Appending a factor multiplies the product by it.
pub proof fn lemma_prod_fr_push(s: Seq<nat>, x: nat)
    ensures
        prod_fr(s.push(x)) == mul_fr(prod_fr(s), x),
    decreases s.len(),
{
    if s.len() == 0 {
        assert(s.push(x).drop_first() =~= Seq::<nat>::empty());
        assert(s.push(x)[0] == x);
        assert(prod_fr(Seq::<nat>::empty()) == 1);
        assert(prod_fr(s.push(x)) == mul_fr(x, 1));
        assert(mul_fr(x, 1) == mul_fr(1, x));
    } else {
        assert(s.push(x).drop_first() =~= s.drop_first().push(x));
        assert(s.push(x)[0] == s[0]);
        lemma_prod_fr_push(s.drop_first(), x);
        assert(prod_fr(s.push(x)) == mul_fr(s[0], mul_fr(prod_fr(s.drop_first()), x)));
        lemma_mul_fr_assoc(s[0], prod_fr(s.drop_first()), x);
    }
}

/// The factors `base - points[j]` for all `j` except `skip`, where the
/// factor is one.
pub open spec fn sub_terms(points: Seq<nat>, base: nat, skip: int) -> Seq<nat> {
    Seq::new(points.len(), |j: int| if j == skip { 1nat } else { sub_fr(base, points[j]) })
}

/// The Lagrange coefficient for position `i` among the domain points
/// `points`, evaluated at `alpha`: the product of `alpha - points[j]` over
/// the other positions, divided by the product of `points[i] - points[j]`.
pub open spec fn lagrange_coeff_spec(points: Seq<nat>, alpha: nat, i: int) -> nat {
    mul_fr(
        prod_fr(sub_terms(points, alpha, i)),
        inv_mod(prod_fr(sub_terms(points, points[i], i))),
    )
}

/// The domain points selected by a vector of indices.
pub open spec fn selected_points(batch: &BatchEvaluationDomain, ids: Seq<usize>) -> Seq<nat> {
    Seq::new(ids.len(), |j: int| batch.omega_value(ids[j] as nat))
}

/// The product of `base - pts[j]` over all positions except `skip_idx`.
fn prod_sub(base: &Scalar, pts: &Vec<Scalar>, skip_idx: usize) -> (r: Scalar)
    requires
        base.wf(),
        scalars_wf(pts@),
    ensures
        r.wf(),
        r.value() == prod_fr(sub_terms(scalar_values(pts@), base.value(), skip_idx as int)),
{
    let ghost terms = sub_terms(scalar_values(pts@), base.value(), skip_idx as int);
    let mut acc = Scalar::one();
    proof {
        assert(terms.take(0) =~= Seq::<nat>::empty());
    }
    let mut j: usize = 0;
    while j < pts.len()
        invariant
            j <= pts@.len(),
            base.wf(),
            scalars_wf(pts@),
            acc.wf(),
            terms == sub_terms(scalar_values(pts@), base.value(), skip_idx as int),
            acc.value() == prod_fr(terms.take(j as int)),
        decreases pts@.len() - j,
    {
        proof {
            assert(terms.take(j as int + 1) =~= terms.take(j as int).push(terms[j as int]));
            lemma_prod_fr_push(terms.take(j as int), terms[j as int]);
            lemma_prod_fr_bound(terms.take(j as int));
        }
        if j != skip_idx {
            let term = scalar_sub(base, &pts[j]);
            proof {
                assert(terms[j as int] == sub_fr(base.value(), scalar_values(pts@)[j as int]));
                assert(scalar_values(pts@)[j as int] == pts@[j as int].value());
            }
            acc = scalar_mul(&acc, &term);
            proof {
                assert(acc.value() == prod_fr(terms.take(j as int + 1)));
            }
        } else {
            proof {
                assert(terms[j as int] == 1nat);
                assert(mul_fr(prod_fr(terms.take(j as int)), 1) == prod_fr(terms.take(j as int)))
                    by {
                    vstd::arithmetic::div_mod::lemma_small_mod(
                        prod_fr(terms.take(j as int)), fr_order());
                }
                assert(acc.value() == prod_fr(terms.take(j as int + 1)));
            }
        }
        j += 1;
    }
    proof {
        assert(terms.take(pts@.len() as int) =~= terms);
    }
    acc
}

/// The domain points at the given indices, as scalars.
fn select_points(batch: &BatchEvaluationDomain, ids: &Vec<usize>) -> (r: Vec<Scalar>)
    requires
        batch.wf(),
        forall|j: int| 0 <= j < ids@.len() ==> (#[trigger] ids@[j] as nat) < batch.size_spec(),
    ensures
        r@.len() == ids@.len(),
        scalars_wf(r@),
        scalar_values(r@) == selected_points(batch, ids@),
{
    let mut r: Vec<Scalar> = Vec::new();
    let mut i: usize = 0;
    while i < ids.len()
        invariant
            i <= ids@.len(),
            r@.len() == i,
            batch.wf(),
            scalars_wf(r@),
            forall|j: int| 0 <= j < ids@.len() ==> (#[trigger] ids@[j] as nat) < batch.size_spec(),
            forall|j: int|
                0 <= j < i ==> (#[trigger] r@[j]).value() == batch.omega_value(ids@[j] as nat),
        decreases ids@.len() - i,
    {
        r.push(batch.get_root_of_unity_power(ids[i]));
        i += 1;
    }
    proof {
        assert(scalar_values(r@) =~= selected_points(batch, ids@));
    }
    r
}

/// The Lagrange coefficients for evaluating, at the point `alpha`, the
/// unique polynomial interpolating values given at the domain points picked
/// out by `ids`.
pub fn lagrange_coefficients(batch: &BatchEvaluationDomain, ids: &Vec<usize>, alpha: &Scalar) -> (r:
    Vec<Scalar>)
    requires
        batch.wf(),
        alpha.wf(),
        forall|j: int| 0 <= j < ids@.len() ==> (#[trigger] ids@[j] as nat) < batch.size_spec(),
    ensures
        r@.len() == ids@.len(),
        scalars_wf(r@),
        forall|i: int|
            0 <= i < r@.len() ==> (#[trigger] r@[i]).value() == lagrange_coeff_spec(
                selected_points(batch, ids@), alpha.value(), i),
{
    let pts = select_points(batch, ids);
    let mut r: Vec<Scalar> = Vec::new();
    let mut i: usize = 0;
    while i < pts.len()
        invariant
            i <= pts@.len(),
            pts@.len() == ids@.len(),
            r@.len() == i,
            alpha.wf(),
            scalars_wf(pts@),
            scalars_wf(r@),
            scalar_values(pts@) == selected_points(batch, ids@),
            forall|k: int|
                0 <= k < i ==> (#[trigger] r@[k]).value() == lagrange_coeff_spec(
                    scalar_values(pts@), alpha.value(), k),
        decreases pts@.len() - i,
    {
        let num = prod_sub(alpha, &pts, i);
        let den = prod_sub(&pts[i], &pts, i);
        proof {
            assert(pts@[i as int].value() == scalar_values(pts@)[i as int]);
        }
        let den_inv = invert_or_zero(&den);
        r.push(scalar_mul(&num, &den_inv));
        i += 1;
    }
    r
}

/// The Lagrange coefficients for reconstructing the value at zero of the
/// polynomial interpolating values at the domain points picked out by `ids`:
/// the reconstruction primitive of the secret sharing.
pub fn lagrange_coefficients_at_zero(batch: &BatchEvaluationDomain, ids: &Vec<usize>) -> (r: Vec<
    Scalar>)
    requires
        batch.wf(),
        forall|j: int| 0 <= j < ids@.len() ==> (#[trigger] ids@[j] as nat) < batch.size_spec(),
    ensures
        r@.len() == ids@.len(),
        scalars_wf(r@),
        forall|i: int|
            0 <= i < r@.len() ==> (#[trigger] r@[i]).value() == lagrange_coeff_spec(
                selected_points(batch, ids@), 0, i),
{
    let zero = Scalar::zero();
    lagrange_coefficients(batch, ids, &zero)
}

/// The value of `alpha` raised to the `e`-th power, by `e` successive
/// multiplications.
pub fn scalar_pow(alpha: &Scalar, e: usize) -> (r: Scalar)
    requires
        alpha.wf(),
    ensures
        r.wf(),
        r.value() == pow_mod(alpha.value(), e as nat),
{
    let mut acc = Scalar::one();
    proof {
        vstd::arithmetic::div_mod::lemma_small_mod(1nat, fr_order());
    }
    let mut j: usize = 0;
    while j < e
        invariant
            j <= e,
            alpha.wf(),
            acc.wf(),
            acc.value() == pow_mod(alpha.value(), j as nat),
        decreases e - j,
    {
        let next = scalar_mul(&acc, alpha);
        proof {
            assert(pow_mod(alpha.value(), (j + 1) as nat) == (alpha.value() * pow_mod(
                alpha.value(), j as nat)) % fr_order());
        }
        acc = next;
        j += 1;
    }
    acc
}

/// The closed-form Lagrange coefficient over the full domain: position `i`
/// carries `w^i * (alpha^N - 1) / (N * (alpha - w^i))`.
pub open spec fn all_n_coeff_spec(batch: &BatchEvaluationDomain, alpha: nat, i: int) -> nat {
    mul_fr(
        mul_fr(batch.omega_value(i as nat), sub_fr(pow_mod(alpha, batch.size_spec()), 1)),
        inv_mod(mul_fr(batch.size_spec(), sub_fr(alpha, batch.omega_value(i as nat)))),
    )
}

/// The fast path for the Lagrange coefficients over all `N` domain points,
/// using the closed form for roots of unity.
pub fn all_n_lagrange_coefficients(batch: &BatchEvaluationDomain, alpha: &Scalar) -> (r: Vec<
    Scalar>)
    requires
        batch.wf(),
        alpha.wf(),
    ensures
        r@.len() == batch.size_spec(),
        scalars_wf(r@),
        forall|i: int|
            0 <= i < r@.len() ==> (#[trigger] r@[i]).value() == all_n_coeff_spec(
                batch, alpha.value(), i),
{
    let n = batch.size();
    proof {
        crate::algebra::evaluation_domain::lemma_batch_size_bound(batch);
    }
    let alpha_pow_n = scalar_pow(alpha, n);
    let one = Scalar::one();
    let numerator_common = scalar_sub(&alpha_pow_n, &one);
    let n_scalar = Scalar::from_u64(n as u64);
    let mut r: Vec<Scalar> = Vec::new();
    let mut i: usize = 0;
    while i < n
        invariant
            i <= n,
            n as nat == batch.size_spec(),
            batch.wf(),
            alpha.wf(),
            numerator_common.wf(),
            numerator_common.value() == sub_fr(pow_mod(alpha.value(), batch.size_spec()), 1),
            n_scalar.wf(),
            n_scalar.value() == batch.size_spec(),
            r@.len() == i,
            scalars_wf(r@),
            forall|k: int|
                0 <= k < i ==> (#[trigger] r@[k]).value() == all_n_coeff_spec(
                    batch, alpha.value(), k),
        decreases n - i,
    {
        let w_i = batch.get_root_of_unity_power(i);
        let diff = scalar_sub(alpha, &w_i);
        let den = scalar_mul(&n_scalar, &diff);
        let den_inv = invert_or_zero(&den);
        let num = scalar_mul(&w_i, &numerator_common);
        r.push(scalar_mul(&num, &den_inv));
        i += 1;
    }
    r
}

/// The inverted denominators `1 / prod_(j != i) (w^i - w^j)` over the first
/// `n` domain points, reusable across reconstructions of the same size.
pub fn all_lagrange_denominators(batch: &BatchEvaluationDomain, n: usize) -> (r: Vec<Scalar>)
    requires
        batch.wf(),
        n as nat <= batch.size_spec(),
    ensures
        r@.len() == n,
        scalars_wf(r@),
        forall|i: int|
            0 <= i < r@.len() ==> (#[trigger] r@[i]).value() == inv_mod(
                prod_fr(
                    sub_terms(
                        first_n_points(batch, n as int),
                        first_n_points(batch, n as int)[i],
                        i,
                    ),
                )),
{
    let mut ids: Vec<usize> = Vec::new();
    let mut i: usize = 0;
    while i < n
        invariant
            i <= n,
            ids@.len() == i,
            forall|j: int| 0 <= j < i ==> #[trigger] ids@[j] == j,
        decreases n - i,
    {
        ids.push(i);
        i += 1;
    }
    let pts = select_points(batch, &ids);
    proof {
        assert(scalar_values(pts@) =~= first_n_points(batch, n as int));
    }
    let mut r: Vec<Scalar> = Vec::new();
    let mut i: usize = 0;
    while i < pts.len()
        invariant
            i <= pts@.len(),
            pts@.len() == n,
            r@.len() == i,
            scalars_wf(pts@),
            scalars_wf(r@),
            scalar_values(pts@) == first_n_points(batch, n as int),
            forall|k: int|
                0 <= k < i ==> (#[trigger] r@[k]).value() == inv_mod(
                    prod_fr(
                        sub_terms(
                            first_n_points(batch, n as int),
                            first_n_points(batch, n as int)[k],
                            k,
                        ),
                    )),
        decreases pts@.len() - i,
    {
        let den = prod_sub(&pts[i], &pts, i);
        proof {
            assert(pts@[i as int].value() == scalar_values(pts@)[i as int]);
        }
        r.push(invert_or_zero(&den));
        i += 1;
    }
    r
}

/// The first `n` domain points.
pub open spec fn first_n_points(batch: &BatchEvaluationDomain, n: int) -> Seq<nat> {
    Seq::new(n as nat, |j: int| batch.omega_value(j as nat))
}

} // verus!
