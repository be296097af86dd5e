//! Evaluation domains for the radix-2 FFT: the table of the `N`-th roots of
//! unity in the scalar field, for `N` the smallest power of two covering the
//! number of evaluation points wanted.

use vstd::prelude::*;
use vstd::arithmetic::power2::pow2;
use crate::algebra::arith::{fr_order, inv_mod, lemma_pow_mod_mul, lemma_pow_mod_one_exp, lemma_pow_mod_two, pow_mod};
use crate::algebra::scalar::{scalar_invert, scalar_mul, scalar_root_of_unity, scalars_wf, Scalar};

verus! {

/// The data needed to run one FFT of size `size`, a power of two: a root of
/// unity of order `size`, its inverse, and the inverse of `size` itself.
pub struct EvaluationDomain {
    log_size: usize,
    size: usize,
    omega: Scalar,
    omega_inv: Scalar,
    size_inv: Scalar,
}

impl EvaluationDomain {
    /// The size `N` of the domain.
    pub closed spec fn size_spec(&self) -> nat {
        self.size as nat
    }

    /// The exponent of the size: `size == 2^log_size`.
    pub closed spec fn log_size_spec(&self) -> nat {
        self.log_size as nat
    }

    /// The value of the root of unity the domain evaluates at.
    pub closed spec fn omega_val(&self) -> nat {
        self.omega.value()
    }

    /// The value of the inverse of the root of unity.
    pub closed spec fn omega_inv_val(&self) -> nat {
        self.omega_inv.value()
    }

    /// The value of the inverse of the size.
    pub closed spec fn size_inv_val(&self) -> nat {
        self.size_inv.value()
    }

    #[verifier::opaque]
    pub closed spec fn scalars_ok(&self) -> bool {
        self.omega.wf() && self.omega_inv.wf() && self.size_inv.wf()
    }

    /// A well-formed domain has a power-of-two size, and holds the inverses
    /// of its root of unity and of its size.
    pub open spec fn wf(&self) -> bool {
        &&& self.size_spec() == pow2(self.log_size_spec())
        &&& self.log_size_spec() <= 30
        &&& self.scalars_ok()
        &&& self.omega_val() < fr_order()
        &&& self.omega_inv_val() == inv_mod(self.omega_val())
        &&& self.size_inv_val() == inv_mod(self.size_spec())
        &&& pow_mod(self.omega_val(), self.size_spec()) == 1
        &&& self.size_spec() >= 2 ==> pow_mod(self.omega_val(), self.size_spec() / 2) == (
        fr_order() - 1) as nat
    }

    /// The size `N` of the domain.
    pub fn size(&self) -> (r: usize)
        ensures
            r as nat == self.size_spec(),
    {
        self.size
    }

    /// The root of unity the domain evaluates at.
    pub fn get_omega(&self) -> (r: Scalar)
        requires
            self.wf(),
        ensures
            r.wf(),
            r.value() == self.omega_val(),
    {
        proof {
            reveal(EvaluationDomain::scalars_ok);
        }
        self.omega.clone()
    }

    /// The inverse of the root of unity.
    pub fn get_omega_inv(&self) -> (r: Scalar)
        requires
            self.wf(),
        ensures
            r.wf(),
            r.value() == self.omega_inv_val(),
    {
        proof {
            reveal(EvaluationDomain::scalars_ok);
        }
        self.omega_inv.clone()
    }

    /// The inverse of the size of the domain.
    pub fn get_size_inv(&self) -> (r: Scalar)
        requires
            self.wf(),
        ensures
            r.wf(),
            r.value() == self.size_inv_val(),
    {
        proof {
            reveal(EvaluationDomain::scalars_ok);
        }
        self.size_inv.clone()
    }
}

/// The table of all `N`-th roots of unity, for `N` the smallest power of two
/// at least as large as the number of players; every smaller power-of-two
/// domain can be sliced out of it without recomputation.
pub struct BatchEvaluationDomain {
    log_size: usize,
    size: usize,
    omegas: Vec<Scalar>,
}

impl BatchEvaluationDomain {
    /// The size `N` of the largest domain.
    pub closed spec fn size_spec(&self) -> nat {
        self.size as nat
    }

    /// The exponent of the size: `size == 2^log_size`.
    pub closed spec fn log_size_spec(&self) -> nat {
        self.log_size as nat
    }

    /// The value of the generating root of unity, of order `size`.
    pub closed spec fn w_val(&self) -> nat {
        if self.omegas@.len() >= 2 {
            self.omegas@[1].value()
        } else {
            1
        }
    }

    /// The value of the `i`-th power of the generating root of unity.
    pub open spec fn omega_value(&self, i: nat) -> nat {
        pow_mod(self.w_val(), i)
    }

    #[verifier::opaque]
    pub closed spec fn omegas_ok(&self) -> bool {
        &&& self.omegas@.len() == self.size
        &&& scalars_wf(self.omegas@)
        &&& forall|i: int|
            0 <= i < self.omegas@.len() ==> (#[trigger] self.omegas@[i]).value() == pow_mod(
                self.w_val(), i as nat)
    }

    /// A well-formed batch domain has a power-of-two size and holds the
    /// consecutive powers of its generating root of unity.
    pub open spec fn wf(&self) -> bool {
        &&& self.size_spec() == pow2(self.log_size_spec())
        &&& self.log_size_spec() <= 30
        &&& self.size_spec() >= 1
        &&& self.w_val() < fr_order()
        &&& pow_mod(self.w_val(), self.size_spec()) == 1
        &&& self.size_spec() >= 2 ==> pow_mod(self.w_val(), self.size_spec() / 2) == (
        fr_order() - 1) as nat
        &&& self.omegas_ok()
    }

    /// The size `N` of the largest domain.
    pub fn size(&self) -> (r: usize)
        ensures
            r as nat == self.size_spec(),
    {
        self.size
    }

    /// Builds the roots-of-unity table for the smallest power of two at
    /// least `n`, by collapsing the `2^32`-th root of unity of the field by
    /// repeated squaring and then walking its powers.
    pub fn new(n: usize) -> (r: Self)
        requires
            1 <= n <= 0x40000000,
        ensures
            r.wf(),
            n as nat <= r.size_spec() < 2 * n,
    {
        let (size, log_size) = next_pow2_with_log(n);
        let root = scalar_root_of_unity();
        let mut w = root;
        proof {
            vstd::arithmetic::power2::lemma2_to64();
        }
        let mut j: usize = 0;
        while j < 32 - log_size
            invariant
                w.wf(),
                log_size <= 30,
                j <= 32 - log_size,
                pow_mod(w.value(), pow2((32 - j) as nat)) == 1,
                j <= 31 ==> pow_mod(w.value(), pow2((31 - j) as nat)) == (fr_order() - 1) as nat,
            decreases 32 - log_size - j,
        {
            let ghost wv = w.value();
            let squared = scalar_mul(&w, &w);
            proof {
                lemma_pow_mod_two(wv);
                vstd::arithmetic::power2::lemma_pow2_unfold((32 - j) as nat);
                lemma_pow_mod_mul(wv, 2, pow2((31 - j) as nat));
                assert(2 * pow2((31 - j) as nat) == pow2((32 - j) as nat));
                if j <= 30 {
                    vstd::arithmetic::power2::lemma_pow2_unfold((31 - j) as nat);
                    lemma_pow_mod_mul(wv, 2, pow2((30 - j) as nat));
                    assert(2 * pow2((30 - j) as nat) == pow2((31 - j) as nat));
                }
            }
            w = squared;
            j += 1;
        }
        proof {
            assert(pow_mod(w.value(), pow2(log_size as nat)) == 1);
            if log_size >= 1 {
                assert(pow_mod(w.value(), pow2((log_size - 1) as nat)) == (fr_order() - 1) as nat);
            }
        }
        let mut omegas: Vec<Scalar> = Vec::new();
        let mut cur = Scalar::one();
        proof {
            vstd::arithmetic::div_mod::lemma_small_mod(1nat, fr_order());
        }
        let mut i: usize = 0;
        while i < size
            invariant
                i <= size,
                omegas@.len() == i,
                w.wf(),
                cur.wf(),
                cur.value() == pow_mod(w.value(), i as nat),
                scalars_wf(omegas@),
                forall|k: int|
                    0 <= k < i ==> (#[trigger] omegas@[k]).value() == pow_mod(w.value(), k as nat),
            decreases size - i,
        {
            omegas.push(cur.clone());
            let next = scalar_mul(&cur, &w);
            proof {
                assert(pow_mod(w.value(), (i + 1) as nat) == (w.value() * pow_mod(
                    w.value(), i as nat)) % fr_order());
            }
            cur = next;
            i += 1;
        }
        let r = BatchEvaluationDomain { log_size, size, omegas };
        proof {
            if size >= 2 {
                if log_size == 0 {
                    assert(size == 1);
                }
                assert(log_size >= 1);
                vstd::arithmetic::power2::lemma_pow2_unfold(log_size as nat);
                assert(size / 2 == pow2((log_size - 1) as nat));
            } else {
                lemma_pow_mod_one_exp(1);
            }
            reveal(BatchEvaluationDomain::omegas_ok);
            assert(pow_mod(r.w_val(), 0) == 1nat % fr_order());
            if size >= 2 {
                assert(r.omegas@[1].value() == pow_mod(w.value(), 1));
                assert(pow_mod(w.value(), 1) == (w.value() * pow_mod(w.value(), 0)) % fr_order());
                assert(pow_mod(w.value(), 1) == w.value()) by {
                    assert((w.value() * (1nat % fr_order())) % fr_order() == w.value()) by {
                        vstd::arithmetic::div_mod::lemma_small_mod(1nat, fr_order());
                        vstd::arithmetic::div_mod::lemma_small_mod(w.value(), fr_order());
                    }
                }
                assert(r.w_val() == w.value());
            } else {
                assert(r.w_val() == 1);
                assert(r.omegas@.len() == 1);
                assert(r.omegas@[0].value() == pow_mod(w.value(), 0));
                assert(pow_mod(w.value(), 0) == 1) by {
                    vstd::arithmetic::div_mod::lemma_small_mod(1nat, fr_order());
                }
                assert(pow_mod(r.w_val(), 0) == 1) by {
                    vstd::arithmetic::div_mod::lemma_small_mod(1nat, fr_order());
                }
            }
        }
        r
    }

    /// The `i`-th power of the generating root of unity.
    pub fn get_root_of_unity_power(&self, i: usize) -> (r: Scalar)
        requires
            self.wf(),
            (i as nat) < self.size_spec(),
        ensures
            r.wf(),
            r.value() == self.omega_value(i as nat),
    {
        proof {
            reveal(BatchEvaluationDomain::omegas_ok);
        }
        self.omegas[i].clone()
    }

    /// Slices out the evaluation domain for the smallest power of two at
    /// least `n`, whose root of unity is the matching power of the
    /// generating root.
    #[verifier::rlimit(60)]
    pub fn get_subdomain(&self, n: usize) -> (r: EvaluationDomain)
        requires
            self.wf(),
            1 <= n as nat <= self.size_spec(),
        ensures
            r.wf(),
            n as nat <= r.size_spec() < 2 * n,
            r.size_spec() <= self.size_spec(),
            r.omega_val() == self.omega_value(
                (self.size_spec() / r.size_spec()) % self.size_spec()),
    {
        proof {
            vstd::arithmetic::power2::lemma2_to64();
            if self.log_size_spec() < 30 {
                vstd::arithmetic::power2::lemma_pow2_strictly_increases(self.log_size_spec(), 30);
            }
        }
        let (sub_size, sub_log) = next_pow2_with_log(n);
        proof {
            if sub_log as nat > self.log_size_spec() {
                vstd::arithmetic::power2::lemma_pow2_unfold(self.log_size_spec() + 1);
                if sub_log as nat > self.log_size_spec() + 1 {
                    vstd::arithmetic::power2::lemma_pow2_strictly_increases(
                        self.log_size_spec() + 1, sub_log as nat);
                }
                assert(sub_size as nat >= 2 * self.size_spec());
                assert(false);
            }
            if (sub_log as nat) < self.log_size_spec() {
                vstd::arithmetic::power2::lemma_pow2_strictly_increases(
                    sub_log as nat, self.log_size_spec());
            }
            assert(sub_size as nat <= self.size_spec());
        }
        let stride = self.size / sub_size;
        let idx = stride % self.size;
        proof {
            assert(self.size >= 1);
        }
        let omega = self.get_root_of_unity_power(idx);
        proof {
            let wv = self.w_val();
            let bl = self.log_size_spec();
            let sl = sub_log as nat;
            vstd::arithmetic::power2::lemma2_to64();
            if sub_size == 1 {
                assert(stride == self.size);
                vstd::arithmetic::div_mod::lemma_mod_self_0(self.size as int);
                assert(idx == 0);
                assert(omega.value() == pow_mod(wv, 0));
                vstd::arithmetic::div_mod::lemma_small_mod(1nat, fr_order());
                lemma_pow_mod_one_exp(1);
                assert(pow_mod(omega.value(), sub_size as nat) == 1);
            } else {
                if sl == 0 {
                    assert(sub_size == 1);
                    assert(false);
                }
                assert(sl >= 1 && sl <= bl);
                assert(pow2((bl - sl) as nat) == pow2(bl) / pow2(sl)) by {
                    vstd::arithmetic::power2::lemma_pow2_subtracts(sl, bl);
                }
                assert(stride as nat == pow2((bl - sl) as nat));
                assert(stride < self.size) by {
                    vstd::arithmetic::power2::lemma_pow2_strictly_increases((bl - sl) as nat, bl);
                }
                vstd::arithmetic::div_mod::lemma_small_mod(stride as nat, self.size as nat);
                assert(idx == stride);
                assert(omega.value() == pow_mod(wv, stride as nat));
                assert((stride as nat) * (sub_size as nat) == pow2(bl)) by {
                    vstd::arithmetic::power2::lemma_pow2_adds((bl - sl) as nat, sl);
                }
                lemma_pow_mod_mul(wv, stride as nat, sub_size as nat);
                assert(pow_mod(omega.value(), sub_size as nat) == 1);
                assert(self.size_spec() >= 2) by {
                    vstd::arithmetic::power2::lemma_pow2_unfold(bl);
                    vstd::arithmetic::power2::lemma_pow2_pos((bl - 1) as nat);
                }
                assert((sub_size / 2) as nat == pow2((sl - 1) as nat)) by {
                    vstd::arithmetic::power2::lemma_pow2_unfold(sl);
                }
                assert((stride as nat) * ((sub_size / 2) as nat) == pow2((bl - 1) as nat)) by {
                    vstd::arithmetic::power2::lemma_pow2_adds((bl - sl) as nat, (sl - 1) as nat);
                }
                assert(self.size_spec() / 2 == pow2((bl - 1) as nat)) by {
                    vstd::arithmetic::power2::lemma_pow2_unfold(bl);
                }
                lemma_pow_mod_mul(wv, stride as nat, (sub_size / 2) as nat);
                assert(pow_mod(omega.value(), (sub_size / 2) as nat) == (fr_order() - 1) as nat);
            }
        }
        let omega_inv = invert_or_zero(&omega);
        let size_scalar = Scalar::from_u64(sub_size as u64);
        let size_inv = invert_or_zero(&size_scalar);
        let r = EvaluationDomain { log_size: sub_log, size: sub_size, omega, omega_inv, size_inv };
        proof {
            reveal(EvaluationDomain::scalars_ok);
        }
        r
    }
}

/// The multiplicative inverse of a scalar, with zero mapped to zero; on both
/// branches the value is `inv_mod` of the argument.
pub(crate) fn invert_or_zero(a: &Scalar) -> (r: Scalar)
    requires
        a.wf(),
    ensures
        r.wf(),
        r.value() == inv_mod(a.value()),
        a.value() != 0 ==> crate::algebra::arith::mul_fr(a.value(), r.value()) == 1,
{
    match scalar_invert(a) {
        Some(x) => x,
        None => {
            proof {
                crate::algebra::arith::lemma_inv_mod_zero();
            }
            Scalar::zero()
        },
    }
}

/// The size of a well-formed domain is bounded by the largest power of two
/// an evaluation domain may have.
pub proof fn lemma_domain_size_bound(dom: &EvaluationDomain)
    requires
        dom.wf(),
    ensures
        dom.size_spec() <= 0x40000000,
{
    vstd::arithmetic::power2::lemma2_to64();
    if dom.log_size_spec() < 30 {
        vstd::arithmetic::power2::lemma_pow2_strictly_increases(dom.log_size_spec(), 30);
    }
}

/// The size of a well-formed batch domain is bounded by the largest power
/// of two a domain may have.
pub proof fn lemma_batch_size_bound(dom: &BatchEvaluationDomain)
    requires
        dom.wf(),
    ensures
        dom.size_spec() <= 0x40000000,
{
    vstd::arithmetic::power2::lemma2_to64();
    if dom.log_size_spec() < 30 {
        vstd::arithmetic::power2::lemma_pow2_strictly_increases(dom.log_size_spec(), 30);
    }
}

/// The smallest power of two at least `n`, with its exponent.
pub fn next_pow2_with_log(n: usize) -> (r: (usize, usize))
    requires
        1 <= n <= 0x40000000,
    ensures
        r.0 as nat == pow2(r.1 as nat),
        r.1 <= 30,
        n <= r.0,
        (r.0 as nat) < 2 * n,
{
    proof {
        vstd::arithmetic::power2::lemma2_to64();
    }
    let mut r: usize = 1;
    let mut k: usize = 0;
    while r < n
        invariant
            1 <= r,
            r as nat == pow2(k as nat),
            k <= 30,
            (r as nat) < 2 * n,
            n <= 0x40000000,
        decreases 2 * n - r,
    {
        proof {
            if k >= 30 {
                vstd::arithmetic::power2::lemma2_to64();
                if k > 30 {
                    vstd::arithmetic::power2::lemma_pow2_strictly_increases(30, k as nat);
                }
                assert(false);
            }
            vstd::arithmetic::power2::lemma_pow2_unfold((k + 1) as nat);
        }
        r = r * 2;
        k = k + 1;
    }
    (r, k)
}

} // verus!
