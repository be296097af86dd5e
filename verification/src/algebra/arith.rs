//! Mathematical model of arithmetic in the scalar field: every value is a
//! natural number below the field order, and every operation is stated
//! modulo that order.

use vstd::prelude::*;
use vstd::arithmetic::power::pow;

verus! {

/// The order of the BLS12-381 scalar field: a 255-bit prime.
pub open spec fn fr_order() -> nat {
    0x73eda753299d7d483339d80809a1d80553bda402fffe5bfeffffffff00000001nat
}

/// The natural number encoded by a little-endian byte string.
pub open spec fn le_val(s: Seq<u8>) -> nat
    decreases s.len(),
{
    if s.len() == 0 {
        0
    } else {
        (s[0] as nat) + 256 * le_val(s.drop_first())
    }
}

/// Addition in the scalar field.
pub open spec fn add_fr(a: nat, b: nat) -> nat {
    (a + b) % fr_order()
}

/// Subtraction in the scalar field.
pub open spec fn sub_fr(a: nat, b: nat) -> nat
    recommends
        b < fr_order(),
{
    (((a + fr_order()) - b) % (fr_order() as int)) as nat
}

/// Multiplication in the scalar field.
pub open spec fn mul_fr(a: nat, b: nat) -> nat {
    (a * b) % fr_order()
}

/// Negation in the scalar field.
pub open spec fn neg_fr(a: nat) -> nat
    recommends
        a < fr_order(),
{
    ((fr_order() - a) % (fr_order() as int)) as nat
}

/// Exponentiation modulo the field order.
pub open spec fn pow_mod(b: nat, e: nat) -> nat
    decreases e,
{
    if e == 0 {
        1nat % fr_order()
    } else {
        (b * pow_mod(b, (e - 1) as nat)) % fr_order()
    }
}

/// The multiplicative inverse of a nonzero field element; by Fermat's
/// little theorem this is `a^(q - 2) mod q` for prime `q`.
pub open spec fn inv_mod(a: nat) -> nat {
    pow_mod(a, (fr_order() - 2) as nat)
}

/// Multiplication in the field is associative.
pub proof fn lemma_mul_fr_assoc(a: nat, b: nat, c: nat)
    ensures
        mul_fr(a, mul_fr(b, c)) == mul_fr(mul_fr(a, b), c),
{
    vstd::arithmetic::div_mod::lemma_mul_mod_noop_right(a as int, (b * c) as int,
        fr_order() as int);
    vstd::arithmetic::div_mod::lemma_mul_mod_noop_left((a * b) as int, c as int,
        fr_order() as int);
    vstd::arithmetic::mul::lemma_mul_is_associative(a as int, b as int, c as int);
}

/// `pow_mod` is plain exponentiation followed by one reduction.
pub proof fn lemma_pow_mod_is_pow(b: nat, e: nat)
    ensures
        pow(b as int, e) >= 0,
        pow_mod(b, e) as int == pow(b as int, e) % (fr_order() as int),
    decreases e,
{
    if e == 0 {
        vstd::arithmetic::power::lemma_pow0(b as int);
    } else {
        lemma_pow_mod_is_pow(b, (e - 1) as nat);
        assert(pow(b as int, e) == b * pow(b as int, (e - 1) as nat)) by {
            vstd::arithmetic::power::lemma_pow1(b as int);
            vstd::arithmetic::power::lemma_pow_adds(b as int, 1, (e - 1) as nat);
        }
        assert(pow(b as int, e) >= 0) by (nonlinear_arith)
            requires
                pow(b as int, (e - 1) as nat) >= 0,
                b >= 0,
                pow(b as int, e) == b * pow(b as int, (e - 1) as nat),
        ;
        vstd::arithmetic::div_mod::lemma_mul_mod_noop_right(
            b as int, pow(b as int, (e - 1) as nat), fr_order() as int);
    }
}

/// Exponents add: `b^(e1 + e2) = b^e1 * b^e2` in the field.
pub proof fn lemma_pow_mod_adds(b: nat, e1: nat, e2: nat)
    ensures
        pow_mod(b, e1 + e2) == mul_fr(pow_mod(b, e1), pow_mod(b, e2)),
{
    lemma_pow_mod_is_pow(b, e1);
    lemma_pow_mod_is_pow(b, e2);
    lemma_pow_mod_is_pow(b, e1 + e2);
    vstd::arithmetic::power::lemma_pow_adds(b as int, e1, e2);
    vstd::arithmetic::div_mod::lemma_mul_mod_noop_general(
        pow(b as int, e1), pow(b as int, e2), fr_order() as int);
}

/// Exponents multiply: `(b^e1)^e2 = b^(e1 * e2)` in the field.
pub proof fn lemma_pow_mod_mul(b: nat, e1: nat, e2: nat)
    ensures
        pow_mod(pow_mod(b, e1), e2) == pow_mod(b, e1 * e2),
{
    lemma_pow_mod_is_pow(b, e1);
    lemma_pow_mod_is_pow(pow_mod(b, e1), e2);
    lemma_pow_mod_is_pow(b, e1 * e2);
    vstd::arithmetic::power::lemma_pow_mod_noop(pow(b as int, e1), e2, fr_order() as int);
    vstd::arithmetic::power::lemma_pow_multiplies(b as int, e1, e2);
}

/// The first power of a field element is the element.
pub proof fn lemma_pow_mod_one_exp(b: nat)
    requires
        b < fr_order(),
    ensures
        pow_mod(b, 1) == b,
{
    vstd::arithmetic::div_mod::lemma_small_mod(1nat, fr_order());
    assert(pow_mod(b, 1) == (b * pow_mod(b, 0)) % fr_order());
    assert(b * 1 == b) by (nonlinear_arith);
    vstd::arithmetic::div_mod::lemma_small_mod(b, fr_order());
}

/// Squaring in the field is the second power.
pub proof fn lemma_pow_mod_two(b: nat)
    requires
        b < fr_order(),
    ensures
        pow_mod(b, 2) == mul_fr(b, b),
{
    lemma_pow_mod_one_exp(b);
    assert(pow_mod(b, 2) == (b * pow_mod(b, 1)) % fr_order());
}

/// Every power of one is one.
pub proof fn lemma_pow_mod_one_base(e: nat)
    ensures
        pow_mod(1, e) == 1,
    decreases e,
{
    vstd::arithmetic::div_mod::lemma_small_mod(1nat, fr_order());
    if e > 0 {
        lemma_pow_mod_one_base((e - 1) as nat);
        assert(pow_mod(1, e) == (1 * pow_mod(1, (e - 1) as nat)) % fr_order());
        assert(1 * pow_mod(1, (e - 1) as nat) == pow_mod(1, (e - 1) as nat)) by (nonlinear_arith);
    }
}

/// Powers of the order minus one alternate between one and itself.
pub proof fn lemma_pow_mod_neg_one(e: nat)
    ensures
        pow_mod((fr_order() - 1) as nat, e) == if e % 2 == 0 {
            1nat
        } else {
            (fr_order() - 1) as nat
        },
    decreases e,
{
    let q = fr_order();
    vstd::arithmetic::div_mod::lemma_small_mod(1nat, q);
    vstd::arithmetic::div_mod::lemma_small_mod((q - 1) as nat, q);
    if e > 0 {
        lemma_pow_mod_neg_one((e - 1) as nat);
        let prev = pow_mod((q - 1) as nat, (e - 1) as nat);
        assert(pow_mod((q - 1) as nat, e) == (((q - 1) as nat) * prev) % q);
        if (e - 1) % 2 == 0 {
            assert(((q - 1) as nat) * 1 == (q - 1) as nat) by (nonlinear_arith);
        } else {
            assert(((q - 1) as nat) * ((q - 1) as nat) == q * ((q - 2) as nat) + 1)
                by (nonlinear_arith)
                requires
                    q >= 2,
            ;
            vstd::arithmetic::div_mod::lemma_mod_multiples_vanish((q - 2) as int, 1, q as int);
        }
    }
}

/// A power of the inverse is the inverse's exponent law: raising `inv_mod(w)`
/// to `e` is raising `w^e` to the order minus two.
pub proof fn lemma_pow_mod_of_inv(w: nat, e: nat)
    ensures
        pow_mod(inv_mod(w), e) == pow_mod(pow_mod(w, e), (fr_order() - 2) as nat),
{
    lemma_pow_mod_mul(w, (fr_order() - 2) as nat, e);
    lemma_pow_mod_mul(w, e, (fr_order() - 2) as nat);
    assert(((fr_order() - 2) as nat) * e == e * ((fr_order() - 2) as nat)) by (nonlinear_arith);
}

/// The inverse of a root of unity is a root of unity of the same order, and
/// inherits the square root of one at half the order.
pub proof fn lemma_inv_mod_order_facts(w: nat, n: nat)
    requires
        pow_mod(w, n) == 1,
        n >= 2 ==> pow_mod(w, n / 2) == (fr_order() - 1) as nat,
    ensures
        pow_mod(inv_mod(w), n) == 1,
        n >= 2 ==> pow_mod(inv_mod(w), n / 2) == (fr_order() - 1) as nat,
{
    lemma_pow_mod_of_inv(w, n);
    lemma_pow_mod_one_base((fr_order() - 2) as nat);
    if n >= 2 {
        lemma_pow_mod_of_inv(w, n / 2);
        lemma_pow_mod_neg_one((fr_order() - 2) as nat);
        assert((fr_order() - 2) as nat % 2 == 1);
    }
}

/// Adding `(q - 1) * t` is subtracting `t` in the field.
pub proof fn lemma_add_neg_one_times(e: nat, t: nat)
    requires
        e < fr_order(),
        t < fr_order(),
    ensures
        add_fr(e, mul_fr((fr_order() - 1) as nat, t)) == sub_fr(e, t),
{
    let q = fr_order();
    if t == 0 {
        assert(((q - 1) as nat) * 0 == 0) by (nonlinear_arith);
        vstd::arithmetic::div_mod::lemma_small_mod(0nat, q);
        vstd::arithmetic::div_mod::lemma_small_mod(e, q);
        vstd::arithmetic::div_mod::lemma_mod_multiples_vanish(1, e as int, q as int);
    } else {
        assert(((q - 1) as nat) * t == q * ((t - 1) as nat) + ((q - t) as nat))
            by (nonlinear_arith)
            requires
                1 <= t < q,
        ;
        vstd::arithmetic::div_mod::lemma_mod_multiples_vanish(
            (t - 1) as int, (q - t) as int, q as int);
        vstd::arithmetic::div_mod::lemma_small_mod((q - t) as nat, q);
        assert(mul_fr((q - 1) as nat, t) == (q - t) as nat);
    }
}

/// Zero has no inverse; `inv_mod` maps it to zero.
pub proof fn lemma_inv_mod_zero()
    ensures
        inv_mod(0) == 0,
{
    let e = (fr_order() - 2) as nat;
    assert(e > 0);
    assert(pow_mod(0, e) == (0 * pow_mod(0, (e - 1) as nat)) % fr_order());
    assert(pow_mod(0, e) == 0);
}

/// Appending a byte multiplies its contribution by 256 to the power of the
/// old length.
pub proof fn lemma_le_val_push(s: Seq<u8>, b: u8)
    ensures
        le_val(s.push(b)) == le_val(s) + (b as nat) * pow(256, s.len()),
    decreases s.len(),
{
    if s.len() == 0 {
        assert(s.push(b).len() == 1);
        assert(s.push(b)[0] == b);
        assert(s.push(b).drop_first() =~= Seq::<u8>::empty());
        assert(le_val(Seq::<u8>::empty()) == 0);
        assert(le_val(s.push(b)) == b as nat);
        assert(pow(256, 0) == 1) by {
            vstd::arithmetic::power::lemma_pow0(256);
        }
    } else {
        assert(s.push(b).drop_first() =~= s.drop_first().push(b));
        lemma_le_val_push(s.drop_first(), b);
        assert(pow(256, s.len()) == 256 * pow(256, (s.len() - 1) as nat)) by {
            vstd::arithmetic::power::lemma_pow_adds(256, 1, (s.len() - 1) as nat);
            vstd::arithmetic::power::lemma_pow1(256);
        }
        assert(le_val(s.push(b)) == (s[0] as nat) + 256 * le_val(s.drop_first().push(b)));
        assert((b as nat) * pow(256, s.len()) == 256 * ((b as nat) * pow(256, (s.len() - 1) as nat)))
            by (nonlinear_arith)
            requires
                pow(256, s.len()) == 256 * pow(256, (s.len() - 1) as nat),
        ;
    }
}

/// Powers of 256 at the byte widths the encodings use.
pub proof fn lemma_pow256_values()
    ensures
        pow(256, 0) == 1,
        pow(256, 1) == 256,
        pow(256, 2) == 0x10000,
        pow(256, 4) == 0x100000000,
        pow(256, 8) == 0x10000000000000000,
{
    vstd::arithmetic::power::lemma_pow0(256);
    vstd::arithmetic::power::lemma_pow1(256);
    vstd::arithmetic::power::lemma_pow_adds(256, 1, 1);
    vstd::arithmetic::power::lemma_pow_adds(256, 2, 2);
    vstd::arithmetic::power::lemma_pow_adds(256, 4, 4);
    assert(pow(256, 2) == 0x10000) by (nonlinear_arith)
        requires
            pow(256, 2) == pow(256, 1) * pow(256, 1),
            pow(256, 1) == 256,
    ;
    assert(pow(256, 4) == 0x100000000) by (nonlinear_arith)
        requires
            pow(256, 4) == pow(256, 2) * pow(256, 2),
            pow(256, 2) == 0x10000,
    ;
    assert(pow(256, 8) == 0x10000000000000000) by (nonlinear_arith)
        requires
            pow(256, 8) == pow(256, 4) * pow(256, 4),
            pow(256, 4) == 0x100000000,
    ;
}

/// Two little-endian byte strings of equal length with the same value are
/// equal byte for byte: the encoding is injective.
pub proof fn lemma_le_val_injective(a: Seq<u8>, b: Seq<u8>)
    requires
        a.len() == b.len(),
        le_val(a) == le_val(b),
    ensures
        a == b,
    decreases a.len(),
{
    if a.len() == 0 {
        assert(a =~= b);
    } else {
        let x = le_val(a);
        assert(x == (a[0] as nat) + 256 * le_val(a.drop_first()));
        assert(x == (b[0] as nat) + 256 * le_val(b.drop_first()));
        assert(x % 256 == a[0] as nat) by {
            vstd::arithmetic::div_mod::lemma_mod_multiples_vanish(
                le_val(a.drop_first()) as int, a[0] as int, 256);
            vstd::arithmetic::div_mod::lemma_small_mod(a[0] as nat, 256);
        }
        assert(x % 256 == b[0] as nat) by {
            vstd::arithmetic::div_mod::lemma_mod_multiples_vanish(
                le_val(b.drop_first()) as int, b[0] as int, 256);
            vstd::arithmetic::div_mod::lemma_small_mod(b[0] as nat, 256);
        }
        assert(a[0] == b[0]);
        assert(le_val(a.drop_first()) == le_val(b.drop_first()));
        lemma_le_val_injective(a.drop_first(), b.drop_first());
        assert forall|i: int| 0 <= i < a.len() implies a[i] == b[i] by {
            if i > 0 {
                assert(a[i] == a.drop_first()[i - 1]);
                assert(b[i] == b.drop_first()[i - 1]);
            }
        }
        assert(a =~= b);
    }
}

} // verus!
