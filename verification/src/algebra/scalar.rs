//! Elements of the BLS12-381 scalar field, held as canonical little-endian
//! 32-byte encodings. All arithmetic is carried out by `blstrs` behind
//! trusted wrappers whose contracts speak in the modular arithmetic of
//! `crate::algebra::arith`.

use vstd::prelude::*;
use vstd::arithmetic::power::pow;
use crate::algebra::arith::{add_fr, fr_order, inv_mod, le_val, mul_fr, neg_fr, sub_fr};
use crate::utils::serialization::{bytes_eq, clone_bytes};
use ff::Field;
use ff::PrimeField;

verus! {

/// An element of the scalar field of BLS12-381, in canonical little-endian
/// byte form. The view of a scalar is its byte string; its mathematical
/// value is `le_val` of that string.
#[derive(Debug)]
pub struct Scalar {
    bytes: Vec<u8>,
}

impl View for Scalar {
    type V = Seq<u8>;

    closed spec fn view(&self) -> Seq<u8> {
        self.bytes@
    }
}

impl Scalar {
    /// The natural number this scalar stands for.
    pub open spec fn value(&self) -> nat {
        le_val(self@)
    }

    /// A well-formed scalar is 32 bytes long and canonical: its value lies
    /// below the field order.
    pub open spec fn wf(&self) -> bool {
        self@.len() == 32 && self.value() < fr_order()
    }

    /// The scalar with value `v`.
    pub fn from_u64(v: u64) -> (r: Scalar)
        ensures
            r.wf(),
            r.value() == v as nat,
    {
        proof {
            crate::algebra::arith::lemma_pow256_values();
            assert(le_val(Seq::<u8>::empty()) == 0);
        }
        let mut bytes: Vec<u8> = Vec::new();
        let mut rest: u64 = v;
        let mut i: usize = 0;
        while i < 32
            invariant
                i <= 32,
                bytes@.len() == i,
                le_val(bytes@) + (rest as nat) * pow(256, i as nat) == v as nat,
                i <= 8 ==> (rest as nat) < pow(256, (8 - i) as nat),
                i > 8 ==> rest == 0,
            decreases 32 - i,
        {
            let b: u8 = (rest % 256) as u8;
            let ghost old_bytes = bytes@;
            let ghost old_rest = rest as nat;
            let ghost p_i = pow(256, i as nat);
            bytes.push(b);
            rest = rest / 256;
            proof {
                crate::algebra::arith::lemma_le_val_push(old_bytes, b);
                vstd::arithmetic::div_mod::lemma_fundamental_div_mod(old_rest as int, 256);
                assert(old_rest == 256 * (rest as nat) + (b as nat));
                assert(pow(256, (i + 1) as nat) == 256 * p_i) by {
                    vstd::arithmetic::power::lemma_pow1(256);
                    vstd::arithmetic::power::lemma_pow_adds(256, 1, i as nat);
                }
                assert(old_rest * p_i == (rest as nat) * (256 * p_i) + (b as nat) * p_i)
                    by (nonlinear_arith)
                    requires
                        old_rest == 256 * (rest as nat) + (b as nat),
                ;
                if i < 8 {
                    assert(pow(256, (8 - i) as nat) == 256 * pow(256, (7 - i) as nat)) by {
                        vstd::arithmetic::power::lemma_pow1(256);
                        vstd::arithmetic::power::lemma_pow_adds(256, 1, (7 - i) as nat);
                    }
                    assert((rest as nat) < pow(256, (7 - i) as nat)) by (nonlinear_arith)
                        requires
                            old_rest < 256 * pow(256, (7 - i) as nat),
                            old_rest == 256 * (rest as nat) + (b as nat),
                            (b as nat) < 256,
                    ;
                } else {
                    if i == 8 {
                        vstd::arithmetic::power::lemma_pow0(256);
                    }
                    assert(old_rest == 0);
                }
            }
            i += 1;
        }
        proof {
            assert(le_val(bytes@) == v as nat);
            assert((v as nat) < fr_order());
        }
        Scalar { bytes }
    }

    /// The zero of the field.
    pub fn zero() -> (r: Scalar)
        ensures
            r.wf(),
            r.value() == 0,
    {
        Scalar::from_u64(0)
    }

    /// The one of the field.
    pub fn one() -> (r: Scalar)
        ensures
            r.wf(),
            r.value() == 1,
    {
        Scalar::from_u64(1)
    }

    /// Whether this scalar is the zero of the field.
    pub fn is_zero(&self) -> (r: bool)
        requires
            self.wf(),
        ensures
            r == (self.value() == 0),
    {
        let z = Scalar::zero();
        let eq = bytes_eq(&self.bytes, &z.bytes);
        proof {
            if self@ != z@ {
                if self.value() == z.value() {
                    crate::algebra::arith::lemma_le_val_injective(self@, z@);
                }
            }
        }
        eq
    }

    /// The canonical little-endian byte encoding of this scalar.
    pub fn to_bytes_le(&self) -> (r: Vec<u8>)
        ensures
            r@ == self@,
    {
        clone_bytes(&self.bytes)
    }
}

impl Clone for Scalar {
    fn clone(&self) -> (r: Self)
        ensures
            r@ == self@,
    {
        Scalar { bytes: clone_bytes(&self.bytes) }
    }
}

impl PartialEq for Scalar {
    fn eq(&self, other: &Self) -> (r: bool) {
        bytes_eq(&self.bytes, &other.bytes)
    }
}

impl vstd::std_specs::cmp::PartialEqSpecImpl for Scalar {
    open spec fn obeys_eq_spec() -> bool {
        true
    }

    open spec fn eq_spec(&self, other: &Self) -> bool {
        self@ == other@
    }
}

impl Eq for Scalar {}

/// The values of a sequence of scalars.
pub open spec fn scalar_values(s: Seq<Scalar>) -> Seq<nat> {
    s.map_values(|x: Scalar| x.value())
}

/// Whether every scalar of a sequence is well-formed.
pub open spec fn scalars_wf(s: Seq<Scalar>) -> bool {
    forall|i: int| 0 <= i < s.len() ==> (#[trigger] s[i]).wf()
}

/// Relies on `blstrs::Scalar`: `from_bytes_le` accepts exactly the canonical
/// encodings, and addition is addition in the prime field of order
/// `fr_order()`.
#[verifier::external_body]
pub fn scalar_add(a: &Scalar, b: &Scalar) -> (r: Scalar)
    requires
        a.wf(),
        b.wf(),
    ensures
        r.wf(),
        r.value() == add_fr(a.value(), b.value()),
{
    let x = blstrs::Scalar::from_bytes_le(a.bytes.as_slice().try_into().unwrap()).unwrap();
    let y = blstrs::Scalar::from_bytes_le(b.bytes.as_slice().try_into().unwrap()).unwrap();
    Scalar { bytes: (x + y).to_bytes_le().to_vec() }
}

/// Relies on `blstrs::Scalar`: subtraction in the prime field of order
/// `fr_order()`.
#[verifier::external_body]
pub fn scalar_sub(a: &Scalar, b: &Scalar) -> (r: Scalar)
    requires
        a.wf(),
        b.wf(),
    ensures
        r.wf(),
        r.value() == sub_fr(a.value(), b.value()),
{
    let x = blstrs::Scalar::from_bytes_le(a.bytes.as_slice().try_into().unwrap()).unwrap();
    let y = blstrs::Scalar::from_bytes_le(b.bytes.as_slice().try_into().unwrap()).unwrap();
    Scalar { bytes: (x - y).to_bytes_le().to_vec() }
}

/// Relies on `blstrs::Scalar`: multiplication in the prime field of order
/// `fr_order()`.
#[verifier::external_body]
pub fn scalar_mul(a: &Scalar, b: &Scalar) -> (r: Scalar)
    requires
        a.wf(),
        b.wf(),
    ensures
        r.wf(),
        r.value() == mul_fr(a.value(), b.value()),
{
    let x = blstrs::Scalar::from_bytes_le(a.bytes.as_slice().try_into().unwrap()).unwrap();
    let y = blstrs::Scalar::from_bytes_le(b.bytes.as_slice().try_into().unwrap()).unwrap();
    Scalar { bytes: (x * y).to_bytes_le().to_vec() }
}

/// Relies on `blstrs::Scalar`: negation in the prime field of order
/// `fr_order()`.
#[verifier::external_body]
pub fn scalar_neg(a: &Scalar) -> (r: Scalar)
    requires
        a.wf(),
    ensures
        r.wf(),
        r.value() == neg_fr(a.value()),
{
    let x = blstrs::Scalar::from_bytes_le(a.bytes.as_slice().try_into().unwrap()).unwrap();
    Scalar { bytes: (-x).to_bytes_le().to_vec() }
}

/// Relies on `blstrs::Scalar`: `ff::Field::invert` returns the multiplicative
/// inverse for every nonzero element and nothing for zero. In a prime field
/// the inverse is unique and equals `a^(q - 2)`, which is `inv_mod`.
#[verifier::external_body]
pub fn scalar_invert(a: &Scalar) -> (r: Option<Scalar>)
    requires
        a.wf(),
    ensures
        r is Some <==> a.value() != 0,
        r is Some ==> r.unwrap().wf() && mul_fr(a.value(), r.unwrap().value()) == 1
            && r.unwrap().value() == inv_mod(a.value()),
{
    let x = blstrs::Scalar::from_bytes_le(a.bytes.as_slice().try_into().unwrap()).unwrap();
    let inv = x.invert();
    if inv.is_some().into() {
        Some(Scalar { bytes: inv.unwrap().to_bytes_le().to_vec() })
    } else {
        None
    }
}

/// Relies on `num_bigint` and `num_integer`: `mod_floor` of a nonnegative
/// integer by the field order (read from `blstrs::Scalar::char`) is the
/// remainder of the division, so the result is the input reduced modulo the
/// field order.
#[verifier::external_body]
pub(crate) fn scalar_reduce_wide(wide: &Vec<u8>) -> (r: Scalar)
    requires
        wide@.len() == 64,
    ensures
        r.wf(),
        r.value() == le_val(wide@) % fr_order(),
{
    let q = num_bigint::BigUint::from_bytes_le(&blstrs::Scalar::char());
    let x = num_bigint::BigUint::from_bytes_le(wide.as_slice());
    let rem = num_integer::Integer::mod_floor(&x, &q);
    let mut bytes = rem.to_bytes_le();
    bytes.resize(32, 0u8);
    Scalar { bytes }
}

/// Relies on `blstrs::Scalar`: `ff::PrimeField::ROOT_OF_UNITY` is a
/// primitive `2^32`-th root of unity of the field (`ff::PrimeField::S` is 32
/// for this field). Its `2^32`-th power is one, and its `2^31`-th power is a
/// square root of one other than one itself; in a field of prime order the
/// only such element is the order minus one.
#[verifier::external_body]
pub(crate) fn scalar_root_of_unity() -> (r: Scalar)
    ensures
        r.wf(),
        crate::algebra::arith::pow_mod(r.value(), 0x100000000) == 1,
        crate::algebra::arith::pow_mod(r.value(), 0x80000000) == (fr_order() - 1) as nat,
{
    Scalar { bytes: <blstrs::Scalar as PrimeField>::ROOT_OF_UNITY.to_bytes_le().to_vec() }
}

} // verus!
