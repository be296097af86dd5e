pub mod fiat_shamir;
pub mod random;
pub mod serialization;

use vstd::prelude::*;
use crate::algebra::arith::{fr_order, le_val};
use crate::algebra::scalar::{scalar_reduce_wide, Scalar};
use crate::utils::serialization::append_bytes;
use sha3::Digest;

verus! {

/// The 64-byte digest of a byte string; names `sha3::Sha3_512`, a
/// deterministic function of its input.
pub uninterp spec fn sha3_512_spec(msg: Seq<u8>) -> Seq<u8>;

/// Relies on `sha3::Sha3_512`: hashing is deterministic and the digest is 64
/// bytes long.
#[verifier::external_body]
pub(crate) fn sha3_512(msg: &Vec<u8>) -> (r: Vec<u8>)
    ensures
        r@.len() == 64,
        r@ == sha3_512_spec(msg@),
{
    let mut hasher = sha3::Sha3_512::new();
    hasher.update(msg.as_slice());
    hasher.finalize().to_vec()
}

/// The scalar that a message hashes to under a domain separation tag: the
/// 512-bit number SHA3-512(SHA3-512(dst) || msg) reduced modulo the field
/// order.
pub open spec fn hash_to_scalar_spec(msg: Seq<u8>, dst: Seq<u8>) -> nat {
    le_val(sha3_512_spec(sha3_512_spec(dst) + msg)) % fr_order()
}

/// Hashes `msg` and the domain separation tag `dst` to a scalar by reducing
/// a 512-bit hash, twice the scalar width, modulo the field order, so no
/// range of the field is noticeably favoured.
pub fn hash_to_scalar(msg: &Vec<u8>, dst: &Vec<u8>) -> (r: Scalar)
    ensures
        r.wf(),
        r.value() == hash_to_scalar_spec(msg@, dst@),
{
    let dst_hash = sha3_512(dst);
    let mut buf = dst_hash;
    append_bytes(&mut buf, msg);
    let wide = sha3_512(&buf);
    scalar_reduce_wide(&wide)
}

/// Whether `n` is a power of two.
pub open spec fn is_pow2(n: nat) -> bool
    decreases n,
{
    if n == 0 {
        false
    } else if n == 1 {
        true
    } else {
        n % 2 == 0 && is_pow2(n / 2)
    }
}

/// Every power of two satisfies `is_pow2`.
pub proof fn lemma_pow2_is_pow2(k: nat)
    ensures
        is_pow2(vstd::arithmetic::power2::pow2(k)),
    decreases k,
{
    vstd::arithmetic::power2::lemma_pow2_pos(k);
    if k == 0 {
        vstd::arithmetic::power2::lemma2_to64();
    } else {
        lemma_pow2_is_pow2((k - 1) as nat);
        vstd::arithmetic::power2::lemma_pow2_unfold(k);
        vstd::arithmetic::power2::lemma_pow2_pos((k - 1) as nat);
    }
}

/// Whatever satisfies `is_pow2` is a power of two.
pub proof fn lemma_is_pow2_exists(n: nat)
    requires
        is_pow2(n),
    ensures
        exists|k: nat| n == vstd::arithmetic::power2::pow2(k),
    decreases n,
{
    if n == 1 {
        vstd::arithmetic::power2::lemma2_to64();
        assert(n == vstd::arithmetic::power2::pow2(0));
    } else {
        lemma_is_pow2_exists(n / 2);
        let k = choose|k: nat| n / 2 == vstd::arithmetic::power2::pow2(k);
        vstd::arithmetic::power2::lemma_pow2_unfold((k + 1) as nat);
        assert(n == vstd::arithmetic::power2::pow2((k + 1) as nat));
    }
}

/// Returns true exactly when `n` is a power of two.
pub fn is_power_of_two(n: usize) -> (r: bool)
    ensures
        r == is_pow2(n as nat),
{
    if n == 0 {
        return false;
    }
    let mut m: usize = n;
    while m > 1 && m % 2 == 0
        invariant
            m >= 1,
            is_pow2(n as nat) == is_pow2(m as nat),
        decreases m,
    {
        m = m / 2;
    }
    m == 1
}

} // verus!
