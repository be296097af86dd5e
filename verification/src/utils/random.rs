//! Randomness for dealing: a caller-owned source of random bytes, and the
//! uniform field and group elements drawn from it. Nothing is promised of a
//! drawn value beyond well-formedness: every caller is verified for every
//! outcome.

use vstd::prelude::*;
use crate::algebra::group::{g1_hash_to_curve, g2_hash_to_curve, G1Point, G2Point};
use crate::algebra::scalar::{scalar_reduce_wide, Scalar};
use crate::constants::{aug_g1, aug_g2, dst_rand_core_hell};
use rand::RngCore;

verus! {

#[verifier::external_type_specification]
#[verifier::external_body]
pub struct ExThreadRng(rand::rngs::ThreadRng);

/// A source of randomness owned by the caller and threaded through every
/// operation that draws random values.
pub struct RandomSource {
    rng: rand::rngs::ThreadRng,
}

impl RandomSource {
    /// Relies on `rand::thread_rng`: a cryptographically secure generator
    /// local to the calling thread.
    #[verifier::external_body]
    pub fn new() -> (r: RandomSource) {
        RandomSource { rng: rand::thread_rng() }
    }

    /// Relies on `rand::RngCore::next_u64`: a random 64-bit integer, of
    /// which nothing is promised.
    #[verifier::external_body]
    pub fn next_u64(&mut self) -> (r: u64) {
        self.rng.next_u64()
    }

    /// Relies on `rand::RngCore::fill_bytes`: fills the buffer with random
    /// bytes; nothing holds of the values, only of the length.
    #[verifier::external_body]
    pub fn fill_random_bytes(&mut self, n: usize) -> (r: Vec<u8>)
        ensures
            r@.len() == n,
    {
        let mut buf = vec![0u8; n];
        self.rng.fill_bytes(&mut buf);
        buf
    }
}

/// A scalar drawn uniformly from the full field: 64 random bytes, twice the
/// scalar width, reduced modulo the field order, so no range of the field is
/// noticeably favoured.
pub fn random_scalar(rng: &mut RandomSource) -> (r: Scalar)
    ensures
        r.wf(),
{
    let wide = rng.fill_random_bytes(64);
    scalar_reduce_wide(&wide)
}

/// `n` scalars drawn uniformly from the full field.
pub fn random_scalars(n: usize, rng: &mut RandomSource) -> (r: Vec<Scalar>)
    ensures
        r@.len() == n,
        crate::algebra::scalar::scalars_wf(r@),
{
    let mut r: Vec<Scalar> = Vec::new();
    let mut i: usize = 0;
    while i < n
        invariant
            i <= n,
            r@.len() == i,
            crate::algebra::scalar::scalars_wf(r@),
        decreases n - i,
    {
        r.push(random_scalar(rng));
        i += 1;
    }
    r
}

/// A random G1 point: a random seed hashed to the curve.
pub fn random_g1_point(rng: &mut RandomSource) -> (r: G1Point)
    ensures
        r.wf(),
{
    let seed = rng.fill_random_bytes(crate::constants::G1_PROJ_NUM_BYTES);
    let dst = dst_rand_core_hell();
    let aug = aug_g1();
    g1_hash_to_curve(&seed, &dst, &aug)
}

/// A random G2 point: a random seed hashed to the curve.
pub fn random_g2_point(rng: &mut RandomSource) -> (r: G2Point)
    ensures
        r.wf(),
{
    let seed = rng.fill_random_bytes(crate::constants::G2_PROJ_NUM_BYTES);
    let dst = dst_rand_core_hell();
    let aug = aug_g2();
    g2_hash_to_curve(&seed, &dst, &aug)
}

/// `n` random G1 points.
pub fn random_g1_points(n: usize, rng: &mut RandomSource) -> (r: Vec<G1Point>)
    ensures
        r@.len() == n,
        crate::algebra::group::g1_all_wf(r@),
{
    let mut r: Vec<G1Point> = Vec::new();
    let mut i: usize = 0;
    while i < n
        invariant
            i <= n,
            r@.len() == i,
            crate::algebra::group::g1_all_wf(r@),
        decreases n - i,
    {
        r.push(random_g1_point(rng));
        i += 1;
    }
    r
}

/// `n` random G2 points.
pub fn random_g2_points(n: usize, rng: &mut RandomSource) -> (r: Vec<G2Point>)
    ensures
        r@.len() == n,
        crate::algebra::group::g2_all_wf(r@),
{
    let mut r: Vec<G2Point> = Vec::new();
    let mut i: usize = 0;
    while i < n
        invariant
            i <= n,
            r@.len() == i,
            crate::algebra::group::g2_all_wf(r@),
        decreases n - i,
    {
        r.push(random_g2_point(rng));
        i += 1;
    }
    r
}

} // verus!
