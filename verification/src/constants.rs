//! The protocol's fixed byte strings and sizes. Each byte string is given
//! both as a specification-level sequence and, where executable code needs
//! it, as a function building the same bytes; the doc comment of each names
//! the ASCII text it spells.

use vstd::prelude::*;

verus! {

/// The size in bytes of a compressed G1 point.
pub const G1_PROJ_NUM_BYTES: usize = 48;

/// The size in bytes of a compressed G2 point.
pub const G2_PROJ_NUM_BYTES: usize = 96;

/// The size in bytes of a scalar.
pub const SCALAR_NUM_BYTES: usize = 32;

/// The most players a configuration may have: keeps every length and offset
/// computed from a configuration within the machine's integer range.
pub const MAX_PLAYERS: usize = 1048576;

/// Fiat-Shamir label under which the protocol domain separator is appended.
/// The bytes spell "dom-sep".
pub closed spec fn label_dom_sep_spec() -> Seq<u8> {
    seq![100u8, 111, 109, 45, 115, 101, 112]
}

/// Fiat-Shamir label under which the threshold is appended.
/// The bytes spell "t".
pub closed spec fn label_t_spec() -> Seq<u8> {
    seq![116u8]
}

/// Fiat-Shamir label under which the number of players is appended.
/// The bytes spell "n".
pub closed spec fn label_n_spec() -> Seq<u8> {
    seq![110u8]
}

/// Fiat-Shamir label under which the public parameters are appended.
/// The bytes spell "pp".
pub closed spec fn label_pp_spec() -> Seq<u8> {
    seq![112u8, 112]
}

/// Fiat-Shamir label under which the number of encryption keys is appended.
/// The bytes spell "encryption-keys".
pub closed spec fn label_encryption_keys_spec() -> Seq<u8> {
    seq![101u8, 110, 99, 114, 121, 112, 116, 105, 111, 110, 45, 107, 101, 121, 115]
}

/// Fiat-Shamir label under which each G2 point of a vector is appended.
/// The bytes spell "g2_point".
pub closed spec fn label_g2_point_spec() -> Seq<u8> {
    seq![103u8, 50, 95, 112, 111, 105, 110, 116]
}

/// Fiat-Shamir label under which the transcript bytes are appended.
/// The bytes spell "transcript".
pub closed spec fn label_transcript_spec() -> Seq<u8> {
    seq![116u8, 114, 97, 110, 115, 99, 114, 105, 112, 116]
}

/// Fiat-Shamir label of the challenge for the Lagrange consistency check.
/// The bytes spell "challenge_alpha".
pub closed spec fn label_challenge_alpha_spec() -> Seq<u8> {
    seq![99u8, 104, 97, 108, 108, 101, 110, 103, 101, 95, 97, 108, 112, 104, 97]
}

/// Fiat-Shamir label of the challenge that batches the multi-pairing check.
/// The bytes spell "challenge_multipairing".
pub closed spec fn label_challenge_multipairing_spec() -> Seq<u8> {
    seq![99u8, 104, 97, 108, 108, 101, 110, 103, 101, 95, 109, 117, 108, 116, 105, 112, 97, 105, 114, 105, 110, 103]
}

/// Domain separation tag handed to deal and verify by tests and harnesses.
/// The bytes spell "APTOS_SACRIFICING_PVSS_BENCHMARK_DST".
pub closed spec fn dst_pvss_testing_app_spec() -> Seq<u8> {
    seq![65u8, 80, 84, 79, 83, 95, 83, 65, 67, 82, 73, 70, 73, 67, 73, 78, 71, 95, 80, 86, 83, 83, 95, 66, 69, 78, 67, 72, 77, 65, 82, 75, 95, 68, 83, 84]
}

/// Domain separation tag for hashing locally drawn randomness to a curve point.
/// The bytes spell "AptosRandCoreHellHack".
pub closed spec fn dst_rand_core_hell_spec() -> Seq<u8> {
    seq![65u8, 112, 116, 111, 115, 82, 97, 110, 100, 67, 111, 114, 101, 72, 101, 108, 108, 72, 97, 99, 107]
}

/// Domain separation tag for deriving the public parameters by hashing to the curve.
/// The bytes spell "AptosPvssPublicParametersGeneration".
pub closed spec fn dst_pvss_public_params_generation_spec() -> Seq<u8> {
    seq![65u8, 112, 116, 111, 115, 80, 118, 115, 115, 80, 117, 98, 108, 105, 99, 80, 97, 114, 97, 109, 101, 116, 101, 114, 115, 71, 101, 110, 101, 114, 97, 116, 105, 111, 110]
}

/// Nothing-up-my-sleeve seed the canonical public parameters are derived from.
/// The bytes spell "APTOS_DISTRIBUTED_RANDOMNESS_SEED".
pub closed spec fn seed_pvss_public_params_generation_spec() -> Seq<u8> {
    seq![65u8, 80, 84, 79, 83, 95, 68, 73, 83, 84, 82, 73, 66, 85, 84, 69, 68, 95, 82, 65, 78, 68, 79, 77, 78, 69, 83, 83, 95, 83, 69, 69, 68]
}

/// Domain separator binding the Fiat-Shamir transcript to this protocol.
/// The bytes spell "APTOS_SCRAPE_PVSS_DST".
pub closed spec fn pvss_dom_sep_spec() -> Seq<u8> {
    seq![65u8, 80, 84, 79, 83, 95, 83, 67, 82, 65, 80, 69, 95, 80, 86, 83, 83, 95, 68, 83, 84]
}

/// Domain separation tag for mapping Fiat-Shamir challenge bytes to a scalar.
/// The bytes spell "APTOS_SCRAPE_PVSS_HASH_TO_SCALAR_DST".
pub closed spec fn pvss_hash_to_scalar_dst_spec() -> Seq<u8> {
    seq![65u8, 80, 84, 79, 83, 95, 83, 67, 82, 65, 80, 69, 95, 80, 86, 83, 83, 95, 72, 65, 83, 72, 95, 84, 79, 95, 83, 67, 65, 76, 65, 82, 95, 68, 83, 84]
}

/// Augmentation string separating G1 from G2 when hashing randomness to a point.
/// The bytes spell "G1".
pub closed spec fn aug_g1_spec() -> Seq<u8> {
    seq![71u8, 49]
}

/// Augmentation string separating G2 from G1 when hashing randomness to a point.
/// The bytes spell "G2".
pub closed spec fn aug_g2_spec() -> Seq<u8> {
    seq![71u8, 50]
}

/// Augmentation string for deriving the commitment base of the public parameters.
/// The bytes spell "g1".
pub closed spec fn aug_commitment_base_spec() -> Seq<u8> {
    seq![103u8, 49]
}

/// Augmentation string for deriving the encryption-key base of the public parameters.
/// The bytes spell "h1_hat".
pub closed spec fn aug_encryption_base_spec() -> Seq<u8> {
    seq![104u8, 49, 95, 104, 97, 116]
}

/// Augmentation string for deriving the dealt-public-key base of the public parameters.
/// The bytes spell "u1_hat".
pub closed spec fn aug_public_key_base_spec() -> Seq<u8> {
    seq![117u8, 49, 95, 104, 97, 116]
}

/// Domain separation tag handed to deal and verify by tests and harnesses.
/// The bytes spell "APTOS_SACRIFICING_PVSS_BENCHMARK_DST".
pub fn dst_pvss_testing_app() -> (r: Vec<u8>)
    ensures
        r@ == dst_pvss_testing_app_spec(),
{
    let mut r: Vec<u8> = Vec::new();
    r.push(65);
    r.push(80);
    r.push(84);
    r.push(79);
    r.push(83);
    r.push(95);
    r.push(83);
    r.push(65);
    r.push(67);
    r.push(82);
    r.push(73);
    r.push(70);
    r.push(73);
    r.push(67);
    r.push(73);
    r.push(78);
    r.push(71);
    r.push(95);
    r.push(80);
    r.push(86);
    r.push(83);
    r.push(83);
    r.push(95);
    r.push(66);
    r.push(69);
    r.push(78);
    r.push(67);
    r.push(72);
    r.push(77);
    r.push(65);
    r.push(82);
    r.push(75);
    r.push(95);
    r.push(68);
    r.push(83);
    r.push(84);
    proof {
        assert(r@ =~= dst_pvss_testing_app_spec());
    }
    r
}

/// Domain separation tag for hashing locally drawn randomness to a curve point.
/// The bytes spell "AptosRandCoreHellHack".
pub fn dst_rand_core_hell() -> (r: Vec<u8>)
    ensures
        r@ == dst_rand_core_hell_spec(),
{
    let mut r: Vec<u8> = Vec::new();
    r.push(65);
    r.push(112);
    r.push(116);
    r.push(111);
    r.push(115);
    r.push(82);
    r.push(97);
    r.push(110);
    r.push(100);
    r.push(67);
    r.push(111);
    r.push(114);
    r.push(101);
    r.push(72);
    r.push(101);
    r.push(108);
    r.push(108);
    r.push(72);
    r.push(97);
    r.push(99);
    r.push(107);
    proof {
        assert(r@ =~= dst_rand_core_hell_spec());
    }
    r
}

/// Domain separation tag for deriving the public parameters by hashing to the curve.
/// The bytes spell "AptosPvssPublicParametersGeneration".
pub fn dst_pvss_public_params_generation() -> (r: Vec<u8>)
    ensures
        r@ == dst_pvss_public_params_generation_spec(),
{
    let mut r: Vec<u8> = Vec::new();
    r.push(65);
    r.push(112);
    r.push(116);
    r.push(111);
    r.push(115);
    r.push(80);
    r.push(118);
    r.push(115);
    r.push(115);
    r.push(80);
    r.push(117);
    r.push(98);
    r.push(108);
    r.push(105);
    r.push(99);
    r.push(80);
    r.push(97);
    r.push(114);
    r.push(97);
    r.push(109);
    r.push(101);
    r.push(116);
    r.push(101);
    r.push(114);
    r.push(115);
    r.push(71);
    r.push(101);
    r.push(110);
    r.push(101);
    r.push(114);
    r.push(97);
    r.push(116);
    r.push(105);
    r.push(111);
    r.push(110);
    proof {
        assert(r@ =~= dst_pvss_public_params_generation_spec());
    }
    r
}

/// Nothing-up-my-sleeve seed the canonical public parameters are derived from.
/// The bytes spell "APTOS_DISTRIBUTED_RANDOMNESS_SEED".
pub fn seed_pvss_public_params_generation() -> (r: Vec<u8>)
    ensures
        r@ == seed_pvss_public_params_generation_spec(),
{
    let mut r: Vec<u8> = Vec::new();
    r.push(65);
    r.push(80);
    r.push(84);
    r.push(79);
    r.push(83);
    r.push(95);
    r.push(68);
    r.push(73);
    r.push(83);
    r.push(84);
    r.push(82);
    r.push(73);
    r.push(66);
    r.push(85);
    r.push(84);
    r.push(69);
    r.push(68);
    r.push(95);
    r.push(82);
    r.push(65);
    r.push(78);
    r.push(68);
    r.push(79);
    r.push(77);
    r.push(78);
    r.push(69);
    r.push(83);
    r.push(83);
    r.push(95);
    r.push(83);
    r.push(69);
    r.push(69);
    r.push(68);
    proof {
        assert(r@ =~= seed_pvss_public_params_generation_spec());
    }
    r
}

/// Domain separator binding the Fiat-Shamir transcript to this protocol.
/// The bytes spell "APTOS_SCRAPE_PVSS_DST".
pub fn pvss_dom_sep() -> (r: Vec<u8>)
    ensures
        r@ == pvss_dom_sep_spec(),
{
    let mut r: Vec<u8> = Vec::new();
    r.push(65);
    r.push(80);
    r.push(84);
    r.push(79);
    r.push(83);
    r.push(95);
    r.push(83);
    r.push(67);
    r.push(82);
    r.push(65);
    r.push(80);
    r.push(69);
    r.push(95);
    r.push(80);
    r.push(86);
    r.push(83);
    r.push(83);
    r.push(95);
    r.push(68);
    r.push(83);
    r.push(84);
    proof {
        assert(r@ =~= pvss_dom_sep_spec());
    }
    r
}

/// Domain separation tag for mapping Fiat-Shamir challenge bytes to a scalar.
/// The bytes spell "APTOS_SCRAPE_PVSS_HASH_TO_SCALAR_DST".
pub fn pvss_hash_to_scalar_dst() -> (r: Vec<u8>)
    ensures
        r@ == pvss_hash_to_scalar_dst_spec(),
{
    let mut r: Vec<u8> = Vec::new();
    r.push(65);
    r.push(80);
    r.push(84);
    r.push(79);
    r.push(83);
    r.push(95);
    r.push(83);
    r.push(67);
    r.push(82);
    r.push(65);
    r.push(80);
    r.push(69);
    r.push(95);
    r.push(80);
    r.push(86);
    r.push(83);
    r.push(83);
    r.push(95);
    r.push(72);
    r.push(65);
    r.push(83);
    r.push(72);
    r.push(95);
    r.push(84);
    r.push(79);
    r.push(95);
    r.push(83);
    r.push(67);
    r.push(65);
    r.push(76);
    r.push(65);
    r.push(82);
    r.push(95);
    r.push(68);
    r.push(83);
    r.push(84);
    proof {
        assert(r@ =~= pvss_hash_to_scalar_dst_spec());
    }
    r
}

/// Augmentation string separating G1 from G2 when hashing randomness to a point.
/// The bytes spell "G1".
pub fn aug_g1() -> (r: Vec<u8>)
    ensures
        r@ == aug_g1_spec(),
{
    let mut r: Vec<u8> = Vec::new();
    r.push(71);
    r.push(49);
    proof {
        assert(r@ =~= aug_g1_spec());
    }
    r
}

/// Augmentation string separating G2 from G1 when hashing randomness to a point.
/// The bytes spell "G2".
pub fn aug_g2() -> (r: Vec<u8>)
    ensures
        r@ == aug_g2_spec(),
{
    let mut r: Vec<u8> = Vec::new();
    r.push(71);
    r.push(50);
    proof {
        assert(r@ =~= aug_g2_spec());
    }
    r
}

/// Augmentation string for deriving the commitment base of the public parameters.
/// The bytes spell "g1".
pub fn aug_commitment_base() -> (r: Vec<u8>)
    ensures
        r@ == aug_commitment_base_spec(),
{
    let mut r: Vec<u8> = Vec::new();
    r.push(103);
    r.push(49);
    proof {
        assert(r@ =~= aug_commitment_base_spec());
    }
    r
}

/// Augmentation string for deriving the encryption-key base of the public parameters.
/// The bytes spell "h1_hat".
pub fn aug_encryption_base() -> (r: Vec<u8>)
    ensures
        r@ == aug_encryption_base_spec(),
{
    let mut r: Vec<u8> = Vec::new();
    r.push(104);
    r.push(49);
    r.push(95);
    r.push(104);
    r.push(97);
    r.push(116);
    proof {
        assert(r@ =~= aug_encryption_base_spec());
    }
    r
}

/// Augmentation string for deriving the dealt-public-key base of the public parameters.
/// The bytes spell "u1_hat".
pub fn aug_public_key_base() -> (r: Vec<u8>)
    ensures
        r@ == aug_public_key_base_spec(),
{
    let mut r: Vec<u8> = Vec::new();
    r.push(117);
    r.push(49);
    r.push(95);
    r.push(104);
    r.push(97);
    r.push(116);
    proof {
        assert(r@ =~= aug_public_key_base_spec());
    }
    r
}

} // verus!
