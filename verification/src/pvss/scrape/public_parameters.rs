//! The *public parameters* of the SCRAPE PVSS: three group generators — an
//! encryption-key base, a dealt-public-key base and a commitment base —
//! derived deterministically by hashing a fixed domain-separated seed to
//! curve points, so nobody knows their discrete logs.

use vstd::prelude::*;
use crate::algebra::group::{
    g1_from_compressed, g1_h2c_spec, g1_hash_to_curve, g1_valid, g2_from_compressed, g2_h2c_spec,
    g2_hash_to_curve, g2_valid, G1Point, G2Point,
};
use crate::constants::{
    aug_commitment_base, aug_commitment_base_spec, aug_encryption_base, aug_encryption_base_spec,
    aug_public_key_base, aug_public_key_base_spec, dst_pvss_public_params_generation,
    dst_pvss_public_params_generation_spec, seed_pvss_public_params_generation,
    seed_pvss_public_params_generation_spec,
};
use crate::pvss::encryption_dlog;
use crate::pvss::traits::HasEncryptionPublicParams;
use crate::utils::serialization::{append_bytes, slice_to_vec, sub_bytes};
use crate::CryptoMaterialError;

verus! {

/// The size in bytes of a serialized parameter set: two G2 points and one
/// G1 point.
pub const PP_NUM_BYTES: usize = 240;

/// The cryptographic public parameters needed to run the SCRAPE PVSS.
#[derive(Debug)]
pub struct PublicParameters {
    enc: encryption_dlog::PublicParameters,
    u1_hat: G2Point,
    g1: G1Point,
}

impl PublicParameters {
    /// The bytes of the encryption-key base.
    pub closed spec fn enc_base_view(&self) -> Seq<u8> {
        self.enc.base_view()
    }

    /// The bytes of the dealt-public-key base.
    pub closed spec fn pk_base_view(&self) -> Seq<u8> {
        self.u1_hat@
    }

    /// The bytes of the commitment base.
    pub closed spec fn comm_base_view(&self) -> Seq<u8> {
        self.g1@
    }

    /// A well-formed parameter set holds three valid points.
    pub open spec fn wf(&self) -> bool {
        &&& self.enc_base_view().len() == 96 && g2_valid(self.enc_base_view())
        &&& self.pk_base_view().len() == 96 && g2_valid(self.pk_base_view())
        &&& self.comm_base_view().len() == 48 && g1_valid(self.comm_base_view())
    }

    /// The serialization of the parameters: the three bases' compressed
    /// bytes, in order.
    pub open spec fn to_bytes_spec(&self) -> Seq<u8> {
        self.enc_base_view() + self.pk_base_view() + self.comm_base_view()
    }

    /// Verifiably creates public parameters from a public seed, by hashing
    /// it to the curve under three distinct augmentation strings.
    pub fn new_from_seed(seed: &Vec<u8>) -> (r: Self)
        ensures
            r.wf(),
            r.enc_base_view() == g2_h2c_spec(
                seed@, dst_pvss_public_params_generation_spec(), aug_encryption_base_spec()),
            r.pk_base_view() == g2_h2c_spec(
                seed@, dst_pvss_public_params_generation_spec(), aug_public_key_base_spec()),
            r.comm_base_view() == g1_h2c_spec(
                seed@, dst_pvss_public_params_generation_spec(), aug_commitment_base_spec()),
    {
        let dst = dst_pvss_public_params_generation();
        let enc_base = g2_hash_to_curve(seed, &dst, &aug_encryption_base());
        let u1_hat = g2_hash_to_curve(seed, &dst, &aug_public_key_base());
        let g1 = g1_hash_to_curve(seed, &dst, &aug_commitment_base());
        PublicParameters { enc: encryption_dlog::PublicParameters::new(enc_base), u1_hat, g1 }
    }

    /// Returns the base used for computing the players' encryption keys.
    pub fn get_encryption_key_base(&self) -> (r: &G2Point)
        ensures
            r@ == self.enc_base_view(),
    {
        self.enc.as_group_element()
    }

    /// Returns the base used for computing the dealt public key and its
    /// shares.
    pub fn get_public_key_base(&self) -> (r: &G2Point)
        ensures
            r@ == self.pk_base_view(),
    {
        &self.u1_hat
    }

    /// Returns the base for the commitments to the polynomial.
    pub fn get_commitment_base(&self) -> (r: &G1Point)
        ensures
            r@ == self.comm_base_view(),
    {
        &self.g1
    }

    /// The encryption public parameters inside this parameter set.
    pub fn get_encryption_public_params(&self) -> (r: &encryption_dlog::PublicParameters)
        ensures
            r.base_view() == self.enc_base_view(),
    {
        &self.enc
    }

    /// Serializes the public parameters: the three bases, concatenated.
    pub fn to_bytes(&self) -> (r: Vec<u8>)
        ensures
            r@ == self.to_bytes_spec(),
    {
        let mut bytes = self.enc.as_group_element().to_compressed();
        let u1 = self.u1_hat.to_compressed();
        let g1 = self.g1.to_compressed();
        append_bytes(&mut bytes, &u1);
        append_bytes(&mut bytes, &g1);
        bytes
    }

    /// Parses a parameter set from bytes: rejects a wrong length, and any
    /// segment that is no canonical point encoding.
    pub fn from_bytes(bytes: &[u8]) -> (r: Result<Self, CryptoMaterialError>)
        ensures
            r is Ok <==> pp_bytes_parseable(bytes@),
            r is Ok ==> r.unwrap().wf() && r.unwrap().enc_base_view() == bytes@.subrange(0, 96)
                && r.unwrap().pk_base_view() == bytes@.subrange(96, 192)
                && r.unwrap().comm_base_view() == bytes@.subrange(192, 240),
            bytes@.len() != PP_NUM_BYTES ==> r == Result::<Self, CryptoMaterialError>::Err(
                CryptoMaterialError::WrongLengthError),
            bytes@.len() == PP_NUM_BYTES && !pp_bytes_parseable(bytes@) ==> r == Result::<
                Self, CryptoMaterialError>::Err(CryptoMaterialError::DeserializationError),
    {
        if bytes.len() != PP_NUM_BYTES {
            return Err(CryptoMaterialError::WrongLengthError);
        }
        let v = slice_to_vec(bytes);
        let enc_bytes = sub_bytes(&v, 0, 96);
        let u1_bytes = sub_bytes(&v, 96, 192);
        let g1_bytes = sub_bytes(&v, 192, 240);
        let enc_base = g2_from_compressed(&enc_bytes);
        let u1_hat = g2_from_compressed(&u1_bytes);
        let g1 = g1_from_compressed(&g1_bytes);
        match (enc_base, u1_hat, g1) {
            (Some(e), Some(u), Some(g)) => Ok(
                PublicParameters { enc: encryption_dlog::PublicParameters::new(e), u1_hat: u, g1: g },
            ),
            _ => Err(CryptoMaterialError::DeserializationError),
        }
    }
}

/// Whether a byte string parses as public parameters: right length and three
/// canonical point encodings.
pub open spec fn pp_bytes_parseable(bytes: Seq<u8>) -> bool {
    &&& bytes.len() == PP_NUM_BYTES
    &&& g2_valid(bytes.subrange(0, 96))
    &&& g2_valid(bytes.subrange(96, 192))
    &&& g1_valid(bytes.subrange(192, 240))
}

impl Default for PublicParameters {
    /// Verifiably creates the canonical public parameters from the fixed
    /// nothing-up-my-sleeve seed.
    fn default() -> (r: Self)
        ensures
            r.wf(),
            r.enc_base_view() == g2_h2c_spec(
                seed_pvss_public_params_generation_spec(),
                dst_pvss_public_params_generation_spec(),
                aug_encryption_base_spec(),
            ),
            r.pk_base_view() == g2_h2c_spec(
                seed_pvss_public_params_generation_spec(),
                dst_pvss_public_params_generation_spec(),
                aug_public_key_base_spec(),
            ),
            r.comm_base_view() == g1_h2c_spec(
                seed_pvss_public_params_generation_spec(),
                dst_pvss_public_params_generation_spec(),
                aug_commitment_base_spec(),
            ),
    {
        let seed = seed_pvss_public_params_generation();
        PublicParameters::new_from_seed(&seed)
    }
}

impl Clone for PublicParameters {
    fn clone(&self) -> (r: Self)
        ensures
            r.enc_base_view() == self.enc_base_view(),
            r.pk_base_view() == self.pk_base_view(),
            r.comm_base_view() == self.comm_base_view(),
    {
        PublicParameters {
            enc: self.enc.clone(),
            u1_hat: self.u1_hat.clone(),
            g1: self.g1.clone(),
        }
    }
}

impl HasEncryptionPublicParams for PublicParameters {
    type EncryptionPublicParameters = encryption_dlog::PublicParameters;

    fn get_encryption_public_params(&self) -> &encryption_dlog::PublicParameters {
        &self.enc
    }
}

/// The round trip of the public parameters: the serialization of a
/// well-formed parameter set parses back to the same three bases.
pub proof fn lemma_public_parameters_round_trip(pp: &PublicParameters)
    requires
        pp.wf(),
    ensures
        pp_bytes_parseable(pp.to_bytes_spec()),
        pp.to_bytes_spec().subrange(0, 96) == pp.enc_base_view(),
        pp.to_bytes_spec().subrange(96, 192) == pp.pk_base_view(),
        pp.to_bytes_spec().subrange(192, 240) == pp.comm_base_view(),
{
    let b = pp.to_bytes_spec();
    assert(b.subrange(0, 96) =~= pp.enc_base_view());
    assert(b.subrange(96, 192) =~= pp.pk_base_view());
    assert(b.subrange(192, 240) =~= pp.comm_base_view());
}

} // verus!
