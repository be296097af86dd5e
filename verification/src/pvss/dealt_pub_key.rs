//! The *dealt public key*: the public key associated with the secret key
//! that a transcript deals, a G1 point.

use vstd::prelude::*;
use crate::algebra::group::{g1_from_compressed, g1_valid, G1Point};
use crate::constants::G1_PROJ_NUM_BYTES;
use crate::utils::serialization::slice_to_vec;
use crate::CryptoMaterialError;

verus! {

/// The public key dealt by a transcript: `g1^a` for the input secret `a`.
#[derive(Debug)]
pub struct DealtPubKey {
    g1: G1Point,
}

impl DealtPubKey {
    /// The bytes of the key's point.
    pub closed spec fn point_view(&self) -> Seq<u8> {
        self.g1@
    }

    /// A well-formed key holds a valid point.
    pub open spec fn wf(&self) -> bool {
        self.point_view().len() == 48 && g1_valid(self.point_view())
    }

    /// Wraps a group element.
    pub fn new(g1: G1Point) -> (r: Self)
        requires
            g1.wf(),
        ensures
            r.wf(),
            r.point_view() == g1@,
    {
        DealtPubKey { g1 }
    }

    /// The compressed bytes of the key.
    pub fn to_bytes(&self) -> (r: Vec<u8>)
        ensures
            r@ == self.point_view(),
    {
        self.g1.to_compressed()
    }

    /// Parses a key from its compressed bytes: rejects a wrong length, and
    /// bytes that are no canonical point encoding.
    pub fn from_bytes(bytes: &[u8]) -> (r: Result<Self, CryptoMaterialError>)
        ensures
            r is Ok <==> bytes@.len() == G1_PROJ_NUM_BYTES && g1_valid(bytes@),
            r is Ok ==> r.unwrap().wf() && r.unwrap().point_view() == bytes@,
            bytes@.len() != G1_PROJ_NUM_BYTES ==> r == Result::<Self, CryptoMaterialError>::Err(
                CryptoMaterialError::WrongLengthError),
            bytes@.len() == G1_PROJ_NUM_BYTES && !g1_valid(bytes@) ==> r == Result::<
                Self, CryptoMaterialError>::Err(CryptoMaterialError::DeserializationError),
    {
        if bytes.len() != G1_PROJ_NUM_BYTES {
            return Err(CryptoMaterialError::WrongLengthError);
        }
        let v = slice_to_vec(bytes);
        match g1_from_compressed(&v) {
            Some(p) => Ok(DealtPubKey { g1: p }),
            None => Err(CryptoMaterialError::DeserializationError),
        }
    }
}

impl Clone for DealtPubKey {
    fn clone(&self) -> (r: Self)
        ensures
            r.point_view() == self.point_view(),
    {
        DealtPubKey { g1: self.g1.clone() }
    }
}

impl PartialEq for DealtPubKey {
    fn eq(&self, other: &Self) -> (r: bool) {
        self.g1.eq(&other.g1)
    }
}

impl vstd::std_specs::cmp::PartialEqSpecImpl for DealtPubKey {
    open spec fn obeys_eq_spec() -> bool {
        true
    }

    open spec fn eq_spec(&self, other: &Self) -> bool {
        self.point_view() == other.point_view()
    }
}

impl Eq for DealtPubKey {}

} // verus!
