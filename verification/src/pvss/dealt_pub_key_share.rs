//! A player's *share* of the dealt public key: the commitment to that
//! player's evaluation, already public in the transcript.

use vstd::prelude::*;
use crate::pvss::dealt_pub_key::DealtPubKey;
use crate::CryptoMaterialError;

verus! {

/// The byte views of a sequence of shares' points.
pub open spec fn pk_share_views(s: Seq<DealtPubKeyShare>) -> Seq<Seq<u8>> {
    Seq::new(s.len(), |i: int| s[i].point_view())
}

/// A player's share of the dealt public key.
#[derive(Debug)]
pub struct DealtPubKeyShare {
    key: DealtPubKey,
}

impl DealtPubKeyShare {
    /// The bytes of the share's point.
    pub open spec fn point_view(&self) -> Seq<u8> {
        self.key_spec().point_view()
    }

    /// The inner key.
    pub closed spec fn key_spec(&self) -> DealtPubKey {
        self.key
    }

    /// A well-formed share holds a valid point.
    pub open spec fn wf(&self) -> bool {
        self.key_spec().wf()
    }

    /// Wraps a dealt public key as a share.
    pub fn new(key: DealtPubKey) -> (r: Self)
        ensures
            r.key_spec() == key,
    {
        DealtPubKeyShare { key }
    }

    /// The compressed bytes of the share.
    pub fn to_bytes(&self) -> (r: Vec<u8>)
        ensures
            r@ == self.point_view(),
    {
        self.key.to_bytes()
    }

    /// Parses a share from its compressed bytes.
    pub fn from_bytes(bytes: &[u8]) -> (r: Result<Self, CryptoMaterialError>)
        ensures
            r is Ok <==> bytes@.len() == crate::constants::G1_PROJ_NUM_BYTES
                && crate::algebra::group::g1_valid(bytes@),
            r is Ok ==> r.unwrap().wf() && r.unwrap().point_view() == bytes@,
            bytes@.len() != crate::constants::G1_PROJ_NUM_BYTES ==> r == Result::<
                Self, CryptoMaterialError>::Err(CryptoMaterialError::WrongLengthError),
            bytes@.len() == crate::constants::G1_PROJ_NUM_BYTES && !crate::algebra::group::g1_valid(
                bytes@) ==> r == Result::<Self, CryptoMaterialError>::Err(
                CryptoMaterialError::DeserializationError),
    {
        match DealtPubKey::from_bytes(bytes) {
            Ok(key) => Ok(DealtPubKeyShare { key }),
            Err(e) => Err(e),
        }
    }
}

impl Clone for DealtPubKeyShare {
    fn clone(&self) -> (r: Self)
        ensures
            r.point_view() == self.point_view(),
    {
        DealtPubKeyShare { key: self.key.clone() }
    }
}

} // verus!
