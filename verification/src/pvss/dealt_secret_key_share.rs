//! A player's *share* of the dealt secret key, recovered by decrypting that
//! player's ciphertext in the transcript.

use vstd::prelude::*;
use crate::algebra::group::G2Point;
use crate::constants::G2_PROJ_NUM_BYTES;
use crate::pvss::dealt_secret_key::DealtSecretKey;
use crate::CryptoMaterialError;

verus! {

/// The byte views of a sequence of shares' points.
pub open spec fn sk_share_views(s: Seq<DealtSecretKeyShare>) -> Seq<Seq<u8>> {
    Seq::new(s.len(), |i: int| s[i].point_view())
}

/// Whether every share of a sequence is well-formed.
pub open spec fn sk_shares_wf(s: Seq<DealtSecretKeyShare>) -> bool {
    forall|i: int| 0 <= i < s.len() ==> (#[trigger] s[i]).wf()
}

/// A player's share of the dealt secret key.
#[derive(Debug)]
pub struct DealtSecretKeyShare {
    key: DealtSecretKey,
}

impl DealtSecretKeyShare {
    /// The bytes of the share's point.
    pub open spec fn point_view(&self) -> Seq<u8> {
        self.key_spec().point_view()
    }

    /// The inner key.
    pub closed spec fn key_spec(&self) -> DealtSecretKey {
        self.key
    }

    /// A well-formed share holds a valid point.
    pub open spec fn wf(&self) -> bool {
        self.key_spec().wf()
    }

    /// Wraps a dealt secret key as a share.
    pub fn new(key: DealtSecretKey) -> (r: Self)
        ensures
            r.key_spec() == key,
    {
        DealtSecretKeyShare { key }
    }

    /// A copy of the share's point.
    pub(crate) fn point_clone(&self) -> (r: G2Point)
        requires
            self.wf(),
        ensures
            r.wf(),
            r@ == self.point_view(),
    {
        DealtSecretKey::point_ref(&self.key).clone()
    }

    /// The compressed bytes of the share.
    pub fn to_bytes(&self) -> (r: Vec<u8>)
        ensures
            r@ == self.point_view(),
    {
        self.key.to_bytes()
    }

    /// Parses a share from its compressed bytes.
    pub fn from_bytes(bytes: &[u8]) -> (r: Result<Self, CryptoMaterialError>)
        ensures
            r is Ok <==> bytes@.len() == G2_PROJ_NUM_BYTES && crate::algebra::group::g2_valid(
                bytes@),
            r is Ok ==> r.unwrap().wf() && r.unwrap().point_view() == bytes@,
            bytes@.len() != G2_PROJ_NUM_BYTES ==> r == Result::<Self, CryptoMaterialError>::Err(
                CryptoMaterialError::WrongLengthError),
            bytes@.len() == G2_PROJ_NUM_BYTES && !crate::algebra::group::g2_valid(bytes@) ==> r
                == Result::<Self, CryptoMaterialError>::Err(
                CryptoMaterialError::DeserializationError),
    {
        match DealtSecretKey::from_bytes(bytes) {
            Ok(key) => Ok(DealtSecretKeyShare { key }),
            Err(e) => Err(e),
        }
    }
}

impl Clone for DealtSecretKeyShare {
    fn clone(&self) -> (r: Self)
        ensures
            r.point_view() == self.point_view(),
            r.wf() == self.wf(),
    {
        DealtSecretKeyShare { key: DealtSecretKey::clone_for_share(&self.key) }
    }
}

impl PartialEq for DealtSecretKeyShare {
    fn eq(&self, other: &Self) -> (r: bool) {
        self.key.eq(&other.key)
    }
}

impl vstd::std_specs::cmp::PartialEqSpecImpl for DealtSecretKeyShare {
    open spec fn obeys_eq_spec() -> bool {
        true
    }

    open spec fn eq_spec(&self, other: &Self) -> bool {
        self.point_view() == other.point_view()
    }
}

impl Eq for DealtSecretKeyShare {}

} // verus!
