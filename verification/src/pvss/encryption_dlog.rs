//! The discrete-log encryption key pair used to encrypt shares to players:
//! a player's private decryption key is a nonzero scalar `dk`, and its
//! public encryption key is `base^(1/dk)` in G2, so that raising a
//! ciphertext `ek^m` to `dk` recovers `base^m`.

use vstd::prelude::*;
use crate::algebra::arith::inv_mod;
use crate::algebra::evaluation_domain::invert_or_zero;
use crate::algebra::group::{g2_mul, g2_mul_spec, g2_valid, G2Point};
use crate::algebra::scalar::Scalar;
use crate::pvss::traits::Convert;
use crate::utils::random::{random_scalar, RandomSource};

verus! {

/// The public parameters of the encryption: the base the encryption keys
/// are derived from.
#[derive(Debug)]
pub struct PublicParameters {
    base: G2Point,
}

impl PublicParameters {
    /// The bytes of the base point.
    pub closed spec fn base_view(&self) -> Seq<u8> {
        self.base@
    }

    /// A well-formed parameter set holds a valid base point.
    pub open spec fn wf(&self) -> bool {
        self.base_view().len() == 96 && g2_valid(self.base_view())
    }

    /// Wraps a base point.
    pub fn new(base: G2Point) -> (r: Self)
        requires
            base.wf(),
        ensures
            r.wf(),
            r.base_view() == base@,
    {
        PublicParameters { base }
    }

    /// The base the encryption keys are derived from.
    pub fn as_group_element(&self) -> (r: &G2Point)
        ensures
            r@ == self.base_view(),
    {
        &self.base
    }
}

impl Clone for PublicParameters {
    fn clone(&self) -> (r: Self)
        ensures
            r.base_view() == self.base_view(),
    {
        PublicParameters { base: self.base.clone() }
    }
}

/// A player's public encryption key, a G2 point.
pub struct EncryptPubKey {
    ek: G2Point,
}

impl EncryptPubKey {
    /// The bytes of the key's point.
    pub closed spec fn ek_view(&self) -> Seq<u8> {
        self.ek@
    }

    /// A well-formed key holds a valid point.
    pub open spec fn wf(&self) -> bool {
        self.ek_view().len() == 96 && g2_valid(self.ek_view())
    }

    /// The key as a group element.
    pub fn as_group_element(&self) -> (r: &G2Point)
        ensures
            r@ == self.ek_view(),
    {
        &self.ek
    }
}

impl Clone for EncryptPubKey {
    fn clone(&self) -> (r: Self)
        ensures
            r.ek_view() == self.ek_view(),
    {
        EncryptPubKey { ek: self.ek.clone() }
    }
}

/// The byte views of a sequence of encryption keys.
pub open spec fn ek_views(eks: Seq<EncryptPubKey>) -> Seq<Seq<u8>> {
    Seq::new(eks.len(), |i: int| eks[i].ek_view())
}

/// Whether every key of a sequence is well-formed.
pub open spec fn eks_wf(eks: Seq<EncryptPubKey>) -> bool {
    forall|i: int| 0 <= i < eks.len() ==> (#[trigger] eks[i]).wf()
}

/// A player's private decryption key: a nonzero scalar, so that it has an
/// inverse to derive the encryption key with.
pub struct DecryptPrivKey {
    dk: Scalar,
}

impl DecryptPrivKey {
    /// The value of the key.
    pub closed spec fn dk_val(&self) -> nat {
        self.dk.value()
    }

    #[verifier::opaque]
    pub closed spec fn scalar_ok(&self) -> bool {
        self.dk.wf()
    }

    /// A well-formed decryption key is a nonzero field element.
    pub open spec fn wf(&self) -> bool {
        self.scalar_ok() && self.dk_val() != 0
    }

    /// Draws a decryption key uniformly from the nonzero field elements;
    /// the one zero draw is replaced by one.
    pub fn generate(rng: &mut RandomSource) -> (r: Self)
        ensures
            r.wf(),
    {
        let s = random_scalar(rng);
        let dk = if s.is_zero() {
            Scalar::one()
        } else {
            s
        };
        let r = DecryptPrivKey { dk };
        proof {
            reveal(DecryptPrivKey::scalar_ok);
        }
        r
    }

    /// The key as a scalar.
    pub(crate) fn as_scalar(&self) -> (r: &Scalar)
        requires
            self.wf(),
        ensures
            r.wf(),
            r.value() == self.dk_val(),
    {
        proof {
            reveal(DecryptPrivKey::scalar_ok);
        }
        &self.dk
    }

    /// Derives the matching public encryption key, `base^(1/dk)`.
    pub fn to_encryption_key(&self, pp: &PublicParameters) -> (r: EncryptPubKey)
        requires
            self.wf(),
            pp.wf(),
        ensures
            r.wf(),
            r.ek_view() == g2_mul_spec(pp.base_view(), inv_mod(self.dk_val())),
    {
        let dk_inv = invert_or_zero(self.as_scalar());
        EncryptPubKey { ek: g2_mul(pp.as_group_element(), &dk_inv) }
    }
}

impl Convert<EncryptPubKey, PublicParameters> for DecryptPrivKey {
    open spec fn convert_wf(&self, with: &PublicParameters) -> bool {
        self.wf() && with.wf()
    }

    fn to(&self, with: &PublicParameters) -> EncryptPubKey {
        self.to_encryption_key(with)
    }
}

} // verus!
