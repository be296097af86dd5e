//! The *input secret*: the uniformly random scalar the dealer commits to
//! share. It is consumed exactly once by dealing, is never serialized, and
//! is not cloneable, so it cannot be silently duplicated.

use vstd::prelude::*;
use crate::algebra::group::{g1_mul, g1_mul_spec, g2_mul, g2_mul_spec};
use crate::algebra::scalar::Scalar;
use crate::pvss::dealt_pub_key::DealtPubKey;
use crate::pvss::dealt_secret_key::DealtSecretKey;
use crate::pvss::scrape::public_parameters::PublicParameters;
use crate::pvss::traits::Convert;
use crate::utils::random::{random_scalar, RandomSource};

verus! {

/// The secret being dealt: a scalar `a`, drawn uniformly from the field.
pub struct InputSecret {
    a: Scalar,
}

impl InputSecret {
    /// The value of the secret.
    pub closed spec fn a_val(&self) -> nat {
        self.a.value()
    }

    #[verifier::opaque]
    pub closed spec fn scalar_ok(&self) -> bool {
        self.a.wf()
    }

    /// A well-formed secret is a field element.
    pub open spec fn wf(&self) -> bool {
        self.scalar_ok()
    }

    /// Draws an input secret uniformly from the full field.
    pub fn generate(rng: &mut RandomSource) -> (r: Self)
        ensures
            r.wf(),
    {
        let r = InputSecret { a: random_scalar(rng) };
        proof {
            reveal(InputSecret::scalar_ok);
        }
        r
    }

    /// The secret scalar itself.
    pub fn get_secret_a(&self) -> (r: &Scalar)
        requires
            self.wf(),
        ensures
            r.wf(),
            r.value() == self.a_val(),
    {
        proof {
            reveal(InputSecret::scalar_ok);
        }
        &self.a
    }

    /// The dealt secret key this secret gives rise to: the encryption-key
    /// base raised to the secret.
    pub fn to_dealt_secret_key(&self, pp: &PublicParameters) -> (r: DealtSecretKey)
        requires
            self.wf(),
            pp.wf(),
        ensures
            r.wf(),
            r.point_view() == g2_mul_spec(pp.enc_base_view(), self.a_val()),
    {
        DealtSecretKey::new(g2_mul(pp.get_encryption_key_base(), self.get_secret_a()))
    }

    /// The dealt public key this secret gives rise to: the commitment base
    /// raised to the secret. In this scheme the dealt public key cannot be
    /// computed from the dealt secret key directly.
    pub fn to_dealt_pub_key(&self, pp: &PublicParameters) -> (r: DealtPubKey)
        requires
            self.wf(),
            pp.wf(),
        ensures
            r.wf(),
            r.point_view() == g1_mul_spec(pp.comm_base_view(), self.a_val()),
    {
        DealtPubKey::new(g1_mul(pp.get_commitment_base(), self.get_secret_a()))
    }
}

impl Convert<DealtSecretKey, PublicParameters> for InputSecret {
    open spec fn convert_wf(&self, with: &PublicParameters) -> bool {
        self.wf() && with.wf()
    }

    fn to(&self, with: &PublicParameters) -> DealtSecretKey {
        self.to_dealt_secret_key(with)
    }
}

impl Convert<DealtPubKey, PublicParameters> for InputSecret {
    open spec fn convert_wf(&self, with: &PublicParameters) -> bool {
        self.wf() && with.wf()
    }

    fn to(&self, with: &PublicParameters) -> DealtPubKey {
        self.to_dealt_pub_key(with)
    }
}

} // verus!
