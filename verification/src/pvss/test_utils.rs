//! Helpers for exercising the scheme: a full dealing setup — parameters,
//! key pairs, an input secret and the dealt secret key it gives rise to.

use vstd::prelude::*;
use crate::algebra::arith::inv_mod;
use crate::algebra::group::g2_mul_spec;
use crate::pvss::dealt_secret_key::DealtSecretKey;
use crate::pvss::encryption_dlog::{ek_views, eks_wf, DecryptPrivKey, EncryptPubKey};
use crate::pvss::scrape::public_parameters::PublicParameters;
use crate::pvss::scrape::InputSecret;
use crate::pvss::threshold_config::ThresholdConfig;
use crate::utils::random::RandomSource;

verus! {

/// Draws everything a dealing needs: the canonical public parameters, one
/// decryption key and matching encryption key per player, an input secret,
/// and the dealt secret key that the secret gives rise to.
pub fn setup_dealing(sc: &ThresholdConfig, rng: &mut RandomSource) -> (r: (
    PublicParameters,
    Vec<DecryptPrivKey>,
    Vec<EncryptPubKey>,
    InputSecret,
    DealtSecretKey,
))
    requires
        sc.wf(),
    ensures
        r.0.wf(),
        r.1@.len() == sc.n_spec(),
        forall|i: int| 0 <= i < r.1@.len() ==> (#[trigger] r.1@[i]).wf(),
        r.2@.len() == sc.n_spec(),
        eks_wf(r.2@),
        forall|i: int|
            0 <= i < r.2@.len() ==> ek_views(r.2@)[i] == g2_mul_spec(
                r.0.enc_base_view(), inv_mod(r.1@[i].dk_val())),
        r.3.wf(),
        r.4.wf(),
        r.4.point_view() == g2_mul_spec(r.0.enc_base_view(), r.3.a_val()),
{
    let pp = PublicParameters::default();
    let n = sc.get_total_num_players();
    let mut dks: Vec<DecryptPrivKey> = Vec::new();
    let mut i: usize = 0;
    while i < n
        invariant
            i <= n,
            dks@.len() == i,
            forall|k: int| 0 <= k < i ==> (#[trigger] dks@[k]).wf(),
        decreases n - i,
    {
        dks.push(DecryptPrivKey::generate(rng));
        i += 1;
    }
    let mut eks: Vec<EncryptPubKey> = Vec::new();
    let mut i: usize = 0;
    while i < n
        invariant
            i <= n,
            n == dks@.len(),
            pp.wf(),
            forall|k: int| 0 <= k < n ==> (#[trigger] dks@[k]).wf(),
            eks@.len() == i,
            eks_wf(eks@),
            forall|k: int|
                0 <= k < i ==> (#[trigger] eks@[k]).ek_view() == g2_mul_spec(
                    pp.enc_base_view(), inv_mod(dks@[k].dk_val())),
        decreases n - i,
    {
        eks.push(dks[i].to_encryption_key(pp.get_encryption_public_params()));
        i += 1;
    }
    let s = InputSecret::generate(rng);
    let sk = s.to_dealt_secret_key(&pp);
    proof {
        assert(forall|k: int|
            0 <= k < eks@.len() ==> ek_views(eks@)[k] == (#[trigger] eks@[k]).ek_view());
    }
    (pp, dks, eks, s, sk)
}

/// A threshold configuration together with a fresh randomness source.
pub fn get_threshold_config_and_rng(t: usize, n: usize) -> (r: (ThresholdConfig, RandomSource))
    requires
        1 <= t <= n <= crate::constants::MAX_PLAYERS,
    ensures
        r.0.wf(),
        r.0.t_spec() == t,
        r.0.n_spec() == n,
{
    let sc = ThresholdConfig::new(t, n);
    (sc, RandomSource::new())
}

} // verus!
