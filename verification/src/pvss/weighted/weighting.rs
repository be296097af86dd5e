//! The weighting wrapper: given the unweighted SCRAPE transcript, the same
//! scheme over a weighted configuration comes for free by treating a player
//! of weight `k` as `k` virtual players — duplicating its encryption key
//! `k` times when dealing and verifying, decrypting every owned slot, and
//! flattening per-player share vectors before reconstructing.

use vstd::prelude::*;
use crate::algebra::group::{g1_add_spec, g1_mul_spec, g2_add_spec, g2_mul_spec, g2_msm_spec};
use crate::algebra::lagrange::lagrange_coeff_spec;
use crate::pvss::dealt_pub_key::DealtPubKey;
use crate::pvss::dealt_pub_key_share::{pk_share_views, DealtPubKeyShare};
use crate::pvss::dealt_secret_key::{reconstruction_coeffs, share_views, DealtSecretKey};
use crate::pvss::dealt_secret_key_share::{sk_share_views, sk_shares_wf, DealtSecretKeyShare};
use crate::pvss::encryption_dlog::{ek_views, eks_wf, DecryptPrivKey, EncryptPubKey};
use crate::pvss::player::Player;
use crate::pvss::scrape::public_parameters::PublicParameters;
use crate::pvss::scrape::transcript::{transcript_bytes_parseable, verify_spec, Transcript};
use crate::pvss::scrape::InputSecret;
use crate::pvss::weighted::weighted_config::{
    lemma_prefix_sum_mono, weights_prefix_sum, WeightedConfig,
};
use crate::utils::random::RandomSource;
use crate::utils::serialization::chunk_views;
use crate::CryptoMaterialError;

verus! {

/// A weighting wrapper around an unweighted transcript.
pub struct Weighted<T> {
    trx: T,
}

/// A wrapper around a key — a dealt secret key, a dealt public key or an
/// input secret — whose share type becomes a vector of the inner scheme's
/// shares, one per unit of weight.
pub struct Wrapped<K> {
    key: K,
}

impl<K> Wrapped<K> {
    /// The wrapped key.
    pub closed spec fn key_spec(&self) -> K {
        self.key
    }

    /// Unwraps the key.
    pub fn into_key(self) -> (r: K)
        ensures
            r == self.key_spec(),
    {
        self.key
    }
}

/// The encryption key views duplicated per weight: the keys of the first
/// `upto` players, each repeated as many times as that player's weight.
pub open spec fn duplicated_ek_views(weights: Seq<usize>, views: Seq<Seq<u8>>, upto: int) -> Seq<
    Seq<u8>>
    decreases upto,
{
    if upto <= 0 {
        Seq::<Seq<u8>>::empty()
    } else {
        duplicated_ek_views(weights, views, upto - 1) + Seq::new(
            weights[upto - 1] as nat, |j: int| views[upto - 1])
    }
}

/// The flattened share point views of the players' share vectors.
pub open spec fn flat_share_views(
    shares: Seq<(Player, Vec<DealtSecretKeyShare>)>,
    upto: int,
) -> Seq<Seq<u8>>
    decreases upto,
{
    if upto <= 0 {
        Seq::<Seq<u8>>::empty()
    } else {
        flat_share_views(shares, upto - 1) + Seq::new(
            shares[upto - 1].1@.len(), |j: int| shares[upto - 1].1@[j].point_view())
    }
}

/// The flattened virtual player indices of the players' share vectors: the
/// `j`-th share of a player sits at the player's starting index plus `j`.
pub open spec fn flat_virtual_ids(
    sc: &WeightedConfig,
    shares: Seq<(Player, Vec<DealtSecretKeyShare>)>,
    upto: int,
) -> Seq<nat>
    decreases upto,
{
    if upto <= 0 {
        Seq::<nat>::empty()
    } else {
        flat_virtual_ids(sc, shares, upto - 1) + Seq::new(
            shares[upto - 1].1@.len(),
            |j: int| (weights_prefix_sum(sc.weights(), shares[upto - 1].0.id_spec() as int)
                + j) as nat,
        )
    }
}

/// The Lagrange-at-zero coefficient values for the flattened virtual
/// players.
pub open spec fn weighted_reconstruction_coeffs(
    sc: &WeightedConfig,
    shares: Seq<(Player, Vec<DealtSecretKeyShare>)>,
) -> Seq<nat> {
    let ids = flat_virtual_ids(sc, shares, shares.len() as int);
    Seq::new(
        ids.len(),
        |i: int| lagrange_coeff_spec(
            Seq::new(ids.len(), |j: int| sc.tc_spec().batch_dom_spec().omega_value(ids[j])),
            0,
            i,
        ),
    )
}

/// The indices of the players of a flattened share vector.
pub open spec fn pair_ids(flat: Seq<(Player, DealtSecretKeyShare)>) -> Seq<nat> {
    Seq::new(flat.len(), |k: int| flat[k].0.id_spec())
}

impl Wrapped<InputSecret> {
    /// Draws a wrapped input secret uniformly from the full field.
    pub fn generate(rng: &mut RandomSource) -> (r: Self)
        ensures
            r.key_spec().wf(),
    {
        Wrapped { key: InputSecret::generate(rng) }
    }

    /// The wrapped dealt secret key this secret gives rise to.
    pub fn to_dealt_secret_key(&self, pp: &PublicParameters) -> (r: Wrapped<DealtSecretKey>)
        requires
            self.key_spec().wf(),
            pp.wf(),
        ensures
            r.key_spec().wf(),
            r.key_spec().point_view() == g2_mul_spec(pp.enc_base_view(), self.key_spec().a_val()),
    {
        Wrapped { key: self.key.to_dealt_secret_key(pp) }
    }

    /// The wrapped dealt public key this secret gives rise to.
    pub fn to_dealt_pub_key(&self, pp: &PublicParameters) -> (r: Wrapped<DealtPubKey>)
        requires
            self.key_spec().wf(),
            pp.wf(),
        ensures
            r.key_spec().wf(),
            r.key_spec().point_view() == g1_mul_spec(pp.comm_base_view(), self.key_spec().a_val()),
    {
        Wrapped { key: self.key.to_dealt_pub_key(pp) }
    }
}

impl Wrapped<DealtSecretKey> {
    /// Weighted reconstruction: flattens each player's share vector into
    /// (virtual player, share) pairs and reconstructs through the
    /// unweighted scheme.
    pub fn reconstruct(sc: &WeightedConfig, shares: &Vec<(Player, Vec<DealtSecretKeyShare>)>) -> (r:
        Self)
        requires
            sc.wf(),
            forall|i: int|
                0 <= i < shares@.len() ==> (#[trigger] shares@[i]).0.id_spec() < sc.n_spec()
                    && shares@[i].1@.len() <= sc.weights()[shares@[i].0.id_spec() as int]
                    && sk_shares_wf(shares@[i].1@),
            sc.tc_spec().t_spec() <= flat_share_views(shares@, shares@.len() as int).len()
                <= sc.tc_spec().n_spec(),
        ensures
            r.key_spec().wf(),
            r.key_spec().point_view() == g2_msm_spec(
                flat_share_views(shares@, shares@.len() as int),
                weighted_reconstruction_coeffs(sc, shares@),
            ),
    {
        let mut flat: Vec<(Player, DealtSecretKeyShare)> = Vec::new();
        let mut i: usize = 0;
        while i < shares.len()
            invariant
                i <= shares@.len(),
                sc.wf(),
                forall|k: int|
                    0 <= k < shares@.len() ==> (#[trigger] shares@[k]).0.id_spec() < sc.n_spec()
                        && shares@[k].1@.len() <= sc.weights()[shares@[k].0.id_spec() as int]
                        && sk_shares_wf(shares@[k].1@),
                share_views(flat@) == flat_share_views(shares@, i as int),
                pair_ids(flat@) == flat_virtual_ids(sc, shares@, i as int),
                forall|k: int|
                    0 <= k < flat@.len() ==> (#[trigger] flat@[k]).1.wf() && flat@[k].0.id_spec()
                        < sc.tc_spec().n_spec(),
            decreases shares@.len() - i,
        {
            let player = shares[i].0;
            let sub_len = shares[i].1.len();
            let mut j: usize = 0;
            while j < sub_len
                invariant
                    j <= sub_len,
                    i < shares@.len(),
                    sub_len == shares@[i as int].1@.len(),
                    sc.wf(),
                    player == shares@[i as int].0,
                    forall|k: int|
                        0 <= k < shares@.len() ==> (#[trigger] shares@[k]).0.id_spec() < sc.n_spec()
                            && shares@[k].1@.len() <= sc.weights()[shares@[k].0.id_spec() as int]
                            && sk_shares_wf(shares@[k].1@),
                    share_views(flat@) == flat_share_views(shares@, i as int) + Seq::new(
                        j as nat, |k: int| shares@[i as int].1@[k].point_view()),
                    pair_ids(flat@) == flat_virtual_ids(sc, shares@, i as int) + Seq::new(
                        j as nat,
                        |k: int| (weights_prefix_sum(
                            sc.weights(), shares@[i as int].0.id_spec() as int) + k) as nat,
                    ),
                    forall|k: int|
                        0 <= k < flat@.len() ==> (#[trigger] flat@[k]).1.wf() && flat@[k].0.id_spec()
                            < sc.tc_spec().n_spec(),
                decreases sub_len - j,
            {
                let virtual_player = sc.get_virtual_player(&player, j);
                proof {
                    assert(shares@[i as int].1@[j as int].wf());
                }
                let ghost old_views = share_views(flat@);
                let ghost old_ids = pair_ids(flat@);
                flat.push((virtual_player, shares[i].1[j].clone()));
                proof {
                    assert(share_views(flat@) =~= old_views.push(
                        shares@[i as int].1@[j as int].point_view()));
                    assert(flat_share_views(shares@, i as int) + Seq::new(
                        (j + 1) as nat, |k: int| shares@[i as int].1@[k].point_view())
                        =~= old_views.push(shares@[i as int].1@[j as int].point_view()));
                    assert(pair_ids(flat@) =~= old_ids.push(virtual_player.id_spec()));
                    assert(flat_virtual_ids(sc, shares@, i as int) + Seq::new(
                        (j + 1) as nat,
                        |k: int| (weights_prefix_sum(
                            sc.weights(), shares@[i as int].0.id_spec() as int) + k) as nat,
                    ) =~= old_ids.push(virtual_player.id_spec()));
                }
                j += 1;
            }
            proof {
                assert(flat_share_views(shares@, i + 1) =~= flat_share_views(shares@, i as int)
                    + Seq::new(
                    shares@[i as int].1@.len() as nat,
                    |k: int| shares@[i as int].1@[k].point_view(),
                ));
                assert(flat_virtual_ids(sc, shares@, i + 1) =~= flat_virtual_ids(
                    sc, shares@, i as int) + Seq::new(
                    shares@[i as int].1@.len() as nat,
                    |k: int| (weights_prefix_sum(
                        sc.weights(), shares@[i as int].0.id_spec() as int) + k) as nat,
                ));
            }
            i += 1;
        }
        let tc = sc.get_threshold_config();
        proof {
            assert(flat@.len() == share_views(flat@).len());
        }
        let key = DealtSecretKey::reconstruct(tc, &flat);
        proof {
            let ids = flat_virtual_ids(sc, shares@, shares@.len() as int);
            assert forall|j: int| 0 <= j < flat@.len() implies sc.tc_spec().batch_dom_spec(
            ).omega_value(flat@[j].0.id_spec()) == sc.tc_spec().batch_dom_spec().omega_value(
                ids[j]) by {
                assert(pair_ids(flat@)[j] == flat@[j].0.id_spec());
            }
            assert(Seq::new(
                flat@.len() as int as nat,
                |j: int| sc.tc_spec().batch_dom_spec().omega_value(flat@[j].0.id_spec()),
            ) =~= Seq::new(
                ids.len(), |j: int| sc.tc_spec().batch_dom_spec().omega_value(ids[j])));
            assert(reconstruction_coeffs(tc, flat@) =~= weighted_reconstruction_coeffs(
                sc, shares@));
        }
        Wrapped { key }
    }
}

impl Weighted<Transcript> {
    /// The wrapped unweighted transcript.
    pub closed spec fn trx_spec(&self) -> Transcript {
        self.trx
    }

    /// A well-formed weighted transcript wraps a well-formed transcript of
    /// the shape of the derived unweighted configuration.
    pub open spec fn wf(&self) -> bool {
        self.trx_spec().wf()
    }

    /// Whether the inner transcript has the shape of the derived
    /// configuration: `w` coefficient commitments and `W` of everything
    /// else.
    pub open spec fn matches_config(&self, sc: &WeightedConfig) -> bool {
        self.trx_spec().matches_config(sc.tc_spec().t_spec(), sc.tc_spec().n_spec())
    }

    /// Re-organizes the encryption key vector so that each player's key
    /// appears once per unit of that player's weight, in starting-index
    /// order.
    pub fn to_weighted_encryption_keys(sc: &WeightedConfig, eks: &Vec<EncryptPubKey>) -> (r: Vec<
        EncryptPubKey>)
        requires
            sc.wf(),
            eks@.len() == sc.n_spec(),
            eks_wf(eks@),
        ensures
            r@.len() == sc.tc_spec().n_spec(),
            eks_wf(r@),
            ek_views(r@) == duplicated_ek_views(sc.weights(), ek_views(eks@), sc.n_spec() as int),
    {
        let n = sc.get_total_num_players();
        let mut r: Vec<EncryptPubKey> = Vec::new();
        let mut i: usize = 0;
        while i < n
            invariant
                i <= n,
                n as nat == sc.n_spec(),
                sc.wf(),
                eks@.len() == sc.n_spec(),
                eks_wf(eks@),
                eks_wf(r@),
                r@.len() as int == weights_prefix_sum(sc.weights(), i as int),
                ek_views(r@) == duplicated_ek_views(sc.weights(), ek_views(eks@), i as int),
            decreases n - i,
        {
            let player = sc.get_player(i);
            let num_shares = sc.get_player_weight(&player);
            let mut j: usize = 0;
            while j < num_shares
                invariant
                    j <= num_shares,
                    i < n,
                    n as nat == sc.n_spec(),
                    sc.wf(),
                    num_shares == sc.weights()[i as int],
                    eks@.len() == sc.n_spec(),
                    eks_wf(eks@),
                    eks_wf(r@),
                    r@.len() as int == weights_prefix_sum(sc.weights(), i as int) + j,
                    ek_views(r@) == duplicated_ek_views(sc.weights(), ek_views(eks@), i as int)
                        + Seq::new(j as nat, |k: int| ek_views(eks@)[i as int]),
                decreases num_shares - j,
            {
                proof {
                    lemma_prefix_sum_mono(sc.weights(), i + 1, sc.n_spec() as int);
                }
                let ghost old_views = ek_views(r@);
                r.push(eks[i].clone());
                proof {
                    assert(ek_views(r@) =~= old_views.push(ek_views(eks@)[i as int]));
                    assert(duplicated_ek_views(sc.weights(), ek_views(eks@), i as int) + Seq::new(
                        (j + 1) as nat, |k: int| ek_views(eks@)[i as int]) =~= old_views.push(
                        ek_views(eks@)[i as int]));
                }
                j += 1;
            }
            proof {
                assert(duplicated_ek_views(sc.weights(), ek_views(eks@), i + 1)
                    =~= duplicated_ek_views(sc.weights(), ek_views(eks@), i as int) + Seq::new(
                    sc.weights()[i as int] as nat, |k: int| ek_views(eks@)[i as int]));
            }
            i += 1;
        }
        r
    }

    /// Deals the wrapped secret under the weighted configuration: the
    /// duplicated key vector feeds the unweighted dealing.
    pub fn deal(
        sc: &WeightedConfig,
        pp: &PublicParameters,
        eks: &Vec<EncryptPubKey>,
        s: Wrapped<InputSecret>,
        dst: &Vec<u8>,
        rng: &mut RandomSource,
    ) -> (r: Self)
        requires
            sc.wf(),
            pp.wf(),
            eks@.len() == sc.n_spec(),
            eks_wf(eks@),
            s.key_spec().wf(),
        ensures
            r.wf(),
            r.matches_config(sc),
            r.trx_spec().u2_hat_view() == g2_mul_spec(pp.pk_base_view(), s.key_spec().a_val()),
            r.trx_spec().coeff_views()[0] == g1_mul_spec(
                pp.comm_base_view(), s.key_spec().a_val()),
            exists|fv: Seq<nat>| #[trigger] crate::pvss::scrape::transcript::deal_components(
                r.trx_spec(),
                &sc.tc_spec(),
                pp,
                duplicated_ek_views(sc.weights(), ek_views(eks@), sc.n_spec() as int),
                s.key_spec().a_val(),
                fv,
            ),
    {
        let duplicated = Weighted::<Transcript>::to_weighted_encryption_keys(sc, eks);
        let ghost secret = s.key_spec().a_val();
        let trx = Transcript::deal(sc.get_threshold_config(), pp, &duplicated, s.key, dst, rng);
        let r = Weighted { trx };
        proof {
            let fvw = choose|fv: Seq<nat>| #[trigger] crate::pvss::scrape::transcript::deal_components(
                r.trx_spec(), &sc.tc_spec(), pp, ek_views(duplicated@), secret, fv);
            assert(crate::pvss::scrape::transcript::deal_components(
                r.trx_spec(),
                &sc.tc_spec(),
                pp,
                duplicated_ek_views(sc.weights(), ek_views(eks@), sc.n_spec() as int),
                secret,
                fvw,
            ));
        }
        r
    }

    /// Verifies the weighted transcript through the unweighted check, with
    /// each player's key duplicated per weight.
    pub fn verify(
        &self,
        sc: &WeightedConfig,
        pp: &PublicParameters,
        eks: &Vec<EncryptPubKey>,
        dst: &Vec<u8>,
    ) -> (r: bool)
        requires
            self.wf(),
            sc.wf(),
            pp.wf(),
            eks@.len() == sc.n_spec(),
            eks_wf(eks@),
        ensures
            r == verify_spec(
                &self.trx_spec(),
                &sc.tc_spec(),
                pp,
                duplicated_ek_views(sc.weights(), ek_views(eks@), sc.n_spec() as int),
                dst@,
            ),
    {
        let duplicated = Weighted::<Transcript>::to_weighted_encryption_keys(sc, eks);
        self.trx.verify(sc.get_threshold_config(), pp, &duplicated, dst)
    }

    /// Aggregates another weighted transcript dealt under the same
    /// configuration into this one.
    pub fn aggregate_with(&mut self, sc: &WeightedConfig, other: &Self)
        requires
            sc.wf(),
            old(self).wf(),
            old(self).matches_config(sc),
            other.wf(),
            other.matches_config(sc),
        ensures
            final(self).wf(),
            final(self).matches_config(sc),
            final(self).trx_spec().u2_hat_view() == g2_add_spec(
                old(self).trx_spec().u2_hat_view(), other.trx_spec().u2_hat_view()),
            final(self).trx_spec().u2_hat_view() == g2_add_spec(
                other.trx_spec().u2_hat_view(), old(self).trx_spec().u2_hat_view()),
            forall|i: int|
                0 <= i < sc.tc_spec().t_spec() ==> final(self).trx_spec().coeff_views()[i]
                    == g1_add_spec(
                    old(self).trx_spec().coeff_views()[i], other.trx_spec().coeff_views()[i])
                    && final(self).trx_spec().coeff_views()[i] == g1_add_spec(
                    other.trx_spec().coeff_views()[i], old(self).trx_spec().coeff_views()[i]),
            forall|i: int|
                0 <= i < sc.tc_spec().n_spec() ==> final(self).trx_spec().eval_views()[i]
                    == g1_add_spec(
                    old(self).trx_spec().eval_views()[i], other.trx_spec().eval_views()[i])
                    && final(self).trx_spec().eval_views()[i] == g1_add_spec(
                    other.trx_spec().eval_views()[i], old(self).trx_spec().eval_views()[i]),
            forall|i: int|
                0 <= i < sc.tc_spec().n_spec() ==> final(self).trx_spec().enc_views()[i]
                    == g2_add_spec(
                    old(self).trx_spec().enc_views()[i], other.trx_spec().enc_views()[i])
                    && final(self).trx_spec().enc_views()[i] == g2_add_spec(
                    other.trx_spec().enc_views()[i], old(self).trx_spec().enc_views()[i]),
    {
        self.trx.aggregate_with(sc.get_threshold_config(), &other.trx);
    }

    /// The wrapped dealt public key of the transcript.
    pub fn get_dealt_public_key(&self) -> (r: Wrapped<DealtPubKey>)
        requires
            self.wf(),
            self.trx_spec().coeff_views().len() >= 1,
        ensures
            r.key_spec().wf(),
            r.key_spec().point_view() == self.trx_spec().coeff_views()[0],
    {
        Wrapped { key: self.trx.get_dealt_public_key() }
    }

    /// Decrypts every virtual slot owned by the player: one share per unit
    /// of the player's weight.
    pub fn decrypt_own_share(
        &self,
        sc: &WeightedConfig,
        player: &Player,
        dk: &DecryptPrivKey,
    ) -> (r: (Vec<DealtSecretKeyShare>, Vec<DealtPubKeyShare>))
        requires
            self.wf(),
            self.matches_config(sc),
            sc.wf(),
            player.id_spec() < sc.n_spec(),
            dk.wf(),
        ensures
            r.0@.len() == sc.weights()[player.id_spec() as int],
            r.1@.len() == sc.weights()[player.id_spec() as int],
            sk_shares_wf(r.0@),
            sk_share_views(r.0@) == Seq::new(
                sc.weights()[player.id_spec() as int] as nat,
                |j: int| g2_mul_spec(
                    self.trx_spec().enc_views()[weights_prefix_sum(
                        sc.weights(), player.id_spec() as int) + j],
                    dk.dk_val(),
                ),
            ),
            pk_share_views(r.1@) == Seq::new(
                sc.weights()[player.id_spec() as int] as nat,
                |j: int| self.trx_spec().eval_views()[weights_prefix_sum(
                    sc.weights(), player.id_spec() as int) + j],
            ),
    {
        let weight = sc.get_player_weight(player);
        let mut sk_shares: Vec<DealtSecretKeyShare> = Vec::new();
        let mut pk_shares: Vec<DealtPubKeyShare> = Vec::new();
        let mut j: usize = 0;
        while j < weight
            invariant
                j <= weight,
                self.wf(),
                self.matches_config(sc),
                sc.wf(),
                player.id_spec() < sc.n_spec(),
                weight == sc.weights()[player.id_spec() as int],
                dk.wf(),
                sk_shares@.len() == j,
                pk_shares@.len() == j,
                sk_shares_wf(sk_shares@),
                sk_share_views(sk_shares@) =~= Seq::new(
                    j as nat,
                    |k: int| g2_mul_spec(
                        self.trx_spec().enc_views()[weights_prefix_sum(
                            sc.weights(), player.id_spec() as int) + k],
                        dk.dk_val(),
                    ),
                ),
                pk_share_views(pk_shares@) =~= Seq::new(
                    j as nat,
                    |k: int| self.trx_spec().eval_views()[weights_prefix_sum(
                        sc.weights(), player.id_spec() as int) + k],
                ),
            decreases weight - j,
        {
            let virtual_player = sc.get_virtual_player(player, j);
            let ghost old_sk = sk_share_views(sk_shares@);
            let ghost old_pk = pk_share_views(pk_shares@);
            let pair = self.trx.decrypt_own_share(sc.get_threshold_config(), &virtual_player, dk);
            let (sk_share, pk_share) = pair;
            sk_shares.push(sk_share);
            pk_shares.push(pk_share);
            proof {
                assert(sk_share_views(sk_shares@) =~= old_sk.push(
                    g2_mul_spec(
                        self.trx_spec().enc_views()[virtual_player.id_spec() as int],
                        dk.dk_val(),
                    )));
                assert(Seq::new(
                    (j + 1) as nat,
                    |k: int| g2_mul_spec(
                        self.trx_spec().enc_views()[weights_prefix_sum(
                            sc.weights(), player.id_spec() as int) + k],
                        dk.dk_val(),
                    ),
                ) =~= old_sk.push(
                    g2_mul_spec(
                        self.trx_spec().enc_views()[virtual_player.id_spec() as int],
                        dk.dk_val(),
                    )));
                assert(pk_share_views(pk_shares@) =~= old_pk.push(
                    self.trx_spec().eval_views()[virtual_player.id_spec() as int]));
                assert(Seq::new(
                    (j + 1) as nat,
                    |k: int| self.trx_spec().eval_views()[weights_prefix_sum(
                        sc.weights(), player.id_spec() as int) + k],
                ) =~= old_pk.push(
                    self.trx_spec().eval_views()[virtual_player.id_spec() as int]));
            }
            j += 1;
        }
        (sk_shares, pk_shares)
    }

    /// Generates a random-looking weighted transcript of the right shape.
    pub fn generate(sc: &WeightedConfig, rng: &mut RandomSource) -> (r: Self)
        requires
            sc.wf(),
        ensures
            r.wf(),
            r.matches_config(sc),
    {
        Weighted { trx: Transcript::generate(sc.get_threshold_config(), rng) }
    }

    /// Serializes the inner transcript.
    pub fn to_bytes(&self) -> (r: Vec<u8>)
        ensures
            r@ == self.trx_spec().to_bytes_spec(),
    {
        self.trx.to_bytes()
    }

    /// Parses a weighted transcript dealt under the given configuration.
    pub fn from_bytes(sc: &WeightedConfig, bytes: &[u8]) -> (r: Result<Self, CryptoMaterialError>)
        requires
            sc.wf(),
        ensures
            r is Ok <==> transcript_bytes_parseable(
                sc.tc_spec().t_spec(), sc.tc_spec().n_spec(), bytes@),
            r is Ok ==> {
                let trx = r.unwrap().trx_spec();
                &&& r.unwrap().wf()
                &&& r.unwrap().matches_config(sc)
                &&& trx.u2_hat_view() == bytes@.subrange(0, 96)
                &&& trx.coeff_views() == chunk_views(bytes@, 96, 48, sc.tc_spec().t_spec() as int)
                &&& trx.eval_views() == chunk_views(
                    bytes@, (96 + sc.tc_spec().t_spec() * 48) as int, 48,
                    sc.tc_spec().n_spec() as int)
                &&& trx.enc_views() == chunk_views(
                    bytes@,
                    (96 + sc.tc_spec().t_spec() * 48 + sc.tc_spec().n_spec() * 48) as int,
                    96,
                    sc.tc_spec().n_spec() as int,
                )
            },
            bytes@.len() != crate::pvss::scrape::transcript::transcript_num_bytes(
                sc.tc_spec().t_spec(), sc.tc_spec().n_spec()) ==> r == Result::<
                Self, CryptoMaterialError>::Err(CryptoMaterialError::WrongLengthError),
            bytes@.len() == crate::pvss::scrape::transcript::transcript_num_bytes(
                sc.tc_spec().t_spec(), sc.tc_spec().n_spec()) && !transcript_bytes_parseable(
                sc.tc_spec().t_spec(), sc.tc_spec().n_spec(), bytes@) ==> r == Result::<
                Self, CryptoMaterialError>::Err(CryptoMaterialError::DeserializationError),
    {
        match Transcript::from_bytes(sc.get_threshold_config(), bytes) {
            Ok(trx) => Ok(Weighted { trx }),
            Err(e) => Err(e),
        }
    }
}

} // verus!
