//! The *dealt secret key*: the group element that PVSS reconstruction
//! recovers. It is a one-way function of the input secret — `h1_hat^a` in
//! G2 — and never the raw scalar itself. Not cloneable: secret material is
//! moved, never silently duplicated.

use vstd::prelude::*;
use crate::algebra::group::{
    g2_from_compressed, g2_msm, g2_msm_spec, g2_valid, g2_views, G2Point,
};
use crate::algebra::lagrange::{lagrange_coeff_spec, lagrange_coefficients_at_zero, selected_points};
use crate::algebra::scalar::scalar_values;
use crate::constants::G2_PROJ_NUM_BYTES;
use crate::pvss::dealt_secret_key_share::DealtSecretKeyShare;
use crate::pvss::player::Player;
use crate::pvss::threshold_config::ThresholdConfig;
use crate::pvss::traits::IsSecretShareable;
use crate::utils::serialization::slice_to_vec;
use crate::CryptoMaterialError;

verus! {

/// The secret key dealt by a transcript: `h1_hat^a` for the input secret
/// `a`, recoverable only by a large enough subset of players.
#[derive(Debug)]
pub struct DealtSecretKey {
    h_hat: G2Point,
}

/// The byte views of the shares' points.
pub open spec fn share_views(shares: Seq<(Player, DealtSecretKeyShare)>) -> Seq<Seq<u8>> {
    Seq::new(shares.len(), |i: int| shares[i].1.point_view())
}

/// The Lagrange-at-zero coefficient values for the players of the shares,
/// over the configuration's evaluation domain.
pub open spec fn reconstruction_coeffs(sc: &ThresholdConfig, shares: Seq<(Player, DealtSecretKeyShare)>)
    -> Seq<nat> {
    Seq::new(
        shares.len(),
        |i: int| lagrange_coeff_spec(
            Seq::new(shares.len(), |j: int| sc.batch_dom_spec().omega_value(shares[j].0.id_spec())),
            0,
            i,
        ),
    )
}

impl DealtSecretKey {
    /// The bytes of the key's point.
    pub closed spec fn point_view(&self) -> Seq<u8> {
        self.h_hat@
    }

    /// A well-formed key holds a valid point.
    pub open spec fn wf(&self) -> bool {
        self.point_view().len() == 96 && g2_valid(self.point_view())
    }

    /// Wraps a group element.
    pub fn new(h_hat: G2Point) -> (r: Self)
        requires
            h_hat.wf(),
        ensures
            r.wf(),
            r.point_view() == h_hat@,
    {
        DealtSecretKey { h_hat }
    }

    /// The compressed bytes of the key.
    pub fn to_bytes(&self) -> (r: Vec<u8>)
        ensures
            r@ == self.point_view(),
    {
        self.h_hat.to_compressed()
    }

    /// A borrow of the key's point.
    pub(crate) fn point_ref(&self) -> (r: &G2Point)
        requires
            self.wf(),
        ensures
            r.wf(),
            r@ == self.point_view(),
    {
        &self.h_hat
    }

    /// A crate-internal copy: only shares, which are clonable, duplicate a
    /// key through this.
    pub(crate) fn clone_for_share(&self) -> (r: Self)
        ensures
            r.point_view() == self.point_view(),
    {
        DealtSecretKey { h_hat: self.h_hat.clone() }
    }

    /// Parses a key from its compressed bytes: rejects a wrong length, and
    /// bytes that are no canonical point encoding.
    pub fn from_bytes(bytes: &[u8]) -> (r: Result<Self, CryptoMaterialError>)
        ensures
            r is Ok <==> bytes@.len() == G2_PROJ_NUM_BYTES && g2_valid(bytes@),
            r is Ok ==> r.unwrap().wf() && r.unwrap().point_view() == bytes@,
            bytes@.len() != G2_PROJ_NUM_BYTES ==> r == Result::<Self, CryptoMaterialError>::Err(
                CryptoMaterialError::WrongLengthError),
            bytes@.len() == G2_PROJ_NUM_BYTES && !g2_valid(bytes@) ==> r == Result::<
                Self, CryptoMaterialError>::Err(CryptoMaterialError::DeserializationError),
    {
        if bytes.len() != G2_PROJ_NUM_BYTES {
            return Err(CryptoMaterialError::WrongLengthError);
        }
        let v = slice_to_vec(bytes);
        match g2_from_compressed(&v) {
            Some(p) => Ok(DealtSecretKey { h_hat: p }),
            None => Err(CryptoMaterialError::DeserializationError),
        }
    }

    /// Reconstructs the dealt secret key from at least `t` (player, share)
    /// pairs: the multi-exponentiation of the shares' points by the
    /// Lagrange-at-zero coefficients of the players' positions.
    pub fn reconstruct(sc: &ThresholdConfig, shares: &Vec<(Player, DealtSecretKeyShare)>) -> (r:
        Self)
        requires
            sc.wf(),
            sc.t_spec() <= shares@.len() <= sc.n_spec(),
            forall|i: int|
                0 <= i < shares@.len() ==> (#[trigger] shares@[i]).1.wf() && shares@[i].0.id_spec()
                    < sc.n_spec(),
        ensures
            r.wf(),
            r.point_view() == g2_msm_spec(share_views(shares@), reconstruction_coeffs(sc, shares@)),
    {
        let mut ids: Vec<usize> = Vec::new();
        let mut bases: Vec<G2Point> = Vec::new();
        let mut i: usize = 0;
        while i < shares.len()
            invariant
                i <= shares@.len(),
                sc.wf(),
                shares@.len() <= sc.n_spec(),
                ids@.len() == i,
                bases@.len() == i,
                forall|k: int|
                    0 <= k < shares@.len() ==> (#[trigger] shares@[k]).1.wf()
                        && shares@[k].0.id_spec() < sc.n_spec(),
                forall|k: int| 0 <= k < i ==> (#[trigger] ids@[k]) as nat == shares@[k].0.id_spec(),
                forall|k: int| 0 <= k < i ==> (#[trigger] bases@[k])@ == shares@[k].1.point_view(),
                forall|k: int| 0 <= k < i ==> (#[trigger] bases@[k]).wf(),
            decreases shares@.len() - i,
        {
            ids.push(shares[i].0.get_id());
            bases.push(shares[i].1.point_clone());
            i += 1;
        }
        let batch = sc.get_batch_evaluation_domain();
        proof {
            assert(forall|j: int|
                0 <= j < ids@.len() ==> (#[trigger] ids@[j] as nat) < sc.batch_dom_spec(
                ).size_spec());
        }
        let lagr = lagrange_coefficients_at_zero(batch, &ids);
        proof {
            assert(selected_points(&sc.batch_dom_spec(), ids@) =~= Seq::new(
                shares@.len(),
                |j: int| sc.batch_dom_spec().omega_value(shares@[j].0.id_spec()),
            ));
            assert(g2_views(bases@) =~= share_views(shares@));
            assert(scalar_values(lagr@) =~= reconstruction_coeffs(sc, shares@));
        }
        let point = g2_msm(&bases, &lagr);
        DealtSecretKey { h_hat: point }
    }
}

impl IsSecretShareable for DealtSecretKey {
    type Share = DealtSecretKeyShare;
}

impl PartialEq for DealtSecretKey {
    fn eq(&self, other: &Self) -> (r: bool) {
        self.h_hat.eq(&other.h_hat)
    }
}

impl vstd::std_specs::cmp::PartialEqSpecImpl for DealtSecretKey {
    open spec fn obeys_eq_spec() -> bool {
        true
    }

    open spec fn eq_spec(&self, other: &Self) -> bool {
        self.point_view() == other.point_view()
    }
}

impl Eq for DealtSecretKey {}

} // verus!
