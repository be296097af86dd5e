//! The Fiat-Shamir side of SCRAPE verification: the challenges are derived
//! by hashing, in order, a domain separator binding `(t, n)`, the public
//! parameters, the encryption keys and the transcript bytes, which binds
//! each challenge to everything the verifier checks.

use vstd::prelude::*;
use crate::algebra::scalar::Scalar;
use crate::constants::{
    label_challenge_alpha_spec, label_challenge_multipairing_spec, label_dom_sep_spec,
    label_encryption_keys_spec, label_g2_point_spec, label_n_spec, label_pp_spec, label_t_spec,
    label_transcript_spec, pvss_dom_sep, pvss_dom_sep_spec, pvss_hash_to_scalar_dst,
    pvss_hash_to_scalar_dst_spec,
};
use crate::pvss::encryption_dlog::{ek_views, EncryptPubKey};
use crate::pvss::scrape::public_parameters::PublicParameters;
use crate::pvss::threshold_config::ThresholdConfig;
use crate::utils::fiat_shamir::{
    fs_append_dom_sep, fs_append_g2_point, fs_append_key_count, fs_append_num_players,
    fs_append_public_parameters, fs_append_threshold, fs_append_transcript_bytes, fs_challenge64,
    fs_challenge_alpha, fs_challenge_multipairing, fs_view, u64_le_spec, FiatShamir,
};
use crate::utils::{hash_to_scalar, hash_to_scalar_spec};

verus! {

/// The Fiat-Shamir state after the protocol's domain separator and the
/// `(t, n)` configuration are appended to a transcript seeded with `dst`.
pub open spec fn fs_after_dom_sep(dst: Seq<u8>, t: u64, n: u64) -> Seq<Seq<u8>> {
    seq![dst].push(label_dom_sep_spec() + pvss_dom_sep_spec()).push(
        label_t_spec() + u64_le_spec(t)).push(label_n_spec() + u64_le_spec(n))
}

/// The Fiat-Shamir state after each encryption key is appended in order.
pub open spec fn fs_with_keys(h: Seq<Seq<u8>>, eks: Seq<Seq<u8>>) -> Seq<Seq<u8>>
    decreases eks.len(),
{
    if eks.len() == 0 {
        h
    } else {
        fs_with_keys(h.push(label_g2_point_spec() + eks[0]), eks.drop_first())
    }
}

/// Appending one more key extends the folded state by one entry.
proof fn lemma_fs_with_keys_push(h: Seq<Seq<u8>>, eks: Seq<Seq<u8>>, x: Seq<u8>)
    ensures
        fs_with_keys(h, eks.push(x)) == fs_with_keys(h, eks).push(label_g2_point_spec() + x),
    decreases eks.len(),
{
    assert(fs_with_keys(h, eks.push(x)) == fs_with_keys(
        h.push(label_g2_point_spec() + eks.push(x)[0]), eks.push(x).drop_first()));
    if eks.len() == 0 {
        assert(eks.push(x).drop_first() =~= Seq::<Seq<u8>>::empty());
        assert(eks.push(x)[0] == x);
        assert(fs_with_keys(h.push(label_g2_point_spec() + x), Seq::<Seq<u8>>::empty())
            == h.push(label_g2_point_spec() + x));
        assert(fs_with_keys(h, eks) == h);
    } else {
        assert(eks.push(x).drop_first() =~= eks.drop_first().push(x));
        assert(eks.push(x)[0] == eks[0]);
        lemma_fs_with_keys_push(h.push(label_g2_point_spec() + eks[0]), eks.drop_first(), x);
    }
}

/// The full Fiat-Shamir state a verifier builds before drawing challenges:
/// the domain separator with `(t, n)`, the public parameters, the encryption
/// keys, and the transcript bytes, in that order.
pub open spec fn fs_history(
    dst: Seq<u8>,
    t: u64,
    n: u64,
    pp_bytes: Seq<u8>,
    eks: Seq<Seq<u8>>,
    trx_bytes: Seq<u8>,
) -> Seq<Seq<u8>> {
    fs_with_keys(
        fs_after_dom_sep(dst, t, n).push(label_pp_spec() + pp_bytes).push(
            label_encryption_keys_spec() + u64_le_spec(eks.len() as u64)),
        eks,
    ).push(label_transcript_spec() + trx_bytes)
}

/// The value of the challenge for the Lagrange consistency check, drawn
/// from the state `h`.
pub open spec fn fs_alpha_value(h: Seq<Seq<u8>>) -> nat {
    hash_to_scalar_spec(
        fs_challenge64(h, label_challenge_alpha_spec()), pvss_hash_to_scalar_dst_spec())
}

/// The value of the challenge that batches the multi-pairing check, drawn
/// after the first challenge.
pub open spec fn fs_multipairing_value(h: Seq<Seq<u8>>) -> nat {
    hash_to_scalar_spec(
        fs_challenge64(
            h.push(label_challenge_alpha_spec() + fs_challenge64(h, label_challenge_alpha_spec())),
            label_challenge_multipairing_spec(),
        ),
        pvss_hash_to_scalar_dst_spec(),
    )
}

/// Appends the protocol's domain separator and the `(t, n)` configuration,
/// locking the threshold into the challenges.
pub(crate) fn pvss_domain_sep(fs: &mut FiatShamir, sc: &ThresholdConfig)
    requires
        sc.wf(),
    ensures
        fs_view(*final(fs)) == fs_view(*old(fs)).push(
            label_dom_sep_spec() + pvss_dom_sep_spec()).push(
            label_t_spec() + u64_le_spec(sc.t_spec() as u64)).push(
            label_n_spec() + u64_le_spec(sc.n_spec() as u64)),
{
    let ds = pvss_dom_sep();
    fs_append_dom_sep(fs, &ds);
    fs_append_threshold(fs, sc.get_threshold() as u64);
    fs_append_num_players(fs, sc.get_total_num_players() as u64);
}

/// Appends the public parameters.
pub(crate) fn append_public_parameters(fs: &mut FiatShamir, pp: &PublicParameters)
    ensures
        fs_view(*final(fs)) == fs_view(*old(fs)).push(label_pp_spec() + pp.to_bytes_spec()),
{
    let bytes = pp.to_bytes();
    fs_append_public_parameters(fs, &bytes);
}

/// Appends the number of encryption keys and then each key in order.
pub(crate) fn append_encryption_keys(fs: &mut FiatShamir, eks: &Vec<EncryptPubKey>)
    ensures
        fs_view(*final(fs)) == fs_with_keys(
            fs_view(*old(fs)).push(
                label_encryption_keys_spec() + u64_le_spec(eks@.len() as u64)),
            ek_views(eks@),
        ),
{
    fs_append_key_count(fs, eks.len() as u64);
    let ghost start = fs_view(*fs);
    let mut i: usize = 0;
    while i < eks.len()
        invariant
            i <= eks@.len(),
            fs_view(*fs) == fs_with_keys(start, ek_views(eks@).take(i as int)),
        decreases eks@.len() - i,
    {
        let pt = eks[i].as_group_element().to_compressed();
        fs_append_g2_point(fs, &pt);
        proof {
            assert(ek_views(eks@).take(i + 1) =~= ek_views(eks@).take(i as int).push(
                eks@[i as int].ek_view()));
            lemma_fs_with_keys_push(start, ek_views(eks@).take(i as int), eks@[i as int].ek_view());
        }
        i += 1;
    }
    proof {
        assert(ek_views(eks@).take(eks@.len() as int) =~= ek_views(eks@));
    }
}

/// Appends the transcript's serialization.
pub(crate) fn append_transcript_bytes(fs: &mut FiatShamir, trx_bytes: &Vec<u8>)
    ensures
        fs_view(*final(fs)) == fs_view(*old(fs)).push(label_transcript_spec() + trx_bytes@),
{
    fs_append_transcript_bytes(fs, trx_bytes);
}

/// Draws the Fiat-Shamir challenge for the Lagrange consistency check and
/// maps it to a scalar.
pub(crate) fn challenge_lagrange_scalar(fs: &mut FiatShamir) -> (r: Scalar)
    ensures
        r.wf(),
        r.value() == fs_alpha_value(fs_view(*old(fs))),
        fs_view(*final(fs)) == fs_view(*old(fs)).push(
            label_challenge_alpha_spec() + fs_challenge64(
                fs_view(*old(fs)), label_challenge_alpha_spec())),
{
    let c = fs_challenge_alpha(fs);
    let dst = pvss_hash_to_scalar_dst();
    hash_to_scalar(&c, &dst)
}

/// Draws the Fiat-Shamir challenge that batches the multi-pairing check and
/// maps it to a scalar.
pub(crate) fn challenge_multipairing_scalar(fs: &mut FiatShamir) -> (r: Scalar)
    ensures
        r.wf(),
        r.value() == hash_to_scalar_spec(
            fs_challenge64(fs_view(*old(fs)), label_challenge_multipairing_spec()),
            pvss_hash_to_scalar_dst_spec(),
        ),
{
    let c = fs_challenge_multipairing(fs);
    let dst = pvss_hash_to_scalar_dst();
    hash_to_scalar(&c, &dst)
}

} // verus!
