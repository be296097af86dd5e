//! Trusted wrappers around `merlin`'s hash-based transcript. The state of a
//! `merlin::Transcript` is modelled as the sequence of byte strings that have
//! gone into it — each operation contributes its label followed by its data —
//! which is sound because merlin is deterministic: two transcripts fed the
//! same operations in the same order hold the same state, and every
//! challenge is a function of the state and the challenge label alone.

use vstd::prelude::*;
use crate::constants::{
    label_challenge_alpha_spec, label_challenge_multipairing_spec, label_dom_sep_spec,
    label_encryption_keys_spec, label_g2_point_spec, label_n_spec, label_pp_spec, label_t_spec,
};

verus! {

/// The running state of a merlin hash transcript, held opaquely: the logic
/// never looks inside it, it only appends to it and draws challenges.
#[verifier::external_body]
pub struct FiatShamir {
    state: merlin::Transcript,
}

/// The sequence of byte strings fed into a Fiat-Shamir transcript so far;
/// names the state that the merlin transcript accumulates.
pub uninterp spec fn fs_view(t: FiatShamir) -> Seq<Seq<u8>>;

/// The 64 challenge bytes that a Fiat-Shamir transcript in the given state
/// produces under the given label; names
/// `merlin::Transcript::challenge_bytes`, which is a deterministic function
/// of both.
pub uninterp spec fn fs_challenge64(history: Seq<Seq<u8>>, label: Seq<u8>) -> Seq<u8>;

/// The little-endian bytes of a 64-bit integer, as merlin appends them.
pub open spec fn u64_le_spec(v: u64) -> Seq<u8> {
    seq![
        (v & 0xff) as u8,
        ((v >> 8) & 0xff) as u8,
        ((v >> 16) & 0xff) as u8,
        ((v >> 24) & 0xff) as u8,
        ((v >> 32) & 0xff) as u8,
        ((v >> 40) & 0xff) as u8,
        ((v >> 48) & 0xff) as u8,
        ((v >> 56) & 0xff) as u8,
    ]
}

/// Relies on `merlin::Transcript::new` and `append_message`: starts a fresh
/// transcript and appends the caller's domain separation tag under the label
/// "dst", so the state is determined by that tag.
#[verifier::external_body]
pub(crate) fn fs_new(dst: &Vec<u8>) -> (r: FiatShamir)
    ensures
        fs_view(r) == seq![dst@],
{
    let mut t = merlin::Transcript::new(b"aptos-pvss");
    t.append_message(b"dst", dst.as_slice());
    FiatShamir { state: t }
}

/// Relies on `merlin::Transcript::append_message` with label "dom-sep".
#[verifier::external_body]
pub(crate) fn fs_append_dom_sep(t: &mut FiatShamir, dom_sep: &Vec<u8>)
    ensures
        fs_view(*final(t)) == fs_view(*old(t)).push(label_dom_sep_spec() + dom_sep@),
{
    t.state.append_message(b"dom-sep", dom_sep.as_slice());
}

/// Relies on `merlin::Transcript::append_u64` with label "t": merlin appends
/// the integer as its eight little-endian bytes.
#[verifier::external_body]
pub(crate) fn fs_append_threshold(t: &mut FiatShamir, v: u64)
    ensures
        fs_view(*final(t)) == fs_view(*old(t)).push(label_t_spec() + u64_le_spec(v)),
{
    t.state.append_u64(b"t", v);
}

/// Relies on `merlin::Transcript::append_u64` with label "n": merlin appends
/// the integer as its eight little-endian bytes.
#[verifier::external_body]
pub(crate) fn fs_append_num_players(t: &mut FiatShamir, v: u64)
    ensures
        fs_view(*final(t)) == fs_view(*old(t)).push(label_n_spec() + u64_le_spec(v)),
{
    t.state.append_u64(b"n", v);
}

/// Relies on `merlin::Transcript::append_message` with label "pp".
#[verifier::external_body]
pub(crate) fn fs_append_public_parameters(t: &mut FiatShamir, pp_bytes: &Vec<u8>)
    ensures
        fs_view(*final(t)) == fs_view(*old(t)).push(label_pp_spec() + pp_bytes@),
{
    t.state.append_message(b"pp", pp_bytes.as_slice());
}

/// Relies on `merlin::Transcript::append_u64` with label "encryption-keys":
/// merlin appends the integer as its eight little-endian bytes.
#[verifier::external_body]
pub(crate) fn fs_append_key_count(t: &mut FiatShamir, v: u64)
    ensures
        fs_view(*final(t)) == fs_view(*old(t)).push(label_encryption_keys_spec() + u64_le_spec(v)),
{
    t.state.append_u64(b"encryption-keys", v);
}

/// Relies on `merlin::Transcript::append_message` with label "g2_point".
#[verifier::external_body]
pub(crate) fn fs_append_g2_point(t: &mut FiatShamir, point_bytes: &Vec<u8>)
    ensures
        fs_view(*final(t)) == fs_view(*old(t)).push(label_g2_point_spec() + point_bytes@),
{
    t.state.append_message(b"g2_point", point_bytes.as_slice());
}

/// Relies on `merlin::Transcript::append_message` with label "transcript".
#[verifier::external_body]
pub(crate) fn fs_append_transcript_bytes(t: &mut FiatShamir, trx_bytes: &Vec<u8>)
    ensures
        fs_view(*final(t)) == fs_view(*old(t)).push(
            crate::constants::label_transcript_spec() + trx_bytes@),
{
    t.state.append_message(b"transcript", trx_bytes.as_slice());
}

/// Relies on `merlin::Transcript::challenge_bytes` with label
/// "challenge_alpha": 64 challenge bytes determined by the state and the
/// label; drawing them also advances the state.
#[verifier::external_body]
pub(crate) fn fs_challenge_alpha(t: &mut FiatShamir) -> (r: Vec<u8>)
    ensures
        r@.len() == 64,
        r@ == fs_challenge64(fs_view(*old(t)), label_challenge_alpha_spec()),
        fs_view(*final(t)) == fs_view(*old(t)).push(label_challenge_alpha_spec() + r@),
{
    let mut buf = [0u8; 64];
    t.state.challenge_bytes(b"challenge_alpha", &mut buf);
    buf.to_vec()
}

/// Relies on `merlin::Transcript::challenge_bytes` with label
/// "challenge_multipairing": 64 challenge bytes determined by the state and
/// the label; drawing them also advances the state.
#[verifier::external_body]
pub(crate) fn fs_challenge_multipairing(t: &mut FiatShamir) -> (r: Vec<u8>)
    ensures
        r@.len() == 64,
        r@ == fs_challenge64(fs_view(*old(t)), label_challenge_multipairing_spec()),
        fs_view(*final(t)) == fs_view(*old(t)).push(label_challenge_multipairing_spec() + r@),
{
    let mut buf = [0u8; 64];
    t.state.challenge_bytes(b"challenge_multipairing", &mut buf);
    buf.to_vec()
}

} // verus!
