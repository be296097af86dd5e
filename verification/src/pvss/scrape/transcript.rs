//! The SCRAPE PVSS *transcript*: the public artifact of a dealing — one
//! commitment to the constant term, `t` coefficient commitments, `n`
//! evaluation commitments and `n` encrypted evaluations — together with
//! dealing, Fiat-Shamir verification, homomorphic aggregation, per-player
//! decryption and byte serialization.

use vstd::prelude::*;
use crate::algebra::arith::{fr_order, neg_fr, pow_mod};
use crate::algebra::evaluation_domain::BatchEvaluationDomain;
use crate::algebra::fft::{fft, fft_assign};
use crate::algebra::group::{
    lemma_g1_all_wf_views, lemma_g1_views_ok_wf, lemma_g2_all_wf_views, lemma_g2_views_ok_wf,
    clone_g1_points, clone_g2_points, g1_add, g1_add_spec, g1_from_compressed, g1_identity,
    g1_identity_bytes, g1_msm, g1_msm_spec, g1_mul, g1_mul_spec, g1_neg, g1_neg_spec,
    g1_points_eq, g1_valid, g1_views, g1_views_ok, g2_add, g2_add_spec, g2_from_compressed,
    g2_msm, g2_mul, g2_mul_spec, g2_points_eq, g2_valid, g2_views, g2_views_ok,
    multi_pairing_is_id_spec, multi_pairing_is_identity, G1Point, G2Point,
};
use crate::algebra::lagrange::{
    all_lagrange_denominators, all_n_coeff_spec, all_n_lagrange_coefficients,
    first_n_points, lagrange_coeff_spec, lagrange_coefficients, selected_points,
};
use crate::algebra::polynomials::{poly_eval_spec, poly_slice};
use crate::algebra::scalar::{
    scalar_mul, scalar_neg, scalar_values, scalars_wf, Scalar,
};
use crate::pvss::dealt_pub_key::DealtPubKey;
use crate::pvss::dealt_pub_key_share::DealtPubKeyShare;
use crate::pvss::dealt_secret_key::DealtSecretKey;
use crate::pvss::dealt_secret_key_share::DealtSecretKeyShare;
use crate::pvss::encryption_dlog::{ek_views, eks_wf, DecryptPrivKey, EncryptPubKey};
use crate::pvss::player::Player;
use crate::pvss::scrape::fiat_shamir::{
    append_encryption_keys, append_public_parameters, append_transcript_bytes,
    challenge_lagrange_scalar, challenge_multipairing_scalar, fs_alpha_value, fs_history,
    fs_multipairing_value, pvss_domain_sep,
};
use crate::pvss::scrape::public_parameters::PublicParameters;
use crate::pvss::scrape::InputSecret;
use crate::pvss::threshold_config::ThresholdConfig;
use crate::utils::fiat_shamir::{fs_new, fs_view, FiatShamir};
use crate::utils::is_pow2;
use crate::utils::is_power_of_two;
use crate::utils::random::{random_g1_points, random_g2_point, random_g2_points, random_scalars,
    RandomSource};
use crate::utils::serialization::{
    append_bytes, bytes_eq, chunk_views, flatten_bytes, lemma_flatten_bytes_index,
    lemma_flatten_bytes_len, lemma_flatten_bytes_push, slice_to_vec, sub_bytes,
};
use crate::CryptoMaterialError;

verus! {

/// A SCRAPE PVSS transcript: the commitment `u2_hat` to the constant term in
/// G2, the commitments `F` to the `t` coefficients and `A` to the `n`
/// evaluations in G1, and the `n` encrypted evaluations `Y_hat` in G2.
#[derive(Debug)]
pub struct Transcript {
    u2_hat: G2Point,
    coeff_comms: Vec<G1Point>,
    eval_comms: Vec<G1Point>,
    enc_evals: Vec<G2Point>,
}

/// The number of bytes of a serialized transcript for a `t` out of `n`
/// configuration.
pub open spec fn transcript_num_bytes(t: nat, n: nat) -> int {
    (96 + t * 48 + n * 48 + n * 96) as int
}

/// Whether a byte string parses as a transcript for `t` out of `n`: the
/// exact length and every segment a canonical point encoding.
pub open spec fn transcript_bytes_parseable(t: nat, n: nat, bytes: Seq<u8>) -> bool {
    &&& bytes.len() == transcript_num_bytes(t, n)
    &&& g2_valid(bytes.subrange(0, 96))
    &&& g1_views_ok(chunk_views(bytes, 96, 48, t as int))
    &&& g1_views_ok(chunk_views(bytes, (96 + t * 48) as int, 48, n as int))
    &&& g2_views_ok(chunk_views(bytes, (96 + t * 48 + n * 48) as int, 96, n as int))
}

impl Transcript {
    /// The bytes of the commitment to the constant term.
    pub closed spec fn u2_hat_view(&self) -> Seq<u8> {
        self.u2_hat@
    }

    /// The bytes of the `t` coefficient commitments.
    pub closed spec fn coeff_views(&self) -> Seq<Seq<u8>> {
        g1_views(self.coeff_comms@)
    }

    /// The bytes of the `n` evaluation commitments.
    pub closed spec fn eval_views(&self) -> Seq<Seq<u8>> {
        g1_views(self.eval_comms@)
    }

    /// The bytes of the `n` encrypted evaluations.
    pub closed spec fn enc_views(&self) -> Seq<Seq<u8>> {
        g2_views(self.enc_evals@)
    }

    /// A well-formed transcript holds only valid points.
    pub open spec fn wf(&self) -> bool {
        &&& self.u2_hat_view().len() == 96 && g2_valid(self.u2_hat_view())
        &&& g1_views_ok(self.coeff_views())
        &&& g1_views_ok(self.eval_views())
        &&& g2_views_ok(self.enc_views())
    }

    /// Whether the transcript has the shape of a `t` out of `n` dealing.
    pub open spec fn matches_config(&self, t: nat, n: nat) -> bool {
        &&& self.coeff_views().len() == t
        &&& self.eval_views().len() == n
        &&& self.enc_views().len() == n
    }

    /// The canonical serialization: `u2_hat`, then the coefficient
    /// commitments, the evaluation commitments and the encrypted
    /// evaluations, each as compressed bytes, concatenated in that order.
    pub open spec fn to_bytes_spec(&self) -> Seq<u8> {
        self.u2_hat_view() + flatten_bytes(self.coeff_views()) + flatten_bytes(self.eval_views())
            + flatten_bytes(self.enc_views())
    }

    /// A developer-facing name for the scheme.
    pub fn scheme_name() -> String {
        "vanilla_scrape_sk_in_g2".to_string()
    }

    /// Serializes the transcript.
    pub fn to_bytes(&self) -> (r: Vec<u8>)
        ensures
            r@ == self.to_bytes_spec(),
    {
        let mut r = self.u2_hat.to_compressed();
        append_g1_points_bytes(&mut r, &self.coeff_comms);
        append_g1_points_bytes(&mut r, &self.eval_comms);
        append_g2_points_bytes(&mut r, &self.enc_evals);
        proof {
            assert(r@ =~= self.to_bytes_spec());
        }
        r
    }

    /// Parses a transcript dealt under the given configuration: rejects a
    /// wrong total length, and any segment that is no canonical point
    /// encoding.
    pub fn from_bytes(sc: &ThresholdConfig, bytes: &[u8]) -> (r: Result<
        Transcript, CryptoMaterialError>)
        requires
            sc.wf(),
        ensures
            r is Ok <==> transcript_bytes_parseable(sc.t_spec(), sc.n_spec(), bytes@),
            r is Ok ==> {
                let trx = r.unwrap();
                &&& trx.wf()
                &&& trx.matches_config(sc.t_spec(), sc.n_spec())
                &&& trx.u2_hat_view() == bytes@.subrange(0, 96)
                &&& trx.coeff_views() == chunk_views(bytes@, 96, 48, sc.t_spec() as int)
                &&& trx.eval_views() == chunk_views(
                    bytes@, (96 + sc.t_spec() * 48) as int, 48, sc.n_spec() as int)
                &&& trx.enc_views() == chunk_views(
                    bytes@, (96 + sc.t_spec() * 48 + sc.n_spec() * 48) as int, 96,
                    sc.n_spec() as int)
            },
            bytes@.len() != transcript_num_bytes(sc.t_spec(), sc.n_spec()) ==> r == Result::<
                Transcript, CryptoMaterialError>::Err(CryptoMaterialError::WrongLengthError),
            bytes@.len() == transcript_num_bytes(sc.t_spec(), sc.n_spec())
                && !transcript_bytes_parseable(sc.t_spec(), sc.n_spec(), bytes@) ==> r == Result::<
                Transcript, CryptoMaterialError>::Err(CryptoMaterialError::DeserializationError),
    {
        let t = sc.get_threshold();
        let n = sc.get_total_num_players();
        let expected: usize = 96 + t * 48 + n * 48 + n * 96;
        if bytes.len() != expected {
            return Err(CryptoMaterialError::WrongLengthError);
        }
        let v = slice_to_vec(bytes);
        let u2_bytes = sub_bytes(&v, 0, 96);
        let u2_hat = match g2_from_compressed(&u2_bytes) {
            Some(p) => p,
            None => {
                return Err(CryptoMaterialError::DeserializationError);
            },
        };
        let coeff_comms = match parse_g1_points(&v, 96, t) {
            Some(ps) => ps,
            None => {
                return Err(CryptoMaterialError::DeserializationError);
            },
        };
        let eval_comms = match parse_g1_points(&v, 96 + t * 48, n) {
            Some(ps) => ps,
            None => {
                return Err(CryptoMaterialError::DeserializationError);
            },
        };
        let enc_evals = match parse_g2_points(&v, 96 + t * 48 + n * 48, n) {
            Some(ps) => ps,
            None => {
                return Err(CryptoMaterialError::DeserializationError);
            },
        };
        Ok(Transcript { u2_hat, coeff_comms, eval_comms, enc_evals })
    }
}

/// Appends the compressed bytes of each point to `dst`.
fn append_g1_points_bytes(dst: &mut Vec<u8>, pts: &Vec<G1Point>)
    ensures
        final(dst)@ == old(dst)@ + flatten_bytes(g1_views(pts@)),
{
    let mut i: usize = 0;
    proof {
        assert(g1_views(pts@).take(0) =~= Seq::<Seq<u8>>::empty());
        assert(old(dst)@ + flatten_bytes(g1_views(pts@).take(0)) =~= old(dst)@);
    }
    while i < pts.len()
        invariant
            i <= pts@.len(),
            dst@ == old(dst)@ + flatten_bytes(g1_views(pts@).take(i as int)),
        decreases pts@.len() - i,
    {
        let b = pts[i].to_compressed();
        append_bytes(dst, &b);
        proof {
            assert(g1_views(pts@).take(i + 1) =~= g1_views(pts@).take(i as int).push(
                pts@[i as int]@));
            lemma_flatten_bytes_push(g1_views(pts@).take(i as int), pts@[i as int]@);
            assert(old(dst)@ + flatten_bytes(g1_views(pts@).take(i as int)) + pts@[i as int]@
                =~= old(dst)@ + flatten_bytes(g1_views(pts@).take(i + 1)));
        }
        i += 1;
    }
    proof {
        assert(g1_views(pts@).take(pts@.len() as int) =~= g1_views(pts@));
    }
}

/// Appends the compressed bytes of each point to `dst`.
fn append_g2_points_bytes(dst: &mut Vec<u8>, pts: &Vec<G2Point>)
    ensures
        final(dst)@ == old(dst)@ + flatten_bytes(g2_views(pts@)),
{
    let mut i: usize = 0;
    proof {
        assert(g2_views(pts@).take(0) =~= Seq::<Seq<u8>>::empty());
        assert(old(dst)@ + flatten_bytes(g2_views(pts@).take(0)) =~= old(dst)@);
    }
    while i < pts.len()
        invariant
            i <= pts@.len(),
            dst@ == old(dst)@ + flatten_bytes(g2_views(pts@).take(i as int)),
        decreases pts@.len() - i,
    {
        let b = pts[i].to_compressed();
        append_bytes(dst, &b);
        proof {
            assert(g2_views(pts@).take(i + 1) =~= g2_views(pts@).take(i as int).push(
                pts@[i as int]@));
            lemma_flatten_bytes_push(g2_views(pts@).take(i as int), pts@[i as int]@);
            assert(old(dst)@ + flatten_bytes(g2_views(pts@).take(i as int)) + pts@[i as int]@
                =~= old(dst)@ + flatten_bytes(g2_views(pts@).take(i + 1)));
        }
        i += 1;
    }
    proof {
        assert(g2_views(pts@).take(pts@.len() as int) =~= g2_views(pts@));
    }
}

/// Parses `count` G1 points of 48 bytes each from `v` at offset `off`;
/// nothing if any segment is no canonical encoding.
fn parse_g1_points(v: &Vec<u8>, off: usize, count: usize) -> (r: Option<Vec<G1Point>>)
    requires
        off + count * 48 <= v@.len(),
        v@.len() <= usize::MAX,
    ensures
        r is Some <==> g1_views_ok(chunk_views(v@, off as int, 48, count as int)),
        r is Some ==> g1_views(r.unwrap()@) == chunk_views(v@, off as int, 48, count as int)
            && crate::algebra::group::g1_all_wf(r.unwrap()@) && r.unwrap()@.len() == count,
{
    let ghost chunks = chunk_views(v@, off as int, 48, count as int);
    let mut r: Vec<G1Point> = Vec::new();
    let mut i: usize = 0;
    while i < count
        invariant
            i <= count,
            off + count * 48 <= v@.len(),
            v@.len() <= usize::MAX,
            chunks == chunk_views(v@, off as int, 48, count as int),
            r@.len() == i,
            forall|k: int| 0 <= k < i ==> (#[trigger] r@[k])@ == chunks[k] && r@[k].wf(),
        decreases count - i,
    {
        proof {
            assert((i + 1) * 48 <= count * 48) by (nonlinear_arith)
                requires
                    i < count,
            ;
            assert(i * 48 >= 0) by (nonlinear_arith)
                requires
                    i >= 0,
            ;
            assert(i * 48 + 48 == (i + 1) * 48) by (nonlinear_arith);
        }
        let lo = off + i * 48;
        let chunk = sub_bytes(v, lo, lo + 48);
        match g1_from_compressed(&chunk) {
            Some(p) => {
                r.push(p);
            },
            None => {
                proof {
                    assert(chunks[i as int] == chunk@);
                    assert(!g1_views_ok(chunks));
                }
                return None;
            },
        }
        i += 1;
    }
    proof {
        assert(g1_views(r@) =~= chunks);
        assert(g1_views_ok(chunks));
    }
    Some(r)
}

/// Parses `count` G2 points of 96 bytes each from `v` at offset `off`;
/// nothing if any segment is no canonical encoding.
fn parse_g2_points(v: &Vec<u8>, off: usize, count: usize) -> (r: Option<Vec<G2Point>>)
    requires
        off + count * 96 <= v@.len(),
        v@.len() <= usize::MAX,
    ensures
        r is Some <==> g2_views_ok(chunk_views(v@, off as int, 96, count as int)),
        r is Some ==> g2_views(r.unwrap()@) == chunk_views(v@, off as int, 96, count as int)
            && crate::algebra::group::g2_all_wf(r.unwrap()@) && r.unwrap()@.len() == count,
{
    let ghost chunks = chunk_views(v@, off as int, 96, count as int);
    let mut r: Vec<G2Point> = Vec::new();
    let mut i: usize = 0;
    while i < count
        invariant
            i <= count,
            off + count * 96 <= v@.len(),
            v@.len() <= usize::MAX,
            chunks == chunk_views(v@, off as int, 96, count as int),
            r@.len() == i,
            forall|k: int| 0 <= k < i ==> (#[trigger] r@[k])@ == chunks[k] && r@[k].wf(),
        decreases count - i,
    {
        proof {
            assert((i + 1) * 96 <= count * 96) by (nonlinear_arith)
                requires
                    i < count,
            ;
            assert(i * 96 >= 0) by (nonlinear_arith)
                requires
                    i >= 0,
            ;
            assert(i * 96 + 96 == (i + 1) * 96) by (nonlinear_arith);
        }
        let lo = off + i * 96;
        let chunk = sub_bytes(v, lo, lo + 96);
        match g2_from_compressed(&chunk) {
            Some(p) => {
                r.push(p);
            },
            None => {
                proof {
                    assert(chunks[i as int] == chunk@);
                    assert(!g2_views_ok(chunks));
                }
                return None;
            },
        }
        i += 1;
    }
    proof {
        assert(g2_views(r@) =~= chunks);
        assert(g2_views_ok(chunks));
    }
    Some(r)
}

/// What a verifier checks of a transcript: the vector lengths fit the
/// configuration; the Fiat-Shamir challenges `alpha` and `r` are derived
/// from everything being checked; the evaluation commitments interpolate,
/// at `alpha`, to the combination of the coefficient commitments (one
/// multi-exponentiation against the identity); and one batched multi-pairing
/// folds the correctness of every encryption together with the consistency
/// of the constant-term commitment.
pub open spec fn verify_spec(
    trx: &Transcript,
    sc: &ThresholdConfig,
    pp: &PublicParameters,
    eks: Seq<Seq<u8>>,
    dst: Seq<u8>,
) -> bool {
    let t = sc.t_spec();
    let n = sc.n_spec();
    if eks.len() != n || !trx.matches_config(t, n) {
        false
    } else {
        let h = fs_history(dst, t as u64, n as u64, pp.to_bytes_spec(), eks, trx.to_bytes_spec());
        let alpha = fs_alpha_value(h);
        let rv = fs_multipairing_value(h);
        let lagr = if is_pow2(n) {
            Seq::new(n, |i: int| all_n_coeff_spec(&sc.batch_dom_spec(), alpha, i))
        } else {
            Seq::new(
                n,
                |i: int| lagrange_coeff_spec(first_n_points(&sc.batch_dom_spec(), n as int), alpha, i),
            )
        };
        let exps = lagr + Seq::new(t, |j: int| neg_fr(pow_mod(alpha, j as nat)));
        let bases = trx.eval_views() + trx.coeff_views();
        let consistent = g1_msm_spec(bases, exps) == g1_identity_bytes();
        let neg_base = g1_neg_spec(pp.comm_base_view());
        let lhs = Seq::new(n, |i: int| g1_mul_spec(neg_base, pow_mod(rv, i as nat))) + Seq::new(
            n,
            |i: int| g1_mul_spec(trx.eval_views()[i], pow_mod(rv, i as nat)),
        ) + seq![
            g1_mul_spec(trx.coeff_views()[0], pow_mod(rv, n)),
            g1_mul_spec(neg_base, pow_mod(rv, n)),
        ];
        let rhs = trx.enc_views() + eks + seq![pp.pk_base_view(), trx.u2_hat_view()];
        let encrypts = multi_pairing_is_id_spec(lhs, rhs);
        consistent && encrypts
    }
}

/// What dealing guarantees of every outcome of the randomness: `fv` are the
/// dealt polynomial's coefficient values, the constant term the secret; the
/// coefficient commitments commit to them; and the evaluation commitments
/// and the encrypted evaluations are powers, by the same Horner evaluations
/// of `fv` at the domain points, of the commitment base and of the players'
/// keys respectively.
pub open spec fn deal_components(
    trx: Transcript,
    sc: &ThresholdConfig,
    pp: &PublicParameters,
    eks: Seq<Seq<u8>>,
    secret: nat,
    fv: Seq<nat>,
) -> bool {
    &&& fv.len() == sc.t_spec()
    &&& fv[0] == secret
    &&& forall|j: int| 0 <= j < fv.len() ==> #[trigger] fv[j] < fr_order()
    &&& forall|j: int|
        0 <= j < sc.t_spec() ==> #[trigger] trx.coeff_views()[j] == g1_mul_spec(
            pp.comm_base_view(), fv[j])
    &&& forall|i: int|
        0 <= i < sc.n_spec() ==> #[trigger] trx.eval_views()[i] == g1_mul_spec(
            pp.comm_base_view(),
            poly_eval_spec(fv, pow_mod(sc.dom_spec().omega_val(), i as nat)),
        )
    &&& forall|i: int|
        0 <= i < sc.n_spec() ==> #[trigger] trx.enc_views()[i] == g2_mul_spec(
            eks[i],
            poly_eval_spec(fv, pow_mod(sc.dom_spec().omega_val(), i as nat)),
        )
}

impl Transcript {
    /// Deals the input secret `s`: samples a uniformly random polynomial of
    /// degree `t - 1` whose constant term is the secret, evaluates it at the
    /// players' domain points by FFT, and commits to each coefficient, each
    /// evaluation, and each player's encrypted evaluation. Whatever the
    /// randomness gave, there are coefficient values — the constant term the
    /// secret — such that every coefficient commitment, every evaluation
    /// commitment and every encrypted evaluation is the stated power of its
    /// base: the evaluation commitments and the ciphertexts share the same
    /// polynomial evaluations at the domain points.
    pub fn deal(
        sc: &ThresholdConfig,
        pp: &PublicParameters,
        eks: &Vec<EncryptPubKey>,
        s: InputSecret,
        _dst: &Vec<u8>,
        rng: &mut RandomSource,
    ) -> (r: Transcript)
        requires
            sc.wf(),
            pp.wf(),
            eks@.len() == sc.n_spec(),
            eks_wf(eks@),
            s.wf(),
        ensures
            r.wf(),
            r.matches_config(sc.t_spec(), sc.n_spec()),
            r.u2_hat_view() == g2_mul_spec(pp.pk_base_view(), s.a_val()),
            r.coeff_views()[0] == g1_mul_spec(pp.comm_base_view(), s.a_val()),
            exists|fv: Seq<nat>| #[trigger] deal_components(r, sc, pp, ek_views(eks@), s.a_val(), fv),
    {
        let t = sc.get_threshold();
        let n = sc.get_total_num_players();
        let a = s.get_secret_a().clone();
        let mut f = random_scalars(t, rng);
        f.set(0, a.clone());
        let evals_full = fft(&f, sc.get_evaluation_domain());
        let evals = poly_slice(&evals_full, 0, n);
        let u2_hat = g2_mul(pp.get_public_key_base(), &a);
        let mut coeff_comms: Vec<G1Point> = Vec::new();
        let mut i: usize = 0;
        while i < t
            invariant
                i <= t,
                t == f@.len(),
                pp.wf(),
                scalars_wf(f@),
                coeff_comms@.len() == i,
                crate::algebra::group::g1_all_wf(coeff_comms@),
                forall|k: int|
                    0 <= k < i ==> (#[trigger] coeff_comms@[k])@ == g1_mul_spec(
                        pp.comm_base_view(), f@[k].value()),
            decreases t - i,
        {
            coeff_comms.push(g1_mul(pp.get_commitment_base(), &f[i]));
            i += 1;
        }
        let mut eval_comms: Vec<G1Point> = Vec::new();
        let mut i: usize = 0;
        while i < n
            invariant
                i <= n,
                n <= evals@.len(),
                pp.wf(),
                scalars_wf(evals@),
                eval_comms@.len() == i,
                crate::algebra::group::g1_all_wf(eval_comms@),
                forall|k: int|
                    0 <= k < i ==> (#[trigger] eval_comms@[k])@ == g1_mul_spec(
                        pp.comm_base_view(), evals@[k].value()),
            decreases n - i,
        {
            eval_comms.push(g1_mul(pp.get_commitment_base(), &evals[i]));
            i += 1;
        }
        let mut enc_evals: Vec<G2Point> = Vec::new();
        let mut i: usize = 0;
        while i < n
            invariant
                i <= n,
                n <= evals@.len(),
                n == eks@.len(),
                eks_wf(eks@),
                scalars_wf(evals@),
                enc_evals@.len() == i,
                crate::algebra::group::g2_all_wf(enc_evals@),
                forall|k: int|
                    0 <= k < i ==> (#[trigger] enc_evals@[k])@ == g2_mul_spec(
                        eks@[k].ek_view(), evals@[k].value()),
            decreases n - i,
        {
            enc_evals.push(g2_mul(eks[i].as_group_element(), &evals[i]));
            i += 1;
        }
        proof {
            lemma_g1_all_wf_views(coeff_comms@);
            lemma_g1_all_wf_views(eval_comms@);
            lemma_g2_all_wf_views(enc_evals@);
        }
        let r = Transcript { u2_hat, coeff_comms, eval_comms, enc_evals };
        proof {
            let fv = scalar_values(f@);
            assert(fv[0] == s.a_val());
            assert(forall|j: int| 0 <= j < fv.len() ==> #[trigger] fv[j] < fr_order()) by {
                assert(forall|j: int|
                    0 <= j < f@.len() ==> (#[trigger] scalar_values(f@)[j]) == f@[j].value());
            }
            assert forall|k: int|
                0 <= k < sc.n_spec() implies #[trigger] r.eval_views()[k] == g1_mul_spec(
                pp.comm_base_view(),
                poly_eval_spec(fv, pow_mod(sc.dom_spec().omega_val(), k as nat)),
            ) by {
                assert(evals@[k].value() == evals_full@[k].value());
                assert(evals_full@[k].value() == poly_eval_spec(
                    scalar_values(f@), pow_mod(sc.dom_spec().omega_val(), k as nat)));
                assert(r.eval_views()[k] == eval_comms@[k]@);
            }
            assert forall|k: int|
                0 <= k < sc.n_spec() implies #[trigger] r.enc_views()[k] == g2_mul_spec(
                ek_views(eks@)[k],
                poly_eval_spec(fv, pow_mod(sc.dom_spec().omega_val(), k as nat)),
            ) by {
                assert(evals@[k].value() == evals_full@[k].value());
                assert(evals_full@[k].value() == poly_eval_spec(
                    scalar_values(f@), pow_mod(sc.dom_spec().omega_val(), k as nat)));
                assert(r.enc_views()[k] == enc_evals@[k]@);
                assert(ek_views(eks@)[k] == eks@[k].ek_view());
            }
            assert forall|j: int|
                0 <= j < sc.t_spec() implies #[trigger] r.coeff_views()[j] == g1_mul_spec(
                pp.comm_base_view(), fv[j]) by {
                assert(r.coeff_views()[j] == coeff_comms@[j]@);
                assert(fv[j] == f@[j].value());
            }
            assert(deal_components(r, sc, pp, ek_views(eks@), s.a_val(), fv));
        }
        r
    }

    /// Derives the two Fiat-Shamir challenges from everything the verifier
    /// checks: the configuration, the public parameters, the encryption keys
    /// and the transcript bytes.
    pub fn fiat_shamir(
        &self,
        sc: &ThresholdConfig,
        pp: &PublicParameters,
        eks: &Vec<EncryptPubKey>,
        dst: &Vec<u8>,
    ) -> (r: (Scalar, Scalar))
        requires
            sc.wf(),
        ensures
            ({
                let h = fs_history(
                    dst@,
                    sc.t_spec() as u64,
                    sc.n_spec() as u64,
                    pp.to_bytes_spec(),
                    ek_views(eks@),
                    self.to_bytes_spec(),
                );
                &&& r.0.wf()
                &&& r.1.wf()
                &&& r.0.value() == fs_alpha_value(h)
                &&& r.1.value() == fs_multipairing_value(h)
            }),
    {
        let mut fs = fs_new(dst);
        pvss_domain_sep(&mut fs, sc);
        append_public_parameters(&mut fs, pp);
        append_encryption_keys(&mut fs, eks);
        let bytes = self.to_bytes();
        append_transcript_bytes(&mut fs, &bytes);
        proof {
            assert(fs_view(fs) == fs_history(
                dst@,
                sc.t_spec() as u64,
                sc.n_spec() as u64,
                pp.to_bytes_spec(),
                ek_views(eks@),
                self.to_bytes_spec(),
            ));
        }
        let alpha = challenge_lagrange_scalar(&mut fs);
        let rv = challenge_multipairing_scalar(&mut fs);
        (alpha, rv)
    }

    /// Verifies the transcript: a pure, repeatable predicate that returns
    /// exactly what `verify_spec` says.
    #[verifier::rlimit(60)]
    pub fn verify(
        &self,
        sc: &ThresholdConfig,
        pp: &PublicParameters,
        eks: &Vec<EncryptPubKey>,
        dst: &Vec<u8>,
    ) -> (r: bool)
        requires
            sc.wf(),
            pp.wf(),
            self.wf(),
            eks_wf(eks@),
        ensures
            r == verify_spec(self, sc, pp, ek_views(eks@), dst@),
    {
        let t = sc.get_threshold();
        let n = sc.get_total_num_players();
        if eks.len() != n {
            return false;
        }
        if self.eval_comms.len() != n || self.enc_evals.len() != n {
            return false;
        }
        if self.coeff_comms.len() != t {
            return false;
        }
        let ghost h = fs_history(
            dst@,
            sc.t_spec() as u64,
            sc.n_spec() as u64,
            pp.to_bytes_spec(),
            ek_views(eks@),
            self.to_bytes_spec(),
        );
        let challenges = self.fiat_shamir(sc, pp, eks, dst);
        let alpha = challenges.0;
        let rv = challenges.1;
        let batch = sc.get_batch_evaluation_domain();
        let ghost lagr_spec: Seq<nat> = if is_pow2(n as nat) {
            Seq::new(sc.n_spec(), |i: int| all_n_coeff_spec(&sc.batch_dom_spec(), alpha.value(), i))
        } else {
            Seq::new(
                sc.n_spec(),
                |i: int| lagrange_coeff_spec(
                    first_n_points(&sc.batch_dom_spec(), n as int), alpha.value(), i),
            )
        };
        let lagr: Vec<Scalar> = if is_power_of_two(n) {
            proof {
                lemma_pow2_size_matches(&sc.batch_dom_spec(), n as nat);
            }
            let l = all_n_lagrange_coefficients(batch, &alpha);
            proof {
                assert(scalar_values(l@) =~= lagr_spec);
            }
            l
        } else {
            let mut ids: Vec<usize> = Vec::new();
            let mut i: usize = 0;
            while i < n
                invariant
                    i <= n,
                    ids@.len() == i,
                    forall|k: int| 0 <= k < i ==> #[trigger] ids@[k] == k,
                decreases n - i,
            {
                ids.push(i);
                i += 1;
            }
            proof {
                assert(forall|k: int|
                    0 <= k < ids@.len() ==> (#[trigger] ids@[k] as nat) < sc.batch_dom_spec(
                    ).size_spec());
            }
            let l = lagrange_coefficients(batch, &ids, &alpha);
            proof {
                assert(selected_points(&sc.batch_dom_spec(), ids@) =~= first_n_points(
                    &sc.batch_dom_spec(), n as int));
                assert(scalar_values(l@) =~= lagr_spec);
            }
            l
        };
        let mut scalars = lagr;
        let mut apow = Scalar::one();
        proof {
            vstd::arithmetic::div_mod::lemma_small_mod(1nat, crate::algebra::arith::fr_order());
            assert(scalar_values(scalars@) =~= lagr_spec + Seq::new(
                0, |k: int| neg_fr(pow_mod(alpha.value(), k as nat))));
        }
        let mut j: usize = 0;
        while j < t
            invariant
                j <= t,
                alpha.wf(),
                apow.wf(),
                apow.value() == pow_mod(alpha.value(), j as nat),
                scalars@.len() == lagr_spec.len() + j,
                scalars_wf(scalars@),
                scalar_values(scalars@) == lagr_spec + Seq::new(
                    j as nat, |k: int| neg_fr(pow_mod(alpha.value(), k as nat))),
            decreases t - j,
        {
            let ghost before = scalar_values(scalars@);
            let na = scalar_neg(&apow);
            scalars.push(na);
            proof {
                assert(scalar_values(scalars@) =~= before.push(
                    neg_fr(pow_mod(alpha.value(), j as nat))));
                assert(lagr_spec + Seq::new(
                    (j + 1) as nat, |k: int| neg_fr(pow_mod(alpha.value(), k as nat))) =~= before.push(
                    neg_fr(pow_mod(alpha.value(), j as nat))));
            }
            let next = scalar_mul(&apow, &alpha);
            proof {
                assert(pow_mod(alpha.value(), (j + 1) as nat) == (alpha.value() * pow_mod(
                    alpha.value(), j as nat)) % crate::algebra::arith::fr_order());
            }
            apow = next;
            j += 1;
        }
        proof {
            lemma_g1_views_ok_wf(self.eval_comms@);
        }
        let mut bases = clone_g1_points(&self.eval_comms);
        proof {
            assert(g1_views(bases@) =~= self.eval_views() + self.coeff_views().take(0));
        }
        let mut j: usize = 0;
        while j < t
            invariant
                j <= t,
                t == self.coeff_comms@.len(),
                self.wf(),
                bases@.len() == self.eval_comms@.len() + j,
                crate::algebra::group::g1_all_wf(bases@),
                g1_views(bases@) == self.eval_views() + self.coeff_views().take(j as int),
            decreases t - j,
        {
            proof {
                lemma_g1_views_ok_wf(self.coeff_comms@);
            }
            let ghost before = g1_views(bases@);
            bases.push(self.coeff_comms[j].clone());
            proof {
                assert(g1_views(bases@) =~= before.push(self.coeff_views()[j as int]));
                assert(self.eval_views() + self.coeff_views().take(j + 1) =~= before.push(
                    self.coeff_views()[j as int]));
            }
            j += 1;
        }
        let ghost exps_spec = lagr_spec + Seq::new(
            sc.t_spec(), |k: int| neg_fr(pow_mod(alpha.value(), k as nat)));
        let ghost bases_spec = self.eval_views() + self.coeff_views();
        proof {
            assert(scalar_values(scalars@) =~= exps_spec);
            assert(g1_views(bases@) =~= bases_spec);
        }
        let msm = g1_msm(&bases, &scalars);
        let id = g1_identity();
        let msm_bytes = msm.to_compressed();
        let consistent = bytes_eq(&msm_bytes, &id);
        if !consistent {
            return false;
        }
        let mut rpow: Vec<Scalar> = Vec::new();
        let mut cur = Scalar::one();
        let mut j: usize = 0;
        while j <= n
            invariant
                j <= n + 1,
                n <= 0x100000,
                rv.wf(),
                cur.wf(),
                cur.value() == pow_mod(rv.value(), j as nat),
                rpow@.len() == j,
                scalars_wf(rpow@),
                forall|k: int|
                    0 <= k < j ==> (#[trigger] rpow@[k]).value() == pow_mod(rv.value(), k as nat),
            decreases n + 1 - j,
        {
            rpow.push(cur.clone());
            let next = scalar_mul(&cur, &rv);
            proof {
                assert(pow_mod(rv.value(), (j + 1) as nat) == (rv.value() * pow_mod(
                    rv.value(), j as nat)) % crate::algebra::arith::fr_order());
            }
            cur = next;
            j += 1;
        }
        let neg_base = g1_neg(pp.get_commitment_base());
        let ghost lhs_spec = Seq::new(
            sc.n_spec(),
            |i: int| g1_mul_spec(g1_neg_spec(pp.comm_base_view()), pow_mod(rv.value(), i as nat)),
        ) + Seq::new(
            sc.n_spec(),
            |i: int| g1_mul_spec(self.eval_views()[i], pow_mod(rv.value(), i as nat)),
        ) + seq![
            g1_mul_spec(self.coeff_views()[0], pow_mod(rv.value(), sc.n_spec())),
            g1_mul_spec(g1_neg_spec(pp.comm_base_view()), pow_mod(rv.value(), sc.n_spec())),
        ];
        let mut lhs: Vec<G1Point> = Vec::new();
        let mut j: usize = 0;
        while j < n
            invariant
                j <= n,
                rpow@.len() == n + 1,
                scalars_wf(rpow@),
                forall|k: int|
                    0 <= k < rpow@.len() ==> (#[trigger] rpow@[k]).value() == pow_mod(
                        rv.value(), k as nat),
                neg_base.wf(),
                neg_base@ == g1_neg_spec(pp.comm_base_view()),
                lhs@.len() == j,
                crate::algebra::group::g1_all_wf(lhs@),
                forall|k: int|
                    0 <= k < j ==> (#[trigger] lhs@[k])@ == g1_mul_spec(
                        g1_neg_spec(pp.comm_base_view()), pow_mod(rv.value(), k as nat)),
            decreases n - j,
        {
            lhs.push(g1_mul(&neg_base, &rpow[j]));
            j += 1;
        }
        proof {
            assert(g1_views(lhs@) =~= Seq::new(
                sc.n_spec(),
                |i: int| g1_mul_spec(g1_neg_spec(pp.comm_base_view()), pow_mod(rv.value(), i as nat)),
            ) + Seq::new(0, |i: int| g1_mul_spec(self.eval_views()[i], pow_mod(rv.value(), i as nat))));
        }
        let mut j: usize = 0;
        while j < n
            invariant
                j <= n,
                n == self.eval_comms@.len(),
                n as nat == sc.n_spec(),
                self.wf(),
                rpow@.len() == n + 1,
                scalars_wf(rpow@),
                forall|k: int|
                    0 <= k < rpow@.len() ==> (#[trigger] rpow@[k]).value() == pow_mod(
                        rv.value(), k as nat),
                neg_base.wf(),
                neg_base@ == g1_neg_spec(pp.comm_base_view()),
                lhs@.len() == n + j,
                crate::algebra::group::g1_all_wf(lhs@),
                g1_views(lhs@) == Seq::new(
                    sc.n_spec(),
                    |i: int| g1_mul_spec(
                        g1_neg_spec(pp.comm_base_view()), pow_mod(rv.value(), i as nat)),
                ) + Seq::new(
                    j as nat,
                    |i: int| g1_mul_spec(self.eval_views()[i], pow_mod(rv.value(), i as nat)),
                ),
            decreases n - j,
        {
            proof {
                lemma_g1_views_ok_wf(self.eval_comms@);
            }
            let ghost before = g1_views(lhs@);
            lhs.push(g1_mul(&self.eval_comms[j], &rpow[j]));
            proof {
                assert(g1_views(lhs@) =~= before.push(
                    g1_mul_spec(self.eval_views()[j as int], pow_mod(rv.value(), j as nat))));
                assert(Seq::new(
                    sc.n_spec(),
                    |i: int| g1_mul_spec(
                        g1_neg_spec(pp.comm_base_view()), pow_mod(rv.value(), i as nat)),
                ) + Seq::new(
                    (j + 1) as nat,
                    |i: int| g1_mul_spec(self.eval_views()[i], pow_mod(rv.value(), i as nat)),
                ) =~= before.push(
                    g1_mul_spec(self.eval_views()[j as int], pow_mod(rv.value(), j as nat))));
            }
            j += 1;
        }
        proof {
            lemma_g1_views_ok_wf(self.coeff_comms@);
            assert(self.coeff_comms@[0].wf());
        }
        lhs.push(g1_mul(&self.coeff_comms[0], &rpow[n]));
        lhs.push(g1_mul(&neg_base, &rpow[n]));
        proof {
            lemma_g2_views_ok_wf(self.enc_evals@);
        }
        let mut rhs = clone_g2_points(&self.enc_evals);
        proof {
            assert(g2_views(rhs@) =~= self.enc_views() + ek_views(eks@).take(0));
        }
        let mut j: usize = 0;
        while j < n
            invariant
                j <= n,
                n == eks@.len(),
                n == self.enc_evals@.len(),
                self.wf(),
                eks_wf(eks@),
                rhs@.len() == n + j,
                crate::algebra::group::g2_all_wf(rhs@),
                g2_views(rhs@) == self.enc_views() + ek_views(eks@).take(j as int),
            decreases n - j,
        {
            let ghost before = g2_views(rhs@);
            rhs.push(eks[j].as_group_element().clone());
            proof {
                assert(g2_views(rhs@) =~= before.push(ek_views(eks@)[j as int]));
                assert(self.enc_views() + ek_views(eks@).take(j + 1) =~= before.push(
                    ek_views(eks@)[j as int]));
            }
            j += 1;
        }
        rhs.push(pp.get_public_key_base().clone());
        rhs.push(self.u2_hat.clone());
        let ghost rhs_spec = self.enc_views() + ek_views(eks@) + seq![
            pp.pk_base_view(),
            self.u2_hat_view(),
        ];
        proof {
            assert(ek_views(eks@).take(n as int) =~= ek_views(eks@));
            assert(g1_views(lhs@) =~= lhs_spec);
            assert(g2_views(rhs@) =~= rhs_spec);
        }
        let encrypts = multi_pairing_is_identity(&lhs, &rhs);
        encrypts
    }

    /// Aggregates another transcript dealt under the same configuration into
    /// this one: point-wise group addition of every component, so the result
    /// stands for the sum of the two dealt secrets.
    pub fn aggregate_with(&mut self, sc: &ThresholdConfig, other: &Transcript)
        requires
            sc.wf(),
            old(self).wf(),
            old(self).matches_config(sc.t_spec(), sc.n_spec()),
            other.wf(),
            other.matches_config(sc.t_spec(), sc.n_spec()),
        ensures
            final(self).wf(),
            final(self).matches_config(sc.t_spec(), sc.n_spec()),
            final(self).u2_hat_view() == g2_add_spec(old(self).u2_hat_view(), other.u2_hat_view()),
            final(self).u2_hat_view() == g2_add_spec(other.u2_hat_view(), old(self).u2_hat_view()),
            forall|i: int|
                0 <= i < sc.t_spec() ==> final(self).coeff_views()[i] == g1_add_spec(
                    old(self).coeff_views()[i], other.coeff_views()[i]) && final(
                    self).coeff_views()[i] == g1_add_spec(
                    other.coeff_views()[i], old(self).coeff_views()[i]),
            forall|i: int|
                0 <= i < sc.n_spec() ==> final(self).eval_views()[i] == g1_add_spec(
                    old(self).eval_views()[i], other.eval_views()[i]) && final(
                    self).eval_views()[i] == g1_add_spec(
                    other.eval_views()[i], old(self).eval_views()[i]),
            forall|i: int|
                0 <= i < sc.n_spec() ==> final(self).enc_views()[i] == g2_add_spec(
                    old(self).enc_views()[i], other.enc_views()[i]) && final(
                    self).enc_views()[i] == g2_add_spec(
                    other.enc_views()[i], old(self).enc_views()[i]),
    {
        let t = sc.get_threshold();
        let n = sc.get_total_num_players();
        let new_u2 = g2_add(&self.u2_hat, &other.u2_hat);
        self.u2_hat = new_u2;
        proof {
            assert(g1_views(self.coeff_comms@) == old(self).coeff_views());
            lemma_g1_views_ok_wf(self.coeff_comms@);
        }
        let mut i: usize = 0;
        while i < t
            invariant
                i <= t,
                t == self.coeff_comms@.len(),
                t == other.coeff_comms@.len(),
                other.wf(),
                self.u2_hat@ == g2_add_spec(old(self).u2_hat_view(), other.u2_hat_view()),
                self.u2_hat@ == g2_add_spec(other.u2_hat_view(), old(self).u2_hat_view()),
                self.u2_hat.wf(),
                self.eval_comms@ == old(self).eval_comms@,
                self.enc_evals@ == old(self).enc_evals@,
                crate::algebra::group::g1_all_wf(self.coeff_comms@),
                forall|k: int|
                    0 <= k < i ==> (#[trigger] self.coeff_comms@[k])@ == g1_add_spec(
                        old(self).coeff_views()[k], other.coeff_views()[k]) && (
                    self.coeff_comms@[k])@ == g1_add_spec(
                        other.coeff_views()[k], old(self).coeff_views()[k]),
                forall|k: int|
                    i <= k < t ==> (#[trigger] self.coeff_comms@[k])@ == old(self).coeff_views()[k],
            decreases t - i,
        {
            proof {
                lemma_g1_views_ok_wf(other.coeff_comms@);
                assert(self.coeff_comms@[i as int].wf());
                assert(other.coeff_comms@[i as int].wf());
            }
            let added = g1_add(&self.coeff_comms[i], &other.coeff_comms[i]);
            self.coeff_comms.set(i, added);
            i += 1;
        }
        proof {
            assert(g1_views(self.eval_comms@) == old(self).eval_views());
            lemma_g1_views_ok_wf(self.eval_comms@);
        }
        let mut i: usize = 0;
        while i < n
            invariant
                i <= n,
                n == self.eval_comms@.len(),
                n == other.eval_comms@.len(),
                other.wf(),
                self.u2_hat@ == g2_add_spec(old(self).u2_hat_view(), other.u2_hat_view()),
                self.u2_hat@ == g2_add_spec(other.u2_hat_view(), old(self).u2_hat_view()),
                self.u2_hat.wf(),
                self.coeff_comms@.len() == sc.t_spec(),
                crate::algebra::group::g1_all_wf(self.coeff_comms@),
                forall|k: int|
                    0 <= k < sc.t_spec() ==> (#[trigger] self.coeff_comms@[k])@ == g1_add_spec(
                        old(self).coeff_views()[k], other.coeff_views()[k]) && (
                    self.coeff_comms@[k])@ == g1_add_spec(
                        other.coeff_views()[k], old(self).coeff_views()[k]),
                self.enc_evals@ == old(self).enc_evals@,
                crate::algebra::group::g1_all_wf(self.eval_comms@),
                forall|k: int|
                    0 <= k < i ==> (#[trigger] self.eval_comms@[k])@ == g1_add_spec(
                        old(self).eval_views()[k], other.eval_views()[k]) && (
                    self.eval_comms@[k])@ == g1_add_spec(
                        other.eval_views()[k], old(self).eval_views()[k]),
                forall|k: int|
                    i <= k < n ==> (#[trigger] self.eval_comms@[k])@ == old(self).eval_views()[k],
            decreases n - i,
        {
            proof {
                lemma_g1_views_ok_wf(other.eval_comms@);
                assert(self.eval_comms@[i as int].wf());
                assert(other.eval_comms@[i as int].wf());
            }
            let added = g1_add(&self.eval_comms[i], &other.eval_comms[i]);
            self.eval_comms.set(i, added);
            i += 1;
        }
        proof {
            assert(g2_views(self.enc_evals@) == old(self).enc_views());
            lemma_g2_views_ok_wf(self.enc_evals@);
        }
        let mut i: usize = 0;
        while i < n
            invariant
                i <= n,
                n == self.enc_evals@.len(),
                n == other.enc_evals@.len(),
                other.wf(),
                self.u2_hat@ == g2_add_spec(old(self).u2_hat_view(), other.u2_hat_view()),
                self.u2_hat@ == g2_add_spec(other.u2_hat_view(), old(self).u2_hat_view()),
                self.u2_hat.wf(),
                self.coeff_comms@.len() == sc.t_spec(),
                crate::algebra::group::g1_all_wf(self.coeff_comms@),
                forall|k: int|
                    0 <= k < sc.t_spec() ==> (#[trigger] self.coeff_comms@[k])@ == g1_add_spec(
                        old(self).coeff_views()[k], other.coeff_views()[k]) && (
                    self.coeff_comms@[k])@ == g1_add_spec(
                        other.coeff_views()[k], old(self).coeff_views()[k]),
                self.eval_comms@.len() == sc.n_spec(),
                crate::algebra::group::g1_all_wf(self.eval_comms@),
                forall|k: int|
                    0 <= k < sc.n_spec() ==> (#[trigger] self.eval_comms@[k])@ == g1_add_spec(
                        old(self).eval_views()[k], other.eval_views()[k]) && (
                    self.eval_comms@[k])@ == g1_add_spec(
                        other.eval_views()[k], old(self).eval_views()[k]),
                crate::algebra::group::g2_all_wf(self.enc_evals@),
                forall|k: int|
                    0 <= k < i ==> (#[trigger] self.enc_evals@[k])@ == g2_add_spec(
                        old(self).enc_views()[k], other.enc_views()[k]) && (
                    self.enc_evals@[k])@ == g2_add_spec(
                        other.enc_views()[k], old(self).enc_views()[k]),
                forall|k: int|
                    i <= k < n ==> (#[trigger] self.enc_evals@[k])@ == old(self).enc_views()[k],
            decreases n - i,
        {
            proof {
                lemma_g2_views_ok_wf(other.enc_evals@);
                assert(self.enc_evals@[i as int].wf());
                assert(other.enc_evals@[i as int].wf());
            }
            let added = g2_add(&self.enc_evals[i], &other.enc_evals[i]);
            self.enc_evals.set(i, added);
            i += 1;
        }
        proof {
            lemma_g1_all_wf_views(self.coeff_comms@);
            lemma_g1_all_wf_views(self.eval_comms@);
            lemma_g2_all_wf_views(self.enc_evals@);
        }
    }

    /// The dealt public key: the commitment to the constant term.
    pub fn get_dealt_public_key(&self) -> (r: DealtPubKey)
        requires
            self.wf(),
            self.coeff_views().len() >= 1,
        ensures
            r.wf(),
            r.point_view() == self.coeff_views()[0],
    {
        proof {
            lemma_g1_views_ok_wf(self.coeff_comms@);
            assert(self.coeff_comms@[0].wf());
        }
        DealtPubKey::new(self.coeff_comms[0].clone())
    }

    /// Decrypts the calling player's share: raises that player's ciphertext
    /// to the decryption key, and returns it together with the already
    /// public commitment to the player's evaluation.
    pub fn decrypt_own_share(&self, sc: &ThresholdConfig, player: &Player, dk: &DecryptPrivKey)
        -> (r: (DealtSecretKeyShare, DealtPubKeyShare))
        requires
            self.wf(),
            self.matches_config(sc.t_spec(), sc.n_spec()),
            sc.wf(),
            player.id_spec() < sc.n_spec(),
            dk.wf(),
        ensures
            r.0.wf(),
            r.0.point_view() == g2_mul_spec(self.enc_views()[player.id_spec() as int], dk.dk_val()),
            r.1.wf(),
            r.1.point_view() == self.eval_views()[player.id_spec() as int],
    {
        let i = player.get_id();
        proof {
            lemma_g2_views_ok_wf(self.enc_evals@);
            lemma_g1_views_ok_wf(self.eval_comms@);
            assert(self.enc_evals@[i as int].wf());
            assert(self.eval_comms@[i as int].wf());
        }
        let secret_share_point = g2_mul(&self.enc_evals[i], dk.as_scalar());
        let sk_share = DealtSecretKeyShare::new(DealtSecretKey::new(secret_share_point));
        let pk_share = DealtPubKeyShare::new(DealtPubKey::new(self.eval_comms[i].clone()));
        (sk_share, pk_share)
    }

    /// Generates a random-looking, well-formed transcript of the right
    /// shape. It is not a valid dealing; it exists to exercise
    /// serialization and to measure sizes.
    pub fn generate(sc: &ThresholdConfig, rng: &mut RandomSource) -> (r: Transcript)
        requires
            sc.wf(),
        ensures
            r.wf(),
            r.matches_config(sc.t_spec(), sc.n_spec()),
    {
        let t = sc.get_threshold();
        let n = sc.get_total_num_players();
        let u2_hat = random_g2_point(rng);
        let coeff_comms = random_g1_points(t, rng);
        let eval_comms = random_g1_points(n, rng);
        let enc_evals = random_g2_points(n, rng);
        proof {
            lemma_g1_all_wf_views(coeff_comms@);
            lemma_g1_all_wf_views(eval_comms@);
            lemma_g2_all_wf_views(enc_evals@);
        }
        Transcript { u2_hat, coeff_comms, eval_comms, enc_evals }
    }
}

impl PartialEq for Transcript {
    fn eq(&self, other: &Self) -> (r: bool) {
        let u2_eq = self.u2_hat.eq(&other.u2_hat);
        let coeff_eq = g1_points_eq(&self.coeff_comms, &other.coeff_comms);
        let eval_eq = g1_points_eq(&self.eval_comms, &other.eval_comms);
        let enc_eq = g2_points_eq(&self.enc_evals, &other.enc_evals);
        u2_eq && coeff_eq && eval_eq && enc_eq
    }
}

impl vstd::std_specs::cmp::PartialEqSpecImpl for Transcript {
    open spec fn obeys_eq_spec() -> bool {
        true
    }

    open spec fn eq_spec(&self, other: &Self) -> bool {
        &&& self.u2_hat_view() == other.u2_hat_view()
        &&& self.coeff_views() == other.coeff_views()
        &&& self.eval_views() == other.eval_views()
        &&& self.enc_views() == other.enc_views()
    }
}

impl Eq for Transcript {}

impl Clone for Transcript {
    fn clone(&self) -> (r: Self)
        ensures
            r.u2_hat_view() == self.u2_hat_view(),
            r.coeff_views() == self.coeff_views(),
            r.eval_views() == self.eval_views(),
            r.enc_views() == self.enc_views(),
            r.wf() == self.wf(),
    {
        let r = Transcript {
            u2_hat: self.u2_hat.clone(),
            coeff_comms: clone_g1_points(&self.coeff_comms),
            eval_comms: clone_g1_points(&self.eval_comms),
            enc_evals: clone_g2_points(&self.enc_evals),
        };
        proof {
            if !self.wf() && r.wf() {
                assert forall|i: int| 0 <= i < self.coeff_comms@.len() implies (
                #[trigger] self.coeff_comms@[i]).wf() by {
                    assert(r.coeff_comms@[i].wf());
                }
                assert forall|i: int| 0 <= i < self.eval_comms@.len() implies (
                #[trigger] self.eval_comms@[i]).wf() by {
                    assert(r.eval_comms@[i].wf());
                }
                assert forall|i: int| 0 <= i < self.enc_evals@.len() implies (
                #[trigger] self.enc_evals@[i]).wf() by {
                    assert(r.enc_evals@[i].wf());
                }
            }
        }
        r
    }
}

/// A batch domain whose size already is a power of two has the size of that
/// power: the smallest power of two at least `n` is `n` itself.
proof fn lemma_pow2_size_matches(batch: &BatchEvaluationDomain, n: nat)
    requires
        batch.wf(),
        is_pow2(n),
        n <= batch.size_spec(),
        batch.size_spec() < 2 * n,
    ensures
        batch.size_spec() == n,
{
    crate::utils::lemma_is_pow2_exists(n);
    let k = choose|k: nat| n == vstd::arithmetic::power2::pow2(k);
    if batch.log_size_spec() > k {
        vstd::arithmetic::power2::lemma_pow2_unfold(k + 1);
        if batch.log_size_spec() > k + 1 {
            vstd::arithmetic::power2::lemma_pow2_strictly_increases(k + 1, batch.log_size_spec());
        }
        assert(batch.size_spec() >= 2 * n);
        assert(false);
    }
    if batch.log_size_spec() < k {
        vstd::arithmetic::power2::lemma_pow2_strictly_increases(batch.log_size_spec(), k);
        assert(false);
    }
}

/// The round trip of the transcript bytes: the serialization of a
/// well-formed transcript parses back, segment by segment, to the same
/// components.
pub proof fn lemma_transcript_round_trip(trx: &Transcript, t: nat, n: nat)
    requires
        trx.wf(),
        trx.matches_config(t, n),
    ensures
        transcript_bytes_parseable(t, n, trx.to_bytes_spec()),
        trx.to_bytes_spec().subrange(0, 96) == trx.u2_hat_view(),
        chunk_views(trx.to_bytes_spec(), 96, 48, t as int) == trx.coeff_views(),
        chunk_views(trx.to_bytes_spec(), (96 + t * 48) as int, 48, n as int) == trx.eval_views(),
        chunk_views(trx.to_bytes_spec(), (96 + t * 48 + n * 48) as int, 96, n as int)
            == trx.enc_views(),
{
    let b = trx.to_bytes_spec();
    let fc = flatten_bytes(trx.coeff_views());
    let fa = flatten_bytes(trx.eval_views());
    let fy = flatten_bytes(trx.enc_views());
    lemma_flatten_bytes_len(trx.coeff_views(), 48);
    lemma_flatten_bytes_len(trx.eval_views(), 48);
    lemma_flatten_bytes_len(trx.enc_views(), 96);
    assert(b.len() == 96 + t * 48 + n * 48 + n * 96);
    assert(b.subrange(0, 96) =~= trx.u2_hat_view());
    assert forall|i: int| 0 <= i < t implies chunk_views(b, 96, 48, t as int)[i]
        == trx.coeff_views()[i] by {
        lemma_flatten_bytes_index(trx.coeff_views(), 48, i);
        assert(i * 48 >= 0 && i * 48 + 48 <= t * 48) by (nonlinear_arith)
            requires
                0 <= i < t,
        ;
        assert(b.subrange(96 + i * 48, 96 + i * 48 + 48) =~= fc.subrange(i * 48, i * 48 + 48));
    }
    assert(chunk_views(b, 96, 48, t as int) =~= trx.coeff_views());
    assert forall|i: int| 0 <= i < n implies chunk_views(b, (96 + t * 48) as int, 48, n as int)[i]
        == trx.eval_views()[i] by {
        lemma_flatten_bytes_index(trx.eval_views(), 48, i);
        assert(i * 48 >= 0 && i * 48 + 48 <= n * 48) by (nonlinear_arith)
            requires
                0 <= i < n,
        ;
        assert(b.subrange(96 + t * 48 + i * 48, 96 + t * 48 + i * 48 + 48) =~= fa.subrange(
            i * 48, i * 48 + 48));
    }
    assert(chunk_views(b, (96 + t * 48) as int, 48, n as int) =~= trx.eval_views());
    assert forall|i: int| 0 <= i < n implies chunk_views(
        b, (96 + t * 48 + n * 48) as int, 96, n as int)[i] == trx.enc_views()[i] by {
        lemma_flatten_bytes_index(trx.enc_views(), 96, i);
        assert(i * 96 >= 0 && i * 96 + 96 <= n * 96) by (nonlinear_arith)
            requires
                0 <= i < n,
        ;
        assert(b.subrange(96 + t * 48 + n * 48 + i * 96, 96 + t * 48 + n * 48 + i * 96 + 96)
            =~= fy.subrange(i * 96, i * 96 + 96));
    }
    assert(chunk_views(b, (96 + t * 48 + n * 48) as int, 96, n as int) =~= trx.enc_views());
}

/// The dual code word for the SCRAPE low-degree test on a polynomial of
/// degree `deg` evaluated over all `n` roots of unity: a random polynomial
/// of the complementary degree — some coefficient values `dv`, whatever the
/// randomness gave — evaluated over the covering power-of-two subdomain,
/// scaled pointwise by the inverted Lagrange denominators.
pub fn get_dual_code_word(
    deg: usize,
    batch_dom: &BatchEvaluationDomain,
    n: usize,
    rng: &mut RandomSource,
) -> (r: Vec<Scalar>)
    requires
        batch_dom.wf(),
        deg + 2 <= n,
        n as nat <= batch_dom.size_spec(),
    ensures
        r@.len() == n,
        scalars_wf(r@),
        exists|dv: Seq<nat>, m: nat| #[trigger] dual_code_word_components(
            r@, batch_dom, deg as nat, n as nat, dv, m),
{
    let mut f = random_scalars(n - deg - 2, rng);
    let ghost dv = scalar_values(f@);
    let dom = batch_dom.get_subdomain(n);
    fft_assign(&mut f, &dom);
    let f_evals = poly_slice(&f, 0, n);
    let v = all_lagrange_denominators(batch_dom, n);
    let ghost wsub = batch_dom.omega_value(
        (batch_dom.size_spec() / dom.size_spec()) % batch_dom.size_spec());
    let mut r: Vec<Scalar> = Vec::new();
    let mut i: usize = 0;
    while i < n
        invariant
            i <= n,
            n <= f_evals@.len(),
            n == v@.len(),
            batch_dom.wf(),
            scalars_wf(f_evals@),
            scalars_wf(v@),
            r@.len() == i,
            scalars_wf(r@),
            forall|k: int|
                0 <= k < n ==> (#[trigger] f_evals@[k]).value() == poly_eval_spec(
                    dv, pow_mod(wsub, k as nat)),
            forall|k: int|
                0 <= k < n ==> (#[trigger] v@[k]).value() == crate::algebra::arith::inv_mod(
                    crate::algebra::lagrange::prod_fr(
                        crate::algebra::lagrange::sub_terms(
                            first_n_points(batch_dom, n as int),
                            first_n_points(batch_dom, n as int)[k],
                            k,
                        ),
                    )),
            forall|k: int|
                0 <= k < i ==> (#[trigger] r@[k]).value() == crate::algebra::arith::mul_fr(
                    v@[k].value(), f_evals@[k].value()),
        decreases n - i,
    {
        r.push(scalar_mul(&v[i], &f_evals[i]));
        i += 1;
    }
    proof {
        assert(dual_code_word_components(
            r@, batch_dom, deg as nat, n as nat, dv, dom.size_spec()));
    }
    r
}

/// What the dual code word is made of: `dv` are the coefficient values of
/// the random dual polynomial and `m` the size of the power-of-two domain it
/// was evaluated over; entry `i` is the inverted Lagrange denominator at `i`
/// times the evaluation of `dv` at the `i`-th domain point.
pub open spec fn dual_code_word_components(
    r: Seq<Scalar>,
    batch_dom: &BatchEvaluationDomain,
    deg: nat,
    n: nat,
    dv: Seq<nat>,
    m: nat,
) -> bool {
    &&& dv.len() == n - deg - 2
    &&& n <= m <= batch_dom.size_spec()
    &&& forall|i: int|
        0 <= i < n ==> (#[trigger] r[i]).value() == crate::algebra::arith::mul_fr(
            crate::algebra::arith::inv_mod(
                crate::algebra::lagrange::prod_fr(
                    crate::algebra::lagrange::sub_terms(
                        first_n_points(batch_dom, n as int),
                        first_n_points(batch_dom, n as int)[i],
                        i,
                    ),
                ),
            ),
            poly_eval_spec(
                dv,
                pow_mod(
                    batch_dom.omega_value((batch_dom.size_spec() / m) % batch_dom.size_spec()),
                    i as nat,
                ),
            ),
        )
}

} // verus!
