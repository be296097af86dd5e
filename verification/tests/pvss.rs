//! Scheme-level exercises: dealing, verification, reconstruction,
//! aggregation, tampering, and transcript sizes.

use aptos_dkg::constants::{
    dst_pvss_testing_app, G1_PROJ_NUM_BYTES, G2_PROJ_NUM_BYTES,
};
use aptos_dkg::pvss::dealt_secret_key::DealtSecretKey;
use aptos_dkg::pvss::scrape::Transcript;
use aptos_dkg::pvss::test_utils::{get_threshold_config_and_rng, setup_dealing};
use aptos_dkg::pvss::{Player, ThresholdConfig};
use aptos_dkg::utils::random::RandomSource;
use aptos_dkg::pvss::dealt_secret_key_share::DealtSecretKeyShare;
use aptos_dkg::algebra::evaluation_domain::BatchEvaluationDomain;
use aptos_dkg::algebra::fft::fft_assign;
use aptos_dkg::algebra::scalar::{scalar_add, scalar_mul, Scalar};
use aptos_dkg::pvss::scrape::transcript::get_dual_code_word;
use aptos_dkg::utils::random::random_scalars;

fn get_threshold_configs_for_testing() -> Vec<ThresholdConfig> {
    let mut scs = vec![];

    for t in [1usize, 2, 3, 4, 5, 6, 7, 8] {
        for n in t..3 * (t - 1) + 1 {
            scs.push(ThresholdConfig::new(t, n))
        }
    }

    scs
}

/// 1. Deals a secret, creating a transcript.
/// 2. Verifies the transcript.
/// 3. Checks that a sufficiently large random subset of the players can
///    recover the dealt secret.
fn pvss_deal_verify_and_reconstruct(sc: &ThresholdConfig) {
    let mut rng = RandomSource::new();
    let (pp, dks, eks, s, sk) = setup_dealing(sc, &mut rng);
    let dst = dst_pvss_testing_app();

    let trx = Transcript::deal(sc, &pp, &eks, s, &dst, &mut rng);
    assert!(trx.verify(sc, &pp, &eks, &dst));

    // Reconstruction from t random shares.
    let players_and_shares = sc
        .get_random_subset_of_capable_players(&mut rng)
        .into_iter()
        .map(|p| {
            let (sk_share, _) = trx.decrypt_own_share(sc, &p, &dks[p.get_id()]);
            (p, sk_share)
        })
        .collect::<Vec<(Player, DealtSecretKeyShare)>>();

    let sk_reconstruct = DealtSecretKey::reconstruct(sc, &players_and_shares);

    assert_eq!(sk, sk_reconstruct);
}

#[test]
fn all_pvss_bvt() {
    for sc in get_threshold_configs_for_testing() {
        pvss_deal_verify_and_reconstruct(&sc);
    }
}

#[test]
fn scrape_transcript_size() {
    for (t, n) in [(333usize, 1_000usize), (3_333, 10_000)] {
        let (sc, mut rng) = get_threshold_config_and_rng(t, n);
        let trx = Transcript::generate(&sc, &mut rng);
        let actual_size = trx.to_bytes().len();
        let expected_size =
            G2_PROJ_NUM_BYTES + n * (G2_PROJ_NUM_BYTES + G1_PROJ_NUM_BYTES) + t * G1_PROJ_NUM_BYTES;
        println!("Actual   transcript size for {t}-out-of-{n}: {actual_size} bytes");
        println!("Expected transcript size for {t}-out-of-{n}: {expected_size} bytes");
        assert_eq!(actual_size, expected_size);
    }
}

#[test]
fn one_out_of_one_dealing() {
    let sc = ThresholdConfig::new(1, 1);
    let mut rng = RandomSource::new();
    let (pp, dks, eks, s, sk) = setup_dealing(&sc, &mut rng);
    let dst = dst_pvss_testing_app();
    let trx = Transcript::deal(&sc, &pp, &eks, s, &dst, &mut rng);
    assert!(trx.verify(&sc, &pp, &eks, &dst));
    let player = sc.get_player(0);
    let (share, _) = trx.decrypt_own_share(&sc, &player, &dks[0]);
    let sk_reconstruct = DealtSecretKey::reconstruct(&sc, &vec![(player, share)]);
    assert_eq!(sk, sk_reconstruct);
}

#[test]
fn concrete_ten_out_of_twenty_scenario() {
    let sc = ThresholdConfig::new(10, 20);
    let mut rng = RandomSource::new();
    let (pp, dks, eks, s, sk) = setup_dealing(&sc, &mut rng);
    let dst = dst_pvss_testing_app();
    let trx = Transcript::deal(&sc, &pp, &eks, s, &dst, &mut rng);
    assert!(trx.verify(&sc, &pp, &eks, &dst));

    // Reconstruct from exactly 10 of the 20 players, twice, with different
    // random subsets.
    for _ in 0..2 {
        let players_and_shares = sc
            .get_random_subset_of_capable_players(&mut rng)
            .into_iter()
            .map(|p| {
                let (sk_share, _) = trx.decrypt_own_share(&sc, &p, &dks[p.get_id()]);
                (p, sk_share)
            })
            .collect::<Vec<(Player, DealtSecretKeyShare)>>();
        assert_eq!(players_and_shares.len(), 10);
        let sk_reconstruct = DealtSecretKey::reconstruct(&sc, &players_and_shares);
        assert_eq!(sk, sk_reconstruct);
    }
}

#[test]
fn tampered_transcript_does_not_verify() {
    let sc = ThresholdConfig::new(2, 3);
    let mut rng = RandomSource::new();
    let (pp, _dks, eks, s, _sk) = setup_dealing(&sc, &mut rng);
    let dst = dst_pvss_testing_app();
    let trx = Transcript::deal(&sc, &pp, &eks, s, &dst, &mut rng);
    assert!(trx.verify(&sc, &pp, &eks, &dst));

    let bytes = trx.to_bytes();
    for pos in 0..bytes.len() {
        let mut tampered = bytes.clone();
        tampered[pos] ^= 1;
        match Transcript::from_bytes(&sc, tampered.as_slice()) {
            // The flipped byte may break the point encoding entirely; if it
            // does not, the transcript must no longer verify.
            Ok(bad) => assert!(!bad.verify(&sc, &pp, &eks, &dst)),
            Err(_) => {}
        }
    }

    // A mismatched encryption-key vector must not verify either.
    let mut rng2 = RandomSource::new();
    let (_, _, other_eks, _, _) = setup_dealing(&sc, &mut rng2);
    assert!(!trx.verify(&sc, &pp, &other_eks, &dst));
}

#[test]
fn aggregation_homomorphism() {
    let sc = ThresholdConfig::new(3, 7);
    let mut rng = RandomSource::new();
    let (pp, dks, eks, s1, sk1) = setup_dealing(&sc, &mut rng);
    let dst = dst_pvss_testing_app();
    let trx1 = Transcript::deal(&sc, &pp, &eks, s1, &dst, &mut rng);

    let s2 = aptos_dkg::pvss::scrape::InputSecret::generate(&mut rng);
    let sk2 = s2.to_dealt_secret_key(&pp);
    let trx2 = Transcript::deal(&sc, &pp, &eks, s2, &dst, &mut rng);

    let mut combined = trx1.clone();
    combined.aggregate_with(&sc, &trx2);
    assert!(combined.verify(&sc, &pp, &eks, &dst));

    // Reconstructing the aggregate yields the dealt key of the *sum* of the
    // two secrets: the group sum of the two dealt keys.
    let players_and_shares = sc
        .get_random_subset_of_capable_players(&mut rng)
        .into_iter()
        .map(|p| {
            let (sk_share, _) = combined.decrypt_own_share(&sc, &p, &dks[p.get_id()]);
            (p, sk_share)
        })
        .collect::<Vec<(Player, DealtSecretKeyShare)>>();
    let sk_reconstruct = DealtSecretKey::reconstruct(&sc, &players_and_shares);

    let p1 = blstrs::G2Projective::from_compressed(
        sk1.to_bytes().as_slice().try_into().unwrap(),
    )
    .unwrap();
    let p2 = blstrs::G2Projective::from_compressed(
        sk2.to_bytes().as_slice().try_into().unwrap(),
    )
    .unwrap();
    let expected = (p1 + p2).to_compressed().to_vec();
    assert_eq!(sk_reconstruct.to_bytes(), expected);
}

#[test]
fn dual_code_word_test() {
    let (sc, mut rng) = get_threshold_config_and_rng(10, 20);
    let t = sc.get_threshold();
    let n = sc.get_total_num_players();

    // The degree t-1 polynomial that shares our secret.
    let mut p = random_scalars(t, &mut rng);
    let batch_dom = BatchEvaluationDomain::new(n);

    // Compute p at every root of unity.
    let dom = batch_dom.get_subdomain(n);
    fft_assign(&mut p, &dom);
    p.truncate(n);

    let vf = get_dual_code_word(t - 1, &batch_dom, n, &mut rng);

    // The inner product of the evaluations with the dual code word is zero.
    let mut sum = Scalar::zero();
    for i in 0..n {
        sum = scalar_add(&sum, &scalar_mul(&p[i], &vf[i]));
    }
    assert_eq!(sum, Scalar::zero());
}
