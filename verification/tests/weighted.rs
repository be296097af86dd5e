//! The weighted transform: dealing, verification and reconstruction where
//! players carry integer weights.

use aptos_dkg::constants::dst_pvss_testing_app;
use aptos_dkg::pvss::dealt_secret_key_share::DealtSecretKeyShare;
use aptos_dkg::pvss::weighted::{Weighted, WeightedConfig, Wrapped};
use aptos_dkg::pvss::scrape::Transcript;
use aptos_dkg::pvss::test_utils::setup_dealing;
use aptos_dkg::pvss::{Player, ThresholdConfig};
use aptos_dkg::utils::random::RandomSource;

#[test]
fn weighted_config_virtual_players() {
    // Weights [2, 4, 3]: player 0 owns slots [0, 2), player 1 owns [2, 6),
    // player 2 owns [6, 9).
    let sc = WeightedConfig::new(5, 3, vec![2, 4, 3]);
    assert_eq!(sc.get_total_weight(), 9);
    assert_eq!(sc.get_threshold_weight(), 5);
    assert_eq!(sc.get_total_num_players(), 3);
    let p1 = sc.get_player(1);
    assert_eq!(sc.get_player_weight(&p1), 4);
    assert_eq!(sc.get_virtual_player(&p1, 0).get_id(), 2);
    assert_eq!(sc.get_virtual_player(&p1, 3).get_id(), 5);
    let p2 = sc.get_player(2);
    assert_eq!(sc.get_virtual_player(&p2, 2).get_id(), 8);
}

#[test]
fn weighted_deal_verify_and_reconstruct() {
    let weights = vec![2usize, 1, 3];
    let threshold_weight = 3;
    let n = weights.len();
    let sc = WeightedConfig::new(threshold_weight, n, weights.clone());
    let total_weight = sc.get_total_weight();

    let mut rng = RandomSource::new();
    // Key pairs live per real player; the inner dealing sees the duplicated
    // keys.
    let inner_tc = ThresholdConfig::new(1, n);
    let (pp, dks, eks, _s, _sk) = setup_dealing(&inner_tc, &mut rng);

    let s = Wrapped::generate(&mut rng);
    let sk = s.to_dealt_secret_key(&pp);
    let dst = dst_pvss_testing_app();

    let trx: Weighted<Transcript> = Weighted::deal(&sc, &pp, &eks, s, &dst, &mut rng);
    assert!(trx.verify(&sc, &pp, &eks, &dst));
    assert_eq!(trx.to_bytes().len(), 96 + threshold_weight * 48 + total_weight * (48 + 96));

    // Players 0 and 2 have combined weight 5 >= 3: they reconstruct.
    let mut shares: Vec<(Player, Vec<DealtSecretKeyShare>)> = Vec::new();
    for pid in [0usize, 2] {
        let player = sc.get_player(pid);
        let (sk_shares, pk_shares) = trx.decrypt_own_share(&sc, &player, &dks[pid]);
        assert_eq!(sk_shares.len(), weights[pid]);
        assert_eq!(pk_shares.len(), weights[pid]);
        shares.push((player, sk_shares));
    }
    let reconstructed = Wrapped::reconstruct(&sc, &shares);
    assert_eq!(reconstructed.into_key(), sk.into_key());
}

#[test]
fn weighted_transcript_round_trip() {
    let sc = WeightedConfig::new(3, 3, vec![2, 1, 3]);
    let mut rng = RandomSource::new();
    let trx = Weighted::<Transcript>::generate(&sc, &mut rng);
    let bytes = trx.to_bytes();
    let restored = Weighted::<Transcript>::from_bytes(&sc, bytes.as_slice())
        .expect("serialized weighted transcript should deserialize correctly");
    assert_eq!(restored.to_bytes(), bytes);
}
