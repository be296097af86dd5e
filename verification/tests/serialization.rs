//! Byte round trips and rejection of malformed input.

use aptos_dkg::pvss::scrape::{PublicParameters, Transcript};
use aptos_dkg::pvss::test_utils::get_threshold_config_and_rng;
use aptos_dkg::CryptoMaterialError;

#[test]
fn transcript_serialization() {
    let (sc, mut rng) = get_threshold_config_and_rng(10, 20);

    let trx = Transcript::generate(&sc, &mut rng);

    let serialized = trx.to_bytes();
    let deserialized = Transcript::from_bytes(&sc, serialized.as_slice())
        .expect("serialized SCRAPE transcript should deserialize correctly");

    assert_eq!(trx, deserialized);
}

#[test]
fn transcript_deserialization_rejects_wrong_length() {
    let (sc, mut rng) = get_threshold_config_and_rng(2, 3);
    let trx = Transcript::generate(&sc, &mut rng);
    let mut serialized = trx.to_bytes();
    serialized.pop();
    assert_eq!(
        Transcript::from_bytes(&sc, serialized.as_slice()).unwrap_err(),
        CryptoMaterialError::WrongLengthError
    );
}

#[test]
fn transcript_deserialization_rejects_invalid_points() {
    let (sc, _rng) = get_threshold_config_and_rng(2, 3);
    // The right length, but all-0xff bytes are no canonical point encoding.
    let bogus = vec![0xffu8; 96 + 2 * 48 + 3 * 48 + 3 * 96];
    assert_eq!(
        Transcript::from_bytes(&sc, bogus.as_slice()).unwrap_err(),
        CryptoMaterialError::DeserializationError
    );
}

#[test]
fn public_parameters_round_trip() {
    let pp = PublicParameters::default();
    let bytes = pp.to_bytes();
    assert_eq!(bytes.len(), 240);
    let restored = PublicParameters::from_bytes(bytes.as_slice())
        .expect("serialized public parameters should deserialize correctly");
    assert_eq!(restored.to_bytes(), bytes);

    // The three bases are pairwise distinct points.
    assert_ne!(bytes[0..96], bytes[96..192]);

    // Wrong length and malformed bytes are rejected.
    assert_eq!(
        PublicParameters::from_bytes(&bytes[1..]).unwrap_err(),
        CryptoMaterialError::WrongLengthError
    );
    let bogus = vec![0xffu8; 240];
    assert_eq!(
        PublicParameters::from_bytes(bogus.as_slice()).unwrap_err(),
        CryptoMaterialError::DeserializationError
    );
}

#[test]
fn public_parameters_depend_on_seed() {
    let pp1 = PublicParameters::new_from_seed(&vec![1u8, 2, 3]);
    let pp2 = PublicParameters::new_from_seed(&vec![1u8, 2, 4]);
    assert_ne!(pp1.to_bytes(), pp2.to_bytes());
}
