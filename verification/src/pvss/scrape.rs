pub mod fiat_shamir;
pub mod input_secret;
pub mod public_parameters;
pub mod transcript;

pub use crate::pvss::dealt_pub_key::DealtPubKey;
pub use crate::pvss::dealt_pub_key_share::DealtPubKeyShare;
pub use crate::pvss::dealt_secret_key::DealtSecretKey;
pub use crate::pvss::dealt_secret_key_share::DealtSecretKeyShare;
pub use input_secret::InputSecret;
pub use public_parameters::PublicParameters;
pub use transcript::Transcript;
