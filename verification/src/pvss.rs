pub mod dealt_pub_key;
pub mod dealt_pub_key_share;
pub mod dealt_secret_key;
pub mod dealt_secret_key_share;
pub mod encryption_dlog;
pub mod player;
pub mod scrape;
pub mod test_utils;
pub mod threshold_config;
pub mod traits;
pub mod weighted;

pub use player::Player;
pub use threshold_config::ThresholdConfig;
pub use weighted::WeightedConfig;
