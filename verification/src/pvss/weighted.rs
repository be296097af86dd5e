pub mod weighted_config;
pub mod weighting;

pub use weighted_config::WeightedConfig;
pub use weighting::{Weighted, Wrapped};
