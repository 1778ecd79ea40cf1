//! Convenient re-exports for common usage patterns.

pub use crate::error::ConfigError;
pub use crate::error::ValidationError;
pub use crate::store::builder::HotswapConfigBuilder;
pub use crate::store::config_handle::HotswapConfig;
pub use crate::store::validation::Validate;
