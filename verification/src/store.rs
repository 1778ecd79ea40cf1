//! The concurrent configuration store and its reload, validation, and
//! notification pipeline.

pub mod builder;
pub mod config_handle;
pub mod loader;
pub mod validation;
