//! Zero-downtime configuration management: one current configuration
//! generation behind an atomic replace, multi-source precedence merging, a
//! validation gate in front of every mutation path, change notification
//! after every successful swap, and three derived update modes — surgical
//! patching, bounded version history with rollback, and percentage-based
//! canary rollout.
//!
//! Every mutation path (manual update, reload, patch, rollback) funnels
//! through the same validation gate: a rejected candidate is discarded whole
//! and a reader cannot tell the attempt ever happened. Reading and parsing
//! the origins themselves — files, the environment, remote endpoints — is
//! left to the embedding program, which hands this library plain values
//! through the source capability in [`sources::config_source`].

pub mod error;
pub mod features;
pub mod notify;
pub mod prelude;
pub mod sources;
pub mod store;
pub mod values;
