//! Derived update modes built on the store: surgical patching, bounded
//! version history with rollback, and percentage-based canary rollout.

pub mod gradual;
pub mod partial;
pub mod rollback;
