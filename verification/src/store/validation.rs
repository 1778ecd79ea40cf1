//! Configuration validation support.

use crate::error::ValidationError;
use crate::values::ConfigMap;
use vstd::prelude::*;

verus! {

/// Trait for configuration validation.
///
/// Implement this trait on a configuration type to enable the validation gate:
/// every mutation path checks a candidate with `validate` before it becomes
/// visible, and discards it if validation fails.
///
/// `valid` is the mathematical meaning of the check; `validate` must accept a
/// value exactly when `valid` holds of it. An implementation outside this
/// crate is trusted to meet that contract.
pub trait Validate {
    /// Whether this value is acceptable.
    spec fn valid(&self) -> bool;

    /// Check the value, reporting why it is rejected.
    fn validate(&self) -> (r: Result<(), ValidationError>)
        ensures
            r is Ok <==> self.valid(),
    ;
}

impl Validate for ConfigMap {
    /// A raw configuration map carries no inherent validity rule of its own;
    /// every map is acceptable.
    open spec fn valid(&self) -> bool {
        true
    }

    fn validate(&self) -> Result<(), ValidationError> {
        Ok(())
    }
}

} // verus!
