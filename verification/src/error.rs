//! Error types for configuration loading, validation, patching, and rollback.

use vstd::prelude::*;

verus! {

/// Errors that can occur when working with configuration.
#[derive(Debug)]
pub enum ConfigError {
    /// Failed to load configuration from a source.
    LoadError(String),
    /// Failed to turn a merged document into the target configuration type.
    DeserializationError(String),
    /// Configuration validation failed.
    ValidationError(String),
    /// File watching failed to initialize or operate.
    WatchError(String),
    /// Attempted to use a feature that is not enabled.
    FeatureNotEnabled(String),
    /// The configuration source does not support watching.
    WatchNotSupported,
    /// An I/O error occurred, carried as its message.
    IoError(String),
    /// Failed to parse a configuration document.
    ParseError(String),
    /// Not enough history to roll back the requested number of steps.
    InsufficientHistory {
        /// Number of steps requested to roll back.
        requested: usize,
        /// Number of historical versions available.
        available: usize,
    },
    /// A patch operation failed.
    PatchError(String),
    /// Generic error for other cases.
    Other(String),
}

/// Validation error reported by a configuration validator.
#[derive(Debug)]
pub enum ValidationError {
    /// Custom validation error with a message.
    Custom(String),
    /// A specific field has an invalid value.
    InvalidField {
        /// The field name or path.
        field: String,
        /// The reason why it is invalid.
        reason: String,
    },
    /// Multiple validation errors occurred.
    Multiple(Vec<ValidationError>),
}

impl ConfigError {
    /// Human-readable description of the error.
    pub fn message(&self) -> (r: String)
        ensures
            match self {
                ConfigError::LoadError(m) => r@ == "Failed to load configuration: "@ + m@,
                ConfigError::DeserializationError(m) => r@
                    == "Failed to deserialize configuration: "@ + m@,
                ConfigError::ValidationError(m) => r@ == "Configuration validation failed: "@
                    + m@,
                ConfigError::WatchError(m) => r@ == "File watching error: "@ + m@,
                ConfigError::FeatureNotEnabled(m) => r@ == "Feature not enabled: "@ + m@,
                ConfigError::WatchNotSupported => r@
                    == "Configuration source does not support watching"@,
                ConfigError::IoError(m) => r@ == "IO error: "@ + m@,
                ConfigError::ParseError(m) => r@ == "Failed to parse configuration: "@ + m@,
                ConfigError::InsufficientHistory { .. } => r@
                    == "Insufficient history for the requested rollback"@,
                ConfigError::PatchError(m) => r@ == "Patch operation failed: "@ + m@,
                ConfigError::Other(m) => r@ == "Configuration error: "@ + m@,
            },
    {
        match self {
            ConfigError::LoadError(m) => concat_msg("Failed to load configuration: ", m),
            ConfigError::DeserializationError(m) => concat_msg(
                "Failed to deserialize configuration: ",
                m,
            ),
            ConfigError::ValidationError(m) => concat_msg("Configuration validation failed: ", m),
            ConfigError::WatchError(m) => concat_msg("File watching error: ", m),
            ConfigError::FeatureNotEnabled(m) => concat_msg("Feature not enabled: ", m),
            ConfigError::WatchNotSupported => String::from_str(
                "Configuration source does not support watching",
            ),
            ConfigError::IoError(m) => concat_msg("IO error: ", m),
            ConfigError::ParseError(m) => concat_msg("Failed to parse configuration: ", m),
            ConfigError::InsufficientHistory { .. } => String::from_str(
                "Insufficient history for the requested rollback",
            ),
            ConfigError::PatchError(m) => concat_msg("Patch operation failed: ", m),
            ConfigError::Other(m) => concat_msg("Configuration error: ", m),
        }
    }
}

/// A prefix followed by a detail message.
fn concat_msg(prefix: &str, detail: &String) -> (r: String)
    ensures
        r@ == prefix@ + detail@,
{
    let mut s = String::from_str(prefix);
    s.append(detail.as_str());
    s
}

impl ValidationError {
    /// Create a custom validation error.
    pub fn custom(msg: String) -> (r: Self)
        ensures
            r == ValidationError::Custom(msg),
    {
        ValidationError::Custom(msg)
    }

    /// Create an invalid field error.
    pub fn invalid_field(field: String, reason: String) -> (r: Self)
        ensures
            r == (ValidationError::InvalidField { field, reason }),
    {
        ValidationError::InvalidField { field, reason }
    }

    /// What this error means: a custom message, one field's failure, or a
    /// list of nested failures, each on its own line.
    pub open spec fn spec_message(self) -> Seq<char>
        decreases self,
    {
        match self {
            ValidationError::Custom(m) => m@,
            ValidationError::InvalidField { field, reason } => "Field '"@ + field@
                + "' is invalid: "@ + reason@,
            ValidationError::Multiple(errors) => "Multiple validation errors:"@ + nested_messages(
                errors@,
            ),
        }
    }

    /// Human-readable description of what failed validation.
    pub fn message(&self) -> (r: String)
        ensures
            r@ == self.spec_message(),
        decreases self,
    {
        match self {
            ValidationError::Custom(m) => m.clone(),
            ValidationError::InvalidField { field, reason } => {
                let mut s = String::from_str("Field '");
                s.append(field.as_str());
                s.append("' is invalid: ");
                s.append(reason.as_str());
                s
            },
            ValidationError::Multiple(errors) => {
                let n = errors.len();
                let mut s = String::from_str("Multiple validation errors:");
                let mut i: usize = 0;
                while i < n
                    invariant
                        n == errors@.len(),
                        0 <= i <= n,
                        s@ == "Multiple validation errors:"@ + nested_messages(
                            errors@.take(i as int),
                        ),
                        forall|j: int|
                            0 <= j < errors@.len() ==> decreases_to!(*self => errors@[j]),
                    decreases n - i,
                {
                    s.append("\n  ");
                    let sub = errors[i].message();
                    s.append(sub.as_str());
                    proof {
                        assert(errors@.take(i + 1 as int).drop_last() =~= errors@.take(i as int));
                        assert(errors@.take(i + 1 as int).last() == errors@[i as int]);
                    }
                    i = i + 1;
                }
                proof {
                    assert(errors@.take(n as int) =~= errors@);
                }
                s
            },
        }
    }
}

/// The messages of a list of nested validation errors, each preceded by a
/// line break and indentation.
pub open spec fn nested_messages(errors: Seq<ValidationError>) -> Seq<char>
    decreases errors,
{
    if errors.len() == 0 {
        Seq::empty()
    } else {
        nested_messages(errors.drop_last()) + "\n  "@ + errors.last().spec_message()
    }
}

} // verus!
