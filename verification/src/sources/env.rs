//! Environment variable configuration source descriptor.

use vstd::prelude::*;

verus! {

/// Describes an environment-variable source: variables with the given
/// prefix, with a separator marking nested keys. Enumerating the
/// environment is outside this library; the descriptor carries what the
/// merger needs.
pub struct EnvSource {
    /// Prefix for environment variables (for example `APP`).
    pub prefix: String,
    /// Separator for nested keys (for example `__`).
    pub separator: String,
    /// Priority of this source; environment variables override files by
    /// default.
    pub priority: i32,
}

impl EnvSource {
    /// Create a new environment variable source with the default priority of
    /// 300.
    pub fn new(prefix: &str, separator: &str) -> (r: Self)
        ensures
            r.prefix@ == prefix@,
            r.separator@ == separator@,
            r.priority == 300,
    {
        EnvSource { prefix: prefix.to_owned(), separator: separator.to_owned(), priority: 300 }
    }

    /// Set the priority for this source; a higher priority overrides a lower
    /// one.
    pub fn with_priority(self, priority: i32) -> (r: Self)
        ensures
            r.prefix@ == self.prefix@,
            r.separator@ == self.separator@,
            r.priority == priority,
    {
        EnvSource { priority, ..self }
    }

    /// A human-readable name for this source.
    pub fn name(&self) -> (r: String)
        ensures
            r@ == "env:"@ + self.prefix@ + "*"@,
    {
        let mut s = String::from_str("env:");
        s.append(self.prefix.as_str());
        s.append("*");
        s
    }

    /// The priority of this source.
    pub fn priority(&self) -> (r: i32)
        ensures
            r == self.priority,
    {
        self.priority
    }
}

} // verus!
