//! Builder for a configuration handle: collects sources and settings, then
//! performs the initial load through the merger and the validation gate.

use crate::error::ConfigError;
use crate::notify::subscriber::Subscriber;
use crate::sources::config_source::ConfigSource;
use crate::sources::env::EnvSource;
use crate::sources::file::FileSource;
use crate::store::config_handle::HotswapConfig;
use crate::store::loader::ConfigLoader;
use crate::store::validation::Validate;
use crate::values::ConfigDocument;
use crate::values::ConfigValue;
use vstd::prelude::*;

verus! {

/// Collects configuration sources and settings for a [`HotswapConfig`].
///
/// Files are declared in order: a later file overrides an earlier one, and
/// environment variables override every file. `file_sources` and
/// `env_source` hand the assembled descriptors out, so that whatever
/// performs the I/O can feed a [`ConfigLoader`] and finish with `build`.
pub struct HotswapConfigBuilder {
    /// Configuration file paths, in declaration order.
    pub file_paths: Vec<String>,
    /// Prefix for environment variable overrides, if enabled.
    pub env_prefix: Option<String>,
    /// Separator for nested keys in environment variables, if enabled.
    pub env_separator: Option<String>,
    /// Whether the validation gate checks every candidate generation.
    pub validation: bool,
    /// Whether file changes should drive automatic reloads.
    pub enable_file_watch: bool,
    /// Minimum time between watch-triggered reloads, in milliseconds.
    pub watch_debounce_ms: u64,
}

impl HotswapConfigBuilder {
    /// Create a builder with no sources, no validation gate, and watching
    /// disabled with a half-second debounce.
    pub fn new() -> (r: Self)
        ensures
            r.file_paths@ == Seq::<String>::empty(),
            r.env_prefix is None,
            r.env_separator is None,
            !r.validation,
            !r.enable_file_watch,
            r.watch_debounce_ms == 500,
    {
        HotswapConfigBuilder {
            file_paths: Vec::new(),
            env_prefix: None,
            env_separator: None,
            validation: false,
            enable_file_watch: false,
            watch_debounce_ms: 500,
        }
    }

    /// Add a file source. Later files have higher priority and override
    /// earlier ones.
    pub fn with_file(self, path: &str) -> (r: Self)
        ensures
            r.file_paths@.len() == self.file_paths@.len() + 1,
            r.file_paths@.last()@ == path@,
            forall|i: int|
                0 <= i < self.file_paths@.len() ==> r.file_paths@[i] == self.file_paths@[i],
            r.env_prefix == self.env_prefix,
            r.env_separator == self.env_separator,
            r.validation == self.validation,
            r.enable_file_watch == self.enable_file_watch,
            r.watch_debounce_ms == self.watch_debounce_ms,
    {
        let mut file_paths = self.file_paths;
        file_paths.push(path.to_owned());
        HotswapConfigBuilder { file_paths, ..self }
    }

    /// Add environment variable overrides with the given prefix and nested
    /// key separator; they take priority over every file.
    pub fn with_env_overrides(self, prefix: &str, separator: &str) -> (r: Self)
        ensures
            r.file_paths == self.file_paths,
            r.env_prefix matches Some(p) && p@ == prefix@,
            r.env_separator matches Some(s) && s@ == separator@,
            r.validation == self.validation,
            r.enable_file_watch == self.enable_file_watch,
            r.watch_debounce_ms == self.watch_debounce_ms,
    {
        HotswapConfigBuilder {
            env_prefix: Some(prefix.to_owned()),
            env_separator: Some(separator.to_owned()),
            ..self
        }
    }

    /// Enable the validation gate: every candidate generation — the initial
    /// load included — must pass the configuration type's `validate` before
    /// it becomes visible.
    pub fn with_validation(self) -> (r: Self)
        ensures
            r == (HotswapConfigBuilder { validation: true, ..self }),
    {
        HotswapConfigBuilder { validation: true, ..self }
    }

    /// Enable or disable file watching for automatic reloads.
    pub fn with_file_watch(self, enabled: bool) -> (r: Self)
        ensures
            r == (HotswapConfigBuilder { enable_file_watch: enabled, ..self }),
    {
        HotswapConfigBuilder { enable_file_watch: enabled, ..self }
    }

    /// Set the debounce for file watching: the minimum time between reload
    /// triggers when files change rapidly.
    pub fn with_watch_debounce(self, debounce_ms: u64) -> (r: Self)
        ensures
            r == (HotswapConfigBuilder { watch_debounce_ms: debounce_ms, ..self }),
    {
        HotswapConfigBuilder { watch_debounce_ms: debounce_ms, ..self }
    }

    /// The file source descriptors, with priorities 100, 110, 120, ... in
    /// declaration order, so that a later file overrides an earlier one.
    pub fn file_sources(&self) -> (r: Vec<FileSource>)
        requires
            self.file_paths@.len() <= 1000,
        ensures
            r@.len() == self.file_paths@.len(),
            forall|i: int|
                0 <= i < r@.len() ==> (#[trigger] r@[i]).path@ == self.file_paths@[i]@ && r@[i].priority
                    == 100 + 10 * i,
    {
        let n = self.file_paths.len();
        let mut out: Vec<FileSource> = Vec::new();
        let mut i: usize = 0;
        while i < n
            invariant
                n == self.file_paths@.len(),
                n <= 1000,
                0 <= i <= n,
                out@.len() == i,
                forall|j: int|
                    0 <= j < i ==> (#[trigger] out@[j]).path@ == self.file_paths@[j]@ && out@[j].priority
                        == 100 + 10 * j,
            decreases n - i,
        {
            let priority: i32 = 100 + 10 * (i as i32);
            let source = FileSource::new(self.file_paths[i].as_str()).with_priority(priority);
            out.push(source);
            i = i + 1;
        }
        out
    }

    /// The environment source descriptor, if overrides were enabled, at the
    /// default environment priority of 300.
    pub fn env_source(&self) -> (r: Option<EnvSource>)
        ensures
            match r {
                Some(e) => (self.env_prefix matches Some(p) && e.prefix@ == p@) && (
                self.env_separator matches Some(s) && e.separator@ == s@) && e.priority == 300,
                None => self.env_prefix is None || self.env_separator is None,
            },
    {
        match (&self.env_prefix, &self.env_separator) {
            (Some(prefix), Some(separator)) => Some(
                EnvSource::new(prefix.as_str(), separator.as_str()),
            ),
            _ => None,
        }
    }

    /// Perform the initial load through the given loader and the validation
    /// gate, and build the configuration handle.
    ///
    /// Fails if the load fails, if the merged document does not match the
    /// target shape, or if the validation gate rejects the initial value.
    pub fn build<T: ConfigDocument + Validate, S: Subscriber, Src: ConfigSource>(
        self,
        loader: &ConfigLoader<Src>,
    ) -> (r: Result<HotswapConfig<T, S>, ConfigError>)
        ensures
            loader.spec_sources().len() == 0 ==> r is Err,
            r matches Ok(c) ==> {
                &&& c.wf()
                &&& c.validation_enabled() == self.validation
                &&& c.spec_watching() == self.enable_file_watch
                &&& c.registry().subscribers() == Seq::<(u64, S)>::empty()
                &&& c.notify_count() == 0
                &&& self.validation ==> c.spec_current().valid()
            },
    {
        let map = match loader.load() {
            Ok(m) => m,
            Err(e) => {
                return Err(e);
            },
        };
        let doc = ConfigValue::Table(map);
        let initial = match T::from_document(&doc) {
            Ok(c) => c,
            Err(e) => {
                return Err(e);
            },
        };
        if self.validation {
            match initial.validate() {
                Ok(()) => {},
                Err(e) => {
                    return Err(ConfigError::ValidationError(e.message()));
                },
            }
        }
        Ok(HotswapConfig::with_options(initial, self.validation, self.enable_file_watch))
    }
}

impl<T, S: Subscriber> HotswapConfig<T, S> {
    /// Create a new builder for constructing a configuration handle.
    pub fn builder() -> (r: HotswapConfigBuilder)
        ensures
            r.file_paths@ == Seq::<String>::empty(),
            r.env_prefix is None,
            r.env_separator is None,
            !r.validation,
            !r.enable_file_watch,
            r.watch_debounce_ms == 500,
    {
        HotswapConfigBuilder::new()
    }
}

} // verus!
