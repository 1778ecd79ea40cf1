//! The configuration source capability, and the in-memory source.

use crate::error::ConfigError;
use crate::values::ConfigMap;
use crate::values::ConfigValue;
use crate::values::ValueModel;
use vstd::prelude::*;

verus! {

/// A configuration source: one origin that produces a flat key-to-value map,
/// or fails.
///
/// What a source returns may depend on the outside world (a file, the
/// environment, a remote endpoint), so `load` promises nothing about the
/// contents of a successful result, only that the map is well-formed. `name`
/// and `priority` describe the source itself.
pub trait ConfigSource {
    /// Produce the source's flat key-to-value map, or fail.
    fn load(&self) -> (r: Result<ConfigMap, ConfigError>)
        ensures
            match r {
                Ok(m) => m.wf(),
                Err(_) => true,
            },
    ;

    /// A human-readable name for this source, for error reporting.
    fn name(&self) -> String;

    /// The priority of this source; a higher priority overrides a lower one.
    fn priority(&self) -> i32;
}

/// An in-memory configuration source: it always loads the map it was built
/// with.
pub struct MapSource {
    name: String,
    priority: i32,
    values: ConfigMap,
}

impl MapSource {
    /// The map this source serves.
    pub closed spec fn spec_values(&self) -> Map<Seq<char>, ValueModel> {
        self.values@
    }

    /// The name of this source.
    pub closed spec fn spec_name(&self) -> Seq<char> {
        self.name@
    }

    /// The priority of this source.
    pub closed spec fn spec_priority(&self) -> int {
        self.priority as int
    }

    /// Create a source with an empty map.
    pub fn new(name: String, priority: i32) -> (r: Self)
        ensures
            r.spec_name() == name@,
            r.spec_priority() == priority as int,
            r.spec_values() == Map::<Seq<char>, ValueModel>::empty(),
    {
        MapSource { name, priority, values: ConfigMap::new() }
    }

    /// Add one key-value binding.
    pub fn with_value(self, key: String, value: ConfigValue) -> (r: Self)
        ensures
            r.spec_name() == self.spec_name(),
            r.spec_priority() == self.spec_priority(),
            r.spec_values() == self.spec_values().insert(key@, value.model()),
    {
        let MapSource { name, priority, values } = self;
        let mut values = values.clone();
        values.set(key, value.clone());
        MapSource { name, priority, values }
    }

}

impl ConfigSource for MapSource {
    fn load(&self) -> (r: Result<ConfigMap, ConfigError>)
        ensures
            r matches Ok(m) && m@ == self.spec_values(),
    {
        Ok(self.values.clone())
    }

    fn name(&self) -> (r: String)
        ensures
            r@ == self.spec_name(),
    {
        self.name.clone()
    }

    fn priority(&self) -> (r: i32)
        ensures
            r as int == self.spec_priority(),
    {
        self.priority
    }
}

} // verus!
