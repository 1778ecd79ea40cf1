//! Tests for the merger: precedence, flat overwrite, and source ordering.

use hotswap_config::error::ConfigError;
use hotswap_config::notify::subscriber::Subscriber;
use hotswap_config::store::config_handle::HotswapConfig;
use hotswap_config::sources::config_source::MapSource;
use hotswap_config::store::loader::ConfigLoader;
use hotswap_config::values::ConfigValue;

#[test]
fn test_empty_loader() {
    let loader: ConfigLoader<MapSource> = ConfigLoader::new();
    let result = loader.load();
    assert!(result.is_err());
}

#[test]
fn test_single_source() {
    let mut loader = ConfigLoader::new();
    let source = MapSource::new("test".to_string(), 100)
        .with_value("port".to_string(), ConfigValue::Int(8080))
        .with_value("host".to_string(), ConfigValue::Str("localhost".to_string()));
    loader.add_source(source);

    let config = loader.load().unwrap();
    assert_eq!(config.get("port"), Some(&ConfigValue::Int(8080)));
    assert_eq!(config.get("host"), Some(&ConfigValue::Str("localhost".to_string())));
}

#[test]
fn test_precedence() {
    let mut loader = ConfigLoader::new();

    // Lower priority source (default values)
    let source1 = MapSource::new("default".to_string(), 100)
        .with_value("port".to_string(), ConfigValue::Int(8080))
        .with_value("host".to_string(), ConfigValue::Str("localhost".to_string()));

    // Higher priority source (overrides)
    let source2 = MapSource::new("override".to_string(), 200)
        .with_value("port".to_string(), ConfigValue::Int(9090));

    loader.add_source(source1);
    loader.add_source(source2);

    let config = loader.load().unwrap();
    assert_eq!(config.get("port"), Some(&ConfigValue::Int(9090))); // Overridden
    assert_eq!(config.get("host"), Some(&ConfigValue::Str("localhost".to_string()))); // From default
}

#[test]
fn test_precedence_tie_later_declared_wins() {
    let mut loader = ConfigLoader::new();
    loader.add_source(
        MapSource::new("first".to_string(), 100)
            .with_value("key".to_string(), ConfigValue::Int(1)),
    );
    loader.add_source(
        MapSource::new("second".to_string(), 100)
            .with_value("key".to_string(), ConfigValue::Int(2))
            .with_value("other_key".to_string(), ConfigValue::Int(2)),
    );

    let config = loader.load().unwrap();
    assert_eq!(config.get("key"), Some(&ConfigValue::Int(2)));
    assert_eq!(config.get("other_key"), Some(&ConfigValue::Int(2)));
}

#[test]
fn test_flat_overwrite_not_deep_merge() {
    // A higher-priority source that sets a structured key fully replaces the
    // lower-priority sub-tree; nothing of the old table survives.
    let mut low_table = MapSource::new("low".to_string(), 100);
    let mut nested = hotswap_config::values::ConfigMap::new();
    nested.set("url".to_string(), ConfigValue::Str("postgres://localhost/db".to_string()));
    nested.set("pool_size".to_string(), ConfigValue::Int(10));
    low_table = low_table.with_value("database".to_string(), ConfigValue::Table(nested));

    let mut high_nested = hotswap_config::values::ConfigMap::new();
    high_nested.set("pool_size".to_string(), ConfigValue::Int(20));
    let high_table = MapSource::new("high".to_string(), 200)
        .with_value("database".to_string(), ConfigValue::Table(high_nested));

    let mut loader = ConfigLoader::new();
    loader.add_source(low_table);
    loader.add_source(high_table);

    let config = loader.load().unwrap();
    match config.get("database") {
        Some(ConfigValue::Table(t)) => {
            assert_eq!(t.get("pool_size"), Some(&ConfigValue::Int(20)));
            // The lower-priority sub-tree is fully replaced, not merged.
            assert_eq!(t.get("url"), None);
        }
        other => panic!("expected a table, got {:?}", other),
    }
}

#[test]
fn test_source_names() {
    let mut loader = ConfigLoader::new();
    loader.add_source(MapSource::new("source1".to_string(), 100));
    loader.add_source(MapSource::new("source2".to_string(), 200));
    loader.add_source(MapSource::new("source3".to_string(), 50));

    let names = loader.source_names();
    // Should be sorted by priority
    assert_eq!(names, vec!["source3", "source1", "source2"]);
}

#[test]
fn test_load_error_names_failing_source() {
    struct FailingSource;
    impl hotswap_config::sources::config_source::ConfigSource for FailingSource {
        fn load(
            &self,
        ) -> Result<hotswap_config::values::ConfigMap, ConfigError> {
            Err(ConfigError::Other("boom".to_string()))
        }
        fn name(&self) -> String {
            "broken".to_string()
        }
        fn priority(&self) -> i32 {
            100
        }
    }

    let mut loader = ConfigLoader::new();
    loader.add_source(FailingSource);
    match loader.load() {
        Err(ConfigError::LoadError(msg)) => {
            assert!(msg.contains("broken"));
        }
        other => panic!("expected a load error, got ok={:?}", other.is_ok()),
    }
}

#[test]
fn test_reload() {
    struct Noop;
    impl Subscriber for Noop {
        fn notify(&self) {}
    }

    let mut first = ConfigLoader::new();
    first.add_source(
        MapSource::new("file".to_string(), 100)
            .with_value("port".to_string(), ConfigValue::Int(8080)),
    );
    let mut config: HotswapConfig<hotswap_config::values::ConfigMap, Noop> =
        hotswap_config::store::builder::HotswapConfigBuilder::new()
            .build(&first)
            .unwrap();
    assert_eq!(config.get().get("port"), Some(&ConfigValue::Int(8080)));

    // The source now serves a changed document; a manual reload picks it up.
    let mut second = ConfigLoader::new();
    second.add_source(
        MapSource::new("file".to_string(), 100)
            .with_value("port".to_string(), ConfigValue::Int(9090)),
    );
    config.reload(&second).unwrap();
    assert_eq!(config.get().get("port"), Some(&ConfigValue::Int(9090)));
}
