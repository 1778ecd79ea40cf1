//! Tests for the configuration builder.

use hotswap_config::notify::subscriber::Subscriber;
use hotswap_config::sources::config_source::MapSource;
use hotswap_config::store::builder::HotswapConfigBuilder;
use hotswap_config::store::loader::ConfigLoader;
use hotswap_config::values::ConfigMap;
use hotswap_config::values::ConfigValue;

struct Noop;

impl Subscriber for Noop {
    fn notify(&self) {}
}

#[test]
fn test_builder_accumulates_files() {
    let builder = HotswapConfigBuilder::new()
        .with_file("config1.yaml")
        .with_file("config2.yaml")
        .with_file("config3.yaml");

    assert_eq!(builder.file_paths.len(), 3);
}

#[test]
fn test_builder_env_overrides() {
    let builder = HotswapConfigBuilder::new().with_env_overrides("APP", "__");

    assert_eq!(builder.env_prefix, Some("APP".to_string()));
    assert_eq!(builder.env_separator, Some("__".to_string()));
}

#[test]
fn test_builder_file_priorities() {
    let builder = HotswapConfigBuilder::new()
        .with_file("default.yaml")
        .with_file("production.yaml");

    let sources = builder.file_sources();
    assert_eq!(sources.len(), 2);
    assert_eq!(sources[0].path, "default.yaml");
    assert_eq!(sources[0].priority, 100);
    assert_eq!(sources[1].path, "production.yaml");
    assert_eq!(sources[1].priority, 110);
}

#[test]
fn test_builder_env_source() {
    let builder = HotswapConfigBuilder::new().with_env_overrides("APP", "__");
    let env = builder.env_source().unwrap();
    assert_eq!(env.prefix, "APP");
    assert_eq!(env.separator, "__");
    assert_eq!(env.priority, 300);
}

#[test]
fn test_builder_build_loads_and_validates() {
    let mut loader = ConfigLoader::new();
    loader.add_source(
        MapSource::new("defaults".to_string(), 100)
            .with_value("port".to_string(), ConfigValue::Int(8080)),
    );

    let config: hotswap_config::store::config_handle::HotswapConfig<ConfigMap, Noop> =
        HotswapConfigBuilder::new().build(&loader).unwrap();

    assert_eq!(config.get().get("port"), Some(&ConfigValue::Int(8080)));
}

#[test]
fn test_builder_build_empty_loader_fails() {
    let loader: ConfigLoader<MapSource> = ConfigLoader::new();
    let result: Result<
        hotswap_config::store::config_handle::HotswapConfig<ConfigMap, Noop>,
        _,
    > = HotswapConfigBuilder::new().build(&loader);
    assert!(result.is_err());
}
