//! Tests for the patch mode: surgical updates addressed by structural path.

use hotswap_config::features::partial::PatchOp;
use hotswap_config::notify::subscriber::Subscriber;
use hotswap_config::store::config_handle::HotswapConfig;
use hotswap_config::values::ConfigMap;
use hotswap_config::values::ConfigValue;

struct Noop;

impl Subscriber for Noop {
    fn notify(&self) {}
}

/// The service configuration the original scenarios patch: a port, a host,
/// and a nested database table.
fn initial_config() -> ConfigMap {
    let mut database = ConfigMap::new();
    database.set(
        "url".to_string(),
        ConfigValue::Str("postgres://localhost/db".to_string()),
    );
    database.set("pool_size".to_string(), ConfigValue::Int(10));

    let mut root = ConfigMap::new();
    root.set("port".to_string(), ConfigValue::Int(8080));
    root.set("host".to_string(), ConfigValue::Str("localhost".to_string()));
    root.set("database".to_string(), ConfigValue::Table(database));
    root
}

fn replace(path: &str, value: ConfigValue) -> PatchOp {
    PatchOp {
        op: "replace".to_string(),
        path: path.to_string(),
        value: Some(value),
    }
}

#[test]
fn test_apply_patch_replace() {
    let mut config: HotswapConfig<ConfigMap, Noop> = HotswapConfig::new(initial_config());

    let patch = vec![replace("/port", ConfigValue::Int(9090))];
    config.apply_patch(&patch).unwrap();

    let updated = config.get();
    assert_eq!(updated.get("port"), Some(&ConfigValue::Int(9090)));
    assert_eq!(updated.get("host"), Some(&ConfigValue::Str("localhost".to_string())));
}

#[test]
fn test_apply_patch_nested() {
    let mut config: HotswapConfig<ConfigMap, Noop> = HotswapConfig::new(initial_config());

    let patch = vec![replace("/database/pool_size", ConfigValue::Int(20))];
    config.apply_patch(&patch).unwrap();

    match config.get().get("database") {
        Some(ConfigValue::Table(db)) => {
            assert_eq!(db.get("pool_size"), Some(&ConfigValue::Int(20)));
        }
        other => panic!("expected a table, got {:?}", other),
    }
}

#[test]
fn test_apply_patch_multiple_ops() {
    let mut config: HotswapConfig<ConfigMap, Noop> = HotswapConfig::new(initial_config());

    let patch = vec![
        replace("/port", ConfigValue::Int(9090)),
        replace("/host", ConfigValue::Str("0.0.0.0".to_string())),
    ];
    config.apply_patch(&patch).unwrap();

    let updated = config.get();
    assert_eq!(updated.get("port"), Some(&ConfigValue::Int(9090)));
    assert_eq!(updated.get("host"), Some(&ConfigValue::Str("0.0.0.0".to_string())));
}

#[test]
fn test_apply_patch_add_and_remove() {
    let mut config: HotswapConfig<ConfigMap, Noop> = HotswapConfig::new(initial_config());

    let patch = vec![
        PatchOp {
            op: "add".to_string(),
            path: "/debug".to_string(),
            value: Some(ConfigValue::Bool(true)),
        },
        PatchOp {
            op: "remove".to_string(),
            path: "/host".to_string(),
            value: None,
        },
    ];
    config.apply_patch(&patch).unwrap();

    let updated = config.get();
    assert_eq!(updated.get("debug"), Some(&ConfigValue::Bool(true)));
    assert_eq!(updated.get("host"), None);
}

#[test]
fn test_update_field() {
    let mut config: HotswapConfig<ConfigMap, Noop> = HotswapConfig::new(initial_config());

    config.update_field("/port", ConfigValue::Int(9090)).unwrap();

    assert_eq!(config.get().get("port"), Some(&ConfigValue::Int(9090)));
}

#[test]
fn test_update_nested_field() {
    let mut config: HotswapConfig<ConfigMap, Noop> = HotswapConfig::new(initial_config());

    config
        .update_field(
            "/database/url",
            ConfigValue::Str("postgres://remote/db".to_string()),
        )
        .unwrap();

    match config.get().get("database") {
        Some(ConfigValue::Table(db)) => {
            assert_eq!(
                db.get("url"),
                Some(&ConfigValue::Str("postgres://remote/db".to_string()))
            );
        }
        other => panic!("expected a table, got {:?}", other),
    }
}

#[test]
fn test_invalid_patch() {
    let mut config: HotswapConfig<ConfigMap, Noop> = HotswapConfig::new(initial_config());

    // Invalid operation
    let patch = vec![PatchOp {
        op: "invalid".to_string(),
        path: "/port".to_string(),
        value: None,
    }];

    let result = config.apply_patch(&patch);
    assert!(result.is_err());
}

#[test]
fn test_invalid_path() {
    let mut config: HotswapConfig<ConfigMap, Noop> = HotswapConfig::new(initial_config());

    let result = config.update_field("/nonexistent", ConfigValue::Int(123));
    assert!(result.is_err());
}

#[test]
fn test_malformed_path() {
    let mut config: HotswapConfig<ConfigMap, Noop> = HotswapConfig::new(initial_config());

    let result = config.update_field("port", ConfigValue::Int(123));
    assert!(result.is_err());
}

#[test]
fn test_failed_patch_leaves_config_untouched() {
    let mut config: HotswapConfig<ConfigMap, Noop> = HotswapConfig::new(initial_config());
    let before = config.get().clone();

    assert!(config.update_field("/nonexistent", ConfigValue::Int(1)).is_err());

    assert_eq!(*config.get(), before);
}
