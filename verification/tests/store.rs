//! Tests for the configuration handle: reads, updates, the validation gate,
//! and change notification.

use std::cell::Cell;
use std::rc::Rc;

use hotswap_config::error::ConfigError;
use hotswap_config::error::ValidationError;
use hotswap_config::notify::subscriber::Subscriber;
use hotswap_config::store::config_handle::HotswapConfig;
use hotswap_config::store::validation::Validate;
use hotswap_config::values::ConfigDocument;
use hotswap_config::values::ConfigMap;
use hotswap_config::values::ConfigValue;

/// A subscriber that does nothing.
struct Noop;

impl Subscriber for Noop {
    fn notify(&self) {}
}

/// A subscriber that counts how often it is notified.
struct Counter(Rc<Cell<usize>>);

impl Subscriber for Counter {
    fn notify(&self) {
        self.0.set(self.0.get() + 1);
    }
}

#[derive(Debug, Clone, PartialEq)]
struct TestConfig {
    value: i32,
}

impl Validate for TestConfig {
    fn valid(&self) -> bool {
        true
    }

    fn validate(&self) -> Result<(), ValidationError> {
        Ok(())
    }
}

/// A configuration whose port must stay in the unprivileged range.
#[derive(Debug, Clone, PartialEq)]
struct ServerConfig {
    port: u16,
}

impl Validate for ServerConfig {
    fn valid(&self) -> bool {
        self.port >= 1024
    }

    fn validate(&self) -> Result<(), ValidationError> {
        if self.port < 1024 {
            return Err(ValidationError::invalid_field(
                "port".to_string(),
                "must be >= 1024".to_string(),
            ));
        }
        Ok(())
    }
}

#[test]
fn test_create_and_read() {
    let config: HotswapConfig<TestConfig, Noop> = HotswapConfig::new(TestConfig { value: 42 });
    let cfg = config.get();
    assert_eq!(cfg.value, 42);
}

#[test]
fn test_get_idempotent() {
    let config: HotswapConfig<TestConfig, Noop> = HotswapConfig::new(TestConfig { value: 42 });
    let first = config.get().clone();
    let second = config.get().clone();
    assert_eq!(first, second);
}

#[test]
fn test_update_replaces_current() {
    let mut config: HotswapConfig<TestConfig, Noop> = HotswapConfig::new(TestConfig { value: 1 });
    config.update(TestConfig { value: 2 }).unwrap();
    assert_eq!(config.get().value, 2);
}

#[test]
fn test_validation_failure_preserves_old_config() {
    let mut config: HotswapConfig<ServerConfig, Noop> =
        HotswapConfig::with_options(ServerConfig { port: 8080 }, true, false);

    let result = config.update(ServerConfig { port: 80 });
    assert!(matches!(result, Err(ConfigError::ValidationError(_))));
    // Validation atomicity: the rejected candidate left no trace.
    assert_eq!(config.get().port, 8080);
}

#[test]
fn test_update_scenario_with_subscriber() {
    // Store initialized with {port: 8080}; update({port: 9090}) succeeds;
    // the new value is visible; a subscriber registered before the update
    // receives exactly one notification.
    let mut config: HotswapConfig<ServerConfig, Counter> =
        HotswapConfig::with_options(ServerConfig { port: 8080 }, true, false);

    let count = Rc::new(Cell::new(0));
    let _handle = config.subscribe(Counter(Rc::clone(&count)));

    config.update(ServerConfig { port: 9090 }).unwrap();

    assert_eq!(config.get().port, 9090);
    assert_eq!(count.get(), 1);
}

#[test]
fn test_no_notification_on_rejected_update() {
    let mut config: HotswapConfig<ServerConfig, Counter> =
        HotswapConfig::with_options(ServerConfig { port: 8080 }, true, false);

    let count = Rc::new(Cell::new(0));
    let _handle = config.subscribe(Counter(Rc::clone(&count)));

    assert!(config.update(ServerConfig { port: 80 }).is_err());
    assert_eq!(count.get(), 0);
}

#[test]
fn test_subscribe_and_notify() {
    let mut config: HotswapConfig<TestConfig, Counter> =
        HotswapConfig::new(TestConfig { value: 0 });
    let count = Rc::new(Cell::new(0));
    let _handle = config.subscribe(Counter(Rc::clone(&count)));

    config.update(TestConfig { value: 1 }).unwrap();
    assert_eq!(count.get(), 1);

    config.update(TestConfig { value: 2 }).unwrap();
    assert_eq!(count.get(), 2);
}

#[test]
fn test_multiple_subscribers() {
    let mut config: HotswapConfig<TestConfig, Counter> =
        HotswapConfig::new(TestConfig { value: 0 });
    let count1 = Rc::new(Cell::new(0));
    let count2 = Rc::new(Cell::new(0));
    let _h1 = config.subscribe(Counter(Rc::clone(&count1)));
    let _h2 = config.subscribe(Counter(Rc::clone(&count2)));

    config.update(TestConfig { value: 1 }).unwrap();
    assert_eq!(count1.get(), 1);
    assert_eq!(count2.get(), 1);
}

#[test]
fn test_unsubscribe() {
    let mut config: HotswapConfig<TestConfig, Counter> =
        HotswapConfig::new(TestConfig { value: 0 });
    let count = Rc::new(Cell::new(0));
    let handle = config.subscribe(Counter(Rc::clone(&count)));

    config.update(TestConfig { value: 1 }).unwrap();
    assert_eq!(count.get(), 1);

    config.unsubscribe(handle);

    config.update(TestConfig { value: 2 }).unwrap();
    // Counter should still be 1 (not incremented)
    assert_eq!(count.get(), 1);
}

#[test]
fn test_subscriber_count() {
    let mut config: HotswapConfig<TestConfig, Noop> = HotswapConfig::new(TestConfig { value: 0 });
    assert_eq!(config.subscriber_count(), 0);

    let h1 = config.subscribe(Noop);
    assert_eq!(config.subscriber_count(), 1);

    let _h2 = config.subscribe(Noop);
    assert_eq!(config.subscriber_count(), 2);

    config.unsubscribe(h1);
    assert_eq!(config.subscriber_count(), 1);
}

#[test]
fn test_is_watching() {
    let config: HotswapConfig<TestConfig, Noop> = HotswapConfig::new(TestConfig { value: 0 });
    assert!(!config.is_watching());

    let watched: HotswapConfig<TestConfig, Noop> =
        HotswapConfig::with_options(TestConfig { value: 0 }, false, true);
    assert!(watched.is_watching());
}

#[test]
fn test_validation_error_message() {
    let err = ValidationError::invalid_field("port".to_string(), "must be >= 1024".to_string());
    assert_eq!(err.message(), "Field 'port' is invalid: must be >= 1024");

    let custom = ValidationError::custom("bad".to_string());
    assert_eq!(custom.message(), "bad");
}

#[test]
fn test_config_error_messages() {
    assert_eq!(
        ConfigError::ValidationError("x".to_string()).message(),
        "Configuration validation failed: x"
    );
    assert_eq!(
        ConfigError::LoadError("y".to_string()).message(),
        "Failed to load configuration: y"
    );
    assert_eq!(
        ConfigError::WatchNotSupported.message(),
        "Configuration source does not support watching"
    );
}

#[test]
fn test_deserialization_error_on_non_table_document() {
    let result = <ConfigMap as ConfigDocument>::from_document(&ConfigValue::Int(1));
    assert!(matches!(result, Err(ConfigError::DeserializationError(_))));
}

#[test]
fn test_multiple_validation_errors_message() {
    let err = ValidationError::Multiple(vec![
        ValidationError::custom("first problem".to_string()),
        ValidationError::invalid_field("port".to_string(), "too small".to_string()),
    ]);
    assert_eq!(
        err.message(),
        "Multiple validation errors:\n  first problem\n  Field 'port' is invalid: too small"
    );
}
