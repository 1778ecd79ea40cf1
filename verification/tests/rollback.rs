//! Tests for the history mode: recording, bounded eviction, and rollback.

use hotswap_config::error::ConfigError;
use hotswap_config::error::ValidationError;
use hotswap_config::features::rollback::ConfigHistory;
use hotswap_config::notify::subscriber::Subscriber;
use hotswap_config::store::config_handle::HotswapConfig;
use hotswap_config::store::validation::Validate;

struct Noop;

impl Subscriber for Noop {
    fn notify(&self) {}
}

#[derive(Debug, Clone, PartialEq)]
struct Num(i32);

impl Validate for Num {
    fn valid(&self) -> bool {
        true
    }

    fn validate(&self) -> Result<(), ValidationError> {
        Ok(())
    }
}

#[test]
fn test_history_creation() {
    let history: ConfigHistory<i32> = ConfigHistory::new(5);
    assert_eq!(history.len(), 0);
    assert!(history.is_empty());
}

#[test]
fn test_record_and_retrieve() {
    let mut history = ConfigHistory::new(5);

    history.record(1, Some("First".to_string()));
    history.record(2, Some("Second".to_string()));

    assert_eq!(history.len(), 2);

    let version = history.get_version(0).unwrap();
    assert_eq!(version.config, 1);

    let version = history.get_version(1).unwrap();
    assert_eq!(version.config, 2);
}

#[test]
fn test_max_size_limit() {
    let mut history = ConfigHistory::new(3);

    for i in 0..5 {
        history.record(i, None);
    }

    assert_eq!(history.len(), 3);

    // Should have versions 2, 3, 4 (oldest dropped)
    assert!(history.get_version(0).is_none());
    assert!(history.get_version(1).is_none());
    assert!(history.get_version(2).is_some());
}

#[test]
fn test_rollback_steps() {
    let mut history = ConfigHistory::new(5);

    history.record(10, None);
    history.record(20, None);
    history.record(30, None);

    let config = history.rollback_steps(1).unwrap();
    assert_eq!(*config, 20);

    let config = history.rollback_steps(2).unwrap();
    assert_eq!(*config, 10);
}

#[test]
fn test_rollback_steps_exceeds_history() {
    let mut history = ConfigHistory::new(5);

    history.record(10, None);
    history.record(20, None);

    let config = history.rollback_steps(5);
    assert!(config.is_none());
}

#[test]
fn test_get_recent() {
    let mut history = ConfigHistory::new(10);

    for i in 0..5 {
        history.record(i, None);
    }

    let recent = history.get_recent(3);
    assert_eq!(recent.len(), 3);
    assert_eq!(recent[0].config, 4);
    assert_eq!(recent[1].config, 3);
    assert_eq!(recent[2].config, 2);
}

#[test]
fn test_get_all() {
    let mut history = ConfigHistory::new(10);
    history.record(1, None);
    history.record(2, None);

    let all = history.get_all();
    assert_eq!(all.len(), 2);
    assert_eq!(all[0].config, 1);
    assert_eq!(all[1].config, 2);
}

#[test]
fn test_current_version() {
    let mut history = ConfigHistory::new(5);

    history.record(1, None);
    assert_eq!(history.current_version(), 0);

    history.record(2, None);
    assert_eq!(history.current_version(), 1);
}

#[test]
fn test_hotswap_config_rollback() {
    let mut config: HotswapConfig<Num, Noop> = HotswapConfig::new(Num(10));
    let mut history = config.enable_history(5);

    // Make some updates
    config.update(Num(20)).unwrap();
    history.record(config.get().clone(), Some("Update to 20".to_string()));

    config.update(Num(30)).unwrap();
    history.record(config.get().clone(), Some("Update to 30".to_string()));

    // Current should be 30
    assert_eq!(*config.get(), Num(30));

    // Rollback 1 step (to 20)
    config.rollback(&mut history, 1).unwrap();
    assert_eq!(*config.get(), Num(20));
}

#[test]
fn test_rollback_scenario_capacity_three() {
    // History capacity 3; record four generations v0..v3; rolling back one
    // step from the latest returns v2's generation; version 0 has been
    // evicted and is unrecoverable.
    let mut history = ConfigHistory::new(3);
    history.record("v0".to_string(), None);
    history.record("v1".to_string(), None);
    history.record("v2".to_string(), None);
    history.record("v3".to_string(), None);

    assert_eq!(history.rollback_steps(1), Some(&"v2".to_string()));
    assert!(history.rollback_to_version(0).is_none());
    assert_eq!(history.rollback_to_version(1), Some(&"v1".to_string()));
}

#[test]
fn test_rollback_is_append_only() {
    let mut config: HotswapConfig<Num, Noop> = HotswapConfig::new(Num(1));
    let mut history: ConfigHistory<Num> = ConfigHistory::new(10);
    history.record(Num(1), None);
    history.record(Num(2), None);

    config.rollback(&mut history, 1).unwrap();

    // The rollback added a new entry pointing at old data; prior entries
    // still stand.
    assert_eq!(history.len(), 3);
    assert_eq!(history.get_version(0).unwrap().config, Num(1));
    assert_eq!(history.get_version(1).unwrap().config, Num(2));
    assert_eq!(history.get_version(2).unwrap().config, Num(1));
    assert_eq!(*config.get(), Num(1));
}

#[test]
fn test_insufficient_history_error_carries_counts() {
    let mut config: HotswapConfig<Num, Noop> = HotswapConfig::new(Num(1));
    let mut history: ConfigHistory<Num> = ConfigHistory::new(5);
    history.record(Num(1), None);

    match config.rollback(&mut history, 7) {
        Err(ConfigError::InsufficientHistory {
            requested,
            available,
        }) => {
            assert_eq!(requested, 7);
            assert_eq!(available, 1);
        }
        other => panic!("expected an insufficient-history error, got ok={}", other.is_ok()),
    }
    // Nothing changed.
    assert_eq!(*config.get(), Num(1));
    assert_eq!(history.len(), 1);
}
