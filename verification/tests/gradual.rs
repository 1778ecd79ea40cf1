//! Tests for the gradual rollout mode.

use hotswap_config::features::gradual::GradualRollout;
use hotswap_config::notify::subscriber::Subscriber;
use hotswap_config::store::config_handle::HotswapConfig;

struct Noop;

impl Subscriber for Noop {
    fn notify(&self) {}
}

#[test]
fn test_gradual_rollout_creation() {
    let rollout = GradualRollout::new(42);
    assert_eq!(*rollout.get_stable(), 42);
    assert!(!rollout.has_canary());
    assert_eq!(rollout.get_percentage(), 0);
}

#[test]
fn test_set_canary() {
    let mut rollout = GradualRollout::new(42);
    rollout.set_canary(100, 50);

    assert!(rollout.has_canary());
    assert_eq!(rollout.get_percentage(), 50);
    assert_eq!(*rollout.get_canary().unwrap(), 100);
}

#[test]
fn test_percentage_clamping() {
    let mut rollout = GradualRollout::new(42);
    rollout.set_canary(100, 150);

    assert_eq!(rollout.get_percentage(), 100);
}

#[test]
fn test_increase_percentage() {
    let mut rollout = GradualRollout::new(42);
    rollout.set_canary(100, 10);

    rollout.increase_percentage(20);
    assert_eq!(rollout.get_percentage(), 30);

    rollout.increase_percentage(80);
    assert_eq!(rollout.get_percentage(), 100);
}

#[test]
fn test_promote() {
    let mut rollout = GradualRollout::new(42);
    rollout.set_canary(100, 50);

    rollout.promote().unwrap();

    assert_eq!(*rollout.get_stable(), 100);
    assert!(!rollout.has_canary());
    assert_eq!(rollout.get_percentage(), 0);
}

#[test]
fn test_promote_without_canary() {
    let mut rollout = GradualRollout::new(42);
    let result = rollout.promote();
    assert!(result.is_err());
}

#[test]
fn test_rollback_canary() {
    let mut rollout = GradualRollout::new(42);
    rollout.set_canary(100, 50);

    rollout.rollback_canary();

    assert!(!rollout.has_canary());
    assert_eq!(rollout.get_percentage(), 0);
    assert_eq!(*rollout.get_stable(), 42);
}

#[test]
fn test_get_no_canary() {
    let rollout = GradualRollout::new(42);

    // Should always return stable
    for _ in 0..10 {
        let config = rollout.get(None);
        assert_eq!(*config, 42);
    }
}

#[test]
fn test_get_zero_percent() {
    let mut rollout = GradualRollout::new(42);
    rollout.set_canary(100, 0);

    // Should always return stable
    for _ in 0..10 {
        let config = rollout.get(None);
        assert_eq!(*config, 42);
    }
}

#[test]
fn test_get_zero_percent_thousand_trials() {
    let mut rollout = GradualRollout::new(42);
    rollout.set_canary(100, 0);

    for _ in 0..1000 {
        assert_eq!(*rollout.get(None), 42);
    }
}

#[test]
fn test_get_hundred_percent() {
    let mut rollout = GradualRollout::new(42);
    rollout.set_canary(100, 100);

    // Should always return canary
    for _ in 0..10 {
        let config = rollout.get(None);
        assert_eq!(*config, 100);
    }
}

#[test]
fn test_get_hundred_percent_thousand_trials() {
    let mut rollout = GradualRollout::new(42);
    rollout.set_canary(100, 100);

    for _ in 0..1000 {
        assert_eq!(*rollout.get(None), 100);
    }
}

#[test]
fn test_get_with_consistent_hashing() {
    let mut rollout = GradualRollout::new(42);
    rollout.set_canary(100, 50);

    // Same key should always return same config
    let key = "user123";
    let first = *rollout.get(Some(key));
    for _ in 0..10 {
        let config = rollout.get(Some(key));
        assert_eq!(*config, first);
    }
}

#[test]
fn test_consistent_hashing_hundred_calls() {
    let mut rollout = GradualRollout::new(1);
    rollout.set_canary(2, 37);

    let first = *rollout.get(Some("fixed-key"));
    for _ in 0..100 {
        assert_eq!(*rollout.get(Some("fixed-key")), first);
    }
}

#[test]
fn test_hotswap_config_integration() {
    let config: HotswapConfig<i32, Noop> = HotswapConfig::new(42);
    let rollout = config.enable_gradual_rollout();

    assert_eq!(*rollout.get_stable(), 42);
}

#[test]
fn test_gradual_rollout_distribution() {
    let mut rollout = GradualRollout::new(42);
    rollout.set_canary(100, 50);

    // Test that roughly 50% get canary (with randomness)
    let mut canary_count = 0;
    let iterations = 1000;

    for _ in 0..iterations {
        let config = rollout.get(None);
        if *config != 42 {
            canary_count += 1;
        }
    }

    // Should be roughly 50/50 (allow 40-60% range due to randomness)
    let canary_percentage = (canary_count * 100) / iterations;
    assert!((40..=60).contains(&canary_percentage));
}
