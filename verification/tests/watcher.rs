//! Tests for the watcher state: path registry and debounce decisions.

use hotswap_config::notify::watcher::ConfigWatcher;
use hotswap_config::notify::watcher::DebounceAction;

#[test]
fn test_watcher_creation() {
    let watcher = ConfigWatcher::new(100);
    assert_eq!(watcher.debounce_duration(), 100);
}

#[test]
fn test_watch_and_unwatch_paths() {
    let mut watcher = ConfigWatcher::new(100);
    watcher.watch("config.yaml");
    watcher.watch("other.yaml");
    watcher.watch("config.yaml"); // not added twice
    assert_eq!(watcher.watched_paths(), vec!["config.yaml", "other.yaml"]);

    watcher.unwatch("config.yaml");
    assert_eq!(watcher.watched_paths(), vec!["other.yaml"]);
}

#[test]
fn test_debounce_duration() {
    let watcher = ConfigWatcher::new(500);
    assert_eq!(watcher.debounce_duration(), 500);
}

#[test]
fn test_debounce_decisions() {
    let mut watcher = ConfigWatcher::new(100);

    // The first event always triggers.
    assert!(matches!(watcher.on_event(1000), DebounceAction::TriggerNow));
    // An event inside the debounce interval is delayed by the remainder.
    assert!(matches!(watcher.on_event(1040), DebounceAction::DelayFor(60)));
    // An event after the interval triggers again.
    assert!(matches!(watcher.on_event(1100), DebounceAction::TriggerNow));
}
