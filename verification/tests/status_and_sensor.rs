use doorstate::sensor::{door_is_open, SensorWatcher};
use doorstate::status::{StatusStore, Tuerstatus};

#[test]
fn store_starts_closed_at_the_given_time() {
    let store = StatusStore::new(1234);
    let status = store.read();
    assert_eq!(status.door_open, false);
    assert_eq!(status.timestamp, 1234);
    assert_eq!(status.flti_only, None);
}

#[test]
fn replace_swaps_the_whole_value() {
    let mut store = StatusStore::new(10);
    let new_status = Tuerstatus { flti_only: Some(true), door_open: true, timestamp: 99 };
    store.replace(new_status);
    assert_eq!(store.read(), new_status);
}

#[test]
fn replace_takes_an_older_timestamp_too() {
    let mut store = StatusStore::new(5000);
    store.replace(Tuerstatus { flti_only: None, door_open: true, timestamp: 6000 });
    store.replace(Tuerstatus { flti_only: None, door_open: false, timestamp: 100 });
    assert_eq!(store.read(), Tuerstatus { flti_only: None, door_open: false, timestamp: 100 });
}

#[test]
fn read_does_not_change_the_store() {
    let store = StatusStore::new(7);
    assert_eq!(store.read(), store.read());
}

#[test]
fn low_level_means_open() {
    assert!(door_is_open(0));
    assert!(!door_is_open(1));
    assert!(!door_is_open(2));
}

#[test]
fn start_publishes_the_state_at_start() {
    let (_, first) = SensorWatcher::start(0);
    assert_eq!(first, true);
    let (_, first) = SensorWatcher::start(1);
    assert_eq!(first, false);
}

#[test]
fn identical_samples_publish_nothing_then_open_publishes_once() {
    let (mut watcher, first) = SensorWatcher::start(1);
    assert_eq!(first, false);
    assert_eq!(watcher.observe(Some(1)), None);
    assert_eq!(watcher.observe(Some(1)), None);
    assert_eq!(watcher.observe(Some(0)), Some(true));
    assert_eq!(watcher.observe(Some(0)), None);
}

#[test]
fn failed_reading_changes_nothing() {
    let (mut watcher, _) = SensorWatcher::start(0);
    assert_eq!(watcher.observe(None), None);
    assert_eq!(watcher.observe(Some(0)), None);
    assert_eq!(watcher.observe(None), None);
    assert_eq!(watcher.observe(Some(1)), Some(false));
}

#[test]
fn one_message_per_change() {
    let samples = vec![Some(1), Some(0), Some(0), None, Some(1), Some(1), Some(0), None, Some(0)];
    let (mut watcher, first) = SensorWatcher::start(1);
    let mut messages = vec![first];
    for sample in samples {
        if let Some(message) = watcher.observe(sample) {
            messages.push(message);
        }
    }
    assert_eq!(messages, vec![false, true, false, true]);
    for pair in messages.windows(2) {
        assert_ne!(pair[0], pair[1]);
    }
}

#[test]
fn other_levels_than_zero_all_mean_closed() {
    let (mut watcher, first) = SensorWatcher::start(1);
    assert_eq!(first, false);
    assert_eq!(watcher.observe(Some(2)), None);
    assert_eq!(watcher.observe(Some(1)), None);
}
