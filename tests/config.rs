use display_switcher::config::{
    timestamp_from_epoch_offset, ConfigManager, DisplayConfig, ExtendConfiguration, Timestamp,
};
use display_switcher::layout::ExtendLayout;

fn record(primary: &str, secondary: &str, secs: i64) -> ExtendConfiguration {
    ConfigManager::config_from_settings_at(
        primary.to_string(),
        secondary.to_string(),
        "auto".to_string(),
        "normal".to_string(),
        "1920x1080".to_string(),
        "left".to_string(),
        ExtendLayout::TopToBottom,
        Timestamp { secs, nanos: 0 },
    )
}

fn names(v: &[&str]) -> Vec<String> {
    v.iter().map(|s| s.to_string()).collect()
}

fn empty_store() -> ConfigManager {
    ConfigManager::new(DisplayConfig::default())
}

#[test]
fn settings_make_a_named_configuration() {
    let c = record("DP-1", "HDMI-1", 7);
    assert_eq!(c.name, "DP-1 + HDMI-1");
    assert_eq!(c.primary_monitor, "DP-1");
    assert_eq!(c.secondary_monitor, "HDMI-1");
    assert_eq!(c.primary_resolution, "auto");
    assert_eq!(c.secondary_rotation, "left");
    assert_eq!(c.layout, ExtendLayout::TopToBottom);
    assert_eq!(c.created_at, Timestamp { secs: 7, nanos: 0 });
    assert_eq!(c.last_used, Timestamp { secs: 7, nanos: 0 });
}

#[test]
fn created_configuration_is_stamped_with_the_clock() {
    let c = ConfigManager::create_config_from_settings(
        "A".to_string(),
        "B".to_string(),
        "auto".to_string(),
        "normal".to_string(),
        "auto".to_string(),
        "normal".to_string(),
        ExtendLayout::LeftToRight,
    );
    assert_eq!(c.name, "A + B");
    assert_eq!(c.created_at, c.last_used);
    assert!(c.last_used.secs > 1_600_000_000);
    assert!(c.last_used.nanos < 1_000_000_000);
}

#[test]
fn saved_configuration_is_found_again() {
    let mut store = empty_store();
    let c = record("DP-1", "HDMI-1", 5);
    store.save_extend_configuration(c.clone());
    let found = store
        .get_extend_configuration_for_monitors(&names(&["DP-1", "HDMI-1"]))
        .expect("saved configuration");
    assert_eq!(found.name, c.name);
    assert_eq!(found.primary_monitor, c.primary_monitor);
    assert_eq!(found.secondary_monitor, c.secondary_monitor);
    assert_eq!(found.primary_resolution, c.primary_resolution);
    assert_eq!(found.primary_rotation, c.primary_rotation);
    assert_eq!(found.secondary_resolution, c.secondary_resolution);
    assert_eq!(found.secondary_rotation, c.secondary_rotation);
    assert_eq!(found.layout, c.layout);
    assert_eq!(found.created_at, c.created_at);
    assert!(c.last_used.is_before(&found.last_used));
}

#[test]
fn save_stamps_last_use_and_remembers_the_key() {
    let mut store = empty_store();
    store.save_extend_configuration_at(record("A", "B", 1), Timestamp { secs: 50, nanos: 3 });
    let last = store.get_last_extend_configuration().expect("last saved");
    assert_eq!(last.last_used, Timestamp { secs: 50, nanos: 3 });
    assert_eq!(last.created_at, Timestamp { secs: 1, nanos: 0 });
    assert_eq!(store.config().last_used_extend_config, Some("A_B".to_string()));
}

#[test]
fn later_record_wins_the_lookup() {
    let mut store = empty_store();
    store.save_extend_configuration_at(record("A", "B", 0), Timestamp { secs: 20, nanos: 0 });
    store.save_extend_configuration_at(record("B", "A", 0), Timestamp { secs: 10, nanos: 0 });
    let found = store.get_extend_configuration_for_monitors(&names(&["A", "B"])).unwrap();
    assert_eq!(found.primary_monitor, "A");
    store.save_extend_configuration_at(record("B", "A", 0), Timestamp { secs: 20, nanos: 1 });
    let found = store.get_extend_configuration_for_monitors(&names(&["B", "A"])).unwrap();
    assert_eq!(found.primary_monitor, "B");
}

#[test]
fn equal_times_pick_the_record_stored_first() {
    let mut store = empty_store();
    store.save_extend_configuration_at(record("B", "A", 0), Timestamp { secs: 9, nanos: 0 });
    store.save_extend_configuration_at(record("A", "B", 0), Timestamp { secs: 9, nanos: 0 });
    let found = store.get_extend_configuration_for_monitors(&names(&["A", "B"])).unwrap();
    assert_eq!(found.primary_monitor, "B");
}

#[test]
fn lookup_needs_both_monitors_available() {
    let mut store = empty_store();
    store.save_extend_configuration_at(record("A", "B", 0), Timestamp { secs: 1, nanos: 0 });
    assert!(store.get_extend_configuration_for_monitors(&names(&["A", "C"])).is_none());
    assert!(store.get_extend_configuration_for_monitors(&names(&[])).is_none());
    assert!(store.get_extend_configuration_for_monitors(&names(&["C", "B", "A"])).is_some());
    assert!(empty_store().get_extend_configuration_for_monitors(&names(&["A", "B"])).is_none());
}

#[test]
fn same_pair_same_order_overwrites() {
    let mut store = empty_store();
    store.save_extend_configuration_at(record("A", "B", 0), Timestamp { secs: 1, nanos: 0 });
    let mut again = record("A", "B", 0);
    again.primary_resolution = "2560x1440".to_string();
    store.save_extend_configuration_at(again, Timestamp { secs: 2, nanos: 0 });
    assert_eq!(store.get_extend_configurations().len(), 1);
    assert_eq!(store.get_extend_configurations()[0].primary_resolution, "2560x1440");
}

#[test]
fn swapped_pair_is_a_separate_record() {
    let mut store = empty_store();
    store.save_extend_configuration_at(record("A", "B", 0), Timestamp { secs: 1, nanos: 0 });
    store.save_extend_configuration_at(record("B", "A", 0), Timestamp { secs: 2, nanos: 0 });
    assert_eq!(store.get_extend_configurations().len(), 2);
}

#[test]
fn lookup_by_pair_ignores_order() {
    let mut store = empty_store();
    store.save_extend_configuration_at(record("A", "B", 0), Timestamp { secs: 1, nanos: 0 });
    store.save_extend_configuration_at(record("C", "D", 0), Timestamp { secs: 2, nanos: 0 });
    assert_eq!(store.get_extend_configuration_by_monitors("B", "A").unwrap().primary_monitor, "A");
    assert_eq!(store.get_extend_configuration_by_monitors("C", "D").unwrap().primary_monitor, "C");
    assert!(store.get_extend_configuration_by_monitors("A", "C").is_none());
}

#[test]
fn last_configuration_absent_or_stale_is_none() {
    assert!(empty_store().get_last_extend_configuration().is_none());
    let config = DisplayConfig {
        extend_configurations: vec![record("A", "B", 1)],
        last_used_extend_config: Some("gone".to_string()),
    };
    assert!(ConfigManager::new(config).get_last_extend_configuration().is_none());
}

#[test]
fn loading_rekeys_records_and_keeps_the_last_key() {
    let config = DisplayConfig {
        extend_configurations: vec![record("A", "B", 1), record("C", "D", 2), record("A", "B", 3)],
        last_used_extend_config: Some("A_B".to_string()),
    };
    let store = ConfigManager::new(config);
    let all = store.get_extend_configurations();
    assert_eq!(all.len(), 2);
    assert_eq!(all[0].created_at.secs, 3);
    assert_eq!(all[1].primary_monitor, "C");
    assert_eq!(store.get_last_extend_configuration().unwrap().created_at.secs, 3);
}

#[test]
fn preferred_primary_comes_from_latest_match() {
    let mut store = empty_store();
    assert_eq!(store.get_preferred_primary_monitor(&names(&["A", "B"])), None);
    store.save_extend_configuration_at(record("B", "A", 0), Timestamp { secs: 4, nanos: 0 });
    assert_eq!(
        store.get_preferred_primary_monitor(&names(&["A", "B"])),
        Some("B".to_string())
    );
    assert_eq!(store.get_preferred_primary_monitor(&names(&["A"])), None);
}

#[test]
fn timestamps_order_by_seconds_then_nanoseconds() {
    let a = Timestamp { secs: 1, nanos: 999 };
    let b = Timestamp { secs: 2, nanos: 0 };
    let c = Timestamp { secs: 2, nanos: 1 };
    assert!(a.is_before(&b));
    assert!(b.is_before(&c));
    assert!(!c.is_before(&b));
    assert!(!b.is_before(&b));
    assert!(Timestamp { secs: -1, nanos: 5 }.is_before(&a));
}

#[test]
fn epoch_offsets_become_timestamps() {
    assert_eq!(timestamp_from_epoch_offset(Ok((5, 7))), Timestamp { secs: 5, nanos: 7 });
    assert_eq!(timestamp_from_epoch_offset(Err((2, 0))), Timestamp { secs: -2, nanos: 0 });
    assert_eq!(
        timestamp_from_epoch_offset(Err((2, 250_000_000))),
        Timestamp { secs: -3, nanos: 750_000_000 }
    );
    assert_eq!(
        timestamp_from_epoch_offset(Ok((u64::MAX, 1))),
        Timestamp { secs: i64::MAX, nanos: 1 }
    );
    assert_eq!(
        timestamp_from_epoch_offset(Err((u64::MAX, 1))),
        Timestamp { secs: i64::MIN, nanos: 999_999_999 }
    );
    assert_eq!(
        timestamp_from_epoch_offset(Err((i64::MAX as u64 + 1, 0))),
        Timestamp { secs: i64::MIN, nanos: 0 }
    );
}
