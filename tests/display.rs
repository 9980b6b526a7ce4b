use display_switcher::config::{ConfigManager, DisplayConfig, ExtendConfiguration, Timestamp};
use display_switcher::display::{
    apply_extend_mode, apply_mirror_mode, apply_single_screen_mode, determine_primary_monitor,
    next_action, PlanAction,
    reset_to_defaults, DisplayCommand, DisplayError, MonitorDescriptor, MonitorRole,
    SETTLE_MILLIS,
};
use display_switcher::layout::ExtendLayout;
use display_switcher::state::{apply_display_mode, DisplayMode, MonitorSettingsData};

fn monitor(name: &str, width: u16, height: u16, focused: bool) -> MonitorDescriptor {
    MonitorDescriptor {
        name: name.to_string(),
        width,
        height,
        scale: "1".to_string(),
        focused,
    }
}

fn pair() -> Vec<MonitorDescriptor> {
    vec![monitor("DP-1", 1920, 1080, false), monitor("HDMI-1", 2560, 1440, true)]
}

fn config(primary: &str, secondary: &str, resolution: &str, layout: ExtendLayout) -> ExtendConfiguration {
    ConfigManager::config_from_settings_at(
        primary.to_string(),
        secondary.to_string(),
        resolution.to_string(),
        "normal".to_string(),
        "2560x1440".to_string(),
        "normal".to_string(),
        layout,
        Timestamp { secs: 1, nanos: 0 },
    )
}

fn no_preferences() -> ConfigManager {
    ConfigManager::new(DisplayConfig::default())
}

fn exec(s: &str) -> String {
    format!("hyprctl keyword monitor \"{s}\"")
}

fn texts(plan: &[DisplayCommand]) -> Vec<String> {
    plan.iter()
        .map(|c| match c {
            DisplayCommand::Exec(s) => s.clone(),
            DisplayCommand::Settle(ms) => format!("settle {ms}"),
        })
        .collect()
}

#[test]
fn extend_left_to_right_with_auto_primary() {
    let c = config("DP-1", "HDMI-1", "auto", ExtendLayout::LeftToRight);
    let plan = apply_extend_mode(&pair(), &c).expect("plan");
    assert_eq!(
        texts(&plan),
        vec![
            exec("DP-1,disable"),
            exec("HDMI-1,disable"),
            format!("settle {SETTLE_MILLIS}"),
            exec("DP-1,auto,0x0,1"),
            exec("HDMI-1,2560x1440,1920x0,1"),
        ]
    );
    assert_eq!(SETTLE_MILLIS, 1000);
}

#[test]
fn extend_with_explicit_resolution_and_rotation() {
    let mut c = config("HDMI-1", "DP-1", "1280x1024", ExtendLayout::TopToBottom);
    c.primary_rotation = "left".to_string();
    c.secondary_resolution = "1920x1080".to_string();
    c.secondary_rotation = "inverted".to_string();
    let plan = apply_extend_mode(&pair(), &c).unwrap();
    let t = texts(&plan);
    assert_eq!(t[3], exec("HDMI-1,1280x1024,0x0,1,transform,1"));
    assert_eq!(t[4], exec("DP-1,1920x1080,0x1024,1,transform,2"));
}

#[test]
fn extend_right_to_left_uses_secondary_width() {
    let c = config("DP-1", "HDMI-1", "auto", ExtendLayout::RightToLeft);
    let t = texts(&apply_extend_mode(&pair(), &c).unwrap());
    assert_eq!(t[3], exec("DP-1,auto,2560x0,1"));
    assert_eq!(t[4], exec("HDMI-1,2560x1440,0x0,1"));
}

#[test]
fn extend_with_missing_monitor_fails_before_any_command() {
    let c = config("DP-1", "DP-7", "auto", ExtendLayout::LeftToRight);
    match apply_extend_mode(&pair(), &c) {
        Err(DisplayError::MonitorNotFound(MonitorRole::Secondary)) => {}
        other => panic!("unexpected {other:?}"),
    }
    let c = config("DP-7", "DP-1", "auto", ExtendLayout::LeftToRight);
    match apply_extend_mode(&pair(), &c) {
        Err(DisplayError::MonitorNotFound(MonitorRole::Primary)) => {}
        other => panic!("unexpected {other:?}"),
    }
}

#[test]
fn single_monitor_issues_no_commands() {
    let one = vec![monitor("eDP-1", 1920, 1080, true)];
    let store = no_preferences();
    let c = config("eDP-1", "HDMI-1", "auto", ExtendLayout::LeftToRight);
    assert!(apply_mirror_mode(&one, &store).unwrap().is_empty());
    assert!(apply_extend_mode(&one, &c).unwrap().is_empty());
    assert!(apply_single_screen_mode(&one, true, &store).unwrap().is_empty());
    assert!(apply_single_screen_mode(&one, false, &store).unwrap().is_empty());
    assert!(apply_mirror_mode(&[], &store).unwrap().is_empty());
    for mode in [DisplayMode::Mirror, DisplayMode::Extend, DisplayMode::MainScreenOnly, DisplayMode::SecondScreenOnly] {
        assert!(apply_display_mode(mode, &one, &store).unwrap().is_empty());
    }
}

#[test]
fn mirror_follows_focused_primary() {
    let mut monitors = pair();
    monitors[1].scale = "1.25".to_string();
    let plan = apply_mirror_mode(&monitors, &no_preferences()).unwrap();
    assert_eq!(
        texts(&plan),
        vec![
            exec("HDMI-1,2560x1440,0x0,1.25"),
            exec("DP-1,2560x1440,0x0,1.25,mirror,HDMI-1"),
        ]
    );
}

#[test]
fn primary_prefers_stored_then_focused_then_first() {
    let mut store = no_preferences();
    let monitors = pair();
    assert_eq!(determine_primary_monitor(&monitors, &store).name, "HDMI-1");
    let unfocused = vec![monitor("A", 1, 1, false), monitor("B", 1, 1, false)];
    assert_eq!(determine_primary_monitor(&unfocused, &store).name, "A");
    store.save_extend_configuration_at(
        config("DP-1", "HDMI-1", "auto", ExtendLayout::LeftToRight),
        Timestamp { secs: 2, nanos: 0 },
    );
    assert_eq!(determine_primary_monitor(&monitors, &store).name, "DP-1");
}

#[test]
fn single_screen_enables_one_and_disables_the_other() {
    let store = no_preferences();
    let main = apply_single_screen_mode(&pair(), true, &store).unwrap();
    assert_eq!(
        texts(&main),
        vec![exec("HDMI-1,2560x1440,0x0,1"), exec("DP-1,disable")]
    );
    let second = apply_single_screen_mode(&pair(), false, &store).unwrap();
    assert_eq!(
        texts(&second),
        vec![exec("DP-1,1920x1080,0x0,1"), exec("HDMI-1,disable")]
    );
}

#[test]
fn monitors_sharing_one_name_have_no_secondary() {
    let same = vec![monitor("X", 1, 1, false), monitor("X", 2, 2, false)];
    match apply_mirror_mode(&same, &no_preferences()) {
        Err(DisplayError::MonitorNotFound(MonitorRole::Secondary)) => {}
        other => panic!("unexpected {other:?}"),
    }
}

#[test]
fn reset_reloads_the_compositor() {
    assert_eq!(texts(&reset_to_defaults()), vec!["hyprctl reload".to_string()]);
}

#[test]
fn extend_mode_without_stored_preference_places_first_left_of_second() {
    let plan = apply_display_mode(DisplayMode::Extend, &pair(), &no_preferences()).unwrap();
    let t = texts(&plan);
    assert_eq!(t[3], exec("DP-1,1920x1080,0x0,1"));
    assert_eq!(t[4], exec("HDMI-1,2560x1440,1920x0,1"));
}

#[test]
fn extend_mode_uses_stored_preference() {
    let mut store = no_preferences();
    store.save_extend_configuration_at(
        config("HDMI-1", "DP-1", "auto", ExtendLayout::BottomToTop),
        Timestamp { secs: 3, nanos: 0 },
    );
    let t = texts(&apply_display_mode(DisplayMode::Extend, &pair(), &store).unwrap());
    assert_eq!(t[3], exec("HDMI-1,auto,0x1440,1"));
    assert_eq!(t[4], exec("DP-1,2560x1440,0x0,1"));
}

#[test]
fn settings_default_values() {
    let d = MonitorSettingsData::default();
    assert_eq!(d.primary_monitor, "");
    assert_eq!(d.primary_resolution, "auto");
    assert_eq!(d.primary_rotation, "normal");
    assert_eq!(d.secondary_resolution, "1920x1080");
    assert_eq!(d.secondary_rotation, "normal");
    assert_eq!(d.layout, ExtendLayout::LeftToRight);
    assert_eq!(d.primary_available_resolutions, vec!["auto".to_string()]);
    assert_eq!(d.secondary_available_resolutions, vec!["1920x1080".to_string()]);
    assert!(d.available_monitors.is_empty());
}

#[test]
fn settings_opened_without_preference() {
    let text = "Monitor HDMI-1 (ID 1):\n\tavailableModes: 2560x1440@60Hz 1920x1080@60Hz\n";
    let d = MonitorSettingsData::for_monitors(&pair(), &no_preferences(), Some(text)).unwrap();
    assert_eq!(d.primary_monitor, "DP-1");
    assert_eq!(d.primary_resolution, "auto");
    assert_eq!(d.secondary_resolution, "2560x1440");
    assert_eq!(d.primary_available_resolutions[0], "auto");
    assert_eq!(d.primary_available_resolutions.len(), 7);
    assert_eq!(d.secondary_available_resolutions, vec!["2560x1440".to_string(), "1920x1080".to_string()]);
    assert_eq!(d.available_monitors, vec!["DP-1".to_string(), "HDMI-1".to_string()]);
    assert!(MonitorSettingsData::for_monitors(&pair()[..1], &no_preferences(), None).is_none());
}

#[test]
fn settings_opened_from_preference_and_applied() {
    let mut store = no_preferences();
    store.save_extend_configuration_at(
        config("HDMI-1", "DP-1", "1920x1080", ExtendLayout::RightToLeft),
        Timestamp { secs: 3, nanos: 0 },
    );
    let d = MonitorSettingsData::for_monitors(&pair(), &store, None).unwrap();
    assert_eq!(d.primary_monitor, "HDMI-1");
    assert_eq!(d.primary_resolution, "1920x1080");
    assert_eq!(d.layout, ExtendLayout::RightToLeft);
    let c = d.extend_configuration_at(&pair(), Timestamp { secs: 9, nanos: 0 });
    assert_eq!(c.secondary_monitor, "DP-1");
    assert_eq!(c.name, "HDMI-1 + DP-1");
    assert_eq!(c.last_used, Timestamp { secs: 9, nanos: 0 });
    let lone = d.extend_configuration_at(&pair()[1..], Timestamp { secs: 9, nanos: 0 });
    assert_eq!(lone.secondary_monitor, "Unknown");
}

#[test]
fn choosing_another_primary_resets_resolutions() {
    let text = "Monitor DP-1:\n\tavailableModes: 1920x1080@60Hz\nMonitor HDMI-1:\n\tavailableModes: 2560x1440@60Hz 1280x720@60Hz\n";
    let mut d = MonitorSettingsData::for_monitors(&pair(), &no_preferences(), Some(text)).unwrap();
    d.primary_resolution = "1920x1080".to_string();
    d.select_primary_monitor("HDMI-1".to_string(), &pair(), Some(text));
    assert_eq!(d.primary_monitor, "HDMI-1");
    assert_eq!(d.primary_resolution, "auto");
    assert_eq!(
        d.primary_available_resolutions,
        vec!["auto".to_string(), "2560x1440".to_string(), "1280x720".to_string()]
    );
    assert_eq!(d.secondary_available_resolutions, vec!["1920x1080".to_string()]);
    assert_eq!(d.secondary_resolution, "1920x1080");
}

#[test]
fn plan_runs_in_order_and_stops_at_first_failure() {
    let plan = reset_to_defaults();
    assert!(matches!(next_action(&plan, 0, None), PlanAction::Perform(0)));
    assert!(matches!(next_action(&plan, 1, Some(Ok(()))), PlanAction::Done));
    match next_action(&plan, 1, Some(Err("refused".to_string()))) {
        PlanAction::Fail(DisplayError::CommandFailed(reason)) => assert_eq!(reason, "refused"),
        other => panic!("unexpected {other:?}"),
    }
    let c = config("DP-1", "HDMI-1", "auto", ExtendLayout::LeftToRight);
    let extend = apply_extend_mode(&pair(), &c).unwrap();
    assert!(matches!(next_action(&extend, 3, Some(Ok(()))), PlanAction::Perform(3)));
    assert!(matches!(next_action(&[], 0, None), PlanAction::Done));
}
