use display_switcher::modes::{
    extract_resolution_from_line, fallback_resolutions, get_monitor_available_modes,
    parse_monitor_modes,
};

const CAPABILITIES: &str = "Monitor eDP-1 (ID 0):\n\
\t1920x1080@60.00000 at 0x0\n\
\tavailableModes: 1920x1080@60.00Hz 1920x1080@48.00Hz 1280x720@60.00Hz\n\
Monitor HDMI-A-1 (ID 1):\n\
\t2560x1440@144.00000 at 1920x0\n\
\tavailableModes: 2560x1440@144.00Hz 2560x1440@60.00Hz 1920x1080@60.00Hz 3840x2160@30.00Hz\n";

fn strings(v: &[&str]) -> Vec<String> {
    v.iter().map(|s| s.to_string()).collect()
}

#[test]
fn modes_of_each_monitor_are_read_in_order_without_repeats() {
    assert_eq!(
        parse_monitor_modes(CAPABILITIES, "eDP-1"),
        strings(&["1920x1080", "1280x720"])
    );
    assert_eq!(
        parse_monitor_modes(CAPABILITIES, "HDMI-A-1"),
        strings(&["2560x1440", "1920x1080", "3840x2160"])
    );
}

#[test]
fn parsing_the_same_text_twice_gives_the_same_list() {
    let first = parse_monitor_modes(CAPABILITIES, "HDMI-A-1");
    let second = parse_monitor_modes(CAPABILITIES, "HDMI-A-1");
    assert_eq!(first, second);
    let mut seen = first.clone();
    seen.dedup();
    assert_eq!(seen.len(), first.len());
}

#[test]
fn text_without_modes_line_falls_back() {
    let text = "Monitor DP-1 (ID 0):\n\t1920x1080@60.00000 at 0x0\n";
    let modes = parse_monitor_modes(text, "DP-1");
    assert_eq!(modes, fallback_resolutions());
    assert!(modes.contains(&"1920x1080".to_string()));
    assert!(modes.contains(&"2560x1440".to_string()));
    assert!(modes.contains(&"3840x2160".to_string()));
}

#[test]
fn empty_text_and_unknown_monitor_fall_back() {
    assert_eq!(parse_monitor_modes("", "DP-1"), fallback_resolutions());
    assert_eq!(parse_monitor_modes(CAPABILITIES, "DP-9"), fallback_resolutions());
}

#[test]
fn failed_query_falls_back() {
    let modes = get_monitor_available_modes(None, "DP-1");
    assert_eq!(
        modes,
        strings(&["1920x1080", "2560x1440", "3840x2160", "1680x1050", "1366x768", "1440x900"])
    );
    assert_eq!(
        get_monitor_available_modes(Some(CAPABILITIES), "eDP-1"),
        strings(&["1920x1080", "1280x720"])
    );
}

#[test]
fn section_ends_at_next_monitor() {
    let text = "Monitor DP-1 (ID 0):\nMonitor DP-2 (ID 1):\n\tavailableModes: 800x600@60Hz\n";
    assert_eq!(parse_monitor_modes(text, "DP-1"), fallback_resolutions());
    assert_eq!(parse_monitor_modes(text, "DP-2"), strings(&["800x600"]));
}

#[test]
fn modes_line_outside_the_section_is_ignored() {
    let text = "\tavailableModes: 800x600@60Hz\nMonitor DP-1 (ID 0):\n\tavailableModes: 640x480@60Hz\n";
    assert_eq!(parse_monitor_modes(text, "DP-1"), strings(&["640x480"]));
}

#[test]
fn malformed_tokens_are_skipped() {
    let text = "Monitor DP-1:\n  availableModes:  junk 1024x768@60Hz @60 x768@60 1024x@60 1024xx768@60 800x600@75Hz 1024x768@75Hz\r\n";
    assert_eq!(parse_monitor_modes(text, "DP-1"), strings(&["1024x768", "800x600"]));
}

#[test]
fn only_unreadable_modes_fall_back() {
    let text = "Monitor DP-1:\navailableModes: foo bar@60\n";
    assert_eq!(parse_monitor_modes(text, "DP-1"), fallback_resolutions());
}

#[test]
fn resolution_is_read_from_a_mode_token() {
    assert_eq!(extract_resolution_from_line("1920x1080@60.00Hz"), Some("1920x1080".to_string()));
    assert_eq!(extract_resolution_from_line("res:1280x720@30"), Some("1280x720".to_string()));
    assert_eq!(extract_resolution_from_line("  800x600 @60"), Some("800x600".to_string()));
    assert_eq!(extract_resolution_from_line("1920x1080"), None);
    assert_eq!(extract_resolution_from_line("x1080@60"), None);
    assert_eq!(extract_resolution_from_line("1920x@60"), None);
    assert_eq!(extract_resolution_from_line("19a0x1080@60"), None);
    assert_eq!(extract_resolution_from_line("1920x1080x2@60"), None);
    assert_eq!(extract_resolution_from_line("@60"), None);
    assert_eq!(extract_resolution_from_line(""), None);
}
