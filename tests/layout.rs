use display_switcher::layout::{
    calculate_positions, get_transform_string, resolution_height, resolution_width, ExtendLayout,
};

#[test]
fn primary_at_origin_for_forward_layouts() {
    for layout in [ExtendLayout::LeftToRight, ExtendLayout::TopToBottom] {
        let (primary, _) = calculate_positions(&layout, 2560, 1440, "1920x1080");
        assert_eq!(primary, "0x0");
    }
}

#[test]
fn secondary_at_origin_for_backward_layouts() {
    for layout in [ExtendLayout::RightToLeft, ExtendLayout::BottomToTop] {
        let (_, secondary) = calculate_positions(&layout, 2560, 1440, "1920x1080");
        assert_eq!(secondary, "0x0");
    }
}

#[test]
fn left_to_right_offsets_by_primary_width() {
    let (p, s) = calculate_positions(&ExtendLayout::LeftToRight, 1920, 1080, "2560x1440");
    assert_eq!((p.as_str(), s.as_str()), ("0x0", "1920x0"));
}

#[test]
fn right_to_left_offsets_by_secondary_width() {
    let (p, s) = calculate_positions(&ExtendLayout::RightToLeft, 1920, 1080, "2560x1440");
    assert_eq!((p.as_str(), s.as_str()), ("2560x0", "0x0"));
}

#[test]
fn top_to_bottom_offsets_by_primary_height() {
    let (p, s) = calculate_positions(&ExtendLayout::TopToBottom, 1920, 1080, "2560x1440");
    assert_eq!((p.as_str(), s.as_str()), ("0x0", "0x1080"));
}

#[test]
fn bottom_to_top_offsets_by_secondary_height() {
    let (p, s) = calculate_positions(&ExtendLayout::BottomToTop, 1920, 1080, "2560x1440");
    assert_eq!((p.as_str(), s.as_str()), ("0x1440", "0x0"));
}

#[test]
fn unreadable_secondary_resolution_uses_defaults() {
    let (p, _) = calculate_positions(&ExtendLayout::RightToLeft, 800, 600, "auto");
    assert_eq!(p, "1920x0");
    let (p, _) = calculate_positions(&ExtendLayout::BottomToTop, 800, 600, "auto");
    assert_eq!(p, "0x1080");
    let (p, _) = calculate_positions(&ExtendLayout::BottomToTop, 800, 600, "1280xabc");
    assert_eq!(p, "0x1080");
}

#[test]
fn negative_and_zero_offsets_are_written_in_full() {
    let (_, s) = calculate_positions(&ExtendLayout::LeftToRight, -5, 0, "");
    assert_eq!(s, "-5x0");
    let (_, s) = calculate_positions(&ExtendLayout::TopToBottom, 0, 0, "");
    assert_eq!(s, "0x0");
    let (_, s) = calculate_positions(&ExtendLayout::LeftToRight, i32::MIN, 0, "");
    assert_eq!(s, "-2147483648x0");
    let (_, s) = calculate_positions(&ExtendLayout::TopToBottom, 0, i32::MAX, "");
    assert_eq!(s, "0x2147483647");
}

#[test]
fn resolution_parts_parse_like_integers() {
    assert_eq!(resolution_width("2560x1440"), 2560);
    assert_eq!(resolution_height("2560x1440"), 1440);
    assert_eq!(resolution_width("+640x-480"), 640);
    assert_eq!(resolution_height("+640x-480"), -480);
    assert_eq!(resolution_width("x480"), 1920);
    assert_eq!(resolution_height("640"), 1080);
    assert_eq!(resolution_height("640x480x60"), 480);
    assert_eq!(resolution_width("99999999999x1"), 1920);
    assert_eq!(resolution_width("2147483647x1"), 2147483647);
    assert_eq!(resolution_width("-2147483648x1"), -2147483648);
    assert_eq!(resolution_width("2147483648x1"), 1920);
    assert_eq!(resolution_width("-x1"), 1920);
}

#[test]
fn rotation_names_map_to_transforms() {
    assert_eq!(get_transform_string("normal"), "");
    assert_eq!(get_transform_string("left"), ",transform,1");
    assert_eq!(get_transform_string("right"), ",transform,3");
    assert_eq!(get_transform_string("inverted"), ",transform,2");
    assert_eq!(get_transform_string("sideways"), "");
    assert_eq!(get_transform_string("Left"), "");
}

#[test]
fn layouts_have_readable_labels() {
    assert_eq!(ExtendLayout::LeftToRight.label(), "Left to Right");
    assert_eq!(ExtendLayout::RightToLeft.label(), "Right to Left");
    assert_eq!(ExtendLayout::TopToBottom.label(), "Top to Bottom");
    assert_eq!(ExtendLayout::BottomToTop.label(), "Bottom to Top");
}
