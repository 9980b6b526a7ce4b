//! Placement of two monitors in extend mode: pixel offsets and rotation transforms.
use crate::text::{
    chars_of, decimal_text, find_char, find_from, parse_i32, parse_i32_at, push_decimal, str_eq,
};
use vstd::prelude::*;

verus! {

broadcast use vstd::string::group_string_axioms;

/// Relative placement of the two monitors of an extended desktop.
#[derive(Clone, Copy, Debug, PartialEq, Eq, Structural)]
pub enum ExtendLayout {
    LeftToRight,
    RightToLeft,
    TopToBottom,
    BottomToTop,
}

pub open spec fn layout_label(layout: ExtendLayout) -> Seq<char> {
    match layout {
        ExtendLayout::LeftToRight => "Left to Right"@,
        ExtendLayout::RightToLeft => "Right to Left"@,
        ExtendLayout::TopToBottom => "Top to Bottom"@,
        ExtendLayout::BottomToTop => "Bottom to Top"@,
    }
}

impl ExtendLayout {
    /// The name shown to a user for this layout.
    pub fn label(&self) -> (r: &'static str)
        ensures
            r@ == layout_label(*self),
    {
        match self {
            ExtendLayout::LeftToRight => "Left to Right",
            ExtendLayout::RightToLeft => "Right to Left",
            ExtendLayout::TopToBottom => "Top to Bottom",
            ExtendLayout::BottomToTop => "Bottom to Top",
        }
    }
}

/// The width named by a `"<width>x<height>"` text: what precedes the first
/// `x`, read as an integer; 1920 where that does not parse.
pub open spec fn width_of_resolution(res: Seq<char>) -> i32 {
    match parse_i32(res.take(find_from(res, 'x', 0))) {
        Some(w) => w,
        None => 1920,
    }
}

/// The height named by a `"<width>x<height>"` text: what lies between the
/// first and the second `x` (or the end), read as an integer; 1080 where there
/// is no `x` or that does not parse.
pub open spec fn height_of_resolution(res: Seq<char>) -> i32 {
    let x = find_from(res, 'x', 0);
    if x >= res.len() {
        1080
    } else {
        match parse_i32(res.subrange(x + 1, find_from(res, 'x', x + 1))) {
            Some(h) => h,
            None => 1080,
        }
    }
}

/// The positions `(primary, secondary)` of the two monitors, each as `"<x>x<y>"`.
pub open spec fn layout_positions(
    layout: ExtendLayout,
    primary_width: i32,
    primary_height: i32,
    secondary_resolution: Seq<char>,
) -> (Seq<char>, Seq<char>) {
    match layout {
        ExtendLayout::LeftToRight => ("0x0"@, decimal_text(primary_width as int) + "x0"@),
        ExtendLayout::RightToLeft => (
            decimal_text(width_of_resolution(secondary_resolution) as int) + "x0"@,
            "0x0"@,
        ),
        ExtendLayout::TopToBottom => ("0x0"@, "0x"@ + decimal_text(primary_height as int)),
        ExtendLayout::BottomToTop => (
            "0x"@ + decimal_text(height_of_resolution(secondary_resolution) as int),
            "0x0"@,
        ),
    }
}

/// Reads the width out of a `"<width>x<height>"` text, 1920 if it has none.
pub fn resolution_width(res: &str) -> (r: i32)
    ensures
        r == width_of_resolution(res@),
{
    let cs = chars_of(res);
    let x = find_char(&cs, 'x', 0);
    assert(cs@.subrange(0, x as int) =~= res@.take(x as int));
    match parse_i32_at(&cs, 0, x) {
        Some(w) => w,
        None => 1920,
    }
}

/// Reads the height out of a `"<width>x<height>"` text, 1080 if it has none.
pub fn resolution_height(res: &str) -> (r: i32)
    ensures
        r == height_of_resolution(res@),
{
    let cs = chars_of(res);
    let x = find_char(&cs, 'x', 0);
    if x >= cs.len() {
        return 1080;
    }
    let e = find_char(&cs, 'x', x + 1);
    match parse_i32_at(&cs, x + 1, e) {
        Some(h) => h,
        None => 1080,
    }
}

/// `"<n>x0"`
fn offset_x(n: i32) -> (r: String)
    ensures
        r@ == decimal_text(n as int) + "x0"@,
{
    let mut s = String::new();
    push_decimal(&mut s, n);
    s.append("x0");
    assert(s@ =~= decimal_text(n as int) + "x0"@);
    s
}

/// `"0x<n>"`
fn offset_y(n: i32) -> (r: String)
    ensures
        r@ == "0x"@ + decimal_text(n as int),
{
    let mut s = "0x".to_owned();
    push_decimal(&mut s, n);
    s
}

/// Computes where the primary and the secondary monitor go for `layout`.
///
/// The monitor placed first along the layout's direction sits at `0x0`; the
/// other is offset by the first one's width or height. For the layouts that
/// put the secondary first, that size is read from `secondary_resolution`.
pub fn calculate_positions(
    layout: &ExtendLayout,
    primary_width: i32,
    primary_height: i32,
    secondary_resolution: &str,
) -> (r: (String, String))
    ensures
        (r.0@, r.1@) == layout_positions(
            *layout,
            primary_width,
            primary_height,
            secondary_resolution@,
        ),
{
    match layout {
        ExtendLayout::LeftToRight => ("0x0".to_owned(), offset_x(primary_width)),
        ExtendLayout::RightToLeft => {
            let w = resolution_width(secondary_resolution);
            (offset_x(w), "0x0".to_owned())
        },
        ExtendLayout::TopToBottom => ("0x0".to_owned(), offset_y(primary_height)),
        ExtendLayout::BottomToTop => {
            let h = resolution_height(secondary_resolution);
            (offset_y(h), "0x0".to_owned())
        },
    }
}

/// The transform suffix of a monitor rule for a rotation name.
pub open spec fn transform_suffix(rotation: Seq<char>) -> Seq<char> {
    if rotation == "left"@ {
        ",transform,1"@
    } else if rotation == "right"@ {
        ",transform,3"@
    } else if rotation == "inverted"@ {
        ",transform,2"@
    } else {
        ""@
    }
}

/// Maps a rotation name to the transform suffix of a monitor rule: `left` is
/// transform 1, `right` 3, `inverted` 2; `normal` and any other name add nothing.
pub fn get_transform_string(rotation: &str) -> (r: &'static str)
    ensures
        r@ == transform_suffix(rotation@),
{
    if str_eq(rotation, "left") {
        ",transform,1"
    } else if str_eq(rotation, "right") {
        ",transform,3"
    } else if str_eq(rotation, "inverted") {
        ",transform,2"
    } else {
        ""
    }
}

/// For the layouts that run from the primary monitor, the primary sits at the
/// origin; for those that run towards it, the secondary does.
pub proof fn lemma_origin_monitor(
    layout: ExtendLayout,
    primary_width: i32,
    primary_height: i32,
    secondary_resolution: Seq<char>,
)
    ensures
        (layout == ExtendLayout::LeftToRight || layout == ExtendLayout::TopToBottom)
            ==> layout_positions(layout, primary_width, primary_height, secondary_resolution).0
            == "0x0"@,
        (layout == ExtendLayout::RightToLeft || layout == ExtendLayout::BottomToTop)
            ==> layout_positions(layout, primary_width, primary_height, secondary_resolution).1
            == "0x0"@,
{
}

} // verus!
