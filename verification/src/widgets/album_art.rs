//! Placement of the album cover and of its placeholder.
//!
//! The cover is centered in its pane at the size the image protocol would
//! paint it; while there is no image, a placeholder four rows tall is
//! centered instead, saying whether a cover is on its way.

use vstd::prelude::*;

use super::big_title::Rect;

verus! {

/// The smaller of `a` and `b`.
pub open spec fn min_u16(a: u16, b: u16) -> u16 {
    if a < b {
        a
    } else {
        b
    }
}

/// The rectangle of at most `w` by `h` cells centered in `area`.
pub open spec fn spec_center_rect(w: u16, h: u16, area: Rect) -> Rect {
    let width = min_u16(w, area.width);
    let height = min_u16(h, area.height);
    Rect {
        x: (area.x + (area.width - width) / 2) as u16,
        y: (area.y + (area.height - height) / 2) as u16,
        width,
        height,
    }
}

/// Whether centering a `w` by `h` box in `area` keeps its column and row
/// within `u16`: the area's column plus half the spare width, and its row
/// plus half the spare height.
pub open spec fn center_in_range(w: u16, h: u16, area: Rect) -> bool {
    &&& area.x + (area.width - min_u16(w, area.width)) / 2 <= 65535
    &&& area.y + (area.height - min_u16(h, area.height)) / 2 <= 65535
}

/// Center a `w` by `h` box in `area`, shrunk to fit.
pub fn center_rect(w: u16, h: u16, area: Rect) -> (r: Rect)
    requires
        center_in_range(w, h, area),
    ensures
        r == spec_center_rect(w, h, area),
        r.x + r.width <= area.x + area.width,
        r.y + r.height <= area.y + area.height,
        r.x >= area.x,
        r.y >= area.y,
{
    let width = if w < area.width {
        w
    } else {
        area.width
    };
    let height = if h < area.height {
        h
    } else {
        area.height
    };
    let x = (area.x as u32 + ((area.width - width) / 2) as u32) as u16;
    let y = (area.y as u32 + ((area.height - height) / 2) as u32) as u16;
    Rect { x, y, width, height }
}

/// Rows of the placeholder in `area`: four, or fewer when the area is lower.
pub open spec fn placeholder_height(area: Rect) -> u16 {
    if area.height < 4 {
        area.height
    } else {
        4
    }
}

/// Where the placeholder goes in `area`: nowhere when the area is empty,
/// else four rows (fewer when the area is lower) centered in it.
pub fn placeholder_area(area: Rect) -> (r: Option<Rect>)
    requires
        area.width > 0 && area.height > 0 ==> area.y + (area.height - placeholder_height(area)) / 2
            <= 65535,
    ensures
        (area.width == 0 || area.height == 0) ==> r is None,
        (area.width > 0 && area.height > 0) ==> r == Some(
            spec_center_rect(area.width, placeholder_height(area), area),
        ),
{
    if area.height == 0 || area.width == 0 {
        return None;
    }
    let target_h: u16 = if area.height < 4 {
        area.height
    } else {
        4
    };
    Some(center_rect(area.width, target_h, area))
}

/// The word under the placeholder's note: `loading…` while a cover is
/// expected, else `no cover`.
pub fn placeholder_label(has_art_url: bool) -> (r: &'static str)
    ensures
        r@ == (if has_art_url {
            "loading\u{2026}"@
        } else {
            "no cover"@
        }),
{
    if has_art_url {
        "loading\u{2026}"
    } else {
        "no cover"
    }
}

} // verus!
