//! The geometry of the overlay's painting: which rows are on screen, where a
//! row's pieces go, where the empty-state message goes, and the scrollbar's
//! track and thumb.  The painter measures text and draws; everything it
//! positions is computed here.
use vstd::prelude::*;
use crate::defaults::{ICON_TITLE_GAP, KEY_ICON_GAP, LIST_NUM_ICON_GAP};
use crate::models::UiConfig;

verus! {

/// A rectangle in pixels: left and top inclusive, right and bottom
/// exclusive.
#[derive(Debug, Clone, Copy, PartialEq, Eq, Structural)]
pub struct Rect {
    pub left: i32,
    pub top: i32,
    pub right: i32,
    pub bottom: i32,
}

/// Horizontal padding inside the key badge.
pub const BADGE_PAD_X: i32 = 6;
/// Vertical padding inside the key badge.
pub const BADGE_PAD_Y: i32 = 4;
/// Distance of the scrollbar from the right edge.
pub const SCROLLBAR_INSET: i32 = 10;
/// Width of the scrollbar.
pub const SCROLLBAR_WIDTH: i32 = 6;
/// Smallest height of the scrollbar's thumb.
pub const MIN_THUMB_HEIGHT: i32 = 20;

/// The value lies in the range of `i32`.
pub open spec fn fits_i32(x: int) -> bool {
    i32::MIN <= x <= i32::MAX
}

/// Half of `x`, rounded toward zero (integer division by 2).
pub open spec fn half(x: int) -> int {
    if x >= 0 {
        x / 2
    } else {
        -((-x) / 2)
    }
}

/// `a / b` rounded toward zero, for a positive `b`.
pub open spec fn div_toward_zero(a: int, b: int) -> int {
    if a >= 0 {
        a / b
    } else {
        -((-a) / b)
    }
}

/// The track and thumb of the scrollbar.
#[derive(Debug, Clone, Copy, PartialEq, Eq, Structural)]
pub struct ScrollbarGeometry {
    pub track: Rect,
    pub thumb: Rect,
}

/// The thumb's height: the visible share of the track, at least
/// `MIN_THUMB_HEIGHT`, at most the whole track.
pub open spec fn thumb_height(track_h: int, visible_height: int, content_height: int) -> int {
    let c = if content_height < 1 {
        1
    } else {
        content_height
    };
    let share = div_toward_zero(track_h * visible_height, c);
    let at_least = if share < MIN_THUMB_HEIGHT {
        MIN_THUMB_HEIGHT as int
    } else {
        share
    };
    if at_least > track_h {
        track_h
    } else {
        at_least
    }
}

/// The scrollbar for a client area whose right edge is `right`, whose visible
/// height is `visible_height`, showing content `content_height` tall scrolled
/// by `scroll_offset`.
pub open spec fn scrollbar_of(
    right: int,
    pad_y: int,
    visible_height: int,
    content_height: int,
    scroll_offset: int,
) -> (int, int, int, int, int, int) {
    let track_x = right - SCROLLBAR_INSET;
    let track_top = pad_y;
    let track_bottom = visible_height - pad_y;
    let track_h = track_bottom - track_top;
    let thumb_h = thumb_height(track_h, visible_height, content_height);
    let thumb_range = if track_h - thumb_h < 1 {
        1
    } else {
        track_h - thumb_h
    };
    let scroll_range = if content_height - visible_height < 1 {
        1
    } else {
        content_height - visible_height
    };
    let thumb_y = track_top + div_toward_zero(scroll_offset * thumb_range, scroll_range);
    (track_x, track_top, track_bottom, track_h, thumb_y, thumb_h)
}

/// The scrollbar's track and thumb as rectangles.
pub open spec fn scrollbar_geometry_of(
    right: i32,
    pad_y: i32,
    visible_height: i32,
    content_height: i32,
    scroll_offset: i32,
) -> ScrollbarGeometry {
    let s = scrollbar_of(
        right as int,
        pad_y as int,
        visible_height as int,
        content_height as int,
        scroll_offset as int,
    );
    ScrollbarGeometry {
        track: Rect {
            left: s.0 as i32,
            top: s.1 as i32,
            right: (s.0 + SCROLLBAR_WIDTH) as i32,
            bottom: s.2 as i32,
        },
        thumb: Rect {
            left: s.0 as i32,
            top: s.4 as i32,
            right: (s.0 + SCROLLBAR_WIDTH) as i32,
            bottom: (s.4 + s.5) as i32,
        },
    }
}

/// Every step of the scrollbar computation stays within `i32`.
pub open spec fn scrollbar_fits(
    right: int,
    pad_y: int,
    visible_height: int,
    content_height: int,
    scroll_offset: int,
) -> bool {
    let g = scrollbar_of(right, pad_y, visible_height, content_height, scroll_offset);
    let track_h = g.3;
    let thumb_h = g.5;
    let thumb_range = if track_h - thumb_h < 1 {
        1
    } else {
        track_h - thumb_h
    };
    &&& fits_i32(right - SCROLLBAR_INSET)
    &&& fits_i32(right - SCROLLBAR_INSET + SCROLLBAR_WIDTH)
    &&& fits_i32(visible_height - pad_y)
    &&& fits_i32(track_h)
    &&& fits_i32(track_h * visible_height)
    &&& fits_i32(track_h - thumb_h)
    &&& fits_i32(content_height - visible_height)
    &&& fits_i32(scroll_offset * thumb_range)
    &&& fits_i32(g.4)
    &&& fits_i32(g.4 + thumb_h)
}

/// Whether the content needs a scrollbar: the overlay is capped and the
/// content is taller than what is visible.
pub fn scrollbar_needed(ui: &UiConfig, content_height: i32, visible_height: i32) -> (b: bool)
    ensures
        b == (ui.max_height > 0 && content_height > visible_height),
{
    ui.max_height > 0 && content_height > visible_height
}

/// The scrollbar's track (a strip `SCROLLBAR_WIDTH` wide, `SCROLLBAR_INSET`
/// from the right edge, between the vertical paddings) and its thumb, whose
/// height is the visible share of the track and whose position follows the
/// scroll offset.
pub fn scrollbar_geometry(
    right: i32,
    pad_y: i32,
    visible_height: i32,
    content_height: i32,
    scroll_offset: i32,
) -> (g: ScrollbarGeometry)
    requires
        scrollbar_fits(
            right as int,
            pad_y as int,
            visible_height as int,
            content_height as int,
            scroll_offset as int,
        ),
    ensures
        g == scrollbar_geometry_of(right, pad_y, visible_height, content_height, scroll_offset),
{
    let track_x = right - SCROLLBAR_INSET;
    let track_top = pad_y;
    let track_bottom = visible_height - pad_y;
    let track_h = track_bottom - track_top;
    let c = if content_height < 1 {
        1
    } else {
        content_height
    };
    let share = track_h * visible_height / c;
    let at_least = if share < MIN_THUMB_HEIGHT {
        MIN_THUMB_HEIGHT
    } else {
        share
    };
    let thumb_h = if at_least > track_h {
        track_h
    } else {
        at_least
    };
    let thumb_range = if track_h - thumb_h < 1 {
        1
    } else {
        track_h - thumb_h
    };
    let scroll_range = if content_height - visible_height < 1 {
        1
    } else {
        content_height - visible_height
    };
    let thumb_y = track_top + scroll_offset * thumb_range / scroll_range;
    ScrollbarGeometry {
        track: Rect {
            left: track_x,
            top: track_top,
            right: track_x + SCROLLBAR_WIDTH,
            bottom: track_bottom,
        },
        thumb: Rect {
            left: track_x,
            top: thumb_y,
            right: track_x + SCROLLBAR_WIDTH,
            bottom: thumb_y + thumb_h,
        },
    }
}

/// The scrollbar, or `None` where one of its steps would overflow `i32`.
pub fn checked_scrollbar_geometry(
    right: i32,
    pad_y: i32,
    visible_height: i32,
    content_height: i32,
    scroll_offset: i32,
) -> (r: Option<ScrollbarGeometry>)
    ensures
        r is Some <==> scrollbar_fits(
            right as int,
            pad_y as int,
            visible_height as int,
            content_height as int,
            scroll_offset as int,
        ),
        r matches Some(g) ==> g == scrollbar_geometry_of(
            right,
            pad_y,
            visible_height,
            content_height,
            scroll_offset,
        ),
{
    let track_x = right.checked_sub(SCROLLBAR_INSET)?;
    let _track_right = track_x.checked_add(SCROLLBAR_WIDTH)?;
    let track_bottom = visible_height.checked_sub(pad_y)?;
    let track_h = track_bottom.checked_sub(pad_y)?;
    let product = track_h.checked_mul(visible_height)?;
    let c = if content_height < 1 {
        1
    } else {
        content_height
    };
    let share = product / c;
    let at_least = if share < MIN_THUMB_HEIGHT {
        MIN_THUMB_HEIGHT
    } else {
        share
    };
    let thumb_h = if at_least > track_h {
        track_h
    } else {
        at_least
    };
    let spare = track_h.checked_sub(thumb_h)?;
    let thumb_range = if spare < 1 {
        1
    } else {
        spare
    };
    let hidden = content_height.checked_sub(visible_height)?;
    let moved = scroll_offset.checked_mul(thumb_range)?;
    let thumb_y = pad_y.checked_add(moved / (if hidden < 1 {
        1
    } else {
        hidden
    }))?;
    let _thumb_bottom = thumb_y.checked_add(thumb_h)?;
    Some(scrollbar_geometry(right, pad_y, visible_height, content_height, scroll_offset))
}

/// The top of row `index` (counted from the first row under the top
/// padding) after scrolling by `scroll_offset`; `None` where that overflows
/// `i32`.
pub fn row_top(index: usize, ui: &UiConfig, scroll_offset: i32) -> (y: Option<i32>)
    ensures
        y == (if index <= i32::MAX && fits_i32(index * ui.line_height) && fits_i32(
            ui.pad_y + index * ui.line_height,
        ) && fits_i32(ui.pad_y + index * ui.line_height - scroll_offset) {
            Some((ui.pad_y + index * ui.line_height - scroll_offset) as i32)
        } else {
            None
        }),
{
    if index > i32::MAX as usize {
        return None;
    }
    let i = index as i32;
    let lines = i.checked_mul(ui.line_height)?;
    let top = ui.pad_y.checked_add(lines)?;
    top.checked_sub(scroll_offset)
}

/// Whether a row whose top is `item_y` is at least partly inside a client
/// area `visible_height` tall; `None` where the row's bottom overflows
/// `i32`.
pub fn row_visible(item_y: i32, line_height: i32, visible_height: i32) -> (b: Option<bool>)
    ensures
        b == (if fits_i32(item_y + line_height) {
            Some(item_y + line_height > 0 && item_y < visible_height)
        } else {
            None
        }),
{
    let bottom = item_y.checked_add(line_height)?;
    Some(bottom > 0 && item_y < visible_height)
}

/// The top at which something `size` tall is centred on the line `center`;
/// `None` where that overflows `i32`.
pub fn centered_top(center: i32, size: i32) -> (y: Option<i32>)
    ensures
        y == (if fits_i32(center - half(size as int)) {
            Some((center - half(size as int)) as i32)
        } else {
            None
        }),
{
    center.checked_sub(size / 2)
}

/// The vertical centre of a row whose top is `item_y`; `None` where that
/// overflows `i32`.
pub fn row_center(item_y: i32, line_height: i32) -> (y: Option<i32>)
    ensures
        y == (if fits_i32(item_y + half(line_height as int)) {
            Some((item_y + half(line_height as int)) as i32)
        } else {
            None
        }),
{
    item_y.checked_add(line_height / 2)
}

/// The left edge at which text `text_width` wide is centred in `area`;
/// `None` where that overflows `i32`.
pub fn centered_left(area: Rect, text_width: i32) -> (x: Option<i32>)
    ensures
        x == (if fits_i32(area.right - area.left) && fits_i32(area.right - area.left - text_width) {
            Some(half(area.right - area.left - text_width) as i32)
        } else {
            None
        }),
{
    let width = area.right.checked_sub(area.left)?;
    let spare = width.checked_sub(text_width)?;
    Some(spare / 2)
}

/// The tops of the two lines of the empty-state message: the first one line
/// above the vertical middle of the client area, the second right below it.
/// `None` where that overflows `i32`.
pub fn empty_state_rows(visible_height: i32, line_height: i32) -> (r: Option<(i32, i32)>)
    ensures
        r == (if fits_i32(half(visible_height as int) - line_height) && fits_i32(
            half(visible_height as int),
        ) {
            Some(
                (
                    (half(visible_height as int) - line_height) as i32,
                    half(visible_height as int) as i32,
                ),
            )
        } else {
            None
        }),
{
    let first = (visible_height / 2).checked_sub(line_height)?;
    let second = first.checked_add(line_height)?;
    Some((first, second))
}

/// The icon size used when painting: the configured size, or 0 (no icons)
/// when it is negative.
pub fn shown_icon_size(ui: &UiConfig) -> (n: i32)
    ensures
        n == (if ui.icon_size < 0 {
            0
        } else {
            ui.icon_size
        }),
        n >= 0,
{
    if ui.icon_size < 0 {
        0
    } else {
        ui.icon_size
    }
}

/// Where the window icon of a list-mode row goes: after the row's index
/// number, `LIST_NUM_ICON_GAP` further.  `None` where that overflows `i32`.
pub fn after_index_number(content_x: i32, number_width: i32) -> (x: Option<i32>)
    ensures
        x == (if fits_i32(content_x + number_width) && fits_i32(
            content_x + number_width + LIST_NUM_ICON_GAP,
        ) {
            Some((content_x + number_width + LIST_NUM_ICON_GAP) as i32)
        } else {
            None
        }),
{
    content_x.checked_add(number_width)?.checked_add(LIST_NUM_ICON_GAP)
}

/// Where the window icon of a normal-mode row goes: `KEY_ICON_GAP` after the
/// key badge's right edge.  `None` where that overflows `i32`.
pub fn after_key_badge(badge_right: i32) -> (x: Option<i32>)
    ensures
        x == (if fits_i32(badge_right + KEY_ICON_GAP) {
            Some((badge_right + KEY_ICON_GAP) as i32)
        } else {
            None
        }),
{
    badge_right.checked_add(KEY_ICON_GAP)
}

/// Where a row's title goes: after the icon and `ICON_TITLE_GAP` when icons
/// are shown (`icon_size` above 0), otherwise where the icon would have
/// gone.  `None` where that overflows `i32`.
pub fn title_left(content_x: i32, icon_size: i32) -> (x: Option<i32>)
    ensures
        x == (if icon_size <= 0 {
            Some(content_x)
        } else if fits_i32(content_x + icon_size) && fits_i32(
            content_x + icon_size + ICON_TITLE_GAP,
        ) {
            Some((content_x + icon_size + ICON_TITLE_GAP) as i32)
        } else {
            None
        }),
{
    if icon_size <= 0 {
        Some(content_x)
    } else {
        content_x.checked_add(icon_size)?.checked_add(ICON_TITLE_GAP)
    }
}

/// Every step of the key badge's layout stays within `i32`.
pub open spec fn key_badge_fits(content_x: int, center_y: int, text_w: int, text_h: int) -> bool {
    &&& fits_i32(text_w + 2 * BADGE_PAD_X)
    &&& fits_i32(text_h + 2 * BADGE_PAD_Y)
    &&& fits_i32(content_x + text_w + 2 * BADGE_PAD_X)
    &&& fits_i32(center_y - half(text_h + 2 * BADGE_PAD_Y))
    &&& fits_i32(center_y - half(text_h + 2 * BADGE_PAD_Y) + text_h + 2 * BADGE_PAD_Y)
    &&& fits_i32(content_x + BADGE_PAD_X)
    &&& fits_i32(center_y - half(text_h + 2 * BADGE_PAD_Y) + BADGE_PAD_Y)
}

/// The key badge of a row: a box starting at `content_x`, centred on
/// `center_y`, padded around text of the given size; and the point at which
/// the key text is drawn.  `None` where a step overflows `i32`.
pub fn key_badge(content_x: i32, center_y: i32, text_w: i32, text_h: i32) -> (r: Option<
    (Rect, i32, i32),
>)
    ensures
        r is Some <==> key_badge_fits(content_x as int, center_y as int, text_w as int, text_h as int),
        r matches Some(v) ==> ({
            let box_h = text_h + 2 * BADGE_PAD_Y;
            let box_y = center_y - half(box_h);
            &&& v.0 == (Rect {
                left: content_x,
                top: box_y as i32,
                right: (content_x + text_w + 2 * BADGE_PAD_X) as i32,
                bottom: (box_y + box_h) as i32,
            })
            &&& v.1 == content_x + BADGE_PAD_X
            &&& v.2 == box_y + BADGE_PAD_Y
        }),
{
    let box_w = text_w.checked_add(BADGE_PAD_X * 2)?;
    let box_h = text_h.checked_add(BADGE_PAD_Y * 2)?;
    let right = content_x.checked_add(box_w)?;
    let box_y = center_y.checked_sub(box_h / 2)?;
    let bottom = box_y.checked_add(box_h)?;
    let text_x = content_x.checked_add(BADGE_PAD_X)?;
    let text_y = box_y.checked_add((box_h - text_h) / 2)?;
    Some((Rect { left: content_x, top: box_y, right, bottom }, text_x, text_y))
}

// ── Laws ────────────────────────────────────────────────────────────

/// When the content is taller than what is visible, the track is taller than
/// the smallest thumb, and the scroll offset lies in `0..=` the hidden part
/// of the content, the thumb lies inside the track.
pub proof fn lemma_thumb_inside_track(
    right: int,
    pad_y: int,
    visible_height: int,
    content_height: int,
    scroll_offset: int,
)
    requires
        visible_height >= 0,
        content_height > visible_height,
        visible_height - 2 * pad_y > MIN_THUMB_HEIGHT,
        0 <= scroll_offset <= content_height - visible_height,
    ensures
        ({
            let g = scrollbar_of(right, pad_y, visible_height, content_height, scroll_offset);
            &&& g.1 <= g.4
            &&& g.4 + g.5 <= g.2
            &&& g.5 >= MIN_THUMB_HEIGHT
        }),
{
    let track_h = visible_height - 2 * pad_y;
    let share = div_toward_zero(track_h * visible_height, content_height);
    assert(track_h * visible_height >= 0) by (nonlinear_arith)
        requires
            track_h > 0,
            visible_height >= 0,
    ;
    assert(share < track_h) by (nonlinear_arith)
        requires
            share == (track_h * visible_height) / content_height,
            track_h > 0,
            0 <= visible_height < content_height,
    ;
    let thumb_h = thumb_height(track_h, visible_height, content_height);
    assert(thumb_h < track_h);
    let thumb_range = track_h - thumb_h;
    let scroll_range = content_height - visible_height;
    let moved = div_toward_zero(scroll_offset * thumb_range, scroll_range);
    assert(0 <= moved <= thumb_range) by (nonlinear_arith)
        requires
            moved == (scroll_offset * thumb_range) / scroll_range,
            0 <= scroll_offset <= scroll_range,
            thumb_range >= 1,
            scroll_range >= 1,
    ;
}

/// Under the same conditions, the thumb starts at the top of the track when
/// the content is not scrolled, ends at the bottom of the track when it is
/// scrolled to the end, and never moves up as the scroll offset grows.
pub proof fn lemma_thumb_follows_offset(
    right: int,
    pad_y: int,
    visible_height: int,
    content_height: int,
    offset1: int,
    offset2: int,
)
    requires
        visible_height >= 0,
        content_height > visible_height,
        visible_height - 2 * pad_y > MIN_THUMB_HEIGHT,
        0 <= offset1 <= offset2 <= content_height - visible_height,
    ensures
        ({
            let g1 = scrollbar_of(right, pad_y, visible_height, content_height, offset1);
            let g2 = scrollbar_of(right, pad_y, visible_height, content_height, offset2);
            &&& g1.4 <= g2.4
            &&& offset1 == 0 ==> g1.4 == g1.1
            &&& offset2 == content_height - visible_height ==> g2.4 + g2.5 == g2.2
        }),
{
    let track_h = visible_height - 2 * pad_y;
    let share = div_toward_zero(track_h * visible_height, content_height);
    assert(track_h * visible_height >= 0) by (nonlinear_arith)
        requires
            track_h > 0,
            visible_height >= 0,
    ;
    assert(share < track_h) by (nonlinear_arith)
        requires
            share == (track_h * visible_height) / content_height,
            track_h > 0,
            0 <= visible_height < content_height,
    ;
    let thumb_h = thumb_height(track_h, visible_height, content_height);
    let thumb_range = track_h - thumb_h;
    assert(thumb_range >= 1);
    let scroll_range = content_height - visible_height;
    let m1 = div_toward_zero(offset1 * thumb_range, scroll_range);
    let m2 = div_toward_zero(offset2 * thumb_range, scroll_range);
    assert(offset1 * thumb_range >= 0 && offset1 * thumb_range <= offset2 * thumb_range) by (nonlinear_arith)
        requires
            0 <= offset1 <= offset2,
            thumb_range >= 1,
    ;
    assert(m1 <= m2) by (nonlinear_arith)
        requires
            m1 == (offset1 * thumb_range) / scroll_range,
            m2 == (offset2 * thumb_range) / scroll_range,
            0 <= offset1 * thumb_range <= offset2 * thumb_range,
            scroll_range >= 1,
    ;
    if offset1 == 0 {
        assert(offset1 * thumb_range == 0);
    }
    if offset2 == scroll_range {
        assert(m2 == thumb_range) by (nonlinear_arith)
            requires
                m2 == (offset2 * thumb_range) / scroll_range,
                offset2 == scroll_range,
                scroll_range >= 1,
        ;
    }
}

} // verus!
