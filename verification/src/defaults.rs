//! Every default of the application in one place.
use vstd::prelude::*;

verus! {

// ── UI ──────────────────────────────────────────────────────────────

pub const FONT_HEIGHT: i32 = 18;
pub const LINE_HEIGHT: i32 = 32;
pub const PAD_X: i32 = 24;
pub const PAD_Y: i32 = 16;
pub const MIN_WIDTH: i32 = 560;

// colours in 0xRRGGBB
pub const KEY_COLOR: u32 = 0xFFA500;
pub const TEXT_COLOR: u32 = 0xE0E0E0;
pub const BG_COLOR: u32 = 0x1A1A1A;
pub const BORDER_COLOR: u32 = 0x333333;
pub const KEY_BOX_COLOR: u32 = 0x333333;

pub const SHOW_OVERLAY: bool = true;
/// 0 lets the overlay grow to fit its content.
pub const MAX_HEIGHT: i32 = 0;
/// 0 hides the window icons.
pub const ICON_SIZE: i32 = 14;

// ── Layout spacing (pixels) ─────────────────────────────────────────

/// Gap between the key badge and the window icon in normal mode.
pub const KEY_ICON_GAP: i32 = 22;
/// Gap between the index number and the window icon in list mode.
pub const LIST_NUM_ICON_GAP: i32 = 22;
/// Gap between the icon and the title text.
pub const ICON_TITLE_GAP: i32 = 8;

// ── Behaviour ───────────────────────────────────────────────────────

/// The global hotkey used when the configuration names none.  It avoids
/// `Alt+Space`, which the system reserves for the window menu.
pub const HOTKEY: &'static str = "Ctrl+Shift+Space";

pub fn default_font_height() -> (r: i32)
    ensures
        r == FONT_HEIGHT,
{
    FONT_HEIGHT
}

pub fn default_line_height() -> (r: i32)
    ensures
        r == LINE_HEIGHT,
{
    LINE_HEIGHT
}

pub fn default_pad_x() -> (r: i32)
    ensures
        r == PAD_X,
{
    PAD_X
}

pub fn default_pad_y() -> (r: i32)
    ensures
        r == PAD_Y,
{
    PAD_Y
}

pub fn default_min_width() -> (r: i32)
    ensures
        r == MIN_WIDTH,
{
    MIN_WIDTH
}

pub fn default_key_color() -> (r: u32)
    ensures
        r == KEY_COLOR,
{
    KEY_COLOR
}

pub fn default_text_color() -> (r: u32)
    ensures
        r == TEXT_COLOR,
{
    TEXT_COLOR
}

pub fn default_bg_color() -> (r: u32)
    ensures
        r == BG_COLOR,
{
    BG_COLOR
}

pub fn default_border_color() -> (r: u32)
    ensures
        r == BORDER_COLOR,
{
    BORDER_COLOR
}

pub fn default_show_overlay() -> (r: bool)
    ensures
        r == SHOW_OVERLAY,
{
    SHOW_OVERLAY
}

pub fn default_max_height() -> (r: i32)
    ensures
        r == MAX_HEIGHT,
{
    MAX_HEIGHT
}

pub fn default_icon_size() -> (r: i32)
    ensures
        r == ICON_SIZE,
{
    ICON_SIZE
}

pub fn default_key_box_color() -> (r: u32)
    ensures
        r == KEY_BOX_COLOR,
{
    KEY_BOX_COLOR
}

/// The default hotkey, as an owned string.
pub fn default_hotkey() -> (r: String)
    ensures
        r@ == HOTKEY@,
{
    String::from_str(HOTKEY)
}

} // verus!
