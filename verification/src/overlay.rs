//! The switcher overlay as a state machine: which command a key stands for,
//! what a key press, a scroll or a show does to the overlay's state, and how
//! large the overlay is and where it goes on screen.
use vstd::prelude::*;
use crate::models::{ProjectConfig, UiConfig, WindowInfo};
use crate::overlay_paint::{fits_i32, half, Rect};
use crate::switcher::{window_for_key, Switcher};
use crate::vk::{VK_0, VK_9, VK_A, VK_DOWN, VK_ESCAPE, VK_F5, VK_L, VK_UP, VK_Z};

verus! {

/// One notch of a mouse wheel.
pub const WHEEL_DELTA: i32 = 120;

/// The overlay's own state.  `list_mode` is the diagnostic view that lists
/// every visible window; `scroll_offset` is the vertical scroll in pixels.
#[derive(Debug, Clone, Copy, PartialEq, Eq, Structural)]
pub struct OverlayState {
    pub visible: bool,
    pub list_mode: bool,
    pub scroll_offset: i32,
}

/// What a key pressed inside the overlay stands for.
#[derive(Debug, Clone, Copy, PartialEq, Eq, Structural)]
pub enum KeyCommand {
    Dismiss,
    ReloadConfig,
    ToggleListMode,
    ScrollUp,
    ScrollDown,
    Project(char),
    Ignore,
}

/// What the window procedure has to do after a key press.
#[derive(Debug, Clone, Copy, PartialEq, Eq, Structural)]
pub enum OverlayAction {
    /// Hide the overlay.
    Hide,
    /// Re-read the configuration and repaint.
    ReloadConfig,
    /// List mode was switched; resize to the new item count and repaint.
    ListModeToggled,
    /// Scroll one line up or down.
    Scroll { up: bool },
    /// Hide the overlay and bring this window to the foreground.
    SwitchTo(isize),
    /// Nothing.
    Nothing,
}

/// How the overlay appears when it is summoned.
#[derive(Debug, Clone, Copy, PartialEq, Eq, Structural)]
pub enum ShowMode {
    /// Centred and painted.
    Overlay,
    /// Off screen and unpainted; it still takes the next key.
    Silent,
}

// ── Definitions ─────────────────────────────────────────────────────

/// The command a virtual-key code stands for.
pub open spec fn key_command_of(vk: u32) -> KeyCommand {
    if vk == VK_ESCAPE {
        KeyCommand::Dismiss
    } else if vk == VK_F5 {
        KeyCommand::ReloadConfig
    } else if vk == VK_L {
        KeyCommand::ToggleListMode
    } else if vk == VK_UP {
        KeyCommand::ScrollUp
    } else if vk == VK_DOWN {
        KeyCommand::ScrollDown
    } else if (VK_0 <= vk <= VK_9) || (VK_A <= vk <= VK_Z) {
        KeyCommand::Project(vk as char)
    } else {
        KeyCommand::Ignore
    }
}

/// The state and action that a key press `vk` leads to, for projects `ps`
/// and visible windows `ws`.
pub open spec fn on_key(
    s: OverlayState,
    vk: u32,
    ps: Seq<(String, ProjectConfig)>,
    ws: Seq<WindowInfo>,
) -> (OverlayState, OverlayAction) {
    let hidden = OverlayState { visible: false, ..s };
    match key_command_of(vk) {
        KeyCommand::Dismiss => (hidden, OverlayAction::Hide),
        KeyCommand::ReloadConfig => (s, OverlayAction::ReloadConfig),
        KeyCommand::ToggleListMode => match window_for_key(ps, ws, 'L') {
            Some(h) => (hidden, OverlayAction::SwitchTo(h)),
            None => (OverlayState { list_mode: !s.list_mode, ..s }, OverlayAction::ListModeToggled),
        },
        KeyCommand::ScrollUp => (s, OverlayAction::Scroll { up: true }),
        KeyCommand::ScrollDown => (s, OverlayAction::Scroll { up: false }),
        KeyCommand::Project(c) => match window_for_key(ps, ws, c) {
            Some(h) => (hidden, OverlayAction::SwitchTo(h)),
            None => (s, OverlayAction::Nothing),
        },
        KeyCommand::Ignore => (s, OverlayAction::Nothing),
    }
}

/// The number of rows the overlay reserves room for: the item count as an
/// `i32`, and at least one (for the empty-state message).
pub open spec fn rows_shown(item_count: usize) -> int {
    if (item_count as i32) < 1 {
        1
    } else {
        (item_count as i32) as int
    }
}

/// The height of the overlay's whole content.
pub open spec fn content_height_of(item_count: usize, ui: UiConfig) -> int {
    ui.pad_y * 2 + rows_shown(item_count) * ui.line_height
}

/// The content height can be computed in `i32` without overflow.
pub open spec fn content_height_fits(item_count: usize, ui: UiConfig) -> bool {
    &&& fits_i32(ui.pad_y * 2)
    &&& fits_i32(rows_shown(item_count) * ui.line_height)
    &&& fits_i32(content_height_of(item_count, ui))
}

/// The overlay's height: its content, capped at `max_height` when that is
/// set.
pub open spec fn overlay_height_of(item_count: usize, ui: UiConfig) -> int {
    let c = content_height_of(item_count, ui);
    if ui.max_height > 0 && c > ui.max_height {
        ui.max_height as int
    } else {
        c
    }
}

/// The content is taller than the capped overlay, so it scrolls.
pub open spec fn scrolls(item_count: usize, ui: UiConfig) -> bool {
    ui.max_height > 0 && content_height_of(item_count, ui) > ui.max_height
}

/// The furthest the content can scroll.
pub open spec fn scroll_limit(item_count: usize, ui: UiConfig) -> int {
    let r = content_height_of(item_count, ui) - ui.max_height;
    if r < 1 {
        1
    } else {
        r
    }
}

/// `x` held within `lo..=hi`.
pub open spec fn clamp(x: int, lo: int, hi: int) -> int {
    if x < lo {
        lo
    } else if x > hi {
        hi
    } else {
        x
    }
}

/// The lines that a wheel turn of `delta` scrolls by, in pixels.
pub open spec fn wheel_pixels(line_height: i32, delta: i32) -> int {
    let p = line_height * delta;
    if p >= 0 {
        p / 120
    } else {
        -((-p) / 120)
    }
}

// ── Executable functions ────────────────────────────────────────────

/// The command a virtual-key code stands for: Escape dismisses, F5 reloads,
/// `L` toggles list mode, the arrows scroll, other letters and digits select
/// projects.
pub fn key_command(vk: u32) -> (c: KeyCommand)
    ensures
        c == key_command_of(vk),
{
    if vk == VK_ESCAPE {
        KeyCommand::Dismiss
    } else if vk == VK_F5 {
        KeyCommand::ReloadConfig
    } else if vk == VK_L {
        KeyCommand::ToggleListMode
    } else if vk == VK_UP {
        KeyCommand::ScrollUp
    } else if vk == VK_DOWN {
        KeyCommand::ScrollDown
    } else if (VK_0 <= vk && vk <= VK_9) || (VK_A <= vk && vk <= VK_Z) {
        KeyCommand::Project((vk as u8) as char)
    } else {
        KeyCommand::Ignore
    }
}

/// The height of the overlay's content: the vertical padding twice, plus one
/// line per item (at least one line).
pub fn content_height(item_count: usize, ui: &UiConfig) -> (h: i32)
    requires
        content_height_fits(item_count, *ui),
    ensures
        h == content_height_of(item_count, *ui),
{
    let n = item_count as i32;
    let rows: i32 = if n < 1 {
        1
    } else {
        n
    };
    ui.pad_y * 2 + rows * ui.line_height
}

/// The content height, or `None` where computing it in `i32` would
/// overflow.
pub fn checked_content_height(item_count: usize, ui: &UiConfig) -> (r: Option<i32>)
    ensures
        r is Some <==> content_height_fits(item_count, *ui),
        r matches Some(h) ==> h == content_height_of(item_count, *ui),
{
    let n = item_count as i32;
    let rows: i32 = if n < 1 {
        1
    } else {
        n
    };
    match ui.pad_y.checked_mul(2) {
        Some(pad) => match rows.checked_mul(ui.line_height) {
            Some(lines) => pad.checked_add(lines),
            None => None,
        },
        None => None,
    }
}

/// The overlay's height for `item_count` items: its content height, capped at
/// `max_height` when that is positive.
pub fn overlay_height(item_count: usize, ui: &UiConfig) -> (h: i32)
    requires
        content_height_fits(item_count, *ui),
    ensures
        h == overlay_height_of(item_count, *ui),
        ui.max_height > 0 ==> h <= ui.max_height,
        h <= content_height_of(item_count, *ui),
{
    let c = content_height(item_count, ui);
    if ui.max_height > 0 && c > ui.max_height {
        ui.max_height
    } else {
        c
    }
}

/// The overlay's (width, height) for `item_count` items.
pub fn overlay_size(item_count: usize, ui: &UiConfig) -> (r: (i32, i32))
    requires
        content_height_fits(item_count, *ui),
    ensures
        r.0 == ui.min_width,
        r.1 == overlay_height_of(item_count, *ui),
{
    (ui.min_width, overlay_height(item_count, ui))
}

/// Every step of centring a `width` by `height` window in `area` stays
/// within `i32`.
pub open spec fn centering_fits(area: Rect, width: i32, height: i32) -> bool {
    &&& fits_i32(area.right - area.left)
    &&& fits_i32(area.right - area.left - width)
    &&& fits_i32(area.left + half(area.right - area.left - width))
    &&& fits_i32(area.bottom - area.top)
    &&& fits_i32(area.bottom - area.top - height)
    &&& fits_i32(area.top + half(area.bottom - area.top - height))
}

/// The top-left corner that centres a `width` by `height` window in `area`
/// (halves rounded toward zero); `None` where a step overflows `i32`.
pub fn centered_origin(area: Rect, width: i32, height: i32) -> (p: Option<(i32, i32)>)
    ensures
        p is Some <==> centering_fits(area, width, height),
        p matches Some(v) ==> v.0 == area.left + half(area.right - area.left - width) && v.1
            == area.top + half(area.bottom - area.top - height),
{
    let w = area.right.checked_sub(area.left)?;
    let spare_w = w.checked_sub(width)?;
    let x = area.left.checked_add(spare_w / 2)?;
    let h = area.bottom.checked_sub(area.top)?;
    let spare_h = h.checked_sub(height)?;
    let y = area.top.checked_add(spare_h / 2)?;
    Some((x, y))
}

/// How the overlay appears when summoned: painted, or silently when the
/// configuration turns the overlay off.
pub fn show_mode(ui: &UiConfig) -> (m: ShowMode)
    ensures
        m == (if ui.show_overlay {
            ShowMode::Overlay
        } else {
            ShowMode::Silent
        }),
{
    if ui.show_overlay {
        ShowMode::Overlay
    } else {
        ShowMode::Silent
    }
}

/// The signed wheel movement carried in the high word of a wheel message's
/// `wparam`.
pub fn wheel_delta(wparam: usize) -> (d: i32)
    ensures
        d == ((wparam >> 16usize) as i16) as i32,
        -32768 <= d <= 32767,
{
    ((wparam >> 16) as i16) as i32
}

impl OverlayState {
    /// The state before the overlay is first shown.
    pub fn new() -> (s: Self)
        ensures
            s == (OverlayState { visible: false, list_mode: false, scroll_offset: 0 }),
    {
        OverlayState { visible: false, list_mode: false, scroll_offset: 0 }
    }

    /// Showing the overlay makes it visible, in normal mode, scrolled to the
    /// top.
    pub fn show(&mut self)
        ensures
            *final(self) == (OverlayState { visible: true, list_mode: false, scroll_offset: 0 }),
    {
        self.visible = true;
        self.list_mode = false;
        self.scroll_offset = 0;
    }

    /// Showing the overlay silently (off screen, but holding the keyboard
    /// focus) makes it visible in normal mode; the scroll offset is kept.
    pub fn show_silent(&mut self)
        ensures
            *final(self) == (OverlayState { visible: true, list_mode: false, ..*old(self) }),
    {
        self.visible = true;
        self.list_mode = false;
    }

    /// Dismissing the overlay marks it as not visible.
    pub fn dismiss(&mut self)
        ensures
            *final(self) == (OverlayState { visible: false, ..*old(self) }),
    {
        self.visible = false;
    }

    /// The number of items the overlay shows: in list mode every visible
    /// window plus the header line, otherwise the matched projects.
    pub fn item_count(&self, window_count: usize, match_count: usize) -> (n: usize)
        requires
            self.list_mode ==> window_count < usize::MAX,
        ensures
            n == (if self.list_mode {
                window_count + 1
            } else {
                match_count as int
            }),
    {
        if self.list_mode {
            window_count + 1
        } else {
            match_count
        }
    }

    /// The number of items the overlay is resized for right after list mode
    /// was toggled: in list mode the visible windows (the header line is not
    /// counted), otherwise the matched projects.
    pub fn toggled_item_count(&self, window_count: usize, match_count: usize) -> (n: usize)
        ensures
            n == (if self.list_mode {
                window_count
            } else {
                match_count
            }),
    {
        if self.list_mode {
            window_count
        } else {
            match_count
        }
    }

    /// Reacts to a key pressed inside the overlay.  Escape hides it; F5 asks
    /// for a reload; a letter or digit switches to the window of the project
    /// with that key, if one has a matching window.  `L` does the same when a
    /// project bound to `L` has a matching window, and otherwise toggles list
    /// mode; the arrows ask for a scroll.
    pub fn handle_key(&mut self, vk: u32, switcher: &Switcher) -> (a: OverlayAction)
        ensures
            (*final(self), a) == on_key(*old(self), vk, switcher.projects(), switcher.windows()),
    {
        match key_command(vk) {
            KeyCommand::Dismiss => {
                self.dismiss();
                OverlayAction::Hide
            },
            KeyCommand::ReloadConfig => OverlayAction::ReloadConfig,
            KeyCommand::ToggleListMode => {
                match switcher.find_hwnd_by_key('L') {
                    Some(h) => {
                        self.dismiss();
                        OverlayAction::SwitchTo(h)
                    },
                    None => {
                        self.list_mode = !self.list_mode;
                        OverlayAction::ListModeToggled
                    },
                }
            },
            KeyCommand::ScrollUp => OverlayAction::Scroll { up: true },
            KeyCommand::ScrollDown => OverlayAction::Scroll { up: false },
            KeyCommand::Project(c) => {
                match switcher.find_hwnd_by_key(c) {
                    Some(h) => {
                        self.dismiss();
                        OverlayAction::SwitchTo(h)
                    },
                    None => OverlayAction::Nothing,
                }
            },
            KeyCommand::Ignore => OverlayAction::Nothing,
        }
    }

    /// Scrolls one line up or down when the content is taller than the
    /// capped overlay, keeping the offset within `0..=` the scroll limit; the
    /// answer says whether anything was scrolled.
    pub fn scroll_by_line(&mut self, up: bool, ui: &UiConfig, item_count: usize) -> (scrolled: bool)
        requires
            content_height_fits(item_count, *ui),
            scrolls(item_count, *ui) ==> {
                &&& ui.line_height != i32::MIN
                &&& fits_i32(
                    old(self).scroll_offset + (if up {
                        -ui.line_height
                    } else {
                        ui.line_height as int
                    }),
                )
            },
        ensures
            scrolled == scrolls(item_count, *ui),
            scrolled ==> final(self).scroll_offset == clamp(
                old(self).scroll_offset + (if up {
                    -ui.line_height
                } else {
                    ui.line_height as int
                }),
                0,
                scroll_limit(item_count, *ui),
            ),
            scrolled ==> 0 <= final(self).scroll_offset <= content_height_of(item_count, *ui)
                - ui.max_height,
            !scrolled ==> final(self).scroll_offset == old(self).scroll_offset,
            final(self).visible == old(self).visible,
            final(self).list_mode == old(self).list_mode,
    {
        if ui.max_height > 0 {
            let c = content_height(item_count, ui);
            if c > ui.max_height {
                let range0 = c - ui.max_height;
                let range = if range0 < 1 {
                    1
                } else {
                    range0
                };
                let delta = if up {
                    -ui.line_height
                } else {
                    ui.line_height
                };
                let target = self.scroll_offset + delta;
                self.scroll_offset = if target < 0 {
                    0
                } else if target > range {
                    range
                } else {
                    target
                };
                return true;
            }
        }
        false
    }

    /// Scrolls by a mouse-wheel movement of `delta` (one line per notch of
    /// 120, upwards for positive `delta`) when the content is taller than the
    /// capped overlay; the answer says whether anything was scrolled.
    pub fn scroll_by_wheel(&mut self, delta: i32, ui: &UiConfig, item_count: usize) -> (scrolled: bool)
        requires
            content_height_fits(item_count, *ui),
            scrolls(item_count, *ui) ==> {
                &&& fits_i32(ui.line_height * delta)
                &&& fits_i32(old(self).scroll_offset - wheel_pixels(ui.line_height, delta))
            },
        ensures
            scrolled == scrolls(item_count, *ui),
            scrolled ==> final(self).scroll_offset == clamp(
                old(self).scroll_offset - wheel_pixels(ui.line_height, delta),
                0,
                scroll_limit(item_count, *ui),
            ),
            scrolled ==> 0 <= final(self).scroll_offset <= content_height_of(item_count, *ui)
                - ui.max_height,
            !scrolled ==> final(self).scroll_offset == old(self).scroll_offset,
            final(self).visible == old(self).visible,
            final(self).list_mode == old(self).list_mode,
    {
        if ui.max_height > 0 {
            let c = content_height(item_count, ui);
            if c > ui.max_height {
                let range0 = c - ui.max_height;
                let range = if range0 < 1 {
                    1
                } else {
                    range0
                };
                let line_delta = ui.line_height * delta / WHEEL_DELTA;
                let target = self.scroll_offset - line_delta;
                self.scroll_offset = if target < 0 {
                    0
                } else if target > range {
                    range
                } else {
                    target
                };
                return true;
            }
        }
        false
    }
}

// ── Laws ────────────────────────────────────────────────────────────

/// Pressing `L` twice, when no project bound to `L` has a matching window,
/// leaves the overlay as it was; neither press switches windows.
pub proof fn lemma_list_mode_round_trip(
    s: OverlayState,
    ps: Seq<(String, ProjectConfig)>,
    ws: Seq<WindowInfo>,
)
    requires
        window_for_key(ps, ws, 'L') is None,
    ensures
        on_key(on_key(s, VK_L, ps, ws).0, VK_L, ps, ws).0 == s,
        on_key(s, VK_L, ps, ws).1 == OverlayAction::ListModeToggled,
{
}

/// Escape only hides the overlay: nothing else in its state changes and no
/// window is switched to.
pub proof fn lemma_escape_only_hides(
    s: OverlayState,
    ps: Seq<(String, ProjectConfig)>,
    ws: Seq<WindowInfo>,
)
    ensures
        on_key(s, VK_ESCAPE, ps, ws) == (OverlayState { visible: false, ..s }, OverlayAction::Hide),
{
}

/// No key press moves the scroll offset by itself: the arrow keys only ask
/// for a scroll, which the scroll functions then perform.
pub proof fn lemma_keys_keep_scroll(
    s: OverlayState,
    vk: u32,
    ps: Seq<(String, ProjectConfig)>,
    ws: Seq<WindowInfo>,
)
    ensures
        on_key(s, vk, ps, ws).0.scroll_offset == s.scroll_offset,
{
}

/// A capped overlay is never taller than its cap, and an uncapped one is as
/// tall as its content; there is always room for at least one line.
pub proof fn lemma_overlay_height_bounds(item_count: usize, ui: UiConfig)
    ensures
        ui.max_height > 0 ==> overlay_height_of(item_count, ui) <= ui.max_height,
        ui.max_height <= 0 ==> overlay_height_of(item_count, ui) == content_height_of(
            item_count,
            ui,
        ),
        rows_shown(item_count) >= 1,
{
}

/// The content is twice the vertical padding plus one line per item, and one
/// line when there are no items; uncapped, the overlay is exactly that tall.
pub proof fn lemma_content_height_formula(item_count: usize, ui: UiConfig)
    ensures
        1 <= item_count <= i32::MAX ==> content_height_of(item_count, ui) == 2 * ui.pad_y
            + item_count * ui.line_height,
        item_count == 0 ==> content_height_of(item_count, ui) == 2 * ui.pad_y + ui.line_height,
        ui.max_height <= 0 ==> overlay_height_of(item_count, ui) == content_height_of(
            item_count,
            ui,
        ),
{
}

/// One more pixel of vertical padding makes the content two pixels taller
/// (one above, one below); one more pixel of line height makes it taller by
/// one pixel per line.
pub proof fn lemma_content_height_grows(item_count: usize, ui: UiConfig)
    ensures
        ui.pad_y < i32::MAX ==> content_height_of(item_count, UiConfig { pad_y: (ui.pad_y + 1) as i32, ..ui })
            == content_height_of(item_count, ui) + 2,
        ui.line_height < i32::MAX && 1 <= item_count <= i32::MAX ==> content_height_of(
            item_count,
            UiConfig { line_height: (ui.line_height + 1) as i32, ..ui },
        ) == content_height_of(item_count, ui) + item_count,
{
    let r = rows_shown(item_count);
    assert(r * (ui.line_height + 1) == r * ui.line_height + r) by (nonlinear_arith);
}

/// One notch of the wheel (120) scrolls exactly one configured line, and `k`
/// notches scroll `k` lines, in either direction.
pub proof fn lemma_wheel_notch_is_one_line(line_height: i32, notches: int)
    requires
        -270 <= notches <= 270,
    ensures
        wheel_pixels(line_height, (120 * notches) as i32) == line_height * notches,
        wheel_pixels(line_height, -120i32) == -line_height,
        wheel_pixels(line_height, 120) == line_height as int,
{
    let lh = line_height as int;
    let d = 120 * notches;
    assert(-32768 <= d <= 32767);
    assert(((d as i32) as int) == d);
    let p = lh * d;
    assert(p == (lh * notches) * 120) by (nonlinear_arith)
        requires
            p == lh * d,
            d == 120 * notches,
    ;
    if p >= 0 {
        assert(p / 120 == lh * notches) by (nonlinear_arith)
            requires
                p == (lh * notches) * 120,
        ;
    } else {
        assert((-p) / 120 == -(lh * notches)) by (nonlinear_arith)
            requires
                -p == (-(lh * notches)) * 120,
        ;
    }
    assert(lh * (-120) == -(lh * 120)) by (nonlinear_arith);
    let q = lh * 120;
    if q >= 0 {
        assert(q / 120 == lh) by (nonlinear_arith)
            requires
                q == lh * 120,
        ;
    } else {
        assert((-q) / 120 == -lh) by (nonlinear_arith)
            requires
                -q == (-lh) * 120,
        ;
    }
}

} // verus!
