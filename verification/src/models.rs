//! The data shared by the rest of the library: windows, projects and the
//! configuration with its defaults.
use vstd::prelude::*;
use crate::defaults::{
    default_bg_color, default_border_color, default_font_height, default_hotkey,
    default_icon_size, default_key_box_color, default_key_color, default_line_height,
    default_max_height, default_min_width, default_pad_x, default_pad_y, default_show_overlay,
    default_text_color, BG_COLOR, BORDER_COLOR, FONT_HEIGHT, HOTKEY, ICON_SIZE, KEY_BOX_COLOR,
    KEY_COLOR, LINE_HEIGHT, MAX_HEIGHT, MIN_WIDTH, PAD_X, PAD_Y, SHOW_OVERLAY, TEXT_COLOR,
};

verus! {

/// A visible top-level window: its handle (the raw value of the window
/// handle) and its full caption.
#[derive(Debug, Clone)]
pub struct WindowInfo {
    pub hwnd: isize,
    pub title: String,
}

/// One project of the configuration: the single key that selects it and the
/// text searched for in window titles.
#[derive(Debug, Clone)]
pub struct ProjectConfig {
    pub key: String,
    pub match_pattern: String,
}

/// Appearance of the overlay.  Colours are `0xRRGGBB`; a `max_height` of 0
/// lets the overlay grow to fit its content.
#[derive(Debug, Clone, Copy, PartialEq, Eq, Structural)]
pub struct UiConfig {
    pub font_height: i32,
    pub line_height: i32,
    pub pad_x: i32,
    pub pad_y: i32,
    pub min_width: i32,
    pub key_color: u32,
    pub text_color: u32,
    pub bg_color: u32,
    pub border_color: u32,
    pub show_overlay: bool,
    pub max_height: i32,
    pub icon_size: i32,
    pub key_box_color: u32,
}

impl UiConfig {
    /// The appearance used for every field the configuration leaves out.
    pub open spec fn defaults() -> UiConfig {
        UiConfig {
            font_height: FONT_HEIGHT,
            line_height: LINE_HEIGHT,
            pad_x: PAD_X,
            pad_y: PAD_Y,
            min_width: MIN_WIDTH,
            key_color: KEY_COLOR,
            text_color: TEXT_COLOR,
            bg_color: BG_COLOR,
            border_color: BORDER_COLOR,
            show_overlay: SHOW_OVERLAY,
            max_height: MAX_HEIGHT,
            icon_size: ICON_SIZE,
            key_box_color: KEY_BOX_COLOR,
        }
    }
}

impl Default for UiConfig {
    fn default() -> (r: Self)
        ensures
            r == UiConfig::defaults(),
    {
        UiConfig {
            font_height: default_font_height(),
            line_height: default_line_height(),
            pad_x: default_pad_x(),
            pad_y: default_pad_y(),
            min_width: default_min_width(),
            key_color: default_key_color(),
            text_color: default_text_color(),
            bg_color: default_bg_color(),
            border_color: default_border_color(),
            show_overlay: default_show_overlay(),
            max_height: default_max_height(),
            icon_size: default_icon_size(),
            key_box_color: default_key_box_color(),
        }
    }
}

/// The whole configuration: the global hotkey, the projects by name, and the
/// appearance.  `projects` lists each name once; its order is the order in
/// which the matcher visits the projects.
#[derive(Debug, Clone)]
pub struct Config {
    pub hotkey: String,
    pub projects: Vec<(String, ProjectConfig)>,
    pub ui: UiConfig,
}

impl Config {
    /// No project name occurs twice.
    pub open spec fn names_unique(&self) -> bool {
        forall|i: int, j: int|
            0 <= i < self.projects@.len() && 0 <= j < self.projects@.len() && i != j
                ==> #[trigger] self.projects@[i].0@ != #[trigger] self.projects@[j].0@
    }

    /// Whether no project name occurs twice.
    pub fn has_unique_names(&self) -> (b: bool)
        ensures
            b == self.names_unique(),
    {
        let n = self.projects.len();
        let mut i: usize = 0;
        while i < n
            invariant
                n == self.projects@.len(),
                i <= n,
                forall|a: int, b: int|
                    0 <= a < i && 0 <= b < n && a != b ==> #[trigger] self.projects@[a].0@
                        != #[trigger] self.projects@[b].0@,
            decreases n - i,
        {
            let mut j: usize = 0;
            while j < n
                invariant
                    n == self.projects@.len(),
                    i < n,
                    j <= n,
                    forall|a: int, b: int|
                        0 <= a < i && 0 <= b < n && a != b ==> #[trigger] self.projects@[a].0@
                            != #[trigger] self.projects@[b].0@,
                    forall|b: int|
                        0 <= b < j && b != i ==> self.projects@[i as int].0@
                            != #[trigger] self.projects@[b].0@,
                decreases n - j,
            {
                if j != i && self.projects[i].0 == self.projects[j].0 {
                    return false;
                }
                j += 1;
            }
            i += 1;
        }
        true
    }
}

impl Default for Config {
    /// The configuration used when no file exists yet: the default hotkey, no
    /// projects, and the default appearance.
    fn default() -> (r: Self)
        ensures
            r.hotkey@ == HOTKEY@,
            r.projects@.len() == 0,
            r.ui == UiConfig::defaults(),
            r.names_unique(),
    {
        Config { hotkey: default_hotkey(), projects: Vec::new(), ui: UiConfig::default() }
    }
}

} // verus!
