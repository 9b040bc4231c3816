//! Decision logic of a keyboard-driven window switcher: hotkey parsing,
//! project-to-window matching, overlay state and layout, and the small
//! classifiers that map window messages to commands.
pub mod defaults;
pub mod hotkey;
pub mod logger;
pub mod models;
pub mod overlay;
pub mod overlay_paint;
pub mod switcher;
pub mod text;
pub mod tray;
pub mod vk;
pub mod windows;
