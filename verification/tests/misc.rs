use vwi::defaults;
use vwi::logger::log_line;
use vwi::models::{Config, UiConfig};
use vwi::tray::{is_rbutton_up, is_tray_menu_cmd, is_tray_msg, TrayMenuAction};
use vwi::windows::{is_candidate_window, pick_icon, restore_command, RestoreCommand};

#[test]
fn ui_defaults() {
    let u = UiConfig::default();
    assert_eq!(u.font_height, 18);
    assert_eq!(u.line_height, 32);
    assert_eq!(u.pad_x, 24);
    assert_eq!(u.pad_y, 16);
    assert_eq!(u.min_width, 560);
    assert_eq!(u.key_color, 0xFFA500);
    assert_eq!(u.text_color, 0xE0E0E0);
    assert_eq!(u.bg_color, 0x1A1A1A);
    assert_eq!(u.border_color, 0x333333);
    assert!(u.show_overlay);
    assert_eq!(u.max_height, 0);
    assert_eq!(u.icon_size, 14);
    assert_eq!(u.key_box_color, 0x333333);
}

#[test]
fn default_functions() {
    assert_eq!(defaults::default_font_height(), 18);
    assert_eq!(defaults::default_line_height(), 32);
    assert_eq!(defaults::default_pad_x(), 24);
    assert_eq!(defaults::default_pad_y(), 16);
    assert_eq!(defaults::default_min_width(), 560);
    assert_eq!(defaults::default_key_color(), 0xFFA500);
    assert_eq!(defaults::default_text_color(), 0xE0E0E0);
    assert_eq!(defaults::default_bg_color(), 0x1A1A1A);
    assert_eq!(defaults::default_border_color(), 0x333333);
    assert!(defaults::default_show_overlay());
    assert_eq!(defaults::default_max_height(), 0);
    assert_eq!(defaults::default_icon_size(), 14);
    assert_eq!(defaults::default_key_box_color(), 0x333333);
    assert_eq!(defaults::default_hotkey(), "Ctrl+Shift+Space");
}

#[test]
fn config_default() {
    let c = Config::default();
    assert_eq!(c.hotkey, "Ctrl+Shift+Space");
    assert!(c.projects.is_empty());
    assert_eq!(c.ui, UiConfig::default());
}

#[test]
fn tray_messages() {
    assert!(is_tray_msg(0x8001));
    assert!(!is_tray_msg(0x8000));
    assert!(is_rbutton_up(0x0205));
    assert!(!is_rbutton_up(0x0202));
    assert!(!is_rbutton_up(0x0204));
}

#[test]
fn tray_menu_commands() {
    assert_eq!(is_tray_menu_cmd(1001), Some(TrayMenuAction::ShowOverlay));
    assert_eq!(is_tray_menu_cmd(1002), Some(TrayMenuAction::ReloadConfig));
    assert_eq!(is_tray_menu_cmd(1003), Some(TrayMenuAction::OpenConfigFolder));
    assert_eq!(is_tray_menu_cmd(1004), Some(TrayMenuAction::Quit));
    assert_eq!(is_tray_menu_cmd(1000), None);
    assert_eq!(is_tray_menu_cmd(1005), None);
    assert_eq!(is_tray_menu_cmd(0), None);
}

#[test]
fn candidate_windows() {
    assert!(is_candidate_window(true, Some(0), 5));
    assert!(is_candidate_window(true, None, 5));
    assert!(!is_candidate_window(false, Some(0), 5));
    assert!(!is_candidate_window(true, Some(2), 5));
    assert!(!is_candidate_window(true, None, 0));
}

#[test]
fn restoring_keeps_maximised_state() {
    assert_eq!(restore_command(false, false), None);
    assert_eq!(restore_command(false, true), None);
    assert_eq!(restore_command(true, true), Some(RestoreCommand::ShowMaximized));
    assert_eq!(restore_command(true, false), Some(RestoreCommand::Restore));
}

#[test]
fn icon_fallbacks() {
    assert_eq!(pick_icon(1, 2, 3, 4), Some(1));
    assert_eq!(pick_icon(0, 2, 3, 4), Some(2));
    assert_eq!(pick_icon(0, 0, 3, 4), Some(3));
    assert_eq!(pick_icon(0, 0, 0, 4), Some(4));
    assert_eq!(pick_icon(0, 0, 0, 0), None);
}

#[test]
fn log_lines() {
    assert_eq!(log_line("INFO", "Hotkey pressed!"), "[INFO] Hotkey pressed!\n");
    assert_eq!(log_line("ERROR", ""), "[ERROR] \n");
}
