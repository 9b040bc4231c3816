use vwi::models::{Config, ProjectConfig, UiConfig, WindowInfo};
use vwi::overlay::{
    centered_origin, checked_content_height, content_height, key_command, overlay_height, overlay_size, show_mode,
    wheel_delta, KeyCommand, OverlayAction, OverlayState, ShowMode,
};
use vwi::overlay_paint::Rect;
use vwi::switcher::Switcher;

fn ui(max_height: i32) -> UiConfig {
    UiConfig { max_height, ..UiConfig::default() }
}

fn switcher(projects: &[(&str, &str)], windows: &[(isize, &str)]) -> Switcher {
    let projects = projects
        .iter()
        .map(|(key, pat)| {
            (
                format!("p-{}", key),
                ProjectConfig { key: key.to_string(), match_pattern: pat.to_string() },
            )
        })
        .collect();
    let mut s = Switcher::new(Config {
        hotkey: "Ctrl+Shift+Space".to_string(),
        projects,
        ui: UiConfig::default(),
    });
    s.refresh(
        windows.iter().map(|(h, t)| WindowInfo { hwnd: *h, title: t.to_string() }).collect(),
    );
    s
}

#[test]
fn key_commands() {
    assert_eq!(key_command(0x1B), KeyCommand::Dismiss);
    assert_eq!(key_command(0x74), KeyCommand::ReloadConfig);
    assert_eq!(key_command(0x4C), KeyCommand::ToggleListMode);
    assert_eq!(key_command(0x26), KeyCommand::ScrollUp);
    assert_eq!(key_command(0x28), KeyCommand::ScrollDown);
    assert_eq!(key_command(0x41), KeyCommand::Project('A'));
    assert_eq!(key_command(0x5A), KeyCommand::Project('Z'));
    assert_eq!(key_command(0x30), KeyCommand::Project('0'));
    assert_eq!(key_command(0x39), KeyCommand::Project('9'));
    assert_eq!(key_command(0x40), KeyCommand::Ignore);
    assert_eq!(key_command(0x5B), KeyCommand::Ignore);
    assert_eq!(key_command(0x70), KeyCommand::Ignore);
    assert_eq!(key_command(0x61), KeyCommand::Ignore);
}

#[test]
fn escape_hides_without_switching() {
    let sw = switcher(&[("a", "x")], &[(1, "x")]);
    let mut st = OverlayState { visible: true, list_mode: true, scroll_offset: 64 };
    assert_eq!(st.handle_key(0x1B, &sw), OverlayAction::Hide);
    assert_eq!(st, OverlayState { visible: false, list_mode: true, scroll_offset: 64 });
}

#[test]
fn project_key_switches() {
    let sw = switcher(&[("a", "editor")], &[(41, "my editor")]);
    let mut st = OverlayState { visible: true, list_mode: false, scroll_offset: 0 };
    assert_eq!(st.handle_key(0x41, &sw), OverlayAction::SwitchTo(41));
    assert!(!st.visible);
    let mut st2 = OverlayState { visible: true, list_mode: false, scroll_offset: 0 };
    assert_eq!(st2.handle_key(0x42, &sw), OverlayAction::Nothing);
    assert!(st2.visible);
}

#[test]
fn l_toggles_list_mode_twice_back() {
    let sw = switcher(&[("a", "editor")], &[(41, "my editor")]);
    let start = OverlayState { visible: true, list_mode: false, scroll_offset: 0 };
    let mut st = start;
    assert_eq!(st.handle_key(0x4C, &sw), OverlayAction::ListModeToggled);
    assert!(st.list_mode);
    assert_eq!(st.handle_key(0x4C, &sw), OverlayAction::ListModeToggled);
    assert_eq!(st, start);
}

#[test]
fn project_bound_to_l_comes_first() {
    let sw = switcher(&[("l", "logs")], &[(77, "logs viewer")]);
    let mut st = OverlayState { visible: true, list_mode: false, scroll_offset: 0 };
    assert_eq!(st.handle_key(0x4C, &sw), OverlayAction::SwitchTo(77));
    assert!(!st.list_mode);
    let sw2 = switcher(&[("l", "logs")], &[(77, "editor")]);
    let mut st2 = OverlayState { visible: true, list_mode: false, scroll_offset: 0 };
    assert_eq!(st2.handle_key(0x4C, &sw2), OverlayAction::ListModeToggled);
    assert!(st2.list_mode);
}

#[test]
fn f5_and_arrows_leave_state() {
    let sw = switcher(&[], &[]);
    let mut st = OverlayState { visible: true, list_mode: false, scroll_offset: 5 };
    assert_eq!(st.handle_key(0x74, &sw), OverlayAction::ReloadConfig);
    assert_eq!(st.handle_key(0x26, &sw), OverlayAction::Scroll { up: true });
    assert_eq!(st.handle_key(0x28, &sw), OverlayAction::Scroll { up: false });
    assert_eq!(st.handle_key(0x10, &sw), OverlayAction::Nothing);
    assert_eq!(st, OverlayState { visible: true, list_mode: false, scroll_offset: 5 });
}

#[test]
fn content_height_formula() {
    let u = UiConfig::default();
    assert_eq!(content_height(0, &u), 16 * 2 + 32);
    assert_eq!(content_height(1, &u), 64);
    assert_eq!(content_height(3, &u), 16 * 2 + 3 * 32);
}

#[test]
fn content_height_overflow_is_reported() {
    let u = UiConfig::default();
    assert_eq!(checked_content_height(3, &u), Some(128));
    assert_eq!(checked_content_height(100_000_000, &u), None);
    assert_eq!(checked_content_height(0, &UiConfig { pad_y: i32::MAX, ..u }), None);
}

#[test]
fn overlay_height_is_capped() {
    assert_eq!(overlay_height(10, &ui(0)), 352);
    assert_eq!(overlay_height(10, &ui(400)), 352);
    assert_eq!(overlay_height(10, &ui(200)), 200);
    assert_eq!(overlay_size(2, &ui(0)), (560, 96));
    assert_eq!(overlay_size(20, &ui(100)), (560, 100));
}

#[test]
fn centres_on_work_area() {
    let area = Rect { left: 1920, top: 0, right: 3840, bottom: 1040 };
    assert_eq!(centered_origin(area, 560, 96), Some((1920 + 680, 472)));
    let small = Rect { left: 0, top: 0, right: 100, bottom: 100 };
    assert_eq!(centered_origin(small, 101, 103), Some((0, -1)));
    assert_eq!(centered_origin(small, i32::MIN, 10), None);
}

#[test]
fn show_makes_visible_and_resets_mode_and_scroll() {
    let mut st = OverlayState { visible: false, list_mode: true, scroll_offset: 96 };
    st.show();
    assert_eq!(st, OverlayState { visible: true, list_mode: false, scroll_offset: 0 });
    let mut silent = OverlayState { visible: false, list_mode: true, scroll_offset: 96 };
    silent.show_silent();
    assert_eq!(silent, OverlayState { visible: true, list_mode: false, scroll_offset: 96 });
    st.dismiss();
    assert!(!st.visible);
    let mut shown = OverlayState { visible: true, list_mode: true, scroll_offset: 3 };
    shown.dismiss();
    assert_eq!(shown, OverlayState { visible: false, list_mode: true, scroll_offset: 3 });
    assert_eq!(OverlayState::new(), OverlayState { visible: false, list_mode: false, scroll_offset: 0 });
}

#[test]
fn show_mode_follows_config() {
    assert_eq!(show_mode(&UiConfig::default()), ShowMode::Overlay);
    assert_eq!(show_mode(&UiConfig { show_overlay: false, ..UiConfig::default() }), ShowMode::Silent);
}

#[test]
fn item_count_in_each_mode() {
    let normal = OverlayState { visible: true, list_mode: false, scroll_offset: 0 };
    let list = OverlayState { visible: true, list_mode: true, scroll_offset: 0 };
    assert_eq!(normal.item_count(7, 3), 3);
    assert_eq!(list.item_count(7, 3), 8);
}

#[test]
fn arrows_scroll_within_range() {
    // 10 items: content 352, capped at 200, so the offset ranges over 0..=152.
    let u = ui(200);
    let mut st = OverlayState { visible: true, list_mode: false, scroll_offset: 0 };
    assert!(st.scroll_by_line(true, &u, 10));
    assert_eq!(st.scroll_offset, 0);
    assert!(st.scroll_by_line(false, &u, 10));
    assert_eq!(st.scroll_offset, 32);
    for _ in 0..10 {
        assert!(st.scroll_by_line(false, &u, 10));
    }
    assert_eq!(st.scroll_offset, 152);
    assert!(st.scroll_by_line(true, &u, 10));
    assert_eq!(st.scroll_offset, 120);
}

#[test]
fn no_scroll_without_cap_or_overflow() {
    let mut st = OverlayState { visible: true, list_mode: false, scroll_offset: 0 };
    assert!(!st.scroll_by_line(false, &ui(0), 100));
    assert!(!st.scroll_by_line(false, &ui(1000), 3));
    assert!(!st.scroll_by_wheel(-120, &ui(0), 100));
    assert_eq!(st.scroll_offset, 0);
}

#[test]
fn wheel_scrolls_one_line_per_notch() {
    let u = ui(200);
    let mut st = OverlayState { visible: true, list_mode: false, scroll_offset: 0 };
    assert!(st.scroll_by_wheel(-120, &u, 10));
    assert_eq!(st.scroll_offset, 32);
    assert!(st.scroll_by_wheel(-240, &u, 10));
    assert_eq!(st.scroll_offset, 96);
    assert!(st.scroll_by_wheel(60, &u, 10));
    assert_eq!(st.scroll_offset, 80);
    assert!(st.scroll_by_wheel(-1, &u, 10));
    assert_eq!(st.scroll_offset, 80);
    assert!(st.scroll_by_wheel(1200, &u, 10));
    assert_eq!(st.scroll_offset, 0);
}

#[test]
fn wheel_delta_is_signed_high_word() {
    assert_eq!(wheel_delta(0x0078_0000), 120);
    assert_eq!(wheel_delta(0xFF88_0000), -120);
    assert_eq!(wheel_delta(0xFF88_1234), -120);
    assert_eq!(wheel_delta(0), 0);
}
