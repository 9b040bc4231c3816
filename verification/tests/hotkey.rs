use vwi::hotkey::{classify_part, hotkey_diagnostics, is_hotkey_msg, parse_hotkey, HotkeyBinding, HotkeyPart};
use vwi::vk::{MOD_ALT, MOD_CONTROL, MOD_SHIFT, MOD_WIN, VK_ESCAPE, VK_RETURN, VK_SPACE, VK_TAB};

fn binding(modifiers: u32, vk: u32) -> HotkeyBinding {
    HotkeyBinding { modifiers, vk }
}

#[test]
fn parses_readme_examples() {
    assert_eq!(parse_hotkey("Alt+Space"), binding(MOD_ALT, VK_SPACE));
    assert_eq!(parse_hotkey("Ctrl+Shift+W"), binding(MOD_CONTROL | MOD_SHIFT, 0x57));
    assert_eq!(parse_hotkey("Win+Q"), binding(MOD_WIN, 0x51));
    assert_eq!(parse_hotkey("Ctrl+Alt+F1"), binding(MOD_CONTROL | MOD_ALT, 0x70));
    assert_eq!(parse_hotkey("Ctrl+Alt+W"), binding(0x0003, 0x57));
}

#[test]
fn parses_default_hotkey() {
    assert_eq!(parse_hotkey(vwi::defaults::HOTKEY), binding(0x0006, 0x20));
}

#[test]
fn modifier_order_does_not_matter() {
    assert_eq!(parse_hotkey("Ctrl+Alt+W"), parse_hotkey("Alt+Ctrl+W"));
    assert_eq!(parse_hotkey("Shift+Win+Ctrl+Alt+K"), binding(0x000F, 0x4B));
}

#[test]
fn modifier_synonyms() {
    assert_eq!(parse_hotkey("Control+K"), binding(MOD_CONTROL, 0x4B));
    assert_eq!(parse_hotkey("Windows+K"), binding(MOD_WIN, 0x4B));
    assert_eq!(parse_hotkey("Super+K"), binding(MOD_WIN, 0x4B));
    assert_eq!(parse_hotkey("Ctrl+Ctrl+K"), binding(MOD_CONTROL, 0x4B));
}

#[test]
fn named_keys() {
    assert_eq!(parse_hotkey("Ctrl+Tab"), binding(MOD_CONTROL, VK_TAB));
    assert_eq!(parse_hotkey("Ctrl+Enter"), binding(MOD_CONTROL, VK_RETURN));
    assert_eq!(parse_hotkey("Ctrl+Return"), binding(MOD_CONTROL, VK_RETURN));
    assert_eq!(parse_hotkey("Ctrl+Esc"), binding(MOD_CONTROL, VK_ESCAPE));
    assert_eq!(parse_hotkey("Ctrl+Escape"), binding(MOD_CONTROL, VK_ESCAPE));
    for n in 1..=12u32 {
        let text = format!("Alt+F{}", n);
        assert_eq!(parse_hotkey(&text), binding(MOD_ALT, 0x6F + n));
    }
}

#[test]
fn single_characters_are_upper_cased() {
    assert_eq!(parse_hotkey("Ctrl+w"), binding(MOD_CONTROL, 0x57));
    assert_eq!(parse_hotkey("Ctrl+7"), binding(MOD_CONTROL, 0x37));
    assert_eq!(parse_hotkey("Ctrl+!"), binding(MOD_CONTROL, 0x21));
}

#[test]
fn parts_are_trimmed() {
    assert_eq!(parse_hotkey("  Ctrl +  Alt+ w "), binding(0x0003, 0x57));
    assert_eq!(parse_hotkey("\u{3000}Ctrl\t+\u{00A0}K\n"), binding(MOD_CONTROL, 0x4B));
}

#[test]
fn unknown_parts_are_ignored() {
    assert_eq!(parse_hotkey("Ctrl+Hyper+K"), binding(MOD_CONTROL, 0x4B));
    assert_eq!(parse_hotkey("ctrl+K"), binding(0, 0x4B));
    assert_eq!(parse_hotkey("Ctrl+F13+K"), binding(MOD_CONTROL, 0x4B));
}

#[test]
fn last_key_wins() {
    assert_eq!(parse_hotkey("Ctrl+A+B"), binding(MOD_CONTROL, 0x42));
    assert_eq!(parse_hotkey("Space+Ctrl+Tab"), binding(MOD_CONTROL, VK_TAB));
}

#[test]
fn falls_back_without_a_key() {
    let fallback = binding(MOD_CONTROL | MOD_SHIFT, 0x57);
    assert_eq!(parse_hotkey(""), fallback);
    assert_eq!(parse_hotkey("Alt"), fallback);
    assert_eq!(parse_hotkey("Ctrl+Alt"), fallback);
    assert_eq!(parse_hotkey("Ctrl++"), fallback);
    assert_eq!(parse_hotkey("Ctrl+é"), fallback);
    assert_eq!(parse_hotkey("Ctrl+F0"), fallback);
    assert_eq!(parse_hotkey("nonsense"), fallback);
}

#[test]
fn every_hotkey_registers_a_key() {
    let samples = [
        "", "+", "++", "Alt", "Ctrl+", "+K", "F", "F1F", "Ctrl+Alt+Del", "é+ü", " ", "Ctrl+\u{0}",
    ];
    for s in samples.iter() {
        let b = parse_hotkey(s);
        assert!(b.vk != 0, "{:?}", s);
        assert!(b.modifiers <= 0xF, "{:?}", s);
    }
}

#[test]
fn nul_character_falls_back() {
    assert_eq!(parse_hotkey("Ctrl+\u{0}"), binding(0x0006, 0x57));
}

#[test]
fn classifies_parts() {
    assert_eq!(classify_part(&['S', 'h', 'i', 'f', 't']), HotkeyPart::Modifier(MOD_SHIFT));
    assert_eq!(classify_part(&['z']), HotkeyPart::Key(0x5A));
    assert_eq!(classify_part(&['F', '1', '1']), HotkeyPart::Key(0x7A));
    assert_eq!(classify_part(&['a', 'l', 't']), HotkeyPart::Unknown);
    assert_eq!(classify_part(&[]), HotkeyPart::Unknown);
}

#[test]
fn recognises_hotkey_messages() {
    assert!(is_hotkey_msg(1, 0));
    assert!(is_hotkey_msg(1, 12345));
    assert!(!is_hotkey_msg(0, 0));
    assert!(!is_hotkey_msg(2, 0));
}

#[test]
fn diagnostics_report_unknown_parts_and_fallback() {
    let chars = |s: &str| s.chars().collect::<Vec<char>>();
    let d = hotkey_diagnostics("Ctrl+ Hyper +K");
    assert_eq!(d.unknown_parts, vec![chars("Hyper")]);
    assert!(!d.fell_back);
    let d = hotkey_diagnostics("Alt");
    assert!(d.unknown_parts.is_empty());
    assert!(d.fell_back);
    let d = hotkey_diagnostics("");
    assert_eq!(d.unknown_parts, vec![chars("")]);
    assert!(d.fell_back);
    let d = hotkey_diagnostics("ctrl++F13");
    assert_eq!(d.unknown_parts, vec![chars("ctrl"), chars(""), chars("F13")]);
    assert!(d.fell_back);
    assert!(hotkey_diagnostics("Ctrl+Shift+Space").unknown_parts.is_empty());
}

#[test]
fn order_spacing_and_letter_case_do_not_matter() {
    assert_eq!(parse_hotkey("Ctrl+Alt+W"), parse_hotkey(" Alt + Ctrl + w "));
    assert_eq!(parse_hotkey("Ctrl+Alt+W"), parse_hotkey("W+Alt+Ctrl"));
    assert_eq!(parse_hotkey(" Ctrl + Alt + w "), binding(0x0003, 0x57));
}
