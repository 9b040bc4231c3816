use vwi::models::{Config, ProjectConfig, UiConfig, WindowInfo};
use vwi::switcher::Switcher;

fn window(hwnd: isize, title: &str) -> WindowInfo {
    WindowInfo { hwnd, title: title.to_string() }
}

fn project(name: &str, key: &str, pattern: &str) -> (String, ProjectConfig) {
    (
        name.to_string(),
        ProjectConfig { key: key.to_string(), match_pattern: pattern.to_string() },
    )
}

fn config(projects: Vec<(String, ProjectConfig)>) -> Config {
    Config { hotkey: "Ctrl+Alt+W".to_string(), projects, ui: UiConfig::default() }
}

fn readme_switcher() -> Switcher {
    let mut s = Switcher::new(config(vec![
        project("backend", "b", "credilinq.backend"),
        project("react", "r", "alexi.react"),
        project("poc", "p", "alexi.poc.keystone"),
        project("alexi", "a", "credilinq.alexi"),
    ]));
    s.refresh(vec![
        window(10, "Inbox - Mail"),
        window(11, "credilinq.backend - Devin - shareholders.service.ts"),
        window(12, "alexi.react - App.tsx"),
        window(13, "credilinq.backend - second window"),
        window(14, "credilinq.alexi - README.md"),
    ]);
    s
}

fn rows(s: &Switcher) -> Vec<(String, String, isize)> {
    s.matches()
}

#[test]
fn matches_are_sorted_by_key_with_first_window() {
    let s = readme_switcher();
    let r = rows(&s);
    assert_eq!(
        r,
        vec![
            ("a".to_string(), "credilinq.alexi - README.md".to_string(), 14),
            (
                "b".to_string(),
                "credilinq.backend - Devin - shareholders.service.ts".to_string(),
                11
            ),
            ("r".to_string(), "alexi.react - App.tsx".to_string(), 12),
        ]
    );
}

#[test]
fn no_windows_no_matches() {
    let s = Switcher::new(config(vec![project("x", "x", "anything")]));
    assert!(s.matches().is_empty());
}

#[test]
fn empty_pattern_matches_first_window() {
    let mut s = Switcher::new(config(vec![project("all", "q", "")]));
    s.refresh(vec![window(5, "first"), window(6, "second")]);
    assert_eq!(s.matches(), vec![("q".to_string(), "first".to_string(), 5)]);
}

#[test]
fn equal_keys_keep_project_order() {
    let mut s = Switcher::new(config(vec![
        project("one", "k", "beta"),
        project("two", "c", "alpha"),
        project("three", "k", "alpha"),
    ]));
    s.refresh(vec![window(1, "alpha"), window(2, "beta")]);
    assert_eq!(
        s.matches(),
        vec![
            ("c".to_string(), "alpha".to_string(), 1),
            ("k".to_string(), "beta".to_string(), 2),
            ("k".to_string(), "alpha".to_string(), 1),
        ]
    );
}

#[test]
fn keys_sort_as_strings() {
    let mut s = Switcher::new(config(vec![
        project("p1", "b", "x"),
        project("p2", "B", "x"),
        project("p3", "ab", "x"),
        project("p4", "a", "x"),
    ]));
    s.refresh(vec![window(1, "x")]);
    let keys: Vec<String> = s.matches().into_iter().map(|r| r.0).collect();
    assert_eq!(keys, vec!["B", "a", "ab", "b"]);
}

#[test]
fn finds_window_by_key_ignoring_case() {
    let s = readme_switcher();
    assert_eq!(s.find_hwnd_by_key('b'), Some(11));
    assert_eq!(s.find_hwnd_by_key('B'), Some(11));
    assert_eq!(s.find_hwnd_by_key('r'), Some(12));
    assert_eq!(s.find_hwnd_by_key('A'), Some(14));
    assert_eq!(s.find_hwnd_by_key('p'), None);
    assert_eq!(s.find_hwnd_by_key('z'), None);
}

#[test]
fn key_lookup_skips_projects_without_windows() {
    let mut s = Switcher::new(config(vec![
        project("gone", "k", "closed project"),
        project("open", "K", "open project"),
    ]));
    s.refresh(vec![window(7, "open project - editor")]);
    assert_eq!(s.find_hwnd_by_key('k'), Some(7));
}

#[test]
fn multi_character_keys_never_match_a_single_key() {
    let mut s = Switcher::new(config(vec![project("long", "ab", "x")]));
    s.refresh(vec![window(1, "x")]);
    assert_eq!(s.find_hwnd_by_key('a'), None);
}

#[test]
fn every_found_window_is_a_shown_row() {
    let s = readme_switcher();
    let r = rows(&s);
    for c in "abcdefghijklmnopqrstuvwxyz0123456789".chars() {
        match s.find_hwnd_by_key(c) {
            Some(h) => assert!(r
                .iter()
                .any(|row| row.0.eq_ignore_ascii_case(&c.to_string()) && row.2 == h)),
            None => assert!(!r.iter().any(|row| row.0.eq_ignore_ascii_case(&c.to_string()))),
        }
    }
}

#[test]
fn refresh_replaces_windows() {
    let mut s = readme_switcher();
    s.refresh(vec![window(99, "alexi.poc.keystone")]);
    assert_eq!(s.matches(), vec![("p".to_string(), "alexi.poc.keystone".to_string(), 99)]);
    assert_eq!(s.find_hwnd_by_key('b'), None);
}

#[test]
fn reload_replaces_config_only_on_success() {
    let mut s = readme_switcher();
    assert!(!s.reload_config(Err("parse error".to_string())));
    assert_eq!(s.get_config().projects.len(), 4);
    assert!(s.reload_config(Ok(config(vec![project("only", "o", "Inbox")]))));
    assert_eq!(s.get_config().projects.len(), 1);
    assert_eq!(s.matches(), vec![("o".to_string(), "Inbox - Mail".to_string(), 10)]);
}

#[test]
fn get_config_returns_config() {
    let s = readme_switcher();
    assert_eq!(s.get_config().hotkey, "Ctrl+Alt+W");
    assert_eq!(s.get_config().ui, UiConfig::default());
}

#[test]
fn project_names_are_checked_for_uniqueness() {
    assert!(config(vec![project("a", "a", "x"), project("b", "a", "y")]).has_unique_names());
    assert!(!config(vec![project("a", "a", "x"), project("a", "b", "y")]).has_unique_names());
    assert!(config(vec![]).has_unique_names());
    assert!(readme_switcher().get_config().has_unique_names());
}

#[test]
fn rows_do_not_depend_on_project_order() {
    let windows = vec![
        window(1, "credilinq.backend - x"),
        window(2, "alexi.react - y"),
        window(3, "credilinq.alexi - z"),
    ];
    let ps = vec![
        project("backend", "b", "credilinq.backend"),
        project("react", "r", "alexi.react"),
        project("alexi", "a", "credilinq.alexi"),
    ];
    let mut reversed = ps.clone();
    reversed.reverse();
    let mut s1 = Switcher::new(config(ps));
    let mut s2 = Switcher::new(config(reversed));
    s1.refresh(windows.clone());
    s2.refresh(windows);
    assert_eq!(s1.matches(), s2.matches());
}
