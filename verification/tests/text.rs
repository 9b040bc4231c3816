use vwi::text::{
    ascii_lower_code, ascii_upper_code, chars_contain, chars_eq_ignore_ascii_case, chars_lex_le,
    chars_of, is_white_space_char, str_contains, trim_chars,
};

fn v(s: &str) -> Vec<char> {
    s.chars().collect()
}

#[test]
fn white_space_agrees_with_std() {
    for u in 0..=0x10FFFFu32 {
        if let Some(c) = char::from_u32(u) {
            assert_eq!(is_white_space_char(c), c.is_whitespace(), "U+{:04X}", u);
        }
    }
}

#[test]
fn trim_agrees_with_std() {
    let samples = ["", "   ", " a ", "\t\nCtrl\u{2003}", "a b", "\u{3000}x\u{3000}y\u{85}"];
    for s in samples.iter() {
        let t: String = trim_chars(&v(s)).into_iter().collect();
        assert_eq!(t, s.trim());
    }
}

#[test]
fn contains_agrees_with_std() {
    let texts = ["credilinq.backend - Devin - shareholders.service.ts", "", "aaa", "abcabd"];
    let pats = ["credilinq.backend", "", "aa", "abd", "zz", "Devin -", "ts!"];
    for t in texts.iter() {
        for p in pats.iter() {
            assert_eq!(str_contains(t, p), t.contains(p), "{:?} {:?}", t, p);
            assert_eq!(chars_contain(&v(t), &v(p)), t.contains(p));
        }
    }
}

#[test]
fn case_folding_agrees_with_std() {
    let words = ["a", "A", "é", "É", "ab", "aB", "", "Z", "["];
    for a in words.iter() {
        for b in words.iter() {
            assert_eq!(
                chars_eq_ignore_ascii_case(&v(a), &v(b)),
                a.eq_ignore_ascii_case(b),
                "{:?} {:?}",
                a,
                b
            );
        }
    }
    assert_eq!(ascii_upper_code('q'), 'Q' as u32);
    assert_eq!(ascii_upper_code('é'), 'é' as u32);
    assert_eq!(ascii_lower_code('Q'), 'q' as u32);
    assert_eq!(ascii_lower_code('1'), '1' as u32);
}

#[test]
fn order_agrees_with_std() {
    let words = ["", "a", "b", "ab", "aa", "B", "é", "z", "zz", "a\u{10000}"];
    for a in words.iter() {
        for b in words.iter() {
            assert_eq!(chars_lex_le(&v(a), &v(b)), a <= b, "{:?} {:?}", a, b);
        }
    }
}

#[test]
fn chars_of_keeps_every_character() {
    assert_eq!(chars_of("héllo\u{1F600}"), v("héllo\u{1F600}"));
    assert!(chars_of("").is_empty());
}
