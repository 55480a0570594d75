use aura_sdk::text::{
    ascii_lower_chars, chars_of, contains_chars, is_white_space_char, replace_chars,
    str_contains, str_is_blank, string_from_chars, trim_start_chars,
};

fn s(v: &[char]) -> String {
    v.iter().collect()
}

#[test]
fn contains_agrees_with_std() {
    let cases = [
        ("hello world", "o w"),
        ("hello", ""),
        ("", ""),
        ("", "a"),
        ("abc", "abcd"),
        ("aaab", "aab"),
        ("héllo", "él"),
        ("<|end|>", "<|end|>"),
    ];
    for (t, p) in cases {
        assert_eq!(str_contains(t, p), t.contains(p), "{t:?} {p:?}");
    }
}

#[test]
fn whitespace_agrees_with_std() {
    for c in ['\t', '\n', '\u{b}', '\u{c}', '\r', ' ', '\u{85}', '\u{a0}', '\u{1680}', '\u{2000}', '\u{2005}', '\u{200a}', '\u{2028}', '\u{2029}', '\u{202f}', '\u{205f}', '\u{3000}', 'a', '\u{200b}', '\u{feff}', '\u{1f}', '\u{2030}'] {
        assert_eq!(is_white_space_char(c), c.is_whitespace(), "{:?}", c);
    }
    for u in 0u32..0x3100 {
        if let Some(c) = char::from_u32(u) {
            assert_eq!(is_white_space_char(c), c.is_whitespace(), "{:x}", u);
        }
    }
}

#[test]
fn blank_agrees_with_trim() {
    for t in ["", " ", " \n\t", "a", " a ", "\u{3000}\u{a0}", "\u{200b}"] {
        assert_eq!(str_is_blank(t), !t.is_empty() && t.trim().is_empty(), "{t:?}");
    }
}

#[test]
fn lowercase_agrees_with_std() {
    let t = "Past_Key_Values.0 ÄÖ Z@[";
    assert_eq!(s(&ascii_lower_chars(&chars_of(t))), t.to_ascii_lowercase());
}

#[test]
fn replace_agrees_with_std() {
    let cases = [
        ("past_key_values.0.key", "past", "present"),
        ("aaaa", "aa", "b"),
        ("abcabc", "bc", ""),
        ("xyz", "q", "r"),
        ("pastpast", "past", "present"),
        ("", "a", "b"),
    ];
    for (t, f, to) in cases {
        let r = replace_chars(&chars_of(t), &chars_of(f), &chars_of(to));
        assert_eq!(s(&r), t.replace(f, to), "{t:?}");
    }
}

#[test]
fn trim_start_agrees_with_std() {
    let cases = [(r"\\?\\\?\C:\x", r"\\?\"), ("ababc", "ab"), ("c", "ab"), ("", "ab")];
    for (t, p) in cases {
        let r = trim_start_chars(&chars_of(t), &chars_of(p));
        assert_eq!(s(&r), t.trim_start_matches(p), "{t:?}");
    }
}

#[test]
fn chars_round_trip() {
    let t = "naïve 🦀 text";
    assert_eq!(string_from_chars(&chars_of(t)), t);
    assert!(contains_chars(&chars_of(t), &chars_of("🦀")));
}
