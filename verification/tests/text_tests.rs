use ellex_core::text::{
    char_is_space, chars_of, has_substring, matches_at, push_decimal, same_text, str_contains,
    string_of, trim_bounds, trim_text,
};

#[test]
fn substrings_are_found_like_contains() {
    let cases = [
        ("hello world", "o w"),
        ("hello", "hello"),
        ("hello", "hello!"),
        ("hello", ""),
        ("", ""),
        ("", "a"),
        ("aaab", "aab"),
        ("abcabd", "abd"),
        ("System.cmd", "System"),
        ("héllo wörld", "o wö"),
        ("abc", "d"),
    ];
    for (hay, needle) in cases {
        assert_eq!(str_contains(hay, needle), hay.contains(needle), "{hay:?} / {needle:?}");
    }
    let hay: Vec<char> = "abcab".chars().collect();
    let needle: Vec<char> = "ab".chars().collect();
    assert!(matches_at(&hay, &needle, 0));
    assert!(!matches_at(&hay, &needle, 1));
    assert!(matches_at(&hay, &needle, 3));
    assert!(has_substring(&hay, &needle));
}

#[test]
fn trimming_agrees_with_trim() {
    for s in ["", "  ", " a ", "\t\n x y \r\n", "\u{a0}nbsp\u{3000}", "none", "\u{2003}em\u{85}", "a\u{200b}"] {
        assert_eq!(trim_text(s), s.trim(), "{s:?}");
    }
    for c in ['\u{0}', ' ', '\u{b}', '\u{1c}', '\u{85}', '\u{a0}', '\u{1680}', '\u{180e}', '\u{2000}', '\u{200a}', '\u{200b}', '\u{2028}', '\u{202f}', '\u{205f}', '\u{3000}', 'a'] {
        assert_eq!(char_is_space(c), c.is_whitespace(), "{:?}", c);
    }
    let chars: Vec<char> = "[ a b ]".chars().collect();
    assert_eq!(trim_bounds(&chars, 1, 6), (2, 5));
    assert_eq!(trim_bounds(&chars, 1, 2), (2, 2));
}

#[test]
fn decimals_agree_with_display() {
    for n in [0u64, 1, 9, 10, 11, 99, 100, 101, 12345, 1000000, u64::MAX] {
        let mut s = String::from("n=");
        push_decimal(&mut s, n);
        assert_eq!(s, format!("n={}", n));
    }
}

#[test]
fn characters_round_trip() {
    for s in ["", "abc", "héllo 💾"] {
        assert_eq!(string_of(&chars_of(s)), s);
        assert_eq!(chars_of(s), s.chars().collect::<Vec<char>>());
    }
    assert!(same_text("a💾", "a💾"));
    assert!(!same_text("a", "ab"));
    assert!(!same_text("ab", "ac"));
}
