use celeste::text::{
    chars_of, contains_chars, is_white_space_char, lines_of, same_chars, str_eq, string_of,
    trim_chars, trim_range,
};

fn lines(s: &str) -> Vec<String> {
    lines_of(&chars_of(s)).iter().map(|l| string_of(l)).collect()
}

#[test]
fn chars_round_trip() {
    let s = "héllo wörld ✓";
    assert_eq!(string_of(&chars_of(s)), s);
    assert_eq!(chars_of(s).len(), 13);
}

#[test]
fn lines_split_like_std() {
    for s in ["", "\n", "a", "a\n", "a\r\nb\n\nc", "a\r", "a\rb\n", "\r\n", "x\n\n", "one\ntwo\r\n"] {
        let expected: Vec<String> = s.lines().map(|l| l.to_string()).collect();
        assert_eq!(lines(s), expected, "lines of {:?}", s);
    }
}

#[test]
fn lines_examples() {
    assert_eq!(lines("a\r\nb\n\nc"), vec!["a", "b", "", "c"]);
    assert_eq!(lines("a\r"), vec!["a\r"]);
    assert_eq!(lines(""), Vec::<String>::new());
    assert_eq!(lines("\n"), vec![""]);
}

#[test]
fn trim_like_std() {
    for s in ["", "  ", " a ", "\t[x]\r", "\u{3000}b\u{2028}", "\u{85}c\u{a0}", "a b", "\u{200b}z"] {
        assert_eq!(string_of(&trim_chars(&chars_of(s))), s.trim(), "trim of {:?}", s);
    }
}

#[test]
fn trim_range_of_slashes() {
    let cs = chars_of("//a/b//");
    assert_eq!(trim_range(&cs, true), (2, 5));
    let cs = chars_of("///");
    let (a, b) = trim_range(&cs, true);
    assert_eq!(a, b);
}

#[test]
fn white_space_matches_std() {
    for u in 0u32..0x3100 {
        if let Some(c) = char::from_u32(u) {
            assert_eq!(is_white_space_char(c), c.is_whitespace(), "U+{:04X}", u);
        }
    }
}

#[test]
fn substring_search() {
    assert!(contains_chars(&chars_of("abc Temporary failure x"), &chars_of("Temporary failure")));
    assert!(!contains_chars(&chars_of("abc"), &chars_of("abcd")));
    assert!(contains_chars(&chars_of("abc"), &chars_of("")));
    assert!(contains_chars(&chars_of("aab"), &chars_of("ab")));
}

#[test]
fn equality_of_texts() {
    assert!(str_eq("drive", "drive"));
    assert!(!str_eq("drive", "driv"));
    assert!(same_chars(&chars_of("x"), &['x']));
}
