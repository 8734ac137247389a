use engram::text::{
    closes_with, decimal_of, has, is_blank, joined, lines_of, no_later, opens_with, past,
    pieces_of, same_but_for_case, signed_of, trimmed, two_places_of,
};

#[test]
fn lines_are_those_the_standard_library_reads() {
    for s in ["", "a", "a\n", "a\nb", "a\r\nb\r\n", "\n\n", "a\rb\n", "\r\n", "a\n\r", "é\n日"] {
        let expected: Vec<&str> = s.lines().collect();
        assert_eq!(lines_of(s), expected, "{s:?}");
    }
}

#[test]
fn white_space_is_what_the_standard_library_trims() {
    for s in ["", " a ", "\u{a0}a\u{3000}", "\u{85}\u{2028}x\u{205f}", "\u{200b}a", "  ", "a b"] {
        assert_eq!(trimmed(s), s.trim(), "{s:?}");
        assert_eq!(is_blank(s), s.trim().is_empty(), "{s:?}");
    }
    for c in '\u{0}'..'\u{3100}' {
        let s = c.to_string();
        assert_eq!(is_blank(&s), c.is_whitespace(), "{c:?}");
    }
}

#[test]
fn pieces_are_those_between_the_marks() {
    for s in ["", ",", "a", "a,b", ",a,,b,"] {
        let expected: Vec<&str> = s.split(',').collect();
        assert_eq!(pieces_of(s, ','), expected, "{s:?}");
    }
}

#[test]
fn numbers_are_written_out() {
    for n in [0, 1, 9, 10, 42, 1_000, u64::MAX] {
        assert_eq!(decimal_of(n), n.to_string());
    }
    for i in [0, -1, 7, i64::MIN, i64::MAX] {
        assert_eq!(signed_of(i), i.to_string());
    }
    assert_eq!(two_places_of(5), "05");
    assert_eq!(two_places_of(59), "59");
}

#[test]
fn parts_of_a_text_are_found() {
    assert!(opens_with("text/plain; x", "text/plain") && !opens_with("text", "text/plain"));
    assert!(closes_with("a.webmanifest", ".webmanifest") && !closes_with("a", "ab"));
    assert!(has("a/../b", "..") && !has("a.b", "..") && has("a", ""));
    assert_eq!(past("W/x", 2), "x");
    assert_eq!(joined(&["a".into(), "b".into()], ", "), "a, b");
    assert!(same_but_for_case("TXT", "txt") && !same_but_for_case("É", "é"));
    for (a, b) in [("a", "b"), ("a", "ab"), ("", "a"), ("b", "a"), ("é", "z"), ("a", "a")] {
        assert_eq!(no_later(a, b), a <= b, "{a} {b}");
    }
}
