use medbill::text::{
    chars_of, find, find_char, has_at, is_whitespace, join_lines, same_char, split_lines,
    string_of, to_lower, trim,
};

fn chars(s: &str) -> Vec<char> {
    s.chars().collect()
}

fn text(v: Vec<char>) -> String {
    v.into_iter().collect()
}

#[test]
fn white_space_is_what_the_language_calls_white_space() {
    let mut code: u32 = 0;
    while code <= 0x10ffff {
        if let Some(c) = char::from_u32(code) {
            assert_eq!(is_whitespace(c), c.is_whitespace(), "U+{:04X}", code);
        }
        code += 1;
    }
}

#[test]
fn lower_casing_is_ascii_lower_casing() {
    let mut code: u32 = 0;
    while code <= 0x10ffff {
        if let Some(c) = char::from_u32(code) {
            assert_eq!(to_lower(c), c.to_ascii_lowercase(), "U+{:04X}", code);
        }
        code += 1;
    }
}

#[test]
fn characters_are_compared_with_or_without_case() {
    assert!(same_char('a', 'A', true));
    assert!(!same_char('a', 'A', false));
    assert!(same_char('<', '<', true));
    assert!(!same_char('a', 'b', true));
    assert!(!same_char('\u{e9}', '\u{c9}', true));
}

#[test]
fn strings_and_characters_convert_both_ways() {
    assert_eq!(chars_of("a\u{20b9}b"), vec!['a', '\u{20b9}', 'b']);
    assert_eq!(string_of(&vec!['R', 's', '.']), "Rs.");
    assert_eq!(string_of(&chars_of("")), "");
    assert_eq!(string_of(&chars_of("h\u{e9}llo \u{1f600}")), "h\u{e9}llo \u{1f600}");
}

#[test]
fn patterns_are_found_where_they_stand() {
    let t = chars("<P>Hello <b>World</B>");
    assert!(has_at(&t, 0, &chars("<p>"), true));
    assert!(!has_at(&t, 0, &chars("<p>"), false));
    assert!(!has_at(&t, 19, &chars("</b>"), true));
    assert!(has_at(&t, 17, &chars("</b>"), true));
    assert!(!has_at(&t, 18, &chars("</b>"), true));
    assert!(has_at(&t, 21, &chars(""), true));
    assert!(!has_at(&t, 22, &chars(""), true));
    assert_eq!(find(&t, 0, &chars("<b>"), false), Some(9));
    assert_eq!(find(&t, 10, &chars("<b>"), false), None);
    assert_eq!(find(&t, 0, &chars("</b>"), false), None);
    assert_eq!(find(&t, 0, &chars("</b>"), true), Some(17));
    assert_eq!(find(&t, 0, &chars("much longer than the text itself"), true), None);
    assert_eq!(find_char(&t, 0, '>'), Some(2));
    assert_eq!(find_char(&t, 3, '>'), Some(11));
    assert_eq!(find_char(&t, 0, '#'), None);
    assert_eq!(find_char(&t, 100, '>'), None);
}

#[test]
fn trimming_cuts_white_space_at_both_ends_only() {
    assert_eq!(text(trim(&chars("  a  b \t\r\n"))), "a  b");
    assert_eq!(text(trim(&chars("\u{a0}x\u{3000}"))), "x");
    assert_eq!(text(trim(&chars(" \t "))), "");
    assert_eq!(text(trim(&chars(""))), "");
    assert_eq!(text(trim(&chars("x"))), "x");
    for s in ["  a  b \t\r\n", "", " ", "ab", "\u{2003}a\u{85}"] {
        assert_eq!(text(trim(&chars(s))), s.trim());
    }
}

#[test]
fn lines_are_the_pieces_between_line_feeds() {
    let lines: Vec<String> = split_lines(&chars("a\n\nb\r\nc\n")).into_iter().map(text).collect();
    assert_eq!(lines, vec!["a", "", "b\r", "c", ""]);
    let lines: Vec<String> = split_lines(&chars("")).into_iter().map(text).collect();
    assert_eq!(lines, vec![""]);
    let lines: Vec<String> = split_lines(&chars("one")).into_iter().map(text).collect();
    assert_eq!(lines, vec!["one"]);
}

#[test]
fn joined_lines_are_the_text_again() {
    for s in ["", "a", "a\nb", "\n", "a\n\nb\n", "\n\n\n"] {
        assert_eq!(text(join_lines(&split_lines(&chars(s)))), s);
    }
    assert_eq!(text(join_lines(&vec![])), "");
    assert_eq!(text(join_lines(&vec![chars("a"), chars(""), chars("b")])), "a\n\nb");
}
