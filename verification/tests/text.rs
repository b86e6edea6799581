use giss::text::{decimal_string, join_strings, parse_u32, split_on};

#[test]
fn join_puts_separator_between_neighbours() {
    let parts = vec![String::from("a"), String::from("b"), String::from("c")];
    assert_eq!(join_strings(&parts, ", "), "a, b, c");
    assert_eq!(join_strings(&Vec::new(), ", "), "");
    assert_eq!(join_strings(&vec![String::from("only")], ", "), "only");
}

#[test]
fn decimal_string_writes_digits() {
    assert_eq!(decimal_string(0), "0");
    assert_eq!(decimal_string(7), "7");
    assert_eq!(decimal_string(1203), "1203");
    assert_eq!(decimal_string(u32::MAX), "4294967295");
}

#[test]
fn parse_u32_reads_what_std_reads() {
    for text in ["0", "7", "+7", "007", "4294967295", "4294967296", "", "+", "-1", "1a", " 1", "++1", "99999999999999999999999"] {
        assert_eq!(parse_u32(text), text.parse::<u32>().ok(), "{:?}", text);
    }
}

#[test]
fn split_on_cuts_at_each_separator() {
    for text in ["", "a", "a/b", "a/b/c", "/", "//", "a/", "/a", "a//b"] {
        let expected: Vec<String> = text.split('/').map(String::from).collect();
        assert_eq!(split_on(text, '/'), expected, "{:?}", text);
    }
}

#[test]
fn text_lines_agrees_with_std() {
    for text in [
        "", "a", "a\n", "a\nb", "a\r\nb\r\n", "a\r\nb\r", "\r", "\n", "\r\n", "\n\n", "a\r\r\n",
        "foo\nbar\n\r\nbaz\r", "\ra\n", "a\n\rb",
    ] {
        let expected: Vec<String> = text.lines().map(String::from).collect();
        assert_eq!(giss::text::text_lines(text), expected, "{:?}", text);
    }
}

#[test]
fn trim_agrees_with_std() {
    for text in [
        "", " ", "a", " a", "a ", "  a b  ", "\t\n a\r\n", "\u{a0}a\u{2003}", "\u{3000}\u{2028}",
        "a\u{200b}", "\u{85}x\u{1680}", " \u{e9} ", "\u{feff}a",
    ] {
        assert_eq!(giss::text::trim(text), text.trim(), "{:?}", text);
    }
}
