use fit_portal::text::{
    contains, format_two_digits, join_strings, normalize_whitespace, replace, split_lines,
    split_whitespace,
};

fn strings(items: &[&str]) -> Vec<String> {
    items.iter().map(|s| s.to_string()).collect()
}

#[test]
fn contains_finds_marker() {
    assert!(contains("<a href=\"logout.aspx\">", "logout.aspx"));
    assert!(!contains("<a href=\"login.aspx\">", "logout.aspx"));
    assert!(contains("abc", ""));
    assert!(!contains("", "a"));
}

#[test]
fn replace_spaces_semicolons() {
    assert_eq!(replace("a=1;b=2", ";", "; "), "a=1; b=2");
    assert_eq!(replace("a=1;", ";", "; "), "a=1; ");
    assert_eq!(replace("none", ";", "; "), "none");
}

#[test]
fn replace_left_to_right_without_overlap() {
    assert_eq!(replace("aaa", "aa", "b"), "ba");
    assert_eq!(replace("data:image/png;base64,QUJD", "data:image/png;base64,", ""), "QUJD");
}

#[test]
fn join_with_separator() {
    assert_eq!(join_strings(&strings(&["a", "b", "c"]), ", "), "a, b, c");
    assert_eq!(join_strings(&strings(&["only"]), ", "), "only");
    assert_eq!(join_strings(&Vec::new(), ", "), "");
}

#[test]
fn split_whitespace_like_std() {
    let s = " a\u{00A0}b\tc \n d\u{3000}";
    let expected: Vec<String> = s.split_whitespace().map(|w| w.to_string()).collect();
    assert_eq!(split_whitespace(s), expected);
    assert_eq!(split_whitespace(s), strings(&["a", "b", "c", "d"]));
    assert!(split_whitespace("   ").is_empty());
}

#[test]
fn normalize_collapses_runs() {
    assert_eq!(normalize_whitespace("  Line one\n  and   two "), "Line one and two");
    assert_eq!(normalize_whitespace(""), "");
}

#[test]
fn normalize_twice_is_once() {
    for s in ["  a  b ", "x\ty\nz", "", " \u{2003} ", "word"] {
        let once = normalize_whitespace(s);
        assert_eq!(normalize_whitespace(&once), once);
    }
}

#[test]
fn lines_like_std() {
    for s in ["a\r\nb\n\nc\n", "x\r", "", "\n", "one", "a\rb\nc"] {
        let expected: Vec<String> = s.lines().map(|l| l.to_string()).collect();
        assert_eq!(split_lines(s), expected);
    }
    assert_eq!(split_lines("a\r\nb\n\nc\n"), strings(&["a", "b", "", "c"]));
}

#[test]
fn lines_read_back_what_was_joined() {
    let written = strings(&["sid=1; path=/", "", "token=abc"]);
    let text = join_strings(&written, "\n");
    assert_eq!(split_lines(&text), written);
    let one = strings(&["a=1; b=2"]);
    assert_eq!(split_lines(&join_strings(&one, "\n")), one);
}

#[test]
fn two_digit_numerals() {
    assert_eq!(format_two_digits(0), "00");
    assert_eq!(format_two_digits(5), "05");
    assert_eq!(format_two_digits(42), "42");
    assert_eq!(format_two_digits(123), "123");
    assert_eq!(format_two_digits(7), format!("{:02}", 7));
}
