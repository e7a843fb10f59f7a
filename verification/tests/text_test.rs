use desklink::text::{decimal_string, lines, parse_u32, split_once, split_whitespace, str_contains, str_starts_with};

#[test]
fn decimal_strings() {
    assert_eq!(decimal_string(0), "0");
    assert_eq!(decimal_string(7), "7");
    assert_eq!(decimal_string(10), "10");
    assert_eq!(decimal_string(1234567890), "1234567890");
    assert_eq!(decimal_string(u64::MAX), u64::MAX.to_string());
}

#[test]
fn contains_and_prefix() {
    assert!(str_contains("x-hyprland-y", "hyprland"));
    assert!(!str_contains("hyprlan", "hyprland"));
    assert!(str_contains("", ""));
    assert!(str_starts_with("Virtual-1 connected", "Virtual"));
    assert!(!str_starts_with("Virt", "Virtual"));
}

#[test]
fn whitespace_split_matches_std() {
    for s in ["", "   ", "a", " a  b\tc\n", "a\u{2003}b\u{a0}c\u{3000}", "α β", "x\r\ny"] {
        let expected: Vec<String> = s.split_whitespace().map(|w| w.to_string()).collect();
        assert_eq!(split_whitespace(s), expected, "split of {:?}", s);
    }
}

#[test]
fn lines_match_std() {
    for s in ["", "a", "a\n", "a\r\nb", "a\rb\n\nc\r", "\n", "x\r\n", "é\nü"] {
        let expected: Vec<String> = s.lines().map(|l| l.to_string()).collect();
        assert_eq!(lines(s), expected, "lines of {:?}", s);
    }
}

#[test]
fn split_once_and_parse() {
    assert_eq!(split_once("1920x1080+0+0", '+'), Some(("1920x1080", "0+0")));
    assert_eq!(split_once("abc", '+'), None);
    for s in ["0", "+7", "4294967295", "4294967296", "", "+", "-1", "12a", "007", "99999999999"] {
        assert_eq!(parse_u32(s), s.parse::<u32>().ok(), "parse of {:?}", s);
    }
}
