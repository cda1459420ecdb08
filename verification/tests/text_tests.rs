use samba_exporter::text::{
    find_sep_idx, last_colon_segment, line_is_blank, line_is_separator, parse_i32, split_fields,
    split_lines, trim,
};

#[test]
fn lines_basic() {
    let v = split_lines("a\nb\n\nc");
    assert_eq!(v, vec!["a".to_string(), "b".to_string(), "".to_string(), "c".to_string()]);
}

#[test]
fn lines_trailing_newline_adds_no_line() {
    let v = split_lines("a\nb\n");
    assert_eq!(v, vec!["a".to_string(), "b".to_string()]);
    assert_eq!(split_lines(""), Vec::<String>::new());
}

#[test]
fn fields_split_on_any_blank_run() {
    let v = split_fields("  alpha\tbeta  gamma ");
    assert_eq!(v, vec!["alpha".to_string(), "beta".to_string(), "gamma".to_string()]);
    assert_eq!(split_fields("   "), Vec::<String>::new());
}

#[test]
fn fields_split_on_unicode_blanks_too() {
    let v = split_fields("alpha\u{000C}beta\u{00A0}gamma\u{2003}delta");
    assert_eq!(
        v,
        vec![
            "alpha".to_string(),
            "beta".to_string(),
            "gamma".to_string(),
            "delta".to_string()
        ]
    );
    assert!(line_is_blank("\u{000B}\u{00A0}\u{3000}"));
    assert_eq!(trim("\u{00A0}x\u{2028}"), "x".to_string());
}

#[test]
fn separator_needs_seventeen_dashes() {
    assert!(line_is_separator("-----------------"));
    assert!(line_is_separator("------------------------ extra"));
    assert!(!line_is_separator("----------------"));
    assert!(!line_is_separator("================="));
}

#[test]
fn sep_idx_finds_first_separator() {
    let lines = vec![
        "header".to_string(),
        "-----------------".to_string(),
        "-----------------".to_string(),
    ];
    assert_eq!(find_sep_idx(&lines), Some(1));
    let none = vec!["header".to_string(), "data".to_string()];
    assert_eq!(find_sep_idx(&none), None);
}

#[test]
fn blank_lines() {
    assert!(line_is_blank(""));
    assert!(line_is_blank(" \t\r"));
    assert!(!line_is_blank(" x "));
}

#[test]
fn trim_strips_both_ends() {
    assert_eq!(trim("  x y\t"), "x y".to_string());
    assert_eq!(trim("   "), "".to_string());
    assert_eq!(trim("z"), "z".to_string());
}

#[test]
fn last_colon_segment_is_unconditional() {
    assert_eq!(last_colon_segment("node1:4821"), "4821".to_string());
    assert_eq!(last_colon_segment("4821"), "4821".to_string());
    assert_eq!(last_colon_segment("a:b:c"), "c".to_string());
    assert_eq!(last_colon_segment("trailing:"), "".to_string());
}

#[test]
fn parse_i32_accepts_signed_decimals() {
    assert_eq!(parse_i32("4821"), Some(4821));
    assert_eq!(parse_i32("-5"), Some(-5));
    assert_eq!(parse_i32("+12"), Some(12));
    assert_eq!(parse_i32("0"), Some(0));
    assert_eq!(parse_i32("2147483647"), Some(i32::MAX));
    assert_eq!(parse_i32("-2147483648"), Some(i32::MIN));
}

#[test]
fn parse_i32_rejects_malformed_and_overflow() {
    assert_eq!(parse_i32(""), None);
    assert_eq!(parse_i32("-"), None);
    assert_eq!(parse_i32("12a"), None);
    assert_eq!(parse_i32("2147483648"), None);
    assert_eq!(parse_i32("-2147483649"), None);
    assert_eq!(parse_i32("99999999999999999999"), None);
}
