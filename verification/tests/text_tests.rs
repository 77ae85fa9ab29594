use proxy_vet::text::{clean_org_name, contains_char, is_blank, keep_candidate_lines, parse_u16,
    render_u64, split_on_char, trim_text};

#[test]
fn parses_plain_port() {
    assert_eq!(parse_u16("8080"), Some(8080));
}

#[test]
fn parses_port_with_leading_zeros() {
    assert_eq!(parse_u16("00443"), Some(443));
}

#[test]
fn parses_largest_port() {
    assert_eq!(parse_u16("65535"), Some(65535));
}

#[test]
fn rejects_port_above_sixteen_bits() {
    assert_eq!(parse_u16("65536"), None);
    assert_eq!(parse_u16("70000"), None);
}

#[test]
fn rejects_empty_port() {
    assert_eq!(parse_u16(""), None);
}

#[test]
fn rejects_non_digit_port() {
    assert_eq!(parse_u16("notaport"), None);
    assert_eq!(parse_u16("80a"), None);
    assert_eq!(parse_u16("-1"), None);
    assert_eq!(parse_u16("+80"), None);
}

#[test]
fn renders_decimal() {
    assert_eq!(render_u64(0), "0");
    assert_eq!(render_u64(7), "7");
    assert_eq!(render_u64(13335), "13335");
    assert_eq!(render_u64(u64::MAX), "18446744073709551615");
}

#[test]
fn splits_on_commas() {
    let parts = split_on_char("1.2.3.4,8080,US,Acme", ',');
    assert_eq!(parts, vec!["1.2.3.4", "8080", "US", "Acme"]);
}

#[test]
fn split_keeps_empty_pieces() {
    assert_eq!(split_on_char(",a,,b,", ','), vec!["", "a", "", "b", ""]);
}

#[test]
fn split_of_empty_text_is_one_empty_piece() {
    assert_eq!(split_on_char("", ','), vec![""]);
}

#[test]
fn split_without_separator_is_whole_text() {
    assert_eq!(split_on_char("plain", ','), vec!["plain"]);
}

#[test]
fn trims_both_ends() {
    assert_eq!(trim_text("  a b\t"), "a b");
    assert_eq!(trim_text("ab"), "ab");
    assert_eq!(trim_text("   "), "");
    assert_eq!(trim_text(""), "");
}

#[test]
fn blank_lines_are_blank() {
    assert!(is_blank(""));
    assert!(is_blank(" \t "));
    assert!(!is_blank(" x "));
}

#[test]
fn cleans_org_name_to_alphanumerics_and_spaces() {
    assert_eq!(clean_org_name("Acme, Inc."), "Acme Inc");
    assert_eq!(clean_org_name("a-b_c"), "abc");
    assert_eq!(clean_org_name(""), "");
    assert_eq!(clean_org_name("plain words 42"), "plain words 42");
}

#[test]
fn finds_characters() {
    assert!(contains_char("a:b", ':'));
    assert!(!contains_char("ab", ':'));
}

#[test]
fn keeps_only_candidate_lines() {
    let lines = vec![
        String::from("1.2.3.4,80,US,A"),
        String::from("   "),
        String::from(""),
        String::from("5.6.7.8,81,DE,B"),
    ];
    let kept = keep_candidate_lines(&lines);
    assert_eq!(kept, vec!["1.2.3.4,80,US,A", "5.6.7.8,81,DE,B"]);
}
