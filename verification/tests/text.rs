use rsnc::port::parse_port;
use rsnc::text::{chars_of, same_text};

#[test]
fn parse_port_reads_decimal_numbers() {
    assert_eq!(parse_port("0"), Some(0));
    assert_eq!(parse_port("7"), Some(7));
    assert_eq!(parse_port("54321"), Some(54321));
    assert_eq!(parse_port("65535"), Some(65535));
    assert_eq!(parse_port("+22"), Some(22));
    assert_eq!(parse_port("0000000000000000000000065535"), Some(65535));
}

#[test]
fn parse_port_never_truncates() {
    assert_eq!(parse_port("65536"), None);
    assert_eq!(parse_port("65537"), None);
    assert_eq!(parse_port("131071"), None);
    assert_eq!(parse_port("4294967296"), None);
    assert_eq!(parse_port("4294967297"), None);
    assert_eq!(parse_port("18446744073709551617"), None);
}

#[test]
fn parse_port_rejects_what_is_no_number() {
    assert_eq!(parse_port(""), None);
    assert_eq!(parse_port("+"), None);
    assert_eq!(parse_port("-1"), None);
    assert_eq!(parse_port("-0"), None);
    assert_eq!(parse_port("++1"), None);
    assert_eq!(parse_port("1+"), None);
    assert_eq!(parse_port("12 "), None);
    assert_eq!(parse_port("0x50"), None);
    assert_eq!(parse_port("8.0"), None);
    assert_eq!(parse_port("٣"), None);
    assert_eq!(parse_port("port"), None);
}

#[test]
fn same_text_compares_characters() {
    assert!(same_text("", ""));
    assert!(same_text("--tcp", "--tcp"));
    assert!(!same_text("--tcp", "--tcq"));
    assert!(!same_text("--tcp", "--tc"));
    assert!(!same_text("a", ""));
    assert!(same_text("héllo", "héllo"));
    assert!(!same_text("héllo", "hèllo"));
}

#[test]
fn chars_of_lists_characters_in_order() {
    assert_eq!(chars_of(""), Vec::<char>::new());
    assert_eq!(chars_of("-ul"), vec!['-', 'u', 'l']);
    assert_eq!(chars_of("é1"), vec!['é', '1']);
}
