use krb5proxy::text::{parse_u16, split_nth, str_starts_with};

#[test]
fn split_nth_takes_pieces_between_separators() {
    assert_eq!(split_nth("a:b:c", ":", 0), Some("a".to_string()));
    assert_eq!(split_nth("a:b:c", ":", 1), Some("b".to_string()));
    assert_eq!(split_nth("a:b:c", ":", 2), Some("c".to_string()));
    assert_eq!(split_nth("a:b:c", ":", 3), None);
}

#[test]
fn split_nth_keeps_empty_pieces() {
    assert_eq!(split_nth("", ":", 0), Some("".to_string()));
    assert_eq!(split_nth("", ":", 1), None);
    assert_eq!(split_nth(":", ":", 0), Some("".to_string()));
    assert_eq!(split_nth(":", ":", 1), Some("".to_string()));
    assert_eq!(split_nth("a::b", ":", 1), Some("".to_string()));
}

#[test]
fn split_nth_with_longer_separator() {
    assert_eq!(split_nth("http://h:1", "://", 0), Some("http".to_string()));
    assert_eq!(split_nth("http://h:1", "://", 1), Some("h:1".to_string()));
    assert_eq!(split_nth("a://b://c", "://", 1), Some("b".to_string()));
    assert_eq!(split_nth("abc", "://", 1), None);
    assert_eq!(split_nth(":/x://y", "://", 1), Some("y".to_string()));
}

#[test]
fn split_nth_on_non_ascii_text() {
    assert_eq!(split_nth("žluť:kůň", ":", 0), Some("žluť".to_string()));
    assert_eq!(split_nth("žluť:kůň", ":", 1), Some("kůň".to_string()));
}

#[test]
fn parse_u16_reads_decimal_ports() {
    assert_eq!(parse_u16("0"), Some(0));
    assert_eq!(parse_u16("8080"), Some(8080));
    assert_eq!(parse_u16("65535"), Some(65535));
    assert_eq!(parse_u16("0003128"), Some(3128));
    assert_eq!(parse_u16("+80"), Some(80));
}

#[test]
fn parse_u16_refuses_what_is_no_port() {
    assert_eq!(parse_u16(""), None);
    assert_eq!(parse_u16("+"), None);
    assert_eq!(parse_u16("-1"), None);
    assert_eq!(parse_u16("65536"), None);
    assert_eq!(parse_u16("99999999999"), None);
    assert_eq!(parse_u16(" 80"), None);
    assert_eq!(parse_u16("80a"), None);
    assert_eq!(parse_u16("++8"), None);
    assert_eq!(parse_u16("٣"), None);
}

#[test]
fn parse_u16_agrees_with_std() {
    for s in ["", "1", "+1", "-0", "65535", "65536", "00000000000065535", "1 ", "x", "+0"] {
        assert_eq!(parse_u16(s), s.parse::<u16>().ok(), "input {:?}", s);
    }
}

#[test]
fn str_starts_with_checks_prefix() {
    assert!(str_starts_with("HTTP/1.1 200 OK", "HTTP/1.1 200"));
    assert!(str_starts_with("abc", ""));
    assert!(!str_starts_with("HTTP/1.1 20", "HTTP/1.1 200"));
    assert!(!str_starts_with("HTTP/1.0 200", "HTTP/1.1 200"));
}
