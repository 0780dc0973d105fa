use sip_parser::{
    is_any_of, is_not_reserved_char, is_not_reserved_char_except, is_reserved_char,
    is_reserved_char_except, to_str, to_str_default, to_str_dbg,
};

#[test]
fn reserved_set_membership() {
    for c in b"()<>@,:;\\/?= \t\r\n" {
        assert!(is_reserved_char(*c));
    }
    assert!(!is_reserved_char(b'a'));
    assert!(is_not_reserved_char(b'-'));
    assert!(!is_not_reserved_char(b';'));
}

#[test]
fn reserved_exceptions() {
    assert!(!is_reserved_char_except(b'=', b"="));
    assert!(is_reserved_char_except(b';', b"="));
    assert!(is_not_reserved_char_except(b'=', b"="));
    assert!(!is_not_reserved_char_except(b';', b"="));
}

#[test]
fn any_of_checks_membership() {
    assert!(is_any_of(b'x', b"xyz"));
    assert!(!is_any_of(b'a', b"xyz"));
    assert!(!is_any_of(b'a', b""));
}

#[test]
fn to_str_decodes_nonempty_utf8() {
    assert_eq!(to_str(b"abc"), Some("abc".to_string()));
    assert_eq!(to_str(b""), None);
    assert_eq!(to_str(&[0xff, 0xfe]), None);
}

#[test]
fn to_str_default_falls_back_to_empty() {
    assert_eq!(to_str_default(b"abc"), "abc");
    assert_eq!(to_str_default(b""), "");
    assert_eq!(to_str_default(&[0xff]), "");
}

#[test]
fn to_str_dbg_marks_line_breaks() {
    assert_eq!(to_str_dbg(b"a\r\nb"), "a\\r\\n\r\nb");
    assert_eq!(to_str_dbg(b"plain"), "plain");
}
