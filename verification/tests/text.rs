use rucli::netconf::text::{decode_text, join_tokens, same_bytes, same_text};

#[test]
fn join_tokens_puts_single_spaces_between() {
    assert_eq!(join_tokens(&vec![]), "");
    assert_eq!(join_tokens(&vec!["show".to_string()]), "show");
    assert_eq!(join_tokens(&vec!["show".to_string(), "version".to_string()]), "show version");
    assert_eq!(
        join_tokens(&vec!["show".to_string(), "".to_string(), "x y".to_string()]),
        "show  x y"
    );
}

#[test]
fn same_text_compares_contents() {
    assert!(same_text("", ""));
    assert!(same_text("warning", "warning"));
    assert!(!same_text("warning", "Warning"));
    assert!(!same_text("warning", "warnin"));
    assert!(!same_text("warnin", "warning"));
    assert!(same_text("größe", "größe"));
}

#[test]
fn same_bytes_compares_contents() {
    assert!(same_bytes(b"", b""));
    assert!(same_bytes(b"abc", b"abc"));
    assert!(!same_bytes(b"abc", b"abd"));
    assert!(!same_bytes(b"abc", b"ab"));
}

#[test]
fn decode_text_accepts_valid_utf8_only() {
    assert_eq!(decode_text(b"".to_vec()), Some(String::new()));
    assert_eq!(decode_text("a€b".as_bytes().to_vec()), Some("a€b".to_string()));
    assert_eq!(decode_text(vec![0x80]), None);
    assert_eq!(decode_text(vec![0xe2, 0x82]), None);
    assert_eq!(decode_text(vec![0xed, 0xa0, 0x80]), None);
}
