use chatrans::text::{push_decimal, push_signed_decimal, push_text, utf8_text};

#[test]
fn numbers_in_decimal() {
    let mut s = String::from("n=");
    push_decimal(&mut s, 0);
    push_text(&mut s, ",");
    push_decimal(&mut s, 7);
    push_text(&mut s, ",");
    push_decimal(&mut s, 10);
    push_text(&mut s, ",");
    push_decimal(&mut s, 1234567890);
    push_text(&mut s, ",");
    push_decimal(&mut s, u64::MAX);
    assert_eq!(s, "n=0,7,10,1234567890,18446744073709551615");
}

#[test]
fn integers_in_decimal() {
    let mut s = String::new();
    push_signed_decimal(&mut s, 0);
    push_text(&mut s, " ");
    push_signed_decimal(&mut s, -1);
    push_text(&mut s, " ");
    push_signed_decimal(&mut s, 42);
    push_text(&mut s, " ");
    push_signed_decimal(&mut s, i64::MAX);
    push_text(&mut s, " ");
    push_signed_decimal(&mut s, i64::MIN);
    assert_eq!(s, format!("0 -1 42 {} {}", i64::MAX, i64::MIN));
}

#[test]
fn bytes_as_text() {
    assert_eq!(utf8_text(b""), Some(""));
    assert_eq!(utf8_text(b"plain"), Some("plain"));
    assert_eq!(utf8_text("\u{43f}\u{440}\u{438}\u{432}\u{435}\u{442} \u{1F600}".as_bytes()), Some("\u{43f}\u{440}\u{438}\u{432}\u{435}\u{442} \u{1F600}"));
    assert_eq!(utf8_text(&[0xFF]), None);
    assert_eq!(utf8_text(&[0xC0, 0x80]), None);
    assert_eq!(utf8_text(&[0xED, 0xA0, 0x80]), None);
    assert_eq!(utf8_text(&[0xF4, 0x90, 0x80, 0x80]), None);
    assert_eq!(utf8_text(&[0xE2, 0x82]), None);
}
