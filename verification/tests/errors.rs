use serde_lson::error::Error;
use serde_lson::ser::text_of;

#[test]
fn message_of_a_custom_error_is_its_text() {
    assert_eq!(Error::custom("no such thing").message(), "no such thing");
    assert_eq!(Error::custom("no such thing"), Error::Message("no such thing".to_string()));
    assert_eq!(Error::Message(String::new()).message(), "");
}

#[test]
fn message_of_a_sink_failure_is_its_text() {
    assert_eq!(Error::IoError("disk full".to_string()).message(), "disk full");
}

#[test]
fn message_of_invalid_utf8_gives_offsets() {
    let error = Error::InvalidUtf8 { valid_up_to: 12, error_len: Some(3) };
    assert_eq!(error.message(), "Invalid UTF-8; valid up to: 12, error length: 3");
    let error = Error::InvalidUtf8 { valid_up_to: 0, error_len: None };
    assert_eq!(error.message(), "Invalid UTF-8; valid up to: 0, error length: EOF");
}

#[test]
fn valid_bytes_are_text() {
    assert_eq!(text_of(b"{ 1, 2 }"), Ok("{ 1, 2 }".to_string()));
    assert_eq!(text_of("größe 寸法 🎉".as_bytes()), Ok("größe 寸法 🎉".to_string()));
    assert_eq!(text_of(b""), Ok(String::new()));
}

#[test]
fn invalid_byte_is_reported_with_its_place() {
    let result = text_of(b"ab\xffcd");
    assert_eq!(result, Err(Error::InvalidUtf8 { valid_up_to: 2, error_len: Some(1) }));
}

#[test]
fn text_that_ends_too_early_is_reported_without_a_length() {
    let result = text_of(b"abc\xe2\x82");
    assert_eq!(result, Err(Error::InvalidUtf8 { valid_up_to: 3, error_len: None }));
}

#[test]
fn surrogate_and_overlong_encodings_are_refused() {
    assert!(matches!(text_of(b"\xed\xa0\x80"), Err(Error::InvalidUtf8 { .. })));
    assert!(matches!(text_of(b"\xc0\x80"), Err(Error::InvalidUtf8 { .. })));
    assert!(matches!(text_of(b"\xf4\x90\x80\x80"), Err(Error::InvalidUtf8 { .. })));
}
