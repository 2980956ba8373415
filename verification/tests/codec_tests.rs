use script_service::codec::{dec_i64, dec_u64, encode_error, json_escape};
use script_service::messages::{BasicError, WsMessage};

#[test]
fn decimal_zero() {
    assert_eq!(dec_u64(0), "0");
    assert_eq!(dec_i64(0), "0");
}

#[test]
fn decimal_plain() {
    assert_eq!(dec_u64(42), "42");
    assert_eq!(dec_u64(1000000), "1000000");
    assert_eq!(dec_i64(987654321), "987654321");
}

#[test]
fn decimal_negative() {
    assert_eq!(dec_i64(-1), "-1");
    assert_eq!(dec_i64(-99000), "-99000");
}

#[test]
fn decimal_extremes() {
    assert_eq!(dec_u64(u64::MAX), "18446744073709551615");
    assert_eq!(dec_i64(i64::MIN), "-9223372036854775808");
    assert_eq!(dec_i64(i64::MAX), "9223372036854775807");
}

#[test]
fn escape_plain_text_unchanged() {
    assert_eq!(json_escape("hello world"), "hello world");
    assert_eq!(json_escape(""), "");
}

#[test]
fn escape_quotes_and_backslashes() {
    assert_eq!(json_escape("a\"b"), "a\\\"b");
    assert_eq!(json_escape("a\\b"), "a\\\\b");
}

#[test]
fn escape_control_characters() {
    assert_eq!(json_escape("a\nb"), "a\\u000ab");
    assert_eq!(json_escape("\t"), "\\u0009");
    assert_eq!(json_escape("\u{1f}"), "\\u001f");
}

#[test]
fn error_envelope_shape() {
    assert_eq!(encode_error(7, "denied"), "{\"messageId\":7,\"error\":\"denied\"}");
}

#[test]
fn error_envelope_negative_id_and_escapes() {
    assert_eq!(
        encode_error(-3, "bad \"token\""),
        "{\"messageId\":-3,\"error\":\"bad \\\"token\\\"\"}"
    );
}

#[test]
fn ws_message_error_envelope() {
    let m = WsMessage::error(12, "denied".to_string());
    assert_eq!(m.message, "{\"messageId\":12,\"error\":\"denied\"}");
    assert!(!m.close);
}

#[test]
fn basic_error_encodes_like_ws_message() {
    let b = BasicError { message_id: 5, error: "nope".to_string() };
    assert_eq!(b.encode(), WsMessage::error(5, "nope".to_string()).message);
}
