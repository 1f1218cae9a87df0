use kafka::codec::{decode_handshake, decode_relay, encode_error_frame, encode_relay_frame};

#[test]
fn encode_relay_frame_plain() {
    assert_eq!(encode_relay_frame("hello"), "{\"message\":\"hello\"}\n");
}

#[test]
fn encode_relay_frame_empty_payload() {
    assert_eq!(encode_relay_frame(""), "{\"message\":\"\"}\n");
}

#[test]
fn encode_relay_frame_escapes_quote_and_backslash() {
    assert_eq!(encode_relay_frame("a\"b\\c"), "{\"message\":\"a\\\"b\\\\c\"}\n");
}

#[test]
fn encode_relay_frame_escapes_named_controls() {
    assert_eq!(
        encode_relay_frame("x\ny\rz\t\u{0008}\u{000C}"),
        "{\"message\":\"x\\ny\\rz\\t\\b\\f\"}\n"
    );
}

#[test]
fn encode_relay_frame_escapes_other_controls_as_hex() {
    assert_eq!(encode_relay_frame("\u{0001}\u{001F}"), "{\"message\":\"\\u0001\\u001f\"}\n");
}

#[test]
fn encode_relay_frame_keeps_non_ascii() {
    assert_eq!(encode_relay_frame("héllo"), "{\"message\":\"héllo\"}\n");
}

#[test]
fn error_frame_exact_text() {
    assert_eq!(encode_error_frame(), "{\"error\":\"received not valid json\"}\n");
}

#[test]
fn decode_handshake_subscribe() {
    let r = decode_handshake("{\"method\":\"subscribe\",\"topic\":\"news\"}").unwrap();
    assert_eq!(r.method, "subscribe");
    assert_eq!(r.topic, "news");
}

#[test]
fn decode_handshake_publish_with_trailing_newline() {
    let r = decode_handshake("{\"method\":\"publish\",\"topic\":\"news\"}\n").unwrap();
    assert_eq!(r.method, "publish");
    assert_eq!(r.topic, "news");
}

#[test]
fn decode_handshake_field_order_and_spacing_free() {
    let r = decode_handshake(" { \"topic\" : \"t1\" , \"method\" : \"subscribe\" } ").unwrap();
    assert_eq!(r.method, "subscribe");
    assert_eq!(r.topic, "t1");
}

#[test]
fn decode_handshake_not_json() {
    assert!(decode_handshake("not json at all").is_none());
}

#[test]
fn decode_handshake_missing_topic() {
    assert!(decode_handshake("{\"method\":\"subscribe\"}").is_none());
}

#[test]
fn decode_handshake_non_string_method() {
    assert!(decode_handshake("{\"method\":5,\"topic\":\"news\"}").is_none());
}

#[test]
fn decode_handshake_unknown_extra_field() {
    assert!(decode_handshake("{\"method\":\"subscribe\",\"topic\":\"t\",\"junk\":0}").is_none());
}

#[test]
fn decode_relay_unknown_extra_field() {
    assert!(decode_relay("{\"message\":\"x\",\"junk\":0}").is_none());
}

#[test]
fn decode_relay_plain() {
    assert_eq!(decode_relay("{\"message\":\"Hello world!\"}\n").unwrap(), "Hello world!");
}

#[test]
fn decode_relay_unescapes() {
    assert_eq!(decode_relay("{\"message\":\"a\\\"b\\\\c\\nd\"}").unwrap(), "a\"b\\c\nd");
}

#[test]
fn decode_relay_malformed() {
    assert!(decode_relay("{\"message\": }").is_none());
}

#[test]
fn decode_relay_missing_field() {
    assert!(decode_relay("{\"msg\":\"x\"}").is_none());
}

#[test]
fn relay_frame_round_trip() {
    let payload = "tricky \"payload\"\\ with\nlines\tand \u{0001}";
    let frame = encode_relay_frame(payload);
    assert_eq!(frame.chars().last(), Some('\n'));
    assert_eq!(decode_relay(&frame).unwrap(), payload);
}
