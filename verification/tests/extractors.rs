use user_service::payload::parse_user_payload;
use user_service::request::{get_body, get_id, parse_i32, request_from_bytes};

#[test]
fn get_id_takes_segment_after_second_slash() {
    assert_eq!(get_id("GET /users/42 HTTP/1.1\r\n\r\n"), "42");
    assert_eq!(get_id("DELETE /users/137 HTTP/1.1\r\n\r\n"), "137");
    assert_eq!(get_id("PUT /users/-5 HTTP/1.1\r\n\r\n"), "-5");
}

#[test]
fn get_id_empty_when_no_segment() {
    assert_eq!(get_id("GET /users/ HTTP/1.1\r\n\r\n"), "");
    assert_eq!(get_id("no slashes here"), "");
}

#[test]
fn parse_i32_accepts_decimal_integers() {
    assert_eq!(parse_i32("0"), Some(0));
    assert_eq!(parse_i32("42"), Some(42));
    assert_eq!(parse_i32("-7"), Some(-7));
    assert_eq!(parse_i32("+7"), Some(7));
    assert_eq!(parse_i32("007"), Some(7));
    assert_eq!(parse_i32("2147483647"), Some(i32::MAX));
    assert_eq!(parse_i32("-2147483648"), Some(i32::MIN));
}

#[test]
fn parse_i32_rejects_everything_else() {
    assert_eq!(parse_i32(""), None);
    assert_eq!(parse_i32("-"), None);
    assert_eq!(parse_i32("+"), None);
    assert_eq!(parse_i32("abc"), None);
    assert_eq!(parse_i32("12a"), None);
    assert_eq!(parse_i32(" 12"), None);
    assert_eq!(parse_i32("2147483648"), None);
    assert_eq!(parse_i32("-2147483649"), None);
    assert_eq!(parse_i32("99999999999999999999"), None);
}

#[test]
fn get_body_takes_text_after_blank_line() {
    assert_eq!(
        get_body("POST /users HTTP/1.1\r\nHost: x\r\n\r\n{\"a\":1}"),
        "{\"a\":1}"
    );
    assert_eq!(get_body("GET /users HTTP/1.1\r\n\r\n"), "");
    assert_eq!(get_body("no separator"), "");
}

#[test]
fn payload_with_name_and_email_parses() {
    let p = parse_user_payload("{\"name\":\"Ada\",\"email\":\"ada@x.com\"}").unwrap();
    assert_eq!(p.name, "Ada");
    assert_eq!(p.email, "ada@x.com");
}

#[test]
fn payload_order_and_whitespace_are_free() {
    let p = parse_user_payload(" { \"email\" : \"e@x\" , \"name\" : \"N\" } ").unwrap();
    assert_eq!(p.name, "N");
    assert_eq!(p.email, "e@x");
}

#[test]
fn payload_unknown_scalar_members_are_skipped() {
    let p = parse_user_payload("{\"id\":7,\"name\":\"Ada\",\"email\":\"a@b\",\"ok\":true}")
        .unwrap();
    assert_eq!(p.name, "Ada");
    assert_eq!(p.email, "a@b");
}

#[test]
fn payload_escapes_are_decoded() {
    let p = parse_user_payload("{\"name\":\"A\\\"B\\\\C\\n\",\"email\":\"e\"}").unwrap();
    assert_eq!(p.name, "A\"B\\C\n");
    assert_eq!(p.email, "e");
}

#[test]
fn payload_hex_escapes_are_decoded() {
    let p = parse_user_payload("{\"name\":\"\\u0041\\u00e9\",\"email\":\"e\"}").unwrap();
    assert_eq!(p.name, "A\u{e9}");
    let p = parse_user_payload("{\"name\":\"\\uC11C\",\"email\":\"e\"}").unwrap();
    assert_eq!(p.name, "\u{C11C}");
}

#[test]
fn payload_bad_hex_escapes_fail() {
    assert!(parse_user_payload("{\"name\":\"\\ud800\",\"email\":\"e\"}").is_none());
    assert!(parse_user_payload("{\"name\":\"\\u12g4\",\"email\":\"e\"}").is_none());
    assert!(parse_user_payload("{\"name\":\"\\u12\",\"email\":\"e\"}").is_none());
}

#[test]
fn payload_missing_member_fails() {
    assert!(parse_user_payload("{\"name\":\"Ada\"}").is_none());
    assert!(parse_user_payload("{\"email\":\"a@b\"}").is_none());
    assert!(parse_user_payload("{}").is_none());
}

#[test]
fn payload_malformed_fails() {
    assert!(parse_user_payload("").is_none());
    assert!(parse_user_payload("not json").is_none());
    assert!(parse_user_payload("{\"name\":\"a\",\"email\":\"b\"").is_none());
    assert!(parse_user_payload("{\"name\":\"a\",\"email\":\"b\"} x").is_none());
    assert!(parse_user_payload("{\"name\":\"a\",}").is_none());
    assert!(parse_user_payload("[\"name\",\"email\"]").is_none());
}

#[test]
fn payload_non_string_name_does_not_count() {
    assert!(parse_user_payload("{\"name\":5,\"email\":\"b\"}").is_none());
}

#[test]
fn payload_last_member_wins() {
    let p =
        parse_user_payload("{\"name\":\"first\",\"email\":\"e\",\"name\":\"second\"}").unwrap();
    assert_eq!(p.name, "second");
}

#[test]
fn request_from_bytes_keeps_valid_text() {
    assert_eq!(request_from_bytes(b"GET /users HTTP/1.1\r\n\r\n"), "GET /users HTTP/1.1\r\n\r\n");
    assert_eq!(request_from_bytes("caf\u{e9} \u{C11C}".as_bytes()), "caf\u{e9} \u{C11C}");
    assert_eq!(request_from_bytes(b""), "");
}

#[test]
fn request_from_bytes_drops_invalid_tail() {
    let mut bytes = b"POST /users".to_vec();
    bytes.extend_from_slice(&"\u{C11C}".as_bytes()[..2]);
    assert_eq!(request_from_bytes(&bytes), "POST /users");
    assert_eq!(request_from_bytes(&[0x41, 0xff, 0x42]), "A");
    assert_eq!(request_from_bytes(&[0x80, 0x41]), "");
    assert_eq!(request_from_bytes(&[0xc0, 0xaf]), "");
    assert_eq!(request_from_bytes(&[0xed, 0xa0, 0x80]), "");
}
