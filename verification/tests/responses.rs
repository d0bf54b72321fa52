use true_track_proxy::response::{
    decimal_bytes, json_message_body, json_response_plan, redirect_plan, HeaderField,
    STATUS_BAD_GATEWAY, STATUS_FOUND,
};
use true_track_proxy::utils::health_check_service_name;

#[test]
fn decimal_bytes_writes_digits() {
    assert_eq!(decimal_bytes(0), b"0".to_vec());
    assert_eq!(decimal_bytes(7), b"7".to_vec());
    assert_eq!(decimal_bytes(26), b"26".to_vec());
    assert_eq!(decimal_bytes(125829120), b"125829120".to_vec());
    assert_eq!(decimal_bytes(usize::MAX), usize::MAX.to_string().into_bytes());
}

#[test]
fn json_body_matches_serde_json_object() {
    assert_eq!(json_message_body("Host invalid"), br#"{"message":"Host invalid"}"#.to_vec());
    assert_eq!(
        json_message_body("payload too large (max: 120mb)"),
        br#"{"message":"payload too large (max: 120mb)"}"#.to_vec()
    );
}

#[test]
fn json_body_escapes_quotes_and_controls() {
    assert_eq!(json_message_body("a\"b\\c\nd"), br#"{"message":"a\"b\\c\nd"}"#.to_vec());
    assert_eq!(json_message_body("h\u{e9}"), "{\"message\":\"h\u{e9}\"}".as_bytes().to_vec());
}

#[test]
fn json_response_length_counts_body_bytes() {
    let plan = json_response_plan(STATUS_BAD_GATEWAY, "Host invalid", false);
    assert_eq!(plan.status, 502);
    assert_eq!(plan.headers, vec![(HeaderField::ContentLength, b"26".to_vec())]);
    assert_eq!(plan.body, None);
    let plan = json_response_plan(403, "Host is not allow", true);
    assert_eq!(plan.headers, vec![(HeaderField::ContentLength, b"31".to_vec())]);
    assert_eq!(plan.body, Some(br#"{"message":"Host is not allow"}"#.to_vec()));
}

#[test]
fn redirect_plan_headers_in_order() {
    let plan = redirect_plan("https://a.example.com/x?y=1", "http");
    assert_eq!(plan.status, STATUS_FOUND);
    assert_eq!(
        plan.headers,
        vec![
            (HeaderField::Location, b"https://a.example.com/x?y=1".to_vec()),
            (HeaderField::ContentLength, b"0".to_vec()),
            (HeaderField::RedirectFrom, b"http".to_vec()),
        ]
    );
    assert_eq!(plan.body, None);
}

#[test]
fn header_field_names() {
    assert_eq!(HeaderField::ContentLength.name(), "Content-Length");
    assert_eq!(HeaderField::Location.name(), "Location");
    assert_eq!(HeaderField::RedirectFrom.name(), "Redirect-From");
    assert_eq!(HeaderField::XForwardedFor.name(), "X-Forwarded-For");
    assert_eq!(HeaderField::XForwardedProto.name(), "X-Forwarded-Proto");
    assert_eq!(HeaderField::XForwardedHost.name(), "X-Forwarded-Host");
    assert_eq!(HeaderField::Host.name(), "Host");
}

#[test]
fn health_check_service_is_named_after_host() {
    assert_eq!(health_check_service_name("api.example.com"), "api.example.com_health_check");
    assert_eq!(health_check_service_name(""), "_health_check");
}

#[test]
fn json_body_escapes_other_controls_in_lower_hex() {
    assert_eq!(
        json_message_body("\u{1f}\u{8}\u{c}\r\t/"),
        br#"{"message":"\u001f\b\f\r\t/"}"#.to_vec()
    );
}
