use usb_bridge::api::{endpoint_url, http_error_message};
use usb_bridge::error::ClientError;

#[test]
fn refusal_messages() {
    assert_eq!(http_error_message(Some("busy".into()), "{\"error\":\"busy\"}".into(), Some("Conflict".into())), "busy");
    assert_eq!(http_error_message(None, "plain".into(), Some("Conflict".into())), "plain");
    assert_eq!(http_error_message(None, "  ".into(), Some("Conflict".into())), "Conflict");
    assert_eq!(http_error_message(None, "".into(), None), "不明なHTTPエラー");
}

#[test]
fn endpoints_are_joined_onto_the_base() {
    assert_eq!(endpoint_url("http://h:8080/", "api/devices").unwrap(), "http://h:8080/api/devices");
    assert_eq!(endpoint_url("http://h:8080/", "health").unwrap(), "http://h:8080/health");
    match endpoint_url("not a base", "health") {
        Err(ClientError::Config(m)) => assert!(m.starts_with("API URLを構築できません: ")),
        other => panic!("unexpected {other:?}"),
    }
}
