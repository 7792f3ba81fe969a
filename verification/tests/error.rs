use usb_bridge::error::{code_string, ClientError};

#[test]
fn error_texts() {
    assert_eq!(ClientError::Config("x".into()).message(), "configuration error: x");
    assert!(ClientError::Json { url: "u".into(), source: "s".into() }.message().contains("JSONとして解析"));
    assert_eq!(
        ClientError::Http { status: "409 Conflict".into(), message: "busy".into() }.message(),
        "server returned HTTP 409 Conflict: busy"
    );
    assert_eq!(
        ClientError::UsbipFailed { code: Some(-1), message: "m".into(), admin_hint: "!" }.message(),
        "usbip-win2 failed with exit code Some(-1): m!"
    );
    assert_eq!(code_string(None), "None");
    assert_eq!(code_string(Some(2147483647)), "Some(2147483647)");
    assert_eq!(code_string(Some(-2147483648)), "Some(-2147483648)");
    assert_eq!(ClientError::UsbipPortNotFound("1-2".into()).message(), "no attached USB/IP port was found for BUS_ID 1-2");
    assert_eq!(ClientError::Cancelled.message(), "the operation was cancelled because the application is exiting");
}
