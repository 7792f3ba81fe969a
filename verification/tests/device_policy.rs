use usb_bridge::device_policy::{ensure_allowed, evaluate, is_ftdi, prohibited_class, PolicyLevel};
use usb_bridge::error::ClientError;
use usb_bridge::protocol::UsbDevice;

fn device(vendor: &str, classes: &[&str]) -> UsbDevice {
    UsbDevice {
        bus_id: "1-2".into(),
        vendor_id: vendor.into(),
        product_id: "0001".into(),
        manufacturer: None,
        product: None,
        serial_number: None,
        device_class: "00".into(),
        interface_classes: classes.iter().map(|v| (*v).into()).collect(),
        drivers: Vec::new(),
        parent_hub: None,
        selected: false,
        selectable: true,
        risk: "normal".into(),
        warning: None,
        status: "available".into(),
    }
}

#[test]
fn prohibits_risky_classes_in_composites() {
    assert_eq!(evaluate(&device("1234", &["03", "08"])).level, PolicyLevel::Prohibited);
    assert_eq!(evaluate(&device("1234", &["01"])).level, PolicyLevel::Prohibited);
    assert_eq!(evaluate(&device("1234", &["0E"])).level, PolicyLevel::Prohibited);
}

#[test]
fn warns_for_ftdi() {
    assert_eq!(evaluate(&device("0403", &["ff"])).level, PolicyLevel::Warning);
}

#[test]
fn policy_labels_and_details() {
    let storage = evaluate(&device("1234", &["08"]));
    assert_eq!(storage.label, "禁止");
    assert_eq!(storage.detail, "ストレージ");
    let ftdi = evaluate(&device("0403", &["ff"]));
    assert_eq!(ftdi.label, "WARNING");
    assert_eq!(ftdi.detail, "FTDI: usbip-win2互換性問題の可能性");
    let plain = evaluate(&device("1234", &["03"]));
    assert_eq!(plain.level, PolicyLevel::Allowed);
    assert_eq!(plain.label, "利用可能");
    assert_eq!(plain.detail, "転送許可");
    let mut risky = device("1234", &["03"]);
    risky.risk = "caution".into();
    assert_eq!(evaluate(&risky).level, PolicyLevel::Warning);
    assert_eq!(evaluate(&risky).detail, "サーバーのデバイスポリシー");
    let mut blocked = device("1234", &["03"]);
    blocked.selectable = false;
    assert_eq!(evaluate(&blocked).level, PolicyLevel::Prohibited);
}

#[test]
fn blocked_class_order_and_case() {
    assert_eq!(prohibited_class(&device("1234", &["0e", "01"])), Some("オーディオ"));
    assert_eq!(prohibited_class(&device("1234", &["0E"])), Some("ビデオ"));
    assert_eq!(prohibited_class(&device("1234", &["03", "ff"])), None);
    assert!(is_ftdi(&device("0403", &[])));
    assert!(!is_ftdi(&device("0404", &[])));
}

#[test]
fn ensure_allowed_refuses_with_the_right_error() {
    match ensure_allowed(&device("1234", &["08"])) {
        Err(ClientError::ProhibitedDevice { bus_id, class_name }) => {
            assert_eq!(bus_id, "1-2");
            assert_eq!(class_name, "ストレージ");
        }
        other => panic!("unexpected {other:?}"),
    }
    let mut hidden = device("1234", &["03"]);
    hidden.selectable = false;
    match ensure_allowed(&hidden) {
        Err(ClientError::DeviceUnavailable(bus_id)) => assert_eq!(bus_id, "1-2"),
        other => panic!("unexpected {other:?}"),
    }
    assert!(ensure_allowed(&device("0403", &["ff"])).is_ok());
}
