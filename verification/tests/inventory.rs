use usb_bridge::inventory::is_interface_of;
use usb_bridge::inventory::{
    attribute_value, classify_device, device_from_sysfs, is_listed, mock_devices, natural_bus_key,
    parent_usb_path, sort_devices,
};

#[test]
fn prohibits_storage_audio_and_video_classes() {
    for class in ["08", "01", "0e"] {
        let result = classify_device("1234", &vec![class.to_owned()], &vec![]);
        assert!(!result.0, "class {class} must be prohibited");
        assert_eq!(result.1, "prohibited");
    }
}

#[test]
fn warns_for_ftdi_vendor() {
    let result = classify_device("0403", &vec!["ff".to_owned()], &vec![]);
    assert!(result.0);
    assert_eq!(result.1, "caution");
    assert!(result.2.unwrap().contains("FTDI"));
}

#[test]
fn network_classes_warn_unless_cdc_acm() {
    let r = classify_device("1234", &vec!["02".into()], &vec![]);
    assert_eq!((r.0, r.1), (true, "caution"));
    assert_eq!(r.2, Some("ネットワーク機器の場合、Piとの接続を失う可能性があります"));
    let r = classify_device("1234", &vec!["02".into()], &vec!["cdc_acm".into()]);
    assert_eq!((r.0, r.1, r.2), (true, "normal", None));
    let r = classify_device("1234", &vec!["03".into()], &vec![]);
    assert_eq!((r.0, r.1, r.2), (true, "normal", None));
    let r = classify_device("0403", &vec!["08".into()], &vec![]);
    assert_eq!(r.1, "prohibited");
    let r = classify_device("1234", &vec!["0E".into()], &vec![]);
    assert_eq!(r.1, "normal");
}

#[test]
fn parent_paths() {
    assert_eq!(parent_usb_path("1-1.2.3").as_deref(), Some("1-1.2"));
    assert_eq!(parent_usb_path("1-1.4").as_deref(), Some("1-1"));
    assert_eq!(parent_usb_path("1-1"), None);
    assert_eq!(parent_usb_path("usb1"), None);
    assert_eq!(parent_usb_path("2-3.1-4.5").as_deref(), Some("2-3.1-4"));
}

#[test]
fn natural_keys_and_order() {
    assert_eq!(natural_bus_key("1-1.10.2"), vec![1, 1, 10, 2]);
    assert_eq!(natural_bus_key("usb1"), Vec::<u32>::new());
    assert_eq!(natural_bus_key("1--x.3"), vec![1, 3]);
    assert_eq!(natural_bus_key("+7-1"), vec![7, 1]);
    assert_eq!(natural_bus_key("99999999999-1"), vec![1]);
    let devices = mock_devices(&vec![]);
    let mut shuffled: Vec<_> = devices.iter().rev().cloned().collect();
    shuffled.swap(0, 3);
    let sorted = sort_devices(shuffled);
    let ids: Vec<&str> = sorted.iter().map(|d| d.bus_id.as_str()).collect();
    assert_eq!(ids, ["1-1.2.1", "1-1.2.2", "1-1.2.3", "1-1.4", "1-1.5", "1-1.6", "1-1.7", "1-1.8", "1-1.9"]);
}

#[test]
fn mock_listing() {
    let devices = mock_devices(&vec!["1-1.4".into(), "9-9".into()]);
    assert_eq!(devices.len(), 9);
    assert!(devices[3].selected);
    assert!(!devices[0].selected);
    assert_eq!(devices[0].parent_hub.as_deref(), Some("1-1.2"));
    assert_eq!(devices[0].risk, "normal");
    assert_eq!(devices[0].warning, None);
    assert_eq!(devices[0].drivers, ["cdc_acm"]);
    assert_eq!(devices[3].drivers, ["usbhid"]);
    assert_eq!(devices[3].risk, "normal");
    assert!(!devices[5].selectable);
    assert_eq!(devices[5].risk, "prohibited");
    assert_eq!(devices[8].risk, "caution");
    assert_eq!(devices[8].manufacturer.as_deref(), Some("Mock Device"));
    assert_eq!(devices[8].product.as_deref(), Some("FTDI Serial Adapter"));
    assert_eq!(devices[8].device_class, "00");
    assert_eq!(devices[8].status, "available");
}

#[test]
fn sysfs_attributes_and_listing() {
    assert_eq!(attribute_value(&Some("  0403\n".into())).as_deref(), Some("0403"));
    assert_eq!(attribute_value(&Some(" \n".into())), None);
    assert_eq!(attribute_value(&None), None);
    assert!(is_listed("1-2", true, &Some("00\n".into())));
    assert!(!is_listed("1-2:1.0", true, &None));
    assert!(!is_listed("1-2", false, &None));
    assert!(!is_listed("1-2", true, &Some(" 09\n".into())));
    assert!(is_listed("usb1", true, &None));
}

#[test]
fn device_built_from_sysfs() {
    let d = device_from_sysfs(
        "1-1.3",
        &Some("04da\n".into()),
        &Some("3f18\n".into()),
        &Some(" Maker \n".into()),
        &None,
        &Some("".into()),
        &Some("00\n".into()),
        &vec![Some("02\n".into()), None, Some("0a".into()), Some("02".into())],
        &vec!["cdc_acm".into(), "cdc_acm".into()],
        &vec!["1-1.3".into()],
    );
    assert_eq!(d.bus_id, "1-1.3");
    assert_eq!(d.vendor_id, "04da");
    assert_eq!(d.manufacturer.as_deref(), Some("Maker"));
    assert_eq!(d.product, None);
    assert_eq!(d.serial_number, None);
    assert_eq!(d.interface_classes, ["02", "0a"]);
    assert_eq!(d.drivers, ["cdc_acm"]);
    assert_eq!(d.parent_hub.as_deref(), Some("1-1"));
    assert!(d.selected);
    assert!(d.selectable);
    assert_eq!(d.risk, "normal");
    assert_eq!(d.status, "available");
}

#[test]
fn interfaces_belong_to_their_device() {
    assert!(is_interface_of("1-1.2:1.0", "1-1.2"));
    assert!(!is_interface_of("1-1.20:1.0", "1-1.2"));
    assert!(!is_interface_of("1-1.2", "1-1.2"));
    assert!(!is_interface_of("usb1", "1-1.2"));
}
