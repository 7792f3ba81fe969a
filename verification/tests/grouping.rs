use usb_bridge::grouping::group_devices;
use usb_bridge::protocol::UsbDevice;

fn device(id: &str, parent: Option<&str>) -> UsbDevice {
    UsbDevice {
        bus_id: id.into(),
        vendor_id: "1".into(),
        product_id: "2".into(),
        manufacturer: None,
        product: None,
        serial_number: None,
        device_class: "00".into(),
        interface_classes: vec!["03".into()],
        drivers: vec![],
        parent_hub: parent.map(Into::into),
        selected: false,
        selectable: true,
        risk: "normal".into(),
        warning: None,
        status: "available".into(),
    }
}

#[test]
fn groups_siblings_by_parent_hub() {
    let groups = group_devices(&vec![
        device("1-1.1", Some("1-1")),
        device("1-1.2", Some("1-1")),
        device("2-1", None),
    ]);
    assert_eq!(groups.len(), 2);
    assert_eq!(groups[0].devices.len(), 2);
}

#[test]
fn groups_are_ordered_by_key_and_titled() {
    let groups = group_devices(&vec![
        device("2-1", None),
        device("1-1.3", Some("1-1")),
        device("1-1.10", Some("1-1")),
        device("1-1.2", Some("1-1")),
    ]);
    assert_eq!(groups.len(), 2);
    assert_eq!(groups[0].id, "1-1");
    assert_eq!(groups[0].title, "USBハブ 1-1");
    let ids: Vec<&str> = groups[0].devices.iter().map(|d| d.bus_id.as_str()).collect();
    assert_eq!(ids, ["1-1.10", "1-1.2", "1-1.3"]);
    assert_eq!(groups[1].id, "2-1");
    assert_eq!(groups[1].title, "単体デバイス");
    assert_eq!(groups[1].devices.len(), 1);
}

#[test]
fn every_device_lands_in_exactly_one_group() {
    let input = vec![
        device("3-1", None),
        device("1-1.1", Some("1-1")),
        device("1-2", None),
        device("1-1.4", Some("1-1")),
    ];
    let groups = group_devices(&input);
    let total: usize = groups.iter().map(|g| g.devices.len()).sum();
    assert_eq!(total, input.len());
    for d in &input {
        let key = d.parent_hub.clone().unwrap_or_else(|| d.bus_id.clone());
        let holding: Vec<_> = groups.iter().filter(|g| g.id == key).collect();
        assert_eq!(holding.len(), 1);
        assert!(holding[0].devices.iter().any(|x| x.bus_id == d.bus_id));
    }
}

#[test]
fn no_devices_no_groups() {
    assert!(group_devices(&Vec::new()).is_empty());
}
