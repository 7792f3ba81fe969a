use usb_bridge::cli::{
    attach_target, device_summary, device_warnings, devices_summary, dry_run_attach_notes,
    ensure_held, ensure_not_owned_by_other, ensure_owned, screen_acquire, server_host,
    session_summary,
};
use usb_bridge::config::Config;
use usb_bridge::error::ClientError;
use usb_bridge::inventory::mock_devices;
use usb_bridge::protocol::Session;

fn session(client: &str, devices: &[&str]) -> Session {
    Session { client_id: client.into(), devices: devices.iter().map(|d| (*d).into()).collect() }
}

#[test]
fn session_ownership_checks() {
    assert!(ensure_not_owned_by_other(&None, "a").is_ok());
    assert!(ensure_not_owned_by_other(&Some(session("a", &[])), "a").is_ok());
    assert!(matches!(ensure_not_owned_by_other(&Some(session("b", &[])), "a"), Err(ClientError::SessionOwnedByOther(c)) if c == "b"));
    assert_eq!(ensure_owned(Some(session("a", &["1-2"])), "a").unwrap().devices, ["1-2"]);
    assert!(matches!(ensure_owned(Some(session("b", &[])), "a"), Err(ClientError::SessionOwnedByOther(c)) if c == "b"));
    assert!(matches!(ensure_owned(None, "a"), Err(ClientError::Config(m)) if m == "解放・切断できるセッションがありません"));
    assert!(ensure_held(&session("a", &["1-2"]), "1-2").is_ok());
    assert!(matches!(ensure_held(&session("a", &["1-2"]), "1-3"), Err(ClientError::DeviceUnavailable(b)) if b == "1-3"));
}

#[test]
fn attach_targets_are_checked() {
    let devices = mock_devices(&vec![]);
    assert_eq!(attach_target(&devices, "1-1.4").unwrap().bus_id, "1-1.4");
    assert!(matches!(attach_target(&devices, "9-9"), Err(ClientError::DeviceUnavailable(b)) if b == "9-9"));
    assert!(matches!(attach_target(&devices, "1-1.6"), Err(ClientError::ProhibitedDevice { class_name, .. }) if class_name == "ストレージ"));
}

#[test]
fn acquire_screening_stops_at_the_first_refusal() {
    let devices = mock_devices(&vec!["1-1.4".into(), "1-1.7".into(), "1-1.5".into()]);
    let (passed, error) = screen_acquire(&devices, &vec![]);
    let ids: Vec<&str> = passed.iter().map(|d| d.bus_id.as_str()).collect();
    assert_eq!(ids, ["1-1.4", "1-1.5"]);
    assert!(matches!(error, Some(ClientError::ProhibitedDevice { bus_id, class_name }) if bus_id == "1-1.7" && class_name == "オーディオ"));
    let (passed, error) = screen_acquire(&devices, &vec!["1-1.5".into(), "1-1.9".into()]);
    assert_eq!(passed.len(), 2);
    assert!(error.is_none());
    let (passed, error) = screen_acquire(&devices, &vec!["1-1.5".into(), "7-7".into(), "1-1.6".into()]);
    assert!(passed.is_empty());
    assert!(matches!(error, Some(ClientError::DeviceUnavailable(b)) if b == "7-7"));
}

#[test]
fn device_listing_text() {
    let devices = mock_devices(&vec![]);
    let lines = device_summary(&devices[5]);
    assert_eq!(lines[0], "[禁止] 1-1.6  0781:0001  USB Storage  selectable=false risk=prohibited status=available");
    assert_eq!(lines[1], "  禁止理由: ストレージクラスは安全上の理由により転送対象外です");
    assert_eq!(lines.len(), 2);
    let ftdi = device_summary(&devices[8]);
    assert_eq!(ftdi[1], "  WARNING: FTDI系デバイスはusbip-win2で互換性問題が報告されています");
    assert_eq!(ftdi.len(), 2);
    let plain = device_summary(&devices[0]);
    assert_eq!(plain, ["[利用可能] 1-1.2.1  04da:3f18  HaritoraX Wireless  selectable=true risk=normal status=available"]);
    let mut risky = devices[0].clone();
    risky.risk = "caution".into();
    risky.warning = Some("w".into());
    risky.product = None;
    let risky_lines = device_summary(&risky);
    assert_eq!(risky_lines[0], "[WARNING] 1-1.2.1  04da:3f18  (製品名不明)  selectable=true risk=caution status=available");
    assert_eq!(risky_lines[1], "  警告: w");
    assert_eq!(devices_summary(&vec![]), ["USBデバイスはありません"]);
    assert_eq!(devices_summary(&devices).len(), 9 + 4);
}

#[test]
fn session_text() {
    assert_eq!(session_summary(&None), "アクティブなセッションはありません");
    assert_eq!(session_summary(&Some(session("a", &[]))), "client_id: a\ndevices: (なし)");
    assert_eq!(session_summary(&Some(session("a", &["1-1", "1-2"]))), "client_id: a\ndevices: 1-1, 1-2");
}

#[test]
fn device_warning_text() {
    let devices = mock_devices(&vec![]);
    let ftdi = device_warnings(&devices[8]);
    assert_eq!(ftdi.len(), 3);
    assert!(ftdi[0].starts_with("WARNING: 1-1.9 はFTDI系デバイスです。"));
    assert!(ftdi[1].starts_with("警告: 1-1.9 は切断時にデータ損失"));
    assert!(device_warnings(&devices[3]).is_empty());
}

#[test]
fn server_host_and_dry_run_notes() {
    let c = Config { server_url: "http://pi.local:8080/".into(), client_id: "a".into(), usbip_path: "u".into(), dry_run: true };
    assert_eq!(server_host(&c).unwrap(), "pi.local");
    let bad = Config { server_url: "unix:/x".into(), ..c.clone() };
    assert!(matches!(server_host(&bad), Err(ClientError::Config(m)) if m == "サーバーURLにホストがありません"));
    let (first, second) = dry_run_attach_notes("a", "1-2");
    assert_eq!(first, "dry-run: acquire client_id=a BUS_ID=1-2");
    assert_eq!(second, "dry-run: attach失敗時は取得したセッションをrelease");
}
