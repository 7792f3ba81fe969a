use usb_bridge::error::ClientError;
use usb_bridge::usbip::{args_of, Invocation, UsbipCommand, WindowsUsbip};

fn simulated(i: Invocation) -> usb_bridge::usbip::CommandOutput {
    match i {
        Invocation::Simulated(o) => o,
        Invocation::Spawn(args) => panic!("expected a dry run, got {args:?}"),
    }
}

#[test]
fn parses_port_for_bus_id() {
    let output = "Port 01: <Port in Use>\n  device\n  8-1 -> usbip://192.0.2.1:3240/1-1.5 (remote bus/dev)\n";
    assert_eq!(WindowsUsbip::port_for_bus_id(output, "1-1.5").as_deref(), Some("1"));
}

#[test]
fn dry_run_uses_0978_long_options() {
    let runner = WindowsUsbip::new("missing.exe".into(), true);
    assert!(simulated(runner.attach("example.test", "1-2"))
        .stdout
        .contains("attach --remote example.test --bus-id 1-2"));
    assert!(simulated(runner.stop_attach("example.test", "1-2")).stdout.ends_with("--stop"));
}

#[test]
fn port_parsing_edge_cases() {
    let output = "Port 00: <Port in Use>\r\n  busid=2-3\r\nPort 12: x\n  usbip://h/1-1.5\n";
    assert_eq!(WindowsUsbip::port_for_bus_id(output, "2-3").as_deref(), Some("0"));
    assert_eq!(WindowsUsbip::port_for_bus_id(output, "1-1.5").as_deref(), Some("12"));
    assert_eq!(WindowsUsbip::port_for_bus_id(output, "9-9"), None);
    assert_eq!(WindowsUsbip::port_for_bus_id("  usbip://h/1-1.5\nPort 02:\n", "1-1.5"), None);
    assert_eq!(WindowsUsbip::port_for_bus_id("", "1-1"), None);
}

#[test]
fn dry_run_output_names_executable_and_arguments() {
    let runner = WindowsUsbip::new("C:\\usbip.exe".into(), true);
    let out = simulated(runner.status());
    assert_eq!(out.stdout, "dry-run: C:\\usbip.exe port");
    assert_eq!(out.stderr, "");
    assert_eq!(out.code, Some(0));
    assert_eq!(simulated(runner.stop_all()).stdout, "dry-run: C:\\usbip.exe attach --stop-all");
    assert_eq!(simulated(runner.list("h")).stdout, "dry-run: C:\\usbip.exe list --remote h");
    match runner.detach_bus_id("1-2", None) {
        Ok(Invocation::Simulated(o)) => assert_eq!(o.stdout, "dry-run: C:\\usbip.exe detach --port <resolved-port>"),
        other => panic!("unexpected {other:?}"),
    }
    assert_eq!(runner.attached_port("1-2", "").as_deref(), Some("<dry-run-port>"));
}

#[test]
fn real_runs_spawn_with_the_arguments() {
    let runner = WindowsUsbip::new("usbip.exe".into(), false);
    assert!(!runner.is_dry_run());
    assert_eq!(runner.executable(), "usbip.exe");
    match runner.attach("h", "1-2") {
        Invocation::Spawn(args) => assert_eq!(args, ["attach", "--remote", "h", "--bus-id", "1-2"]),
        other => panic!("unexpected {other:?}"),
    }
    match runner.detach_bus_id("1-2", Some("3".into())) {
        Ok(Invocation::Spawn(args)) => assert_eq!(args, ["detach", "--port", "3"]),
        other => panic!("unexpected {other:?}"),
    }
    match runner.detach_bus_id("1-2", None) {
        Err(ClientError::UsbipPortNotFound(b)) => assert_eq!(b, "1-2"),
        other => panic!("unexpected {other:?}"),
    }
    assert_eq!(
        runner.attached_port("1-2", "Port 07: in use\n  usbip://h/1-2\n").as_deref(),
        Some("7")
    );
    assert_eq!(
        args_of(&UsbipCommand::StopAttach { host: "h".into(), bus_id: "1-2".into() }),
        ["attach", "--remote", "h", "--bus-id", "1-2", "--stop"]
    );
}

#[test]
fn finished_runs_are_judged() {
    let ok = WindowsUsbip::finished(&b"  hello \n".to_vec(), &b"".to_vec(), true, Some(0)).unwrap();
    assert_eq!(ok.stdout, "hello");
    assert_eq!(ok.code, Some(0));
    match WindowsUsbip::finished(&b"out".to_vec(), &b"  Access is denied.  ".to_vec(), false, Some(1)) {
        Err(ClientError::UsbipFailed { code, message, admin_hint }) => {
            assert_eq!(code, Some(1));
            assert_eq!(message, "Access is denied.");
            assert_eq!(admin_hint, "（管理者としてWindows Terminalを起動して再試行してください）");
        }
        other => panic!("unexpected {other:?}"),
    }
    match WindowsUsbip::finished(&b"no such device".to_vec(), &b"   ".to_vec(), false, Some(2)) {
        Err(ClientError::UsbipFailed { message, admin_hint, .. }) => {
            assert_eq!(message, "no such device");
            assert_eq!(admin_hint, "");
        }
        other => panic!("unexpected {other:?}"),
    }
    match WindowsUsbip::finished(&b"".to_vec(), &b"x".to_vec(), false, Some(5)) {
        Err(ClientError::UsbipFailed { admin_hint, .. }) => assert!(!admin_hint.is_empty()),
        other => panic!("unexpected {other:?}"),
    }
    match WindowsUsbip::finished(&b"".to_vec(), &b"Requires ELEVATION".to_vec(), false, None) {
        Err(ClientError::UsbipFailed { admin_hint, code, .. }) => {
            assert!(!admin_hint.is_empty());
            assert_eq!(code, None);
        }
        other => panic!("unexpected {other:?}"),
    }
    let lossy = WindowsUsbip::finished(&vec![b'a', 0xff, b'b'], &Vec::new(), true, Some(0)).unwrap();
    assert_eq!(lossy.stdout, "a\u{fffd}b");
}

#[test]
fn spawn_failures_are_classified() {
    assert!(matches!(WindowsUsbip::spawn_failure(true, "x".into()), ClientError::UsbipNotFound));
    match WindowsUsbip::spawn_failure(false, "denied".into()) {
        ClientError::UsbipIo(m) => assert_eq!(m, "denied"),
        other => panic!("unexpected {other:?}"),
    }
}
