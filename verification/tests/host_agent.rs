use usb_bridge::host_agent::{
    check_request_size, inspection_refusal, is_valid_bus_id, prohibited_class, response_for,
    usbip_outcome, AgentAction, AgentEvent, AgentRun, DeviceInspection, InterfaceEntry, ProcessOutput,
};
use usb_bridge::protocol::{HostControlAction, HostControlRequest};

#[test]
fn accepts_kernel_usb_bus_ids() {
    assert!(is_valid_bus_id("1-1.3"));
    assert!(is_valid_bus_id("10-2.12.4"));
}

#[test]
fn rejects_interface_ids_and_command_arguments() {
    assert!(!is_valid_bus_id("1-1.3:1.0"));
    assert!(!is_valid_bus_id("--help"));
    assert!(!is_valid_bus_id("1-1;reboot"));
    assert!(!is_valid_bus_id("../1-1"));
}

#[test]
fn recognizes_prohibited_classes_case_insensitively() {
    assert_eq!(prohibited_class("08"), Some("mass-storage"));
    assert_eq!(prohibited_class("01"), Some("audio"));
    assert_eq!(prohibited_class("0E"), Some("video"));
    assert_eq!(prohibited_class("03"), None);
    assert_eq!(prohibited_class("ff"), None);
}

#[test]
fn bus_id_length_and_shape_limits() {
    assert!(!is_valid_bus_id(""));
    assert!(!is_valid_bus_id("1.1"));
    assert!(is_valid_bus_id("1-1111111111111111111111111111.1"));
    assert!(!is_valid_bus_id("1-11111111111111111111111111111.1"));
    assert!(!is_valid_bus_id("１-1"));
}

#[test]
fn request_size_is_limited() {
    assert!(check_request_size(65536).is_ok());
    assert_eq!(check_request_size(65537).unwrap_err(), "request exceeds 64 KiB");
}

fn present(class: &str, interfaces: &[(&str, &str)]) -> DeviceInspection {
    DeviceInspection {
        present: Ok(true),
        device_class: class.into(),
        interfaces: interfaces
            .iter()
            .map(|(n, c)| InterfaceEntry { name: (*n).into(), class: (*c).into() })
            .collect(),
        listing_error: None,
    }
}

#[test]
fn inspection_refusals() {
    assert_eq!(inspection_refusal("1-2", &present("00\n", &[("1-2:1.0", "03\n")])), None);
    assert_eq!(
        inspection_refusal("1-2", &present(" 09 \n", &[])).as_deref(),
        Some("refusing to export USB hub 1-2")
    );
    assert_eq!(
        inspection_refusal("1-2", &present("00", &[("1-20:1.0", "08"), ("1-2:1.1", "0E\n")])).as_deref(),
        Some("refusing to export 1-2: prohibited video interface class")
    );
    let missing = DeviceInspection { present: Ok(false), device_class: String::new(), interfaces: vec![], listing_error: None };
    assert_eq!(inspection_refusal("1-2", &missing).as_deref(), Some("USB device 1-2 is not present"));
    let broken = DeviceInspection { present: Err("denied".into()), device_class: String::new(), interfaces: vec![], listing_error: None };
    assert_eq!(inspection_refusal("1-2", &broken).as_deref(), Some("failed to inspect 1-2: denied"));
    let mut cut = present("00", &[("1-2:1.0", "03")]);
    cut.listing_error = Some("io".into());
    assert_eq!(inspection_refusal("1-2", &cut).as_deref(), Some("failed to inspect USB interfaces: io"));
}

#[test]
fn usbip_outcome_messages() {
    assert_eq!(usbip_outcome("/usr/sbin/usbip", "bind", "1-2", &Err("not found".into())).unwrap_err(),
        "failed to execute /usr/sbin/usbip: not found");
    let ok = ProcessOutput { success: true, code: Some(0), stdout: vec![], stderr: vec![] };
    assert!(usbip_outcome("u", "bind", "1-2", &Ok(ok)).is_ok());
    let failed = ProcessOutput { success: false, code: Some(1), stdout: b"out\n".to_vec(), stderr: b" err \n".to_vec() };
    assert_eq!(usbip_outcome("u", "bind", "1-2", &Ok(failed)).unwrap_err(), "usbip bind failed for 1-2 (exit Some(1)): err");
    let quiet = ProcessOutput { success: false, code: None, stdout: b"out".to_vec(), stderr: b"  ".to_vec() };
    assert_eq!(usbip_outcome("u", "unbind", "1-2", &Ok(quiet)).unwrap_err(), "usbip unbind failed for 1-2 (exit None): out");
    let negative = ProcessOutput { success: false, code: Some(-3), stdout: vec![], stderr: b"x".to_vec() };
    assert_eq!(usbip_outcome("u", "bind", "1-2", &Ok(negative)).unwrap_err(), "usbip bind failed for 1-2 (exit Some(-3)): x");
}

#[test]
fn responses_carry_the_outcome() {
    let ok = response_for(&Ok(()));
    assert!(ok.success);
    assert_eq!(ok.error, None);
    let err = response_for(&Err("bad".into()));
    assert!(!err.success);
    assert_eq!(err.error.as_deref(), Some("bad"));
}

/// Runs a request, answering inspections with a clean device and usbip
/// runs from `outcome`; returns the usbip calls and the answer.
fn drive(action: HostControlAction, devices: &[&str], outcome: impl Fn(&str, &str) -> Result<(), String>) -> (Vec<String>, Result<(), String>) {
    let request = HostControlRequest { action, devices: devices.iter().map(|d| (*d).into()).collect() };
    let (mut run, mut next) = AgentRun::start(&request);
    let mut calls = Vec::new();
    loop {
        let event = match next {
            AgentAction::Inspect(_) => AgentEvent::Inspected(present("00", &[])),
            AgentAction::Usbip { operation, bus_id } => {
                calls.push(format!("{operation}:{bus_id}"));
                AgentEvent::Ran(outcome(operation, &bus_id))
            }
            AgentAction::Finish(result) => return (calls, result),
        };
        let (r, a) = run.step(event);
        run = r;
        next = a;
    }
}

#[test]
fn failed_bind_undoes_earlier_binds() {
    let (calls, result) = drive(HostControlAction::Bind, &["1-1", "1-2", "1-3"], |op, bus| {
        if op == "bind" && bus == "1-3" { Err("boom".into()) } else if op == "unbind" { Err("ignored".into()) } else { Ok(()) }
    });
    assert_eq!(calls, ["bind:1-1", "bind:1-2", "bind:1-3", "unbind:1-2", "unbind:1-1"]);
    assert_eq!(result, Err("boom".into()));
}

#[test]
fn binding_everything_succeeds() {
    let (calls, result) = drive(HostControlAction::Bind, &["1-1", "1-2"], |_, _| Ok(()));
    assert_eq!(calls, ["bind:1-1", "bind:1-2"]);
    assert_eq!(result, Ok(()));
    let (calls, result) = drive(HostControlAction::Bind, &["1-1"], |_, _| Err("first".into()));
    assert_eq!(calls, ["bind:1-1"]);
    assert_eq!(result, Err("first".into()));
}

#[test]
fn release_tries_every_device_and_joins_errors() {
    let (calls, result) = drive(HostControlAction::Unbind, &["1-1", "1-2", "1-3"], |_, bus| {
        if bus == "1-2" { Ok(()) } else { Err(format!("e{bus}")) }
    });
    assert_eq!(calls, ["unbind:1-1", "unbind:1-2", "unbind:1-3"]);
    assert_eq!(result, Err("e1-1; e1-3".into()));
    let (_, result) = drive(HostControlAction::Unbind, &["1-1"], |_, _| Ok(()));
    assert_eq!(result, Ok(()));
}

#[test]
fn malformed_or_empty_requests_never_reach_usbip() {
    let (calls, result) = drive(HostControlAction::Bind, &["1-1", "--help"], |_, _| Ok(()));
    assert!(calls.is_empty());
    assert_eq!(result, Err("invalid USB bus ID: \"--help\"".into()));
    let (calls, result) = drive(HostControlAction::Unbind, &[], |_, _| Ok(()));
    assert!(calls.is_empty());
    assert_eq!(result, Err("device list must not be empty".into()));
}

#[test]
fn refused_inspection_ends_the_request() {
    let request = HostControlRequest { action: HostControlAction::Bind, devices: vec!["1-2".into()] };
    let (run, action) = AgentRun::start(&request);
    assert!(matches!(action, AgentAction::Inspect(ref b) if b == "1-2"));
    let (_, action) = run.step(AgentEvent::Inspected(present("09", &[])));
    match action {
        AgentAction::Finish(r) => assert_eq!(r, Err("refusing to export USB hub 1-2".into())),
        other => panic!("unexpected {other:?}"),
    }
}
