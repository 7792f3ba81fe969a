use std::collections::BTreeSet;

use usb_bridge::connection::{
    ConnectAction, ConnectEvent, ConnectGroup, DisconnectAction, DisconnectEvent, DisconnectGroup,
};
use usb_bridge::error::ClientError;
use usb_bridge::protocol::{Session, UsbDevice};

/// A stand-in for the server and for usbip-win2 that records what it is
/// asked, as the original test doubles did.
struct World {
    session: Option<Session>,
    heartbeat_ok: bool,
    requests: Vec<String>,
    calls: Vec<String>,
    attach_failure: Option<String>,
    stop_fails: bool,
    /// `Some` when detaching clears every port, as usbip-win2 may do.
    ports: Option<BTreeSet<String>>,
}

impl World {
    fn new(session: Option<Session>) -> Self {
        World {
            session,
            heartbeat_ok: true,
            requests: Vec::new(),
            calls: Vec::new(),
            attach_failure: None,
            stop_fails: false,
            ports: None,
        }
    }

    fn failed(message: &str) -> ClientError {
        ClientError::UsbipFailed { code: Some(1), message: message.into(), admin_hint: "" }
    }

    fn attach(&mut self, bus_id: &str) -> Result<(), ClientError> {
        self.calls.push(format!("attach:{bus_id}"));
        if let Some(ports) = &mut self.ports {
            ports.insert(bus_id.into());
        }
        match &self.attach_failure {
            Some(f) if f == "*" || f == bus_id => Err(Self::failed("failed")),
            _ => Ok(()),
        }
    }

    fn has_port(&self, bus_id: &str) -> bool {
        match &self.ports {
            Some(ports) => ports.contains(bus_id),
            None => true,
        }
    }

    fn stop(&mut self, ids: &[String]) -> bool {
        let mut ok = true;
        for b in ids {
            self.calls.push(format!("stop:{b}"));
            if self.stop_fails {
                ok = false;
            }
        }
        ok
    }

    fn detach(&mut self, bus_id: &str) -> Result<(), ClientError> {
        self.calls.push(format!("detach:{bus_id}"));
        match &mut self.ports {
            Some(ports) => {
                ports.clear();
                Ok(())
            }
            None => Err(ClientError::UsbipPortNotFound(bus_id.into())),
        }
    }

    fn connect(&mut self, devices: &[UsbDevice]) -> Result<Session, ClientError> {
        let (mut run, mut action) = ConnectGroup::start("client-a", false, &devices.to_vec());
        loop {
            let event = match action {
                ConnectAction::QuerySession => {
                    self.requests.push("GET /api/session".into());
                    ConnectEvent::SessionLoaded(Ok(self.session.clone()))
                }
                ConnectAction::Report(_) | ConnectAction::Pause => ConnectEvent::Proceed,
                ConnectAction::Acquire(_) => {
                    self.requests.push("POST /api/acquire".into());
                    ConnectEvent::Acquired(Ok(Session {
                        client_id: "client-a".into(),
                        devices: vec!["1-2".into(), "1-3".into()],
                    }))
                }
                ConnectAction::CheckCancelled => ConnectEvent::CancelState(false),
                ConnectAction::Attach(b) => ConnectEvent::AttachDone(self.attach(&b)),
                ConnectAction::QueryPort(b) => ConnectEvent::PortFound(Ok(self.has_port(&b))),
                ConnectAction::Heartbeat => {
                    self.requests.push("POST /api/heartbeat".into());
                    ConnectEvent::HeartbeatDone(if self.heartbeat_ok {
                        Ok(())
                    } else {
                        Err(ClientError::Http {
                            status: "500 Internal Server Error".into(),
                            message: "heartbeat failed".into(),
                        })
                    })
                }
                ConnectAction::StopAttach(ids) => ConnectEvent::StopsDone(self.stop(&ids)),
                ConnectAction::Cleanup { stop_all, detach, release: _ } => {
                    if stop_all {
                        self.calls.push("stop-all".into());
                    }
                    for b in detach {
                        let _ = self.detach(&b);
                    }
                    self.requests.push("POST /api/release".into());
                    ConnectEvent::Proceed
                }
                ConnectAction::Finish(r) => return r,
            };
            let (next_run, next_action) = run.step(event);
            run = next_run;
            action = next_action;
        }
    }

    fn drive_disconnect(&mut self, (mut run, mut action): (DisconnectGroup, DisconnectAction)) -> Result<(), ClientError> {
        loop {
            let event = match action {
                DisconnectAction::QuerySession => {
                    self.requests.push("GET /api/session".into());
                    DisconnectEvent::SessionLoaded(Ok(self.session.clone()))
                }
                DisconnectAction::StopAttach(ids) => DisconnectEvent::StopsDone(self.stop(&ids)),
                DisconnectAction::StopAll => {
                    self.calls.push("stop-all".into());
                    DisconnectEvent::Proceed
                }
                DisconnectAction::Report(_) | DisconnectAction::Pause => DisconnectEvent::Proceed,
                DisconnectAction::Detach(b) => DisconnectEvent::DetachDone(self.detach(&b)),
                DisconnectAction::Release(_) => {
                    self.requests.push("POST /api/release".into());
                    DisconnectEvent::Released(Ok(()))
                }
                DisconnectAction::QueryPort(b) => DisconnectEvent::PortFound(Ok(self.has_port(&b))),
                DisconnectAction::Attach(b) => DisconnectEvent::AttachDone(self.attach(&b)),
                DisconnectAction::Finish(r) => return r,
            };
            let (next_run, next_action) = run.step(event);
            run = next_run;
            action = next_action;
        }
    }

    fn disconnect(&mut self, devices: &[String]) -> Result<(), ClientError> {
        let start = DisconnectGroup::start("client-a", false, &devices.to_vec());
        self.drive_disconnect(start)
    }

    fn disconnect_owned(&mut self) -> Result<(), ClientError> {
        let start = DisconnectGroup::start_owned("client-a", false);
        self.drive_disconnect(start)
    }
}

fn owned_session(devices: &[&str]) -> Option<Session> {
    Some(Session { client_id: "client-a".into(), devices: devices.iter().map(|d| (*d).into()).collect() })
}

fn device() -> UsbDevice {
    device_with_id("1-2")
}

fn device_with_id(bus_id: &str) -> UsbDevice {
    UsbDevice {
        bus_id: bus_id.into(),
        vendor_id: "1234".into(),
        product_id: "0001".into(),
        manufacturer: None,
        product: Some("Test".into()),
        serial_number: None,
        device_class: "00".into(),
        interface_classes: vec!["03".into()],
        drivers: vec![],
        parent_hub: None,
        selected: false,
        selectable: true,
        risk: "normal".into(),
        warning: None,
        status: "available".into(),
    }
}

#[test]
fn attach_failure_stops_attempt_and_releases_session() {
    let mut world = World::new(None);
    world.attach_failure = Some("*".into());
    let result = world.connect(&[device()]);
    assert!(result.is_err());
    assert_eq!(world.calls.as_slice(), ["attach:1-2", "stop:1-2"]);
    assert!(world.requests.iter().any(|request| request == "POST /api/release"));
}

#[test]
fn failed_target_stop_falls_back_to_stop_all() {
    let mut world = World::new(None);
    world.attach_failure = Some("*".into());
    world.stop_fails = true;
    let _ = world.connect(&[device()]);
    assert!(world.calls.iter().any(|call| call == "stop-all"));
}

#[test]
fn attaches_all_devices_in_a_multi_device_request() {
    let mut world = World::new(None);
    let devices = [device_with_id("1-1.2.1"), device_with_id("1-1.2.2"), device_with_id("1-1.2.3")];
    world.connect(&devices).unwrap();
    assert_eq!(world.calls.as_slice(), ["attach:1-1.2.1", "attach:1-1.2.2", "attach:1-1.2.3"]);
}

#[test]
fn adds_a_device_to_a_session_owned_by_the_same_client() {
    let mut world = World::new(owned_session(&["1-2"]));
    let session = world.connect(&[device_with_id("1-3")]).unwrap();
    assert_eq!(session.devices, ["1-2", "1-3"]);
    assert_eq!(world.calls.as_slice(), ["attach:1-3"]);
}

#[test]
fn second_device_failure_rolls_back_first_device() {
    let mut world = World::new(None);
    world.attach_failure = Some("1-1.2.2".into());
    let devices = [device_with_id("1-1.2.1"), device_with_id("1-1.2.2"), device_with_id("1-1.2.3")];
    assert!(world.connect(&devices).is_err());
    assert_eq!(
        world.calls.as_slice(),
        ["attach:1-1.2.1", "attach:1-1.2.2", "stop:1-1.2.2", "stop:1-1.2.1", "detach:1-1.2.1"]
    );
    assert!(world.requests.iter().any(|request| request == "POST /api/release"));
}

#[test]
fn heartbeat_failure_rolls_back_attached_devices() {
    let mut world = World::new(None);
    world.heartbeat_ok = false;
    assert!(world.connect(&[device()]).is_err());
    assert_eq!(world.calls.as_slice(), ["attach:1-2", "stop:1-2", "detach:1-2"]);
    assert!(world.requests.iter().any(|request| request == "POST /api/release"));
}

#[test]
fn empty_port_still_releases_server_session() {
    let mut world = World::new(owned_session(&["1-2"]));
    world.disconnect(&["1-2".into()]).unwrap();
    assert!(world.requests.iter().any(|request| request == "POST /api/release"));
}

#[test]
fn disconnect_owned_uses_the_current_server_session() {
    let mut world = World::new(owned_session(&["1-2"]));
    world.disconnect_owned().unwrap();
    assert_eq!(world.calls.as_slice(), ["stop:1-2", "detach:1-2"]);
    assert_eq!(world.requests.as_slice(), ["GET /api/session", "GET /api/session", "POST /api/release"]);
}

#[test]
fn restores_remaining_devices_when_detach_clears_all_windows_ports() {
    let mut world = World::new(owned_session(&["1-2", "1-3"]));
    world.ports = Some(["1-2".to_owned(), "1-3".to_owned()].into_iter().collect());
    world.disconnect(&["1-2".into()]).unwrap();
    assert_eq!(world.calls.as_slice(), ["stop:1-2", "detach:1-2", "attach:1-3"]);
    assert!(world.has_port("1-3"));
}

#[test]
fn connect_refuses_other_owner_and_empty_requests() {
    let mut world = World::new(Some(Session { client_id: "other".into(), devices: vec!["1-9".into()] }));
    match world.connect(&[device()]) {
        Err(ClientError::SessionOwnedByOther(c)) => assert_eq!(c, "other"),
        other => panic!("unexpected {other:?}"),
    }
    assert!(world.calls.is_empty());
    let mut world = World::new(None);
    match world.connect(&[]) {
        Err(ClientError::Config(m)) => assert_eq!(m, "接続対象デバイスがありません"),
        other => panic!("unexpected {other:?}"),
    }
    assert!(world.requests.is_empty());
}

#[test]
fn connect_refuses_prohibited_devices_before_any_request() {
    let mut storage = device();
    storage.interface_classes = vec!["08".into()];
    let mut world = World::new(None);
    match world.connect(&[storage]) {
        Err(ClientError::ProhibitedDevice { bus_id, class_name }) => {
            assert_eq!(bus_id, "1-2");
            assert_eq!(class_name, "ストレージ");
        }
        other => panic!("unexpected {other:?}"),
    }
    assert!(world.requests.is_empty());
}

#[test]
fn connecting_held_devices_returns_the_session() {
    let mut world = World::new(owned_session(&["1-2"]));
    let session = world.connect(&[device()]).unwrap();
    assert_eq!(session.devices, ["1-2"]);
    assert!(world.calls.is_empty());
    assert_eq!(world.requests.as_slice(), ["GET /api/session"]);
}

#[test]
fn missing_port_fails_after_ten_polls() {
    let mut ftdi = device();
    ftdi.vendor_id = "0403".into();
    let (mut run, mut action) = ConnectGroup::start("client-a", false, &vec![ftdi]);
    let mut polls = 0;
    let result = loop {
        let event = match action {
            ConnectAction::QuerySession => ConnectEvent::SessionLoaded(Ok(None)),
            ConnectAction::Report(_) | ConnectAction::Pause => ConnectEvent::Proceed,
            ConnectAction::Acquire(ids) => ConnectEvent::Acquired(Ok(Session { client_id: "client-a".into(), devices: ids })),
            ConnectAction::CheckCancelled => ConnectEvent::CancelState(false),
            ConnectAction::Attach(_) => ConnectEvent::AttachDone(Ok(())),
            ConnectAction::QueryPort(_) => {
                polls += 1;
                ConnectEvent::PortFound(Ok(false))
            }
            ConnectAction::Heartbeat => ConnectEvent::HeartbeatDone(Ok(())),
            ConnectAction::StopAttach(_) => ConnectEvent::StopsDone(true),
            ConnectAction::Cleanup { .. } => ConnectEvent::Proceed,
            ConnectAction::Finish(r) => break r,
        };
        let (r, a) = run.step(event);
        run = r;
        action = a;
    };
    assert_eq!(polls, 10);
    match result {
        Err(ClientError::FtdiCompatibility(b)) => assert_eq!(b, "1-2"),
        other => panic!("unexpected {other:?}"),
    }
}

#[test]
fn disconnect_refuses_other_owner_and_reports_detach_errors() {
    let mut world = World::new(Some(Session { client_id: "other".into(), devices: vec!["1-2".into()] }));
    assert!(matches!(world.disconnect(&["1-2".into()]), Err(ClientError::SessionOwnedByOther(_))));
    assert!(world.calls.is_empty());
    let (mut run, mut action) = DisconnectGroup::start("client-a", false, &vec!["1-2".into()]);
    let result = loop {
        let event = match action {
            DisconnectAction::QuerySession => DisconnectEvent::SessionLoaded(Ok(owned_session(&["1-2"]))),
            DisconnectAction::StopAttach(_) => DisconnectEvent::StopsDone(true),
            DisconnectAction::Detach(_) => DisconnectEvent::DetachDone(Err(ClientError::UsbipFailed {
                code: Some(2),
                message: "busy".into(),
                admin_hint: "",
            })),
            DisconnectAction::Release(_) => DisconnectEvent::Released(Ok(())),
            DisconnectAction::Finish(r) => break r,
            _ => DisconnectEvent::Proceed,
        };
        let (r, a) = run.step(event);
        run = r;
        action = a;
    };
    match result {
        Err(e @ ClientError::Disconnect(_)) => {
            assert_eq!(
                e.message(),
                "errors occurred while detaching devices: usbip-win2 failed with exit code Some(2): busy"
            )
        }
        other => panic!("unexpected {other:?}"),
    }
}
