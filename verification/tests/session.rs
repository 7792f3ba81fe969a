use usb_bridge::session::{finish_acquire, finish_release, STATUS_BAD_GATEWAY, STATUS_CREATED, STATUS_NO_CONTENT};
use usb_bridge::inventory::mock_devices;
use usb_bridge::protocol::{AcquireRequest, HostControlResponse, ReleaseRequest, Session};
use usb_bridge::session::{
    agent_outcome, commit_acquire, commit_release, plan_acquire, plan_release, plan_selection,
    selection_set, AcquirePlan, ReleasePlan, STATUS_BAD_REQUEST, STATUS_CONFLICT,
    STATUS_INTERNAL_ERROR,
};

fn strings(v: &[&str]) -> Vec<String> {
    v.iter().map(|s| (*s).into()).collect()
}

fn acquire(client: &str, devices: &[&str]) -> AcquireRequest {
    AcquireRequest { client_id: client.into(), devices: strings(devices) }
}

fn session(client: &str, devices: &[&str]) -> Session {
    Session { client_id: client.into(), devices: strings(devices) }
}

#[test]
fn acquire_is_refused_for_bad_requests() {
    let listed = Ok(mock_devices(&vec![]));
    match plan_acquire(&acquire(" ", &["1-1.4"]), &vec![], &listed, &None) {
        AcquirePlan::Reject(r) => {
            assert_eq!(r.status, STATUS_BAD_REQUEST);
            assert_eq!(r.error, "client_id must not be empty");
        }
        other => panic!("unexpected {other:?}"),
    }
    match plan_acquire(&acquire("a", &["1-1.6"]), &vec![], &listed, &None) {
        AcquirePlan::Reject(r) => assert_eq!(r.error, "acquire contains an unavailable or prohibited USB device"),
        other => panic!("unexpected {other:?}"),
    }
    match plan_acquire(&acquire("a", &[]), &vec![], &listed, &None) {
        AcquirePlan::Reject(r) => assert_eq!(r.error, "no USB devices were requested or selected"),
        other => panic!("unexpected {other:?}"),
    }
    match plan_acquire(&acquire("a", &["1-1.4"]), &vec![], &Err("sysfs".into()), &None) {
        AcquirePlan::Reject(r) => {
            assert_eq!(r.status, STATUS_INTERNAL_ERROR);
            assert_eq!(r.error, "sysfs");
        }
        other => panic!("unexpected {other:?}"),
    }
    match plan_acquire(&acquire("a", &["1-1.4"]), &vec![], &listed, &Some(session("b", &["1-1.5"]))) {
        AcquirePlan::Reject(r) => {
            assert_eq!(r.status, STATUS_CONFLICT);
            assert_eq!(r.error, "USB devices are already acquired");
        }
        other => panic!("unexpected {other:?}"),
    }
}

#[test]
fn acquire_binds_only_new_devices_sorted() {
    let listed = Ok(mock_devices(&vec![]));
    let current = Some(session("a", &["1-1.4"]));
    match plan_acquire(&acquire("a", &["1-1.5", "1-1.4", "1-1.2.1", "1-1.5"]), &vec![], &listed, &current) {
        AcquirePlan::Bind(v) => assert_eq!(v, ["1-1.2.1", "1-1.5"]),
        other => panic!("unexpected {other:?}"),
    }
    match plan_acquire(&acquire("a", &["1-1.4"]), &vec![], &listed, &current) {
        AcquirePlan::Current(s) => assert_eq!(s.devices, ["1-1.4"]),
        other => panic!("unexpected {other:?}"),
    }
    match plan_acquire(&acquire("a", &[]), &strings(&["1-1.9"]), &listed, &None) {
        AcquirePlan::Bind(v) => assert_eq!(v, ["1-1.9"]),
        other => panic!("unexpected {other:?}"),
    }
    let s = commit_acquire(&current, "a", &strings(&["1-1.5", "1-1.2.1"]));
    assert_eq!(s.client_id, "a");
    assert_eq!(s.devices, ["1-1.2.1", "1-1.4", "1-1.5"]);
    let fresh = commit_acquire(&None, "z", &strings(&["1-1.5"]));
    assert_eq!(fresh.client_id, "z");
    assert_eq!(fresh.devices, ["1-1.5"]);
}

#[test]
fn release_rules() {
    let current = Some(session("a", &["1-1", "1-2", "1-3"]));
    assert!(matches!(plan_release(&ReleaseRequest { client_id: "a".into(), devices: vec![] }, &None), ReleasePlan::Nothing));
    match plan_release(&ReleaseRequest { client_id: "b".into(), devices: vec![] }, &current) {
        ReleasePlan::Reject(r) => {
            assert_eq!(r.status, STATUS_CONFLICT);
            assert_eq!(r.error, "session is owned by another client");
        }
        other => panic!("unexpected {other:?}"),
    }
    match plan_release(&ReleaseRequest { client_id: "a".into(), devices: strings(&["1-9"]) }, &current) {
        ReleasePlan::Reject(r) => assert_eq!(r.error, "release contains a device not owned by this session"),
        other => panic!("unexpected {other:?}"),
    }
    match plan_release(&ReleaseRequest { client_id: "a".into(), devices: vec![] }, &current) {
        ReleasePlan::Unbind(v) => assert_eq!(v, ["1-1", "1-2", "1-3"]),
        other => panic!("unexpected {other:?}"),
    }
    let rest = commit_release(current.as_ref().unwrap(), &strings(&["1-2"])).unwrap();
    assert_eq!(rest.devices, ["1-1", "1-3"]);
    assert!(commit_release(current.as_ref().unwrap(), &strings(&["1-1", "1-2", "1-3"])).is_none());
}

#[test]
fn release_undoes_acquire() {
    let before = Some(session("a", &["1-1"]));
    let after = commit_acquire(&before, "a", &strings(&["1-2"]));
    let back = commit_release(&after, &strings(&["1-2"])).unwrap();
    assert_eq!(back.devices, ["1-1"]);
}

#[test]
fn selection_rules() {
    let listed = Ok(mock_devices(&vec![]));
    assert_eq!(plan_selection(&strings(&["1-1.5", "1-1.4", "1-1.5"]), &listed).unwrap(), ["1-1.4", "1-1.5"]);
    let refused = plan_selection(&strings(&["1-1.7"]), &listed).unwrap_err();
    assert_eq!(refused.status, STATUS_BAD_REQUEST);
    assert_eq!(refused.error, "selection contains an unavailable or blocked USB device");
    assert_eq!(plan_selection(&strings(&["1-1.4"]), &Err("e".into())).unwrap_err().status, STATUS_INTERNAL_ERROR);
    assert_eq!(selection_set(&strings(&["b", "a", "b"])), ["a", "b"]);
}

#[test]
fn host_agent_replies() {
    assert!(agent_outcome(HostControlResponse { success: true, error: None }).is_ok());
    assert_eq!(agent_outcome(HostControlResponse { success: false, error: Some("x".into()) }).unwrap_err(), "x");
    assert_eq!(
        agent_outcome(HostControlResponse { success: false, error: None }).unwrap_err(),
        "host agent failed without an error message"
    );
}

#[test]
fn bound_and_unbound_requests_are_answered() {
    let current = Some(session("a", &["1-2"]));
    let (status, grown) = finish_acquire(&current, "a", &strings(&["1-1"]), Ok(()));
    assert_eq!(status, STATUS_CREATED);
    assert_eq!(grown.unwrap().devices, ["1-1", "1-2"]);
    let (status, failed) = finish_acquire(&current, "a", &strings(&["1-1"]), Err("agent down".into()));
    assert_eq!(status, STATUS_BAD_GATEWAY);
    assert_eq!(failed.unwrap_err(), "agent down");
    let held = session("a", &["1-1", "1-2"]);
    let (status, rest) = finish_release(&held, &strings(&["1-1"]), Ok(()));
    assert_eq!(status, STATUS_NO_CONTENT);
    assert_eq!(rest.unwrap().unwrap().devices, ["1-2"]);
    let (status, gone) = finish_release(&held, &strings(&["1-1", "1-2"]), Ok(()));
    assert_eq!(status, STATUS_NO_CONTENT);
    assert!(gone.unwrap().is_none());
    let (status, failed) = finish_release(&held, &strings(&["1-1"]), Err("x".into()));
    assert_eq!(status, STATUS_BAD_GATEWAY);
    assert_eq!(failed.unwrap_err(), "x");
}
