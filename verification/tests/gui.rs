use usb_bridge::config::Config;
use usb_bridge::connection::Snapshot;
use usb_bridge::gui::{operation_message, row_state, AppState, RowButton, WorkerMessage};
use usb_bridge::inventory::mock_devices;
use usb_bridge::protocol::{HealthResponse, Session};

fn config() -> Config {
    Config { server_url: "http://h/".into(), client_id: "me".into(), usbip_path: "u".into(), dry_run: false }
}

fn snapshot(session: Option<Session>) -> Snapshot {
    Snapshot {
        health: HealthResponse { status: "ok".into(), backend: "mock".into() },
        devices: mock_devices(&vec![]),
        session,
    }
}

fn loaded() -> AppState {
    let mut s = AppState::new();
    assert!(s.handle(WorkerMessage::ConfigLoaded(Ok(config()))));
    s
}

#[test]
fn a_new_window_is_loading() {
    let s = AppState::new();
    assert!(s.is_busy());
    assert_eq!(s.progress(), "設定を読み込んでいます");
    assert!(s.logs().is_empty());
}

#[test]
fn config_load_and_failure() {
    let s = loaded();
    assert!(!s.is_busy());
    assert_eq!(s.logs().as_slice(), ["Settings loaded"]);
    assert_eq!(s.settings().client_id, "me");
    let mut f = AppState::new();
    assert!(!f.handle(WorkerMessage::ConfigLoaded(Err("broken".into()))));
    assert!(!f.is_busy());
    assert_eq!(f.progress(), "Operation failed");
    assert_eq!(f.last_error().as_deref(), Some("broken"));
    assert_eq!(f.logs().as_slice(), ["ERROR: broken"]);
}

#[test]
fn log_keeps_the_latest_two_hundred_lines() {
    let mut s = AppState::new();
    for i in 0..250 {
        s.push_log(format!("line {i}"));
    }
    assert_eq!(s.logs().len(), 200);
    assert_eq!(s.logs()[0], "line 50");
    assert_eq!(s.logs()[199], "line 249");
}

#[test]
fn refresh_keeps_only_listed_selections() {
    let mut s = loaded();
    s.set_selected("1-1.4", true);
    s.set_selected("9-9", true);
    s.set_selected("1-1.2.1", true);
    assert_eq!(s.selected().as_slice(), ["1-1.2.1", "1-1.4", "9-9"]);
    assert!(!s.handle(WorkerMessage::Refreshed { result: Ok(snapshot(None)), show_feedback: true }));
    assert_eq!(s.selected().as_slice(), ["1-1.2.1", "1-1.4"]);
    assert_eq!(s.progress(), "Up to date");
    assert_eq!(s.logs().last().map(String::as_str), Some("Server state refreshed"));
    s.set_selected("1-1.4", false);
    assert_eq!(s.selected().as_slice(), ["1-1.2.1"]);
    s.clear_selection();
    assert!(s.selected().is_empty());
    assert!(!s.handle(WorkerMessage::Refreshed { result: Err("down".into()), show_feedback: false }));
    assert!(s.snapshot().is_none());
    assert_eq!(s.progress(), "Failed to refresh server state");
    assert_eq!(s.last_error().as_deref(), Some("down"));
}

#[test]
fn targets_follow_the_selection_and_the_session() {
    let mut s = loaded();
    s.handle(WorkerMessage::Refreshed { result: Ok(snapshot(Some(Session { client_id: "me".into(), devices: vec!["1-1.4".into()] }))), show_feedback: false });
    for b in ["1-1.4", "1-1.5", "1-1.6", "1-1.9"] {
        s.set_selected(b, true);
    }
    let attach: Vec<String> = s.attach_targets().into_iter().map(|d| d.bus_id).collect();
    assert_eq!(attach, ["1-1.5", "1-1.9"]);
    assert_eq!(s.detach_targets(), ["1-1.4"]);
    assert!(!s.other_owner());
    s.handle(WorkerMessage::Refreshed { result: Ok(snapshot(Some(Session { client_id: "you".into(), devices: vec![] }))), show_feedback: false });
    assert!(s.other_owner());
}

#[test]
fn operations_and_their_results() {
    let mut s = loaded();
    assert!(s.begin_operation().is_some());
    assert!(s.is_busy());
    assert!(s.usb_transition_in_progress());
    s.handle(WorkerMessage::Progress("1-2 をUSB/IP接続しています".into()));
    assert_eq!(s.progress(), "1-2 をUSB/IP接続しています");
    assert!(s.handle(WorkerMessage::OperationFinished(Ok(operation_message(2, true).into()))));
    assert!(!s.is_busy());
    assert_eq!(s.progress(), "Devices attached");
    assert!(s.handle(WorkerMessage::OperationFinished(Err("nope".into()))));
    assert_eq!(s.last_error().as_deref(), Some("nope"));
    assert_eq!(operation_message(1, false), "Device detached");
    assert_eq!(operation_message(1, true), "Device attached");
    assert_eq!(operation_message(3, false), "Devices detached");
    assert!(AppState::new().begin_operation().is_none());
}

#[test]
fn refresh_poll_and_heartbeat_timing() {
    let mut s = loaded();
    assert!(s.poll_due(5000, true));
    assert!(!s.poll_due(4999, true));
    assert!(!s.poll_due(19999, false));
    assert!(s.begin_refresh(true).is_some());
    assert_eq!(s.progress(), "Refreshing server state");
    assert!(s.begin_refresh(true).is_none());
    assert!(!s.poll_due(60000, true));
    s.handle(WorkerMessage::Refreshed { result: Ok(snapshot(Some(Session { client_id: "me".into(), devices: vec![] }))), show_feedback: false });
    assert!(s.begin_heartbeat(9999).is_none());
    assert!(s.begin_heartbeat(10000).is_some());
    assert!(s.begin_heartbeat(10000).is_none());
    assert!(!s.handle(WorkerMessage::HeartbeatFinished(Err("gone".into()))));
    assert_eq!(s.logs().last().map(String::as_str), Some("ERROR: heartbeat failed: gone"));
    assert!(s.begin_heartbeat(10000).is_some());
}

#[test]
fn saving_settings() {
    let mut s = loaded();
    s.set_show_settings(true);
    s.begin_save();
    assert_eq!(s.progress(), "Saving settings");
    assert!(s.handle(WorkerMessage::ConfigSaved(Ok(Config { client_id: "new".into(), ..config() }))));
    assert!(!s.show_settings());
    assert_eq!(s.config().as_ref().unwrap().client_id, "new");
    assert_eq!(s.logs().last().map(String::as_str), Some("Settings saved"));
    s.log_shutdown(Err("x".into()));
    assert_eq!(s.logs().last().map(String::as_str), Some("ERROR: failed to detach USB devices during shutdown: x"));
}

#[test]
fn device_rows() {
    let devices = mock_devices(&vec![]);
    let storage = row_state(&devices[5], false, false, false);
    assert!(!storage.can_select);
    assert_eq!(storage.icon, "⊘");
    assert_eq!(storage.button, RowButton::Forbidden);
    assert!(!storage.button_enabled);
    assert_eq!(storage.status, "接続禁止");
    assert_eq!(storage.detail, Some("ストレージ"));
    let keyboard = row_state(&devices[3], false, false, false);
    assert!(keyboard.can_select);
    assert_eq!(keyboard.status, "利用可能");
    assert_eq!(keyboard.detail, None);
    let held = row_state(&devices[3], true, false, false);
    assert_eq!(held.button, RowButton::Disconnect);
    assert_eq!(held.status, "接続中");
    let ftdi = row_state(&devices[8], false, true, false);
    assert_eq!(ftdi.status, "他PCが使用中");
    assert!(!ftdi.can_select);
    assert_eq!(ftdi.icon, "⚠");
}
