//! The state behind the desktop client's window: what the workers report
//! and how it changes the state, which devices the buttons act on, how each
//! device row is shown, and the bounded in-memory log.

use vstd::prelude::*;
use crate::config::{Config, ConfigView};
use crate::connection::Snapshot;
use crate::device_policy::{evaluate, policy_level, PolicyLevel};
use crate::order::strictly_sorted;
use crate::protocol::{
    copy_device, device_views, opt_view, views, Session, SessionView, UsbDevice,
    UsbDeviceView,
};
use crate::text::{concat, contains_string, lex_lt, owned, str_eq};

verus! {

/// The most log lines kept in memory.
pub const MAX_LOG_LINES: usize = 200;

/// The settings as edited in the settings window.
#[derive(Clone, Debug)]
pub struct SettingsDraft {
    pub server_url: String,
    pub client_id: String,
    pub usbip_path: String,
}

impl SettingsDraft {
    /// The draft showing some settings.
    pub fn from_config(config: &Config) -> (r: SettingsDraft)
        ensures
            r.server_url@ == config.server_url@,
            r.client_id@ == config.client_id@,
            r.usbip_path@ == config.usbip_path@,
    {
        SettingsDraft {
            server_url: config.server_url.clone(),
            client_id: config.client_id.clone(),
            usbip_path: config.usbip_path.clone(),
        }
    }

    /// An empty draft.
    pub fn empty() -> (r: SettingsDraft)
        ensures
            r.server_url@.len() == 0,
            r.client_id@.len() == 0,
            r.usbip_path@.len() == 0,
    {
        SettingsDraft { server_url: String::new(), client_id: String::new(), usbip_path: String::new() }
    }
}

/// What the client knows of the server, as values.
pub struct SnapshotView {
    pub devices: Seq<UsbDeviceView>,
    pub session: Option<SessionView>,
}

/// The view of a snapshot.
pub open spec fn snapshot_view(s: Snapshot) -> SnapshotView {
    SnapshotView { devices: device_views(s.devices@), session: crate::connection::opt_session_view(s.session) }
}

/// The view of an optional snapshot.
pub open spec fn opt_snapshot(s: Option<Snapshot>) -> Option<SnapshotView> {
    match s {
        Some(x) => Some(snapshot_view(x)),
        None => None,
    }
}

/// The view of optional settings.
pub open spec fn opt_config(c: Option<Config>) -> Option<ConfigView> {
    match c {
        Some(x) => Some(x@),
        None => None,
    }
}

/// A message from a worker to the window.
#[derive(Debug)]
pub enum WorkerMessage {
    ConfigLoaded(Result<Config, String>),
    Refreshed { result: Result<Snapshot, String>, show_feedback: bool },
    Progress(String),
    OperationFinished(Result<String, String>),
    ConfigSaved(Result<Config, String>),
    HeartbeatFinished(Result<(), String>),
}

/// The window's state as values.
pub struct GuiView {
    pub config: Option<ConfigView>,
    pub snapshot: Option<SnapshotView>,
    pub busy: bool,
    pub usb_transition_in_progress: bool,
    pub refresh_in_flight: bool,
    pub heartbeat_in_flight: bool,
    pub progress: Seq<char>,
    pub last_error: Option<Seq<char>>,
    pub logs: Seq<Seq<char>>,
    pub selected: Seq<Seq<char>>,
    pub draft: (Seq<char>, Seq<char>, Seq<char>),
    pub show_settings: bool,
    pub show_logs: bool,
}

/// The consistency of the window's state: at most 200 log lines, and the
/// selection sorted, each bus ID once.
pub open spec fn gui_wf(s: GuiView) -> bool {
    s.logs.len() <= MAX_LOG_LINES && strictly_sorted(s.selected)
}

/// The log after line `m`: the oldest line goes once 200 are kept.
pub open spec fn logged(logs: Seq<Seq<char>>, m: Seq<char>) -> Seq<Seq<char>> {
    if logs.len() >= MAX_LOG_LINES {
        logs.drop_first().push(m)
    } else {
        logs.push(m)
    }
}

/// The state with line `m` logged.
pub open spec fn with_log(s: GuiView, m: Seq<char>) -> GuiView {
    GuiView { logs: logged(s.logs, m), ..s }
}

/// The state after a failed operation.
pub open spec fn failed(s: GuiView, e: Seq<char>) -> GuiView {
    with_log(
        GuiView { busy: false, progress: "Operation failed"@, last_error: Some(e), ..s },
        "ERROR: "@ + e,
    )
}

/// The selected bus IDs that the device list still holds, in order.
pub open spec fn still_listed(selected: Seq<Seq<char>>, ds: Seq<UsbDeviceView>) -> Seq<Seq<char>>
    decreases selected.len(),
{
    if selected.len() == 0 {
        Seq::empty()
    } else if exists|i: int| 0 <= i < ds.len() && #[trigger] ds[i].bus_id == selected.last() {
        still_listed(selected.drop_last(), ds).push(selected.last())
    } else {
        still_listed(selected.drop_last(), ds)
    }
}

/// The draft that shows settings `c`.
pub open spec fn draft_of(c: ConfigView) -> (Seq<char>, Seq<char>, Seq<char>) {
    (c.server_url, c.client_id, c.usbip_path)
}

/// The state after a message, and whether the server state is to be
/// refreshed afterwards.
pub open spec fn handled(s: GuiView, m: WorkerMessage) -> (GuiView, bool) {
    match m {
        WorkerMessage::ConfigLoaded(Ok(c)) => (
            with_log(
                GuiView { draft: draft_of(c@), config: Some(c@), busy: false, ..s },
                "Settings loaded"@,
            ),
            true,
        ),
        WorkerMessage::ConfigLoaded(Err(e)) => (failed(s, e@), false),
        WorkerMessage::Refreshed { result: Ok(snap), show_feedback } => {
            let t = GuiView {
                selected: still_listed(s.selected, device_views(snap.devices@)),
                snapshot: Some(snapshot_view(snap)),
                refresh_in_flight: false,
                last_error: None,
                ..s
            };
            if show_feedback {
                (with_log(GuiView { progress: "Up to date"@, ..t }, "Server state refreshed"@), false)
            } else {
                (t, false)
            }
        },
        WorkerMessage::Refreshed { result: Err(e), show_feedback: _ } => (
            with_log(
                GuiView {
                    refresh_in_flight: false,
                    snapshot: None,
                    progress: "Failed to refresh server state"@,
                    last_error: Some(e@),
                    ..s
                },
                "ERROR: "@ + e@,
            ),
            false,
        ),
        WorkerMessage::Progress(p) => (with_log(GuiView { progress: p@, ..s }, p@), false),
        WorkerMessage::OperationFinished(r) => {
            let t = GuiView { busy: false, usb_transition_in_progress: false, ..s };
            match r {
                Ok(msg) => (with_log(GuiView { progress: msg@, ..t }, msg@), true),
                Err(e) => (failed(t, e@), true),
            }
        },
        WorkerMessage::ConfigSaved(Ok(c)) => (
            with_log(
                GuiView { draft: draft_of(c@), config: Some(c@), show_settings: false, busy: false, ..s },
                "Settings saved"@,
            ),
            true,
        ),
        WorkerMessage::ConfigSaved(Err(e)) => (failed(s, e@), false),
        WorkerMessage::HeartbeatFinished(r) => {
            let t = GuiView { heartbeat_in_flight: false, ..s };
            match r {
                Ok(()) => (t, false),
                Err(e) => (with_log(t, "ERROR: heartbeat failed: "@ + e@), false),
            }
        },
    }
}

/// The state behind the desktop client's window.
pub struct AppState {
    config: Option<Config>,
    snapshot: Option<Snapshot>,
    busy: bool,
    usb_transition_in_progress: bool,
    refresh_in_flight: bool,
    heartbeat_in_flight: bool,
    progress: String,
    last_error: Option<String>,
    logs: Vec<String>,
    selected: Vec<String>,
    settings: SettingsDraft,
    show_settings: bool,
    show_logs: bool,
}

impl View for AppState {
    type V = GuiView;

    closed spec fn view(&self) -> GuiView {
        GuiView {
            config: opt_config(self.config),
            snapshot: opt_snapshot(self.snapshot),
            busy: self.busy,
            usb_transition_in_progress: self.usb_transition_in_progress,
            refresh_in_flight: self.refresh_in_flight,
            heartbeat_in_flight: self.heartbeat_in_flight,
            progress: self.progress@,
            last_error: opt_view(self.last_error),
            logs: views(self.logs@),
            selected: views(self.selected@),
            draft: (self.settings.server_url@, self.settings.client_id@, self.settings.usbip_path@),
            show_settings: self.show_settings,
            show_logs: self.show_logs,
        }
    }
}

/// The line logged for a failure.
fn error_line(e: &str) -> (r: String)
    ensures
        r@ == "ERROR: "@ + e@,
{
    concat("ERROR: ", e)
}

impl AppState {
    #[verifier::type_invariant]
    closed spec fn inv(&self) -> bool {
        gui_wf(self@)
    }

    /// The state of a window that is loading its settings.
    pub fn new() -> (r: AppState)
        ensures
            r@.config is None,
            r@.snapshot is None,
            r@.busy,
            !r@.usb_transition_in_progress,
            !r@.refresh_in_flight,
            !r@.heartbeat_in_flight,
            r@.progress == "設定を読み込んでいます"@,
            r@.last_error is None,
            r@.logs.len() == 0,
            r@.selected.len() == 0,
            !r@.show_settings,
            !r@.show_logs,
    {
        let r = AppState {
            config: None,
            snapshot: None,
            busy: true,
            usb_transition_in_progress: false,
            refresh_in_flight: false,
            heartbeat_in_flight: false,
            progress: owned("設定を読み込んでいます"),
            last_error: None,
            logs: Vec::new(),
            selected: Vec::new(),
            settings: SettingsDraft::empty(),
            show_settings: false,
            show_logs: false,
        };
        assert(views(r.selected@) =~= Seq::<Seq<char>>::empty());
        r
    }

    /// Keeps a log line, dropping the oldest once 200 are kept.
    pub fn push_log(&mut self, message: String)
        ensures
            final(self)@ == with_log(old(self)@, message@),
    {
        proof {
            use_type_invariant(&*self);
        }
        let mut logs: Vec<String> = Vec::new();
        std::mem::swap(&mut logs, &mut self.logs);
        let ghost before = views(logs@);
        if logs.len() >= MAX_LOG_LINES {
            logs.remove(0);
            assert(views(logs@) =~= before.drop_first());
        }
        let ghost mid = views(logs@);
        logs.push(message);
        assert(views(logs@) =~= mid.push(message@));
        self.logs = logs;
    }

    fn fail(&mut self, e: String)
        ensures
            final(self)@ == failed(old(self)@, e@),
    {
        proof {
            use_type_invariant(&*self);
        }
        self.busy = false;
        self.progress = owned("Operation failed");
        let line = error_line(e.as_str());
        self.last_error = Some(e);
        self.push_log(line);
    }

    fn keep_listed(&mut self, devices: &Vec<UsbDevice>)
        ensures
            final(self)@ == (GuiView {
                selected: still_listed(old(self)@.selected, device_views(devices@)),
                ..old(self)@
            }),
    {
        proof {
            use_type_invariant(&*self);
        }
        let ghost sv = views(self.selected@);
        let ghost dv = device_views(devices@);
        let mut kept: Vec<String> = Vec::new();
        let mut i: usize = 0;
        assert(views(kept@) =~= Seq::<Seq<char>>::empty());
        while i < self.selected.len()
            invariant
                i <= self.selected.len(),
                sv == views(self.selected@),
                dv == device_views(devices@),
                strictly_sorted(sv),
                views(kept@) == still_listed(sv.take(i as int), dv),
                forall|k: int| 0 <= k < kept@.len() ==> exists|j: int| 0 <= j < i && #[trigger] views(kept@)[k] == sv[j],
            decreases self.selected.len() - i,
        {
            proof {
                assert(sv.take(i + 1).drop_last() =~= sv.take(i as int));
                assert(sv.take(i + 1).last() == sv[i as int]);
            }
            let b = self.selected[i].as_str();
            let mut found = false;
            let mut j: usize = 0;
            while j < devices.len()
                invariant
                    j <= devices.len(),
                    dv == device_views(devices@),
                    found == exists|m: int| 0 <= m < j && #[trigger] dv[m].bus_id == b@,
                decreases devices.len() - j,
            {
                assert(dv[j as int] == devices@[j as int]@);
                if str_eq(devices[j].bus_id.as_str(), b) {
                    found = true;
                    assert(dv[j as int].bus_id == b@);
                } else {
                    assert(dv[j as int].bus_id != b@);
                }
                j = j + 1;
            }
            assert(b@ == sv[i as int]);
            if found {
                let ghost before = views(kept@);
                kept.push(self.selected[i].clone());
                assert(views(kept@) =~= before.push(sv[i as int]));
                assert forall|k: int| 0 <= k < kept@.len() implies exists|j: int|
                    0 <= j < i + 1 && #[trigger] views(kept@)[k] == sv[j] by {
                    if k < before.len() {
                        assert(views(kept@)[k] == before[k]);
                    } else {
                        assert(views(kept@)[k] == sv[i as int]);
                    }
                }
            }
            i = i + 1;
        }
        assert(sv.take(self.selected.len() as int) =~= sv);
        proof {
            lemma_still_listed_sorted(sv, dv);
        }
        self.selected = kept;
    }

    fn on_config(&mut self, c: Config, saved: bool)
        ensures
            final(self)@ == with_log(
                GuiView {
                    draft: draft_of(c@),
                    config: Some(c@),
                    busy: false,
                    show_settings: if saved {
                        false
                    } else {
                        old(self)@.show_settings
                    },
                    ..old(self)@
                },
                if saved {
                    "Settings saved"@
                } else {
                    "Settings loaded"@
                },
            ),
    {
        proof {
            use_type_invariant(&*self);
        }
        self.settings = SettingsDraft::from_config(&c);
        self.config = Some(c);
        if saved {
            self.show_settings = false;
        }
        self.busy = false;
        if saved {
            self.push_log(owned("Settings saved"));
        } else {
            self.push_log(owned("Settings loaded"));
        }
    }

    fn on_refreshed(&mut self, snap: Snapshot, show_feedback: bool)
        ensures
            (final(self)@, false) == handled(
                old(self)@,
                WorkerMessage::Refreshed { result: Ok(snap), show_feedback },
            ),
    {
        self.keep_listed(&snap.devices);
        proof {
            use_type_invariant(&*self);
        }
        self.snapshot = Some(snap);
        self.refresh_in_flight = false;
        self.last_error = None;
        if show_feedback {
            self.progress = owned("Up to date");
            self.push_log(owned("Server state refreshed"));
        }
    }

    fn on_refresh_failed(&mut self, e: String)
        ensures
            (final(self)@, false) == handled(
                old(self)@,
                WorkerMessage::Refreshed { result: Err(e), show_feedback: false },
            ),
    {
        proof {
            use_type_invariant(&*self);
        }
        self.refresh_in_flight = false;
        self.snapshot = None;
        self.progress = owned("Failed to refresh server state");
        let line = error_line(e.as_str());
        self.last_error = Some(e);
        self.push_log(line);
    }

    fn on_finished(&mut self, r: Result<String, String>)
        ensures
            (final(self)@, true) == handled(old(self)@, WorkerMessage::OperationFinished(r)),
    {
        proof {
            use_type_invariant(&*self);
        }
        self.busy = false;
        self.usb_transition_in_progress = false;
        match r {
            Ok(msg) => {
                self.progress = msg.clone();
                self.push_log(msg);
            },
            Err(e) => self.fail(e),
        }
    }

    fn on_heartbeat(&mut self, r: Result<(), String>)
        ensures
            (final(self)@, false) == handled(old(self)@, WorkerMessage::HeartbeatFinished(r)),
    {
        proof {
            use_type_invariant(&*self);
        }
        self.heartbeat_in_flight = false;
        match r {
            Ok(()) => {},
            Err(e) => {
                let line = concat("ERROR: heartbeat failed: ", e.as_str());
                self.push_log(line);
            },
        }
    }

    /// Applies a message from a worker; returns whether the server state
    /// is to be refreshed afterwards.
    pub fn handle(&mut self, message: WorkerMessage) -> (refresh: bool)
        ensures
            (final(self)@, refresh) == handled(old(self)@, message),
    {
        match message {
            WorkerMessage::ConfigLoaded(Ok(c)) => {
                self.on_config(c, false);
                true
            },
            WorkerMessage::ConfigLoaded(Err(e)) => {
                self.fail(e);
                false
            },
            WorkerMessage::Refreshed { result: Ok(snap), show_feedback } => {
                self.on_refreshed(snap, show_feedback);
                false
            },
            WorkerMessage::Refreshed { result: Err(e), show_feedback: _ } => {
                self.on_refresh_failed(e);
                false
            },
            WorkerMessage::Progress(p) => {
                proof {
                    use_type_invariant(&*self);
                }
                self.progress = p.clone();
                self.push_log(p);
                false
            },
            WorkerMessage::OperationFinished(r) => {
                self.on_finished(r);
                true
            },
            WorkerMessage::ConfigSaved(Ok(c)) => {
                self.on_config(c, true);
                true
            },
            WorkerMessage::ConfigSaved(Err(e)) => {
                self.fail(e);
                false
            },
            WorkerMessage::HeartbeatFinished(r) => {
                self.on_heartbeat(r);
                false
            },
        }
    }
}

proof fn lemma_still_listed_sorted(sv: Seq<Seq<char>>, dv: Seq<UsbDeviceView>)
    requires
        strictly_sorted(sv),
    ensures
        strictly_sorted(still_listed(sv, dv)),
        forall|k: int|
            0 <= k < still_listed(sv, dv).len() ==> exists|j: int|
                0 <= j < sv.len() && #[trigger] still_listed(sv, dv)[k] == sv[j],
    decreases sv.len(),
{
    if sv.len() > 0 {
        let d = sv.drop_last();
        assert forall|i: int, j: int| 0 <= i < j < d.len() implies lex_lt(#[trigger] d[i], #[trigger] d[j]) by {
            assert(d[i] == sv[i] && d[j] == sv[j]);
        }
        lemma_still_listed_sorted(d, dv);
        let w = still_listed(d, dv);
        assert forall|k: int| 0 <= k < w.len() implies exists|j: int| 0 <= j < sv.len() && #[trigger] w[k] == sv[j] by {
            let j = choose|j: int| 0 <= j < d.len() && w[k] == d[j];
            assert(sv[j] == d[j]);
        }
        let r = still_listed(sv, dv);
        let x = sv.last();
        if exists|i: int| 0 <= i < dv.len() && #[trigger] dv[i].bus_id == x {
            assert(r == w.push(x));
            assert forall|i: int, j: int| 0 <= i < j < r.len() implies lex_lt(#[trigger] r[i], #[trigger] r[j]) by {
                if j == r.len() - 1 {
                    let q = choose|q: int| 0 <= q < d.len() && w[i] == d[q];
                    assert(lex_lt(sv[q], sv[sv.len() - 1]));
                    assert(r[i] == w[i]);
                } else {
                    assert(r[i] == w[i] && r[j] == w[j]);
                }
            }
            assert forall|k: int| 0 <= k < r.len() implies exists|j: int| 0 <= j < sv.len() && #[trigger] r[k] == sv[j] by {
                if k < w.len() {
                    assert(r[k] == w[k]);
                } else {
                    assert(r[k] == sv[sv.len() - 1]);
                }
            }
        } else {
            assert(r == w);
        }
    }
}

} // verus!

verus! {

/// Whether another client holds the session (or the window has no
/// settings to tell whose it is).
pub open spec fn other_owner(s: GuiView) -> bool {
    match s.snapshot {
        Some(sn) => match sn.session {
            Some(x) => match s.config {
                Some(c) => x.client_id != c.client_id,
                None => true,
            },
            None => false,
        },
        None => false,
    }
}

/// Whether the session holds bus ID `b`.
pub open spec fn in_session(session: Option<SessionView>, b: Seq<char>) -> bool {
    match session {
        Some(x) => x.devices.contains(b),
        None => false,
    }
}

/// Whether "connect selected" takes device `d`: selected, not yet in the
/// session, offered, and not prohibited.
pub open spec fn attachable(d: UsbDeviceView, selected: Seq<Seq<char>>, session: Option<SessionView>) -> bool {
    &&& selected.contains(d.bus_id)
    &&& !in_session(session, d.bus_id)
    &&& d.selectable
    &&& policy_level(d) != PolicyLevel::Prohibited
}

/// The devices "connect selected" takes, in list order.
pub open spec fn attach_list(ds: Seq<UsbDeviceView>, selected: Seq<Seq<char>>, session: Option<SessionView>) -> Seq<
    UsbDeviceView,
>
    decreases ds.len(),
{
    if ds.len() == 0 {
        Seq::empty()
    } else if attachable(ds.last(), selected, session) {
        attach_list(ds.drop_last(), selected, session).push(ds.last())
    } else {
        attach_list(ds.drop_last(), selected, session)
    }
}

/// The session's bus IDs that are selected, in session order.
pub open spec fn detach_list(held: Seq<Seq<char>>, selected: Seq<Seq<char>>) -> Seq<Seq<char>>
    decreases held.len(),
{
    if held.len() == 0 {
        Seq::empty()
    } else if selected.contains(held.last()) {
        detach_list(held.drop_last(), selected).push(held.last())
    } else {
        detach_list(held.drop_last(), selected)
    }
}

/// The devices "connect selected" acts on.
pub open spec fn attach_targets(s: GuiView) -> Seq<UsbDeviceView> {
    match s.snapshot {
        Some(sn) => attach_list(sn.devices, s.selected, sn.session),
        None => Seq::empty(),
    }
}

/// The bus IDs "disconnect selected" acts on.
pub open spec fn detach_targets(s: GuiView) -> Seq<Seq<char>> {
    match s.snapshot {
        Some(sn) => match sn.session {
            Some(x) => detach_list(x.devices, s.selected),
            None => Seq::empty(),
        },
        None => Seq::empty(),
    }
}

/// How a device row offers its button.
#[derive(Clone, Copy, Debug, PartialEq, Eq, Structural)]
pub enum RowButton {
    Connect,
    Forbidden,
    Disconnect,
}

/// How a device row is shown: whether its box can be ticked, its icon, its
/// button and whether that is enabled, its status, and the policy detail
/// when the device is not plainly allowed.
#[derive(Clone, Copy, Debug)]
pub struct RowState {
    pub can_select: bool,
    pub icon: &'static str,
    pub button: RowButton,
    pub button_enabled: bool,
    pub status: &'static str,
    pub detail: Option<&'static str>,
}

/// The icon of a policy level.
pub open spec fn level_icon(l: PolicyLevel) -> Seq<char> {
    match l {
        PolicyLevel::Allowed => "✓"@,
        PolicyLevel::Warning => "⚠"@,
        PolicyLevel::Prohibited => "⊘"@,
    }
}

/// The status shown for a device.
pub open spec fn row_status(l: PolicyLevel, connected: bool, other: bool) -> Seq<char> {
    if other {
        "他PCが使用中"@
    } else if l == PolicyLevel::Prohibited {
        "接続禁止"@
    } else if connected {
        "接続中"@
    } else if l == PolicyLevel::Warning {
        "要注意"@
    } else {
        "利用可能"@
    }
}

/// How the row of device `d` is shown.
pub open spec fn row_of(d: UsbDeviceView, connected: bool, other: bool, busy: bool) -> (
    bool,
    Seq<char>,
    RowButton,
    bool,
    Seq<char>,
    Option<Seq<char>>,
) {
    let l = policy_level(d);
    (
        !busy && !other && (connected || (d.selectable && l != PolicyLevel::Prohibited)),
        level_icon(l),
        if connected {
            RowButton::Disconnect
        } else if l == PolicyLevel::Prohibited {
            RowButton::Forbidden
        } else {
            RowButton::Connect
        },
        !busy && !other && (connected || l != PolicyLevel::Prohibited),
        row_status(l, connected, other),
        if l != PolicyLevel::Allowed {
            Some(crate::device_policy::policy_detail(d))
        } else {
            None
        },
    )
}

/// How the row of a device is shown.
pub fn row_state(device: &UsbDevice, connected: bool, other_owner: bool, busy: bool) -> (r: RowState)
    ensures
        (r.can_select, r.icon@, r.button, r.button_enabled, r.status@, crate::device_policy::opt_str_view(r.detail))
            == row_of(device@, connected, other_owner, busy),
{
    let policy = evaluate(device);
    let prohibited = match policy.level {
        PolicyLevel::Prohibited => true,
        _ => false,
    };
    let icon = match policy.level {
        PolicyLevel::Allowed => "✓",
        PolicyLevel::Warning => "⚠",
        PolicyLevel::Prohibited => "⊘",
    };
    let status = if other_owner {
        "他PCが使用中"
    } else if prohibited {
        "接続禁止"
    } else if connected {
        "接続中"
    } else if policy.level == PolicyLevel::Warning {
        "要注意"
    } else {
        "利用可能"
    };
    RowState {
        can_select: !busy && !other_owner && (connected || (device.selectable && !prohibited)),
        icon,
        button: if connected {
            RowButton::Disconnect
        } else if prohibited {
            RowButton::Forbidden
        } else {
            RowButton::Connect
        },
        button_enabled: !busy && !other_owner && (connected || !prohibited),
        status,
        detail: if policy.level != PolicyLevel::Allowed {
            Some(policy.detail)
        } else {
            None
        },
    }
}

/// Whether the session holds bus ID `b`.
fn session_holds(session: &Option<Session>, b: &str) -> (r: bool)
    ensures
        r == in_session(crate::connection::opt_session_view(*session), b@),
{
    match session {
        Some(x) => contains_string(&x.devices, b),
        None => false,
    }
}

impl AppState {
    /// Whether another client holds the session.
    pub fn other_owner(&self) -> (r: bool)
        ensures
            r == other_owner(self@),
    {
        match &self.snapshot {
            Some(sn) => match &sn.session {
                Some(x) => match &self.config {
                    Some(c) => !str_eq(x.client_id.as_str(), c.client_id.as_str()),
                    None => true,
                },
                None => false,
            },
            None => false,
        }
    }

    /// The devices "connect selected" acts on.
    pub fn attach_targets(&self) -> (r: Vec<UsbDevice>)
        ensures
            device_views(r@) == attach_targets(self@),
    {
        let mut r: Vec<UsbDevice> = Vec::new();
        match &self.snapshot {
            None => {
                assert(device_views(r@) =~= Seq::<UsbDeviceView>::empty());
                r
            },
            Some(sn) => {
                let ghost dv = device_views(sn.devices@);
                let ghost sel = views(self.selected@);
                let ghost ses = crate::connection::opt_session_view(sn.session);
                let mut i: usize = 0;
                while i < sn.devices.len()
                    invariant
                        i <= sn.devices.len(),
                        dv == device_views(sn.devices@),
                        sel == views(self.selected@),
                        ses == crate::connection::opt_session_view(sn.session),
                        device_views(r@) == attach_list(dv.take(i as int), sel, ses),
                    decreases sn.devices.len() - i,
                {
                    proof {
                        assert(dv.take(i + 1).drop_last() =~= dv.take(i as int));
                        assert(dv.take(i + 1).last() == dv[i as int]);
                        assert(dv[i as int] == sn.devices@[i as int]@);
                    }
                    let d = &sn.devices[i];
                    let take = contains_string(&self.selected, d.bus_id.as_str()) && !session_holds(
                        &sn.session,
                        d.bus_id.as_str(),
                    ) && d.selectable && match evaluate(d).level {
                        PolicyLevel::Prohibited => false,
                        _ => true,
                    };
                    if take {
                        let ghost before = device_views(r@);
                        r.push(copy_device(d));
                        assert(device_views(r@) =~= before.push(dv[i as int]));
                    }
                    i = i + 1;
                }
                assert(dv.take(sn.devices.len() as int) =~= dv);
                r
            },
        }
    }

    /// The bus IDs "disconnect selected" acts on.
    pub fn detach_targets(&self) -> (r: Vec<String>)
        ensures
            views(r@) == detach_targets(self@),
    {
        let mut r: Vec<String> = Vec::new();
        assert(views(r@) =~= Seq::<Seq<char>>::empty());
        match &self.snapshot {
            None => r,
            Some(sn) => match &sn.session {
                None => r,
                Some(x) => {
                    let ghost hv = views(x.devices@);
                    let ghost sel = views(self.selected@);
                    let mut i: usize = 0;
                    while i < x.devices.len()
                        invariant
                            i <= x.devices.len(),
                            hv == views(x.devices@),
                            sel == views(self.selected@),
                            views(r@) == detach_list(hv.take(i as int), sel),
                        decreases x.devices.len() - i,
                    {
                        proof {
                            assert(hv.take(i + 1).drop_last() =~= hv.take(i as int));
                            assert(hv.take(i + 1).last() == hv[i as int]);
                        }
                        if contains_string(&self.selected, x.devices[i].as_str()) {
                            let ghost before = views(r@);
                            r.push(x.devices[i].clone());
                            assert(views(r@) =~= before.push(hv[i as int]));
                        }
                        i = i + 1;
                    }
                    assert(hv.take(x.devices.len() as int) =~= hv);
                    r
                },
            },
        }
    }

    /// Ticks or unticks the box of bus ID `bus_id`.
    pub fn set_selected(&mut self, bus_id: &str, on: bool)
        ensures
            strictly_sorted(final(self)@.selected),
            on ==> final(self)@.selected.to_set() == old(self)@.selected.to_set().insert(bus_id@),
            !on ==> final(self)@.selected == crate::connection::without(old(self)@.selected, seq![bus_id@]),
            final(self)@ == (GuiView { selected: final(self)@.selected, ..old(self)@ }),
    {
        proof {
            use_type_invariant(&*self);
        }
        let mut sel: Vec<String> = Vec::new();
        std::mem::swap(&mut sel, &mut self.selected);
        if on {
            crate::order::insert_sorted(&mut sel, owned(bus_id));
        } else {
            let mut gone: Vec<String> = Vec::new();
            gone.push(owned(bus_id));
            assert(views(gone@) =~= seq![bus_id@]);
            let kept = crate::connection::strings_without(&sel, &gone);
            proof {
                crate::order::lemma_sorted_subsequence(views(sel@), views(gone@));
            }
            sel = kept;
        }
        self.selected = sel;
    }

    /// Unticks every box.
    pub fn clear_selection(&mut self)
        ensures
            final(self)@ == (GuiView { selected: Seq::empty(), ..old(self)@ }),
    {
        proof {
            use_type_invariant(&*self);
        }
        let empty: Vec<String> = Vec::new();
        assert(views(empty@) =~= Seq::<Seq<char>>::empty());
        self.selected = empty;
    }

    /// Whether the box of bus ID `bus_id` is ticked.
    pub fn is_selected(&self, bus_id: &str) -> (r: bool)
        ensures
            r == self@.selected.contains(bus_id@),
    {
        contains_string(&self.selected, bus_id)
    }
}

proof fn lemma_attach_list(ds: Seq<UsbDeviceView>, selected: Seq<Seq<char>>, session: Option<SessionView>, d: UsbDeviceView)
    ensures
        attach_list(ds, selected, session).contains(d) <==> (ds.contains(d) && attachable(d, selected, session)),
    decreases ds.len(),
{
    if ds.len() > 0 {
        let p = ds.drop_last();
        lemma_attach_list(p, selected, session, d);
        let w = attach_list(p, selected, session);
        if ds.contains(d) && d != ds.last() {
            let i = choose|i: int| 0 <= i < ds.len() && ds[i] == d;
            assert(p[i] == d);
        }
        if p.contains(d) {
            let i = choose|i: int| 0 <= i < p.len() && p[i] == d;
            assert(ds[i] == d);
        }
        assert(ds[ds.len() - 1] == ds.last());
        if attachable(ds.last(), selected, session) {
            let r = w.push(ds.last());
            if r.contains(d) && d != ds.last() {
                let i = choose|i: int| 0 <= i < r.len() && r[i] == d;
                assert(w[i] == d);
            }
            if w.contains(d) {
                let i = choose|i: int| 0 <= i < w.len() && w[i] == d;
                assert(r[i] == d);
            }
            assert(r[w.len() as int] == ds.last());
        }
    }
}

proof fn lemma_detach_list(held: Seq<Seq<char>>, selected: Seq<Seq<char>>, b: Seq<char>)
    ensures
        detach_list(held, selected).contains(b) <==> (held.contains(b) && selected.contains(b)),
    decreases held.len(),
{
    if held.len() > 0 {
        let p = held.drop_last();
        lemma_detach_list(p, selected, b);
        let w = detach_list(p, selected);
        if held.contains(b) && b != held.last() {
            let i = choose|i: int| 0 <= i < held.len() && held[i] == b;
            assert(p[i] == b);
        }
        if p.contains(b) {
            let i = choose|i: int| 0 <= i < p.len() && p[i] == b;
            assert(held[i] == b);
        }
        assert(held[held.len() - 1] == held.last());
        if selected.contains(held.last()) {
            let r = w.push(held.last());
            if r.contains(b) && b != held.last() {
                let i = choose|i: int| 0 <= i < r.len() && r[i] == b;
                assert(w[i] == b);
            }
            if w.contains(b) {
                let i = choose|i: int| 0 <= i < w.len() && w[i] == b;
                assert(r[i] == b);
            }
            assert(r[w.len() as int] == held.last());
        }
    }
}

/// "Connect selected" and "disconnect selected" act only on ticked
/// devices, never on the same one: connecting takes devices that are not
/// in the session and not prohibited, disconnecting takes bus IDs that the
/// session holds.
pub proof fn law_targets_are_disjoint(s: GuiView, d: UsbDeviceView, b: Seq<char>)
    ensures
        attach_targets(s).contains(d) ==> s.selected.contains(d.bus_id) && d.selectable && policy_level(d)
            != PolicyLevel::Prohibited && !detach_targets(s).contains(d.bus_id),
        detach_targets(s).contains(b) ==> s.selected.contains(b) && (s.snapshot matches Some(sn)
            && in_session(sn.session, b)),
{
    match s.snapshot {
        Some(sn) => {
            lemma_attach_list(sn.devices, s.selected, sn.session, d);
            match sn.session {
                Some(x) => {
                    lemma_detach_list(x.devices, s.selected, b);
                    lemma_detach_list(x.devices, s.selected, d.bus_id);
                },
                None => {},
            }
        },
        None => {},
    }
}

/// The log never holds more than 200 lines, and its last line is the one
/// just logged.
pub proof fn law_log_is_bounded(logs: Seq<Seq<char>>, m: Seq<char>)
    requires
        logs.len() <= MAX_LOG_LINES,
    ensures
        logged(logs, m).len() <= MAX_LOG_LINES,
        logged(logs, m).last() == m,
        logs.len() < MAX_LOG_LINES ==> logged(logs, m).drop_last() == logs,
        logs.len() == MAX_LOG_LINES ==> logged(logs, m).drop_last() == logs.drop_first(),
{
    assert(logged(logs, m).drop_last() =~= if logs.len() >= MAX_LOG_LINES {
        logs.drop_first()
    } else {
        logs
    });
}

/// A refresh keeps ticked only devices the server still lists.
pub proof fn law_refresh_drops_vanished(s: GuiView, snap: Snapshot, show: bool, b: Seq<char>)
    requires
        gui_wf(s),
    ensures
        handled(s, WorkerMessage::Refreshed { result: Ok(snap), show_feedback: show }).0.selected.contains(b)
            ==> exists|i: int| 0 <= i < snap.devices@.len() && #[trigger] snap.devices@[i].bus_id@ == b,
{
    let ds = device_views(snap.devices@);
    lemma_still_listed_members(s.selected, ds, b);
    if still_listed(s.selected, ds).contains(b) {
        let i = choose|i: int| 0 <= i < ds.len() && ds[i].bus_id == b;
        assert(snap.devices@[i].bus_id@ == b);
    }
}

proof fn lemma_still_listed_members(sel: Seq<Seq<char>>, ds: Seq<UsbDeviceView>, b: Seq<char>)
    ensures
        still_listed(sel, ds).contains(b) ==> exists|i: int| 0 <= i < ds.len() && #[trigger] ds[i].bus_id == b,
    decreases sel.len(),
{
    if sel.len() > 0 {
        lemma_still_listed_members(sel.drop_last(), ds, b);
        let w = still_listed(sel.drop_last(), ds);
        if still_listed(sel, ds) != w {
            let r = w.push(sel.last());
            if r.contains(b) && b != sel.last() {
                let k = choose|k: int| 0 <= k < r.len() && r[k] == b;
                assert(w[k] == b);
            }
        }
    }
}

} // verus!

verus! {

/// How often the server state is polled, in milliseconds: every 5 s while
/// the window is visible, every 20 s otherwise.
pub open spec fn poll_interval(visible: bool) -> u64 {
    if visible {
        5000
    } else {
        20000
    }
}

/// How often a session is kept alive, in milliseconds.
pub const HEARTBEAT_INTERVAL_MS: u64 = 10000;

/// The message shown when a connect or disconnect run succeeds.
pub open spec fn finished_message(count: nat, attach: bool) -> Seq<char> {
    if attach {
        if count == 1 {
            "Device attached"@
        } else {
            "Devices attached"@
        }
    } else if count == 1 {
        "Device detached"@
    } else {
        "Devices detached"@
    }
}

/// The message shown when a connect or disconnect run of `count` devices
/// succeeds.
pub fn operation_message(count: usize, attach: bool) -> (r: &'static str)
    ensures
        r@ == finished_message(count as nat, attach),
{
    if attach {
        if count == 1 {
            "Device attached"
        } else {
            "Devices attached"
        }
    } else if count == 1 {
        "Device detached"
    } else {
        "Devices detached"
    }
}

/// The line logged once the client's devices were detached on exit.
pub open spec fn shutdown_line(r: Result<(), Seq<char>>) -> Seq<char> {
    match r {
        Ok(()) => "USB devices detached during shutdown"@,
        Err(e) => "ERROR: failed to detach USB devices during shutdown: "@ + e,
    }
}

/// A copy of some settings.
pub fn copy_config(c: &Config) -> (r: Config)
    ensures
        r@ == c@,
{
    Config {
        server_url: c.server_url.clone(),
        client_id: c.client_id.clone(),
        usbip_path: c.usbip_path.clone(),
        dry_run: c.dry_run,
    }
}

/// Whether the client holds the session.
pub open spec fn owns_session(s: GuiView) -> bool {
    match (s.config, s.snapshot) {
        (Some(c), Some(sn)) => match sn.session {
            Some(x) => x.client_id == c.client_id,
            None => false,
        },
        _ => false,
    }
}

impl AppState {
    /// Starts a refresh unless one is under way or there are no settings;
    /// returns the settings to refresh with.
    pub fn begin_refresh(&mut self, show_feedback: bool) -> (r: Option<Config>)
        ensures
            old(self)@.refresh_in_flight || old(self)@.config is None ==> r is None && final(self)@
                == old(self)@,
            !old(self)@.refresh_in_flight && old(self)@.config is Some ==> (r matches Some(c) && Some(
                c@,
            ) == old(self)@.config && final(self)@ == (GuiView {
                refresh_in_flight: true,
                progress: if show_feedback {
                    "Refreshing server state"@
                } else {
                    old(self)@.progress
                },
                ..old(self)@
            })),
    {
        proof {
            use_type_invariant(&*self);
        }
        if self.refresh_in_flight {
            return None;
        }
        let c = match &self.config {
            None => {
                return None;
            },
            Some(c) => copy_config(c),
        };
        self.refresh_in_flight = true;
        if show_feedback {
            self.progress = owned("Refreshing server state");
        }
        Some(c)
    }

    /// Starts a connect or disconnect run when there are settings; returns
    /// them.
    pub fn begin_operation(&mut self) -> (r: Option<Config>)
        ensures
            old(self)@.config is None ==> r is None && final(self)@ == old(self)@,
            old(self)@.config is Some ==> (r matches Some(c) && Some(c@) == old(self)@.config
                && final(self)@ == (GuiView {
                busy: true,
                usb_transition_in_progress: true,
                last_error: None,
                ..old(self)@
            })),
    {
        proof {
            use_type_invariant(&*self);
        }
        let c = match &self.config {
            None => {
                return None;
            },
            Some(c) => copy_config(c),
        };
        self.busy = true;
        self.usb_transition_in_progress = true;
        self.last_error = None;
        Some(c)
    }

    /// Starts saving the settings.
    pub fn begin_save(&mut self)
        ensures
            final(self)@ == (GuiView { busy: true, progress: "Saving settings"@, ..old(self)@ }),
    {
        proof {
            use_type_invariant(&*self);
        }
        self.busy = true;
        self.progress = owned("Saving settings");
    }

    /// Whether the server state is to be polled, `elapsed_ms` after the
    /// last poll.
    pub fn poll_due(&self, elapsed_ms: u64, visible: bool) -> (r: bool)
        ensures
            r == (!self@.busy && !self@.refresh_in_flight && self@.config is Some && elapsed_ms
                >= poll_interval(visible)),
    {
        if self.busy || self.refresh_in_flight || self.config.is_none() {
            return false;
        }
        let interval: u64 = if visible {
            5000
        } else {
            20000
        };
        elapsed_ms >= interval
    }

    /// Starts a heartbeat when one is due, `elapsed_ms` after the last: none
    /// under way, 10 s passed, and the client holds the session; returns
    /// the settings to send it with.
    pub fn begin_heartbeat(&mut self, elapsed_ms: u64) -> (r: Option<Config>)
        ensures
            (!old(self)@.heartbeat_in_flight && elapsed_ms >= HEARTBEAT_INTERVAL_MS && owns_session(
                old(self)@,
            )) ==> (r matches Some(c) && Some(c@) == old(self)@.config && final(self)@ == (GuiView {
                heartbeat_in_flight: true,
                ..old(self)@
            })),
            !(!old(self)@.heartbeat_in_flight && elapsed_ms >= HEARTBEAT_INTERVAL_MS && owns_session(
                old(self)@,
            )) ==> r is None && final(self)@ == old(self)@,
    {
        proof {
            use_type_invariant(&*self);
        }
        if self.heartbeat_in_flight || elapsed_ms < HEARTBEAT_INTERVAL_MS {
            return None;
        }
        let owns = match (&self.config, &self.snapshot) {
            (Some(c), Some(sn)) => match &sn.session {
                Some(x) => str_eq(x.client_id.as_str(), c.client_id.as_str()),
                None => false,
            },
            _ => false,
        };
        if !owns {
            return None;
        }
        let c = match &self.config {
            Some(c) => copy_config(c),
            None => {
                return None;
            },
        };
        self.heartbeat_in_flight = true;
        Some(c)
    }

    /// Logs how detaching the client's devices on exit went.
    pub fn log_shutdown(&mut self, result: Result<(), String>)
        ensures
            final(self)@ == with_log(old(self)@, shutdown_line(crate::host_agent::outcome_view(result))),
    {
        match result {
            Ok(()) => self.push_log(owned("USB devices detached during shutdown")),
            Err(e) => self.push_log(concat("ERROR: failed to detach USB devices during shutdown: ", e.as_str())),
        }
    }

    /// Opens or closes the settings window.
    pub fn set_show_settings(&mut self, show: bool)
        ensures
            final(self)@ == (GuiView { show_settings: show, ..old(self)@ }),
    {
        proof {
            use_type_invariant(&*self);
        }
        self.show_settings = show;
    }

    /// Opens or closes the log window.
    pub fn set_show_logs(&mut self, show: bool)
        ensures
            final(self)@ == (GuiView { show_logs: show, ..old(self)@ }),
    {
        proof {
            use_type_invariant(&*self);
        }
        self.show_logs = show;
    }

    /// Whether a run or a settings operation is under way.
    pub fn is_busy(&self) -> (r: bool)
        ensures
            r == self@.busy,
    {
        self.busy
    }

    /// Whether a connect or disconnect run is under way.
    pub fn usb_transition_in_progress(&self) -> (r: bool)
        ensures
            r == self@.usb_transition_in_progress,
    {
        self.usb_transition_in_progress
    }

    /// The progress line.
    pub fn progress(&self) -> (r: &str)
        ensures
            r@ == self@.progress,
    {
        self.progress.as_str()
    }

    /// The last error, if any.
    pub fn last_error(&self) -> (r: &Option<String>)
        ensures
            opt_view(*r) == self@.last_error,
    {
        &self.last_error
    }

    /// The log lines kept in memory, oldest first.
    pub fn logs(&self) -> (r: &Vec<String>)
        ensures
            views(r@) == self@.logs,
    {
        &self.logs
    }

    /// The ticked bus IDs, sorted.
    pub fn selected(&self) -> (r: &Vec<String>)
        ensures
            views(r@) == self@.selected,
    {
        &self.selected
    }

    /// The settings in force, once loaded.
    pub fn config(&self) -> (r: &Option<Config>)
        ensures
            opt_config(*r) == self@.config,
    {
        &self.config
    }

    /// What the client last learned of the server.
    pub fn snapshot(&self) -> (r: &Option<Snapshot>)
        ensures
            opt_snapshot(*r) == self@.snapshot,
    {
        &self.snapshot
    }

    /// The settings as edited.
    pub fn settings(&self) -> (r: &SettingsDraft)
        ensures
            (r.server_url@, r.client_id@, r.usbip_path@) == self@.draft,
    {
        &self.settings
    }

    /// Replaces the settings as edited.
    pub fn set_settings(&mut self, draft: SettingsDraft)
        ensures
            final(self)@ == (GuiView {
                draft: (draft.server_url@, draft.client_id@, draft.usbip_path@),
                ..old(self)@
            }),
    {
        proof {
            use_type_invariant(&*self);
        }
        self.settings = draft;
    }

    /// Whether the settings window is open.
    pub fn show_settings(&self) -> (r: bool)
        ensures
            r == self@.show_settings,
    {
        self.show_settings
    }

    /// Whether the log window is open.
    pub fn show_logs(&self) -> (r: bool)
        ensures
            r == self@.show_logs,
    {
        self.show_logs
    }
}

} // verus!

verus! {

/// What the user asked for in the main window.
#[derive(Debug)]
pub enum ViewAction {
    /// Nothing was asked for.
    Idle,
    Refresh,
    OpenSettings,
    OpenLogs,
    Connect(Vec<UsbDevice>),
    Disconnect(Vec<String>),
}

/// What the user asked for in the settings window.
#[derive(Debug)]
pub enum SettingsAction {
    /// Nothing was asked for.
    Idle,
    Save(Config),
    Cancel,
}

impl SettingsDraft {
    /// The settings the draft stands for, when they are valid.
    pub fn to_config(&self) -> (r: Result<Config, crate::error::ClientError>)
        ensures
            crate::config::config_result_view(r) == crate::config::from_values_result(
                self.server_url@,
                self.client_id@,
                self.usbip_path@,
            ),
    {
        crate::config::from_values(self.server_url.as_str(), self.client_id.as_str(), self.usbip_path.clone())
    }
}

impl AppState {
    /// "Connect selected": when enabled (not busy, no other owner, and
    /// something to attach) it asks to connect the targets and clears the
    /// selection.
    pub fn press_connect_selected(&mut self) -> (r: ViewAction)
        ensures
            (!old(self)@.busy && !other_owner(old(self)@) && attach_targets(old(self)@).len() > 0) ==> (
            r matches ViewAction::Connect(ds) && device_views(ds@) == attach_targets(old(self)@)
                && final(self)@ == (GuiView { selected: Seq::empty(), ..old(self)@ })),
            !(!old(self)@.busy && !other_owner(old(self)@) && attach_targets(old(self)@).len() > 0) ==> (
            r is Idle && final(self)@ == old(self)@),
    {
        let targets = self.attach_targets();
        if self.busy || self.other_owner() || targets.len() == 0 {
            return ViewAction::Idle;
        }
        self.clear_selection();
        ViewAction::Connect(targets)
    }

    /// "Disconnect selected": when enabled (not busy, no other owner, and
    /// something to detach) it asks to disconnect the targets and clears the
    /// selection.
    pub fn press_disconnect_selected(&mut self) -> (r: ViewAction)
        ensures
            (!old(self)@.busy && !other_owner(old(self)@) && detach_targets(old(self)@).len() > 0) ==> (
            r matches ViewAction::Disconnect(bs) && views(bs@) == detach_targets(old(self)@)
                && final(self)@ == (GuiView { selected: Seq::empty(), ..old(self)@ })),
            !(!old(self)@.busy && !other_owner(old(self)@) && detach_targets(old(self)@).len() > 0) ==> (
            r is Idle && final(self)@ == old(self)@),
    {
        let targets = self.detach_targets();
        if self.busy || self.other_owner() || targets.len() == 0 {
            return ViewAction::Idle;
        }
        self.clear_selection();
        ViewAction::Disconnect(targets)
    }

    /// The button of a device row: disconnect a connected device, connect
    /// another one, when the button is enabled.
    pub fn press_row_button(&self, device: &UsbDevice, connected: bool) -> (r: ViewAction)
        ensures
            ({
                let row = row_of(device@, connected, other_owner(self@), self@.busy);
                &&& (row.3 && connected) ==> (r matches ViewAction::Disconnect(bs) && views(bs@) == seq![
                    device@.bus_id,
                ])
                &&& (row.3 && !connected) ==> (r matches ViewAction::Connect(ds) && device_views(ds@)
                    == seq![device@])
                &&& !row.3 ==> r is Idle
            }),
    {
        let row = row_state(device, connected, self.other_owner(), self.busy);
        if !row.button_enabled {
            return ViewAction::Idle;
        }
        if connected {
            let mut v: Vec<String> = Vec::new();
            v.push(device.bus_id.clone());
            assert(views(v@) =~= seq![device@.bus_id]);
            ViewAction::Disconnect(v)
        } else {
            let mut v: Vec<UsbDevice> = Vec::new();
            v.push(copy_device(device));
            assert(device_views(v@) =~= seq![device@]);
            ViewAction::Connect(v)
        }
    }
}

} // verus!

verus! {

/// The line a message adds to the log, if any.
pub open spec fn message_line(m: WorkerMessage) -> Option<Seq<char>> {
    match m {
        WorkerMessage::ConfigLoaded(Ok(_)) => Some("Settings loaded"@),
        WorkerMessage::ConfigLoaded(Err(e)) => Some("ERROR: "@ + e@),
        WorkerMessage::Refreshed { result: Ok(_), show_feedback } => if show_feedback {
            Some("Server state refreshed"@)
        } else {
            None
        },
        WorkerMessage::Refreshed { result: Err(e), show_feedback: _ } => Some("ERROR: "@ + e@),
        WorkerMessage::Progress(p) => Some(p@),
        WorkerMessage::OperationFinished(Ok(msg)) => Some(msg@),
        WorkerMessage::OperationFinished(Err(e)) => Some("ERROR: "@ + e@),
        WorkerMessage::ConfigSaved(Ok(_)) => Some("Settings saved"@),
        WorkerMessage::ConfigSaved(Err(e)) => Some("ERROR: "@ + e@),
        WorkerMessage::HeartbeatFinished(Ok(())) => None,
        WorkerMessage::HeartbeatFinished(Err(e)) => Some("ERROR: heartbeat failed: "@ + e@),
    }
}

impl WorkerMessage {
    /// The line this message adds to the log, if any (which the caller also
    /// writes to the log file).
    pub fn log_line(&self) -> (r: Option<String>)
        ensures
            opt_view(r) == message_line(*self),
    {
        match self {
            WorkerMessage::ConfigLoaded(Ok(_)) => Some(owned("Settings loaded")),
            WorkerMessage::ConfigLoaded(Err(e)) => Some(error_line(e.as_str())),
            WorkerMessage::Refreshed { result: Ok(_), show_feedback } => if *show_feedback {
                Some(owned("Server state refreshed"))
            } else {
                None
            },
            WorkerMessage::Refreshed { result: Err(e), show_feedback: _ } => Some(error_line(e.as_str())),
            WorkerMessage::Progress(p) => Some(p.clone()),
            WorkerMessage::OperationFinished(Ok(msg)) => Some(msg.clone()),
            WorkerMessage::OperationFinished(Err(e)) => Some(error_line(e.as_str())),
            WorkerMessage::ConfigSaved(Ok(_)) => Some(owned("Settings saved")),
            WorkerMessage::ConfigSaved(Err(e)) => Some(error_line(e.as_str())),
            WorkerMessage::HeartbeatFinished(Ok(())) => None,
            WorkerMessage::HeartbeatFinished(Err(e)) => Some(concat("ERROR: heartbeat failed: ", e.as_str())),
        }
    }
}

/// A message adds to the log exactly the line `message_line` names, and
/// nothing when it names none.
pub proof fn law_message_logs_its_line(s: GuiView, m: WorkerMessage)
    ensures
        handled(s, m).0.logs == match message_line(m) {
            Some(l) => logged(s.logs, l),
            None => s.logs,
        },
{
}

} // verus!
