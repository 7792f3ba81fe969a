//! Attaching and detaching groups of devices: the decisions of the client's
//! connection workflow, as state machines that the caller drives. Each call
//! of `step` takes the outcome of the last action and names the next one;
//! the caller performs it (an HTTP request, a `usbip` command, a pause) and
//! hands back what came of it.

use vstd::prelude::*;
use crate::device_policy::{ensure_allowed, ftdi, is_ftdi, refusal};
use crate::error::{copy_error, error_view_text, ClientError, ClientErrorView};
use crate::protocol::{
    copy_session, copy_strings, device_views, views, HealthResponse, Session, SessionView,
    UsbDevice, UsbDeviceView,
};
use crate::text::{concat, contains_string, join, join_with, owned};

verus! {

/// What the client knows of the server after a refresh.
#[derive(Clone, Debug)]
pub struct Snapshot {
    pub health: HealthResponse,
    pub devices: Vec<UsbDevice>,
    pub session: Option<Session>,
}

/// The view of an optional session.
pub open spec fn opt_session_view(s: Option<Session>) -> Option<SessionView> {
    match s {
        Some(v) => Some(v@),
        None => None,
    }
}

/// The view of the outcome of an operation that yields a session.
pub open spec fn session_result_view(r: Result<Session, ClientError>) -> Result<
    SessionView,
    ClientErrorView,
> {
    match r {
        Ok(s) => Ok(s@),
        Err(e) => Err(e@),
    }
}

/// The view of an outcome without a value.
pub open spec fn unit_result_view(r: Result<(), ClientError>) -> Result<(), ClientErrorView> {
    match r {
        Ok(()) => Ok(()),
        Err(e) => Err(e@),
    }
}

/// The view of an outcome that is a truth value.
pub open spec fn bool_result_view(r: Result<bool, ClientError>) -> Result<bool, ClientErrorView> {
    match r {
        Ok(b) => Ok(b),
        Err(e) => Err(e@),
    }
}

/// The view of the outcome of a session query.
pub open spec fn loaded_view(r: Result<Option<Session>, ClientError>) -> Result<
    Option<SessionView>,
    ClientErrorView,
> {
    match r {
        Ok(s) => Ok(opt_session_view(s)),
        Err(e) => Err(e@),
    }
}

/// A copy of an optional session.
pub fn copy_opt_session(s: &Option<Session>) -> (r: Option<Session>)
    ensures
        opt_session_view(r) == opt_session_view(*s),
{
    match s {
        Some(v) => Some(copy_session(v)),
        None => None,
    }
}

/// A copy of the outcome of an operation that yields a session.
pub fn copy_session_result(r: &Result<Session, ClientError>) -> (c: Result<Session, ClientError>)
    ensures
        session_result_view(c) == session_result_view(*r),
{
    match r {
        Ok(s) => Ok(copy_session(s)),
        Err(e) => Err(copy_error(e)),
    }
}

/// The requested devices whose bus IDs are not in `have`, in order.
pub open spec fn missing(ds: Seq<UsbDeviceView>, have: Seq<Seq<char>>) -> Seq<UsbDeviceView>
    decreases ds.len(),
{
    if ds.len() == 0 {
        Seq::empty()
    } else {
        let rest = missing(ds.drop_last(), have);
        if have.contains(ds.last().bus_id) {
            rest
        } else {
            rest.push(ds.last())
        }
    }
}

/// The bus IDs of devices.
pub open spec fn bus_ids(ds: Seq<UsbDeviceView>) -> Seq<Seq<char>> {
    ds.map_values(|d: UsbDeviceView| d.bus_id)
}

/// Which of the devices are FTDI devices.
pub open spec fn ftdi_flags(ds: Seq<UsbDeviceView>) -> Seq<bool> {
    ds.map_values(|d: UsbDeviceView| ftdi(d))
}

/// The bus IDs and FTDI flags of the devices of `requested` that are not in
/// `have`.
fn missing_targets(requested: &Vec<UsbDevice>, have: &Vec<String>) -> (r: (Vec<String>, Vec<bool>))
    ensures
        views(r.0@) == bus_ids(missing(device_views(requested@), views(have@))),
        r.1@ == ftdi_flags(missing(device_views(requested@), views(have@))),
{
    let ghost ds = device_views(requested@);
    let ghost hv = views(have@);
    let mut ids: Vec<String> = Vec::new();
    let mut flags: Vec<bool> = Vec::new();
    let mut i: usize = 0;
    while i < requested.len()
        invariant
            i <= requested.len(),
            ds == device_views(requested@),
            hv == views(have@),
            views(ids@) == bus_ids(missing(ds.take(i as int), hv)),
            flags@ == ftdi_flags(missing(ds.take(i as int), hv)),
        decreases requested.len() - i,
    {
        let d = &requested[i];
        proof {
            assert(ds.take(i + 1).drop_last() =~= ds.take(i as int));
            assert(ds.take(i + 1).last() == d@);
        }
        if !contains_string(have, d.bus_id.as_str()) {
            let f = is_ftdi(d);
            ids.push(d.bus_id.clone());
            flags.push(f);
            proof {
                assert(views(ids@) =~= bus_ids(missing(ds.take(i as int), hv)).push(d.bus_id@));
                assert(flags@ =~= ftdi_flags(missing(ds.take(i as int), hv)).push(f));
            }
        }
        i = i + 1;
    }
    assert(ds.take(requested.len() as int) =~= ds);
    (ids, flags)
}

/// The first `k` strings of `v`, last first.
fn reversed_prefix(v: &Vec<String>, k: usize) -> (r: Vec<String>)
    requires
        k <= v.len(),
    ensures
        views(r@) == views(v@).take(k as int).reverse(),
{
    let mut r: Vec<String> = Vec::new();
    let mut j: usize = k;
    while j > 0
        invariant
            j <= k <= v.len(),
            views(r@) =~= views(v@).take(k as int).reverse().take(k - j),
        decreases j,
    {
        j = j - 1;
        let ghost before = views(r@);
        r.push(v[j].clone());
        proof {
            let t = views(v@).take(k as int);
            assert(views(r@) =~= before.push(v@[j as int]@));
            assert(t.reverse()[k - j - 1] == t[j as int]);
            assert(t.reverse().take(k - j) =~= t.reverse().take(k - j - 1).push(t[j as int]));
        }
    }
    r
}

/// Where a connection run stands.
#[derive(Clone, Copy, Debug, PartialEq, Eq, Structural)]
pub enum ConnectPhase {
    Begin,
    AwaitSession,
    AnnounceAcquire,
    AwaitAcquire,
    AwaitCancelCheck,
    AnnounceAttach,
    AwaitAttach,
    AwaitPollCancel,
    AwaitPort,
    AwaitPause,
    AwaitHeartbeat,
    AwaitStops,
    AwaitCleanup,
    AnnounceDone,
    Done,
}

/// What the caller of a connection run is asked to do next.
#[derive(Debug)]
pub enum ConnectAction {
    /// Ask the server for the current session.
    QuerySession,
    /// Show a progress message.
    Report(String),
    /// Acquire these bus IDs for the client.
    Acquire(Vec<String>),
    /// Look at the cancellation flag.
    CheckCancelled,
    /// Attach this bus ID with usbip.
    Attach(String),
    /// Ask usbip whether this bus ID has a port.
    QueryPort(String),
    /// Wait half a second.
    Pause,
    /// Renew the client's session.
    Heartbeat,
    /// Stop the attach attempts of these bus IDs, in order.
    StopAttach(Vec<String>),
    /// Stop every attach attempt (when `stop_all`), detach these bus IDs in
    /// order, and give back these bus IDs to the server; outcomes ignored.
    Cleanup { stop_all: bool, detach: Vec<String>, release: Vec<String> },
    /// The run is over, with this outcome.
    Finish(Result<Session, ClientError>),
}

/// What came of the last action.
#[derive(Debug)]
pub enum ConnectEvent {
    /// A report, pause or cleanup is done.
    Proceed,
    /// The answer to `QuerySession`.
    SessionLoaded(Result<Option<Session>, ClientError>),
    /// The answer to `Acquire`.
    Acquired(Result<Session, ClientError>),
    /// The answer to `CheckCancelled`: whether the run is to stop.
    CancelState(bool),
    /// The answer to `Attach`.
    AttachDone(Result<(), ClientError>),
    /// The answer to `QueryPort`: whether a port was found.
    PortFound(Result<bool, ClientError>),
    /// The answer to `Heartbeat`.
    HeartbeatDone(Result<(), ClientError>),
    /// The answer to `StopAttach`: whether every stop succeeded.
    StopsDone(bool),
}

/// An action as values.
pub enum ConnectActionView {
    QuerySession,
    Report(Seq<char>),
    Acquire(Seq<Seq<char>>),
    CheckCancelled,
    Attach(Seq<char>),
    QueryPort(Seq<char>),
    Pause,
    Heartbeat,
    StopAttach(Seq<Seq<char>>),
    Cleanup { stop_all: bool, detach: Seq<Seq<char>>, release: Seq<Seq<char>> },
    Finish(Result<SessionView, ClientErrorView>),
}

impl View for ConnectAction {
    type V = ConnectActionView;

    open spec fn view(&self) -> ConnectActionView {
        match self {
            ConnectAction::QuerySession => ConnectActionView::QuerySession,
            ConnectAction::Report(m) => ConnectActionView::Report(m@),
            ConnectAction::Acquire(v) => ConnectActionView::Acquire(views(v@)),
            ConnectAction::CheckCancelled => ConnectActionView::CheckCancelled,
            ConnectAction::Attach(b) => ConnectActionView::Attach(b@),
            ConnectAction::QueryPort(b) => ConnectActionView::QueryPort(b@),
            ConnectAction::Pause => ConnectActionView::Pause,
            ConnectAction::Heartbeat => ConnectActionView::Heartbeat,
            ConnectAction::StopAttach(v) => ConnectActionView::StopAttach(views(v@)),
            ConnectAction::Cleanup { stop_all, detach, release } => ConnectActionView::Cleanup {
                stop_all: *stop_all,
                detach: views(detach@),
                release: views(release@),
            },
            ConnectAction::Finish(r) => ConnectActionView::Finish(session_result_view(*r)),
        }
    }
}

/// An event as values.
pub enum ConnectEventView {
    Proceed,
    SessionLoaded(Result<Option<SessionView>, ClientErrorView>),
    Acquired(Result<SessionView, ClientErrorView>),
    CancelState(bool),
    AttachDone(Result<(), ClientErrorView>),
    PortFound(Result<bool, ClientErrorView>),
    HeartbeatDone(Result<(), ClientErrorView>),
    StopsDone(bool),
}

impl View for ConnectEvent {
    type V = ConnectEventView;

    open spec fn view(&self) -> ConnectEventView {
        match self {
            ConnectEvent::Proceed => ConnectEventView::Proceed,
            ConnectEvent::SessionLoaded(r) => ConnectEventView::SessionLoaded(loaded_view(*r)),
            ConnectEvent::Acquired(r) => ConnectEventView::Acquired(session_result_view(*r)),
            ConnectEvent::CancelState(b) => ConnectEventView::CancelState(*b),
            ConnectEvent::AttachDone(r) => ConnectEventView::AttachDone(unit_result_view(*r)),
            ConnectEvent::PortFound(r) => ConnectEventView::PortFound(bool_result_view(*r)),
            ConnectEvent::HeartbeatDone(r) => ConnectEventView::HeartbeatDone(unit_result_view(*r)),
            ConnectEvent::StopsDone(b) => ConnectEventView::StopsDone(*b),
        }
    }
}

} // verus!

verus! {

/// A connection run as values.
pub struct ConnectView {
    pub client_id: Seq<char>,
    pub dry_run: bool,
    pub requested: Seq<UsbDeviceView>,
    pub targets: Seq<Seq<char>>,
    pub ftdi: Seq<bool>,
    pub session: Option<SessionView>,
    pub index: nat,
    pub polls: nat,
    pub phase: ConnectPhase,
    pub failure: Option<ClientErrorView>,
    pub stops: Seq<Seq<char>>,
    pub detach: Seq<Seq<char>>,
    pub stop_all: bool,
    pub result: Option<Result<SessionView, ClientErrorView>>,
}

/// How many times the port of a freshly attached device is looked for.
pub const PORT_POLLS: usize = 10;

/// Whether the phase works on the target at `index`.
pub open spec fn on_target(p: ConnectPhase) -> bool {
    p == ConnectPhase::AwaitCancelCheck || p == ConnectPhase::AnnounceAttach || p
        == ConnectPhase::AwaitAttach || p == ConnectPhase::AwaitPollCancel || p
        == ConnectPhase::AwaitPort || p == ConnectPhase::AwaitPause || p
        == ConnectPhase::AwaitHeartbeat
}

/// The consistency of a run's state.
pub open spec fn connect_wf(v: ConnectView) -> bool {
    &&& v.targets.len() == v.ftdi.len()
    &&& v.index <= v.targets.len()
    &&& v.polls < PORT_POLLS
    &&& on_target(v.phase) ==> v.index < v.targets.len() && v.session is Some
    &&& (v.phase == ConnectPhase::AnnounceAcquire || v.phase == ConnectPhase::AwaitAcquire)
        ==> v.targets.len() > 0
    &&& (v.phase == ConnectPhase::AwaitStops || v.phase == ConnectPhase::AwaitCleanup)
        ==> v.failure is Some
    &&& v.phase == ConnectPhase::AnnounceDone ==> v.session is Some && v.index == v.targets.len()
    &&& (v.phase == ConnectPhase::Done <==> v.result is Some)
    &&& v.phase != ConnectPhase::Begin
    &&& (v.phase == ConnectPhase::AwaitSession || v.phase == ConnectPhase::AnnounceAcquire
        || v.phase == ConnectPhase::AwaitAcquire) ==> v.index == 0
}

/// The run over, with outcome `r`.
pub open spec fn connect_finished(
    s: ConnectView,
    r: Result<SessionView, ClientErrorView>,
) -> ConnectView {
    ConnectView { phase: ConnectPhase::Done, result: Some(r), ..s }
}

/// The run turning back after `err`: the attach attempts of the failed
/// target (when `with_failed`) and of the `attached` first targets, last
/// first, are stopped, then those targets detached and every acquired
/// target released.
pub open spec fn connect_rollback(
    s: ConnectView,
    with_failed: bool,
    attached: nat,
    err: ClientErrorView,
) -> ConnectView {
    let undone = s.targets.take(attached as int).reverse();
    ConnectView {
        phase: ConnectPhase::AwaitStops,
        failure: Some(err),
        stops: if with_failed {
            seq![s.targets[s.index as int]] + undone
        } else {
            undone
        },
        detach: undone,
        ..s
    }
}

/// The error for a target whose port never showed.
pub open spec fn port_missing_error(s: ConnectView) -> ClientErrorView {
    if s.ftdi[s.index as int] {
        ClientErrorView::FtdiCompatibility(s.targets[s.index as int])
    } else {
        ClientErrorView::UsbipPortNotFound(s.targets[s.index as int])
    }
}

/// The run after the server reported the session `existing`: another
/// owner ends it; otherwise the requested devices not yet in the session
/// become the targets, and with none left it ends with the session.
pub open spec fn connect_after_session(s: ConnectView, existing: Option<SessionView>) -> ConnectView {
    if existing is Some && existing->0.client_id != s.client_id {
        connect_finished(s, Err(ClientErrorView::SessionOwnedByOther(existing->0.client_id)))
    } else {
        let have = match existing {
            Some(x) => x.devices,
            None => Seq::empty(),
        };
        let m = missing(s.requested, have);
        if m.len() == 0 {
            connect_finished(
                s,
                match existing {
                    Some(x) => Ok(x),
                    None => Err(ClientErrorView::SessionAlreadyExists),
                },
            )
        } else {
            ConnectView {
                targets: bus_ids(m),
                ftdi: ftdi_flags(m),
                phase: ConnectPhase::AnnounceAcquire,
                ..s
            }
        }
    }
}

/// The state that follows `s` on event `e`. An event that does not answer
/// the pending action leaves the state as it is.
pub open spec fn connect_next(s: ConnectView, e: ConnectEventView) -> ConnectView {
    match s.phase {
        ConnectPhase::AwaitSession => match e {
            ConnectEventView::SessionLoaded(Err(err)) => connect_finished(s, Err(err)),
            ConnectEventView::SessionLoaded(Ok(existing)) => connect_after_session(s, existing),
            _ => s,
        },
        ConnectPhase::AnnounceAcquire => match e {
            ConnectEventView::Proceed => ConnectView { phase: ConnectPhase::AwaitAcquire, ..s },
            _ => s,
        },
        ConnectPhase::AwaitAcquire => match e {
            ConnectEventView::Acquired(Err(err)) => connect_finished(s, Err(err)),
            ConnectEventView::Acquired(Ok(x)) => ConnectView {
                session: Some(x),
                index: 0,
                phase: ConnectPhase::AwaitCancelCheck,
                ..s
            },
            _ => s,
        },
        ConnectPhase::AwaitCancelCheck => match e {
            ConnectEventView::CancelState(true) => connect_rollback(
                s,
                true,
                s.index,
                ClientErrorView::Cancelled,
            ),
            ConnectEventView::CancelState(false) => ConnectView {
                phase: ConnectPhase::AnnounceAttach,
                ..s
            },
            _ => s,
        },
        ConnectPhase::AnnounceAttach => match e {
            ConnectEventView::Proceed => ConnectView { phase: ConnectPhase::AwaitAttach, ..s },
            _ => s,
        },
        ConnectPhase::AwaitAttach => match e {
            ConnectEventView::AttachDone(Err(err)) => connect_rollback(s, true, s.index, err),
            ConnectEventView::AttachDone(Ok(())) => if s.dry_run {
                ConnectView { phase: ConnectPhase::AwaitHeartbeat, ..s }
            } else {
                ConnectView { phase: ConnectPhase::AwaitPollCancel, polls: 0, ..s }
            },
            _ => s,
        },
        ConnectPhase::AwaitPollCancel => match e {
            ConnectEventView::CancelState(true) => connect_rollback(
                s,
                true,
                s.index,
                ClientErrorView::Cancelled,
            ),
            ConnectEventView::CancelState(false) => ConnectView {
                phase: ConnectPhase::AwaitPort,
                ..s
            },
            _ => s,
        },
        ConnectPhase::AwaitPort => match e {
            ConnectEventView::PortFound(Err(err)) => connect_rollback(s, true, s.index, err),
            ConnectEventView::PortFound(Ok(true)) => ConnectView {
                phase: ConnectPhase::AwaitHeartbeat,
                ..s
            },
            ConnectEventView::PortFound(Ok(false)) => ConnectView {
                phase: ConnectPhase::AwaitPause,
                ..s
            },
            _ => s,
        },
        ConnectPhase::AwaitPause => match e {
            ConnectEventView::Proceed => if s.polls + 1 >= PORT_POLLS {
                connect_rollback(s, true, s.index, port_missing_error(s))
            } else {
                ConnectView { phase: ConnectPhase::AwaitPollCancel, polls: s.polls + 1, ..s }
            },
            _ => s,
        },
        ConnectPhase::AwaitHeartbeat => match e {
            ConnectEventView::HeartbeatDone(Err(err)) => connect_rollback(
                s,
                false,
                s.index + 1,
                err,
            ),
            ConnectEventView::HeartbeatDone(Ok(())) => if s.index + 1 == s.targets.len() {
                ConnectView { phase: ConnectPhase::AnnounceDone, index: s.index + 1, ..s }
            } else {
                ConnectView { phase: ConnectPhase::AwaitCancelCheck, index: s.index + 1, ..s }
            },
            _ => s,
        },
        ConnectPhase::AwaitStops => match e {
            ConnectEventView::StopsDone(ok) => ConnectView {
                phase: ConnectPhase::AwaitCleanup,
                stop_all: !ok,
                ..s
            },
            _ => s,
        },
        ConnectPhase::AwaitCleanup => match e {
            ConnectEventView::Proceed => connect_finished(s, Err(s.failure->0)),
            _ => s,
        },
        ConnectPhase::AnnounceDone => match e {
            ConnectEventView::Proceed => connect_finished(s, Ok(s.session->0)),
            _ => s,
        },
        _ => s,
    }
}

/// The action that a run in state `s` waits on.
pub open spec fn connect_pending(s: ConnectView) -> ConnectActionView {
    match s.phase {
        ConnectPhase::AwaitSession => ConnectActionView::QuerySession,
        ConnectPhase::AnnounceAcquire => ConnectActionView::Report("サーバーから利用権を取得しています"@),
        ConnectPhase::AwaitAcquire => ConnectActionView::Acquire(s.targets),
        ConnectPhase::AwaitCancelCheck => ConnectActionView::CheckCancelled,
        ConnectPhase::AnnounceAttach => ConnectActionView::Report(
            s.targets[s.index as int] + " をUSB/IP接続しています"@,
        ),
        ConnectPhase::AwaitAttach => ConnectActionView::Attach(s.targets[s.index as int]),
        ConnectPhase::AwaitPollCancel => ConnectActionView::CheckCancelled,
        ConnectPhase::AwaitPort => ConnectActionView::QueryPort(s.targets[s.index as int]),
        ConnectPhase::AwaitPause => ConnectActionView::Pause,
        ConnectPhase::AwaitHeartbeat => ConnectActionView::Heartbeat,
        ConnectPhase::AwaitStops => ConnectActionView::StopAttach(s.stops),
        ConnectPhase::AwaitCleanup => ConnectActionView::Cleanup {
            stop_all: s.stop_all,
            detach: s.detach,
            release: s.targets,
        },
        ConnectPhase::AnnounceDone => ConnectActionView::Report("接続しました"@),
        _ => ConnectActionView::Finish(s.result->0),
    }
}

/// The first refusal among the devices, in order.
pub open spec fn first_refusal(ds: Seq<UsbDeviceView>) -> Option<ClientErrorView>
    decreases ds.len(),
{
    if ds.len() == 0 {
        None
    } else if refusal(ds[0]) is Some {
        refusal(ds[0])
    } else {
        first_refusal(ds.drop_first())
    }
}

/// The state a run starts in: with no devices, or with a device that may
/// not be attached, it is over at once; otherwise it asks for the session.
pub open spec fn connect_start(
    client_id: Seq<char>,
    dry_run: bool,
    ds: Seq<UsbDeviceView>,
) -> ConnectView {
    let s = ConnectView {
        client_id,
        dry_run,
        requested: ds,
        targets: Seq::empty(),
        ftdi: Seq::empty(),
        session: None,
        index: 0,
        polls: 0,
        phase: ConnectPhase::AwaitSession,
        failure: None,
        stops: Seq::empty(),
        detach: Seq::empty(),
        stop_all: false,
        result: None,
    };
    if ds.len() == 0 {
        connect_finished(s, Err(ClientErrorView::Config("接続対象デバイスがありません"@)))
    } else if first_refusal(ds) is Some {
        connect_finished(s, Err(first_refusal(ds)->0))
    } else {
        s
    }
}

/// A run of attaching a group of devices for one client: the devices are
/// checked against the policy, the ones not yet in the client's session
/// are acquired from the server, then attached one by one; a failure on
/// the way undoes what was done and gives the acquired devices back.
pub struct ConnectGroup {
    client_id: String,
    dry_run: bool,
    requested: Vec<UsbDevice>,
    targets: Vec<String>,
    ftdi: Vec<bool>,
    session: Option<Session>,
    index: usize,
    polls: usize,
    phase: ConnectPhase,
    failure: Option<ClientError>,
    stops: Vec<String>,
    detach: Vec<String>,
    stop_all: bool,
    result: Option<Result<Session, ClientError>>,
}

/// The view of an optional error.
pub open spec fn opt_error_view(e: Option<ClientError>) -> Option<ClientErrorView> {
    match e {
        Some(x) => Some(x@),
        None => None,
    }
}

/// The view of an optional outcome.
pub open spec fn opt_result_view(r: Option<Result<Session, ClientError>>) -> Option<
    Result<SessionView, ClientErrorView>,
> {
    match r {
        Some(x) => Some(session_result_view(x)),
        None => None,
    }
}

impl View for ConnectGroup {
    type V = ConnectView;

    closed spec fn view(&self) -> ConnectView {
        ConnectView {
            client_id: self.client_id@,
            dry_run: self.dry_run,
            requested: device_views(self.requested@),
            targets: views(self.targets@),
            ftdi: self.ftdi@,
            session: opt_session_view(self.session),
            index: self.index as nat,
            polls: self.polls as nat,
            phase: self.phase,
            failure: opt_error_view(self.failure),
            stops: views(self.stops@),
            detach: views(self.detach@),
            stop_all: self.stop_all,
            result: opt_result_view(self.result),
        }
    }
}

impl ConnectGroup {
    #[verifier::type_invariant]
    closed spec fn inv(&self) -> bool {
        connect_wf(self@)
    }

    /// Starts a run for `client_id` over `devices`; returns the run and the
    /// first action.
    pub fn start(client_id: &str, dry_run: bool, devices: &Vec<UsbDevice>) -> (r: (
        ConnectGroup,
        ConnectAction,
    ))
        ensures
            r.0@ == connect_start(client_id@, dry_run, device_views(devices@)),
            r.1@ == connect_pending(r.0@),
    {
        let mut refused: Option<ClientError> = None;
        let mut i: usize = 0;
        let ghost ds = device_views(devices@);
        proof {
            assert(ds.skip(0) =~= ds);
        }
        while i < devices.len()
            invariant
                i <= devices.len(),
                ds == device_views(devices@),
                refused is None ==> first_refusal(ds) == first_refusal(ds.skip(i as int)),
                refused is Some ==> first_refusal(ds) == opt_error_view(refused),
            decreases devices.len() - i,
        {
            if refused.is_none() {
                proof {
                    assert(ds.skip(i as int)[0] == ds[i as int]);
                    assert(ds.skip(i as int).drop_first() =~= ds.skip(i + 1));
                }
                match ensure_allowed(&devices[i]) {
                    Ok(()) => {},
                    Err(e) => {
                        refused = Some(e);
                    },
                }
            }
            i = i + 1;
        }
        proof {
            assert(ds.skip(0) =~= ds);
        }
        let mut run = ConnectGroup {
            client_id: owned(client_id),
            dry_run,
            requested: copy_devices(devices),
            targets: Vec::new(),
            ftdi: Vec::new(),
            session: None,
            index: 0,
            polls: 0,
            phase: ConnectPhase::AwaitSession,
            failure: None,
            stops: Vec::new(),
            detach: Vec::new(),
            stop_all: false,
            result: None,
        };
        proof {
            assert(views(run.targets@) =~= Seq::<Seq<char>>::empty());
            assert(views(run.stops@) =~= Seq::<Seq<char>>::empty());
            assert(views(run.detach@) =~= Seq::<Seq<char>>::empty());
            assert(run.ftdi@ =~= Seq::<bool>::empty());
        }
        if devices.len() == 0 {
            run = run.finish(Err(ClientError::Config(owned("接続対象デバイスがありません"))));
        } else if let Some(e) = refused {
            run = run.finish(Err(e));
        }
        let action = run.pending();
        (run, action)
    }

    /// The run over, with outcome `r`.
    fn finish(self, r: Result<Session, ClientError>) -> (n: ConnectGroup)
        ensures
            n@ == connect_finished(self@, session_result_view(r)),
    {
        proof {
            use_type_invariant(&self);
        }
        ConnectGroup { phase: ConnectPhase::Done, result: Some(r), ..self }
    }

    /// The action this run waits on.
    fn pending(&self) -> (a: ConnectAction)
        ensures
            a@ == connect_pending(self@),
    {
        proof {
            use_type_invariant(self);
        }
        match self.phase {
            ConnectPhase::AwaitSession => ConnectAction::QuerySession,
            ConnectPhase::AnnounceAcquire => ConnectAction::Report(
                owned("サーバーから利用権を取得しています"),
            ),
            ConnectPhase::AwaitAcquire => ConnectAction::Acquire(copy_strings(&self.targets)),
            ConnectPhase::AwaitCancelCheck => ConnectAction::CheckCancelled,
            ConnectPhase::AnnounceAttach => ConnectAction::Report(
                concat(self.targets[self.index].as_str(), " をUSB/IP接続しています"),
            ),
            ConnectPhase::AwaitAttach => ConnectAction::Attach(self.targets[self.index].clone()),
            ConnectPhase::AwaitPollCancel => ConnectAction::CheckCancelled,
            ConnectPhase::AwaitPort => ConnectAction::QueryPort(self.targets[self.index].clone()),
            ConnectPhase::AwaitPause => ConnectAction::Pause,
            ConnectPhase::AwaitHeartbeat => ConnectAction::Heartbeat,
            ConnectPhase::AwaitStops => ConnectAction::StopAttach(copy_strings(&self.stops)),
            ConnectPhase::AwaitCleanup => ConnectAction::Cleanup {
                stop_all: self.stop_all,
                detach: copy_strings(&self.detach),
                release: copy_strings(&self.targets),
            },
            ConnectPhase::AnnounceDone => ConnectAction::Report(owned("接続しました")),
            _ => {
                match &self.result {
                    Some(r) => ConnectAction::Finish(copy_session_result(r)),
                    None => ConnectAction::Finish(Err(ClientError::Cancelled)),
                }
            },
        }
    }
}

impl ConnectGroup {
    /// The run turning back after `err`.
    fn rollback(self, with_failed: bool, attached: usize, err: ClientError) -> (n: ConnectGroup)
        requires
            attached <= self@.targets.len(),
            with_failed ==> self@.index < self@.targets.len(),
            on_target(self@.phase),
        ensures
            n@ == connect_rollback(self@, with_failed, attached as nat, err@),
    {
        proof {
            use_type_invariant(&self);
        }
        let undone = reversed_prefix(&self.targets, attached);
        let mut stops: Vec<String> = Vec::new();
        if with_failed {
            stops.push(self.targets[self.index].clone());
        }
        let mut k: usize = 0;
        while k < undone.len()
            invariant
                k <= undone.len(),
                self.index < self.targets@.len() || !with_failed,
                views(stops@) =~= (if with_failed {
                    seq![self.targets@[self.index as int]@]
                } else {
                    Seq::<Seq<char>>::empty()
                }) + views(undone@).take(k as int),
            decreases undone.len() - k,
        {
            let ghost before = views(stops@);
            stops.push(undone[k].clone());
            proof {
                assert(views(stops@) =~= before.push(undone@[k as int]@));
                assert(views(undone@).take(k + 1) =~= views(undone@).take(k as int).push(
                    undone@[k as int]@,
                ));
            }
            k = k + 1;
        }
        proof {
            assert(views(undone@).take(undone.len() as int) =~= views(undone@));
        }
        ConnectGroup {
            phase: ConnectPhase::AwaitStops,
            failure: Some(err),
            stops,
            detach: undone,
            ..self
        }
    }

    /// The run after the server reported the session `existing`.
    fn after_session(self, existing: Option<Session>) -> (n: ConnectGroup)
        requires
            self@.phase == ConnectPhase::AwaitSession,
        ensures
            n@ == connect_after_session(self@, opt_session_view(existing)),
    {
        proof {
            use_type_invariant(&self);
        }
        if let Some(x) = &existing {
            if x.client_id != self.client_id {
                let owner = x.client_id.clone();
                return self.finish(Err(ClientError::SessionOwnedByOther(owner)));
            }
        }
        let have: Vec<String> = match &existing {
            Some(x) => copy_strings(&x.devices),
            None => Vec::new(),
        };
        proof {
            if existing is None {
                assert(views(have@) =~= Seq::<Seq<char>>::empty());
            }
        }
        let (targets, ftdi) = missing_targets(&self.requested, &have);
        proof {
            let m = missing(self@.requested, views(have@));
            assert(views(targets@).len() == m.len());
            assert(ftdi@.len() == m.len());
        }
        if targets.len() == 0 {
            return match existing {
                Some(x) => self.finish(Ok(x)),
                None => self.finish(Err(ClientError::SessionAlreadyExists)),
            };
        }
        assert(views(targets@).len() == targets@.len());
        assert(targets@.len() == ftdi@.len());
        assert(self.index == 0);
        ConnectGroup { targets, ftdi, phase: ConnectPhase::AnnounceAcquire, ..self }
    }

    /// Takes what came of the pending action; returns the run and the next
    /// action.
    pub fn step(self, event: ConnectEvent) -> (r: (ConnectGroup, ConnectAction))
        ensures
            r.0@ == connect_next(self@, event@),
            r.1@ == connect_pending(r.0@),
    {
        proof {
            use_type_invariant(&self);
        }
        let ghost s = self@;
        let next = match (self.phase, event) {
            (ConnectPhase::AwaitSession, ConnectEvent::SessionLoaded(Err(err))) => self.finish(
                Err(err),
            ),
            (ConnectPhase::AwaitSession, ConnectEvent::SessionLoaded(Ok(existing))) => {
                self.after_session(existing)
            },
            (ConnectPhase::AnnounceAcquire, ConnectEvent::Proceed) => ConnectGroup {
                phase: ConnectPhase::AwaitAcquire,
                ..self
            },
            (ConnectPhase::AwaitAcquire, ConnectEvent::Acquired(Err(err))) => self.finish(
                Err(err),
            ),
            (ConnectPhase::AwaitAcquire, ConnectEvent::Acquired(Ok(x))) => ConnectGroup {
                session: Some(x),
                index: 0,
                phase: ConnectPhase::AwaitCancelCheck,
                ..self
            },
            (ConnectPhase::AwaitCancelCheck, ConnectEvent::CancelState(true)) => {
                let i = self.index;
                self.rollback(true, i, ClientError::Cancelled)
            },
            (ConnectPhase::AwaitCancelCheck, ConnectEvent::CancelState(false)) => ConnectGroup {
                phase: ConnectPhase::AnnounceAttach,
                ..self
            },
            (ConnectPhase::AnnounceAttach, ConnectEvent::Proceed) => ConnectGroup {
                phase: ConnectPhase::AwaitAttach,
                ..self
            },
            (ConnectPhase::AwaitAttach, ConnectEvent::AttachDone(Err(err))) => {
                let i = self.index;
                self.rollback(true, i, err)
            },
            (ConnectPhase::AwaitAttach, ConnectEvent::AttachDone(Ok(()))) => {
                if self.dry_run {
                    ConnectGroup { phase: ConnectPhase::AwaitHeartbeat, ..self }
                } else {
                    ConnectGroup { phase: ConnectPhase::AwaitPollCancel, polls: 0, ..self }
                }
            },
            (ConnectPhase::AwaitPollCancel, ConnectEvent::CancelState(true)) => {
                let i = self.index;
                self.rollback(true, i, ClientError::Cancelled)
            },
            (ConnectPhase::AwaitPollCancel, ConnectEvent::CancelState(false)) => ConnectGroup {
                phase: ConnectPhase::AwaitPort,
                ..self
            },
            (ConnectPhase::AwaitPort, ConnectEvent::PortFound(Err(err))) => {
                let i = self.index;
                self.rollback(true, i, err)
            },
            (ConnectPhase::AwaitPort, ConnectEvent::PortFound(Ok(found))) => {
                if found {
                    ConnectGroup { phase: ConnectPhase::AwaitHeartbeat, ..self }
                } else {
                    ConnectGroup { phase: ConnectPhase::AwaitPause, ..self }
                }
            },
            (ConnectPhase::AwaitPause, ConnectEvent::Proceed) => {
                if self.polls + 1 >= PORT_POLLS {
                    let i = self.index;
                    let bus = self.targets[i].clone();
                    let err = if self.ftdi[i] {
                        ClientError::FtdiCompatibility(bus)
                    } else {
                        ClientError::UsbipPortNotFound(bus)
                    };
                    self.rollback(true, i, err)
                } else {
                    let p = self.polls + 1;
                    ConnectGroup { phase: ConnectPhase::AwaitPollCancel, polls: p, ..self }
                }
            },
            (ConnectPhase::AwaitHeartbeat, ConnectEvent::HeartbeatDone(Err(err))) => {
                assert(self.index < self.targets.len());
                let i = self.index;
                self.rollback(false, i + 1, err)
            },
            (ConnectPhase::AwaitHeartbeat, ConnectEvent::HeartbeatDone(Ok(()))) => {
                assert(self.index < self.targets.len());
                let i = self.index + 1;
                if i == self.targets.len() {
                    ConnectGroup { phase: ConnectPhase::AnnounceDone, index: i, ..self }
                } else {
                    ConnectGroup { phase: ConnectPhase::AwaitCancelCheck, index: i, ..self }
                }
            },
            (ConnectPhase::AwaitStops, ConnectEvent::StopsDone(ok)) => ConnectGroup {
                phase: ConnectPhase::AwaitCleanup,
                stop_all: !ok,
                ..self
            },
            (ConnectPhase::AwaitCleanup, ConnectEvent::Proceed) => {
                let err = match &self.failure {
                    Some(e) => copy_error(e),
                    None => ClientError::Cancelled,
                };
                self.finish(Err(err))
            },
            (ConnectPhase::AnnounceDone, ConnectEvent::Proceed) => {
                let done = match &self.session {
                    Some(x) => Ok(copy_session(x)),
                    None => Err(ClientError::Cancelled),
                };
                self.finish(done)
            },
            (_, _) => self,
        };
        let action = next.pending();
        (next, action)
    }
}

/// A copy of a vector of devices.
pub fn copy_devices(v: &Vec<UsbDevice>) -> (r: Vec<UsbDevice>)
    ensures
        device_views(r@) == device_views(v@),
{
    let mut r: Vec<UsbDevice> = Vec::new();
    let mut i: usize = 0;
    while i < v.len()
        invariant
            i <= v.len(),
            device_views(r@) =~= device_views(v@).take(i as int),
        decreases v.len() - i,
    {
        let ghost before = device_views(r@);
        r.push(crate::protocol::copy_device(&v[i]));
        proof {
            assert(device_views(r@) =~= before.push(v@[i as int]@));
            assert(device_views(v@).take(i + 1) =~= device_views(v@).take(i as int).push(
                v@[i as int]@,
            ));
        }
        i = i + 1;
    }
    r
}

} // verus!

verus! {

/// The strings of `xs` that are not in `ys`, in order.
pub open spec fn without(xs: Seq<Seq<char>>, ys: Seq<Seq<char>>) -> Seq<Seq<char>>
    decreases xs.len(),
{
    if xs.len() == 0 {
        Seq::empty()
    } else if ys.contains(xs.last()) {
        without(xs.drop_last(), ys)
    } else {
        without(xs.drop_last(), ys).push(xs.last())
    }
}

/// The strings of `xs` that are not in `ys`.
pub fn strings_without(xs: &Vec<String>, ys: &Vec<String>) -> (r: Vec<String>)
    ensures
        views(r@) == without(views(xs@), views(ys@)),
{
    let ghost xv = views(xs@);
    let mut r: Vec<String> = Vec::new();
    let mut i: usize = 0;
    while i < xs.len()
        invariant
            i <= xs.len(),
            xv == views(xs@),
            views(r@) == without(xv.take(i as int), views(ys@)),
        decreases xs.len() - i,
    {
        proof {
            assert(xv.take(i + 1).drop_last() =~= xv.take(i as int));
            assert(xv.take(i + 1).last() == xs@[i as int]@);
        }
        if !contains_string(ys, xs[i].as_str()) {
            let ghost before = views(r@);
            r.push(xs[i].clone());
            assert(views(r@) =~= before.push(xs@[i as int]@));
        }
        i = i + 1;
    }
    assert(xv.take(xs.len() as int) =~= xv);
    r
}

/// Where a disconnection run stands.
#[derive(Clone, Copy, Debug, PartialEq, Eq, Structural)]
pub enum DisconnectPhase {
    AwaitOwnedSession,
    AwaitSession,
    AwaitStops,
    AwaitStopAll,
    AnnounceDetach,
    AwaitDetach,
    AnnounceRelease,
    AwaitRelease,
    AwaitCheck,
    AnnounceRestore,
    AwaitReattach,
    AwaitRestorePort,
    AwaitRestorePause,
    Done,
}

/// What the caller of a disconnection run is asked to do next.
#[derive(Debug)]
pub enum DisconnectAction {
    /// Ask the server for the current session.
    QuerySession,
    /// Stop the attach attempts of these bus IDs, in order.
    StopAttach(Vec<String>),
    /// Stop every attach attempt; the outcome is ignored.
    StopAll,
    /// Show a progress message.
    Report(String),
    /// Detach this bus ID with usbip.
    Detach(String),
    /// Give these bus IDs back to the server.
    Release(Vec<String>),
    /// Ask usbip whether this bus ID has a port.
    QueryPort(String),
    /// Attach this bus ID with usbip.
    Attach(String),
    /// Wait half a second.
    Pause,
    /// The run is over, with this outcome.
    Finish(Result<(), ClientError>),
}

/// What came of the last action of a disconnection run.
#[derive(Debug)]
pub enum DisconnectEvent {
    /// A report, pause or stop-all is done.
    Proceed,
    /// The answer to `QuerySession`.
    SessionLoaded(Result<Option<Session>, ClientError>),
    /// The answer to `StopAttach`: whether every stop succeeded.
    StopsDone(bool),
    /// The answer to `Detach`.
    DetachDone(Result<(), ClientError>),
    /// The answer to `Release`.
    Released(Result<(), ClientError>),
    /// The answer to `QueryPort`: whether a port was found.
    PortFound(Result<bool, ClientError>),
    /// The answer to `Attach`.
    AttachDone(Result<(), ClientError>),
}

/// A disconnection action as values.
pub enum DisconnectActionView {
    QuerySession,
    StopAttach(Seq<Seq<char>>),
    StopAll,
    Report(Seq<char>),
    Detach(Seq<char>),
    Release(Seq<Seq<char>>),
    QueryPort(Seq<char>),
    Attach(Seq<char>),
    Pause,
    Finish(Result<(), ClientErrorView>),
}

impl View for DisconnectAction {
    type V = DisconnectActionView;

    open spec fn view(&self) -> DisconnectActionView {
        match self {
            DisconnectAction::QuerySession => DisconnectActionView::QuerySession,
            DisconnectAction::StopAttach(v) => DisconnectActionView::StopAttach(views(v@)),
            DisconnectAction::StopAll => DisconnectActionView::StopAll,
            DisconnectAction::Report(m) => DisconnectActionView::Report(m@),
            DisconnectAction::Detach(b) => DisconnectActionView::Detach(b@),
            DisconnectAction::Release(v) => DisconnectActionView::Release(views(v@)),
            DisconnectAction::QueryPort(b) => DisconnectActionView::QueryPort(b@),
            DisconnectAction::Attach(b) => DisconnectActionView::Attach(b@),
            DisconnectAction::Pause => DisconnectActionView::Pause,
            DisconnectAction::Finish(r) => DisconnectActionView::Finish(unit_result_view(*r)),
        }
    }
}

/// A disconnection event as values.
pub enum DisconnectEventView {
    Proceed,
    SessionLoaded(Result<Option<SessionView>, ClientErrorView>),
    StopsDone(bool),
    DetachDone(Result<(), ClientErrorView>),
    Released(Result<(), ClientErrorView>),
    PortFound(Result<bool, ClientErrorView>),
    AttachDone(Result<(), ClientErrorView>),
}

impl View for DisconnectEvent {
    type V = DisconnectEventView;

    open spec fn view(&self) -> DisconnectEventView {
        match self {
            DisconnectEvent::Proceed => DisconnectEventView::Proceed,
            DisconnectEvent::SessionLoaded(r) => DisconnectEventView::SessionLoaded(loaded_view(*r)),
            DisconnectEvent::StopsDone(b) => DisconnectEventView::StopsDone(*b),
            DisconnectEvent::DetachDone(r) => DisconnectEventView::DetachDone(unit_result_view(*r)),
            DisconnectEvent::Released(r) => DisconnectEventView::Released(unit_result_view(*r)),
            DisconnectEvent::PortFound(r) => DisconnectEventView::PortFound(bool_result_view(*r)),
            DisconnectEvent::AttachDone(r) => DisconnectEventView::AttachDone(unit_result_view(*r)),
        }
    }
}

/// A disconnection run as values.
pub struct DisconnectView {
    pub client_id: Seq<char>,
    pub dry_run: bool,
    pub devices: Seq<Seq<char>>,
    pub remaining: Seq<Seq<char>>,
    pub index: nat,
    pub polls: nat,
    pub phase: DisconnectPhase,
    pub errors: Seq<Seq<char>>,
    pub result: Option<Result<(), ClientErrorView>>,
}

/// Whether the phase works on the detached device at `index`.
pub open spec fn on_detached(p: DisconnectPhase) -> bool {
    p == DisconnectPhase::AnnounceDetach || p == DisconnectPhase::AwaitDetach
}

/// Whether the phase works on the remaining device at `index`.
pub open spec fn on_remaining(p: DisconnectPhase) -> bool {
    p == DisconnectPhase::AwaitCheck || p == DisconnectPhase::AnnounceRestore || p
        == DisconnectPhase::AwaitReattach || p == DisconnectPhase::AwaitRestorePort || p
        == DisconnectPhase::AwaitRestorePause
}

/// The consistency of a disconnection run's state.
pub open spec fn disconnect_wf(v: DisconnectView) -> bool {
    &&& v.polls < PORT_POLLS
    &&& on_detached(v.phase) ==> v.index < v.devices.len()
    &&& on_remaining(v.phase) ==> v.index < v.remaining.len()
    &&& v.phase == DisconnectPhase::Done ==> v.result is Some
}

/// The run over, with outcome `r`.
pub open spec fn disconnect_finished(s: DisconnectView, r: Result<(), ClientErrorView>) -> DisconnectView {
    DisconnectView { phase: DisconnectPhase::Done, result: Some(r), ..s }
}

/// The run over once every remaining device was looked at: the errors
/// met on the way, joined with ` / `, or success when there were none.
pub open spec fn disconnect_summary(s: DisconnectView) -> DisconnectView {
    if s.errors.len() == 0 {
        disconnect_finished(s, Ok(()))
    } else {
        disconnect_finished(s, Err(ClientErrorView::Disconnect(join_with(s.errors, " / "@))))
    }
}

/// The run moving on to the remaining device after `index`.
pub open spec fn disconnect_next_remaining(s: DisconnectView) -> DisconnectView {
    if s.index + 1 < s.remaining.len() {
        DisconnectView { phase: DisconnectPhase::AwaitCheck, index: s.index + 1, polls: 0, ..s }
    } else {
        disconnect_summary(s)
    }
}

/// The run starting to detach, or going straight to the release when
/// there is nothing to detach.
pub open spec fn disconnect_begin_detach(s: DisconnectView) -> DisconnectView {
    if s.devices.len() > 0 {
        DisconnectView { phase: DisconnectPhase::AnnounceDetach, index: 0, ..s }
    } else {
        DisconnectView { phase: DisconnectPhase::AnnounceRelease, index: 0, ..s }
    }
}

/// The message kept for a failed detach: none for a device without a
/// port, the error's text otherwise.
pub open spec fn detach_note(r: Result<(), ClientErrorView>) -> Seq<Seq<char>> {
    match r {
        Ok(()) => Seq::empty(),
        Err(ClientErrorView::UsbipPortNotFound(_)) => Seq::empty(),
        Err(e) => seq![error_view_text(e)],
    }
}

/// The state that follows `s` on event `e`; an event that does not answer
/// the pending action leaves the state as it is.
pub open spec fn disconnect_next(s: DisconnectView, e: DisconnectEventView) -> DisconnectView {
    match s.phase {
        DisconnectPhase::AwaitOwnedSession => match e {
            DisconnectEventView::SessionLoaded(Err(err)) => disconnect_finished(s, Err(err)),
            DisconnectEventView::SessionLoaded(Ok(None)) => disconnect_finished(s, Ok(())),
            DisconnectEventView::SessionLoaded(Ok(Some(x))) => if x.client_id != s.client_id {
                disconnect_finished(s, Err(ClientErrorView::SessionOwnedByOther(x.client_id)))
            } else {
                DisconnectView { phase: DisconnectPhase::AwaitSession, devices: x.devices, ..s }
            },
            _ => s,
        },
        DisconnectPhase::AwaitSession => match e {
            DisconnectEventView::SessionLoaded(Err(err)) => disconnect_finished(s, Err(err)),
            DisconnectEventView::SessionLoaded(Ok(existing)) => if existing is Some
                && existing->0.client_id != s.client_id {
                disconnect_finished(
                    s,
                    Err(ClientErrorView::SessionOwnedByOther(existing->0.client_id)),
                )
            } else {
                DisconnectView {
                    phase: DisconnectPhase::AwaitStops,
                    remaining: match existing {
                        Some(x) => without(x.devices, s.devices),
                        None => Seq::empty(),
                    },
                    ..s
                }
            },
            _ => s,
        },
        DisconnectPhase::AwaitStops => match e {
            DisconnectEventView::StopsDone(ok) => if ok {
                disconnect_begin_detach(s)
            } else {
                DisconnectView { phase: DisconnectPhase::AwaitStopAll, ..s }
            },
            _ => s,
        },
        DisconnectPhase::AwaitStopAll => match e {
            DisconnectEventView::Proceed => disconnect_begin_detach(s),
            _ => s,
        },
        DisconnectPhase::AnnounceDetach => match e {
            DisconnectEventView::Proceed => DisconnectView {
                phase: DisconnectPhase::AwaitDetach,
                ..s
            },
            _ => s,
        },
        DisconnectPhase::AwaitDetach => match e {
            DisconnectEventView::DetachDone(r) => {
                let t = DisconnectView { errors: s.errors + detach_note(r), ..s };
                if s.index + 1 < s.devices.len() {
                    DisconnectView { phase: DisconnectPhase::AnnounceDetach, index: s.index + 1, ..t }
                } else {
                    DisconnectView { phase: DisconnectPhase::AnnounceRelease, index: 0, ..t }
                }
            },
            _ => s,
        },
        DisconnectPhase::AnnounceRelease => match e {
            DisconnectEventView::Proceed => DisconnectView {
                phase: DisconnectPhase::AwaitRelease,
                ..s
            },
            _ => s,
        },
        DisconnectPhase::AwaitRelease => match e {
            DisconnectEventView::Released(Err(err)) => disconnect_finished(s, Err(err)),
            DisconnectEventView::Released(Ok(())) => if s.remaining.len() > 0 {
                DisconnectView { phase: DisconnectPhase::AwaitCheck, index: 0, polls: 0, ..s }
            } else {
                disconnect_summary(s)
            },
            _ => s,
        },
        DisconnectPhase::AwaitCheck => match e {
            DisconnectEventView::PortFound(Ok(true)) => disconnect_next_remaining(s),
            DisconnectEventView::PortFound(Ok(false)) => DisconnectView {
                phase: DisconnectPhase::AnnounceRestore,
                ..s
            },
            DisconnectEventView::PortFound(Err(err)) => disconnect_next_remaining(
                DisconnectView {
                    errors: s.errors.push(
                        s.remaining[s.index as int] + " の接続確認に失敗: "@ + error_view_text(err),
                    ),
                    ..s
                },
            ),
            _ => s,
        },
        DisconnectPhase::AnnounceRestore => match e {
            DisconnectEventView::Proceed => DisconnectView {
                phase: DisconnectPhase::AwaitReattach,
                ..s
            },
            _ => s,
        },
        DisconnectPhase::AwaitReattach => match e {
            DisconnectEventView::AttachDone(Err(err)) => disconnect_next_remaining(
                DisconnectView {
                    errors: s.errors.push(
                        s.remaining[s.index as int] + " の再接続に失敗: "@ + error_view_text(err),
                    ),
                    ..s
                },
            ),
            DisconnectEventView::AttachDone(Ok(())) => if s.dry_run {
                disconnect_next_remaining(s)
            } else {
                DisconnectView { phase: DisconnectPhase::AwaitRestorePort, polls: 0, ..s }
            },
            _ => s,
        },
        DisconnectPhase::AwaitRestorePort => match e {
            DisconnectEventView::PortFound(Err(err)) => disconnect_finished(s, Err(err)),
            DisconnectEventView::PortFound(Ok(true)) => disconnect_next_remaining(s),
            DisconnectEventView::PortFound(Ok(false)) => DisconnectView {
                phase: DisconnectPhase::AwaitRestorePause,
                ..s
            },
            _ => s,
        },
        DisconnectPhase::AwaitRestorePause => match e {
            DisconnectEventView::Proceed => if s.polls + 1 >= PORT_POLLS {
                disconnect_next_remaining(
                    DisconnectView {
                        errors: s.errors.push(
                            s.remaining[s.index as int] + " の再接続ポートを確認できません"@,
                        ),
                        ..s
                    },
                )
            } else {
                DisconnectView {
                    phase: DisconnectPhase::AwaitRestorePort,
                    polls: s.polls + 1,
                    ..s
                }
            },
            _ => s,
        },
        DisconnectPhase::Done => s,
    }
}

/// The action that a disconnection run in state `s` waits on.
pub open spec fn disconnect_pending(s: DisconnectView) -> DisconnectActionView {
    match s.phase {
        DisconnectPhase::AwaitOwnedSession => DisconnectActionView::QuerySession,
        DisconnectPhase::AwaitSession => DisconnectActionView::QuerySession,
        DisconnectPhase::AwaitStops => DisconnectActionView::StopAttach(s.devices),
        DisconnectPhase::AwaitStopAll => DisconnectActionView::StopAll,
        DisconnectPhase::AnnounceDetach => DisconnectActionView::Report(
            s.devices[s.index as int] + " を切断しています"@,
        ),
        DisconnectPhase::AwaitDetach => DisconnectActionView::Detach(s.devices[s.index as int]),
        DisconnectPhase::AnnounceRelease => DisconnectActionView::Report(
            "サーバーの利用権を解放しています"@,
        ),
        DisconnectPhase::AwaitRelease => DisconnectActionView::Release(s.devices),
        DisconnectPhase::AwaitCheck => DisconnectActionView::QueryPort(
            s.remaining[s.index as int],
        ),
        DisconnectPhase::AnnounceRestore => DisconnectActionView::Report(
            s.remaining[s.index as int] + " のUSB/IP接続が失われたため復元しています"@,
        ),
        DisconnectPhase::AwaitReattach => DisconnectActionView::Attach(
            s.remaining[s.index as int],
        ),
        DisconnectPhase::AwaitRestorePort => DisconnectActionView::QueryPort(
            s.remaining[s.index as int],
        ),
        DisconnectPhase::AwaitRestorePause => DisconnectActionView::Pause,
        DisconnectPhase::Done => DisconnectActionView::Finish(s.result->0),
    }
}

/// The state a disconnection run starts in.
pub open spec fn disconnect_start(
    client_id: Seq<char>,
    dry_run: bool,
    devices: Seq<Seq<char>>,
    owned: bool,
) -> DisconnectView {
    DisconnectView {
        client_id,
        dry_run,
        devices: if owned {
            Seq::empty()
        } else {
            devices
        },
        remaining: Seq::empty(),
        index: 0,
        polls: 0,
        phase: if owned {
            DisconnectPhase::AwaitOwnedSession
        } else {
            DisconnectPhase::AwaitSession
        },
        errors: Seq::empty(),
        result: None,
    }
}

} // verus!

verus! {

/// A run of detaching a group of devices: the attach attempts are stopped,
/// the devices detached and given back to the server, and the client's
/// other devices, which usbip-win2 may have dropped on the way, are
/// attached again.
pub struct DisconnectGroup {
    client_id: String,
    dry_run: bool,
    devices: Vec<String>,
    remaining: Vec<String>,
    index: usize,
    polls: usize,
    phase: DisconnectPhase,
    errors: Vec<String>,
    result: Option<Result<(), ClientError>>,
}

/// The view of an optional outcome without a value.
pub open spec fn opt_unit_result_view(r: Option<Result<(), ClientError>>) -> Option<
    Result<(), ClientErrorView>,
> {
    match r {
        Some(x) => Some(unit_result_view(x)),
        None => None,
    }
}

impl View for DisconnectGroup {
    type V = DisconnectView;

    closed spec fn view(&self) -> DisconnectView {
        DisconnectView {
            client_id: self.client_id@,
            dry_run: self.dry_run,
            devices: views(self.devices@),
            remaining: views(self.remaining@),
            index: self.index as nat,
            polls: self.polls as nat,
            phase: self.phase,
            errors: views(self.errors@),
            result: opt_unit_result_view(self.result),
        }
    }
}

impl DisconnectGroup {
    #[verifier::type_invariant]
    closed spec fn inv(&self) -> bool {
        disconnect_wf(self@)
    }

    /// Starts a run that detaches `devices` for `client_id`; returns the run
    /// and the first action.
    pub fn start(client_id: &str, dry_run: bool, devices: &Vec<String>) -> (r: (
        DisconnectGroup,
        DisconnectAction,
    ))
        ensures
            r.0@ == disconnect_start(client_id@, dry_run, views(devices@), false),
            r.1@ == disconnect_pending(r.0@),
    {
        let run = DisconnectGroup {
            client_id: owned(client_id),
            dry_run,
            devices: copy_strings(devices),
            remaining: Vec::new(),
            index: 0,
            polls: 0,
            phase: DisconnectPhase::AwaitSession,
            errors: Vec::new(),
            result: None,
        };
        assert(views(run.remaining@) =~= Seq::<Seq<char>>::empty());
        assert(views(run.errors@) =~= Seq::<Seq<char>>::empty());
        let action = run.pending();
        (run, action)
    }

    /// Starts a run that detaches every device of the client's current
    /// session (for a clean shutdown); returns the run and the first action.
    pub fn start_owned(client_id: &str, dry_run: bool) -> (r: (DisconnectGroup, DisconnectAction))
        ensures
            r.0@ == disconnect_start(client_id@, dry_run, Seq::empty(), true),
            r.1@ == disconnect_pending(r.0@),
    {
        let run = DisconnectGroup {
            client_id: owned(client_id),
            dry_run,
            devices: Vec::new(),
            remaining: Vec::new(),
            index: 0,
            polls: 0,
            phase: DisconnectPhase::AwaitOwnedSession,
            errors: Vec::new(),
            result: None,
        };
        assert(views(run.devices@) =~= Seq::<Seq<char>>::empty());
        assert(views(run.remaining@) =~= Seq::<Seq<char>>::empty());
        assert(views(run.errors@) =~= Seq::<Seq<char>>::empty());
        let action = run.pending();
        (run, action)
    }

    fn finish(self, r: Result<(), ClientError>) -> (n: DisconnectGroup)
        ensures
            n@ == disconnect_finished(self@, unit_result_view(r)),
    {
        proof {
            use_type_invariant(&self);
        }
        DisconnectGroup { phase: DisconnectPhase::Done, result: Some(r), ..self }
    }

    fn summary(self) -> (n: DisconnectGroup)
        ensures
            n@ == disconnect_summary(self@),
    {
        if self.errors.len() == 0 {
            self.finish(Ok(()))
        } else {
            let text = join(&self.errors, " / ");
            self.finish(Err(ClientError::Disconnect(text)))
        }
    }

    fn next_remaining(self) -> (n: DisconnectGroup)
        ensures
            n@ == disconnect_next_remaining(self@),
    {
        proof {
            use_type_invariant(&self);
        }
        if self.index < self.remaining.len() && self.index + 1 < self.remaining.len() {
            let i = self.index + 1;
            DisconnectGroup { phase: DisconnectPhase::AwaitCheck, index: i, polls: 0, ..self }
        } else {
            self.summary()
        }
    }

    fn begin_detach(self) -> (n: DisconnectGroup)
        ensures
            n@ == disconnect_begin_detach(self@),
    {
        proof {
            use_type_invariant(&self);
        }
        if self.devices.len() > 0 {
            DisconnectGroup { phase: DisconnectPhase::AnnounceDetach, index: 0, ..self }
        } else {
            DisconnectGroup { phase: DisconnectPhase::AnnounceRelease, index: 0, ..self }
        }
    }

    fn note(self, text: String) -> (n: DisconnectGroup)
        ensures
            n@ == (DisconnectView { errors: self@.errors.push(text@), ..self@ }),
    {
        proof {
            use_type_invariant(&self);
        }
        let mut errors = self.errors;
        let ghost before = views(errors@);
        errors.push(text);
        assert(views(errors@) =~= before.push(text@));
        DisconnectGroup { errors, ..self }
    }

    fn pending(&self) -> (a: DisconnectAction)
        ensures
            a@ == disconnect_pending(self@),
    {
        proof {
            use_type_invariant(self);
        }
        match self.phase {
            DisconnectPhase::AwaitOwnedSession => DisconnectAction::QuerySession,
            DisconnectPhase::AwaitSession => DisconnectAction::QuerySession,
            DisconnectPhase::AwaitStops => DisconnectAction::StopAttach(copy_strings(&self.devices)),
            DisconnectPhase::AwaitStopAll => DisconnectAction::StopAll,
            DisconnectPhase::AnnounceDetach => DisconnectAction::Report(
                concat(self.devices[self.index].as_str(), " を切断しています"),
            ),
            DisconnectPhase::AwaitDetach => DisconnectAction::Detach(
                self.devices[self.index].clone(),
            ),
            DisconnectPhase::AnnounceRelease => DisconnectAction::Report(
                owned("サーバーの利用権を解放しています"),
            ),
            DisconnectPhase::AwaitRelease => DisconnectAction::Release(copy_strings(&self.devices)),
            DisconnectPhase::AwaitCheck => DisconnectAction::QueryPort(
                self.remaining[self.index].clone(),
            ),
            DisconnectPhase::AnnounceRestore => DisconnectAction::Report(
                concat(
                    self.remaining[self.index].as_str(),
                    " のUSB/IP接続が失われたため復元しています",
                ),
            ),
            DisconnectPhase::AwaitReattach => DisconnectAction::Attach(
                self.remaining[self.index].clone(),
            ),
            DisconnectPhase::AwaitRestorePort => DisconnectAction::QueryPort(
                self.remaining[self.index].clone(),
            ),
            DisconnectPhase::AwaitRestorePause => DisconnectAction::Pause,
            DisconnectPhase::Done => match &self.result {
                Some(Ok(())) => DisconnectAction::Finish(Ok(())),
                Some(Err(e)) => DisconnectAction::Finish(Err(copy_error(e))),
                None => DisconnectAction::Finish(Ok(())),
            },
        }
    }

    /// Takes what came of the pending action; returns the run and the next
    /// action.
    pub fn step(self, event: DisconnectEvent) -> (r: (DisconnectGroup, DisconnectAction))
        ensures
            r.0@ == disconnect_next(self@, event@),
            r.1@ == disconnect_pending(r.0@),
    {
        proof {
            use_type_invariant(&self);
        }
        let next = match (self.phase, event) {
            (DisconnectPhase::AwaitOwnedSession, DisconnectEvent::SessionLoaded(Err(err))) => {
                self.finish(Err(err))
            },
            (DisconnectPhase::AwaitOwnedSession, DisconnectEvent::SessionLoaded(Ok(None))) => {
                self.finish(Ok(()))
            },
            (DisconnectPhase::AwaitOwnedSession, DisconnectEvent::SessionLoaded(Ok(Some(x)))) => {
                if x.client_id != self.client_id {
                    self.finish(Err(ClientError::SessionOwnedByOther(x.client_id)))
                } else {
                    DisconnectGroup {
                        phase: DisconnectPhase::AwaitSession,
                        devices: x.devices,
                        ..self
                    }
                }
            },
            (DisconnectPhase::AwaitSession, DisconnectEvent::SessionLoaded(Err(err))) => {
                self.finish(Err(err))
            },
            (DisconnectPhase::AwaitSession, DisconnectEvent::SessionLoaded(Ok(existing))) => {
                match existing {
                    Some(x) => {
                        if x.client_id != self.client_id {
                            self.finish(Err(ClientError::SessionOwnedByOther(x.client_id)))
                        } else {
                            let remaining = strings_without(&x.devices, &self.devices);
                            DisconnectGroup {
                                phase: DisconnectPhase::AwaitStops,
                                remaining,
                                ..self
                            }
                        }
                    },
                    None => {
                        let remaining: Vec<String> = Vec::new();
                        assert(views(remaining@) =~= Seq::<Seq<char>>::empty());
                        DisconnectGroup { phase: DisconnectPhase::AwaitStops, remaining, ..self }
                    },
                }
            },
            (DisconnectPhase::AwaitStops, DisconnectEvent::StopsDone(ok)) => {
                if ok {
                    self.begin_detach()
                } else {
                    DisconnectGroup { phase: DisconnectPhase::AwaitStopAll, ..self }
                }
            },
            (DisconnectPhase::AwaitStopAll, DisconnectEvent::Proceed) => self.begin_detach(),
            (DisconnectPhase::AnnounceDetach, DisconnectEvent::Proceed) => DisconnectGroup {
                phase: DisconnectPhase::AwaitDetach,
                ..self
            },
            (DisconnectPhase::AwaitDetach, DisconnectEvent::DetachDone(r)) => {
                let ghost before = self@.errors;
                let ghost note = detach_note(unit_result_view(r));
                let noted = match r {
                    Ok(()) => self,
                    Err(ClientError::UsbipPortNotFound(_)) => self,
                    Err(e) => {
                        let text = e.message();
                        self.note(text)
                    },
                };
                proof {
                    use_type_invariant(&noted);
                    assert(noted@.errors =~= before + note);
                }
                if noted.index < noted.devices.len() && noted.index + 1 < noted.devices.len() {
                    let i = noted.index + 1;
                    DisconnectGroup { phase: DisconnectPhase::AnnounceDetach, index: i, ..noted }
                } else {
                    DisconnectGroup { phase: DisconnectPhase::AnnounceRelease, index: 0, ..noted }
                }
            },
            (DisconnectPhase::AnnounceRelease, DisconnectEvent::Proceed) => DisconnectGroup {
                phase: DisconnectPhase::AwaitRelease,
                ..self
            },
            (DisconnectPhase::AwaitRelease, DisconnectEvent::Released(Err(err))) => {
                self.finish(Err(err))
            },
            (DisconnectPhase::AwaitRelease, DisconnectEvent::Released(Ok(()))) => {
                if self.remaining.len() > 0 {
                    DisconnectGroup {
                        phase: DisconnectPhase::AwaitCheck,
                        index: 0,
                        polls: 0,
                        ..self
                    }
                } else {
                    self.summary()
                }
            },
            (DisconnectPhase::AwaitCheck, DisconnectEvent::PortFound(Ok(true))) => {
                self.next_remaining()
            },
            (DisconnectPhase::AwaitCheck, DisconnectEvent::PortFound(Ok(false))) => {
                DisconnectGroup { phase: DisconnectPhase::AnnounceRestore, ..self }
            },
            (DisconnectPhase::AwaitCheck, DisconnectEvent::PortFound(Err(err))) => {
                let mut text = concat(self.remaining[self.index].as_str(), " の接続確認に失敗: ");
                let m = err.message();
                text.append(m.as_str());
                self.note(text).next_remaining()
            },
            (DisconnectPhase::AnnounceRestore, DisconnectEvent::Proceed) => DisconnectGroup {
                phase: DisconnectPhase::AwaitReattach,
                ..self
            },
            (DisconnectPhase::AwaitReattach, DisconnectEvent::AttachDone(Err(err))) => {
                let mut text = concat(self.remaining[self.index].as_str(), " の再接続に失敗: ");
                let m = err.message();
                text.append(m.as_str());
                self.note(text).next_remaining()
            },
            (DisconnectPhase::AwaitReattach, DisconnectEvent::AttachDone(Ok(()))) => {
                if self.dry_run {
                    self.next_remaining()
                } else {
                    DisconnectGroup { phase: DisconnectPhase::AwaitRestorePort, polls: 0, ..self }
                }
            },
            (DisconnectPhase::AwaitRestorePort, DisconnectEvent::PortFound(Err(err))) => {
                self.finish(Err(err))
            },
            (DisconnectPhase::AwaitRestorePort, DisconnectEvent::PortFound(Ok(found))) => {
                if found {
                    self.next_remaining()
                } else {
                    DisconnectGroup { phase: DisconnectPhase::AwaitRestorePause, ..self }
                }
            },
            (DisconnectPhase::AwaitRestorePause, DisconnectEvent::Proceed) => {
                if self.polls + 1 >= PORT_POLLS {
                    let text = concat(
                        self.remaining[self.index].as_str(),
                        " の再接続ポートを確認できません",
                    );
                    self.note(text).next_remaining()
                } else {
                    let p = self.polls + 1;
                    DisconnectGroup {
                        phase: DisconnectPhase::AwaitRestorePort,
                        polls: p,
                        ..self
                    }
                }
            },
            (_, _) => self,
        };
        let action = next.pending();
        (next, action)
    }
}

} // verus!

verus! {

/// How many targets have been attached when the run is at `s`.
pub open spec fn attached_count(s: ConnectView) -> nat {
    if s.phase == ConnectPhase::AwaitHeartbeat {
        s.index + 1
    } else {
        s.index
    }
}

/// The failure that a run on a target turns back with, for the event `e`.
pub open spec fn failure_of(s: ConnectView, e: ConnectEventView) -> ClientErrorView {
    match e {
        ConnectEventView::AttachDone(Err(x)) => x,
        ConnectEventView::PortFound(Err(x)) => x,
        ConnectEventView::HeartbeatDone(Err(x)) => x,
        ConnectEventView::CancelState(true) => ClientErrorView::Cancelled,
        _ => port_missing_error(s),
    }
}

/// Rollback: when work on a target fails (its attach, the search for its
/// port, the heartbeat, or a cancellation), the run stops the attach
/// attempts of that target and of every target attached before it, last
/// first; then, whatever those stops gave, it detaches the attached
/// targets, last first, gives every acquired target back to the server,
/// and ends with that failure.
pub proof fn law_failure_rolls_back(s: ConnectView, e: ConnectEventView, all_stopped: bool)
    requires
        connect_wf(s),
        on_target(s.phase),
        connect_next(s, e).phase == ConnectPhase::AwaitStops,
    ensures
        ({
            let n = connect_next(s, e);
            let undone = s.targets.take(attached_count(s) as int).reverse();
            let c = connect_next(n, ConnectEventView::StopsDone(all_stopped));
            let f = connect_next(c, ConnectEventView::Proceed);
            &&& n.failure == Some(failure_of(s, e))
            &&& connect_pending(n) == ConnectActionView::StopAttach(
                if s.phase == ConnectPhase::AwaitHeartbeat {
                    undone
                } else {
                    seq![s.targets[s.index as int]] + undone
                },
            )
            &&& connect_pending(c) == ConnectActionView::Cleanup {
                stop_all: !all_stopped,
                detach: undone,
                release: s.targets,
            }
            &&& connect_pending(f) == ConnectActionView::Finish(Err(failure_of(s, e)))
        }),
{
}

/// Exclusive sessions: when the server's session belongs to another client,
/// the run ends at once with that refusal, before anything is acquired.
pub proof fn law_other_owner_refused(s: ConnectView, x: SessionView)
    requires
        connect_wf(s),
        s.phase == ConnectPhase::AwaitSession,
        x.client_id != s.client_id,
    ensures
        connect_pending(connect_next(s, ConnectEventView::SessionLoaded(Ok(Some(x)))))
            == ConnectActionView::Finish(Err(ClientErrorView::SessionOwnedByOther(x.client_id))),
{
}

/// Incremental acquire: the client asks the server only for the requested
/// devices that its session does not hold yet, in the order requested.
pub proof fn law_acquires_only_missing(s: ConnectView, existing: Option<SessionView>)
    requires
        connect_wf(s),
        s.phase == ConnectPhase::AwaitSession,
        existing is Some ==> existing->0.client_id == s.client_id,
        missing(
            s.requested,
            match existing {
                Some(x) => x.devices,
                None => Seq::empty(),
            },
        ).len() > 0,
    ensures
        ({
            let have = match existing {
                Some(x) => x.devices,
                None => Seq::empty(),
            };
            let n = connect_next(s, ConnectEventView::SessionLoaded(Ok(existing)));
            &&& connect_pending(n) == ConnectActionView::Report("サーバーから利用権を取得しています"@)
            &&& connect_pending(connect_next(n, ConnectEventView::Proceed))
                == ConnectActionView::Acquire(bus_ids(missing(s.requested, have)))
            &&& forall|i: int|
                0 <= i < bus_ids(missing(s.requested, have)).len() ==> !have.contains(
                    #[trigger] bus_ids(missing(s.requested, have))[i],
                )
        }),
{
    let have = match existing {
        Some(x) => x.devices,
        None => Seq::empty(),
    };
    lemma_missing_not_held(s.requested, have);
}

/// No device that the session holds is in `missing`.
pub proof fn lemma_missing_not_held(ds: Seq<UsbDeviceView>, have: Seq<Seq<char>>)
    ensures
        forall|i: int|
            0 <= i < missing(ds, have).len() ==> !have.contains(#[trigger] missing(ds, have)[i].bus_id),
        forall|i: int|
            0 <= i < bus_ids(missing(ds, have)).len() ==> !have.contains(
                #[trigger] bus_ids(missing(ds, have))[i],
            ),
    decreases ds.len(),
{
    if ds.len() > 0 {
        lemma_missing_not_held(ds.drop_last(), have);
    }
}

/// Success comes last: a run reports success only after every target was
/// attached and its session renewed, or at once when the client's session
/// already holds every requested device.
pub proof fn law_success_only_when_attached(s: ConnectView, e: ConnectEventView)
    requires
        connect_wf(s),
        s.phase != ConnectPhase::Done,
        connect_next(s, e).result matches Some(Ok(_)),
    ensures
        (s.phase == ConnectPhase::AnnounceDone && s.index == s.targets.len()) || (s.phase
            == ConnectPhase::AwaitSession && (e matches ConnectEventView::SessionLoaded(
            Ok(Some(x)),
        ) && missing(s.requested, x.devices).len() == 0)),
{
    if s.phase == ConnectPhase::AwaitSession {
        match e {
            ConnectEventView::SessionLoaded(Ok(existing)) => {
                let n = connect_after_session(s, existing);
                assert(n == connect_next(s, e));

            },
            _ => {},
        }
    }
}

/// The released devices never come back: what remains of the session after
/// releasing `ys` is exactly the devices of `xs` that are not in `ys`.
pub proof fn law_remaining_excludes_released(xs: Seq<Seq<char>>, ys: Seq<Seq<char>>)
    ensures
        forall|i: int|
            0 <= i < without(xs, ys).len() ==> !ys.contains(#[trigger] without(xs, ys)[i])
                && xs.contains(without(xs, ys)[i]),
        forall|i: int| 0 <= i < xs.len() && !ys.contains(#[trigger] xs[i]) ==> without(xs, ys).contains(xs[i]),
    decreases xs.len(),
{
    if xs.len() > 0 {
        law_remaining_excludes_released(xs.drop_last(), ys);
        let w = without(xs.drop_last(), ys);
        assert forall|i: int|
            0 <= i < without(xs, ys).len() implies !ys.contains(#[trigger] without(xs, ys)[i])
            && xs.contains(without(xs, ys)[i]) by {
            if i < w.len() {
                assert(without(xs, ys)[i] == w[i]);
                let k = choose|k: int| 0 <= k < xs.drop_last().len() && xs.drop_last()[k] == w[i];
                assert(xs[k] == w[i]);
            } else {
                assert(without(xs, ys)[i] == xs.last());
                assert(xs[xs.len() - 1] == xs.last());
            }
        }
        assert forall|i: int| 0 <= i < xs.len() && !ys.contains(#[trigger] xs[i]) implies without(
            xs,
            ys,
        ).contains(xs[i]) by {
            if i < xs.len() - 1 {
                assert(xs.drop_last()[i] == xs[i]);
                let k = choose|k: int| 0 <= k < w.len() && w[k] == xs[i];
                assert(without(xs, ys)[k] == w[k]);
            } else {
                assert(without(xs, ys)[without(xs, ys).len() - 1] == xs[i]);
            }
        }
    }
}

/// Ownership on release: a run never releases or detaches devices of a
/// session that another client owns; it ends with that refusal.
pub proof fn law_disconnect_other_owner_refused(s: DisconnectView, x: SessionView)
    requires
        disconnect_wf(s),
        s.phase == DisconnectPhase::AwaitSession || s.phase == DisconnectPhase::AwaitOwnedSession,
        x.client_id != s.client_id,
    ensures
        disconnect_pending(disconnect_next(s, DisconnectEventView::SessionLoaded(Ok(Some(x)))))
            == DisconnectActionView::Finish(Err(ClientErrorView::SessionOwnedByOther(x.client_id))),
{
}

/// A device without a port still goes back to the server: a detach that
/// finds no port is not counted as an error, and after the last detach
/// the run asks the server to release every requested device.
pub proof fn law_missing_port_still_releases(s: DisconnectView, b: Seq<char>)
    requires
        disconnect_wf(s),
        s.phase == DisconnectPhase::AwaitDetach,
        s.index + 1 == s.devices.len(),
    ensures
        ({
            let n = disconnect_next(
                s,
                DisconnectEventView::DetachDone(Err(ClientErrorView::UsbipPortNotFound(b))),
            );
            &&& n.errors == s.errors
            &&& connect_release_pending(n) == DisconnectActionView::Release(s.devices)
        }),
{
    let n = disconnect_next(
        s,
        DisconnectEventView::DetachDone(Err(ClientErrorView::UsbipPortNotFound(b))),
    );
    assert(n.errors =~= s.errors);
}

/// The action after the release announcement of a run in state `s`.
pub open spec fn connect_release_pending(s: DisconnectView) -> DisconnectActionView {
    disconnect_pending(disconnect_next(s, DisconnectEventView::Proceed))
}

/// Restoring dropped ports: when a device that stays in the session has
/// lost its port, the run attaches it again.
pub proof fn law_lost_port_is_restored(s: DisconnectView)
    requires
        disconnect_wf(s),
        s.phase == DisconnectPhase::AwaitCheck,
    ensures
        ({
            let n = disconnect_next(s, DisconnectEventView::PortFound(Ok(false)));
            disconnect_pending(disconnect_next(n, DisconnectEventView::Proceed))
                == DisconnectActionView::Attach(s.remaining[s.index as int])
        }),
{
}

} // verus!
