//! The host agent: it checks a request to export devices over USB/IP, or to
//! stop exporting them, and runs usbip for each device in turn, undoing a
//! partial export when one device fails.

use vstd::prelude::*;
use crate::device_policy::opt_str_view;
use crate::error::{code_string, code_text};
use crate::protocol::{copy_strings, opt_view, views, HostControlAction, HostControlRequest, HostControlResponse};
use crate::text::{
    chars_of, concat, debug_text, eq_ignore_ascii_case, eq_ignore_case, has_prefix, join, join_with,
    lossy_text, owned, str_debug, trim, trimmed, utf8_lossy,
};

verus! {

/// The largest request, in bytes, that the agent accepts.
pub const MAX_REQUEST_BYTES: usize = 65536;

/// Why a request of `len` bytes is refused, if it is.
pub open spec fn size_refusal(len: nat) -> Option<Seq<char>> {
    if len > MAX_REQUEST_BYTES {
        Some("request exceeds 64 KiB"@)
    } else {
        None
    }
}

/// Accepts a request of `len` bytes unless it exceeds 64 KiB.
pub fn check_request_size(len: usize) -> (r: Result<(), String>)
    ensures
        match r {
            Ok(()) => size_refusal(len as nat) is None,
            Err(m) => size_refusal(len as nat) == Some(m@),
        },
{
    if len > MAX_REQUEST_BYTES {
        Err(owned("request exceeds 64 KiB"))
    } else {
        Ok(())
    }
}

/// A character allowed in a bus ID.
pub open spec fn bus_id_char(c: char) -> bool {
    ('0' <= c && c <= '9') || c == '-' || c == '.'
}

/// A kernel USB bus ID such as `1-1.3`: 1 to 32 characters, only digits,
/// `-` and `.`, with at least one `-`. An interface (`1-1.3:1.0`), a path or
/// a command-line option is none.
pub open spec fn valid_bus_id(s: Seq<char>) -> bool {
    &&& 0 < s.len() <= 32
    &&& forall|i: int| 0 <= i < s.len() ==> bus_id_char(#[trigger] s[i])
    &&& s.contains('-')
}

/// Whether `bus_id` is a kernel USB bus ID.
pub fn is_valid_bus_id(bus_id: &str) -> (r: bool)
    ensures
        r == valid_bus_id(bus_id@),
{
    let v = chars_of(bus_id);
    if v.len() == 0 || v.len() > 32 {
        return false;
    }
    let mut dash = false;
    let mut i: usize = 0;
    while i < v.len()
        invariant
            i <= v.len(),
            v@ == bus_id@,
            forall|k: int| 0 <= k < i ==> bus_id_char(#[trigger] v@[k]),
            dash == (exists|k: int| 0 <= k < i && v@[k] == '-'),
        decreases v.len() - i,
    {
        let c = v[i];
        if !(('0' <= c && c <= '9') || c == '-' || c == '.') {
            assert(!bus_id_char(bus_id@[i as int]));
            return false;
        }
        if c == '-' {
            dash = true;
        }
        i = i + 1;
    }
    if !dash {
        assert(!bus_id@.contains('-'));
    }
    dash
}

/// The name of the prohibited class that an interface class code stands
/// for (case ignored), if any.
pub open spec fn class_name(class: Seq<char>) -> Option<Seq<char>> {
    if eq_ignore_case(class, "08"@) {
        Some("mass-storage"@)
    } else if eq_ignore_case(class, "01"@) {
        Some("audio"@)
    } else if eq_ignore_case(class, "0e"@) {
        Some("video"@)
    } else {
        None
    }
}

/// The name of the prohibited class that an interface class code stands
/// for: mass storage, audio or video.
pub fn prohibited_class(class: &str) -> (r: Option<&'static str>)
    ensures
        opt_str_view(r) == class_name(class@),
{
    if eq_ignore_ascii_case(class, "08") {
        Some("mass-storage")
    } else if eq_ignore_ascii_case(class, "01") {
        Some("audio")
    } else if eq_ignore_ascii_case(class, "0e") {
        Some("video")
    } else {
        None
    }
}

/// An entry of the sysfs device directory: its name and the text of its
/// `bInterfaceClass` file (empty when there is none).
#[derive(Clone, Debug)]
pub struct InterfaceEntry {
    pub name: String,
    pub class: String,
}

/// An interface entry as values.
pub struct InterfaceEntryView {
    pub name: Seq<char>,
    pub class: Seq<char>,
}

impl View for InterfaceEntry {
    type V = InterfaceEntryView;

    open spec fn view(&self) -> InterfaceEntryView {
        InterfaceEntryView { name: self.name@, class: self.class@ }
    }
}

/// What was read from sysfs about a device: whether its `idVendor` exists
/// (or why that could not be told), the text of its `bDeviceClass` (empty
/// when there is none), the entries of the device directory in the order
/// they were listed, and the error that ended the listing, if one did.
#[derive(Debug)]
pub struct DeviceInspection {
    pub present: Result<bool, String>,
    pub device_class: String,
    pub interfaces: Vec<InterfaceEntry>,
    pub listing_error: Option<String>,
}

/// A device inspection as values.
pub struct DeviceInspectionView {
    pub present: Result<bool, Seq<char>>,
    pub device_class: Seq<char>,
    pub interfaces: Seq<InterfaceEntryView>,
    pub listing_error: Option<Seq<char>>,
}

impl View for DeviceInspection {
    type V = DeviceInspectionView;

    open spec fn view(&self) -> DeviceInspectionView {
        DeviceInspectionView {
            present: match self.present {
                Ok(b) => Ok(b),
                Err(e) => Err(e@),
            },
            device_class: self.device_class@,
            interfaces: self.interfaces@.map_values(|e: InterfaceEntry| e@),
            listing_error: opt_view(self.listing_error),
        }
    }
}

/// Why the interfaces of device `bus` forbid exporting it: the first of its
/// interfaces, in listing order, with a prohibited class; else the error
/// that ended the listing.
pub open spec fn interface_refusal(
    bus: Seq<char>,
    entries: Seq<InterfaceEntryView>,
    listing_error: Option<Seq<char>>,
) -> Option<Seq<char>>
    decreases entries.len(),
{
    if entries.len() == 0 {
        match listing_error {
            Some(e) => Some("failed to inspect USB interfaces: "@ + e),
            None => None,
        }
    } else if (bus + ":"@).is_prefix_of(entries[0].name) && class_name(trim(entries[0].class)) is Some {
        Some(
            "refusing to export "@ + bus + ": prohibited "@ + class_name(trim(entries[0].class))->0
                + " interface class"@,
        )
    } else {
        interface_refusal(bus, entries.drop_first(), listing_error)
    }
}

/// Why device `bus` may not be exported, given what was read about it.
pub open spec fn device_refusal(bus: Seq<char>, d: DeviceInspectionView) -> Option<Seq<char>> {
    match d.present {
        Err(e) => Some("failed to inspect "@ + bus + ": "@ + e),
        Ok(false) => Some("USB device "@ + bus + " is not present"@),
        Ok(true) => if eq_ignore_case(trim(d.device_class), "09"@) {
            Some("refusing to export USB hub "@ + bus)
        } else {
            interface_refusal(bus, d.interfaces, d.listing_error)
        },
    }
}

/// Why device `bus_id` may not be exported, given what was read about it:
/// it is missing, a hub, or has a mass-storage, audio or video interface.
pub fn inspection_refusal(bus_id: &str, inspection: &DeviceInspection) -> (r: Option<String>)
    ensures
        opt_view(r) == device_refusal(bus_id@, inspection@),
{
    match &inspection.present {
        Err(e) => {
            let head = concat("failed to inspect ", bus_id);
            let head = concat(head.as_str(), ": ");
            return Some(concat(head.as_str(), e.as_str()));
        },
        Ok(false) => {
            let head = concat("USB device ", bus_id);
            return Some(concat(head.as_str(), " is not present"));
        },
        Ok(true) => {},
    }
    let class = trimmed(inspection.device_class.as_str());
    if eq_ignore_ascii_case(class.as_str(), "09") {
        return Some(concat("refusing to export USB hub ", bus_id));
    }
    let prefix = concat(bus_id, ":");
    let ghost es = inspection@.interfaces;
    let ghost le = inspection@.listing_error;
    let mut i: usize = 0;
    assert(es.skip(0) =~= es);
    while i < inspection.interfaces.len()
        invariant
            i <= inspection.interfaces.len(),
            es == inspection@.interfaces,
            le == inspection@.listing_error,
            es.len() == inspection.interfaces@.len(),
            prefix@ == bus_id@ + ":"@,
            inspection@.present == Ok::<bool, Seq<char>>(true),
            !eq_ignore_case(trim(inspection@.device_class), "09"@),
            interface_refusal(bus_id@, es, le) == interface_refusal(bus_id@, es.skip(i as int), le),
        decreases inspection.interfaces.len() - i,
    {
        let entry = &inspection.interfaces[i];
        assert(es.skip(i as int)[0] == entry@);
        assert(es.skip(i as int).drop_first() =~= es.skip(i + 1));
        if has_prefix(entry.name.as_str(), prefix.as_str()) {
            let c = trimmed(entry.class.as_str());
            if let Some(name) = prohibited_class(c.as_str()) {
                assert(class_name(trim(entry.class@)) == Some(name@));
                assert((bus_id@ + ":"@).is_prefix_of(es.skip(i as int)[0].name));
                let m = concat("refusing to export ", bus_id);
                let m = concat(m.as_str(), ": prohibited ");
                let m = concat(m.as_str(), name);
                let m = concat(m.as_str(), " interface class");
                assert(interface_refusal(bus_id@, es.skip(i as int), le) == Some(m@));
                assert(interface_refusal(bus_id@, es, le) == Some(m@));
                return Some(m);
            }
        }
        i = i + 1;
    }
    match &inspection.listing_error {
        Some(e) => Some(concat("failed to inspect USB interfaces: ", e.as_str())),
        None => None,
    }
}

/// What a run of usbip gave back: whether it exited with success, its exit
/// code, and what it wrote.
#[derive(Clone, Debug)]
pub struct ProcessOutput {
    pub success: bool,
    pub code: Option<i32>,
    pub stdout: Vec<u8>,
    pub stderr: Vec<u8>,
}

/// The outcome of `usbip <operation> --busid <bus>`, from how the process
/// ended or why it could not be started: the error names the operation,
/// the device, the exit code and what usbip wrote to stderr (or, when that
/// is blank, to stdout), trimmed.
pub open spec fn run_outcome(
    usbip: Seq<char>,
    operation: Seq<char>,
    bus: Seq<char>,
    output: Result<ProcessOutput, Seq<char>>,
) -> Result<(), Seq<char>> {
    match output {
        Err(e) => Err("failed to execute "@ + usbip + ": "@ + e),
        Ok(o) => if o.success {
            Ok(())
        } else {
            let stderr = trim(utf8_lossy(o.stderr@));
            let stdout = trim(utf8_lossy(o.stdout@));
            let detail = if stderr.len() == 0 {
                stdout
            } else {
                stderr
            };
            Err(
                "usbip "@ + operation + " failed for "@ + bus + " (exit "@ + code_text(o.code)
                    + "): "@ + detail,
            )
        },
    }
}

/// The view of a process outcome.
pub open spec fn output_view(r: Result<ProcessOutput, String>) -> Result<ProcessOutput, Seq<char>> {
    match r {
        Ok(o) => Ok(o),
        Err(e) => Err(e@),
    }
}

/// The view of an outcome without a value.
pub open spec fn outcome_view(r: Result<(), String>) -> Result<(), Seq<char>> {
    match r {
        Ok(()) => Ok(()),
        Err(e) => Err(e@),
    }
}

/// The outcome of one usbip run, as the agent reports it.
pub fn usbip_outcome(
    usbip: &str,
    operation: &str,
    bus_id: &str,
    output: &Result<ProcessOutput, String>,
) -> (r: Result<(), String>)
    ensures
        outcome_view(r) == run_outcome(usbip@, operation@, bus_id@, output_view(*output)),
{
    match output {
        Err(e) => {
            let m = concat("failed to execute ", usbip);
            let m = concat(m.as_str(), ": ");
            Err(concat(m.as_str(), e.as_str()))
        },
        Ok(o) => {
            if o.success {
                return Ok(());
            }
            let stderr = trimmed(lossy_text(&o.stderr).as_str());
            let stdout = trimmed(lossy_text(&o.stdout).as_str());
            let detail = if stderr.as_str().is_empty() {
                stdout
            } else {
                stderr
            };
            let code = code_string(o.code);
            let m = concat("usbip ", operation);
            let m = concat(m.as_str(), " failed for ");
            let m = concat(m.as_str(), bus_id);
            let m = concat(m.as_str(), " (exit ");
            let m = concat(m.as_str(), code.as_str());
            let m = concat(m.as_str(), "): ");
            Err(concat(m.as_str(), detail.as_str()))
        },
    }
}

/// The answer the agent sends for an outcome.
pub fn response_for(result: &Result<(), String>) -> (r: HostControlResponse)
    ensures
        r.success == result is Ok,
        opt_view(r.error) == match outcome_view(*result) {
            Ok(()) => None,
            Err(e) => Some(e),
        },
{
    match result {
        Ok(()) => HostControlResponse { success: true, error: None },
        Err(e) => HostControlResponse { success: false, error: Some(e.clone()) },
    }
}

} // verus!

verus! {

/// Where a request of the agent stands.
#[derive(Clone, Copy, Debug, PartialEq, Eq, Structural)]
pub enum AgentPhase {
    /// Waiting for what was read about the device at `index`.
    Inspecting,
    /// Waiting for usbip on the device at `index`.
    Running,
    /// Undoing the export of the device at `index` after a failure.
    RollingBack,
    /// The request is answered.
    Done,
}

/// What the caller of an agent run is asked to do next.
#[derive(Debug)]
pub enum AgentAction {
    /// Read from sysfs what `DeviceInspection` holds for this bus ID.
    Inspect(String),
    /// Run `usbip <operation> --busid <bus_id>`.
    Usbip { operation: &'static str, bus_id: String },
    /// Answer the request with this outcome.
    Finish(Result<(), String>),
}

/// What came of the last action of an agent run.
#[derive(Debug)]
pub enum AgentEvent {
    /// The answer to `Inspect`.
    Inspected(DeviceInspection),
    /// The answer to `Usbip`, as `usbip_outcome` gives it.
    Ran(Result<(), String>),
}

/// An agent action as values.
pub enum AgentActionView {
    Inspect(Seq<char>),
    Usbip { operation: Seq<char>, bus_id: Seq<char> },
    Finish(Result<(), Seq<char>>),
}

impl View for AgentAction {
    type V = AgentActionView;

    open spec fn view(&self) -> AgentActionView {
        match self {
            AgentAction::Inspect(b) => AgentActionView::Inspect(b@),
            AgentAction::Usbip { operation, bus_id } => AgentActionView::Usbip {
                operation: operation@,
                bus_id: bus_id@,
            },
            AgentAction::Finish(r) => AgentActionView::Finish(outcome_view(*r)),
        }
    }
}

/// An agent event as values.
pub enum AgentEventView {
    Inspected(DeviceInspectionView),
    Ran(Result<(), Seq<char>>),
}

impl View for AgentEvent {
    type V = AgentEventView;

    open spec fn view(&self) -> AgentEventView {
        match self {
            AgentEvent::Inspected(d) => AgentEventView::Inspected(d@),
            AgentEvent::Ran(r) => AgentEventView::Ran(outcome_view(*r)),
        }
    }
}

/// An agent run as values: whether it exports (binds) or releases
/// (unbinds), the bus IDs, the device it is at, the failure being undone,
/// the unbind errors met so far, and the outcome once there is one.
pub struct AgentView {
    pub bind: bool,
    pub devices: Seq<Seq<char>>,
    pub index: nat,
    pub phase: AgentPhase,
    pub failure: Seq<char>,
    pub errors: Seq<Seq<char>>,
    pub result: Option<Result<(), Seq<char>>>,
}

/// The consistency of an agent run: usbip only ever sees bus IDs that
/// passed the syntax check.
pub open spec fn agent_wf(s: AgentView) -> bool {
    &&& s.phase != AgentPhase::Done ==> s.index < s.devices.len() && s.result is None
    &&& s.phase == AgentPhase::Done ==> s.result is Some
    &&& s.phase == AgentPhase::Inspecting ==> forall|j: int|
        0 <= j <= s.index ==> valid_bus_id(#[trigger] s.devices[j])
    &&& (s.phase == AgentPhase::Running || s.phase == AgentPhase::RollingBack) ==> forall|j: int|
        0 <= j < s.devices.len() ==> valid_bus_id(#[trigger] s.devices[j])
}

/// The run answered with `r`.
pub open spec fn agent_finished(s: AgentView, r: Result<(), Seq<char>>) -> AgentView {
    AgentView { phase: AgentPhase::Done, result: Some(r), ..s }
}

/// The message for a malformed bus ID.
pub open spec fn invalid_message(bus: Seq<char>) -> Seq<char> {
    "invalid USB bus ID: "@ + str_debug(bus)
}

/// The run moving on to inspect device `i`, or refusing the request when
/// that device's bus ID is malformed.
pub open spec fn agent_inspect(s: AgentView, i: nat) -> AgentView {
    if valid_bus_id(s.devices[i as int]) {
        AgentView { phase: AgentPhase::Inspecting, index: i, ..s }
    } else {
        agent_finished(s, Err(invalid_message(s.devices[i as int])))
    }
}

/// The outcome of releasing every device: the errors joined with `; `, or
/// success when there were none.
pub open spec fn unbind_summary(errors: Seq<Seq<char>>) -> Result<(), Seq<char>> {
    if errors.len() == 0 {
        Ok(())
    } else {
        Err(join_with(errors, "; "@))
    }
}

/// The state an agent run starts in.
pub open spec fn agent_start(bind: bool, devices: Seq<Seq<char>>) -> AgentView {
    let s = AgentView {
        bind,
        devices,
        index: 0,
        phase: AgentPhase::Inspecting,
        failure: Seq::empty(),
        errors: Seq::empty(),
        result: None,
    };
    if devices.len() == 0 {
        agent_finished(s, Err("device list must not be empty"@))
    } else {
        agent_inspect(s, 0)
    }
}

/// The state that follows `s` on event `e`; an event that does not answer
/// the pending action leaves the state as it is.
pub open spec fn agent_next(s: AgentView, e: AgentEventView) -> AgentView {
    match s.phase {
        AgentPhase::Inspecting => match e {
            AgentEventView::Inspected(d) => match device_refusal(s.devices[s.index as int], d) {
                Some(m) => agent_finished(s, Err(m)),
                None => if s.index + 1 < s.devices.len() {
                    agent_inspect(s, s.index + 1)
                } else {
                    AgentView { phase: AgentPhase::Running, index: 0, ..s }
                },
            },
            _ => s,
        },
        AgentPhase::Running => match e {
            AgentEventView::Ran(r) => if s.bind {
                match r {
                    Ok(()) => if s.index + 1 < s.devices.len() {
                        AgentView { index: s.index + 1, ..s }
                    } else {
                        agent_finished(s, Ok(()))
                    },
                    Err(m) => if s.index == 0 {
                        agent_finished(s, Err(m))
                    } else {
                        AgentView {
                            phase: AgentPhase::RollingBack,
                            index: (s.index - 1) as nat,
                            failure: m,
                            ..s
                        }
                    },
                }
            } else {
                let errors = match r {
                    Ok(()) => s.errors,
                    Err(m) => s.errors.push(m),
                };
                if s.index + 1 < s.devices.len() {
                    AgentView { index: s.index + 1, errors, ..s }
                } else {
                    agent_finished(AgentView { errors, ..s }, unbind_summary(errors))
                }
            },
            _ => s,
        },
        AgentPhase::RollingBack => match e {
            AgentEventView::Ran(_) => if s.index == 0 {
                agent_finished(s, Err(s.failure))
            } else {
                AgentView { index: (s.index - 1) as nat, ..s }
            },
            _ => s,
        },
        AgentPhase::Done => s,
    }
}

/// The action that an agent run in state `s` waits on.
pub open spec fn agent_pending(s: AgentView) -> AgentActionView {
    match s.phase {
        AgentPhase::Inspecting => AgentActionView::Inspect(s.devices[s.index as int]),
        AgentPhase::Running => AgentActionView::Usbip {
            operation: if s.bind {
                "bind"@
            } else {
                "unbind"@
            },
            bus_id: s.devices[s.index as int],
        },
        AgentPhase::RollingBack => AgentActionView::Usbip {
            operation: "unbind"@,
            bus_id: s.devices[s.index as int],
        },
        AgentPhase::Done => AgentActionView::Finish(s.result->0),
    }
}

/// One request of the agent, from its check to its answer.
pub struct AgentRun {
    bind: bool,
    devices: Vec<String>,
    index: usize,
    phase: AgentPhase,
    failure: String,
    errors: Vec<String>,
    result: Option<Result<(), String>>,
}

/// The view of an optional outcome.
pub open spec fn opt_outcome_view(r: Option<Result<(), String>>) -> Option<Result<(), Seq<char>>> {
    match r {
        Some(x) => Some(outcome_view(x)),
        None => None,
    }
}

impl View for AgentRun {
    type V = AgentView;

    closed spec fn view(&self) -> AgentView {
        AgentView {
            bind: self.bind,
            devices: views(self.devices@),
            index: self.index as nat,
            phase: self.phase,
            failure: self.failure@,
            errors: views(self.errors@),
            result: opt_outcome_view(self.result),
        }
    }
}

impl AgentRun {
    #[verifier::type_invariant]
    closed spec fn inv(&self) -> bool {
        agent_wf(self@)
    }

    /// Starts handling `request`; returns the run and the first action.
    pub fn start(request: &HostControlRequest) -> (r: (AgentRun, AgentAction))
        ensures
            r.0@ == agent_start(
                request.action == HostControlAction::Bind,
                views(request.devices@),
            ),
            r.1@ == agent_pending(r.0@),
    {
        let bind = match request.action {
            HostControlAction::Bind => true,
            HostControlAction::Unbind => false,
        };
        let devices = copy_strings(&request.devices);
        if devices.len() == 0 {
            let run = AgentRun {
                bind,
                devices,
                index: 0,
                phase: AgentPhase::Done,
                failure: String::new(),
                errors: Vec::new(),
                result: Some(Err(owned("device list must not be empty"))),
            };
            assert(views(run.errors@) =~= Seq::<Seq<char>>::empty());
            let action = run.pending();
            return (run, action);
        }
        let ghost s0 = AgentView {
            bind,
            devices: views(devices@),
            index: 0,
            phase: AgentPhase::Inspecting,
            failure: Seq::empty(),
            errors: Seq::empty(),
            result: None,
        };
        let errors: Vec<String> = Vec::new();
        assert(views(errors@) =~= Seq::<Seq<char>>::empty());
        let r = AgentRun::inspect_from(bind, devices, 0, 0, String::new(), errors, Ghost(s0));
        let action = r.pending();
        (r, action)
    }

    /// The run moving on to inspect device `i` (all before it passed).
    fn inspect_from(
        bind: bool,
        devices: Vec<String>,
        at: usize,
        i: usize,
        failure: String,
        errors: Vec<String>,
        Ghost(s): Ghost<AgentView>,
    ) -> (r: AgentRun)
        requires
            i < devices.len(),
            s.bind == bind,
            s.index == at,
            s.devices == views(devices@),
            s.failure == failure@,
            s.errors == views(errors@),
            s.result is None,
            forall|j: int| 0 <= j < i ==> valid_bus_id(#[trigger] views(devices@)[j]),
        ensures
            r@ == agent_inspect(s, i as nat),
    {
        if is_valid_bus_id(devices[i].as_str()) {
            AgentRun { bind, devices, index: i, phase: AgentPhase::Inspecting, failure, errors, result: None }
        } else {
            let head = owned("invalid USB bus ID: ");
            let quoted = debug_text(devices[i].as_str());
            let m = concat(head.as_str(), quoted.as_str());
            AgentRun {
                bind,
                devices,
                index: at,
                phase: AgentPhase::Done,
                failure,
                errors,
                result: Some(Err(m)),
            }
        }
    }

    fn pending(&self) -> (a: AgentAction)
        ensures
            a@ == agent_pending(self@),
    {
        proof {
            use_type_invariant(self);
        }
        match self.phase {
            AgentPhase::Inspecting => AgentAction::Inspect(self.devices[self.index].clone()),
            AgentPhase::Running => AgentAction::Usbip {
                operation: if self.bind {
                    "bind"
                } else {
                    "unbind"
                },
                bus_id: self.devices[self.index].clone(),
            },
            AgentPhase::RollingBack => AgentAction::Usbip {
                operation: "unbind",
                bus_id: self.devices[self.index].clone(),
            },
            AgentPhase::Done => match &self.result {
                Some(Ok(())) => AgentAction::Finish(Ok(())),
                Some(Err(e)) => AgentAction::Finish(Err(e.clone())),
                None => AgentAction::Finish(Ok(())),
            },
        }
    }

    fn finish(self, r: Result<(), String>) -> (n: AgentRun)
        ensures
            n@ == agent_finished(self@, outcome_view(r)),
    {
        proof {
            use_type_invariant(&self);
        }
        AgentRun { phase: AgentPhase::Done, result: Some(r), ..self }
    }

    /// Takes what came of the pending action; returns the run and the next
    /// action.
    pub fn step(self, event: AgentEvent) -> (r: (AgentRun, AgentAction))
        ensures
            r.0@ == agent_next(self@, event@),
            r.1@ == agent_pending(r.0@),
    {
        proof {
            use_type_invariant(&self);
        }
        let ghost s = self@;
        let n = match self.phase {
            AgentPhase::Inspecting => match event {
                AgentEvent::Inspected(d) => {
                    let refusal = inspection_refusal(self.devices[self.index].as_str(), &d);
                    match refusal {
                        Some(m) => self.finish(Err(m)),
                        None => {
                            assert(self.index < self.devices.len());
                            if self.index + 1 < self.devices.len() {
                                let i = self.index + 1;
                                let at = self.index;
                                let AgentRun { bind, devices, failure, errors, .. } = self;
                                AgentRun::inspect_from(bind, devices, at, i, failure, errors, Ghost(s))
                            } else {
                                AgentRun { phase: AgentPhase::Running, index: 0, ..self }
                            }
                        },
                    }
                },
                _ => self,
            },
            AgentPhase::Running => match event {
                AgentEvent::Ran(r) => {
                    if self.bind {
                        match r {
                            Ok(()) => {
                                if self.index + 1 < self.devices.len() {
                                    let i = self.index + 1;
                                    AgentRun { index: i, ..self }
                                } else {
                                    self.finish(Ok(()))
                                }
                            },
                            Err(m) => {
                                if self.index == 0 {
                                    self.finish(Err(m))
                                } else {
                                    let i = self.index - 1;
                                    AgentRun { phase: AgentPhase::RollingBack, index: i, failure: m, ..self }
                                }
                            },
                        }
                    } else {
                        let AgentRun { bind, devices, index, phase, failure, errors, result } = self;
                        let mut errors = errors;
                        let ghost before = views(errors@);
                        match r {
                            Ok(()) => {},
                            Err(m) => {
                                errors.push(m);
                                assert(views(errors@) =~= before.push(errors@[errors@.len() - 1]@));
                            },
                        }
                        if index + 1 < devices.len() {
                            AgentRun { bind, devices, index: index + 1, phase, failure, errors, result }
                        } else {
                            let outcome = if errors.len() == 0 {
                                Ok(())
                            } else {
                                Err(join(&errors, "; "))
                            };
                            AgentRun {
                                bind,
                                devices,
                                index,
                                phase: AgentPhase::Done,
                                failure,
                                errors,
                                result: Some(outcome),
                            }
                        }
                    }
                },
                _ => self,
            },
            AgentPhase::RollingBack => match event {
                AgentEvent::Ran(_) => {
                    if self.index == 0 {
                        let f = self.failure.clone();
                        self.finish(Err(f))
                    } else {
                        let i = self.index - 1;
                        AgentRun { index: i, ..self }
                    }
                },
                _ => self,
            },
            AgentPhase::Done => self,
        };
        let action = n.pending();
        (n, action)
    }
}

} // verus!

verus! {

/// The state an agent run reaches from `s` through the events `evs`.
pub open spec fn agent_run(s: AgentView, evs: Seq<AgentEventView>) -> AgentView
    decreases evs.len(),
{
    if evs.len() == 0 {
        s
    } else {
        agent_next(agent_run(s, evs.drop_last()), evs.last())
    }
}

/// Whether every event reports a usbip run.
pub open spec fn all_ran(evs: Seq<AgentEventView>) -> bool {
    forall|i: int| 0 <= i < evs.len() ==> #[trigger] evs[i] is Ran
}

/// The error messages of the failed usbip runs among `evs`, in order.
pub open spec fn ran_errors(evs: Seq<AgentEventView>) -> Seq<Seq<char>>
    decreases evs.len(),
{
    if evs.len() == 0 {
        Seq::empty()
    } else {
        match evs.last() {
            AgentEventView::Ran(Err(m)) => ran_errors(evs.drop_last()).push(m),
            _ => ran_errors(evs.drop_last()),
        }
    }
}

/// A run starts consistent.
pub proof fn law_agent_start_wf(bind: bool, devices: Seq<Seq<char>>)
    ensures
        agent_wf(agent_start(bind, devices)),
{
}

/// Every step keeps a run consistent.
pub proof fn law_agent_wf_kept(s: AgentView, e: AgentEventView)
    requires
        agent_wf(s),
    ensures
        agent_wf(agent_next(s, e)),
{
    let n = agent_next(s, e);
    if s.phase == AgentPhase::Inspecting && n.phase == AgentPhase::Inspecting && n.index == s.index + 1 {
        assert forall|j: int| 0 <= j <= n.index implies valid_bus_id(#[trigger] n.devices[j]) by {
            if j < n.index {
                assert(valid_bus_id(s.devices[j]));
            }
        }
    }
    if s.phase == AgentPhase::Inspecting && n.phase == AgentPhase::Running {
        assert forall|j: int| 0 <= j < n.devices.len() implies valid_bus_id(#[trigger] n.devices[j]) by {
            assert(valid_bus_id(s.devices[j]));
        }
    }
}

/// usbip is only ever run on a well-formed bus ID: no interface, path or
/// command-line option reaches it.
pub proof fn law_usbip_only_on_valid_ids(s: AgentView)
    requires
        agent_wf(s),
        agent_pending(s) is Usbip,
    ensures
        valid_bus_id(agent_pending(s)->bus_id),
{
}

/// When exporting a device fails, the devices exported before it are
/// released again, the latest first, whatever each release gives, and the
/// request then fails with the first error.
pub proof fn law_failed_bind_is_undone(s: AgentView, m: Seq<char>, evs: Seq<AgentEventView>, k: int)
    requires
        agent_wf(s),
        s.bind,
        s.phase == AgentPhase::Running,
        all_ran(evs),
        evs.len() == s.index,
        0 <= k <= s.index,
    ensures
        k < s.index ==> agent_pending(agent_run(agent_next(s, AgentEventView::Ran(Err(m))), evs.take(k)))
            == (AgentActionView::Usbip {
            operation: "unbind"@,
            bus_id: s.devices[s.index - 1 - k],
        }),
        agent_run(agent_next(s, AgentEventView::Ran(Err(m))), evs).phase == AgentPhase::Done,
        agent_run(agent_next(s, AgentEventView::Ran(Err(m))), evs).result == Some(
            Err::<(), Seq<char>>(m),
        ),
{
    lemma_rollback_steps(s, m, evs, k);
    lemma_rollback_steps(s, m, evs, s.index as int);
    assert(evs.take(s.index as int) =~= evs);
}

proof fn lemma_rollback_steps(s: AgentView, m: Seq<char>, evs: Seq<AgentEventView>, k: int)
    requires
        agent_wf(s),
        s.bind,
        s.phase == AgentPhase::Running,
        all_ran(evs),
        evs.len() == s.index,
        0 <= k <= s.index,
    ensures
        k < s.index ==> agent_run(agent_next(s, AgentEventView::Ran(Err(m))), evs.take(k)) == (
        AgentView { phase: AgentPhase::RollingBack, index: (s.index - 1 - k) as nat, failure: m, ..s }),
        k == s.index ==> agent_run(agent_next(s, AgentEventView::Ran(Err(m))), evs.take(k)).phase
            == AgentPhase::Done,
        k == s.index ==> agent_run(agent_next(s, AgentEventView::Ran(Err(m))), evs.take(k)).result
            == Some(Err::<(), Seq<char>>(m)),
    decreases k,
{
    let t = agent_next(s, AgentEventView::Ran(Err(m)));
    if k == 0 {
        assert(evs.take(0) =~= Seq::<AgentEventView>::empty());
    } else {
        lemma_rollback_steps(s, m, evs, k - 1);
        assert(evs.take(k).drop_last() =~= evs.take(k - 1));
        assert(evs.take(k).last() == evs[k - 1]);
        assert(evs[k - 1] is Ran);
    }
}

/// Releasing runs usbip on every device, in order, whatever each run
/// gives; the request succeeds when every run did, and otherwise fails
/// with the errors joined by `; `.
pub proof fn law_release_tries_every_device(s: AgentView, evs: Seq<AgentEventView>, k: int)
    requires
        agent_wf(s),
        !s.bind,
        s.phase == AgentPhase::Running,
        s.index == 0,
        s.errors.len() == 0,
        all_ran(evs),
        evs.len() == s.devices.len(),
        0 <= k < evs.len(),
    ensures
        agent_pending(agent_run(s, evs.take(k))) == (AgentActionView::Usbip {
            operation: "unbind"@,
            bus_id: s.devices[k],
        }),
        agent_run(s, evs).result == Some(unbind_summary(ran_errors(evs))),
{
    lemma_release_steps(s, evs, k);
    lemma_release_steps(s, evs, evs.len() as int);
    assert(evs.take(evs.len() as int) =~= evs);
}

proof fn lemma_release_steps(s: AgentView, evs: Seq<AgentEventView>, k: int)
    requires
        agent_wf(s),
        !s.bind,
        s.phase == AgentPhase::Running,
        s.index == 0,
        s.errors.len() == 0,
        all_ran(evs),
        evs.len() == s.devices.len(),
        0 <= k <= evs.len(),
    ensures
        k < evs.len() ==> agent_run(s, evs.take(k)) == (AgentView {
            index: k as nat,
            errors: ran_errors(evs.take(k)),
            ..s
        }),
        k == evs.len() ==> agent_run(s, evs.take(k)).result == Some(
            unbind_summary(ran_errors(evs.take(k))),
        ),
    decreases k,
{
    if k == 0 {
        assert(evs.take(0) =~= Seq::<AgentEventView>::empty());
        assert(s.errors =~= Seq::<Seq<char>>::empty());
    } else {
        lemma_release_steps(s, evs, k - 1);
        assert(evs.take(k).drop_last() =~= evs.take(k - 1));
        assert(evs.take(k).last() == evs[k - 1]);
        assert(evs[k - 1] is Ran);
    }
}

} // verus!
