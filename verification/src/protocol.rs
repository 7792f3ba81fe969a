//! The values that the server, the host agent and the clients exchange.

use vstd::prelude::*;

verus! {

/// The server's answer to a health query.
#[derive(Clone, Debug)]
pub struct HealthResponse {
    pub status: String,
    pub backend: String,
}

/// A USB device as the server lists it.
#[derive(Clone, Debug)]
pub struct UsbDevice {
    pub bus_id: String,
    pub vendor_id: String,
    pub product_id: String,
    pub manufacturer: Option<String>,
    pub product: Option<String>,
    pub serial_number: Option<String>,
    pub device_class: String,
    pub interface_classes: Vec<String>,
    pub drivers: Vec<String>,
    pub parent_hub: Option<String>,
    pub selected: bool,
    pub selectable: bool,
    pub risk: String,
    pub warning: Option<String>,
    pub status: String,
}

/// A device as values.
pub struct UsbDeviceView {
    pub bus_id: Seq<char>,
    pub vendor_id: Seq<char>,
    pub product_id: Seq<char>,
    pub manufacturer: Option<Seq<char>>,
    pub product: Option<Seq<char>>,
    pub serial_number: Option<Seq<char>>,
    pub device_class: Seq<char>,
    pub interface_classes: Seq<Seq<char>>,
    pub drivers: Seq<Seq<char>>,
    pub parent_hub: Option<Seq<char>>,
    pub selected: bool,
    pub selectable: bool,
    pub risk: Seq<char>,
    pub warning: Option<Seq<char>>,
    pub status: Seq<char>,
}

/// The view of an optional string.
pub open spec fn opt_view(s: Option<String>) -> Option<Seq<char>> {
    match s {
        Some(v) => Some(v@),
        None => None,
    }
}

impl View for UsbDevice {
    type V = UsbDeviceView;

    open spec fn view(&self) -> UsbDeviceView {
        UsbDeviceView {
            bus_id: self.bus_id@,
            vendor_id: self.vendor_id@,
            product_id: self.product_id@,
            manufacturer: opt_view(self.manufacturer),
            product: opt_view(self.product),
            serial_number: opt_view(self.serial_number),
            device_class: self.device_class@,
            interface_classes: views(self.interface_classes@),
            drivers: views(self.drivers@),
            parent_hub: opt_view(self.parent_hub),
            selected: self.selected,
            selectable: self.selectable,
            risk: self.risk@,
            warning: opt_view(self.warning),
            status: self.status@,
        }
    }
}

/// The views of a sequence of devices.
pub open spec fn device_views(v: Seq<UsbDevice>) -> Seq<UsbDeviceView> {
    v.map_values(|d: UsbDevice| d@)
}

/// The exclusive session of one client and the bus IDs it holds.
#[derive(Clone, Debug)]
pub struct Session {
    pub client_id: String,
    pub devices: Vec<String>,
}

/// A session as values: the owner and the bus IDs, in order.
pub struct SessionView {
    pub client_id: Seq<char>,
    pub devices: Seq<Seq<char>>,
}

/// The views of a vector of strings.
pub open spec fn views(v: Seq<String>) -> Seq<Seq<char>> {
    v.map_values(|s: String| s@)
}

impl View for Session {
    type V = SessionView;

    open spec fn view(&self) -> SessionView {
        SessionView { client_id: self.client_id@, devices: views(self.devices@) }
    }
}

/// A request to add devices to the caller's session.
#[derive(Clone, Debug)]
pub struct AcquireRequest {
    pub client_id: String,
    pub devices: Vec<String>,
}

/// A request to give back some devices, or the whole session when
/// `devices` is empty.
#[derive(Clone, Debug)]
pub struct ReleaseRequest {
    pub client_id: String,
    pub devices: Vec<String>,
}

/// A request to keep the caller's session alive.
#[derive(Clone, Debug)]
pub struct HeartbeatRequest {
    pub client_id: String,
}

/// The bus IDs chosen in the web UI.
#[derive(Clone, Debug, Default)]
pub struct SelectionRequest {
    pub devices: Vec<String>,
}

/// The selection as the server stored it.
#[derive(Clone, Debug)]
pub struct SelectionResponse {
    pub devices: Vec<String>,
}

/// The current session, if any.
#[derive(Clone, Debug)]
pub struct SessionResponse {
    pub session: Option<Session>,
}

/// The body of an error answer.
#[derive(Clone, Debug)]
pub struct ErrorResponse {
    pub error: String,
}

/// What the host agent is asked to do with devices.
#[derive(Clone, Copy, Debug, PartialEq, Eq)]
pub enum HostControlAction {
    Bind,
    Unbind,
}

/// A request to the host agent.
#[derive(Clone, Debug)]
pub struct HostControlRequest {
    pub action: HostControlAction,
    pub devices: Vec<String>,
}

/// The host agent's answer.
#[derive(Clone, Debug)]
pub struct HostControlResponse {
    pub success: bool,
    pub error: Option<String>,
}

/// A copy of a string.
pub fn copy_string(s: &String) -> (r: String)
    ensures
        r == *s,
{
    s.clone()
}

/// A copy of an optional string.
pub fn copy_opt_string(s: &Option<String>) -> (r: Option<String>)
    ensures
        r == *s,
{
    match s {
        Some(v) => Some(v.clone()),
        None => None,
    }
}

/// A copy of a vector of strings.
pub fn copy_strings(v: &Vec<String>) -> (r: Vec<String>)
    ensures
        r@ == v@,
{
    let mut r: Vec<String> = Vec::new();
    let mut i: usize = 0;
    while i < v.len()
        invariant
            i <= v.len(),
            r@ == v@.take(i as int),
        decreases v.len() - i,
    {
        r.push(v[i].clone());
        proof {
            assert(v@.take(i + 1) =~= v@.take(i as int).push(v@[i as int]));
        }
        i = i + 1;
    }
    assert(v@.take(v.len() as int) =~= v@);
    r
}

/// A copy of a device.
pub fn copy_device(d: &UsbDevice) -> (r: UsbDevice)
    ensures
        r@ == d@,
{
    UsbDevice {
        bus_id: copy_string(&d.bus_id),
        vendor_id: copy_string(&d.vendor_id),
        product_id: copy_string(&d.product_id),
        manufacturer: copy_opt_string(&d.manufacturer),
        product: copy_opt_string(&d.product),
        serial_number: copy_opt_string(&d.serial_number),
        device_class: copy_string(&d.device_class),
        interface_classes: copy_strings(&d.interface_classes),
        drivers: copy_strings(&d.drivers),
        parent_hub: copy_opt_string(&d.parent_hub),
        selected: d.selected,
        selectable: d.selectable,
        risk: copy_string(&d.risk),
        warning: copy_opt_string(&d.warning),
        status: copy_string(&d.status),
    }
}

/// A copy of a session.
pub fn copy_session(s: &Session) -> (r: Session)
    ensures
        r@ == s@,
{
    Session { client_id: copy_string(&s.client_id), devices: copy_strings(&s.devices) }
}

} // verus!
