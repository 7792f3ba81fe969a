//! The errors of the client side, and the text each one is shown with.

use vstd::prelude::*;
use crate::text::{append_chars, concat, owned, signed_decimal, signed_decimal_chars};

verus! {

/// What went wrong in a client operation.
#[derive(Clone, Debug)]
pub enum ClientError {
    Config(String),
    ConfigIo { path: String, source: String },
    Connection { url: String, source: String },
    Json { url: String, source: String },
    Http { status: String, message: String },
    UsbipNotFound,
    UsbipIo(String),
    UsbipFailed { code: Option<i32>, message: String, admin_hint: &'static str },
    UsbipPortNotFound(String),
    FtdiCompatibility(String),
    SessionOwnedByOther(String),
    SessionAlreadyExists,
    DeviceUnavailable(String),
    ProhibitedDevice { bus_id: String, class_name: &'static str },
    Cancelled,
    Disconnect(String),
}

/// An error as values.
pub enum ClientErrorView {
    Config(Seq<char>),
    ConfigIo { path: Seq<char>, source: Seq<char> },
    Connection { url: Seq<char>, source: Seq<char> },
    Json { url: Seq<char>, source: Seq<char> },
    Http { status: Seq<char>, message: Seq<char> },
    UsbipNotFound,
    UsbipIo(Seq<char>),
    UsbipFailed { code: Option<i32>, message: Seq<char>, admin_hint: Seq<char> },
    UsbipPortNotFound(Seq<char>),
    FtdiCompatibility(Seq<char>),
    SessionOwnedByOther(Seq<char>),
    SessionAlreadyExists,
    DeviceUnavailable(Seq<char>),
    ProhibitedDevice { bus_id: Seq<char>, class_name: Seq<char> },
    Cancelled,
    Disconnect(Seq<char>),
}

impl View for ClientError {
    type V = ClientErrorView;

    open spec fn view(&self) -> ClientErrorView {
        match self {
            ClientError::Config(m) => ClientErrorView::Config(m@),
            ClientError::ConfigIo { path, source } => ClientErrorView::ConfigIo {
                path: path@,
                source: source@,
            },
            ClientError::Connection { url, source } => ClientErrorView::Connection {
                url: url@,
                source: source@,
            },
            ClientError::Json { url, source } => ClientErrorView::Json {
                url: url@,
                source: source@,
            },
            ClientError::Http { status, message } => ClientErrorView::Http {
                status: status@,
                message: message@,
            },
            ClientError::UsbipNotFound => ClientErrorView::UsbipNotFound,
            ClientError::UsbipIo(m) => ClientErrorView::UsbipIo(m@),
            ClientError::UsbipFailed { code, message, admin_hint } => ClientErrorView::UsbipFailed {
                code: *code,
                message: message@,
                admin_hint: admin_hint@,
            },
            ClientError::UsbipPortNotFound(b) => ClientErrorView::UsbipPortNotFound(b@),
            ClientError::FtdiCompatibility(b) => ClientErrorView::FtdiCompatibility(b@),
            ClientError::SessionOwnedByOther(c) => ClientErrorView::SessionOwnedByOther(c@),
            ClientError::SessionAlreadyExists => ClientErrorView::SessionAlreadyExists,
            ClientError::DeviceUnavailable(b) => ClientErrorView::DeviceUnavailable(b@),
            ClientError::ProhibitedDevice { bus_id, class_name } => ClientErrorView::ProhibitedDevice {
                bus_id: bus_id@,
                class_name: class_name@,
            },
            ClientError::Cancelled => ClientErrorView::Cancelled,
            ClientError::Disconnect(m) => ClientErrorView::Disconnect(m@),
        }
    }
}

/// How an optional exit code is written (`{:?}` of `Option<i32>`).
pub open spec fn code_text(code: Option<i32>) -> Seq<char> {
    match code {
        Some(c) => "Some("@ + signed_decimal(c as int) + ")"@,
        None => "None"@,
    }
}

/// The text an error is shown with.
pub open spec fn error_view_text(e: ClientErrorView) -> Seq<char> {
    match e {
        ClientErrorView::Config(m) => "configuration error: "@ + m,
        ClientErrorView::ConfigIo { path, source } => "failed to read or write configuration file "@ + path
            + ": "@ + source,
        ClientErrorView::Connection { url, source } => "failed to connect to the server ("@ + url + "): "@
            + source,
        ClientErrorView::Json { url, source } => "サーバー応答をJSONとして解析できません ("@ + url
            + "): "@ + source,
        ClientErrorView::Http { status, message } => "server returned HTTP "@ + status + ": "@ + message,
        ClientErrorView::UsbipNotFound => "usbip-win2 was not found; install it with the official installer and add usbip.exe to PATH, or select it in Settings"@,
        ClientErrorView::UsbipIo(m) => "failed to run usbip-win2: "@ + m,
        ClientErrorView::UsbipFailed { code, message, admin_hint } => "usbip-win2 failed with exit code "@
            + code_text(code) + ": "@ + message + admin_hint,
        ClientErrorView::UsbipPortNotFound(b) => "no attached USB/IP port was found for BUS_ID "@ + b,
        ClientErrorView::FtdiCompatibility(b) => "Windows could not enumerate FTDI device "@ + b
            + "; this may be a known compatibility issue between usbip-win2 and the FTDI driver"@,
        ClientErrorView::SessionOwnedByOther(c) => "the session is owned by another client ("@ + c
            + "); it will not be forcefully acquired or released"@,
        ClientErrorView::SessionAlreadyExists => "this client already has a session; duplicate acquisition was skipped"@,
        ClientErrorView::DeviceUnavailable(b) => "device "@ + b
            + " is missing from the server list or is not selectable"@,
        ClientErrorView::ProhibitedDevice { bus_id, class_name } => "device "@ + bus_id
            + " contains a blocked USB class ("@ + class_name + ") and cannot be acquired or attached"@,
        ClientErrorView::Cancelled => "the operation was cancelled because the application is exiting"@,
        ClientErrorView::Disconnect(m) => "errors occurred while detaching devices: "@ + m,
    }
}

/// `a`, `b` and `c` in a row.
fn join3(a: &str, b: &str, c: &str) -> (r: String)
    ensures
        r@ == a@ + b@ + c@,
{
    let mut r = a.to_owned();
    r.append(b);
    r.append(c);
    r
}

/// `a`, `b`, `c` and `d` in a row.
fn join4(a: &str, b: &str, c: &str, d: &str) -> (r: String)
    ensures
        r@ == a@ + b@ + c@ + d@,
{
    let mut r = a.to_owned();
    r.append(b);
    r.append(c);
    r.append(d);
    r
}

/// How an optional exit code is written.
pub fn code_string(code: Option<i32>) -> (r: String)
    ensures
        r@ == code_text(code),
{
    match code {
        Some(c) => {
            let mut r = owned("Some(");
            let digits = signed_decimal_chars(c as i64);
            append_chars(&mut r, digits.as_slice());
            r.append(")");
            r
        },
        None => owned("None"),
    }
}

impl ClientError {
    /// The text this error is shown with.
    pub fn message(&self) -> (r: String)
        ensures
            r@ == error_view_text(self@),
    {
        match self {
            ClientError::Config(m) => concat("configuration error: ", m.as_str()),
            ClientError::ConfigIo { path, source } => join4(
                "failed to read or write configuration file ",
                path.as_str(),
                ": ",
                source.as_str(),
            ),
            ClientError::Connection { url, source } => join4(
                "failed to connect to the server (",
                url.as_str(),
                "): ",
                source.as_str(),
            ),
            ClientError::Json { url, source } => join4(
                "サーバー応答をJSONとして解析できません (",
                url.as_str(),
                "): ",
                source.as_str(),
            ),
            ClientError::Http { status, message } => join4(
                "server returned HTTP ",
                status.as_str(),
                ": ",
                message.as_str(),
            ),
            ClientError::UsbipNotFound => owned(
                "usbip-win2 was not found; install it with the official installer and add usbip.exe to PATH, or select it in Settings",
            ),
            ClientError::UsbipIo(m) => concat("failed to run usbip-win2: ", m.as_str()),
            ClientError::UsbipFailed { code, message, admin_hint } => {
                let c = code_string(*code);
                let mut r = join3("usbip-win2 failed with exit code ", c.as_str(), ": ");
                r.append(message.as_str());
                r.append(admin_hint);
                r
            },
            ClientError::UsbipPortNotFound(b) => concat(
                "no attached USB/IP port was found for BUS_ID ",
                b.as_str(),
            ),
            ClientError::FtdiCompatibility(b) => join3(
                "Windows could not enumerate FTDI device ",
                b.as_str(),
                "; this may be a known compatibility issue between usbip-win2 and the FTDI driver",
            ),
            ClientError::SessionOwnedByOther(c) => join3(
                "the session is owned by another client (",
                c.as_str(),
                "); it will not be forcefully acquired or released",
            ),
            ClientError::SessionAlreadyExists => owned(
                "this client already has a session; duplicate acquisition was skipped",
            ),
            ClientError::DeviceUnavailable(b) => join3(
                "device ",
                b.as_str(),
                " is missing from the server list or is not selectable",
            ),
            ClientError::ProhibitedDevice { bus_id, class_name } => {
                let mut r = join4("device ", bus_id.as_str(), " contains a blocked USB class (", class_name);
                r.append(") and cannot be acquired or attached");
                r
            },
            ClientError::Cancelled => owned("the operation was cancelled because the application is exiting"),
            ClientError::Disconnect(m) => concat("errors occurred while detaching devices: ", m.as_str()),
        }
    }
}

/// A copy of an error.
pub fn copy_error(e: &ClientError) -> (r: ClientError)
    ensures
        r == *e,
        r@ == e@,
{
    match e {
        ClientError::Config(m) => ClientError::Config(m.clone()),
        ClientError::ConfigIo { path, source } => ClientError::ConfigIo {
            path: path.clone(),
            source: source.clone(),
        },
        ClientError::Connection { url, source } => ClientError::Connection {
            url: url.clone(),
            source: source.clone(),
        },
        ClientError::Json { url, source } => ClientError::Json {
            url: url.clone(),
            source: source.clone(),
        },
        ClientError::Http { status, message } => ClientError::Http {
            status: status.clone(),
            message: message.clone(),
        },
        ClientError::UsbipNotFound => ClientError::UsbipNotFound,
        ClientError::UsbipIo(m) => ClientError::UsbipIo(m.clone()),
        ClientError::UsbipFailed { code, message, admin_hint } => ClientError::UsbipFailed {
            code: *code,
            message: message.clone(),
            admin_hint: *admin_hint,
        },
        ClientError::UsbipPortNotFound(b) => ClientError::UsbipPortNotFound(b.clone()),
        ClientError::FtdiCompatibility(b) => ClientError::FtdiCompatibility(b.clone()),
        ClientError::SessionOwnedByOther(c) => ClientError::SessionOwnedByOther(c.clone()),
        ClientError::SessionAlreadyExists => ClientError::SessionAlreadyExists,
        ClientError::DeviceUnavailable(b) => ClientError::DeviceUnavailable(b.clone()),
        ClientError::ProhibitedDevice { bus_id, class_name } => ClientError::ProhibitedDevice {
            bus_id: bus_id.clone(),
            class_name: *class_name,
        },
        ClientError::Cancelled => ClientError::Cancelled,
        ClientError::Disconnect(m) => ClientError::Disconnect(m.clone()),
    }
}

} // verus!
