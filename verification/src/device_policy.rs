//! The client's device policy: which devices may be attached, which carry
//! a warning, and which are refused.

use vstd::prelude::*;
use crate::error::{ClientError, ClientErrorView};
use crate::protocol::{UsbDevice, UsbDeviceView};
use crate::text::{any_eq_ignore_ascii_case, any_eq_ignore_case, eq_ignore_ascii_case, eq_ignore_case, str_eq};

verus! {

/// How the policy treats a device.
#[derive(Clone, Copy, Debug, PartialEq, Eq, Structural)]
pub enum PolicyLevel {
    Allowed,
    Warning,
    Prohibited,
}

/// The policy's verdict on a device, with the label and detail shown to
/// the user.
#[derive(Clone, Copy, Debug, PartialEq, Eq)]
pub struct DevicePolicy {
    pub level: PolicyLevel,
    pub label: &'static str,
    pub detail: &'static str,
}

/// Whether one of the device's interfaces has the class `code`, up to case.
pub open spec fn has_interface_class(d: UsbDeviceView, code: Seq<char>) -> bool {
    any_eq_ignore_case(d.interface_classes, code)
}

/// The name of the first blocked class that the device has, checking mass
/// storage (`08`), audio (`01`) and video (`0e`) in that order.
pub open spec fn blocked_class(d: UsbDeviceView) -> Option<Seq<char>> {
    if has_interface_class(d, "08"@) {
        Some("ストレージ"@)
    } else if has_interface_class(d, "01"@) {
        Some("オーディオ"@)
    } else if has_interface_class(d, "0e"@) {
        Some("ビデオ"@)
    } else {
        None
    }
}

/// Whether the device's vendor is FTDI (`0403`), up to case.
pub open spec fn ftdi(d: UsbDeviceView) -> bool {
    eq_ignore_case(d.vendor_id, "0403"@)
}

/// The level the policy gives a device: blocked classes first, then
/// FTDI, then what the server said of it.
pub open spec fn policy_level(d: UsbDeviceView) -> PolicyLevel {
    if blocked_class(d) is Some {
        PolicyLevel::Prohibited
    } else if ftdi(d) {
        PolicyLevel::Warning
    } else if !d.selectable {
        PolicyLevel::Prohibited
    } else if d.risk != "normal"@ {
        PolicyLevel::Warning
    } else {
        PolicyLevel::Allowed
    }
}

/// The label shown with a device.
pub open spec fn policy_label(d: UsbDeviceView) -> Seq<char> {
    match policy_level(d) {
        PolicyLevel::Prohibited => "禁止"@,
        PolicyLevel::Warning => "WARNING"@,
        PolicyLevel::Allowed => "利用可能"@,
    }
}

/// The detail shown with a device.
pub open spec fn policy_detail(d: UsbDeviceView) -> Seq<char> {
    if blocked_class(d) is Some {
        blocked_class(d)->0
    } else if ftdi(d) {
        "FTDI: usbip-win2互換性問題の可能性"@
    } else if !d.selectable || d.risk != "normal"@ {
        "サーバーのデバイスポリシー"@
    } else {
        "転送許可"@
    }
}

/// The view of an optional string slice.
pub open spec fn opt_str_view(s: Option<&'static str>) -> Option<Seq<char>> {
    match s {
        Some(v) => Some(v@),
        None => None,
    }
}

/// The name of the first blocked interface class of the device, if any.
pub fn prohibited_class(device: &UsbDevice) -> (r: Option<&'static str>)
    ensures
        opt_str_view(r) == blocked_class(device@),
{
    if any_eq_ignore_ascii_case(&device.interface_classes, "08") {
        Some("ストレージ")
    } else if any_eq_ignore_ascii_case(&device.interface_classes, "01") {
        Some("オーディオ")
    } else if any_eq_ignore_ascii_case(&device.interface_classes, "0e") {
        Some("ビデオ")
    } else {
        None
    }
}

/// Whether the device is an FTDI device.
pub fn is_ftdi(device: &UsbDevice) -> (r: bool)
    ensures
        r == ftdi(device@),
{
    eq_ignore_ascii_case(device.vendor_id.as_str(), "0403")
}

/// The policy's verdict on a device.
pub fn evaluate(device: &UsbDevice) -> (r: DevicePolicy)
    ensures
        r.level == policy_level(device@),
        r.label@ == policy_label(device@),
        r.detail@ == policy_detail(device@),
{
    if let Some(class_name) = prohibited_class(device) {
        return DevicePolicy { level: PolicyLevel::Prohibited, label: "禁止", detail: class_name };
    }
    if is_ftdi(device) {
        return DevicePolicy {
            level: PolicyLevel::Warning,
            label: "WARNING",
            detail: "FTDI: usbip-win2互換性問題の可能性",
        };
    }
    let normal = str_eq(device.risk.as_str(), "normal");
    if !device.selectable || !normal {
        return DevicePolicy {
            level: if device.selectable {
                PolicyLevel::Warning
            } else {
                PolicyLevel::Prohibited
            },
            label: if device.selectable {
                "WARNING"
            } else {
                "禁止"
            },
            detail: "サーバーのデバイスポリシー",
        };
    }
    DevicePolicy { level: PolicyLevel::Allowed, label: "利用可能", detail: "転送許可" }
}

/// Why a device may not be acquired or attached, if it may not: a blocked
/// class first, then the server's refusal to offer it.
pub open spec fn refusal(d: UsbDeviceView) -> Option<ClientErrorView> {
    if blocked_class(d) is Some {
        Some(ClientErrorView::ProhibitedDevice { bus_id: d.bus_id, class_name: blocked_class(d)->0 })
    } else if !d.selectable {
        Some(ClientErrorView::DeviceUnavailable(d.bus_id))
    } else {
        None
    }
}

/// Refuses a device with a blocked class, or one that the server does not
/// offer for selection.
pub fn ensure_allowed(device: &UsbDevice) -> (r: Result<(), ClientError>)
    ensures
        match r {
            Ok(()) => refusal(device@) is None,
            Err(e) => refusal(device@) == Some(e@),
        },
{
    if let Some(class_name) = prohibited_class(device) {
        return Err(ClientError::ProhibitedDevice { bus_id: device.bus_id.clone(), class_name });
    }
    if !device.selectable {
        return Err(ClientError::DeviceUnavailable(device.bus_id.clone()));
    }
    Ok(())
}

} // verus!
