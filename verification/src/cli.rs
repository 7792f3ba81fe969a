//! The command-line client's checks and the text it prints: who owns the
//! session, which devices a request may take, and how devices and
//! sessions are listed.

use vstd::prelude::*;
use crate::config::{read_url, url_reading, Config};
use crate::device_policy::{
    blocked_class, ensure_allowed, evaluate, ftdi, is_ftdi, policy_label, prohibited_class, refusal,
};
use crate::error::{ClientError, ClientErrorView};
use crate::protocol::{copy_device, device_views, views, Session, SessionView, UsbDevice, UsbDeviceView};
use crate::text::{any_eq_ignore_ascii_case, any_eq_ignore_case, concat, join, join_with, owned, str_eq};

verus! {

/// The view of an optional session.
pub open spec fn opt_session(s: Option<Session>) -> Option<SessionView> {
    match s {
        Some(x) => Some(x@),
        None => None,
    }
}

/// Refuses to act while another client holds the session.
pub fn ensure_not_owned_by_other(session: &Option<Session>, client_id: &str) -> (r: Result<(), ClientError>)
    ensures
        match opt_session(*session) {
            Some(s) => if s.client_id != client_id@ {
                r matches Err(e) && e@ == ClientErrorView::SessionOwnedByOther(s.client_id)
            } else {
                r is Ok
            },
            None => r is Ok,
        },
{
    match session {
        Some(s) => {
            if !str_eq(s.client_id.as_str(), client_id) {
                return Err(ClientError::SessionOwnedByOther(s.client_id.clone()));
            }
            Ok(())
        },
        None => Ok(()),
    }
}

/// The message when there is no session to release or detach.
pub open spec fn no_session_message() -> Seq<char> {
    "解放・切断できるセッションがありません"@
}

/// The client's own session: refused when another client holds it or
/// when there is none.
pub fn ensure_owned(session: Option<Session>, client_id: &str) -> (r: Result<Session, ClientError>)
    ensures
        match opt_session(session) {
            Some(s) => if s.client_id == client_id@ {
                r matches Ok(x) && x@ == s
            } else {
                r matches Err(e) && e@ == ClientErrorView::SessionOwnedByOther(s.client_id)
            },
            None => r matches Err(e) && e@ == ClientErrorView::Config(no_session_message()),
        },
{
    match session {
        Some(s) => {
            if str_eq(s.client_id.as_str(), client_id) {
                Ok(s)
            } else {
                Err(ClientError::SessionOwnedByOther(s.client_id))
            }
        },
        None => Err(ClientError::Config(owned("解放・切断できるセッションがありません"))),
    }
}

/// Refuses to detach a device that the session does not hold.
pub fn ensure_held(session: &Session, bus_id: &str) -> (r: Result<(), ClientError>)
    ensures
        session@.devices.contains(bus_id@) ==> r is Ok,
        !session@.devices.contains(bus_id@) ==> (r matches Err(e) && e@
            == ClientErrorView::DeviceUnavailable(bus_id@)),
{
    if crate::text::contains_string(&session.devices, bus_id) {
        Ok(())
    } else {
        Err(ClientError::DeviceUnavailable(owned(bus_id)))
    }
}

/// The first device with bus ID `b`.
pub open spec fn find_device(ds: Seq<UsbDeviceView>, b: Seq<char>) -> Option<UsbDeviceView>
    decreases ds.len(),
{
    if ds.len() == 0 {
        None
    } else if ds[0].bus_id == b {
        Some(ds[0])
    } else {
        find_device(ds.drop_first(), b)
    }
}

/// The first device with bus ID `bus_id`, as a copy.
pub fn find_by_bus_id(devices: &Vec<UsbDevice>, bus_id: &str) -> (r: Option<UsbDevice>)
    ensures
        match r {
            Some(d) => find_device(device_views(devices@), bus_id@) == Some(d@),
            None => find_device(device_views(devices@), bus_id@) is None,
        },
{
    let ghost dv = device_views(devices@);
    let mut i: usize = 0;
    assert(dv.skip(0) =~= dv);
    while i < devices.len()
        invariant
            i <= devices.len(),
            dv == device_views(devices@),
            find_device(dv, bus_id@) == find_device(dv.skip(i as int), bus_id@),
        decreases devices.len() - i,
    {
        assert(dv.skip(i as int)[0] == devices@[i as int]@);
        assert(dv.skip(i as int).drop_first() =~= dv.skip(i + 1));
        if str_eq(devices[i].bus_id.as_str(), bus_id) {
            return Some(copy_device(&devices[i]));
        }
        i = i + 1;
    }
    None
}

/// Why device `b` may not be attached, if it may not: missing from the
/// list, a blocked class, or not offered.
pub open spec fn attach_refusal(ds: Seq<UsbDeviceView>, b: Seq<char>) -> Option<ClientErrorView> {
    match find_device(ds, b) {
        None => Some(ClientErrorView::DeviceUnavailable(b)),
        Some(d) => refusal(d),
    }
}

/// The device to attach: it must be listed, free of blocked classes and
/// offered for selection.
pub fn attach_target(devices: &Vec<UsbDevice>, bus_id: &str) -> (r: Result<UsbDevice, ClientError>)
    ensures
        match r {
            Ok(d) => attach_refusal(device_views(devices@), bus_id@) is None && find_device(
                device_views(devices@),
                bus_id@,
            ) == Some(d@),
            Err(e) => attach_refusal(device_views(devices@), bus_id@) == Some(e@),
        },
{
    match find_by_bus_id(devices, bus_id) {
        None => Err(ClientError::DeviceUnavailable(owned(bus_id))),
        Some(d) => {
            ensure_allowed(&d)?;
            Ok(d)
        },
    }
}

/// The devices a request names: the selected ones when it names none,
/// else each named one, or the first name that is not listed.
pub open spec fn requested_devices(ds: Seq<UsbDeviceView>, requested: Seq<Seq<char>>) -> Result<
    Seq<UsbDeviceView>,
    Seq<char>,
>
    decreases requested.len(),
{
    if requested.len() == 0 {
        Ok(Seq::empty())
    } else {
        match find_device(ds, requested[0]) {
            None => Err(requested[0]),
            Some(d) => match requested_devices(ds, requested.drop_first()) {
                Ok(rest) => Ok(seq![d] + rest),
                Err(b) => Err(b),
            },
        }
    }
}

/// The selected devices, in order.
pub open spec fn selected_devices(ds: Seq<UsbDeviceView>) -> Seq<UsbDeviceView>
    decreases ds.len(),
{
    if ds.len() == 0 {
        Seq::empty()
    } else if ds.last().selected {
        selected_devices(ds.drop_last()).push(ds.last())
    } else {
        selected_devices(ds.drop_last())
    }
}

/// The devices that pass the policy, in order, up to the first that does
/// not, and that one's refusal.
pub open spec fn passing_prefix(ts: Seq<UsbDeviceView>) -> (Seq<UsbDeviceView>, Option<ClientErrorView>)
    decreases ts.len(),
{
    if ts.len() == 0 {
        (Seq::empty(), None)
    } else if refusal(ts[0]) is Some {
        (Seq::empty(), refusal(ts[0]))
    } else {
        let rest = passing_prefix(ts.drop_first());
        (seq![ts[0]] + rest.0, rest.1)
    }
}

/// What an acquire request is checked against: the devices it takes that
/// pass, in order (each is warned about), and the first refusal, if any.
pub open spec fn acquire_screening(ds: Seq<UsbDeviceView>, requested: Seq<Seq<char>>) -> (
    Seq<UsbDeviceView>,
    Option<ClientErrorView>,
) {
    if requested.len() == 0 {
        passing_prefix(selected_devices(ds))
    } else {
        match requested_devices(ds, requested) {
            Err(b) => (Seq::empty(), Some(ClientErrorView::DeviceUnavailable(b))),
            Ok(ts) => passing_prefix(ts),
        }
    }
}

/// The view of an optional error.
pub open spec fn opt_error(e: Option<ClientError>) -> Option<ClientErrorView> {
    match e {
        Some(x) => Some(x@),
        None => None,
    }
}

/// The devices that passed the policy, up to the first refused one.
fn screen_targets(targets: Vec<UsbDevice>) -> (r: (Vec<UsbDevice>, Option<ClientError>))
    ensures
        (device_views(r.0@), opt_error(r.1)) == passing_prefix(device_views(targets@)),
{
    let ghost tv = device_views(targets@);
    let mut passed: Vec<UsbDevice> = Vec::new();
    let mut i: usize = 0;
    assert(tv.skip(0) =~= tv);
    assert(device_views(passed@) =~= Seq::<UsbDeviceView>::empty());
    while i < targets.len()
        invariant
            i <= targets.len(),
            tv == device_views(targets@),
            passing_prefix(tv) == (
                device_views(passed@) + passing_prefix(tv.skip(i as int)).0,
                passing_prefix(tv.skip(i as int)).1,
            ),
        decreases targets.len() - i,
    {
        assert(tv.skip(i as int)[0] == targets@[i as int]@);
        assert(tv.skip(i as int).drop_first() =~= tv.skip(i + 1));
        match ensure_allowed(&targets[i]) {
            Err(e) => {
                assert(device_views(passed@) + Seq::<UsbDeviceView>::empty() =~= device_views(passed@));
                return (passed, Some(e));
            },
            Ok(()) => {},
        }
        let ghost before = device_views(passed@);
        passed.push(copy_device(&targets[i]));
        assert(device_views(passed@) =~= before.push(tv[i as int]));
        assert(before + (seq![tv[i as int]] + passing_prefix(tv.skip(i + 1)).0) =~= device_views(passed@)
            + passing_prefix(tv.skip(i + 1)).0);
        i = i + 1;
    }
    assert(tv.skip(i as int) =~= Seq::<UsbDeviceView>::empty());
    assert(device_views(passed@) + Seq::<UsbDeviceView>::empty() =~= device_views(passed@));
    (passed, None)
}

/// The devices a request names, or the first name that is not listed.
fn named_devices(devices: &Vec<UsbDevice>, requested: &Vec<String>) -> (r: Result<Vec<UsbDevice>, String>)
    ensures
        match r {
            Ok(ts) => requested_devices(device_views(devices@), views(requested@)) == Ok::<
                Seq<UsbDeviceView>,
                Seq<char>,
            >(device_views(ts@)),
            Err(b) => requested_devices(device_views(devices@), views(requested@)) == Err::<
                Seq<UsbDeviceView>,
                Seq<char>,
            >(b@),
        },
{
    let ghost dv = device_views(devices@);
    let ghost rv = views(requested@);
    let mut found: Vec<UsbDevice> = Vec::new();
    let mut i: usize = 0;
    assert(rv.skip(0) =~= rv);
    assert(device_views(found@) =~= Seq::<UsbDeviceView>::empty());
    while i < requested.len()
        invariant
            i <= requested.len(),
            dv == device_views(devices@),
            rv == views(requested@),
            requested_devices(dv, rv) == match requested_devices(dv, rv.skip(i as int)) {
                Ok(rest) => Ok(device_views(found@) + rest),
                Err(b) => Err(b),
            },
        decreases requested.len() - i,
    {
        assert(rv.skip(i as int)[0] == requested@[i as int]@);
        assert(rv.skip(i as int).drop_first() =~= rv.skip(i + 1));
        match find_by_bus_id(devices, requested[i].as_str()) {
            None => {
                return Err(requested[i].clone());
            },
            Some(d) => {
                let ghost before = device_views(found@);
                found.push(d);
                assert(device_views(found@) =~= before.push(found@[found@.len() - 1]@));
                proof {
                    match requested_devices(dv, rv.skip(i + 1)) {
                        Ok(rest) => {
                            assert(before + (seq![found@[found@.len() - 1]@] + rest) =~= device_views(found@)
                                + rest);
                        },
                        Err(_) => {},
                    }
                }
            },
        }
        i = i + 1;
    }
    assert(rv.skip(i as int) =~= Seq::<Seq<char>>::empty());
    assert(device_views(found@) + Seq::<UsbDeviceView>::empty() =~= device_views(found@));
    Ok(found)
}

/// The selected devices, in order.
fn selected_of(devices: &Vec<UsbDevice>) -> (r: Vec<UsbDevice>)
    ensures
        device_views(r@) == selected_devices(device_views(devices@)),
{
    let ghost dv = device_views(devices@);
    let mut r: Vec<UsbDevice> = Vec::new();
    let mut i: usize = 0;
    while i < devices.len()
        invariant
            i <= devices.len(),
            dv == device_views(devices@),
            device_views(r@) == selected_devices(dv.take(i as int)),
        decreases devices.len() - i,
    {
        proof {
            assert(dv.take(i + 1).drop_last() =~= dv.take(i as int));
            assert(dv.take(i + 1).last() == dv[i as int]);
        }
        if devices[i].selected {
            let ghost before = device_views(r@);
            r.push(copy_device(&devices[i]));
            assert(device_views(r@) =~= before.push(dv[i as int]));
        }
        i = i + 1;
    }
    assert(dv.take(devices.len() as int) =~= dv);
    r
}

/// Checks an acquire request against the server's list: the devices it
/// takes that pass the policy, in order (the caller warns about each), and
/// the refusal of the first that does not, or of the first name that is
/// not listed.
pub fn screen_acquire(devices: &Vec<UsbDevice>, requested: &Vec<String>) -> (r: (
    Vec<UsbDevice>,
    Option<ClientError>,
))
    ensures
        (device_views(r.0@), opt_error(r.1)) == acquire_screening(device_views(devices@), views(requested@)),
{
    if requested.len() == 0 {
        let targets = selected_of(devices);
        return screen_targets(targets);
    }
    match named_devices(devices, requested) {
        Err(b) => {
            let none: Vec<UsbDevice> = Vec::new();
            assert(device_views(none@) =~= Seq::<UsbDeviceView>::empty());
            (none, Some(ClientError::DeviceUnavailable(b)))
        },
        Ok(ts) => screen_targets(ts),
    }
}

} // verus!

verus! {

/// How `{}` writes a boolean.
pub open spec fn bool_text(b: bool) -> Seq<char> {
    if b {
        "true"@
    } else {
        "false"@
    }
}

/// A boolean as `{}` writes it.
fn bool_string(b: bool) -> (r: String)
    ensures
        r@ == bool_text(b),
{
    if b {
        owned("true")
    } else {
        owned("false")
    }
}

/// The lines listing one device: a summary, then the reason it is
/// blocked, the FTDI warning, or the server's warning.
pub open spec fn device_lines(d: UsbDeviceView) -> Seq<Seq<char>> {
    let name = match d.product {
        Some(p) => p,
        None => "(製品名不明)"@,
    };
    let head = "["@ + policy_label(d) + "] "@ + d.bus_id + "  "@ + d.vendor_id + ":"@ + d.product_id
        + "  "@ + name + "  selectable="@ + bool_text(d.selectable) + " risk="@ + d.risk + " status="@
        + d.status;
    let blocked = match blocked_class(d) {
        Some(c) => seq!["  禁止理由: "@ + c + "クラスは安全上の理由により転送対象外です"@],
        None => Seq::empty(),
    };
    let ftdi_note = if ftdi(d) {
        seq!["  WARNING: FTDI系デバイスはusbip-win2で互換性問題が報告されています"@]
    } else {
        Seq::empty()
    };
    let warning = match d.warning {
        Some(w) => if blocked_class(d) is None && !ftdi(d) {
            seq!["  警告: "@ + w]
        } else {
            Seq::empty()
        },
        None => Seq::empty(),
    };
    seq![head] + blocked + ftdi_note + warning
}

/// The lines listing some devices.
pub open spec fn devices_lines(ds: Seq<UsbDeviceView>) -> Seq<Seq<char>>
    decreases ds.len(),
{
    if ds.len() == 0 {
        Seq::empty()
    } else {
        devices_lines(ds.drop_last()) + device_lines(ds.last())
    }
}

/// The report of the device list.
pub open spec fn devices_report(ds: Seq<UsbDeviceView>) -> Seq<Seq<char>> {
    if ds.len() == 0 {
        seq!["USBデバイスはありません"@]
    } else {
        devices_lines(ds)
    }
}

fn push_line(lines: &mut Vec<String>, line: String)
    ensures
        views(final(lines)@) == views(old(lines)@).push(line@),
{
    lines.push(line);
    assert(views(lines@) =~= views(old(lines)@).push(line@));
}

/// The lines listing one device.
pub fn device_summary(device: &UsbDevice) -> (r: Vec<String>)
    ensures
        views(r@) == device_lines(device@),
{
    let policy = evaluate(device);
    let name = match &device.product {
        Some(p) => p.clone(),
        None => owned("(製品名不明)"),
    };
    let mut head = concat("[", policy.label);
    head = concat(head.as_str(), "] ");
    head = concat(head.as_str(), device.bus_id.as_str());
    head = concat(head.as_str(), "  ");
    head = concat(head.as_str(), device.vendor_id.as_str());
    head = concat(head.as_str(), ":");
    head = concat(head.as_str(), device.product_id.as_str());
    head = concat(head.as_str(), "  ");
    head = concat(head.as_str(), name.as_str());
    head = concat(head.as_str(), "  selectable=");
    head = concat(head.as_str(), bool_string(device.selectable).as_str());
    head = concat(head.as_str(), " risk=");
    head = concat(head.as_str(), device.risk.as_str());
    head = concat(head.as_str(), " status=");
    head = concat(head.as_str(), device.status.as_str());
    let mut lines: Vec<String> = Vec::new();
    push_line(&mut lines, head);
    let blocked = prohibited_class(device);
    if let Some(c) = blocked {
        let line = concat("  禁止理由: ", c);
        push_line(&mut lines, concat(line.as_str(), "クラスは安全上の理由により転送対象外です"));
    }
    let f = is_ftdi(device);
    if f {
        push_line(&mut lines, owned("  WARNING: FTDI系デバイスはusbip-win2で互換性問題が報告されています"));
    }
    if blocked.is_none() && !f {
        if let Some(w) = &device.warning {
            push_line(&mut lines, concat("  警告: ", w.as_str()));
        }
    }
    let ghost d = device@;
    assert(views(lines@) =~= device_lines(d));
    lines
}

/// The lines listing the devices the server reports.
pub fn devices_summary(devices: &Vec<UsbDevice>) -> (r: Vec<String>)
    ensures
        views(r@) == devices_report(device_views(devices@)),
{
    let mut lines: Vec<String> = Vec::new();
    if devices.len() == 0 {
        push_line(&mut lines, owned("USBデバイスはありません"));
        assert(views(lines@) =~= seq!["USBデバイスはありません"@]);
        return lines;
    }
    let ghost dv = device_views(devices@);
    let mut i: usize = 0;
    assert(views(lines@) =~= Seq::<Seq<char>>::empty());
    while i < devices.len()
        invariant
            i <= devices.len(),
            dv == device_views(devices@),
            views(lines@) == devices_lines(dv.take(i as int)),
        decreases devices.len() - i,
    {
        let more = device_summary(&devices[i]);
        let mut k: usize = 0;
        let ghost before = views(lines@);
        while k < more.len()
            invariant
                k <= more.len(),
                views(lines@) == before + views(more@).take(k as int),
            decreases more.len() - k,
        {
            push_line(&mut lines, more[k].clone());
            assert(views(more@).take(k + 1) =~= views(more@).take(k as int).push(more@[k as int]@));
            k = k + 1;
        }
        proof {
            assert(views(more@).take(more.len() as int) =~= views(more@));
            assert(dv.take(i + 1).drop_last() =~= dv.take(i as int));
            assert(dv.take(i + 1).last() == devices@[i as int]@);
        }
        i = i + 1;
    }
    assert(dv.take(devices.len() as int) =~= dv);
    lines
}

/// The report of a session.
pub open spec fn session_report(s: Option<SessionView>) -> Seq<char> {
    match s {
        Some(x) => "client_id: "@ + x.client_id + "\ndevices: "@ + if x.devices.len() == 0 {
            "(なし)"@
        } else {
            join_with(x.devices, ", "@)
        },
        None => "アクティブなセッションはありません"@,
    }
}

/// The report of a session.
pub fn session_summary(session: &Option<Session>) -> (r: String)
    ensures
        r@ == session_report(opt_session(*session)),
{
    match session {
        Some(s) => {
            let head = concat("client_id: ", s.client_id.as_str());
            let head = concat(head.as_str(), "\ndevices: ");
            if s.devices.len() == 0 {
                concat(head.as_str(), "(なし)")
            } else {
                let list = join(&s.devices, ", ");
                concat(head.as_str(), list.as_str())
            }
        },
        None => owned("アクティブなセッションはありません"),
    }
}

/// The warnings shown before a device is acquired, attached or detached:
/// FTDI, then the risk of losing data, then the server's warning.
pub open spec fn warning_lines(d: UsbDeviceView) -> Seq<Seq<char>> {
    let ftdi_note = if ftdi(d) {
        seq![
            "WARNING: "@ + d.bus_id
                + " はFTDI系デバイスです。usbip-win2では列挙失敗やSTATUS_NO_SUCH_DEVICEなどの互換性問題が報告されています。"@,
        ]
    } else {
        Seq::empty()
    };
    let risk_note = if d.risk != "normal"@ || any_eq_ignore_case(d.interface_classes, "08"@) {
        seq![
            "警告: "@ + d.bus_id
                + " は切断時にデータ損失や機能停止の可能性があります。書き込みを停止し、安全に取り外せる状態を確認してください。"@,
        ]
    } else {
        Seq::empty()
    };
    let warning = match d.warning {
        Some(w) => seq!["警告: "@ + w],
        None => Seq::empty(),
    };
    ftdi_note + risk_note + warning
}

/// The warnings shown before a device is acquired, attached or detached.
pub fn device_warnings(device: &UsbDevice) -> (r: Vec<String>)
    ensures
        views(r@) == warning_lines(device@),
{
    let mut lines: Vec<String> = Vec::new();
    if is_ftdi(device) {
        let line = concat("WARNING: ", device.bus_id.as_str());
        push_line(
            &mut lines,
            concat(
                line.as_str(),
                " はFTDI系デバイスです。usbip-win2では列挙失敗やSTATUS_NO_SUCH_DEVICEなどの互換性問題が報告されています。",
            ),
        );
    }
    if !str_eq(device.risk.as_str(), "normal") || any_eq_ignore_ascii_case(&device.interface_classes, "08") {
        let line = concat("警告: ", device.bus_id.as_str());
        push_line(
            &mut lines,
            concat(
                line.as_str(),
                " は切断時にデータ損失や機能停止の可能性があります。書き込みを停止し、安全に取り外せる状態を確認してください。",
            ),
        );
    }
    if let Some(w) = &device.warning {
        push_line(&mut lines, concat("警告: ", w.as_str()));
    }
    let ghost d = device@;
    assert(views(lines@) =~= warning_lines(d));
    lines
}

/// The message when the server URL has no host.
pub open spec fn no_host_message() -> Seq<char> {
    "サーバーURLにホストがありません"@
}

/// The host of the server, which usbip connects to.
pub open spec fn server_host_of(url: Seq<char>) -> Result<Seq<char>, ClientErrorView> {
    match url_reading(url) {
        Ok(p) => match p.host {
            Some(h) => Ok(h),
            None => Err(ClientErrorView::Config(no_host_message())),
        },
        Err(_) => Err(ClientErrorView::Config(no_host_message())),
    }
}

/// The host of the configured server.
pub fn server_host(config: &Config) -> (r: Result<String, ClientError>)
    ensures
        crate::config::text_result_view(r) == server_host_of(config.server_url@),
{
    match read_url(config.server_url.as_str()) {
        Ok(p) => match p.host {
            Some(h) => Ok(h),
            None => Err(ClientError::Config(owned("サーバーURLにホストがありません"))),
        },
        Err(_) => Err(ClientError::Config(owned("サーバーURLにホストがありません"))),
    }
}

/// The notes printed by a dry-run attach, around the usbip command.
pub open spec fn dry_run_notes(client_id: Seq<char>, bus_id: Seq<char>) -> (Seq<char>, Seq<char>) {
    (
        "dry-run: acquire client_id="@ + client_id + " BUS_ID="@ + bus_id,
        "dry-run: attach失敗時は取得したセッションをrelease"@,
    )
}

/// The notes printed by a dry-run attach.
pub fn dry_run_attach_notes(client_id: &str, bus_id: &str) -> (r: (String, String))
    ensures
        (r.0@, r.1@) == dry_run_notes(client_id@, bus_id@),
{
    let first = concat("dry-run: acquire client_id=", client_id);
    let first = concat(first.as_str(), " BUS_ID=");
    (concat(first.as_str(), bus_id), owned("dry-run: attach失敗時は取得したセッションをrelease"))
}

} // verus!
