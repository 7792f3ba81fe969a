//! The server's view of the USB devices on the host: how each device is
//! classified, its parent hub, the natural order of bus IDs, and the
//! listing built from what the caller read from sysfs.

use vstd::prelude::*;
use crate::protocol::{copy_device, device_views, views, UsbDevice, UsbDeviceView};
use crate::text::{
    any_eq, any_eq_str, chars_of, eq_ignore_ascii_case, eq_ignore_case, string_of,
};

verus! {

/// How the server classifies a device from its vendor, interface classes
/// and drivers: whether it may be selected, its risk, and a warning.
pub open spec fn classification(
    vendor: Seq<char>,
    classes: Seq<Seq<char>>,
    drivers: Seq<Seq<char>>,
) -> (bool, Seq<char>, Option<Seq<char>>) {
    if any_eq(classes, "08"@) {
        (false, "prohibited"@, Some("禁止: ストレージクラスは切断時にデータを破損する危険があるため転送できません"@))
    } else if any_eq(classes, "01"@) {
        (false, "prohibited"@, Some("禁止: オーディオクラスは現在の安全な対応範囲外です"@))
    } else if any_eq(classes, "0e"@) {
        (false, "prohibited"@, Some("禁止: ビデオクラスは現在の安全な対応範囲外です"@))
    } else if eq_ignore_case(vendor, "0403"@) {
        (true, "caution"@, Some("WARNING: FTDI系デバイスはusbip-win2で互換性問題が報告されています"@))
    } else if !any_eq(drivers, "cdc_acm"@) && (any_eq(classes, "02"@) || any_eq(classes, "0a"@)
        || any_eq(classes, "e0"@)) {
        (true, "caution"@, Some("ネットワーク機器の場合、Piとの接続を失う可能性があります"@))
    } else {
        (true, "normal"@, None)
    }
}

/// The view of a classification.
pub open spec fn classification_view(c: (bool, &'static str, Option<&'static str>)) -> (
    bool,
    Seq<char>,
    Option<Seq<char>>,
) {
    (
        c.0,
        c.1@,
        match c.2 {
            Some(w) => Some(w@),
            None => None,
        },
    )
}

/// Classifies a device: whether it may be selected, its risk, and a warning.
pub fn classify_device(vendor_id: &str, interface_classes: &Vec<String>, drivers: &Vec<String>) -> (r: (
    bool,
    &'static str,
    Option<&'static str>,
))
    ensures
        classification_view(r) == classification(vendor_id@, views(interface_classes@), views(drivers@)),
{
    if any_eq_str(interface_classes, "08") {
        return (
            false,
            "prohibited",
            Some("禁止: ストレージクラスは切断時にデータを破損する危険があるため転送できません"),
        );
    }
    if any_eq_str(interface_classes, "01") {
        return (false, "prohibited", Some("禁止: オーディオクラスは現在の安全な対応範囲外です"));
    }
    if any_eq_str(interface_classes, "0e") {
        return (false, "prohibited", Some("禁止: ビデオクラスは現在の安全な対応範囲外です"));
    }
    if eq_ignore_ascii_case(vendor_id, "0403") {
        return (
            true,
            "caution",
            Some("WARNING: FTDI系デバイスはusbip-win2で互換性問題が報告されています"),
        );
    }
    if !any_eq_str(drivers, "cdc_acm") && (any_eq_str(interface_classes, "02") || any_eq_str(
        interface_classes,
        "0a",
    ) || any_eq_str(interface_classes, "e0")) {
        return (true, "caution", Some("ネットワーク機器の場合、Piとの接続を失う可能性があります"));
    }
    (true, "normal", None)
}

/// The position of the first `c` in `s`, if any.
pub open spec fn first_pos(s: Seq<char>, c: char) -> Option<nat>
    decreases s.len(),
{
    if s.len() == 0 {
        None
    } else if s[0] == c {
        Some(0)
    } else {
        match first_pos(s.drop_first(), c) {
            Some(p) => Some(p + 1),
            None => None,
        }
    }
}

/// The position of the last `c` in `s`, if any.
pub open spec fn last_pos(s: Seq<char>, c: char) -> Option<nat>
    decreases s.len(),
{
    if s.len() == 0 {
        None
    } else if s.last() == c {
        Some((s.len() - 1) as nat)
    } else {
        last_pos(s.drop_last(), c)
    }
}

/// The bus ID of the hub a device hangs from: the bus and the ports up
/// to the last `.` (`1-1.2.3` hangs from `1-1.2`); none for a device on a
/// root port.
pub open spec fn parent_path(s: Seq<char>) -> Option<Seq<char>> {
    match first_pos(s, '-') {
        None => None,
        Some(i) => match last_pos(s.skip(i + 1 as int), '.') {
            None => None,
            Some(j) => Some(s.take((i + 1 + j) as int)),
        },
    }
}

proof fn lemma_first_pos(s: Seq<char>, c: char, k: int)
    requires
        0 <= k <= s.len(),
        forall|m: int| 0 <= m < k ==> s[m] != c,
    ensures
        k < s.len() && s[k] == c ==> first_pos(s, c) == Some(k as nat),
        k == s.len() ==> first_pos(s, c) is None,
    decreases k,
{
    if k > 0 {
        lemma_first_pos(s.drop_first(), c, k - 1);
    } else if s.len() > 0 && s[0] != c {
    }
}

proof fn lemma_last_pos(s: Seq<char>, c: char, k: int)
    requires
        0 <= k <= s.len(),
        forall|m: int| k <= m < s.len() ==> s[m] != c,
    ensures
        k > 0 && s[k - 1] == c ==> last_pos(s, c) == Some((k - 1) as nat),
        k == 0 ==> last_pos(s, c) is None,
    decreases s.len() - k,
{
    if k < s.len() {
        assert(s.drop_last().len() == s.len() - 1);
        assert forall|m: int| k <= m < s.drop_last().len() implies s.drop_last()[m] != c by {
            assert(s.drop_last()[m] == s[m]);
        }
        lemma_last_pos(s.drop_last(), c, k);
        if k > 0 {
            assert(s.drop_last()[k - 1] == s[k - 1]);
        }
    }
}

/// The bus ID of the hub a device hangs from, if any.
pub fn parent_usb_path(bus_id: &str) -> (r: Option<String>)
    ensures
        match r {
            Some(p) => parent_path(bus_id@) == Some(p@),
            None => parent_path(bus_id@) is None,
        },
{
    let s = chars_of(bus_id);
    let mut i: usize = 0;
    while i < s.len() && s[i] != '-'
        invariant
            i <= s.len(),
            s@ == bus_id@,
            forall|m: int| 0 <= m < i ==> s@[m] != '-',
        decreases s.len() - i,
    {
        i = i + 1;
    }
    proof {
        lemma_first_pos(s@, '-', i as int);
    }
    if i == s.len() {
        return None;
    }
    let ghost rest = s@.skip(i + 1);
    let mut j: usize = s.len();
    while j > i + 1 && s[j - 1] != '.'
        invariant
            i + 1 <= j <= s.len(),
            s@ == bus_id@,
            rest == s@.skip(i + 1),
            forall|m: int| j <= m < s.len() ==> s@[m] != '.',
        decreases j,
    {
        j = j - 1;
    }
    proof {
        assert forall|m: int| j - i - 1 <= m < rest.len() implies rest[m] != '.' by {
            assert(rest[m] == s@[m + i + 1]);
        }
        lemma_last_pos(rest, '.', j - i - 1);
        if j > i + 1 {
            assert(rest[j - i - 2] == s@[j - 1]);
        }
    }
    if j == i + 1 {
        return None;
    }
    let mut p: Vec<char> = Vec::new();
    let mut k: usize = 0;
    while k < j - 1
        invariant
            k <= j - 1,
            j <= s.len(),
            p@ == s@.take(k as int),
        decreases j - 1 - k,
    {
        p.push(s[k]);
        assert(s@.take(k + 1) =~= s@.take(k as int).push(s@[k as int]));
        k = k + 1;
    }
    Some(string_of(p.as_slice()))
}

} // verus!

verus! {

/// Whether a character separates the parts of a bus ID.
pub open spec fn is_sep(c: char) -> bool {
    c == '-' || c == '.'
}

/// The parts of `s` between separators (`str::split`), empty ones included.
pub open spec fn split_parts(s: Seq<char>) -> Seq<Seq<char>>
    decreases s.len(),
{
    if s.len() == 0 {
        seq![Seq::empty()]
    } else {
        let p = split_parts(s.drop_last());
        if is_sep(s.last()) {
            p.push(Seq::empty())
        } else {
            p.update(p.len() - 1, p.last().push(s.last()))
        }
    }
}

/// Whether a character is an ASCII digit.
pub open spec fn is_digit(c: char) -> bool {
    '0' <= c <= '9'
}

/// The value of a string of decimal digits.
pub open spec fn digits_value(d: Seq<char>) -> nat
    decreases d.len(),
{
    if d.len() == 0 {
        0
    } else {
        digits_value(d.drop_last()) * 10 + ((d.last() as nat) - 48) as nat
    }
}

/// `p` without a leading `+`.
pub open spec fn unsigned_part(p: Seq<char>) -> Seq<char> {
    if p.len() > 0 && p[0] == '+' {
        p.drop_first()
    } else {
        p
    }
}

/// Whether every character of `d` is a digit.
pub open spec fn all_digits(d: Seq<char>) -> bool {
    forall|i: int| 0 <= i < d.len() ==> is_digit(#[trigger] d[i])
}

/// What `str::parse::<u32>` gives: an optional `+`, then one digit or
/// more, of a value that fits.
pub open spec fn parse_u32(p: Seq<char>) -> Option<u32> {
    let d = unsigned_part(p);
    if d.len() == 0 || !all_digits(d) || digits_value(d) > u32::MAX {
        None
    } else {
        Some(digits_value(d) as u32)
    }
}

/// The numbers among the parts, in order (`filter_map` of `parse`).
pub open spec fn parse_all(ps: Seq<Seq<char>>) -> Seq<u32>
    decreases ps.len(),
{
    if ps.len() == 0 {
        Seq::empty()
    } else {
        let r = parse_all(ps.drop_last());
        match parse_u32(ps.last()) {
            Some(v) => r.push(v),
            None => r,
        }
    }
}

/// The key by which bus IDs are ordered: their numbers, in order.
pub open spec fn bus_key(s: Seq<char>) -> Seq<u32> {
    parse_all(split_parts(s))
}

/// Parses one part of a bus ID as `u32`.
pub fn parse_part(p: &[char]) -> (r: Option<u32>)
    ensures
        r == parse_u32(p@),
{
    let start: usize = if p.len() > 0 && p[0] == '+' {
        1
    } else {
        0
    };
    let ghost d = unsigned_part(p@);
    assert(d =~= p@.skip(start as int));
    if start == p.len() {
        return None;
    }
    let mut value: u64 = 0;
    let mut over = false;
    let mut i: usize = start;
    while i < p.len()
        invariant
            start <= i <= p.len(),
            d == p@.skip(start as int),
            d == unsigned_part(p@),
            forall|k: int| 0 <= k < i - start ==> is_digit(#[trigger] d[k]),
            !over ==> value == digits_value(d.take(i - start)) && value <= u32::MAX,
            over ==> digits_value(d.take(i - start)) > u32::MAX,
        decreases p.len() - i,
    {
        let c = p[i];
        if !('0' <= c && c <= '9') {
            assert(d[i - start] == p@[i as int]);
            assert(!is_digit(d[i - start]));
            assert(d.len() > 0);
            assert(!all_digits(d));
            return None;
        }
        let digit = (c as u32 - 48) as u64;
        proof {
            assert(d.take(i - start + 1).drop_last() =~= d.take(i - start));
            assert(d.take(i - start + 1).last() == c);
        }
        if !over {
            value = value * 10 + digit;
            if value > 4294967295 {
                over = true;
            }
        }
        i = i + 1;
    }
    assert(d.take(p.len() - start) =~= d);
    if over {
        None
    } else {
        Some(value as u32)
    }
}

proof fn lemma_split_nonempty(s: Seq<char>)
    ensures
        split_parts(s).len() >= 1,
    decreases s.len(),
{
    if s.len() > 0 {
        lemma_split_nonempty(s.drop_last());
    }
}

/// The key by which a bus ID is ordered.
pub fn natural_bus_key(bus_id: &str) -> (r: Vec<u32>)
    ensures
        r@ == bus_key(bus_id@),
{
    let s = chars_of(bus_id);
    let mut keys: Vec<u32> = Vec::new();
    let mut cur: Vec<char> = Vec::new();
    let ghost mut done: Seq<Seq<char>> = Seq::empty();
    let mut i: usize = 0;
    proof {
        assert(s@.take(0) =~= Seq::<char>::empty());
        assert(split_parts(s@.take(0)) =~= done.push(cur@));
    }
    while i < s.len()
        invariant
            i <= s.len(),
            s@ == bus_id@,
            split_parts(s@.take(i as int)) == done.push(cur@),
            keys@ == parse_all(done),
        decreases s.len() - i,
    {
        let c = s[i];
        proof {
            assert(s@.take(i + 1).drop_last() =~= s@.take(i as int));
            assert(s@.take(i + 1).last() == c);
        }
        if c == '-' || c == '.' {
            let v = parse_part(cur.as_slice());
            proof {
                let nd = done.push(cur@);
                assert(nd.drop_last() =~= done);
                assert(split_parts(s@.take(i + 1)) =~= nd.push(Seq::empty()));
                done = nd;
            }
            if let Some(n) = v {
                keys.push(n);
            }
            cur = Vec::new();
            assert(split_parts(s@.take(i + 1)) =~= done.push(cur@));
        } else {
            let ghost old_cur = cur@;
            cur.push(c);
            proof {
                let p = done.push(old_cur);
                assert(split_parts(s@.take(i + 1)) =~= p.update(p.len() - 1, p.last().push(c)));
                assert(p.update(p.len() - 1, p.last().push(c)) =~= done.push(cur@));
            }
        }
        i = i + 1;
    }
    let v = parse_part(cur.as_slice());
    proof {
        assert(s@.take(s.len() as int) =~= s@);
        let nd = done.push(cur@);
        assert(nd.drop_last() =~= done);
    }
    if let Some(n) = v {
        keys.push(n);
    }
    keys
}

/// Lexicographic order of number sequences (the order of `Vec<u32>`).
pub open spec fn key_lt(a: Seq<u32>, b: Seq<u32>) -> bool
    decreases a.len(),
{
    if a.len() == 0 {
        b.len() > 0
    } else if b.len() == 0 {
        false
    } else if a[0] < b[0] {
        true
    } else if a[0] == b[0] {
        key_lt(a.drop_first(), b.drop_first())
    } else {
        false
    }
}

/// Whether key `a` comes strictly before key `b`.
pub fn keys_lt(a: &Vec<u32>, b: &Vec<u32>) -> (r: bool)
    ensures
        r == key_lt(a@, b@),
{
    let mut i: usize = 0;
    assert(a@.skip(0) =~= a@);
    assert(b@.skip(0) =~= b@);
    while i < a.len() && i < b.len()
        invariant
            i <= a.len(),
            i <= b.len(),
            key_lt(a@, b@) == key_lt(a@.skip(i as int), b@.skip(i as int)),
        decreases a.len() - i,
    {
        assert(a@.skip(i as int)[0] == a@[i as int]);
        assert(b@.skip(i as int)[0] == b@[i as int]);
        if a[i] < b[i] {
            return true;
        }
        if a[i] != b[i] {
            return false;
        }
        assert(a@.skip(i as int).drop_first() =~= a@.skip(i + 1));
        assert(b@.skip(i as int).drop_first() =~= b@.skip(i + 1));
        i = i + 1;
    }
    i == a.len() && i < b.len()
}

/// The key of a device.
pub open spec fn device_key(d: UsbDeviceView) -> Seq<u32> {
    bus_key(d.bus_id)
}

/// `w` with `x` put after every device whose key is not greater.
pub open spec fn ins_by_key(w: Seq<UsbDeviceView>, x: UsbDeviceView) -> Seq<UsbDeviceView>
    decreases w.len(),
{
    if w.len() == 0 {
        seq![x]
    } else if key_lt(device_key(x), device_key(w[0])) {
        seq![x] + w
    } else {
        seq![w[0]] + ins_by_key(w.drop_first(), x)
    }
}

/// The devices in the natural order of their bus IDs, devices with equal
/// keys in their original order (`sort_by_key`, which is stable).
pub open spec fn sort_by_key(v: Seq<UsbDeviceView>) -> Seq<UsbDeviceView>
    decreases v.len(),
{
    if v.len() == 0 {
        Seq::empty()
    } else {
        ins_by_key(sort_by_key(v.drop_last()), v.last())
    }
}

proof fn lemma_ins_by_key(w: Seq<UsbDeviceView>, x: UsbDeviceView, p: int)
    requires
        0 <= p <= w.len(),
        forall|m: int| 0 <= m < p ==> !key_lt(device_key(x), device_key(#[trigger] w[m])),
        p < w.len() ==> key_lt(device_key(x), device_key(w[p])),
    ensures
        ins_by_key(w, x) == w.take(p).push(x) + w.skip(p),
    decreases p,
{
    if p == 0 {
        assert(w.skip(0) =~= w);
        if w.len() == 0 {
            assert(seq![x] =~= w.take(0).push(x) + w.skip(0));
        } else {
            assert(seq![x] + w =~= w.take(0).push(x) + w.skip(0));
        }
    } else {
        let t = w.drop_first();
        assert forall|m: int| 0 <= m < p - 1 implies !key_lt(device_key(x), device_key(#[trigger] t[m])) by {
            assert(t[m] == w[m + 1]);
        }
        if p < w.len() {
            assert(t[p - 1] == w[p]);
        }
        lemma_ins_by_key(t, x, p - 1);
        assert(seq![w[0]] + (t.take(p - 1).push(x) + t.skip(p - 1)) =~= w.take(p).push(x) + w.skip(p));
    }
}

/// Orders devices by the natural order of their bus IDs, keeping the order
/// of devices with equal keys.
pub fn sort_devices(devices: Vec<UsbDevice>) -> (r: Vec<UsbDevice>)
    ensures
        device_views(r@) == sort_by_key(device_views(devices@)),
{
    let ghost dv = device_views(devices@);
    let mut r: Vec<UsbDevice> = Vec::new();
    let mut rk: Vec<Vec<u32>> = Vec::new();
    let mut i: usize = 0;
    while i < devices.len()
        invariant
            i <= devices.len(),
            dv == device_views(devices@),
            device_views(r@) == sort_by_key(dv.take(i as int)),
            rk@.len() == r@.len(),
            forall|m: int| 0 <= m < rk@.len() ==> #[trigger] rk@[m]@ == device_key(r@[m]@),
        decreases devices.len() - i,
    {
        let d = copy_device(&devices[i]);
        let k = natural_bus_key(d.bus_id.as_str());
        let ghost w = device_views(r@);
        let mut p: usize = 0;
        while p < r.len() && !keys_lt(&k, &rk[p])
            invariant
                p <= r.len(),
                rk@.len() == r@.len(),
                w == device_views(r@),
                k@ == device_key(d@),
                forall|m: int| 0 <= m < rk@.len() ==> #[trigger] rk@[m]@ == device_key(r@[m]@),
                forall|m: int| 0 <= m < p ==> !key_lt(device_key(d@), device_key(#[trigger] w[m])),
            decreases r.len() - p,
        {
            assert(w[p as int] == r@[p as int]@);
            p = p + 1;
        }
        proof {
            if p < r.len() {
                assert(w[p as int] == r@[p as int]@);
            }
            lemma_ins_by_key(w, d@, p as int);
            assert(dv.take(i + 1).drop_last() =~= dv.take(i as int));
            assert(dv.take(i + 1).last() == d@);
        }
        let ghost old_r = r@;
        let ghost old_rk = rk@;
        r.insert(p, d);
        rk.insert(p, k);
        proof {
            assert(device_views(r@) =~= w.take(p as int).push(d@) + w.skip(p as int));
            assert forall|m: int| 0 <= m < rk@.len() implies #[trigger] rk@[m]@ == device_key(r@[m]@) by {
                if m < p {
                    assert(rk@[m] == old_rk[m] && r@[m] == old_r[m]);
                } else if m > p {
                    assert(rk@[m] == old_rk[m - 1] && r@[m] == old_r[m - 1]);
                }
            }
        }
        i = i + 1;
    }
    assert(dv.take(devices.len() as int) =~= dv);
    r
}

} // verus!

verus! {

/// The value of a sysfs attribute as read: trimmed, and none when nothing
/// is left.
pub open spec fn attribute(raw: Option<Seq<char>>) -> Option<Seq<char>> {
    match raw {
        Some(r) => if crate::text::trim(r).len() > 0 {
            Some(crate::text::trim(r))
        } else {
            None
        },
        None => None,
    }
}

/// An attribute's value, or the empty string.
pub open spec fn attribute_or_empty(raw: Option<Seq<char>>) -> Seq<char> {
    match attribute(raw) {
        Some(v) => v,
        None => Seq::empty(),
    }
}

/// The value of a sysfs attribute from the text read, if any.
pub fn attribute_value(raw: &Option<String>) -> (r: Option<String>)
    ensures
        crate::protocol::opt_view(r) == attribute(crate::protocol::opt_view(*raw)),
{
    match raw {
        Some(text) => {
            if crate::text::is_blank_str(text.as_str()) {
                None
            } else {
                Some(crate::text::trimmed(text.as_str()))
            }
        },
        None => None,
    }
}

/// An attribute's value, or the empty string.
fn attribute_or_default(raw: &Option<String>) -> (r: String)
    ensures
        r@ == attribute_or_empty(crate::protocol::opt_view(*raw)),
{
    match attribute_value(raw) {
        Some(v) => v,
        None => String::new(),
    }
}

/// Whether a sysfs entry is listed as a device: not an interface (no `:`
/// in its name), with a vendor ID, and not a hub (class `09`).
pub open spec fn listed(name: Seq<char>, has_vendor: bool, device_class: Option<Seq<char>>) -> bool {
    !name.contains(':') && has_vendor && !eq_ignore_case(attribute_or_empty(device_class), "09"@)
}

/// Whether a sysfs entry is listed as a device.
pub fn is_listed(name: &str, has_vendor: bool, device_class: &Option<String>) -> (r: bool)
    ensures
        r == listed(name@, has_vendor, crate::protocol::opt_view(*device_class)),
{
    let v = chars_of(name);
    let mut i: usize = 0;
    while i < v.len()
        invariant
            i <= v.len(),
            v@ == name@,
            forall|k: int| 0 <= k < i ==> v@[k] != ':',
        decreases v.len() - i,
    {
        if v[i] == ':' {
            assert(name@.contains(':')) by {
                assert(name@[i as int] == ':');
            }
            return false;
        }
        i = i + 1;
    }
    if !has_vendor {
        return false;
    }
    let class = attribute_or_default(device_class);
    !eq_ignore_ascii_case(class.as_str(), "09")
}

/// The values of some attributes, each once, sorted.
pub open spec fn attribute_values(raws: Seq<Option<Seq<char>>>) -> Seq<Seq<char>>
    decreases raws.len(),
{
    if raws.len() == 0 {
        Seq::empty()
    } else {
        match attribute(raws.last()) {
            Some(v) => attribute_values(raws.drop_last()).push(v),
            None => attribute_values(raws.drop_last()),
        }
    }
}

/// The values of some attributes, in order, the absent ones left out.
fn present_values(raws: &Vec<Option<String>>) -> (r: Vec<String>)
    ensures
        views(r@) == attribute_values(raws@.map_values(|o: Option<String>| crate::protocol::opt_view(o))),
{
    let ghost rv = raws@.map_values(|o: Option<String>| crate::protocol::opt_view(o));
    let mut r: Vec<String> = Vec::new();
    let mut i: usize = 0;
    while i < raws.len()
        invariant
            i <= raws.len(),
            rv == raws@.map_values(|o: Option<String>| crate::protocol::opt_view(o)),
            views(r@) == attribute_values(rv.take(i as int)),
        decreases raws.len() - i,
    {
        proof {
            assert(rv.take(i + 1).drop_last() =~= rv.take(i as int));
            assert(rv.take(i + 1).last() == rv[i as int]);
        }
        match attribute_value(&raws[i]) {
            Some(v) => {
                let ghost before = views(r@);
                r.push(v);
                assert(views(r@) =~= before.push(r@[r@.len() - 1]@));
            },
            None => {},
        }
        i = i + 1;
    }
    assert(rv.take(raws.len() as int) =~= rv);
    r
}

/// A listed device as the server reports it, from what was read from
/// sysfs: trimmed attributes, the interface classes and drivers each once
/// and sorted, the classification, the parent hub, and whether the web
/// UI selected it.
pub fn device_from_sysfs(
    bus_id: &str,
    vendor_id: &Option<String>,
    product_id: &Option<String>,
    manufacturer: &Option<String>,
    product: &Option<String>,
    serial: &Option<String>,
    device_class: &Option<String>,
    interface_classes: &Vec<Option<String>>,
    drivers: &Vec<String>,
    selected: &Vec<String>,
) -> (r: UsbDevice)
    ensures
        r.bus_id@ == bus_id@,
        r.vendor_id@ == attribute_or_empty(crate::protocol::opt_view(*vendor_id)),
        r.product_id@ == attribute_or_empty(crate::protocol::opt_view(*product_id)),
        crate::protocol::opt_view(r.manufacturer) == attribute(crate::protocol::opt_view(*manufacturer)),
        crate::protocol::opt_view(r.product) == attribute(crate::protocol::opt_view(*product)),
        crate::protocol::opt_view(r.serial_number) == attribute(crate::protocol::opt_view(*serial)),
        r.device_class@ == attribute_or_empty(crate::protocol::opt_view(*device_class)),
        crate::order::strictly_sorted(views(r.interface_classes@)),
        views(r.interface_classes@).to_set() == attribute_values(
            interface_classes@.map_values(|o: Option<String>| crate::protocol::opt_view(o)),
        ).to_set(),
        crate::order::strictly_sorted(views(r.drivers@)),
        views(r.drivers@).to_set() == views(drivers@).to_set(),
        crate::protocol::opt_view(r.parent_hub) == parent_path(bus_id@),
        r.selected == views(selected@).contains(bus_id@),
        classification(r.vendor_id@, views(r.interface_classes@), views(r.drivers@)) == (
            r.selectable,
            r.risk@,
            crate::protocol::opt_view(r.warning),
        ),
        r.status@ == "available"@,
{
    let classes = crate::order::sorted_unique(&present_values(interface_classes));
    let drivers = crate::order::sorted_unique(drivers);
    let vendor = attribute_or_default(vendor_id);
    let (selectable, risk, warning) = classify_device(vendor.as_str(), &classes, &drivers);
    UsbDevice {
        bus_id: crate::text::owned(bus_id),
        vendor_id: vendor,
        product_id: attribute_or_default(product_id),
        manufacturer: attribute_value(manufacturer),
        product: attribute_value(product),
        serial_number: attribute_value(serial),
        device_class: attribute_or_default(device_class),
        interface_classes: classes,
        drivers,
        parent_hub: parent_usb_path(bus_id),
        selected: crate::text::contains_string(selected, bus_id),
        selectable,
        risk: crate::text::owned(risk),
        warning: match warning {
            Some(w) => Some(crate::text::owned(w)),
            None => None,
        },
        status: crate::text::owned("available"),
    }
}

} // verus!

verus! {

/// A demonstration device as the mock backend lists it.
pub open spec fn mock_view(
    bus_id: Seq<char>,
    vendor_id: Seq<char>,
    product_id: Seq<char>,
    product: Seq<char>,
    class: Seq<char>,
    selected: Seq<Seq<char>>,
) -> UsbDeviceView {
    let classes = seq![class];
    let drivers = if class == "03"@ { seq!["usbhid"@] } else { seq!["cdc_acm"@] };
    let c = classification(vendor_id, classes, drivers);
    UsbDeviceView {
        bus_id,
        vendor_id,
        product_id,
        manufacturer: Some("Mock Device"@),
        product: Some(product),
        serial_number: None,
        device_class: "00"@,
        interface_classes: classes,
        drivers,
        parent_hub: parent_path(bus_id),
        selected: selected.contains(bus_id),
        selectable: c.0,
        risk: c.1,
        warning: c.2,
        status: "available"@,
    }
}

/// The devices of the mock backend, in order.
pub open spec fn mock_listing(selected: Seq<Seq<char>>) -> Seq<UsbDeviceView> {
    seq![
        mock_view("1-1.2.1"@, "04da"@, "3f18"@, "HaritoraX Wireless"@, "02"@, selected),
        mock_view("1-1.2.2"@, "04da"@, "3f18"@, "HaritoraX Wireless"@, "02"@, selected),
        mock_view("1-1.2.3"@, "04da"@, "3f18"@, "HaritoraX Wireless"@, "02"@, selected),
        mock_view("1-1.4"@, "1234"@, "0001"@, "USB Keyboard"@, "03"@, selected),
        mock_view("1-1.5"@, "1234"@, "0002"@, "USB Mouse"@, "03"@, selected),
        mock_view("1-1.6"@, "0781"@, "0001"@, "USB Storage"@, "08"@, selected),
        mock_view("1-1.7"@, "1234"@, "0003"@, "USB Audio"@, "01"@, selected),
        mock_view("1-1.8"@, "1234"@, "0004"@, "USB Camera"@, "0e"@, selected),
        mock_view("1-1.9"@, "0403"@, "6001"@, "FTDI Serial Adapter"@, "ff"@, selected),
    ]
}

/// One demonstration device.
fn mock_device(
    bus_id: &str,
    vendor_id: &str,
    product_id: &str,
    product: &str,
    class: &str,
    selected: &Vec<String>,
) -> (r: UsbDevice)
    ensures
        r@ == mock_view(bus_id@, vendor_id@, product_id@, product@, class@, views(selected@)),
{
    let mut interface_classes: Vec<String> = Vec::new();
    interface_classes.push(crate::text::owned(class));
    let mut drivers: Vec<String> = Vec::new();
    if crate::text::str_eq(class, "03") {
        drivers.push(crate::text::owned("usbhid"));
    } else {
        drivers.push(crate::text::owned("cdc_acm"));
    }
    proof {
        reveal_strlit("03");
    }
    assert(views(interface_classes@) =~= seq![class@]);
    assert(views(drivers@) =~= (if class@ == "03"@ { seq!["usbhid"@] } else { seq!["cdc_acm"@] }));
    let (selectable, risk, warning) = classify_device(vendor_id, &interface_classes, &drivers);
    UsbDevice {
        bus_id: crate::text::owned(bus_id),
        vendor_id: crate::text::owned(vendor_id),
        product_id: crate::text::owned(product_id),
        manufacturer: Some(crate::text::owned("Mock Device")),
        product: Some(crate::text::owned(product)),
        serial_number: None,
        device_class: crate::text::owned("00"),
        interface_classes,
        drivers,
        parent_hub: parent_usb_path(bus_id),
        selected: crate::text::contains_string(selected, bus_id),
        selectable,
        risk: crate::text::owned(risk),
        warning: match warning {
            Some(w) => Some(crate::text::owned(w)),
            None => None,
        },
        status: crate::text::owned("available"),
    }
}

/// The devices that the mock backend lists, each marked selected when its
/// bus ID is in `selected`.
pub fn mock_devices(selected: &Vec<String>) -> (r: Vec<UsbDevice>)
    ensures
        device_views(r@) == mock_listing(views(selected@)),
{
    let mut r: Vec<UsbDevice> = Vec::new();
    r.push(mock_device("1-1.2.1", "04da", "3f18", "HaritoraX Wireless", "02", selected));
    r.push(mock_device("1-1.2.2", "04da", "3f18", "HaritoraX Wireless", "02", selected));
    r.push(mock_device("1-1.2.3", "04da", "3f18", "HaritoraX Wireless", "02", selected));
    r.push(mock_device("1-1.4", "1234", "0001", "USB Keyboard", "03", selected));
    r.push(mock_device("1-1.5", "1234", "0002", "USB Mouse", "03", selected));
    r.push(mock_device("1-1.6", "0781", "0001", "USB Storage", "08", selected));
    r.push(mock_device("1-1.7", "1234", "0003", "USB Audio", "01", selected));
    r.push(mock_device("1-1.8", "1234", "0004", "USB Camera", "0e", selected));
    r.push(mock_device("1-1.9", "0403", "6001", "FTDI Serial Adapter", "ff", selected));
    assert(device_views(r@) =~= mock_listing(views(selected@)));
    r
}

} // verus!

verus! {

/// Whether sysfs entry `name` is an interface of device `bus` (its name
/// begins with the bus ID and `:`).
pub open spec fn interface_of(name: Seq<char>, bus: Seq<char>) -> bool {
    (bus + ":"@).is_prefix_of(name)
}

/// Whether sysfs entry `name` is an interface of device `bus_id`.
pub fn is_interface_of(name: &str, bus_id: &str) -> (r: bool)
    ensures
        r == interface_of(name@, bus_id@),
{
    let prefix = crate::text::concat(bus_id, ":");
    crate::text::has_prefix(name, prefix.as_str())
}

} // verus!
