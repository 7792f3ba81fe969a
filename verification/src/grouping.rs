//! Devices grouped by the hub they hang off, as the client shows them.

use vstd::prelude::*;
use crate::order::{lemma_sort_set, lemma_sorted_unique, sort_set, sorted_unique};
use crate::protocol::{copy_device, copy_string, device_views, views, UsbDevice, UsbDeviceView};
use crate::text::{concat, lex_lt, owned, str_eq, str_lt};

verus! {

/// The devices behind one hub, or a device on its own.
#[derive(Clone, Debug)]
pub struct DeviceGroup {
    pub id: String,
    pub title: String,
    pub devices: Vec<UsbDevice>,
}

/// A group as values.
pub struct DeviceGroupView {
    pub id: Seq<char>,
    pub title: Seq<char>,
    pub devices: Seq<UsbDeviceView>,
}

impl View for DeviceGroup {
    type V = DeviceGroupView;

    open spec fn view(&self) -> DeviceGroupView {
        DeviceGroupView { id: self.id@, title: self.title@, devices: device_views(self.devices@) }
    }
}

/// The group a device belongs to: its parent hub, or else its own bus ID.
pub open spec fn group_key(d: UsbDeviceView) -> Seq<char> {
    match d.parent_hub {
        Some(p) => p,
        None => d.bus_id,
    }
}

/// The group keys of some devices, in order.
pub open spec fn group_keys(ds: Seq<UsbDeviceView>) -> Seq<Seq<char>> {
    ds.map_values(|d: UsbDeviceView| group_key(d))
}

/// The devices of group `k`, in their order in `ds`.
pub open spec fn members(ds: Seq<UsbDeviceView>, k: Seq<char>) -> Seq<UsbDeviceView>
    decreases ds.len(),
{
    if ds.len() == 0 {
        Seq::empty()
    } else if group_key(ds.last()) == k {
        members(ds.drop_last(), k).push(ds.last())
    } else {
        members(ds.drop_last(), k)
    }
}

/// `w` with `x` put after every device whose bus ID is not greater.
pub open spec fn ins_by_bus(w: Seq<UsbDeviceView>, x: UsbDeviceView) -> Seq<UsbDeviceView>
    decreases w.len(),
{
    if w.len() == 0 {
        seq![x]
    } else if lex_lt(x.bus_id, w[0].bus_id) {
        seq![x] + w
    } else {
        seq![w[0]] + ins_by_bus(w.drop_first(), x)
    }
}

/// The devices ordered by bus ID as text, devices with equal bus IDs in
/// their original order (a stable sort).
pub open spec fn sort_by_bus(v: Seq<UsbDeviceView>) -> Seq<UsbDeviceView>
    decreases v.len(),
{
    if v.len() == 0 {
        Seq::empty()
    } else {
        ins_by_bus(sort_by_bus(v.drop_last()), v.last())
    }
}

/// The title of a group with `n` devices.
pub open spec fn group_title(id: Seq<char>, n: nat) -> Seq<char> {
    if n > 1 {
        "USBハブ "@ + id
    } else {
        "単体デバイス"@
    }
}

/// The group with key `k`.
pub open spec fn group_of(ds: Seq<UsbDeviceView>, k: Seq<char>) -> DeviceGroupView {
    DeviceGroupView {
        id: k,
        title: group_title(k, members(ds, k).len()),
        devices: sort_by_bus(members(ds, k)),
    }
}

/// The groups of some devices: one per group key, in the order of the keys.
pub open spec fn grouped(ds: Seq<UsbDeviceView>) -> Seq<DeviceGroupView> {
    sort_set(group_keys(ds)).map_values(|k: Seq<char>| group_of(ds, k))
}

/// The views of a sequence of groups.
pub open spec fn group_views(gs: Seq<DeviceGroup>) -> Seq<DeviceGroupView> {
    gs.map_values(|g: DeviceGroup| g@)
}

proof fn lemma_ins_by_bus(w: Seq<UsbDeviceView>, x: UsbDeviceView, p: int)
    requires
        0 <= p <= w.len(),
        forall|m: int| 0 <= m < p ==> !lex_lt(x.bus_id, (#[trigger] w[m]).bus_id),
        p < w.len() ==> lex_lt(x.bus_id, w[p].bus_id),
    ensures
        ins_by_bus(w, x) == w.take(p).push(x) + w.skip(p),
    decreases p,
{
    if p == 0 {
        assert(w.skip(0) =~= w);
        if w.len() == 0 {
            assert(seq![x] =~= w.take(0).push(x) + w.skip(0));
        } else {
            assert(seq![x] + w =~= w.take(0).push(x) + w.skip(0));
        }
    } else {
        let t = w.drop_first();
        assert forall|m: int| 0 <= m < p - 1 implies !lex_lt(x.bus_id, (#[trigger] t[m]).bus_id) by {
            assert(t[m] == w[m + 1]);
        }
        if p < w.len() {
            assert(t[p - 1] == w[p]);
        }
        lemma_ins_by_bus(t, x, p - 1);
        assert(seq![w[0]] + (t.take(p - 1).push(x) + t.skip(p - 1)) =~= w.take(p).push(x) + w.skip(p));
    }
}

/// Orders devices by bus ID as text, keeping the order of devices with
/// equal bus IDs.
pub fn sort_by_bus_id(devices: &Vec<UsbDevice>) -> (r: Vec<UsbDevice>)
    ensures
        device_views(r@) == sort_by_bus(device_views(devices@)),
{
    let ghost dv = device_views(devices@);
    let mut r: Vec<UsbDevice> = Vec::new();
    let mut i: usize = 0;
    while i < devices.len()
        invariant
            i <= devices.len(),
            dv == device_views(devices@),
            device_views(r@) == sort_by_bus(dv.take(i as int)),
        decreases devices.len() - i,
    {
        let d = copy_device(&devices[i]);
        let ghost w = device_views(r@);
        let mut p: usize = 0;
        while p < r.len() && !str_lt(d.bus_id.as_str(), r[p].bus_id.as_str())
            invariant
                p <= r.len(),
                w == device_views(r@),
                forall|m: int| 0 <= m < p ==> !lex_lt(d@.bus_id, (#[trigger] w[m]).bus_id),
            decreases r.len() - p,
        {
            assert(w[p as int] == r@[p as int]@);
            p = p + 1;
        }
        proof {
            if p < r.len() {
                assert(w[p as int] == r@[p as int]@);
            }
            lemma_ins_by_bus(w, d@, p as int);
            assert(dv.take(i + 1).drop_last() =~= dv.take(i as int));
            assert(dv.take(i + 1).last() == d@);
        }
        r.insert(p, d);
        assert(device_views(r@) =~= w.take(p as int).push(d@) + w.skip(p as int));
        i = i + 1;
    }
    assert(dv.take(devices.len() as int) =~= dv);
    r
}

/// The group key of a device.
fn key_of(d: &UsbDevice) -> (r: String)
    ensures
        r@ == group_key(d@),
{
    match &d.parent_hub {
        Some(p) => copy_string(p),
        None => copy_string(&d.bus_id),
    }
}

/// The devices of group `k`, in their order.
fn members_of(devices: &Vec<UsbDevice>, k: &str) -> (r: Vec<UsbDevice>)
    ensures
        device_views(r@) == members(device_views(devices@), k@),
{
    let ghost dv = device_views(devices@);
    let mut r: Vec<UsbDevice> = Vec::new();
    let mut i: usize = 0;
    while i < devices.len()
        invariant
            i <= devices.len(),
            dv == device_views(devices@),
            device_views(r@) == members(dv.take(i as int), k@),
        decreases devices.len() - i,
    {
        proof {
            assert(dv.take(i + 1).drop_last() =~= dv.take(i as int));
            assert(dv.take(i + 1).last() == dv[i as int]);
        }
        let key = key_of(&devices[i]);
        if str_eq(key.as_str(), k) {
            let ghost before = device_views(r@);
            r.push(copy_device(&devices[i]));
            assert(device_views(r@) =~= before.push(dv[i as int]));
        }
        i = i + 1;
    }
    assert(dv.take(devices.len() as int) =~= dv);
    r
}

/// Groups devices by the hub they hang off: one group per parent hub (a
/// device without one forms its own group under its bus ID), the groups in
/// the order of their keys, the devices of each ordered by bus ID, and a
/// title that names the hub when more than one device shares it.
pub fn group_devices(devices: &Vec<UsbDevice>) -> (r: Vec<DeviceGroup>)
    ensures
        group_views(r@) == grouped(device_views(devices@)),
{
    let ghost dv = device_views(devices@);
    let mut keys: Vec<String> = Vec::new();
    let mut i: usize = 0;
    while i < devices.len()
        invariant
            i <= devices.len(),
            dv == device_views(devices@),
            views(keys@) == group_keys(dv.take(i as int)),
        decreases devices.len() - i,
    {
        let k = key_of(&devices[i]);
        let ghost before = views(keys@);
        keys.push(k);
        assert(views(keys@) =~= before.push(group_key(dv[i as int])));
        assert(group_keys(dv.take(i + 1)) =~= group_keys(dv.take(i as int)).push(group_key(dv[i as int])));
        i = i + 1;
    }
    assert(dv.take(devices.len() as int) =~= dv);
    let ids = sorted_unique(&keys);
    proof {
        lemma_sort_set(group_keys(dv));
        lemma_sorted_unique(views(ids@), sort_set(group_keys(dv)));
    }
    let ghost want = grouped(dv);
    let mut r: Vec<DeviceGroup> = Vec::new();
    let mut j: usize = 0;
    while j < ids.len()
        invariant
            j <= ids.len(),
            dv == device_views(devices@),
            want == grouped(dv),
            views(ids@) == sort_set(group_keys(dv)),
            group_views(r@) == want.take(j as int),
        decreases ids.len() - j,
    {
        let id = &ids[j];
        let m = members_of(devices, id.as_str());
        let n = m.len();
        let sorted = sort_by_bus_id(&m);
        let title = if n > 1 {
            concat("USBハブ ", id.as_str())
        } else {
            owned("単体デバイス")
        };
        let g = DeviceGroup { id: copy_string(id), title, devices: sorted };
        let ghost before = group_views(r@);
        r.push(g);
        proof {
            assert(views(ids@)[j as int] == ids@[j as int]@);
            assert(g@ == group_of(dv, ids@[j as int]@));
            assert(want[j as int] == g@);
            assert(group_views(r@) =~= before.push(g@));
            assert(want.take(j + 1) =~= want.take(j as int).push(want[j as int]));
        }
        j = j + 1;
    }
    assert(want.take(ids.len() as int) =~= want);
    r
}

proof fn lemma_ins_by_bus_contains(w: Seq<UsbDeviceView>, x: UsbDeviceView, y: UsbDeviceView)
    ensures
        ins_by_bus(w, x).len() == w.len() + 1,
        ins_by_bus(w, x).contains(y) <==> (w.contains(y) || y == x),
    decreases w.len(),
{
    if w.len() == 0 {
        assert(ins_by_bus(w, x)[0] == x);
    } else if lex_lt(x.bus_id, w[0].bus_id) {
        let r = seq![x] + w;
        if w.contains(y) {
            let k = choose|k: int| 0 <= k < w.len() && w[k] == y;
            assert(r[k + 1] == y);
        }
        if r.contains(y) && y != x {
            let k = choose|k: int| 0 <= k < r.len() && r[k] == y;
            assert(w[k - 1] == y);
        }
        assert(r[0] == x);
    } else {
        let t = w.drop_first();
        lemma_ins_by_bus_contains(t, x, y);
        let r = seq![w[0]] + ins_by_bus(t, x);
        if w.contains(y) {
            let k = choose|k: int| 0 <= k < w.len() && w[k] == y;
            if k == 0 {
                assert(r[0] == y);
            } else {
                assert(t[k - 1] == y);
                let q = choose|q: int| 0 <= q < ins_by_bus(t, x).len() && ins_by_bus(t, x)[q] == y;
                assert(r[q + 1] == y);
            }
        }
        if y == x {
            let q = choose|q: int| 0 <= q < ins_by_bus(t, x).len() && ins_by_bus(t, x)[q] == y;
            assert(r[q + 1] == y);
        }
        if r.contains(y) {
            let k = choose|k: int| 0 <= k < r.len() && r[k] == y;
            if k == 0 {
                assert(w[0] == y);
            } else {
                assert(ins_by_bus(t, x)[k - 1] == y);
                if t.contains(y) {
                    let q = choose|q: int| 0 <= q < t.len() && t[q] == y;
                    assert(w[q + 1] == y);
                }
            }
        }
    }
}

/// Ordering devices by bus ID keeps exactly the devices it was given.
pub proof fn lemma_sort_by_bus_contains(v: Seq<UsbDeviceView>, y: UsbDeviceView)
    ensures
        sort_by_bus(v).len() == v.len(),
        sort_by_bus(v).contains(y) <==> v.contains(y),
    decreases v.len(),
{
    if v.len() > 0 {
        lemma_sort_by_bus_contains(v.drop_last(), y);
        lemma_ins_by_bus_contains(sort_by_bus(v.drop_last()), v.last(), y);
        if v.contains(y) && y != v.last() {
            let k = choose|k: int| 0 <= k < v.len() && v[k] == y;
            assert(v.drop_last()[k] == y);
        }
        if v.drop_last().contains(y) {
            let k = choose|k: int| 0 <= k < v.drop_last().len() && v.drop_last()[k] == y;
            assert(v[k] == y);
        }
        if y == v.last() {
            assert(v[v.len() - 1] == y);
        }
    }
}

/// The members of group `k` are exactly the devices whose key is `k`.
pub proof fn lemma_members_contains(ds: Seq<UsbDeviceView>, k: Seq<char>, y: UsbDeviceView)
    ensures
        members(ds, k).contains(y) <==> (ds.contains(y) && group_key(y) == k),
    decreases ds.len(),
{
    if ds.len() > 0 {
        let d = ds.drop_last();
        lemma_members_contains(d, k, y);
        if ds.contains(y) && y != ds.last() {
            let i = choose|i: int| 0 <= i < ds.len() && ds[i] == y;
            assert(d[i] == y);
        }
        if d.contains(y) {
            let i = choose|i: int| 0 <= i < d.len() && d[i] == y;
            assert(ds[i] == y);
        }
        if y == ds.last() {
            assert(ds[ds.len() - 1] == y);
        }
        if group_key(ds.last()) == k {
            let m = members(d, k);
            if m.push(ds.last()).contains(y) && y != ds.last() {
                let i = choose|i: int| 0 <= i < m.len() + 1 && m.push(ds.last())[i] == y;
                assert(m[i] == y);
            }
            if m.contains(y) {
                let i = choose|i: int| 0 <= i < m.len() && m[i] == y;
                assert(m.push(ds.last())[i] == y);
            }
            if y == ds.last() {
                assert(m.push(ds.last())[m.len() as int] == y);
            }
        }
    }
}

/// Grouping sorts every device into exactly one group: the one whose ID
/// is the device's parent hub (or its own bus ID), and that group holds it;
/// no two groups share an ID, and no group is empty.
pub proof fn law_each_device_in_one_group(ds: Seq<UsbDeviceView>, i: int)
    requires
        0 <= i < ds.len(),
    ensures
        exists|j: int|
            0 <= j < grouped(ds).len() && (#[trigger] grouped(ds)[j]).id == group_key(ds[i])
                && grouped(ds)[j].devices.contains(ds[i]),
        forall|j1: int, j2: int|
            0 <= j1 < j2 < grouped(ds).len() ==> (#[trigger] grouped(ds)[j1]).id != (
            #[trigger] grouped(ds)[j2]).id,
        forall|j: int| 0 <= j < grouped(ds).len() ==> (#[trigger] grouped(ds)[j]).devices.len() > 0,
{
    let keys = group_keys(ds);
    let ks = sort_set(keys);
    lemma_sort_set(keys);
    assert(keys[i] == group_key(ds[i]));
    assert(keys.to_set().contains(group_key(ds[i])));
    assert(ks.to_set().contains(group_key(ds[i])));
    let j = choose|j: int| 0 <= j < ks.len() && ks[j] == group_key(ds[i]);
    lemma_members_contains(ds, ks[j], ds[i]);
    lemma_sort_by_bus_contains(members(ds, ks[j]), ds[i]);
    assert(ds.contains(ds[i]));
    assert(grouped(ds)[j].id == group_key(ds[i]));
    assert forall|j1: int, j2: int| 0 <= j1 < j2 < grouped(ds).len() implies (
    #[trigger] grouped(ds)[j1]).id != (#[trigger] grouped(ds)[j2]).id by {
        assert(lex_lt(ks[j1], ks[j2]));
        crate::order::lemma_lex_irreflexive(ks[j1]);
    }
    assert forall|j: int| 0 <= j < grouped(ds).len() implies (#[trigger] grouped(ds)[j]).devices.len() > 0 by {
        assert(ks.to_set().contains(ks[j]));
        assert(keys.to_set().contains(ks[j]));
        let q = choose|q: int| 0 <= q < keys.len() && keys[q] == ks[j];
        assert(ds.contains(ds[q]));
        lemma_members_contains(ds, ks[j], ds[q]);
        lemma_sort_by_bus_contains(members(ds, ks[j]), ds[q]);
    }
}

} // verus!
