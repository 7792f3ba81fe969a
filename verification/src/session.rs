//! The server's exclusive session: which client holds which devices, and
//! how acquire and release requests change that. The HTTP handlers and the
//! host agent calls are the caller's; each request is decided here before
//! any device is bound or unbound, and applied here after.

use vstd::prelude::*;
use crate::connection::{strings_without, without};
use crate::order::{
    insert_sorted, lemma_sort_set, lemma_sorted_subsequence, lemma_sorted_unique, sort_set, sorted_unique,
    strictly_sorted,
};
use crate::protocol::{
    copy_session, copy_strings, device_views, views, AcquireRequest, ReleaseRequest, Session,
    SessionView, UsbDevice, UsbDeviceView,
};
use crate::text::{contains_string, is_blank, is_blank_str, owned, str_eq};

verus! {

pub const STATUS_OK: u16 = 200;

pub const STATUS_CREATED: u16 = 201;

pub const STATUS_NO_CONTENT: u16 = 204;

pub const STATUS_BAD_REQUEST: u16 = 400;

pub const STATUS_CONFLICT: u16 = 409;

pub const STATUS_INTERNAL_ERROR: u16 = 500;

pub const STATUS_BAD_GATEWAY: u16 = 502;

/// A refused request: the HTTP status and the error message.
#[derive(Clone, Debug)]
pub struct Rejection {
    pub status: u16,
    pub error: String,
}

/// What to do with an acquire request.
#[derive(Debug)]
pub enum AcquirePlan {
    /// Refuse it.
    Reject(Rejection),
    /// Nothing to add: answer with the current session.
    Current(Session),
    /// Bind these bus IDs, then add them to the session.
    Bind(Vec<String>),
}

/// What to do with a release request.
#[derive(Debug)]
pub enum ReleasePlan {
    /// Refuse it.
    Reject(Rejection),
    /// There is no session: nothing to do.
    Nothing,
    /// Unbind these bus IDs, then remove them from the session.
    Unbind(Vec<String>),
}

/// An acquire plan as values.
pub enum AcquirePlanView {
    Reject(u16, Seq<char>),
    Current(SessionView),
    Bind(Seq<Seq<char>>),
}

/// A release plan as values.
pub enum ReleasePlanView {
    Reject(u16, Seq<char>),
    Nothing,
    Unbind(Seq<Seq<char>>),
}

impl View for AcquirePlan {
    type V = AcquirePlanView;

    open spec fn view(&self) -> AcquirePlanView {
        match self {
            AcquirePlan::Reject(r) => AcquirePlanView::Reject(r.status, r.error@),
            AcquirePlan::Current(s) => AcquirePlanView::Current(s@),
            AcquirePlan::Bind(v) => AcquirePlanView::Bind(views(v@)),
        }
    }
}

impl View for ReleasePlan {
    type V = ReleasePlanView;

    open spec fn view(&self) -> ReleasePlanView {
        match self {
            ReleasePlan::Reject(r) => ReleasePlanView::Reject(r.status, r.error@),
            ReleasePlan::Nothing => ReleasePlanView::Nothing,
            ReleasePlan::Unbind(v) => ReleasePlanView::Unbind(views(v@)),
        }
    }
}

/// The sorted sequence without repetition that holds exactly the strings of `s`.
pub open spec fn sorted_of(s: Set<Seq<char>>) -> Seq<Seq<char>> {
    choose|a: Seq<Seq<char>>| strictly_sorted(a) && a.to_set() == s
}

/// Whether the server lists `b` as a device that may be selected.
pub open spec fn offered(available: Seq<UsbDeviceView>, b: Seq<char>) -> bool {
    exists|i: int| 0 <= i < available.len() && available[i].selectable && #[trigger] available[i].bus_id == b
}

/// Whether every bus ID of `ids` is offered.
pub open spec fn all_offered(available: Seq<UsbDeviceView>, ids: Seq<Seq<char>>) -> bool {
    forall|i: int| 0 <= i < ids.len() ==> offered(available, #[trigger] ids[i])
}

/// The devices of a session, or none without a session.
pub open spec fn held(current: Option<SessionView>) -> Seq<Seq<char>> {
    match current {
        Some(s) => s.devices,
        None => Seq::empty(),
    }
}

/// How the server answers an acquire request from `client` for `devices`
/// (the saved `selection` when empty), given the listed devices (or the
/// error that listing gave) and the current session.
pub open spec fn acquire_plan(
    client: Seq<char>,
    devices: Seq<Seq<char>>,
    selection: Seq<Seq<char>>,
    available: Result<Seq<UsbDeviceView>, Seq<char>>,
    current: Option<SessionView>,
) -> AcquirePlanView {
    if is_blank(client) {
        AcquirePlanView::Reject(STATUS_BAD_REQUEST, "client_id must not be empty"@)
    } else {
        match available {
            Err(e) => AcquirePlanView::Reject(STATUS_INTERNAL_ERROR, e),
            Ok(av) => {
                let requested = if devices.len() == 0 {
                    selection
                } else {
                    devices
                };
                if !all_offered(av, requested) {
                    AcquirePlanView::Reject(
                        STATUS_BAD_REQUEST,
                        "acquire contains an unavailable or prohibited USB device"@,
                    )
                } else if requested.len() == 0 {
                    AcquirePlanView::Reject(
                        STATUS_BAD_REQUEST,
                        "no USB devices were requested or selected"@,
                    )
                } else if current is Some && current->0.client_id != client {
                    AcquirePlanView::Reject(STATUS_CONFLICT, "USB devices are already acquired"@)
                } else {
                    let additions = requested.to_set().difference(held(current).to_set());
                    if additions.is_empty() {
                        AcquirePlanView::Current(current->0)
                    } else {
                        AcquirePlanView::Bind(sorted_of(additions))
                    }
                }
            },
        }
    }
}

/// The session after `additions` were bound for `client`: the current
/// session, or a new one for `client`, holding the union, sorted.
pub open spec fn acquired_session(
    current: Option<SessionView>,
    client: Seq<char>,
    additions: Seq<Seq<char>>,
) -> SessionView {
    SessionView {
        client_id: match current {
            Some(s) => s.client_id,
            None => client,
        },
        devices: sorted_of(held(current).to_set().union(additions.to_set())),
    }
}

/// How the server answers a release request from `client` for `devices`
/// (the whole session when empty).
pub open spec fn release_plan(
    client: Seq<char>,
    devices: Seq<Seq<char>>,
    current: Option<SessionView>,
) -> ReleasePlanView {
    match current {
        None => ReleasePlanView::Nothing,
        Some(s) => if s.client_id != client {
            ReleasePlanView::Reject(STATUS_CONFLICT, "session is owned by another client"@)
        } else if devices.len() == 0 {
            ReleasePlanView::Unbind(s.devices)
        } else if exists|i: int| 0 <= i < devices.len() && !s.devices.contains(#[trigger] devices[i]) {
            ReleasePlanView::Reject(
                STATUS_BAD_REQUEST,
                "release contains a device not owned by this session"@,
            )
        } else {
            ReleasePlanView::Unbind(devices)
        },
    }
}

/// The session after `targets` were unbound: the rest of it, in order, or
/// no session when nothing is left.
pub open spec fn released_session(s: SessionView, targets: Seq<Seq<char>>) -> Option<SessionView> {
    let rest = without(s.devices, targets);
    if rest.len() == 0 {
        None
    } else {
        Some(SessionView { client_id: s.client_id, devices: rest })
    }
}

/// Whether the server lists `bus_id` as selectable.
pub fn is_offered(available: &Vec<UsbDevice>, bus_id: &str) -> (r: bool)
    ensures
        r == offered(device_views(available@), bus_id@),
{
    let ghost av = device_views(available@);
    let mut i: usize = 0;
    while i < available.len()
        invariant
            i <= available.len(),
            av == device_views(available@),
            forall|j: int| 0 <= j < i ==> !(av[j].selectable && #[trigger] av[j].bus_id == bus_id@),
        decreases available.len() - i,
    {
        if available[i].selectable && str_eq(available[i].bus_id.as_str(), bus_id) {
            assert(av[i as int].bus_id == bus_id@);
            return true;
        }
        i = i + 1;
    }
    false
}

/// Whether every bus ID of `ids` is offered.
pub fn are_offered(available: &Vec<UsbDevice>, ids: &Vec<String>) -> (r: bool)
    ensures
        r == all_offered(device_views(available@), views(ids@)),
{
    let mut i: usize = 0;
    while i < ids.len()
        invariant
            i <= ids.len(),
            forall|j: int| 0 <= j < i ==> offered(device_views(available@), #[trigger] views(ids@)[j]),
        decreases ids.len() - i,
    {
        if !is_offered(available, ids[i].as_str()) {
            assert(!offered(device_views(available@), views(ids@)[i as int]));
            return false;
        }
        i = i + 1;
    }
    true
}

/// The sorted strings of `v` that are not in `h`, each once.
fn sorted_difference(v: &Vec<String>, h: &Vec<String>) -> (r: Vec<String>)
    ensures
        strictly_sorted(views(r@)),
        views(r@).to_set() == views(v@).to_set().difference(views(h@).to_set()),
{
    let rest = strings_without(v, h);
    let r = sorted_unique(&rest);
    proof {
        crate::connection::law_remaining_excludes_released(views(v@), views(h@));
        let w = without(views(v@), views(h@));
        assert forall|x: Seq<char>| w.to_set().contains(x) <==> views(v@).to_set().difference(
            views(h@).to_set(),
        ).contains(x) by {
            if w.to_set().contains(x) {
                let k = choose|k: int| 0 <= k < w.len() && w[k] == x;
                assert(!views(h@).contains(w[k]));
            }
            if views(v@).to_set().difference(views(h@).to_set()).contains(x) {
                let k = choose|k: int| 0 <= k < views(v@).len() && views(v@)[k] == x;
                assert(!views(h@).contains(views(v@)[k]));
                assert(w.contains(views(v@)[k]));
            }
        }
        assert(w.to_set() =~= views(v@).to_set().difference(views(h@).to_set()));
    }
    r
}

/// Decides an acquire request.
pub fn plan_acquire(
    request: &AcquireRequest,
    selection: &Vec<String>,
    available: &Result<Vec<UsbDevice>, String>,
    current: &Option<Session>,
) -> (r: AcquirePlan)
    ensures
        r@ == acquire_plan(
            request.client_id@,
            views(request.devices@),
            views(selection@),
            match available {
                Ok(v) => Ok(device_views(v@)),
                Err(e) => Err(e@),
            },
            crate::connection::opt_session_view(*current),
        ),
{
    if is_blank_str(request.client_id.as_str()) {
        return AcquirePlan::Reject(
            Rejection { status: STATUS_BAD_REQUEST, error: owned("client_id must not be empty") },
        );
    }
    let av = match available {
        Err(e) => {
            return AcquirePlan::Reject(
                Rejection { status: STATUS_INTERNAL_ERROR, error: e.clone() },
            );
        },
        Ok(v) => v,
    };
    let requested = if request.devices.len() == 0 {
        selection
    } else {
        &request.devices
    };
    if !are_offered(av, requested) {
        return AcquirePlan::Reject(
            Rejection {
                status: STATUS_BAD_REQUEST,
                error: owned("acquire contains an unavailable or prohibited USB device"),
            },
        );
    }
    if requested.len() == 0 {
        return AcquirePlan::Reject(
            Rejection {
                status: STATUS_BAD_REQUEST,
                error: owned("no USB devices were requested or selected"),
            },
        );
    }
    let have: Vec<String> = match current {
        Some(s) => {
            if !str_eq(s.client_id.as_str(), request.client_id.as_str()) {
                return AcquirePlan::Reject(
                    Rejection {
                        status: STATUS_CONFLICT,
                        error: owned("USB devices are already acquired"),
                    },
                );
            }
            copy_strings(&s.devices)
        },
        None => Vec::new(),
    };
    let ghost cur = crate::connection::opt_session_view(*current);
    proof {
        assert(views(have@) =~= held(cur));
    }
    let additions = sorted_difference(requested, &have);
    proof {
        let s = views(requested@).to_set().difference(held(cur).to_set());
        if additions.len() > 0 {
            assert(s.contains(views(additions@)[0]));
        } else {
            assert(s =~= Set::<Seq<char>>::empty());
        }
        assert(strictly_sorted(sorted_of(s)) && sorted_of(s).to_set() == s);
        lemma_sorted_unique(views(additions@), sorted_of(s));
    }
    if additions.len() == 0 {
        match current {
            Some(s) => AcquirePlan::Current(copy_session(s)),
            None => {
                proof {
                    let rv = views(requested@);
                    assert(rv.to_set().contains(rv[0]));
                    assert(views(additions@).to_set().contains(rv[0]));
                    assert(views(additions@).contains(rv[0]));
                }
                AcquirePlan::Bind(additions)
            },
        }
    } else {
        AcquirePlan::Bind(additions)
    }
}

/// Applies a bound acquisition: the session holds the union of what it
/// held and `additions`, sorted, each once.
pub fn commit_acquire(current: &Option<Session>, client_id: &str, additions: &Vec<String>) -> (r: Session)
    ensures
        r@ == acquired_session(crate::connection::opt_session_view(*current), client_id@, views(additions@)),
        strictly_sorted(r@.devices),
{
    let (owner, mut devices) = match current {
        Some(s) => (s.client_id.clone(), sorted_unique(&s.devices)),
        None => (owned(client_id), Vec::new()),
    };
    let ghost cur = crate::connection::opt_session_view(*current);
    proof {
        if current is None {
            assert(views(devices@).to_set() =~= Set::<Seq<char>>::empty());
        }
        assert(views(devices@).to_set() == held(cur).to_set());
    }
    let mut i: usize = 0;
    while i < additions.len()
        invariant
            i <= additions.len(),
            strictly_sorted(views(devices@)),
            views(devices@).to_set() == held(cur).to_set().union(views(additions@).take(i as int).to_set()),
        decreases additions.len() - i,
    {
        insert_sorted(&mut devices, additions[i].clone());
        proof {
            let w = views(additions@);
            let t1 = w.take(i + 1);
            let t0 = w.take(i as int);
            assert forall|y: Seq<char>| t1.to_set().contains(y) <==> t0.to_set().insert(w[i as int]).contains(y) by {
                if t1.to_set().contains(y) {
                    let k = choose|k: int| 0 <= k < t1.len() && #[trigger] t1[k] == y;
                    if k < i {
                        assert(t0[k] == y);
                    }
                }
                if t0.to_set().contains(y) {
                    let k = choose|k: int| 0 <= k < t0.len() && #[trigger] t0[k] == y;
                    assert(t1[k] == y);
                }
                if y == w[i as int] {
                    assert(t1[i as int] == y);
                }
            }
            assert(t1.to_set() =~= t0.to_set().insert(w[i as int]));
            assert(views(devices@).to_set() =~= held(cur).to_set().union(t1.to_set()));
        }
        i = i + 1;
    }
    proof {
        assert(views(additions@).take(additions.len() as int) =~= views(additions@));
        let s = held(cur).to_set().union(views(additions@).to_set());
        assert(strictly_sorted(sorted_of(s)) && sorted_of(s).to_set() == s);
        lemma_sorted_unique(views(devices@), sorted_of(s));
    }
    Session { client_id: owner, devices }
}

/// Decides a release request.
pub fn plan_release(request: &ReleaseRequest, current: &Option<Session>) -> (r: ReleasePlan)
    ensures
        r@ == release_plan(
            request.client_id@,
            views(request.devices@),
            crate::connection::opt_session_view(*current),
        ),
{
    match current {
        None => ReleasePlan::Nothing,
        Some(s) => {
            if !str_eq(s.client_id.as_str(), request.client_id.as_str()) {
                return ReleasePlan::Reject(
                    Rejection {
                        status: STATUS_CONFLICT,
                        error: owned("session is owned by another client"),
                    },
                );
            }
            if request.devices.len() == 0 {
                return ReleasePlan::Unbind(copy_strings(&s.devices));
            }
            let mut i: usize = 0;
            while i < request.devices.len()
                invariant
                    i <= request.devices.len(),
                    request.devices.len() > 0,
                    s.client_id@ == request.client_id@,
                    crate::connection::opt_session_view(*current) == Some(s@),
                    forall|j: int| 0 <= j < i ==> views(s.devices@).contains(#[trigger] views(request.devices@)[j]),
                decreases request.devices.len() - i,
            {
                if !contains_string(&s.devices, request.devices[i].as_str()) {
                    assert(!views(s.devices@).contains(views(request.devices@)[i as int]));
                    assert(exists|k: int|
                        0 <= k < views(request.devices@).len() && !views(s.devices@).contains(
                            #[trigger] views(request.devices@)[k],
                        ));
                    return ReleasePlan::Reject(
                        Rejection {
                            status: STATUS_BAD_REQUEST,
                            error: owned("release contains a device not owned by this session"),
                        },
                    );
                }
                i = i + 1;
            }
            ReleasePlan::Unbind(copy_strings(&request.devices))
        },
    }
}

/// Applies an unbound release: the session keeps its other devices, or
/// ends when none is left.
pub fn commit_release(session: &Session, targets: &Vec<String>) -> (r: Option<Session>)
    ensures
        crate::connection::opt_session_view(r) == released_session(session@, views(targets@)),
{
    let rest = strings_without(&session.devices, targets);
    if rest.len() == 0 {
        None
    } else {
        Some(Session { client_id: session.client_id.clone(), devices: rest })
    }
}

} // verus!

verus! {

/// A session as the server keeps it: at least one device, sorted, each once.
pub open spec fn session_wf(s: SessionView) -> bool {
    strictly_sorted(s.devices) && s.devices.len() > 0
}

/// The sorted form of the strings of a sequence is their sorted set.
pub proof fn lemma_sorted_of_seq(v: Seq<Seq<char>>)
    ensures
        strictly_sorted(sorted_of(v.to_set())),
        sorted_of(v.to_set()).to_set() == v.to_set(),
        sorted_of(v.to_set()) == sort_set(v),
{
    lemma_sort_set(v);
    assert(strictly_sorted(sort_set(v)) && sort_set(v).to_set() == v.to_set());
    lemma_sorted_unique(sorted_of(v.to_set()), sort_set(v));
}

/// Exclusive sessions: while another client holds the session, an acquire
/// request never binds a device nor hands out the session, and one that
/// is otherwise valid is answered with 409; a release request is answered
/// with 409.
pub proof fn law_session_is_exclusive(
    client: Seq<char>,
    devices: Seq<Seq<char>>,
    selection: Seq<Seq<char>>,
    available: Result<Seq<UsbDeviceView>, Seq<char>>,
    s: SessionView,
    release_devices: Seq<Seq<char>>,
)
    requires
        s.client_id != client,
    ensures
        !(acquire_plan(client, devices, selection, available, Some(s)) is Bind),
        !(acquire_plan(client, devices, selection, available, Some(s)) is Current),
        ({
            let requested = if devices.len() == 0 {
                selection
            } else {
                devices
            };
            (!is_blank(client) && available is Ok && all_offered(available->Ok_0, requested)
                && requested.len() > 0) ==> acquire_plan(client, devices, selection, available, Some(s))
                == AcquirePlanView::Reject(STATUS_CONFLICT, "USB devices are already acquired"@)
        }),
        release_plan(client, release_devices, Some(s)) == ReleasePlanView::Reject(
            STATUS_CONFLICT,
            "session is owned by another client"@,
        ),
{
}

/// Incremental acquire: the owner's session keeps its owner and grows to
/// hold the union of what it held and what was bound, sorted, each once;
/// a new session belongs to the requesting client.
pub proof fn law_acquire_adds(current: Option<SessionView>, client: Seq<char>, additions: Seq<Seq<char>>)
    requires
        current is Some ==> current->0.client_id == client,
    ensures
        ({
            let n = acquired_session(current, client, additions);
            &&& n.client_id == client
            &&& n.devices.to_set() == held(current).to_set().union(additions.to_set())
            &&& strictly_sorted(n.devices)
        }),
{
    lemma_sorted_of_seq(held(current) + additions);
    assert((held(current) + additions).to_set() =~= held(current).to_set().union(additions.to_set())) by {
        let v = held(current) + additions;
        assert forall|y: Seq<char>| v.to_set().contains(y) <==> held(current).to_set().union(
            additions.to_set(),
        ).contains(y) by {
            if v.to_set().contains(y) {
                let k = choose|k: int| 0 <= k < v.len() && v[k] == y;
                if k < held(current).len() {
                    assert(held(current)[k] == y);
                } else {
                    assert(additions[k - held(current).len()] == y);
                }
            }
            if held(current).to_set().contains(y) {
                let k = choose|k: int| 0 <= k < held(current).len() && held(current)[k] == y;
                assert(v[k] == y);
            }
            if additions.to_set().contains(y) {
                let k = choose|k: int| 0 <= k < additions.len() && additions[k] == y;
                assert(v[k + held(current).len()] == y);
            }
        }
    }
}

/// Sessions stay well formed: a session made by an acquisition holds at
/// least one device, sorted, each once, and so does what remains of a
/// well-formed session after a release, if anything remains.
pub proof fn law_session_wf_kept(
    current: Option<SessionView>,
    client: Seq<char>,
    additions: Seq<Seq<char>>,
    s: SessionView,
    targets: Seq<Seq<char>>,
)
    requires
        current is Some ==> current->0.client_id == client,
        additions.len() > 0,
        session_wf(s),
    ensures
        session_wf(acquired_session(current, client, additions)),
        released_session(s, targets) is Some ==> session_wf(released_session(s, targets)->0),
{
    law_acquire_adds(current, client, additions);
    let n = acquired_session(current, client, additions);
    assert(additions.to_set().contains(additions[0]));
    assert(n.devices.to_set().contains(additions[0]));
    lemma_sorted_subsequence(s.devices, targets);
}

/// Releasing with an empty list gives back the whole session: the owner's
/// request unbinds every device, and afterwards there is no session.
pub proof fn law_empty_release_ends_session(s: SessionView)
    requires
        session_wf(s),
    ensures
        release_plan(s.client_id, Seq::empty(), Some(s)) == ReleasePlanView::Unbind(s.devices),
        released_session(s, s.devices) is None,
{
    crate::connection::law_remaining_excludes_released(s.devices, s.devices);
    let w = without(s.devices, s.devices);
    if w.len() > 0 {
        assert(s.devices.contains(w[0]));
    }
}

/// Release undoes acquire: when the owner (or a client without a session)
/// acquires devices and then releases what was bound, the release is
/// accepted and the session is back to what it was.
pub proof fn law_release_undoes_acquire(
    client: Seq<char>,
    devices: Seq<Seq<char>>,
    selection: Seq<Seq<char>>,
    available: Result<Seq<UsbDeviceView>, Seq<char>>,
    current: Option<SessionView>,
    bound: Seq<Seq<char>>,
)
    requires
        current is Some ==> session_wf(current->0) && current->0.client_id == client,
        acquire_plan(client, devices, selection, available, current) == AcquirePlanView::Bind(bound),
    ensures
        release_plan(client, bound, Some(acquired_session(current, client, bound)))
            == ReleasePlanView::Unbind(bound),
        released_session(acquired_session(current, client, bound), bound) == current,
{
    let av = available->Ok_0;
    let requested = if devices.len() == 0 {
        selection
    } else {
        devices
    };
    let h = held(current);
    let filtered = without(requested, h);
    crate::connection::law_remaining_excludes_released(requested, h);
    let adds = requested.to_set().difference(h.to_set());
    assert(filtered.to_set() =~= adds) by {
        assert forall|y: Seq<char>| filtered.to_set().contains(y) <==> adds.contains(y) by {
            if filtered.to_set().contains(y) {
                let k = choose|k: int| 0 <= k < filtered.len() && filtered[k] == y;
                assert(!h.contains(filtered[k]));
            }
            if adds.contains(y) {
                let k = choose|k: int| 0 <= k < requested.len() && requested[k] == y;
                assert(!h.contains(requested[k]));
                assert(filtered.contains(requested[k]));
            }
        }
    }
    lemma_sorted_of_seq(filtered);
    assert(bound == sorted_of(adds));
    assert(bound.to_set() == adds);
    law_acquire_adds(current, client, bound);
    let n = acquired_session(current, client, bound);
    // Every bound device is held by the new session.
    assert forall|i: int| 0 <= i < bound.len() implies n.devices.contains(#[trigger] bound[i]) by {
        assert(bound.to_set().contains(bound[i]));
        assert(n.devices.to_set().contains(bound[i]));
    }
    assert(bound.len() > 0) by {
        assert(!adds.is_empty());
        let y = choose|y: Seq<char>| adds.contains(y);
        assert(bound.to_set().contains(y));
    }
    assert(!(exists|i: int| 0 <= i < bound.len() && !n.devices.contains(#[trigger] bound[i])));
    // What remains is the old session.
    let rest = without(n.devices, bound);
    crate::connection::law_remaining_excludes_released(n.devices, bound);
    lemma_sorted_subsequence(n.devices, bound);
    assert(rest.to_set() =~= h.to_set()) by {
        assert forall|y: Seq<char>| rest.to_set().contains(y) <==> h.to_set().contains(y) by {
            if rest.to_set().contains(y) {
                let k = choose|k: int| 0 <= k < rest.len() && rest[k] == y;
                assert(!bound.contains(rest[k]));
                assert(n.devices.contains(rest[k]));
                assert(n.devices.to_set().contains(y));
                if !h.to_set().contains(y) {
                    assert(bound.to_set().contains(y));
                    let m = choose|m: int| 0 <= m < bound.len() && bound[m] == y;
                    assert(bound.contains(y));
                }
            }
            if h.to_set().contains(y) {
                assert(n.devices.to_set().contains(y));
                let k = choose|k: int| 0 <= k < n.devices.len() && n.devices[k] == y;
                assert(!adds.contains(y));
                assert(!bound.to_set().contains(y));
                if bound.contains(y) {
                    let m = choose|m: int| 0 <= m < bound.len() && bound[m] == y;
                    assert(bound.to_set().contains(bound[m]));
                }
                assert(rest.contains(n.devices[k]));
            }
        }
    }
    match current {
        Some(c) => {
            lemma_sorted_unique(rest, c.devices);
        },
        None => {
            if rest.len() > 0 {
                assert(rest.to_set().contains(rest[0]));
            }
        },
    }
}

} // verus!

verus! {

/// How the server answers a request to save the web UI selection: the
/// listing's error, a refusal when a device is not offered, or the
/// selection to store, sorted, each once.
pub open spec fn selection_plan(
    devices: Seq<Seq<char>>,
    available: Result<Seq<UsbDeviceView>, Seq<char>>,
) -> Result<Seq<Seq<char>>, (u16, Seq<char>)> {
    match available {
        Err(e) => Err((STATUS_INTERNAL_ERROR, e)),
        Ok(av) => if !all_offered(av, devices) {
            Err((STATUS_BAD_REQUEST, "selection contains an unavailable or blocked USB device"@))
        } else {
            Ok(sorted_of(devices.to_set()))
        },
    }
}

/// Decides a request to save the web UI selection.
pub fn plan_selection(devices: &Vec<String>, available: &Result<Vec<UsbDevice>, String>) -> (r: Result<
    Vec<String>,
    Rejection,
>)
    ensures
        match r {
            Ok(v) => selection_plan(
                views(devices@),
                match available {
                    Ok(a) => Ok(device_views(a@)),
                    Err(e) => Err(e@),
                },
            ) == Ok::<Seq<Seq<char>>, (u16, Seq<char>)>(views(v@)),
            Err(j) => selection_plan(
                views(devices@),
                match available {
                    Ok(a) => Ok(device_views(a@)),
                    Err(e) => Err(e@),
                },
            ) == Err::<Seq<Seq<char>>, (u16, Seq<char>)>((j.status, j.error@)),
        },
{
    let av = match available {
        Err(e) => {
            return Err(Rejection { status: STATUS_INTERNAL_ERROR, error: e.clone() });
        },
        Ok(v) => v,
    };
    if !are_offered(av, devices) {
        return Err(
            Rejection {
                status: STATUS_BAD_REQUEST,
                error: owned("selection contains an unavailable or blocked USB device"),
            },
        );
    }
    let r = sorted_unique(devices);
    proof {
        lemma_sorted_of_seq(views(devices@));
        lemma_sorted_unique(views(r@), sorted_of(views(devices@).to_set()));
    }
    Ok(r)
}

} // verus!

verus! {

/// What the server makes of the host agent's answer: success, or the
/// agent's error (a generic message when it gave none).
pub open spec fn agent_reply(success: bool, error: Option<Seq<char>>) -> Result<(), Seq<char>> {
    if success {
        Ok(())
    } else {
        match error {
            Some(e) => Err(e),
            None => Err("host agent failed without an error message"@),
        }
    }
}

/// What the server makes of the host agent's answer.
pub fn agent_outcome(response: crate::protocol::HostControlResponse) -> (r: Result<(), String>)
    ensures
        crate::host_agent::outcome_view(r) == agent_reply(response.success, crate::protocol::opt_view(response.error)),
{
    if response.success {
        Ok(())
    } else {
        match response.error {
            Some(e) => Err(e),
            None => Err(owned("host agent failed without an error message")),
        }
    }
}

/// The saved selection as the server keeps it: each bus ID once, sorted.
pub fn selection_set(devices: &Vec<String>) -> (r: Vec<String>)
    ensures
        strictly_sorted(views(r@)),
        views(r@).to_set() == views(devices@).to_set(),
{
    sorted_unique(devices)
}

} // verus!

verus! {

/// The answer to an acquire request whose devices the host agent was asked
/// to bind: 201 with the grown session, which the server keeps from then
/// on, or 502 with the agent's error, the session left as it was.
pub fn finish_acquire(
    current: &Option<Session>,
    client_id: &str,
    additions: &Vec<String>,
    outcome: Result<(), String>,
) -> (r: (u16, Result<Session, String>))
    ensures
        match outcome {
            Ok(()) => r.0 == STATUS_CREATED && (r.1 matches Ok(s) && s@ == acquired_session(
                crate::connection::opt_session_view(*current),
                client_id@,
                views(additions@),
            )),
            Err(e) => r.0 == STATUS_BAD_GATEWAY && (r.1 matches Err(m) && m@ == e@),
        },
{
    match outcome {
        Ok(()) => (STATUS_CREATED, Ok(commit_acquire(current, client_id, additions))),
        Err(e) => (STATUS_BAD_GATEWAY, Err(e)),
    }
}

/// The answer to a release request whose devices the host agent was asked
/// to unbind: 204 with what remains of the session (none when nothing
/// does), or 502 with the agent's error, the session left as it was.
pub fn finish_release(session: &Session, targets: &Vec<String>, outcome: Result<(), String>) -> (r: (
    u16,
    Result<Option<Session>, String>,
))
    ensures
        match outcome {
            Ok(()) => r.0 == STATUS_NO_CONTENT && (r.1 matches Ok(rest)
                && crate::connection::opt_session_view(rest) == released_session(session@, views(targets@))),
            Err(e) => r.0 == STATUS_BAD_GATEWAY && (r.1 matches Err(m) && m@ == e@),
        },
{
    match outcome {
        Ok(()) => (STATUS_NO_CONTENT, Ok(commit_release(session, targets))),
        Err(e) => (STATUS_BAD_GATEWAY, Err(e)),
    }
}

} // verus!
