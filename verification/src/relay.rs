//! The relay's routing table: maps a `session_id` to at most two endpoints
//! (peer A and peer B). A datagram from a known endpoint is forwarded to
//! the other one; a third endpoint is refused.
//!
//! The relay is also the floor arbiter of each session: it answers floor
//! requests and releases itself and never forwards them.
//!
//! Times are monotonic milliseconds supplied by the caller.

use vstd::prelude::*;

use dashmap::DashMap;

use crate::floor::{floor_message_code, floor_message_of, FloorMessage};
use crate::packet::{packet_bytes, parse_packet, PacketView};
use crate::sdk::{client_header, encode_packet};
use crate::wire::{be_u32, put_u32};

verus! {

/// An IP address.
#[derive(Debug, Clone, Copy, PartialEq, Eq, Structural)]
pub enum IpAddress {
    /// An IPv4 address, most significant octet first.
    V4(u32),
    /// An IPv6 address, most significant octet first.
    V6(u128),
}

/// A UDP socket address.
#[derive(Debug, Clone, Copy, PartialEq, Eq, Structural)]
pub struct PeerAddr {
    pub ip: IpAddress,
    pub port: u16,
}

impl PeerAddr {
    /// The IPv4 socket address `a.b.c.d:port`.
    pub fn v4(octets: [u8; 4], port: u16) -> (a: PeerAddr)
        ensures
            a == (PeerAddr {
                ip: IpAddress::V4(crate::wire::u32_of(octets@[0], octets@[1], octets@[2], octets@[3])),
                port,
            }),
    {
        let ip = ((octets[0] as u32) << 24u32) | ((octets[1] as u32) << 16u32) | ((octets[2] as u32) << 8u32)
            | (octets[3] as u32);
        PeerAddr { ip: IpAddress::V4(ip), port }
    }
}

/// Where a peer of a session is reached.
#[derive(Debug, Clone, Copy, PartialEq, Eq, Structural)]
pub enum SessionEndpoint {
    /// A UDP peer.
    Udp(PeerAddr),
    /// A WebSocket peer, named by the id of its connection.
    WebSocket(u64),
}

impl SessionEndpoint {
    pub fn is_udp(&self) -> (b: bool)
        ensures
            b <==> *self is Udp,
    {
        matches!(self, SessionEndpoint::Udp(_))
    }

    pub fn is_ws(&self) -> (b: bool)
        ensures
            b <==> *self is WebSocket,
    {
        matches!(self, SessionEndpoint::WebSocket(_))
    }

    /// Whether both endpoints are the same physical origin: the same UDP
    /// address, or the same WebSocket connection.
    pub fn matches(&self, other: &SessionEndpoint) -> (b: bool)
        ensures
            b <==> *self == *other,
    {
        match (self, other) {
            (SessionEndpoint::Udp(a), SessionEndpoint::Udp(b)) => {
                let same_ip = match (a.ip, b.ip) {
                    (IpAddress::V4(x), IpAddress::V4(y)) => x == y,
                    (IpAddress::V6(x), IpAddress::V6(y)) => x == y,
                    _ => false,
                };
                same_ip && a.port == b.port
            },
            (SessionEndpoint::WebSocket(a), SessionEndpoint::WebSocket(b)) => *a == *b,
            _ => false,
        }
    }
}

/// The endpoints of one session and its last activity.
#[derive(Debug, Clone, Copy, PartialEq, Eq, Structural)]
pub struct RouteEntry {
    pub a: Option<SessionEndpoint>,
    pub b: Option<SessionEndpoint>,
    /// Monotonic time of the last datagram, in milliseconds.
    pub last_activity_ms: u64,
}

/// The outcome of routing one datagram.
#[derive(Debug, Clone, Copy, PartialEq, Eq, Structural)]
pub enum RouteDecision {
    /// Forward to this endpoint.
    Forward(SessionEndpoint),
    /// The sender was registered; there is no destination yet.
    Registered,
    /// The datagram was dropped.
    Dropped,
}

/// Why a datagram was dropped.
#[derive(Debug, Clone, Copy, PartialEq, Eq, Structural)]
pub enum DropReason {
    /// Session id 0 is never routed.
    ZeroSession,
    /// A third endpoint tried to join a session that has two.
    SessionFull,
    /// A new session would exceed the session limit.
    MaxSessions,
    /// Not a valid packet.
    Malformed,
}

/// The result of routing: the table after the datagram, the decision, and
/// the reason when it was dropped.
pub open spec fn spec_route(
    routes: Map<u32, RouteEntry>,
    max_sessions: usize,
    session_id: u32,
    from: SessionEndpoint,
    now_ms: u64,
) -> (Map<u32, RouteEntry>, RouteDecision, Option<DropReason>) {
    if session_id == 0 {
        (routes, RouteDecision::Dropped, Some(DropReason::ZeroSession))
    } else if routes.contains_key(session_id) {
        let e = routes[session_id];
        let touched = RouteEntry { last_activity_ms: now_ms, ..e };
        if e.a == Some(from) {
            (
                routes.insert(session_id, touched),
                match e.b {
                    Some(b) => RouteDecision::Forward(b),
                    None => RouteDecision::Registered,
                },
                None,
            )
        } else if e.b == Some(from) {
            (
                routes.insert(session_id, touched),
                match e.a {
                    Some(a) => RouteDecision::Forward(a),
                    None => RouteDecision::Registered,
                },
                None,
            )
        } else if e.a is Some && e.b is Some {
            (routes.insert(session_id, touched), RouteDecision::Dropped, Some(DropReason::SessionFull))
        } else {
            (
                routes.insert(session_id, RouteEntry { b: Some(from), ..touched }),
                RouteDecision::Registered,
                None,
            )
        }
    } else if routes.len() >= max_sessions {
        (routes, RouteDecision::Dropped, Some(DropReason::MaxSessions))
    } else {
        (
            routes.insert(session_id, RouteEntry { a: Some(from), b: None, last_activity_ms: now_ms }),
            RouteDecision::Registered,
            None,
        )
    }
}

/// A datagram from one endpoint of a complete session is forwarded to the
/// other endpoint, in both directions.
pub proof fn lemma_route_pairs(routes: Map<u32, RouteEntry>, max: usize, sid: u32, x: SessionEndpoint, y: SessionEndpoint, now: u64)
    requires
        sid != 0,
        routes.contains_key(sid),
        routes[sid].a == Some(x),
        routes[sid].b == Some(y),
        x != y,
    ensures
        spec_route(routes, max, sid, x, now).1 == RouteDecision::Forward(y),
        spec_route(routes, max, sid, y, now).1 == RouteDecision::Forward(x),
{
}

/// Every datagram of a session already in the table refreshes that
/// session's last activity to its arrival time, whoever sent it and whether
/// it is forwarded or refused; the other sessions are untouched. So a
/// session that saw a datagram less than `max_age_secs` ago is not idle.
pub proof fn lemma_route_refreshes_activity(
    routes: Map<u32, RouteEntry>,
    max: usize,
    sid: u32,
    from: SessionEndpoint,
    now_ms: u64,
    max_age_secs: u64,
    later_ms: u64,
)
    requires
        sid != 0,
        routes.contains_key(sid),
    ensures
        spec_route(routes, max, sid, from, now_ms).0.contains_key(sid),
        spec_route(routes, max, sid, from, now_ms).0[sid].last_activity_ms == now_ms,
        spec_route(routes, max, sid, from, now_ms).0.dom() == routes.dom(),
        forall|k: u32| k != sid && #[trigger] routes.contains_key(k) ==> spec_route(routes, max, sid, from, now_ms).0[k]
            == routes[k],
        now_ms <= later_ms && later_ms - now_ms < max_age_secs * 1000 ==> !idle(
            spec_route(routes, max, sid, from, now_ms).0[sid],
            max_age_secs,
            later_ms,
        ),
{
    let r = spec_route(routes, max, sid, from, now_ms).0;
    assert(r.dom() =~= routes.dom());
}

/// The first datagram of a new session registers its sender as endpoint A
/// with the arrival time as last activity, when the limit allows it.
pub proof fn lemma_route_registers_new(
    routes: Map<u32, RouteEntry>,
    max: usize,
    sid: u32,
    from: SessionEndpoint,
    now_ms: u64,
)
    requires
        sid != 0,
        !routes.contains_key(sid),
        routes.dom().finite(),
        routes.len() < max,
    ensures
        spec_route(routes, max, sid, from, now_ms).0.contains_key(sid),
        spec_route(routes, max, sid, from, now_ms).0[sid].a == Some(from),
        spec_route(routes, max, sid, from, now_ms).0[sid].b is None,
        spec_route(routes, max, sid, from, now_ms).0[sid].last_activity_ms == now_ms,
        spec_route(routes, max, sid, from, now_ms).1 == RouteDecision::Registered,
{
}

/// A datagram never adds more than one session, and never a session beyond
/// the limit.
pub proof fn lemma_route_bounded(routes: Map<u32, RouteEntry>, max: usize, sid: u32, from: SessionEndpoint, now: u64)
    requires
        routes.dom().finite(),
    ensures
        spec_route(routes, max, sid, from, now).0.dom().finite(),
        spec_route(routes, max, sid, from, now).0.len() <= routes.len() + 1,
        routes.len() <= max ==> spec_route(routes, max, sid, from, now).0.len() <= max,
{
    let r = spec_route(routes, max, sid, from, now).0;
    if sid != 0 && routes.contains_key(sid) {
        assert(r.dom() =~= routes.dom());
    } else if sid != 0 && routes.len() < max {
        assert(r.dom() =~= routes.dom().insert(sid));
    }
}

/// Whether `x` is one of the endpoints of a session.
pub open spec fn is_endpoint(e: RouteEntry, x: SessionEndpoint) -> bool {
    e.a == Some(x) || e.b == Some(x)
}

/// `m` addressed to each endpoint of the session other than `from`,
/// endpoint A first.
pub open spec fn tell_others(m: FloorMessage, e: RouteEntry, from: SessionEndpoint) -> Seq<
    (FloorMessage, SessionEndpoint),
> {
    let to_a: Seq<(FloorMessage, SessionEndpoint)> = if e.a is Some && e.a->0 != from {
        seq![(m, e.a->0)]
    } else {
        Seq::empty()
    };
    let to_b: Seq<(FloorMessage, SessionEndpoint)> = if e.b is Some && e.b->0 != from {
        seq![(m, e.b->0)]
    } else {
        Seq::empty()
    };
    to_a + to_b
}

/// The arbiter's answer to a floor request of `from` in session
/// `session_id`: the holders after it and the messages to send. A sender
/// that is not an endpoint of the session gets no answer. The floor is
/// granted when nobody holds it, when the sender already does, or when
/// its holder is no longer an endpoint of the session; the other endpoint
/// is then told that the floor was taken. Otherwise the sender is denied.
pub open spec fn spec_floor_request(
    routes: Map<u32, RouteEntry>,
    floors: Map<u32, SessionEndpoint>,
    session_id: u32,
    from: SessionEndpoint,
) -> (Map<u32, SessionEndpoint>, Seq<(FloorMessage, SessionEndpoint)>) {
    if !routes.contains_key(session_id) || !is_endpoint(routes[session_id], from) {
        (floors, Seq::empty())
    } else if floors.contains_key(session_id) && floors[session_id] != from && is_endpoint(
        routes[session_id],
        floors[session_id],
    ) {
        (floors, seq![(FloorMessage::Deny, from)])
    } else {
        (
            floors.insert(session_id, from),
            seq![(FloorMessage::Grant, from)] + tell_others(FloorMessage::Taken, routes[session_id], from),
        )
    }
}

/// The arbiter's answer to a floor release of `from` in session
/// `session_id`: only the holder can release; the floor becomes free and
/// the other endpoint is told so.
pub open spec fn spec_floor_release(
    routes: Map<u32, RouteEntry>,
    floors: Map<u32, SessionEndpoint>,
    session_id: u32,
    from: SessionEndpoint,
) -> (Map<u32, SessionEndpoint>, Seq<(FloorMessage, SessionEndpoint)>) {
    if floors.contains_key(session_id) && floors[session_id] == from {
        (
            floors.remove(session_id),
            if routes.contains_key(session_id) {
                tell_others(FloorMessage::Release, routes[session_id], from)
            } else {
                Seq::empty()
            },
        )
    } else {
        (floors, Seq::empty())
    }
}

/// What the relay does with one datagram.
pub enum RelayAction {
    /// It was routed (or dropped) as [`spec_route`] says.
    Route(RouteDecision),
    /// It was a floor request or release of this session: these floor
    /// messages go out, and the datagram itself is not forwarded.
    Floor(u32, Seq<(FloorMessage, SessionEndpoint)>),
}

/// The relay on one datagram from `from` at `now_ms`: the table, the floor
/// holders and the drop counters after it, and what it does. A datagram
/// that is not a packet is dropped and counted. A floor request first
/// registers its sender as any datagram would, then is arbitrated; a floor
/// release is arbitrated alone; every other packet is routed.
pub open spec fn spec_relay(
    routes: Map<u32, RouteEntry>,
    floors: Map<u32, SessionEndpoint>,
    max_sessions: usize,
    drops: DropCounts,
    datagram: Seq<u8>,
    from: SessionEndpoint,
    now_ms: u64,
) -> (Map<u32, RouteEntry>, Map<u32, SessionEndpoint>, DropCounts, RelayAction) {
    match parse_packet(datagram) {
        Err(_) => (
            routes,
            floors,
            count_drop(drops, Some(DropReason::Malformed)),
            RelayAction::Route(RouteDecision::Dropped),
        ),
        Ok((h, _)) => {
            let sid = h.session_id;
            if floor_message_of(h.msg_type) == Some(FloorMessage::Request) {
                let (r, _, reason) = spec_route(routes, max_sessions, sid, from, now_ms);
                let (f, replies) = spec_floor_request(r, floors, sid, from);
                (r, f, count_drop(drops, reason), RelayAction::Floor(sid, replies))
            } else if floor_message_of(h.msg_type) == Some(FloorMessage::Release) {
                let (f, replies) = spec_floor_release(routes, floors, sid, from);
                (routes, f, drops, RelayAction::Floor(sid, replies))
            } else {
                let (r, d, reason) = spec_route(routes, max_sessions, sid, from, now_ms);
                (r, floors, count_drop(drops, reason), RelayAction::Route(d))
            }
        },
    }
}

/// What the relay does with one datagram.
#[derive(Debug, Clone)]
pub enum RelayOut {
    /// The routing decision for the datagram.
    Route(RouteDecision),
    /// The floor messages to send for this session, each with its
    /// destination; the datagram is not forwarded.
    Floor(u32, Vec<(FloorMessage, SessionEndpoint)>),
}

impl View for RelayOut {
    type V = RelayAction;

    open spec fn view(&self) -> RelayAction {
        match self {
            RelayOut::Route(d) => RelayAction::Route(*d),
            RelayOut::Floor(sid, v) => RelayAction::Floor(*sid, v@),
        }
    }
}

/// While one endpoint holds the floor, a request of the other endpoint is
/// denied and changes nothing; once the holder releases it, the same
/// request is granted and the holder is told the floor was taken.
pub proof fn lemma_floor_exclusive(
    routes: Map<u32, RouteEntry>,
    floors: Map<u32, SessionEndpoint>,
    sid: u32,
    x: SessionEndpoint,
    y: SessionEndpoint,
)
    requires
        routes.contains_key(sid),
        routes[sid].a == Some(x),
        routes[sid].b == Some(y),
        x != y,
        floors.contains_key(sid),
        floors[sid] == x,
    ensures
        spec_floor_request(routes, floors, sid, y) == (floors, seq![(FloorMessage::Deny, y)]),
        spec_floor_request(routes, floors, sid, x).0 == floors,
        spec_floor_release(routes, floors, sid, x).1 == seq![(FloorMessage::Release, y)],
        spec_floor_request(routes, spec_floor_release(routes, floors, sid, x).0, sid, y) == (
            floors.insert(sid, y),
            seq![(FloorMessage::Grant, y), (FloorMessage::Taken, x)],
        ),
{
    let freed = floors.remove(sid);
    assert(seq![(FloorMessage::Grant, y)] + tell_others(FloorMessage::Taken, routes[sid], y) =~= seq![
        (FloorMessage::Grant, y),
        (FloorMessage::Taken, x),
    ]);
    assert(tell_others(FloorMessage::Release, routes[sid], x) =~= seq![(FloorMessage::Release, y)]);
    assert(freed.insert(sid, y) =~= floors.insert(sid, y));
    assert(floors.insert(sid, x) =~= floors);
}

/// The packet of floor message `m` the relay sends for session
/// `session_id`: sequence and timestamp 0, and the session id as payload.
pub fn floor_packet(m: FloorMessage, session_id: u32) -> (bytes: Vec<u8>)
    ensures
        bytes@ == packet_bytes(client_header(floor_message_code(m), session_id, 0, 0), be_u32(session_id)),
{
    let mut payload: Vec<u8> = vec![0u8; 4];
    put_u32(payload.as_mut_slice(), 0, session_id);
    assert(payload@ =~= be_u32(session_id));
    match encode_packet(m.code(), session_id, 0, 0, payload.as_slice()) {
        Ok(bytes) => bytes,
        Err(_) => {
            assert(false);
            Vec::new()
        },
    }
}

/// Appends `m` for each endpoint of `e` other than `from`, endpoint A first.
fn push_others(out: &mut Vec<(FloorMessage, SessionEndpoint)>, m: FloorMessage, e: &RouteEntry, from: SessionEndpoint)
    ensures
        final(out)@ == old(out)@ + tell_others(m, *e, from),
{
    let ghost start = out@;
    match e.a {
        Some(a) => {
            if !a.matches(&from) {
                out.push((m, a));
            }
        },
        None => {},
    }
    let ghost mid = out@;
    match e.b {
        Some(b) => {
            if !b.matches(&from) {
                out.push((m, b));
            }
        },
        None => {},
    }
    assert(out@ =~= start + tell_others(m, *e, from));
}

/// Drop counters of the relay, by reason (wrapping).
#[derive(Debug, Clone, Copy, PartialEq, Eq, Structural)]
pub struct DropCounts {
    pub zero_session: u64,
    pub session_full: u64,
    pub max_sessions: u64,
    pub malformed: u64,
}

/// The drop counters after one more drop for `reason`.
pub open spec fn count_drop(c: DropCounts, reason: Option<DropReason>) -> DropCounts {
    match reason {
        None => c,
        Some(DropReason::ZeroSession) => DropCounts { zero_session: c.zero_session.wrapping_add(1), ..c },
        Some(DropReason::SessionFull) => DropCounts { session_full: c.session_full.wrapping_add(1), ..c },
        Some(DropReason::MaxSessions) => DropCounts { max_sessions: c.max_sessions.wrapping_add(1), ..c },
        Some(DropReason::Malformed) => DropCounts { malformed: c.malformed.wrapping_add(1), ..c },
    }
}

/// The concurrent map that holds the relay's tables.
#[verifier::external_type_specification]
#[verifier::external_body]
#[verifier::reject_recursive_types(K)]
#[verifier::reject_recursive_types(V)]
#[verifier::reject_recursive_types(S)]
pub struct ExDashMap<K, V, S>(DashMap<K, V, S>);

/// A table of sessions by session id.
pub type SessionTable = DashMap<u32, RouteEntry>;

/// A table of floor holders by session id.
pub type FloorTable = DashMap<u32, SessionEndpoint>;

/// The sessions a session table holds, by session id.
pub uninterp spec fn session_table(m: DashMap<u32, RouteEntry>) -> Map<u32, RouteEntry>;

/// The floor holders a floor table holds, by session id.
pub uninterp spec fn floor_table(m: DashMap<u32, SessionEndpoint>) -> Map<u32, SessionEndpoint>;

/// An empty session table.
///
/// Calls `DashMap::new`; the contract claims the new map holds nothing.
#[verifier::external_body]
fn new_session_table() -> (m: SessionTable)
    ensures
        session_table(m).dom() == Set::<u32>::empty(),
{
    DashMap::new()
}

/// The session stored under `key`, copied out.
///
/// Calls `DashMap::get` and copies the entry out of the guard, which is
/// released before returning; the contract claims the copy is the value the
/// map holds for `key`, and `None` when it holds none.
#[verifier::external_body]
fn session_get(m: &DashMap<u32, RouteEntry>, key: u32) -> (r: Option<RouteEntry>)
    ensures
        r == (if session_table(*m).contains_key(key) {
            Some(session_table(*m)[key])
        } else {
            None
        }),
{
    m.get(&key).map(|entry| *entry)
}

/// Stores `value` under `key`, replacing what was there.
///
/// Calls `DashMap::insert` (no guard into the map is held here, so it cannot
/// deadlock); the contract claims the map then holds `value` under `key`
/// and is otherwise unchanged.
#[verifier::external_body]
fn session_insert(m: &mut DashMap<u32, RouteEntry>, key: u32, value: RouteEntry)
    ensures
        session_table(*final(m)) == session_table(*old(m)).insert(key, value),
{
    m.insert(key, value);
}

/// Removes what is stored under `key`.
///
/// Calls `DashMap::remove`; the contract claims the map then holds nothing
/// under `key` and is otherwise unchanged.
#[verifier::external_body]
fn session_remove(m: &mut DashMap<u32, RouteEntry>, key: u32)
    ensures
        session_table(*final(m)) == session_table(*old(m)).remove(key),
{
    m.remove(&key);
}

/// An empty floor table.
///
/// Calls `DashMap::new`; the contract claims the new map holds nothing.
#[verifier::external_body]
fn new_floor_table() -> (m: FloorTable)
    ensures
        floor_table(m).dom() == Set::<u32>::empty(),
{
    DashMap::new()
}

/// The floor holder stored under `key`, copied out.
///
/// Calls `DashMap::get` and copies the value out of the guard, which is
/// released before returning; the contract claims the copy is the value the
/// map holds for `key`, and `None` when it holds none.
#[verifier::external_body]
fn floor_get(m: &DashMap<u32, SessionEndpoint>, key: u32) -> (r: Option<SessionEndpoint>)
    ensures
        r == (if floor_table(*m).contains_key(key) {
            Some(floor_table(*m)[key])
        } else {
            None
        }),
{
    m.get(&key).map(|holder| *holder)
}

/// Stores `value` under `key`, replacing what was there.
///
/// Calls `DashMap::insert`; the contract claims the map then holds `value`
/// under `key` and is otherwise unchanged.
#[verifier::external_body]
fn floor_insert(m: &mut DashMap<u32, SessionEndpoint>, key: u32, value: SessionEndpoint)
    ensures
        floor_table(*final(m)) == floor_table(*old(m)).insert(key, value),
{
    m.insert(key, value);
}

/// Removes what is stored under `key`.
///
/// Calls `DashMap::remove`; the contract claims the map then holds nothing
/// under `key` and is otherwise unchanged.
#[verifier::external_body]
fn floor_remove(m: &mut DashMap<u32, SessionEndpoint>, key: u32)
    ensures
        floor_table(*final(m)) == floor_table(*old(m)).remove(key),
{
    m.remove(&key);
}

/// The routing table of the relay.
#[derive(Debug)]
pub struct Router {
    routes: DashMap<u32, RouteEntry>,
    /// The session ids of `routes`, each once.
    ids: Vec<u32>,
    max_sessions: usize,
    drops: DropCounts,
    /// The floor holder of each session.
    floors: DashMap<u32, SessionEndpoint>,
}

impl Router {
    /// The sessions and their endpoints.
    pub closed spec fn routes(&self) -> Map<u32, RouteEntry> {
        session_table(self.routes)
    }

    /// The session limit.
    pub closed spec fn limit(&self) -> usize {
        self.max_sessions
    }

    /// The drop counters.
    pub closed spec fn drop_counts(&self) -> DropCounts {
        self.drops
    }

    /// The endpoint holding the floor of each session.
    pub closed spec fn floors(&self) -> Map<u32, SessionEndpoint> {
        floor_table(self.floors)
    }

    /// The id list holds each key of the table exactly once.
    pub closed spec fn wf(&self) -> bool {
        &&& self.ids@.no_duplicates()
        &&& self.ids@.to_set() == session_table(self.routes).dom()
        &&& session_table(self.routes).dom().finite()
        &&& session_table(self.routes).len() == self.ids@.len()
    }

    /// An empty table that takes at most `max_sessions` sessions.
    pub fn new(max_sessions: usize) -> (r: Router)
        ensures
            r.wf(),
            r.routes() == Map::<u32, RouteEntry>::empty(),
            r.limit() == max_sessions,
            r.drop_counts() == (DropCounts { zero_session: 0, session_full: 0, max_sessions: 0, malformed: 0 }),
            r.floors() == Map::<u32, SessionEndpoint>::empty(),
    {
        let r = Router {
            routes: new_session_table(),
            ids: Vec::new(),
            max_sessions,
            drops: DropCounts { zero_session: 0, session_full: 0, max_sessions: 0, malformed: 0 },
            floors: new_floor_table(),
        };
        assert(r.ids@.to_set() =~= Set::<u32>::empty());
        assert(session_table(r.routes) =~= Map::<u32, RouteEntry>::empty());
        assert(floor_table(r.floors) =~= Map::<u32, SessionEndpoint>::empty());
        r
    }

    /// Routes a datagram of session `session_id` from endpoint `from`
    /// arriving at `now_ms`, as [`spec_route`] says, and counts a drop.
    pub fn route(&mut self, session_id: u32, from: SessionEndpoint, now_ms: u64) -> (d: RouteDecision)
        requires
            old(self).wf(),
        ensures
            final(self).wf(),
            final(self).limit() == old(self).limit(),
            final(self).floors() == old(self).floors(),
            final(self).routes() == spec_route(old(self).routes(), old(self).limit(), session_id, from, now_ms).0,
            d == spec_route(old(self).routes(), old(self).limit(), session_id, from, now_ms).1,
            final(self).drop_counts() == count_drop(
                old(self).drop_counts(),
                spec_route(old(self).routes(), old(self).limit(), session_id, from, now_ms).2,
            ),
    {
        if session_id == 0 {
            self.drops.zero_session = self.drops.zero_session.wrapping_add(1);
            return RouteDecision::Dropped;
        }
        let found: Option<RouteEntry> = session_get(&self.routes, session_id);
        match found {
            Some(e) => {
                let mut entry = e;
                entry.last_activity_ms = now_ms;
                let decision;
                if e.a.is_some() && e.a.unwrap().matches(&from) {
                    decision = match e.b {
                        Some(b) => RouteDecision::Forward(b),
                        None => RouteDecision::Registered,
                    };
                } else if e.b.is_some() && e.b.unwrap().matches(&from) {
                    decision = match e.a {
                        Some(a) => RouteDecision::Forward(a),
                        None => RouteDecision::Registered,
                    };
                } else if e.a.is_some() && e.b.is_some() {
                    // A third peer trying to join: refuse.
                    self.drops.session_full = self.drops.session_full.wrapping_add(1);
                    decision = RouteDecision::Dropped;
                } else {
                    // Free slot: the sender becomes endpoint B.
                    entry.b = Some(from);
                    decision = RouteDecision::Registered;
                }
                let ghost before = session_table(self.routes);
                session_insert(&mut self.routes, session_id, entry);
                proof {
                    assert(session_table(self.routes).dom() =~= before.dom());
                }
                decision
            },
            None => {
                if self.ids.len() >= self.max_sessions {
                    self.drops.max_sessions = self.drops.max_sessions.wrapping_add(1);
                    return RouteDecision::Dropped;
                }
                let ghost before_ids = self.ids@;
                let ghost before = session_table(self.routes);
                session_insert(&mut self.routes, session_id, RouteEntry { a: Some(from), b: None, last_activity_ms: now_ms });
                self.ids.push(session_id);
                proof {
                    assert(self.ids@ =~= before_ids.push(session_id));
                    assert(!before_ids.contains(session_id)) by {
                        if before_ids.contains(session_id) {
                            assert(before_ids.to_set().contains(session_id));
                        }
                    }
                    before_ids.lemma_push_to_set_commute(session_id);
                    assert(self.ids@.to_set() =~= before_ids.to_set().insert(session_id));
                    assert(session_table(self.routes).dom() =~= before.dom().insert(session_id));
                }
                RouteDecision::Registered
            },
        }
    }

    /// Removes the sessions idle for `max_age_secs` seconds or more at
    /// `now_ms`; returns how many were removed.
    pub fn evict_idle(&mut self, max_age_secs: u64, now_ms: u64) -> (removed: usize)
        requires
            old(self).wf(),
        ensures
            final(self).wf(),
            final(self).limit() == old(self).limit(),
            final(self).drop_counts() == old(self).drop_counts(),
            final(self).floors() == old(self).floors(),
            final(self).routes() == old(self).routes().restrict(
                old(self).routes().dom().filter(|k: u32| !idle(old(self).routes()[k], max_age_secs, now_ms)),
            ),
            removed == old(self).routes().len() - final(self).routes().len(),
    {
        let ghost old_routes = session_table(self.routes);
        let ghost keep_set = old_routes.dom().filter(|k: u32| !idle(old_routes[k], max_age_secs, now_ms));
        let ghost old_ids = self.ids@;
        let ghost old_max = self.max_sessions;
        let ghost old_drops = self.drops;
        let ghost old_floors = floor_table(self.floors);
        let mut kept: Vec<u32> = Vec::new();
        let mut removed: usize = 0;
        let n = self.ids.len();
        let mut i: usize = 0;
        while i < n
            invariant
                n == old_ids.len(),
                self.ids@ == old_ids,
                self.max_sessions == old_max,
                self.drops == old_drops,
                floor_table(self.floors) == old_floors,
                old_ids.no_duplicates(),
                old_ids.to_set() == old_routes.dom(),
                old_routes.dom().finite(),
                i <= n,
                kept@.no_duplicates(),
                kept@.to_set() == old_ids.take(i as int).to_set().filter(|k: u32| !idle(old_routes[k], max_age_secs, now_ms)),
                session_table(self.routes) == old_routes.restrict(
                    old_routes.dom().filter(|k: u32|
                        !(old_ids.take(i as int).contains(k) && idle(old_routes[k], max_age_secs, now_ms))),
                ),
                removed + kept@.len() == i,
            decreases n - i,
        {
            let id = self.ids[i];
            proof {
                assert(old_ids.take(i + 1) =~= old_ids.take(i as int).push(id));
                old_ids.take(i as int).lemma_push_to_set_commute(id);
                assert forall|k: u32| #[trigger] old_ids.take(i + 1).contains(k) <==> (old_ids.take(i as int).contains(k)
                    || k == id) by {
                    broadcast use vstd::seq_lib::group_seq_properties;
                }
                assert(old_routes.dom().contains(id)) by {
                    assert(old_ids.contains(id));
                    assert(old_ids.to_set().contains(id));
                }
                assert(!old_ids.take(i as int).contains(id)) by {
                    if old_ids.take(i as int).contains(id) {
                        let j = choose|j: int| 0 <= j < i && old_ids.take(i as int)[j] == id;
                        assert(old_ids[j] == old_ids[i as int]);
                    }
                }
            }
            let entry = session_get(&self.routes, id).unwrap();
            if is_idle(&entry, max_age_secs, now_ms) {
                let ghost before = session_table(self.routes);
                session_remove(&mut self.routes, id);
                removed = removed + 1;
                proof {
                    assert(session_table(self.routes) =~= old_routes.restrict(
                        old_routes.dom().filter(|k: u32|
                            !(old_ids.take(i + 1).contains(k) && idle(old_routes[k], max_age_secs, now_ms))),
                    ));
                    assert(kept@.to_set() =~= old_ids.take(i + 1).to_set().filter(
                        |k: u32| !idle(old_routes[k], max_age_secs, now_ms),
                    ));
                }
            } else {
                let ghost before_kept = kept@;
                kept.push(id);
                proof {
                    assert(!before_kept.contains(id)) by {
                        if before_kept.contains(id) {
                            assert(before_kept.to_set().contains(id));
                        }
                    }
                    before_kept.lemma_push_to_set_commute(id);
                    assert(kept@ =~= before_kept.push(id));
                    assert(kept@.to_set() =~= old_ids.take(i + 1).to_set().filter(
                        |k: u32| !idle(old_routes[k], max_age_secs, now_ms),
                    ));
                    assert(session_table(self.routes) =~= old_routes.restrict(
                        old_routes.dom().filter(|k: u32|
                            !(old_ids.take(i + 1).contains(k) && idle(old_routes[k], max_age_secs, now_ms))),
                    ));
                }
            }
            i += 1;
        }
        proof {
            assert(old_ids.take(n as int) =~= old_ids);
            assert(session_table(self.routes) =~= old_routes.restrict(keep_set));
            assert(kept@.to_set() =~= keep_set);
            assert(session_table(self.routes).dom() =~= keep_set);
            kept@.unique_seq_to_set();
            old_ids.unique_seq_to_set();
        }
        self.ids = kept;
        removed
    }

    /// Routes a datagram as it arrived off the wire: a datagram that is not
    /// a valid packet is dropped and counted; a packet is routed by the
    /// session id of its header.
    pub fn route_datagram(&mut self, datagram: &[u8], from: SessionEndpoint, now_ms: u64) -> (d: RouteDecision)
        requires
            old(self).wf(),
        ensures
            final(self).wf(),
            final(self).limit() == old(self).limit(),
            final(self).floors() == old(self).floors(),
            match parse_packet(datagram@) {
                Err(_) => {
                    &&& d == RouteDecision::Dropped
                    &&& final(self).routes() == old(self).routes()
                    &&& final(self).drop_counts() == count_drop(old(self).drop_counts(), Some(DropReason::Malformed))
                },
                Ok((h, _)) => {
                    let (routes, decision, reason) = spec_route(
                        old(self).routes(),
                        old(self).limit(),
                        h.session_id,
                        from,
                        now_ms,
                    );
                    &&& d == decision
                    &&& final(self).routes() == routes
                    &&& final(self).drop_counts() == count_drop(old(self).drop_counts(), reason)
                },
            },
    {
        let session_id = match PacketView::decode(datagram) {
            Ok(view) => view.header().session_id,
            Err(_) => {
                self.drops.malformed = self.drops.malformed.wrapping_add(1);
                return RouteDecision::Dropped;
            },
        };
        self.route(session_id, from, now_ms)
    }

    /// Arbitrates a floor request, as [`spec_floor_request`] says.
    fn floor_request(&mut self, session_id: u32, from: SessionEndpoint) -> (replies: Vec<
        (FloorMessage, SessionEndpoint),
    >)
        ensures
            (final(self).floors(), replies@) == spec_floor_request(
                old(self).routes(),
                old(self).floors(),
                session_id,
                from,
            ),
            final(self).routes == old(self).routes,
            final(self).ids == old(self).ids,
            final(self).max_sessions == old(self).max_sessions,
            final(self).drops == old(self).drops,
    {
        let entry: RouteEntry = match session_get(&self.routes, session_id) {
            Some(e) => e,
            None => {
                return Vec::new();
            },
        };
        let from_a = entry.a.is_some() && entry.a.unwrap().matches(&from);
        let from_b = entry.b.is_some() && entry.b.unwrap().matches(&from);
        if !from_a && !from_b {
            return Vec::new();
        }
        let holder: Option<SessionEndpoint> = floor_get(&self.floors, session_id);
        match holder {
            Some(h) => {
                let held_a = entry.a.is_some() && entry.a.unwrap().matches(&h);
                let held_b = entry.b.is_some() && entry.b.unwrap().matches(&h);
                if !h.matches(&from) && (held_a || held_b) {
                    let mut deny: Vec<(FloorMessage, SessionEndpoint)> = Vec::new();
                    deny.push((FloorMessage::Deny, from));
                    assert(deny@ =~= seq![(FloorMessage::Deny, from)]);
                    return deny;
                }
            },
            None => {},
        }
        floor_insert(&mut self.floors, session_id, from);
        let mut replies: Vec<(FloorMessage, SessionEndpoint)> = Vec::new();
        replies.push((FloorMessage::Grant, from));
        assert(replies@ =~= seq![(FloorMessage::Grant, from)]);
        push_others(&mut replies, FloorMessage::Taken, &entry, from);
        replies
    }

    /// Arbitrates a floor release, as [`spec_floor_release`] says.
    fn floor_release(&mut self, session_id: u32, from: SessionEndpoint) -> (replies: Vec<
        (FloorMessage, SessionEndpoint),
    >)
        ensures
            (final(self).floors(), replies@) == spec_floor_release(
                old(self).routes(),
                old(self).floors(),
                session_id,
                from,
            ),
            final(self).routes == old(self).routes,
            final(self).ids == old(self).ids,
            final(self).max_sessions == old(self).max_sessions,
            final(self).drops == old(self).drops,
    {
        let held = match floor_get(&self.floors, session_id) {
            Some(h) => h.matches(&from),
            None => false,
        };
        let mut replies: Vec<(FloorMessage, SessionEndpoint)> = Vec::new();
        if !held {
            assert(replies@ =~= Seq::<(FloorMessage, SessionEndpoint)>::empty());
            return replies;
        }
        floor_remove(&mut self.floors, session_id);
        match session_get(&self.routes, session_id) {
            Some(e) => {
                let entry = e;
                push_others(&mut replies, FloorMessage::Release, &entry, from);
                assert(replies@ =~= tell_others(FloorMessage::Release, entry, from));
            },
            None => {
                assert(replies@ =~= Seq::<(FloorMessage, SessionEndpoint)>::empty());
            },
        }
        replies
    }

    /// Handles one datagram as the relay does, as [`spec_relay`] says:
    /// floor requests and releases are answered by the relay itself, every
    /// other packet is routed.
    pub fn relay_datagram(&mut self, datagram: &[u8], from: SessionEndpoint, now_ms: u64) -> (out: RelayOut)
        requires
            old(self).wf(),
        ensures
            final(self).wf(),
            final(self).limit() == old(self).limit(),
            (final(self).routes(), final(self).floors(), final(self).drop_counts(), out@) == spec_relay(
                old(self).routes(),
                old(self).floors(),
                old(self).limit(),
                old(self).drop_counts(),
                datagram@,
                from,
                now_ms,
            ),
    {
        let (session_id, msg_type) = match PacketView::decode(datagram) {
            Ok(view) => (view.header().session_id, view.header().msg_type),
            Err(_) => {
                self.drops.malformed = self.drops.malformed.wrapping_add(1);
                return RelayOut::Route(RouteDecision::Dropped);
            },
        };
        match FloorMessage::from_code(msg_type) {
            Some(FloorMessage::Request) => {
                let _ = self.route(session_id, from, now_ms);
                RelayOut::Floor(session_id, self.floor_request(session_id, from))
            },
            Some(FloorMessage::Release) => RelayOut::Floor(session_id, self.floor_release(session_id, from)),
            _ => RelayOut::Route(self.route(session_id, from, now_ms)),
        }
    }

    /// The number of sessions with at least one endpoint.
    pub fn active_sessions(&self) -> (n: usize)
        requires
            self.wf(),
        ensures
            n == self.routes().len(),
    {
        self.ids.len()
    }

    /// The drop counters.
    pub fn drops(&self) -> (c: DropCounts)
        ensures
            c == self.drop_counts(),
    {
        self.drops
    }
}

/// Whether a session has been idle for `max_age_secs` seconds or more at `now_ms`.
pub open spec fn idle(e: RouteEntry, max_age_secs: u64, now_ms: u64) -> bool {
    let age: int = if now_ms >= e.last_activity_ms {
        now_ms - e.last_activity_ms
    } else {
        0
    };
    age >= max_age_secs * 1000
}

fn is_idle(e: &RouteEntry, max_age_secs: u64, now_ms: u64) -> (b: bool)
    ensures
        b == idle(*e, max_age_secs, now_ms),
{
    let age: u64 = if now_ms >= e.last_activity_ms {
        now_ms - e.last_activity_ms
    } else {
        0
    };
    if max_age_secs > u64::MAX / 1000 {
        return false;
    }
    age >= max_age_secs * 1000
}

} // verus!
