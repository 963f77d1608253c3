//! The room gate: the per-connection protocol.  Each handler is a pure
//! step of the state machine in terms of the hub state; the transport layer
//! performs the sends and the waits and passes the collaborators' answers
//! in as plain values.

use vstd::prelude::*;
use crate::events::SocketEvent;
use crate::hub::Hub;
use crate::models::Claims;
use crate::models::UserRole;
use crate::naming::channel_room;
use crate::naming::server_room;
use crate::naming::spec_channel_room;
use crate::naming::spec_server_room;
use crate::registry::UserInfo;

verus! {

/// Inbound payload of an `authenticate` request.
#[derive(Debug, Clone)]
pub struct AuthenticatePayload {
    pub token: String,
}

/// Private acknowledgment of an `authenticate` request.
#[derive(Debug, Clone, PartialEq)]
pub struct AuthenticateResponse {
    pub success: bool,
    pub user_id: Option<i32>,
    pub username: Option<String>,
    pub error: Option<String>,
}

/// Inbound payload of a `join_server` request.
#[derive(Debug, Clone)]
pub struct JoinServerPayload {
    pub server_id: i32,
}

/// Inbound payload of a `leave_server` request.
#[derive(Debug, Clone)]
pub struct LeaveServerPayload {
    pub server_id: i32,
}

/// Inbound payload of a `typing_start` request.
#[derive(Debug, Clone)]
pub struct TypingPayload {
    pub channel_id: i32,
}

/// Error event sent back to the requesting connection alone.
#[derive(Debug, Clone, PartialEq)]
pub struct ErrorReply {
    pub error: String,
    pub code: String,
}

/// Private `server:joined` acknowledgment: the room's member list as of the
/// committed join.
#[derive(Debug, Clone, PartialEq)]
pub struct ServerJoinedReply {
    pub server_id: i32,
    pub connected_users: Vec<i32>,
}

/// An event to broadcast to one room, excluding its sender.
#[derive(Debug, Clone, PartialEq)]
pub struct RoomMessage {
    pub room: String,
    pub sender: u64,
    pub event: SocketEvent,
}

/// What an `authenticate` request produces: the acknowledgment, and whether
/// the transport must terminate the connection.
#[derive(Debug, Clone, PartialEq)]
pub struct AuthOutcome {
    pub response: AuthenticateResponse,
    pub disconnect: bool,
}

/// First step of a join: either the connection is not authenticated and is
/// refused, or the membership oracle must now be asked about the identity.
#[derive(Debug, Clone, PartialEq)]
pub enum JoinPrecheck {
    Refuse(ErrorReply),
    Query { user_id: i32, username: String },
}

/// Second step of a join: either the oracle refused, or the join committed
/// with the notice to broadcast and the acknowledgment to send back.
#[derive(Debug, Clone, PartialEq)]
pub enum JoinOutcome {
    Denied(ErrorReply),
    Granted { room: String, notice: SocketEvent, reply: ServerJoinedReply },
}

/// Outcome of an `authenticate` request, from the credential verifier's
/// answer.  A valid credential attaches the identity; an invalid one leaves
/// the hub unchanged and terminates the session.
pub fn on_authenticate(hub: &mut Hub, socket_id: u64, verdict: Option<Claims>) -> (r: AuthOutcome)
    requires
        old(hub).inv(),
    ensures
        final(hub).inv(),
        match verdict {
            Some(claims) => {
                &&& final(hub)@ == old(hub)@.attach(
                    socket_id as int,
                    UserInfo { user_id: claims.sub, username: claims.username },
                )
                &&& r.response.success == true
                &&& r.response.user_id == Some(claims.sub)
                &&& r.response.username == Some(claims.username)
                &&& r.response.error is None
                &&& r.disconnect == false
            },
            None => {
                &&& final(hub)@ == old(hub)@
                &&& r.response.success == false
                &&& r.response.user_id is None
                &&& r.response.username is None
                &&& r.response.error matches Some(e) && e@ == "Invalid or expired token"@
                &&& r.disconnect == true
            },
        },
{
    match verdict {
        Some(claims) => {
            let username_ack = claims.username.clone();
            hub.authenticate_socket(socket_id, claims.sub, claims.username);
            AuthOutcome {
                response: AuthenticateResponse {
                    success: true,
                    user_id: Some(claims.sub),
                    username: Some(username_ack),
                    error: None,
                },
                disconnect: false,
            }
        },
        None => AuthOutcome {
            response: AuthenticateResponse {
                success: false,
                user_id: None,
                username: None,
                error: Some(String::from_str("Invalid or expired token")),
            },
            disconnect: true,
        },
    }
}

/// First step of a `join_server` request.  A connection with no attached
/// identity is refused with an `UNAUTHORIZED` error and nothing changes;
/// otherwise the attached identity is handed back so the membership oracle
/// can be asked.
pub fn on_join_server_check(hub: &Hub, socket_id: u64) -> (r: JoinPrecheck)
    requires
        hub.inv(),
    ensures
        match r {
            JoinPrecheck::Refuse(e) => {
                &&& !hub@.authenticated(socket_id as int)
                &&& e.error@ == "Not authenticated"@
                &&& e.code@ == "UNAUTHORIZED"@
            },
            JoinPrecheck::Query { user_id, username } => {
                &&& hub@.authenticated(socket_id as int)
                &&& user_id == hub@.users[socket_id as int].user_id
                &&& username == hub@.users[socket_id as int].username
            },
        },
{
    match hub.get_user_info(socket_id) {
        None => JoinPrecheck::Refuse(
            ErrorReply {
                error: String::from_str("Not authenticated"),
                code: String::from_str("UNAUTHORIZED"),
            },
        ),
        Some(info) => JoinPrecheck::Query { user_id: info.user_id, username: info.username },
    }
}

/// Second step of a `join_server` request, from the membership oracle's
/// answer for the identity handed back by the first step.  Without a role
/// nothing changes and a `FORBIDDEN` error is returned; with one, the
/// connection enters the community's room, the identity becomes present
/// there, a `member:joined` notice goes to the rest of the room and the
/// joining connection is acknowledged with the committed member list.
pub fn on_join_server(
    hub: &mut Hub,
    socket_id: u64,
    server_id: i32,
    user_id: i32,
    username: String,
    role: Option<UserRole>,
) -> (r: JoinOutcome)
    requires
        old(hub).inv(),
    ensures
        final(hub).inv(),
        match r {
            JoinOutcome::Denied(e) => {
                &&& role is None
                &&& final(hub)@ == old(hub)@
                &&& e.error@ == "Not a member of this server"@
                &&& e.code@ == "FORBIDDEN"@
            },
            JoinOutcome::Granted { room, notice, reply } => {
                &&& role is Some
                &&& final(hub)@ == old(hub)@.join(
                    socket_id as int,
                    server_id as int,
                    user_id as int,
                )
                &&& room@ == spec_server_room(server_id as int)
                &&& notice == SocketEvent::MemberJoined { server_id, user_id, username }
                &&& reply.server_id == server_id
                &&& forall|j: int, k: int|
                    0 <= j < k < reply.connected_users@.len() ==> reply.connected_users@[j]
                        != reply.connected_users@[k]
                &&& forall|j: int|
                    0 <= j < reply.connected_users@.len() ==> final(hub)@.present(
                        server_id as int,
                        reply.connected_users@[j] as int,
                    )
                &&& forall|u: int|
                    final(hub)@.present(server_id as int, u)
                        ==> reply.connected_users@.contains(u as i32)
            },
        },
{
    match role {
        None => JoinOutcome::Denied(
            ErrorReply {
                error: String::from_str("Not a member of this server"),
                code: String::from_str("FORBIDDEN"),
            },
        ),
        Some(_role) => {
            hub.connect_user(server_id, user_id);
            hub.track_join(socket_id, server_id);
            proof {
                assert(hub@ =~= old(hub)@.join(socket_id as int, server_id as int, user_id as int));
            }
            let connected_users = hub.get_connected_users(server_id);
            let room = server_room(server_id);
            let notice = SocketEvent::MemberJoined { server_id, user_id, username };
            JoinOutcome::Granted {
                room,
                notice,
                reply: ServerJoinedReply { server_id, connected_users },
            }
        },
    }
}

/// A `leave_server` request.  From a connection with no attached identity
/// it is silently ignored; otherwise the connection exits the community's
/// room, the identity's presence there is withdrawn, and a
/// `user:disconnected` notice for the rest of the room is produced.
pub fn on_leave_server(hub: &mut Hub, socket_id: u64, server_id: i32) -> (r: Option<RoomMessage>)
    requires
        old(hub).inv(),
    ensures
        final(hub).inv(),
        match r {
            None => {
                &&& !old(hub)@.authenticated(socket_id as int)
                &&& final(hub)@ == old(hub)@
            },
            Some(m) => {
                &&& old(hub)@.authenticated(socket_id as int)
                &&& final(hub)@ == old(hub)@.leave(
                    socket_id as int,
                    server_id as int,
                    old(hub)@.users[socket_id as int].user_id as int,
                )
                &&& m.room@ == spec_server_room(server_id as int)
                &&& m.sender == socket_id
                &&& m.event == (SocketEvent::UserDisconnected {
                    server_id,
                    user_id: old(hub)@.users[socket_id as int].user_id,
                    username: old(hub)@.users[socket_id as int].username,
                })
            },
        },
{
    match hub.get_user_info(socket_id) {
        None => None,
        Some(info) => {
            hub.disconnect_user(server_id, info.user_id);
            hub.untrack_join(socket_id, server_id);
            proof {
                assert(hub@ =~= old(hub)@.leave(
                    socket_id as int,
                    server_id as int,
                    info.user_id as int,
                ));
            }
            Some(
                RoomMessage {
                    room: server_room(server_id),
                    sender: socket_id,
                    event: SocketEvent::UserDisconnected {
                        server_id,
                        user_id: info.user_id,
                        username: info.username,
                    },
                },
            )
        },
    }
}

/// A `typing_start` request.  From a connection with no attached identity
/// it is silently ignored; otherwise it produces a `user:typing` notice for
/// the channel's room, to be delivered to everyone there but the sender.
/// No state changes either way.
pub fn on_typing_start(hub: &Hub, socket_id: u64, channel_id: i32) -> (r: Option<RoomMessage>)
    requires
        hub.inv(),
    ensures
        match r {
            None => !hub@.authenticated(socket_id as int),
            Some(m) => {
                &&& hub@.authenticated(socket_id as int)
                &&& m.room@ == spec_channel_room(channel_id as int)
                &&& m.sender == socket_id
                &&& m.event == (SocketEvent::UserTyping {
                    channel_id,
                    user_id: hub@.users[socket_id as int].user_id,
                    username: hub@.users[socket_id as int].username,
                })
            },
        },
{
    match hub.get_user_info(socket_id) {
        None => None,
        Some(info) => Some(
            RoomMessage {
                room: channel_room(channel_id),
                sender: socket_id,
                event: SocketEvent::UserTyping {
                    channel_id,
                    user_id: info.user_id,
                    username: info.username,
                },
            },
        ),
    }
}

/// Whether a community id occurs among the first `k` entries of a list.
pub open spec fn among(cs: Seq<i32>, k: int, c: int) -> bool {
    exists|j: int| 0 <= j < k && cs[j] as int == c
}

/// The presence pairs of one identity in the first `k` listed communities.
pub open spec fn pairs_upto(cs: Seq<i32>, k: int, u: int) -> Set<(int, int)>
    decreases k,
{
    if k <= 0 {
        Set::empty()
    } else {
        pairs_upto(cs, k - 1, u).insert((cs[k - 1] as int, u))
    }
}

/// What `pairs_upto` holds: the pairs (c, u) with c among the first `k`
/// listed communities.
pub proof fn lemma_pairs_upto_contains(cs: Seq<i32>, k: int, u: int, p: (int, int))
    requires
        0 <= k <= cs.len(),
    ensures
        pairs_upto(cs, k, u).contains(p) == (p.1 == u && among(cs, k, p.0)),
    decreases k,
{
    if k > 0 {
        lemma_pairs_upto_contains(cs, k - 1, u, p);
        let a = cs[k - 1] as int;
        if p.0 == a && p.1 == u {
            assert(p =~= (a, u));
            assert(pairs_upto(cs, k, u).contains(p));
            assert(among(cs, k, p.0));
        } else {
            assert(p != (a, u)) by {
                if p == (a, u) {
                    assert(p.0 == a && p.1 == u);
                }
            }
            if p.1 == u {
                if among(cs, k, p.0) {
                    let j = choose|j: int| 0 <= j < k && cs[j] as int == p.0;
                    assert(j != k - 1);
                    assert(among(cs, k - 1, p.0));
                }
                if among(cs, k - 1, p.0) {
                    let j = choose|j: int| 0 <= j < k - 1 && cs[j] as int == p.0;
                    assert(among(cs, k, p.0));
                }
            }
        }
    }
}

/// A transport-level disconnect.  The connection's identity is forgotten
/// and every presence it contributed — one per community room it was in —
/// is withdrawn.  The communities vacated are returned, each exactly once.
pub fn on_disconnect(hub: &mut Hub, socket_id: u64) -> (vacated: Vec<i32>)
    requires
        old(hub).inv(),
    ensures
        final(hub).inv(),
        if old(hub)@.authenticated(socket_id as int) {
            &&& final(hub)@ == old(hub)@.disconnect(
                socket_id as int,
                old(hub)@.users[socket_id as int].user_id as int,
            )
            &&& forall|j: int, k: int|
                0 <= j < k < vacated@.len() ==> vacated@[j] != vacated@[k]
            &&& forall|j: int|
                0 <= j < vacated@.len() ==> old(hub)@.in_room(socket_id as int, vacated@[j] as int)
            &&& forall|c: int|
                old(hub)@.in_room(socket_id as int, c) ==> vacated@.contains(c as i32)
        } else {
            &&& final(hub)@ == old(hub)@
            &&& vacated@.len() == 0
        },
{
    let info = match hub.get_user_info(socket_id) {
        None => {
            return Vec::new();
        },
        Some(info) => info,
    };
    let vacated = hub.joined_servers(socket_id);
    let ghost h0 = hub@;
    let n = vacated.len();
    let mut i: usize = 0;
    while i < n
        invariant
            n == vacated@.len(),
            0 <= i <= n,
            hub.inv(),
            hub@.users == h0.users,
            hub@.rooms == h0.rooms,
            forall|j: int, k: int| 0 <= j < k < vacated@.len() ==> vacated@[j] != vacated@[k],
            forall|j: int| 0 <= j < vacated@.len() ==> h0.in_room(socket_id as int, vacated@[j] as int),
            forall|c: int| h0.in_room(socket_id as int, c) ==> vacated@.contains(c as i32),
            hub@.presence == h0.presence.difference(
                pairs_upto(vacated@, i as int, info.user_id as int),
            ),
        decreases n - i,
    {
        hub.disconnect_user(vacated[i], info.user_id);
        proof {
            let a = vacated@[i as int] as int;
            let u = info.user_id as int;
            assert(pairs_upto(vacated@, i + 1, u) == pairs_upto(vacated@, i as int, u).insert(
                (a, u),
            ));
            assert(hub@.presence =~= h0.presence.difference(pairs_upto(vacated@, i + 1, u)));
        }
        i = i + 1;
    }
    hub.untrack_all(socket_id);
    hub.disconnect_socket(socket_id);
    proof {
        let sid = socket_id as int;
        let u = info.user_id as int;
        old(hub).lemma_presence_ranged();
        assert forall|p: (int, int)| #![auto] hub@.presence.contains(p) == h0.disconnect(
            sid,
            u,
        ).presence.contains(p) by {
            lemma_pairs_upto_contains(vacated@, n as int, u, p);
            if h0.presence.contains(p) && p.1 == u {
                assert(i32::MIN <= p.0 <= i32::MAX);
                if h0.rooms.contains((sid, p.0)) {
                    assert(h0.in_room(sid, p.0));
                    assert(vacated@.contains(p.0 as i32));
                    let j = choose|j: int| 0 <= j < vacated@.len() && vacated@[j] == p.0 as i32;
                    assert(vacated@[j] as int == p.0);
                    assert(among(vacated@, n as int, p.0));
                }
                if among(vacated@, n as int, p.0) {
                    let j = choose|j: int| 0 <= j < n && vacated@[j] as int == p.0;
                    assert(h0.in_room(sid, vacated@[j] as int));
                    assert(h0.rooms.contains((sid, p.0)));
                }
            }
        }
        assert(hub@ =~= h0.disconnect(sid, u));
    }
    vacated
}

/// Whether a delivery list is exactly the members of a room without the
/// sender.
pub open spec fn delivery_ok(members: Seq<u64>, sender: u64, out: Seq<u64>) -> bool {
    &&& forall|j: int|
        0 <= j < out.len() ==> members.contains(#[trigger] out[j]) && out[j] != sender
    &&& forall|s: u64| members.contains(s) && s != sender ==> out.contains(s)
}

/// The connections a room broadcast is delivered to: every member of the
/// room except the sender.
pub fn recipients(members: &Vec<u64>, sender: u64) -> (r: Vec<u64>)
    ensures
        delivery_ok(members@, sender, r@),
{
    let n = members.len();
    let mut r: Vec<u64> = Vec::new();
    let mut i: usize = 0;
    while i < n
        invariant
            n == members@.len(),
            0 <= i <= n,
            forall|j: int|
                0 <= j < r@.len() ==> members@.contains(#[trigger] r@[j]) && r@[j] != sender,
            forall|m: int|
                0 <= m < i && members@[m] != sender ==> r@.contains(#[trigger] members@[m]),
        decreases n - i,
    {
        if members[i] != sender {
            let ghost prev = r@;
            r.push(members[i]);
            proof {
                assert(members@.contains(members@[i as int]));
                assert forall|m: int|
                    0 <= m < i + 1 && members@[m] != sender implies r@.contains(
                        #[trigger] members@[m],
                    ) by {
                    if m < i {
                        let j = choose|j: int| 0 <= j < prev.len() && prev[j] == members@[m];
                        assert(r@[j] == members@[m]);
                    } else {
                        assert(r@[r@.len() - 1] == members@[m]);
                    }
                }
            }
        }
        i = i + 1;
    }
    r
}

/// A room broadcast reaches every other member of the room and never its
/// sender: whoever triggered the event is excluded from its delivery.
pub proof fn lemma_delivery_excludes_sender(members: Seq<u64>, sender: u64, out: Seq<u64>)
    requires
        delivery_ok(members, sender, out),
    ensures
        !out.contains(sender),
        forall|s: u64| members.contains(s) && s != sender ==> out.contains(s),
{
    if out.contains(sender) {
        let j = choose|j: int| 0 <= j < out.len() && out[j] == sender;
        assert(out[j] != sender);
    }
}

} // verus!
