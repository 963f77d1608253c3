//! Mathematical model of the hub state and of the protocol transitions,
//! with the laws the protocol obeys.

use vstd::prelude::*;
use crate::registry::UserInfo;

verus! {

/// Abstract hub state: attached identities, presence pairs
/// (community, identity), and room pairs (connection, community).
#[verifier::ext_equal]
pub ghost struct HubView {
    pub users: Map<int, UserInfo>,
    pub presence: Set<(int, int)>,
    pub rooms: Set<(int, int)>,
}

impl HubView {
    /// The connection has an identity attached.
    pub open spec fn authenticated(self, sid: int) -> bool {
        self.users.contains_key(sid)
    }

    /// The identity is present in the community.
    pub open spec fn present(self, c: int, u: int) -> bool {
        self.presence.contains((c, u))
    }

    /// The connection is in the community's room.
    pub open spec fn in_room(self, sid: int, c: int) -> bool {
        self.rooms.contains((sid, c))
    }

    /// Attach an identity to a connection, replacing any prior one.
    pub open spec fn attach(self, sid: int, user: UserInfo) -> HubView {
        HubView { users: self.users.insert(sid, user), ..self }
    }

    /// Drop a connection's identity.
    pub open spec fn detach(self, sid: int) -> HubView {
        HubView { users: self.users.remove(sid), ..self }
    }

    /// A granted join: the connection enters the community's room and the
    /// identity becomes present there.
    pub open spec fn join(self, sid: int, c: int, u: int) -> HubView {
        HubView {
            presence: self.presence.insert((c, u)),
            rooms: self.rooms.insert((sid, c)),
            ..self
        }
    }

    /// A leave: the connection exits the room and the identity's presence
    /// there is withdrawn.
    pub open spec fn leave(self, sid: int, c: int, u: int) -> HubView {
        HubView {
            presence: self.presence.remove((c, u)),
            rooms: self.rooms.remove((sid, c)),
            ..self
        }
    }

    /// A disconnect: the identity is detached and every presence the
    /// connection contributed — one per room it is in — is withdrawn.
    pub open spec fn disconnect(self, sid: int, u: int) -> HubView {
        HubView {
            users: self.users.remove(sid),
            presence: Set::new(
                |p: (int, int)|
                    self.presence.contains(p) && !(p.1 == u && self.rooms.contains((sid, p.0))),
            ),
            rooms: Set::new(|p: (int, int)| self.rooms.contains(p) && p.0 != sid),
        }
    }

    /// The gated join protocol: the state changes only when the connection
    /// is authenticated and the membership oracle granted a role.
    pub open spec fn join_gate(self, sid: int, c: int, granted: bool) -> HubView {
        if self.authenticated(sid) && granted {
            self.join(sid, c, self.users[sid].user_id as int)
        } else {
            self
        }
    }
}

/// The state after a sequence of granted joins by one connection.
pub open spec fn join_all(h: HubView, sid: int, u: int, cs: Seq<int>) -> HubView
    decreases cs.len(),
{
    if cs.len() == 0 {
        h
    } else {
        join_all(h, sid, u, cs.drop_last()).join(sid, cs.last(), u)
    }
}

/// Joining a community twice leaves the very same state as joining it once.
pub proof fn lemma_join_idempotent(h: HubView, sid: int, c: int, u: int)
    ensures
        h.join(sid, c, u).join(sid, c, u) == h.join(sid, c, u),
{
    assert(h.join(sid, c, u).join(sid, c, u) =~= h.join(sid, c, u));
}

/// An identity the membership oracle refuses is not made present by a join:
/// the denied join changes no state at all.
pub proof fn lemma_join_requires_membership(h: HubView, sid: int, c: int, u: int)
    requires
        !h.present(c, u),
    ensures
        h.join_gate(sid, c, false) == h,
        !h.join_gate(sid, c, false).present(c, u),
{
}

/// A join from a connection with no attached identity changes no state,
/// whatever the oracle would have said.
pub proof fn lemma_join_requires_auth(h: HubView, sid: int, c: int, granted: bool)
    requires
        !h.authenticated(sid),
    ensures
        h.join_gate(sid, c, granted) == h,
{
}

/// Every community in a join sequence is tracked as one of the connection's
/// rooms afterwards.
pub proof fn lemma_join_all_tracks(h: HubView, sid: int, u: int, cs: Seq<int>, k: int)
    requires
        0 <= k < cs.len(),
    ensures
        join_all(h, sid, u, cs).in_room(sid, cs[k]),
    decreases cs.len(),
{
    if k < cs.len() - 1 {
        lemma_join_all_tracks(h, sid, u, cs.drop_last(), k);
        assert(cs.drop_last()[k] == cs[k]);
    }
}

/// After any sequence of joins by a connection, a disconnect withdraws the
/// identity's presence from every community of the sequence.
pub proof fn lemma_disconnect_converges(h: HubView, sid: int, u: int, cs: Seq<int>, k: int)
    requires
        0 <= k < cs.len(),
    ensures
        !join_all(h, sid, u, cs).disconnect(sid, u).present(cs[k], u),
{
    lemma_join_all_tracks(h, sid, u, cs, k);
}

/// After any sequence of joins by a connection, leaving a community of the
/// sequence withdraws the identity's presence from that community.
pub proof fn lemma_leave_converges(h: HubView, sid: int, u: int, cs: Seq<int>, k: int)
    requires
        0 <= k < cs.len(),
    ensures
        !join_all(h, sid, u, cs).leave(sid, cs[k], u).present(cs[k], u),
{
}

} // verus!
