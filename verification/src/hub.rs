//! The hub: the process-wide shared state of the real-time layer, combining
//! the connection registry, the presence table and the room tracker.

use vstd::prelude::*;
use crate::model::HubView;
use crate::presence::PresenceTable;
use crate::registry::ConnectionRegistry;
use crate::registry::UserInfo;
use crate::tracker::RoomTracker;

verus! {

/// Shared state of the real-time layer.  One value of this type lives for
/// the whole server process; every mutation goes through the operations
/// below.
pub struct Hub {
    registry: ConnectionRegistry,
    presence: PresenceTable,
    rooms: RoomTracker,
}

impl View for Hub {
    type V = HubView;

    closed spec fn view(&self) -> HubView {
        HubView { users: self.registry@, presence: self.presence@, rooms: self.rooms@ }
    }
}

impl Default for Hub {
    /// Same as `Hub::new`: a hub with nothing in it.
    fn default() -> (h: Hub)
        ensures
            h.inv(),
            h@.users == Map::<int, UserInfo>::empty(),
            h@.presence == Set::<(int, int)>::empty(),
            h@.rooms == Set::<(int, int)>::empty(),
    {
        Hub::new()
    }
}

impl Hub {
    /// The three tables are each well formed.
    pub closed spec fn inv(self) -> bool {
        self.registry.inv() && self.presence.inv() && self.rooms.inv()
    }

    /// A hub with no connections, no presence and no rooms.
    pub fn new() -> (h: Hub)
        ensures
            h.inv(),
            h@.users == Map::<int, UserInfo>::empty(),
            h@.presence == Set::<(int, int)>::empty(),
            h@.rooms == Set::<(int, int)>::empty(),
    {
        Hub {
            registry: ConnectionRegistry::new(),
            presence: PresenceTable::new(),
            rooms: RoomTracker::new(),
        }
    }

    /// Attach an identity to a connection; a second authentication simply
    /// replaces the stored identity.
    pub fn authenticate_socket(&mut self, socket_id: u64, user_id: i32, username: String)
        requires
            old(self).inv(),
        ensures
            final(self).inv(),
            final(self)@ == old(self)@.attach(socket_id as int, UserInfo { user_id, username }),
    {
        self.registry.attach(socket_id, UserInfo { user_id, username });
    }

    /// The identity attached to a connection, if any; absence is a valid
    /// result, not an error.
    pub fn get_user_info(&self, socket_id: u64) -> (r: Option<UserInfo>)
        requires
            self.inv(),
        ensures
            match r {
                Some(u) => self@.authenticated(socket_id as int) && u == self@.users[socket_id as int],
                None => !self@.authenticated(socket_id as int),
            },
    {
        self.registry.lookup(socket_id)
    }

    /// Forget a connection's identity at teardown.
    pub fn disconnect_socket(&mut self, socket_id: u64)
        requires
            old(self).inv(),
        ensures
            final(self).inv(),
            final(self)@ == old(self)@.detach(socket_id as int),
    {
        self.registry.forget(socket_id);
    }

    /// Record an identity as present in a community; duplicate inserts are
    /// no-ops.
    pub fn connect_user(&mut self, server_id: i32, user_id: i32)
        requires
            old(self).inv(),
        ensures
            final(self).inv(),
            final(self)@.users == old(self)@.users,
            final(self)@.rooms == old(self)@.rooms,
            final(self)@.presence == old(self)@.presence.insert(
                (server_id as int, user_id as int),
            ),
    {
        self.presence.add(server_id, user_id);
    }

    /// Withdraw an identity's presence in a community; removing an absent
    /// entry is a no-op, not an error.
    pub fn disconnect_user(&mut self, server_id: i32, user_id: i32)
        requires
            old(self).inv(),
        ensures
            final(self).inv(),
            final(self)@.users == old(self)@.users,
            final(self)@.rooms == old(self)@.rooms,
            final(self)@.presence == old(self)@.presence.remove(
                (server_id as int, user_id as int),
            ),
    {
        self.presence.remove(server_id, user_id);
    }

    /// Snapshot of the identities present in a community, each exactly once;
    /// an unknown community yields the empty list.
    pub fn get_connected_users(&self, server_id: i32) -> (r: Vec<i32>)
        requires
            self.inv(),
        ensures
            forall|j: int, k: int| 0 <= j < k < r@.len() ==> r@[j] != r@[k],
            forall|j: int| 0 <= j < r@.len() ==> self@.present(server_id as int, r@[j] as int),
            forall|u: int| self@.present(server_id as int, u) ==> r@.contains(u as i32),
    {
        self.presence.list(server_id)
    }

    /// Whether an identity is present in a community.
    pub fn is_user_connected(&self, server_id: i32, user_id: i32) -> (r: bool)
        ensures
            r == self@.present(server_id as int, user_id as int),
    {
        self.presence.contains(server_id, user_id)
    }

    /// Record that a connection joined a community's room.
    pub fn track_join(&mut self, socket_id: u64, server_id: i32)
        requires
            old(self).inv(),
        ensures
            final(self).inv(),
            final(self)@.users == old(self)@.users,
            final(self)@.presence == old(self)@.presence,
            final(self)@.rooms == old(self)@.rooms.insert((socket_id as int, server_id as int)),
    {
        self.rooms.track(socket_id, server_id);
    }

    /// Drop the record that a connection is in a community's room.
    pub fn untrack_join(&mut self, socket_id: u64, server_id: i32)
        requires
            old(self).inv(),
        ensures
            final(self).inv(),
            final(self)@.users == old(self)@.users,
            final(self)@.presence == old(self)@.presence,
            final(self)@.rooms == old(self)@.rooms.remove((socket_id as int, server_id as int)),
    {
        self.rooms.untrack(socket_id, server_id);
    }

    /// The communities whose rooms a connection is in, each exactly once.
    pub fn joined_servers(&self, socket_id: u64) -> (r: Vec<i32>)
        requires
            self.inv(),
        ensures
            forall|j: int, k: int| 0 <= j < k < r@.len() ==> r@[j] != r@[k],
            forall|j: int| 0 <= j < r@.len() ==> self@.in_room(socket_id as int, r@[j] as int),
            forall|c: int| self@.in_room(socket_id as int, c) ==> r@.contains(c as i32),
    {
        self.rooms.joined(socket_id)
    }

    /// Every presence pair lies within the id ranges.
    pub proof fn lemma_presence_ranged(self)
        ensures
            forall|p: (int, int)|
                self@.presence.contains(p) ==> i32::MIN <= p.0 <= i32::MAX && i32::MIN <= p.1
                    <= i32::MAX,
    {
        self.presence.lemma_ranged();
    }

    /// Drop every room record of a connection.
    pub fn untrack_all(&mut self, socket_id: u64)
        requires
            old(self).inv(),
        ensures
            final(self).inv(),
            final(self)@.users == old(self)@.users,
            final(self)@.presence == old(self)@.presence,
            forall|p: (int, int)|
                final(self)@.rooms.contains(p) == (old(self)@.rooms.contains(p) && p.0
                    != socket_id as int),
    {
        self.rooms.untrack_all(socket_id);
    }
}

} // verus!
