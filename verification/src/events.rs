//! The closed set of real-time events and their fixed wire names.

use vstd::prelude::*;

verus! {

/// Every event the hub or the REST layer can push to a room, one variant per
/// wire name.  Events are immutable value objects built at the moment of
/// emission.
#[derive(Debug, Clone, PartialEq)]
pub enum SocketEvent {
    /// A new message was created.
    NewMessage {
        channel_id: i32,
        message_id: i32,
        content: String,
        author_id: i32,
        author_username: String,
        created_at: String,
    },
    /// A message was deleted.
    MessageDeleted { channel_id: i32, message_id: i32 },
    /// A user is typing in a channel.
    UserTyping { channel_id: i32, user_id: i32, username: String },
    /// A user connected to a community room.
    UserConnected { server_id: i32, user_id: i32, username: String },
    /// A user disconnected from a community room.
    UserDisconnected { server_id: i32, user_id: i32, username: String },
    /// A member joined a community.
    MemberJoined { server_id: i32, user_id: i32, username: String },
    /// A member left a community.
    MemberLeft { server_id: i32, user_id: i32, username: String },
    /// A channel was created.
    ChannelCreated { server_id: i32, channel_id: i32, name: String },
    /// A channel was deleted.
    ChannelDeleted { server_id: i32, channel_id: i32 },
}

impl SocketEvent {
    /// The wire name of each event variant.
    pub open spec fn spec_event_name(self) -> Seq<char> {
        match self {
            SocketEvent::NewMessage { .. } => "message:new"@,
            SocketEvent::MessageDeleted { .. } => "message:deleted"@,
            SocketEvent::UserTyping { .. } => "user:typing"@,
            SocketEvent::UserConnected { .. } => "user:connected"@,
            SocketEvent::UserDisconnected { .. } => "user:disconnected"@,
            SocketEvent::MemberJoined { .. } => "member:joined"@,
            SocketEvent::MemberLeft { .. } => "member:left"@,
            SocketEvent::ChannelCreated { .. } => "channel:created"@,
            SocketEvent::ChannelDeleted { .. } => "channel:deleted"@,
        }
    }

    /// Name under which this event goes out on the wire.
    pub fn event_name(&self) -> (name: &'static str)
        ensures
            name@ == self.spec_event_name(),
    {
        match self {
            SocketEvent::NewMessage { .. } => "message:new",
            SocketEvent::MessageDeleted { .. } => "message:deleted",
            SocketEvent::UserTyping { .. } => "user:typing",
            SocketEvent::UserConnected { .. } => "user:connected",
            SocketEvent::UserDisconnected { .. } => "user:disconnected",
            SocketEvent::MemberJoined { .. } => "member:joined",
            SocketEvent::MemberLeft { .. } => "member:left",
            SocketEvent::ChannelCreated { .. } => "channel:created",
            SocketEvent::ChannelDeleted { .. } => "channel:deleted",
        }
    }
}

} // verus!
