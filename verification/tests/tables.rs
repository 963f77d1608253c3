use chat_hub::errors::AppError;
use chat_hub::hub::Hub;
use chat_hub::events::SocketEvent;
use chat_hub::models::default_channel_type;
use chat_hub::naming::channel_room;
use chat_hub::naming::server_room;
use chat_hub::presence::PresenceTable;
use chat_hub::registry::ConnectionRegistry;
use chat_hub::registry::UserInfo;
use chat_hub::tracker::RoomTracker;

#[test]
fn presence_add_is_idempotent() {
    let mut t = PresenceTable::new();
    t.add(3, 7);
    t.add(3, 7);
    let users = t.list(3);
    assert_eq!(users, vec![7]);
    assert!(t.contains(3, 7));
}

#[test]
fn presence_remove_absent_is_noop() {
    let mut t = PresenceTable::new();
    t.add(3, 7);
    t.remove(3, 9);
    t.remove(4, 7);
    assert_eq!(t.list(3), vec![7]);
    t.remove(3, 7);
    assert_eq!(t.list(3), Vec::<i32>::new());
    t.remove(3, 7);
    assert_eq!(t.list(3), Vec::<i32>::new());
}

#[test]
fn presence_unknown_community_lists_empty() {
    let t = PresenceTable::new();
    assert_eq!(t.list(42), Vec::<i32>::new());
    assert!(!t.contains(42, 7));
}

#[test]
fn presence_keeps_communities_apart() {
    let mut t = PresenceTable::new();
    t.add(3, 7);
    t.add(4, 7);
    t.add(3, 9);
    t.remove(4, 7);
    let mut s3 = t.list(3);
    s3.sort();
    assert_eq!(s3, vec![7, 9]);
    assert_eq!(t.list(4), Vec::<i32>::new());
}

#[test]
fn registry_attach_lookup_forget() {
    let mut r = ConnectionRegistry::new();
    assert!(r.lookup(1).is_none());
    r.attach(1, UserInfo { user_id: 7, username: "ana".to_string() });
    let u = r.lookup(1).unwrap();
    assert_eq!(u.user_id, 7);
    assert_eq!(u.username, "ana");
    r.forget(1);
    assert!(r.lookup(1).is_none());
    r.forget(1);
    assert!(r.lookup(1).is_none());
}

#[test]
fn registry_reattach_replaces() {
    let mut r = ConnectionRegistry::new();
    r.attach(1, UserInfo { user_id: 7, username: "ana".to_string() });
    r.attach(1, UserInfo { user_id: 9, username: "bo".to_string() });
    let u = r.lookup(1).unwrap();
    assert_eq!(u.user_id, 9);
    assert_eq!(u.username, "bo");
}

#[test]
fn tracker_tracks_rooms_per_connection() {
    let mut t = RoomTracker::new();
    t.track(1, 3);
    t.track(1, 4);
    t.track(1, 3);
    t.track(2, 3);
    let mut rooms = t.joined(1);
    rooms.sort();
    assert_eq!(rooms, vec![3, 4]);
    t.untrack(1, 3);
    assert_eq!(t.joined(1), vec![4]);
    t.untrack_all(1);
    assert_eq!(t.joined(1), Vec::<i32>::new());
    assert_eq!(t.joined(2), vec![3]);
}

#[test]
fn room_names_follow_the_wire_convention() {
    assert_eq!(server_room(3), "server:3");
    assert_eq!(channel_room(12), "channel:12");
    assert_eq!(server_room(0), "server:0");
    assert_eq!(server_room(-5), "server:-5");
    assert_eq!(channel_room(2147483647), "channel:2147483647");
    assert_eq!(channel_room(-2147483648), "channel:-2147483648");
}

#[test]
fn event_names_match_the_wire_table() {
    let name = "n".to_string();
    assert_eq!(
        SocketEvent::NewMessage {
            channel_id: 1,
            message_id: 2,
            content: "hi".to_string(),
            author_id: 7,
            author_username: name.clone(),
            created_at: "now".to_string(),
        }
        .event_name(),
        "message:new"
    );
    assert_eq!(
        SocketEvent::MessageDeleted { channel_id: 1, message_id: 2 }.event_name(),
        "message:deleted"
    );
    assert_eq!(
        SocketEvent::UserTyping { channel_id: 1, user_id: 7, username: name.clone() }.event_name(),
        "user:typing"
    );
    assert_eq!(
        SocketEvent::UserConnected { server_id: 3, user_id: 7, username: name.clone() }
            .event_name(),
        "user:connected"
    );
    assert_eq!(
        SocketEvent::UserDisconnected { server_id: 3, user_id: 7, username: name.clone() }
            .event_name(),
        "user:disconnected"
    );
    assert_eq!(
        SocketEvent::MemberJoined { server_id: 3, user_id: 7, username: name.clone() }.event_name(),
        "member:joined"
    );
    assert_eq!(
        SocketEvent::MemberLeft { server_id: 3, user_id: 7, username: name.clone() }.event_name(),
        "member:left"
    );
    assert_eq!(
        SocketEvent::ChannelCreated { server_id: 3, channel_id: 1, name: name.clone() }
            .event_name(),
        "channel:created"
    );
    assert_eq!(
        SocketEvent::ChannelDeleted { server_id: 3, channel_id: 1 }.event_name(),
        "channel:deleted"
    );
}

#[test]
fn error_kinds_map_to_their_status_codes() {
    assert_eq!(AppError::UsernameTaken.status_code(), 409);
    assert_eq!(AppError::EmailTaken.status_code(), 409);
    assert_eq!(AppError::AlreadyMember.status_code(), 409);
    assert_eq!(AppError::InvalidCredentials.status_code(), 401);
    assert_eq!(AppError::InvalidToken.status_code(), 401);
    assert_eq!(AppError::Unauthorized.status_code(), 401);
    assert_eq!(AppError::Forbidden.status_code(), 403);
    assert_eq!(AppError::OwnerOnly.status_code(), 403);
    assert_eq!(AppError::AdminOnly.status_code(), 403);
    assert_eq!(AppError::UserNotFound.status_code(), 404);
    assert_eq!(AppError::ServerNotFound.status_code(), 404);
    assert_eq!(AppError::ChannelNotFound.status_code(), 404);
    assert_eq!(AppError::MessageNotFound.status_code(), 404);
    assert_eq!(AppError::InvalidInvitationCode.status_code(), 404);
    assert_eq!(AppError::ValidationError("bad".to_string()).status_code(), 400);
    assert_eq!(AppError::OwnerCannotLeave.status_code(), 400);
    assert_eq!(AppError::DatabaseError("down".to_string()).status_code(), 500);
    assert_eq!(AppError::InternalServerError.status_code(), 500);
}

#[test]
fn channel_type_defaults_to_text() {
    assert_eq!(default_channel_type(), "text");
}

#[test]
fn default_hub_is_empty() {
    let hub = Hub::default();
    assert!(hub.get_user_info(1).is_none());
    assert_eq!(hub.get_connected_users(3), Vec::<i32>::new());
    assert!(!hub.is_user_connected(3, 7));
    assert_eq!(hub.joined_servers(1), Vec::<i32>::new());
}

#[test]
fn hub_tables_mirror_their_operations() {
    let mut hub = Hub::new();
    hub.authenticate_socket(1, 7, "ana".to_string());
    let info = hub.get_user_info(1).unwrap();
    assert_eq!((info.user_id, info.username.as_str()), (7, "ana"));
    hub.connect_user(3, 7);
    hub.connect_user(3, 7);
    assert_eq!(hub.get_connected_users(3), vec![7]);
    assert!(hub.is_user_connected(3, 7));
    hub.track_join(1, 3);
    assert_eq!(hub.joined_servers(1), vec![3]);
    hub.disconnect_user(3, 7);
    assert!(!hub.is_user_connected(3, 7));
    hub.untrack_join(1, 3);
    assert_eq!(hub.joined_servers(1), Vec::<i32>::new());
    hub.disconnect_socket(1);
    assert!(hub.get_user_info(1).is_none());
}
