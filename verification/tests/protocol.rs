use chat_hub::events::SocketEvent;
use chat_hub::gate::on_authenticate;
use chat_hub::gate::on_disconnect;
use chat_hub::gate::on_join_server;
use chat_hub::gate::on_join_server_check;
use chat_hub::gate::on_leave_server;
use chat_hub::gate::on_typing_start;
use chat_hub::gate::recipients;
use chat_hub::gate::JoinOutcome;
use chat_hub::gate::JoinPrecheck;
use chat_hub::hub::Hub;
use chat_hub::models::Claims;
use chat_hub::models::UserRole;

fn claims(sub: i32, username: &str) -> Claims {
    Claims { sub, username: username.to_string(), exp: 4_102_444_800 }
}

/// Authenticate a connection and join it to a community, asserting both
/// steps are granted.
fn join(hub: &mut Hub, socket: u64, sub: i32, name: &str, server: i32) -> JoinOutcome {
    let out = on_authenticate(hub, socket, Some(claims(sub, name)));
    assert!(out.response.success);
    let pre = on_join_server_check(hub, socket);
    match pre {
        JoinPrecheck::Refuse(_) => panic!("expected an authenticated connection"),
        JoinPrecheck::Query { user_id, username } => {
            on_join_server(hub, socket, server, user_id, username, Some(UserRole::Member))
        }
    }
}

#[test]
fn valid_token_then_join_notifies_the_room() {
    let mut hub = Hub::new();

    // A second connection, identity 9 "bo", is already joined to server:3.
    let bo = join(&mut hub, 2, 9, "bo", 3);
    assert!(matches!(bo, JoinOutcome::Granted { .. }));

    // Identity 7 "ana" authenticates with a valid token.
    let out = on_authenticate(&mut hub, 1, Some(claims(7, "ana")));
    assert!(out.response.success);
    assert_eq!(out.response.user_id, Some(7));
    assert_eq!(out.response.username, Some("ana".to_string()));
    assert_eq!(out.response.error, None);
    assert!(!out.disconnect);

    // Then joins server 3 where the oracle reports Member.
    let pre = on_join_server_check(&hub, 1);
    let (user_id, username) = match pre {
        JoinPrecheck::Refuse(_) => panic!("ana is authenticated"),
        JoinPrecheck::Query { user_id, username } => (user_id, username),
    };
    let res = on_join_server(&mut hub, 1, 3, user_id, username, Some(UserRole::Member));
    match res {
        JoinOutcome::Denied(_) => panic!("ana is a member"),
        JoinOutcome::Granted { room, notice, reply } => {
            assert_eq!(room, "server:3");
            assert_eq!(
                notice,
                SocketEvent::MemberJoined { server_id: 3, user_id: 7, username: "ana".to_string() }
            );
            assert_eq!(reply.server_id, 3);
            let mut connected = reply.connected_users.clone();
            connected.sort();
            assert_eq!(connected, vec![7, 9]);
        }
    }

    // The notice goes to the other members of the room, never to ana.
    let members = vec![2u64, 1u64];
    assert_eq!(recipients(&members, 1), vec![2u64]);
}

#[test]
fn first_join_lists_only_the_joiner() {
    let mut hub = Hub::new();
    match join(&mut hub, 1, 7, "ana", 3) {
        JoinOutcome::Denied(_) => panic!("ana is a member"),
        JoinOutcome::Granted { reply, .. } => {
            assert_eq!(reply.connected_users, vec![7]);
        }
    }
}

#[test]
fn invalid_token_fails_and_terminates() {
    let mut hub = Hub::new();
    let out = on_authenticate(&mut hub, 1, None);
    assert!(!out.response.success);
    assert_eq!(out.response.user_id, None);
    assert_eq!(out.response.username, None);
    assert_eq!(out.response.error, Some("Invalid or expired token".to_string()));
    assert!(out.disconnect);
    // Nothing was attached.
    assert!(hub.get_user_info(1).is_none());
}

#[test]
fn revoked_member_is_rejected_and_not_listed() {
    let mut hub = Hub::new();

    // Identity 7 was joined to server:3 on an earlier connection, now gone.
    join(&mut hub, 1, 7, "ana", 3);
    on_disconnect(&mut hub, 1);

    // The role was revoked externally; a fresh connection tries again.
    let out = on_authenticate(&mut hub, 2, Some(claims(7, "ana")));
    assert!(out.response.success);
    let res = on_join_server(&mut hub, 2, 3, 7, "ana".to_string(), None);
    match res {
        JoinOutcome::Granted { .. } => panic!("the oracle said NotAMember"),
        JoinOutcome::Denied(e) => {
            assert_eq!(e.error, "Not a member of this server");
            assert_eq!(e.code, "FORBIDDEN");
        }
    }
    assert!(!hub.get_connected_users(3).contains(&7));
}

#[test]
fn denied_join_mutates_nothing() {
    let mut hub = Hub::new();
    let out = on_authenticate(&mut hub, 1, Some(claims(7, "ana")));
    assert!(out.response.success);
    let res = on_join_server(&mut hub, 1, 3, 7, "ana".to_string(), None);
    assert!(matches!(res, JoinOutcome::Denied(_)));
    assert!(!hub.is_user_connected(3, 7));
    assert_eq!(hub.get_connected_users(3), Vec::<i32>::new());
    assert_eq!(hub.joined_servers(1), Vec::<i32>::new());
}

#[test]
fn unauthenticated_join_gets_unauthorized() {
    let hub = Hub::new();
    match on_join_server_check(&hub, 1) {
        JoinPrecheck::Query { .. } => panic!("nothing is attached to this connection"),
        JoinPrecheck::Refuse(e) => {
            assert_eq!(e.error, "Not authenticated");
            assert_eq!(e.code, "UNAUTHORIZED");
        }
    }
    assert_eq!(hub.get_connected_users(3), Vec::<i32>::new());
}

#[test]
fn leave_withdraws_presence_and_notifies() {
    let mut hub = Hub::new();
    join(&mut hub, 1, 7, "ana", 3);
    let msg = on_leave_server(&mut hub, 1, 3).expect("ana is authenticated");
    assert_eq!(msg.room, "server:3");
    assert_eq!(msg.sender, 1);
    assert_eq!(
        msg.event,
        SocketEvent::UserDisconnected { server_id: 3, user_id: 7, username: "ana".to_string() }
    );
    assert_eq!(hub.get_connected_users(3), Vec::<i32>::new());
    assert_eq!(hub.joined_servers(1), Vec::<i32>::new());
    // The identity stays attached: leaving a room is not a disconnect.
    assert!(hub.get_user_info(1).is_some());
}

#[test]
fn leave_from_unauthenticated_is_silent() {
    let mut hub = Hub::new();
    assert!(on_leave_server(&mut hub, 1, 3).is_none());
}

#[test]
fn disconnect_cleans_every_joined_room() {
    let mut hub = Hub::new();
    join(&mut hub, 1, 7, "ana", 3);
    let pre = on_join_server_check(&hub, 1);
    if let JoinPrecheck::Query { user_id, username } = pre {
        on_join_server(&mut hub, 1, 4, user_id, username, Some(UserRole::Member));
    }
    let pre = on_join_server_check(&hub, 1);
    if let JoinPrecheck::Query { user_id, username } = pre {
        on_join_server(&mut hub, 1, 5, user_id, username, Some(UserRole::Member));
    }
    // Another identity's presence must survive.
    join(&mut hub, 2, 9, "bo", 4);

    let mut vacated = on_disconnect(&mut hub, 1);
    vacated.sort();
    assert_eq!(vacated, vec![3, 4, 5]);
    assert_eq!(hub.get_connected_users(3), Vec::<i32>::new());
    assert_eq!(hub.get_connected_users(4), vec![9]);
    assert_eq!(hub.get_connected_users(5), Vec::<i32>::new());
    assert!(hub.get_user_info(1).is_none());
    assert_eq!(hub.joined_servers(1), Vec::<i32>::new());
}

#[test]
fn disconnect_of_unauthenticated_changes_nothing() {
    let mut hub = Hub::new();
    join(&mut hub, 1, 7, "ana", 3);
    let vacated = on_disconnect(&mut hub, 99);
    assert_eq!(vacated, Vec::<i32>::new());
    assert_eq!(hub.get_connected_users(3), vec![7]);
}

#[test]
fn typing_goes_to_the_channel_room_without_the_sender() {
    let mut hub = Hub::new();
    let out = on_authenticate(&mut hub, 1, Some(claims(7, "ana")));
    assert!(out.response.success);
    let msg = on_typing_start(&hub, 1, 5).expect("ana is authenticated");
    assert_eq!(msg.room, "channel:5");
    assert_eq!(msg.sender, 1);
    assert_eq!(
        msg.event,
        SocketEvent::UserTyping { channel_id: 5, user_id: 7, username: "ana".to_string() }
    );
    // Delivery of the room message excludes the sender.
    let members = vec![1u64, 2u64, 3u64];
    let out = recipients(&members, msg.sender);
    assert_eq!(out, vec![2u64, 3u64]);
    assert!(!out.contains(&1u64));
}

#[test]
fn typing_from_unauthenticated_is_silent() {
    let hub = Hub::new();
    assert!(on_typing_start(&hub, 1, 5).is_none());
}

#[test]
fn reauthentication_replaces_the_identity() {
    let mut hub = Hub::new();
    on_authenticate(&mut hub, 1, Some(claims(7, "ana")));
    on_authenticate(&mut hub, 1, Some(claims(9, "bo")));
    let info = hub.get_user_info(1).unwrap();
    assert_eq!(info.user_id, 9);
    assert_eq!(info.username, "bo");
}
