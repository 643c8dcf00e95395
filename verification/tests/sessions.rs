use chat_core::error::ChatError;
use chat_core::event::RoomEventData;
use chat_core::room_events::{join_room, JoinRoomPayload};
use chat_core::state::AppState;
use chat_core::typing::{
    is_user_in_room, start_typing, stop_typing, StartTypingPayload, StopTypingPayload,
};
use chat_core::user_management::{
    get_room_members, handle_disconnect, set_username, GetMembersPayload, SetUsernamePayload,
};

fn join(st: &mut AppState, conn: u64, room: u128) {
    join_room(st, conn, JoinRoomPayload { room_id: room, room_name: None }, String::from("R"));
}

#[test]
fn set_username_echoes_and_resolves_in_snapshots() {
    let mut st = AppState::new();
    let echoed = set_username(&mut st, 1, SetUsernamePayload { username: String::from("alice") });
    assert_eq!(echoed, "alice");
    join(&mut st, 1, 7);
    let members = get_room_members(&st, GetMembersPayload { room_id: 7 }).unwrap();
    assert_eq!(members.members[0].username, Some(String::from("alice")));
    // a second set replaces the first
    set_username(&mut st, 1, SetUsernamePayload { username: String::from("alicia") });
    let members = get_room_members(&st, GetMembersPayload { room_id: 7 }).unwrap();
    assert_eq!(members.members[0].username, Some(String::from("alicia")));
}

#[test]
fn join_event_carries_the_display_name() {
    let mut st = AppState::new();
    set_username(&mut st, 1, SetUsernamePayload { username: String::from("alice") });
    let out = join_room(
        &mut st,
        1,
        JoinRoomPayload { room_id: 7, room_name: None },
        String::from("R"),
    );
    match &out.join_event.data {
        RoomEventData::UserJoin(j) => {
            assert_eq!(j.user_id, 1);
            assert_eq!(j.username, Some(String::from("alice")));
        }
        other => panic!("expected a UserJoin payload, got {:?}", other),
    }
}

#[test]
fn disconnect_leaves_every_room_and_drops_the_name() {
    // A member of rooms A and B disconnects: both rooms lose the member,
    // both get a UserLeave notification with a refreshed snapshot, and
    // the session-directory entry is gone afterwards.
    let mut st = AppState::new();
    set_username(&mut st, 1, SetUsernamePayload { username: String::from("alice") });
    join(&mut st, 1, 100);
    join(&mut st, 1, 200);
    join(&mut st, 2, 100);

    let notices = handle_disconnect(&mut st, 1);
    assert_eq!(notices.len(), 2);
    let mut rooms_seen: Vec<u128> = notices.iter().map(|n| n.room_id).collect();
    rooms_seen.sort();
    assert_eq!(rooms_seen, vec![100, 200]);
    for n in &notices {
        match &n.event.data {
            RoomEventData::UserLeave(l) => {
                assert_eq!(l.user_id, 1);
                assert_eq!(l.username, Some(String::from("alice")));
            }
            other => panic!("expected a UserLeave payload, got {:?}", other),
        }
        assert!(n.members.members.iter().all(|m| m.user_id != 1));
    }

    assert!(!is_user_in_room(&st, 1, 100));
    assert!(!is_user_in_room(&st, 1, 200));
    assert!(is_user_in_room(&st, 2, 100));

    // the directory entry is gone: a fresh join resolves no name
    let out = join_room(
        &mut st,
        1,
        JoinRoomPayload { room_id: 100, room_name: None },
        String::from("R"),
    );
    match &out.join_event.data {
        RoomEventData::UserJoin(j) => assert_eq!(j.username, None),
        other => panic!("expected a UserJoin payload, got {:?}", other),
    }
}

#[test]
fn disconnect_of_unknown_connection_is_a_no_op() {
    let mut st = AppState::new();
    join(&mut st, 1, 7);
    let notices = handle_disconnect(&mut st, 99);
    assert!(notices.is_empty());
    assert!(is_user_in_room(&st, 1, 7));
}

#[test]
fn typing_indicators_require_membership_and_name_the_sender() {
    let mut st = AppState::new();
    set_username(&mut st, 1, SetUsernamePayload { username: String::from("alice") });
    join(&mut st, 1, 7);

    let t = start_typing(&st, 1, StartTypingPayload { room_id: 7 }).unwrap();
    assert_eq!(t.user_id, 1);
    assert_eq!(t.room_id, 7);
    assert_eq!(t.username, Some(String::from("alice")));

    let t = stop_typing(&st, 1, StopTypingPayload { room_id: 7 }).unwrap();
    assert_eq!(t.user_id, 1);

    let r = start_typing(&st, 2, StartTypingPayload { room_id: 7 });
    assert_eq!(r, Err(ChatError::NotMember));
    let r = stop_typing(&st, 1, StopTypingPayload { room_id: 8 });
    assert_eq!(r, Err(ChatError::NotMember));
}

#[test]
fn typing_is_never_logged() {
    let mut st = AppState::new();
    join(&mut st, 1, 7);
    let before = st.rooms[0].events.len();
    start_typing(&st, 1, StartTypingPayload { room_id: 7 }).unwrap();
    stop_typing(&st, 1, StopTypingPayload { room_id: 7 }).unwrap();
    assert_eq!(st.rooms[0].events.len(), before);
}
