use chat_core::error::ChatError;
use chat_core::event::RoomEventData;
use chat_core::room::Room;
use chat_core::room_list::list_rooms;
use chat_core::state::AppState;
use chat_core::user_management::{handle_user_join_room, handle_user_leave_room};

#[test]
fn fresh_context_is_empty() {
    let st = AppState::new();
    assert!(st.rooms.is_empty());
    assert!(st.usernames.is_empty());
    assert!(st.starred_messages.is_empty());
    assert!(list_rooms(&st).rooms.is_empty());
}

#[test]
fn membership_mutation_is_idempotent() {
    let mut room = Room::new(1, String::from("den"));
    assert!(room.add_member(10));
    assert!(!room.add_member(10));
    assert_eq!(room.list_members(), vec![10]);
    assert!(room.remove_member(10));
    assert!(!room.remove_member(10));
    assert!(room.list_members().is_empty());
}

#[test]
fn ensure_room_inserts_only_once() {
    let mut st = AppState::new();
    assert!(st.ensure_room(5, String::from("first")));
    assert!(!st.ensure_room(5, String::from("second")));
    assert_eq!(st.rooms.len(), 1);
    assert_eq!(st.rooms[0].name, "first");
}

#[test]
fn find_event_scans_by_id() {
    let mut st = AppState::new();
    st.ensure_room(5, String::from("den"));
    let out = chat_core::room_events::join_room_at(
        &mut st,
        1,
        chat_core::room_events::JoinRoomPayload { room_id: 5, room_name: None },
        String::from("den"),
        77,
        1,
    );
    assert_eq!(st.rooms[0].find_event(77), Some(0));
    assert_eq!(st.rooms[0].find_event(78), None);
    assert_eq!(st.rooms[0].list_events(), vec![out.join_event]);
}

#[test]
fn join_and_leave_notifications_require_the_room() {
    let mut st = AppState::new();
    let r = handle_user_join_room(&mut st, 1, 5);
    assert_eq!(r, Err(ChatError::RoomNotFound));

    st.ensure_room(5, String::from("den"));
    let (ev, members) = handle_user_join_room(&mut st, 1, 5).unwrap();
    assert!(matches!(ev.data, RoomEventData::UserJoin(_)));
    // the notification is logged, but joining the member set is the
    // orchestrating join's business
    assert_eq!(st.rooms[0].events.len(), 1);
    assert!(members.members.is_empty());

    let (ev, _) = handle_user_leave_room(&mut st, 1, 5).unwrap();
    assert!(matches!(ev.data, RoomEventData::UserLeave(_)));
    assert_eq!(st.rooms[0].events.len(), 2);
}
