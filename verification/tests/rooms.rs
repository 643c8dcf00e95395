use chat_core::event::RoomEventData;
use chat_core::event::TextMessageEvent;
use chat_core::room_events::{join_room, join_room_at, leave_room, JoinRoomPayload, LeaveRoomPayload};
use chat_core::room_list::{create_room, list_rooms, CreateRoomPayload};
use chat_core::send_event::{handle, SendEventPayload};
use chat_core::state::AppState;
use chat_core::user_management::{get_room_members, GetMembersPayload};

fn text(content: &str) -> RoomEventData {
    RoomEventData::Message(TextMessageEvent {
        content: String::from(content),
        edited: false,
        deleted: false,
        reply_to: None,
    })
}

#[test]
fn join_creates_room_lazily() {
    let mut st = AppState::new();
    let out = join_room(
        &mut st,
        1,
        JoinRoomPayload { room_id: 7, room_name: Some(String::from("lobby")) },
        String::from("Room 7"),
    );
    assert!(out.created);
    assert!(out.replay.is_empty());
    assert_eq!(out.members.members.len(), 1);
    assert_eq!(out.members.members[0].user_id, 1);
    let list = list_rooms(&st);
    assert_eq!(list.rooms.len(), 1);
    assert_eq!(list.rooms[0].id, 7);
    assert_eq!(list.rooms[0].name, "lobby");
    assert_eq!(list.rooms[0].member_count, 1);
}

#[test]
fn join_uses_default_name_when_none_given() {
    let mut st = AppState::new();
    let out = join_room(
        &mut st,
        1,
        JoinRoomPayload { room_id: 9, room_name: None },
        String::from("Room 9"),
    );
    assert!(out.created);
    let list = list_rooms(&st);
    assert_eq!(list.rooms[0].name, "Room 9");
}

#[test]
fn join_is_idempotent_on_membership() {
    let mut st = AppState::new();
    join_room(&mut st, 1, JoinRoomPayload { room_id: 7, room_name: None }, String::from("R"));
    let again = join_room(
        &mut st,
        1,
        JoinRoomPayload { room_id: 7, room_name: None },
        String::from("R"),
    );
    assert!(!again.created);
    assert_eq!(again.members.members.len(), 1);
}

#[test]
fn replay_precedes_live_broadcast_for_late_joiner() {
    // X joins an auto-created room, sends a message, then Y joins: Y's
    // replay holds the room's full log so far — X's join entry and
    // exactly one message, X's — handed back before any later broadcast.
    let mut st = AppState::new();
    let x_join = join_room(
        &mut st,
        1,
        JoinRoomPayload { room_id: 7, room_name: None },
        String::from("R"),
    );
    assert!(x_join.created);
    let sent = handle(&mut st, 1, SendEventPayload { room: 7, payload: text("hi") }).unwrap();
    let y_join = join_room(
        &mut st,
        2,
        JoinRoomPayload { room_id: 7, room_name: None },
        String::from("R"),
    );
    assert!(!y_join.created);
    assert_eq!(y_join.replay.len(), 2);
    assert_eq!(y_join.replay[0], x_join.join_event);
    assert_eq!(y_join.replay[1], sent);
    let messages: Vec<_> = y_join
        .replay
        .iter()
        .filter_map(|ev| match &ev.data {
            RoomEventData::Message(m) => Some((ev.from, m.content.clone())),
            _ => None,
        })
        .collect();
    assert_eq!(messages, vec![(1, String::from("hi"))]);
}

#[test]
fn leave_removes_member_and_logs_user_leave() {
    let mut st = AppState::new();
    join_room(&mut st, 1, JoinRoomPayload { room_id: 7, room_name: None }, String::from("R"));
    join_room(&mut st, 2, JoinRoomPayload { room_id: 7, room_name: None }, String::from("R"));
    let out = leave_room(&mut st, 1, LeaveRoomPayload { room_id: 7 }).unwrap();
    assert_eq!(out.members.members.len(), 1);
    assert_eq!(out.members.members[0].user_id, 2);
    match &out.leave_event.data {
        RoomEventData::UserLeave(l) => assert_eq!(l.user_id, 1),
        other => panic!("expected a UserLeave payload, got {:?}", other),
    }
    let members = get_room_members(&st, GetMembersPayload { room_id: 7 }).unwrap();
    assert_eq!(members.members.len(), 1);
    assert_eq!(members.members[0].user_id, 2);
}

#[test]
fn leave_of_absent_room_is_room_not_found() {
    let mut st = AppState::new();
    let r = leave_room(&mut st, 1, LeaveRoomPayload { room_id: 7 });
    assert_eq!(r, Err(chat_core::error::ChatError::RoomNotFound));
}

#[test]
fn create_room_registers_empty_room_and_lists_it() {
    let mut st = AppState::new();
    let (id, list) = create_room(&mut st, CreateRoomPayload { name: String::from("den") });
    assert_eq!(list.rooms.len(), 1);
    assert_eq!(list.rooms[0].id, id);
    assert_eq!(list.rooms[0].name, "den");
    assert_eq!(list.rooms[0].member_count, 0);
}

#[test]
fn join_at_pins_event_id_and_timestamp() {
    let mut st = AppState::new();
    let out = join_room_at(
        &mut st,
        1,
        JoinRoomPayload { room_id: 7, room_name: None },
        String::from("R"),
        42,
        1000,
    );
    assert_eq!(out.join_event.id, 42);
    assert_eq!(out.join_event.timestamp, 1000);
    assert_eq!(out.join_event.from, 1);
}

#[test]
fn get_members_of_absent_room_is_room_not_found() {
    let st = AppState::new();
    let r = get_room_members(&st, GetMembersPayload { room_id: 5 });
    assert_eq!(r, Err(chat_core::error::ChatError::RoomNotFound));
}
