use chat_core::error::ChatError;
use chat_core::event::{RoomEventData, TextMessageEvent};
use chat_core::room_events::{join_room, JoinRoomPayload};
use chat_core::send_event::{handle, SendEventPayload};
use chat_core::starred_messages::{
    get_starred_messages, star_message, unstar_message, StarMessageRequest, UnstarMessageRequest,
};
use chat_core::state::AppState;

fn text(content: &str) -> RoomEventData {
    RoomEventData::Message(TextMessageEvent {
        content: String::from(content),
        edited: false,
        deleted: false,
        reply_to: None,
    })
}

fn setup() -> (AppState, u128) {
    let mut st = AppState::new();
    join_room(&mut st, 1, JoinRoomPayload { room_id: 7, room_name: None }, String::from("R"));
    join_room(&mut st, 2, JoinRoomPayload { room_id: 7, room_name: None }, String::from("R"));
    let sent = handle(&mut st, 1, SendEventPayload { room: 7, payload: text("hi") }).unwrap();
    (st, sent.id)
}

#[test]
fn star_is_per_connection_not_shared() {
    // X stars a message; X's list holds exactly it, while Y — a member of
    // the same room — still has an empty list.
    let (mut st, m) = setup();
    let ev = star_message(&mut st, 1, StarMessageRequest { room_id: 7, message_id: m }).unwrap();
    match &ev.data {
        RoomEventData::MessageStar(s) => assert_eq!(s.message_id, m),
        other => panic!("expected a star event, got {:?}", other),
    }
    let mine = get_starred_messages(&st, 1, 7).unwrap();
    assert_eq!(mine.starred_message_ids, vec![m]);
    let theirs = get_starred_messages(&st, 2, 7).unwrap();
    assert!(theirs.starred_message_ids.is_empty());
}

#[test]
fn starring_twice_leaves_the_set_unchanged() {
    let (mut st, m) = setup();
    star_message(&mut st, 1, StarMessageRequest { room_id: 7, message_id: m }).unwrap();
    star_message(&mut st, 1, StarMessageRequest { room_id: 7, message_id: m }).unwrap();
    let mine = get_starred_messages(&st, 1, 7).unwrap();
    assert_eq!(mine.starred_message_ids, vec![m]);
}

#[test]
fn unstar_of_non_starred_fails_and_does_not_mutate() {
    let (mut st, m) = setup();
    star_message(&mut st, 1, StarMessageRequest { room_id: 7, message_id: m }).unwrap();
    let r = unstar_message(&mut st, 2, UnstarMessageRequest { room_id: 7, message_id: m });
    assert_eq!(r, Err(ChatError::NotStarred));
    let mine = get_starred_messages(&st, 1, 7).unwrap();
    assert_eq!(mine.starred_message_ids, vec![m]);
}

#[test]
fn unstar_removes_only_the_given_id() {
    let (mut st, m) = setup();
    let second = handle(&mut st, 1, SendEventPayload { room: 7, payload: text("again") })
        .unwrap()
        .id;
    star_message(&mut st, 1, StarMessageRequest { room_id: 7, message_id: m }).unwrap();
    star_message(&mut st, 1, StarMessageRequest { room_id: 7, message_id: second }).unwrap();
    let ev =
        unstar_message(&mut st, 1, UnstarMessageRequest { room_id: 7, message_id: m }).unwrap();
    match &ev.data {
        RoomEventData::MessageUnstar(u) => assert_eq!(u.message_id, m),
        other => panic!("expected an unstar event, got {:?}", other),
    }
    let mine = get_starred_messages(&st, 1, 7).unwrap();
    assert_eq!(mine.starred_message_ids, vec![second]);
}

#[test]
fn star_requires_room_membership_and_message_existence() {
    let (mut st, m) = setup();
    let r = star_message(&mut st, 1, StarMessageRequest { room_id: 8, message_id: m });
    assert_eq!(r, Err(ChatError::RoomNotFound));
    let r = star_message(&mut st, 3, StarMessageRequest { room_id: 7, message_id: m });
    assert_eq!(r, Err(ChatError::NotMember));
    let r = star_message(&mut st, 1, StarMessageRequest { room_id: 7, message_id: 999 });
    assert_eq!(r, Err(ChatError::MessageNotFound));
}

#[test]
fn star_and_unstar_are_appended_to_the_log() {
    let (mut st, m) = setup();
    let before = st.rooms[0].events.len();
    star_message(&mut st, 1, StarMessageRequest { room_id: 7, message_id: m }).unwrap();
    unstar_message(&mut st, 1, UnstarMessageRequest { room_id: 7, message_id: m }).unwrap();
    assert_eq!(st.rooms[0].events.len(), before + 2);
}

#[test]
fn listing_requires_membership() {
    let (st, _) = setup();
    let r = get_starred_messages(&st, 9, 7);
    assert_eq!(r, Err(ChatError::NotMember));
    let r = get_starred_messages(&st, 1, 12);
    assert_eq!(r, Err(ChatError::RoomNotFound));
}
