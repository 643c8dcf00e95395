use chat_core::error::ChatError;
use chat_core::event::{
    ImageMessageEvent, MessageReply, ReplyMessageType, RoomEventData, TextMessageEvent,
};
use chat_core::message_management::{
    handle_delete_message, handle_edit_message, DeleteMessagePayload, EditMessagePayload,
};
use chat_core::room_events::{join_room, JoinRoomPayload};
use chat_core::send_event::{handle, handle_at, validate_and_enrich_reply, SendEventPayload};
use chat_core::state::AppState;
use chat_core::user_management::{set_username, SetUsernamePayload};

fn text(content: &str) -> RoomEventData {
    RoomEventData::Message(TextMessageEvent {
        content: String::from(content),
        edited: false,
        deleted: false,
        reply_to: None,
    })
}

fn reply_stub(target: u128) -> Option<MessageReply> {
    Some(MessageReply {
        message_id: target,
        user_id: 0,
        username: None,
        content_preview: String::new(),
        message_type: ReplyMessageType::Text,
    })
}

fn setup_room_with(conns: &[u64]) -> AppState {
    let mut st = AppState::new();
    for &c in conns {
        join_room(&mut st, c, JoinRoomPayload { room_id: 7, room_name: None }, String::from("R"));
    }
    st
}

fn stored_message(st: &AppState, room_id: u128, id: u128) -> TextMessageEvent {
    for room in &st.rooms {
        if room.id == room_id {
            for ev in &room.events {
                if ev.id == id {
                    match &ev.data {
                        RoomEventData::Message(m) => {
                            return TextMessageEvent {
                                content: m.content.clone(),
                                edited: m.edited,
                                deleted: m.deleted,
                                reply_to: None,
                            }
                        }
                        other => panic!("expected a message, got {:?}", other),
                    }
                }
            }
        }
    }
    panic!("message not found");
}

#[test]
fn send_to_absent_room_is_room_not_found() {
    let mut st = AppState::new();
    let r = handle(&mut st, 1, SendEventPayload { room: 7, payload: text("hi") });
    assert_eq!(r, Err(ChatError::RoomNotFound));
}

#[test]
fn send_by_non_member_is_not_member() {
    let mut st = setup_room_with(&[1]);
    let r = handle(&mut st, 2, SendEventPayload { room: 7, payload: text("hi") });
    assert_eq!(r, Err(ChatError::NotMember));
}

#[test]
fn send_normalizes_edited_and_deleted_flags() {
    let mut st = setup_room_with(&[1]);
    let payload = RoomEventData::Message(TextMessageEvent {
        content: String::from("hi"),
        edited: true,
        deleted: true,
        reply_to: None,
    });
    let ev = handle(&mut st, 1, SendEventPayload { room: 7, payload }).unwrap();
    match &ev.data {
        RoomEventData::Message(m) => {
            assert_eq!(m.content, "hi");
            assert!(!m.edited);
            assert!(!m.deleted);
        }
        other => panic!("expected a message, got {:?}", other),
    }
}

#[test]
fn author_edit_rewrites_in_place_and_others_are_rejected() {
    // X sends "hi", edits it to "bye": the stored entry shows the new
    // content with the edited flag, and no new log entry appears.  Y's
    // edit attempt is rejected with NotOwner and changes nothing.
    let mut st = setup_room_with(&[1, 2]);
    let sent = handle(&mut st, 1, SendEventPayload { room: 7, payload: text("hi") }).unwrap();
    let log_len_before = st.rooms[0].events.len();
    let notif = handle_edit_message(
        &mut st,
        1,
        EditMessagePayload { room: 7, message_id: sent.id, new_content: String::from("bye") },
    )
    .unwrap();
    match &notif.data {
        RoomEventData::MessageEdit(e) => {
            assert_eq!(e.message_id, sent.id);
            assert_eq!(e.new_content, "bye");
        }
        other => panic!("expected an edit notification, got {:?}", other),
    }
    assert_eq!(st.rooms[0].events.len(), log_len_before);
    let stored = stored_message(&st, 7, sent.id);
    assert_eq!(stored.content, "bye");
    assert!(stored.edited);

    let r = handle_edit_message(
        &mut st,
        2,
        EditMessagePayload { room: 7, message_id: sent.id, new_content: String::from("nope") },
    );
    assert_eq!(r, Err(ChatError::NotOwner));
    let stored = stored_message(&st, 7, sent.id);
    assert_eq!(stored.content, "bye");
}

#[test]
fn edit_of_missing_message_is_message_not_found() {
    let mut st = setup_room_with(&[1]);
    let r = handle_edit_message(
        &mut st,
        1,
        EditMessagePayload { room: 7, message_id: 999, new_content: String::from("x") },
    );
    assert_eq!(r, Err(ChatError::MessageNotFound));
}

#[test]
fn delete_tombstones_in_place() {
    let mut st = setup_room_with(&[1, 2]);
    let sent = handle(&mut st, 1, SendEventPayload { room: 7, payload: text("secret") }).unwrap();
    let log_len_before = st.rooms[0].events.len();

    let r = handle_delete_message(&mut st, 2, DeleteMessagePayload { room: 7, message_id: sent.id });
    assert_eq!(r, Err(ChatError::NotOwner));

    let notif =
        handle_delete_message(&mut st, 1, DeleteMessagePayload { room: 7, message_id: sent.id })
            .unwrap();
    match &notif.data {
        RoomEventData::MessageDelete(d) => assert_eq!(d.message_id, sent.id),
        other => panic!("expected a delete notification, got {:?}", other),
    }
    assert_eq!(st.rooms[0].events.len(), log_len_before);
    let stored = stored_message(&st, 7, sent.id);
    assert_eq!(stored.content, "");
    assert!(stored.deleted);
}

#[test]
fn reply_preview_short_content_is_verbatim() {
    let mut st = setup_room_with(&[1]);
    set_username(&mut st, 1, SetUsernamePayload { username: String::from("alice") });
    let exactly_100: String = "a".repeat(100);
    let sent =
        handle(&mut st, 1, SendEventPayload { room: 7, payload: text(&exactly_100) }).unwrap();
    let rep = validate_and_enrich_reply(&st, sent.id, 7).unwrap();
    assert_eq!(rep.content_preview, exactly_100);
    assert_eq!(rep.message_type, ReplyMessageType::Text);
    assert_eq!(rep.user_id, 1);
    assert_eq!(rep.username, Some(String::from("alice")));
}

#[test]
fn reply_preview_long_content_is_truncated_with_marker() {
    let mut st = setup_room_with(&[1]);
    let long: String = "b".repeat(101);
    let sent = handle(&mut st, 1, SendEventPayload { room: 7, payload: text(&long) }).unwrap();
    let rep = validate_and_enrich_reply(&st, sent.id, 7).unwrap();
    let expected = format!("{}...", "b".repeat(100));
    assert_eq!(rep.content_preview, expected);
    assert_eq!(rep.message_type, ReplyMessageType::Text);
}

#[test]
fn reply_preview_of_deleted_message_is_placeholder() {
    let mut st = setup_room_with(&[1]);
    let sent = handle(&mut st, 1, SendEventPayload { room: 7, payload: text("secret") }).unwrap();
    handle_delete_message(&mut st, 1, DeleteMessagePayload { room: 7, message_id: sent.id })
        .unwrap();
    let rep = validate_and_enrich_reply(&st, sent.id, 7).unwrap();
    assert_eq!(rep.content_preview, "This message was deleted");
    assert_eq!(rep.message_type, ReplyMessageType::Deleted);
}

#[test]
fn reply_preview_of_image_uses_filename_placeholder() {
    let mut st = setup_room_with(&[1]);
    let image = RoomEventData::Image(ImageMessageEvent {
        image_data: String::from("AAAA"),
        filename: String::from("cat.png"),
        mime_type: String::from("image/png"),
        size: 4,
        width: None,
        height: None,
        reply_to: None,
    });
    let sent = handle(&mut st, 1, SendEventPayload { room: 7, payload: image }).unwrap();
    let rep = validate_and_enrich_reply(&st, sent.id, 7).unwrap();
    assert_eq!(rep.content_preview, "[image] cat.png");
    assert_eq!(rep.message_type, ReplyMessageType::Image);
}

#[test]
fn unresolvable_reply_reference_is_dropped_silently() {
    let mut st = setup_room_with(&[1]);
    let payload = RoomEventData::Message(TextMessageEvent {
        content: String::from("answering nothing"),
        edited: false,
        deleted: false,
        reply_to: reply_stub(424242),
    });
    let ev = handle(&mut st, 1, SendEventPayload { room: 7, payload }).unwrap();
    match &ev.data {
        RoomEventData::Message(m) => assert!(m.reply_to.is_none()),
        other => panic!("expected a message, got {:?}", other),
    }
}

#[test]
fn resolvable_reply_reference_is_enriched() {
    let mut st = setup_room_with(&[1, 2]);
    let original = handle(&mut st, 1, SendEventPayload { room: 7, payload: text("hi") }).unwrap();
    let payload = RoomEventData::Message(TextMessageEvent {
        content: String::from("hello back"),
        edited: false,
        deleted: false,
        reply_to: reply_stub(original.id),
    });
    let ev = handle(&mut st, 2, SendEventPayload { room: 7, payload }).unwrap();
    match &ev.data {
        RoomEventData::Message(m) => {
            let rep = m.reply_to.as_ref().unwrap();
            assert_eq!(rep.message_id, original.id);
            assert_eq!(rep.user_id, 1);
            assert_eq!(rep.content_preview, "hi");
            assert_eq!(rep.message_type, ReplyMessageType::Text);
        }
        other => panic!("expected a message, got {:?}", other),
    }
}

#[test]
fn error_messages_are_human_readable() {
    assert_eq!(ChatError::RoomNotFound.message(), "Room does not exist");
    assert_eq!(ChatError::NotMember.message(), "You are not a member of this room");
    assert_eq!(ChatError::MessageNotFound.message(), "Message does not exist");
    assert_eq!(ChatError::NotOwner.message(), "You do not own this message");
    assert_eq!(ChatError::NotStarred.message(), "Message was not starred");
    let resp = ChatError::RoomNotFound.to_response();
    assert_eq!(resp.message, "Room does not exist");
}

#[test]
fn edit_of_non_message_payload_changes_nothing_but_notifies() {
    let mut st = setup_room_with(&[1]);
    let image = RoomEventData::Image(ImageMessageEvent {
        image_data: String::from("AAAA"),
        filename: String::from("cat.png"),
        mime_type: String::from("image/png"),
        size: 4,
        width: Some(2),
        height: Some(2),
        reply_to: None,
    });
    let sent = handle(&mut st, 1, SendEventPayload { room: 7, payload: image }).unwrap();
    let log_before: Vec<_> = st.rooms[0].events.iter().map(|e| e.id).collect();
    let notif = handle_edit_message(
        &mut st,
        1,
        EditMessagePayload { room: 7, message_id: sent.id, new_content: String::from("x") },
    )
    .unwrap();
    assert!(matches!(notif.data, RoomEventData::MessageEdit(_)));
    let log_after: Vec<_> = st.rooms[0].events.iter().map(|e| e.id).collect();
    assert_eq!(log_before, log_after);
    match &st.rooms[0].events.last().unwrap().data {
        RoomEventData::Image(i) => assert_eq!(i.filename, "cat.png"),
        other => panic!("expected the image to be unchanged, got {:?}", other),
    }
}

#[test]
fn tombstones_never_regain_content() {
    let mut st = setup_room_with(&[1]);
    let sent = handle(&mut st, 1, SendEventPayload { room: 7, payload: text("secret") }).unwrap();
    handle_delete_message(&mut st, 1, DeleteMessagePayload { room: 7, message_id: sent.id })
        .unwrap();
    handle_edit_message(
        &mut st,
        1,
        EditMessagePayload { room: 7, message_id: sent.id, new_content: String::from("revived") },
    )
    .unwrap();
    let stored = stored_message(&st, 7, sent.id);
    assert_eq!(stored.content, "");
    assert!(stored.deleted);
}

#[test]
fn send_at_pins_event_id_and_timestamp() {
    let mut st = setup_room_with(&[1]);
    let ev = handle_at(&mut st, 1, SendEventPayload { room: 7, payload: text("hi") }, 77, 1234)
        .unwrap();
    assert_eq!(ev.id, 77);
    assert_eq!(ev.timestamp, 1234);
    assert_eq!(ev.from, 1);
}
