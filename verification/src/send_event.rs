//! Sending an event into a room: membership validation, reply enrichment,
//! and the append to the room's log.
//!
//! A send is rejected when the room is absent or the author is not a
//! member.  A `Message` payload is normalized (edited and deleted flags
//! cleared) and a reply reference it carries is resolved against the same
//! room's log; an unresolvable reference is silently dropped, not an error.

use vstd::prelude::*;
use crate::error::ChatError;
use crate::event::ImageMessageEvent;
use crate::event::MessageReply;
use crate::event::ReplyMessageType;
use crate::event::RoomEvent;
use crate::event::RoomEventData;
use crate::event::TextMessageEvent;
use crate::event::deleted_placeholder;
use crate::event::image_placeholder;
use crate::event::make_preview;
use crate::event::spec_reply_body;
use crate::room::first_event_idx;
use crate::state::AppState;
use crate::state::post_appended;
use crate::clock::now_millis;
use crate::ids::fresh_id;

verus! {

/// An inbound send request: the addressed room and the payload to wrap.
#[derive(Debug, PartialEq)]
pub struct SendEventPayload {
    pub room: u128,
    pub payload: RoomEventData,
}

/// The stored event a reply reference resolves to: the first log entry of
/// the addressed room carrying the referenced id, if the room and the entry
/// exist.
pub open spec fn spec_reply_source(state: AppState, room_id: u128, target: u128) -> Option<RoomEvent> {
    if state.has_room(room_id) {
        let room = state.spec_room(room_id);
        if room.has_event(target) {
            Some(room.events@[first_event_idx(room.events@, target)])
        } else {
            None
        }
    } else {
        None
    }
}

/// What reply enrichment returns: nothing when the reference does not
/// resolve to a message or image, otherwise the preview of the resolved
/// original with its author and the author's lazily resolved name.
pub open spec fn reply_enrichment_ok(
    state: AppState,
    room_id: u128,
    target: u128,
    r: Option<MessageReply>,
) -> bool {
    match spec_reply_source(state, room_id, target) {
        None => r is None,
        Some(ev) => match spec_reply_body(ev.data) {
            None => r is None,
            Some(body) => match r {
                Some(rep) => {
                    &&& rep.message_id == target
                    &&& rep.user_id == ev.from
                    &&& rep.username == state.spec_username(ev.from)
                    &&& rep.content_preview@ == body.0
                    &&& rep.message_type == body.1
                },
                None => false,
            },
        },
    }
}

/// The stored reply is the enrichment of the requested reference, or
/// nothing when the request carried none.
pub open spec fn reply_ok(
    pre: AppState,
    room: u128,
    requested: Option<MessageReply>,
    stored: Option<MessageReply>,
) -> bool {
    match requested {
        None => stored is None,
        Some(req) => reply_enrichment_ok(pre, room, req.message_id, stored),
    }
}

/// How an accepted payload relates to the payload that was requested:
/// messages are normalized and their reply enriched, images keep their
/// fields with the reply enriched, and every other variant passes through
/// unchanged.
pub open spec fn send_payload_ok(
    pre: AppState,
    room: u128,
    payload: RoomEventData,
    data: RoomEventData,
) -> bool {
    match payload {
        RoomEventData::Message(m) => match data {
            RoomEventData::Message(m2) => {
                &&& m2.content == m.content
                &&& !m2.edited
                &&& !m2.deleted
                &&& reply_ok(pre, room, m.reply_to, m2.reply_to)
            },
            _ => false,
        },
        RoomEventData::Image(im) => match data {
            RoomEventData::Image(im2) => {
                &&& im2.image_data == im.image_data
                &&& im2.filename == im.filename
                &&& im2.mime_type == im.mime_type
                &&& im2.size == im.size
                &&& im2.width == im.width
                &&& im2.height == im.height
                &&& reply_ok(pre, room, im.reply_to, im2.reply_to)
            },
            _ => false,
        },
        _ => data == payload,
    }
}

/// The full contract of a send: rejected exactly when the room is absent
/// (RoomNotFound) or the author is no member (NotMember), leaving the
/// context untouched; otherwise the returned event carries the given id,
/// author and timestamp and the accepted payload, and is appended to the
/// addressed room's log with nothing else changed.
pub open spec fn send_spec(
    pre: AppState,
    post: AppState,
    r: Result<RoomEvent, ChatError>,
    conn: u64,
    data: SendEventPayload,
    id: u128,
    ts: i64,
) -> bool {
    if !pre.has_room(data.room) {
        r == Err::<RoomEvent, ChatError>(ChatError::RoomNotFound) && post == pre
    } else if !pre.spec_room(data.room).members@.contains(conn) {
        r == Err::<RoomEvent, ChatError>(ChatError::NotMember) && post == pre
    } else {
        match r {
            Ok(ev) => {
                &&& ev.id == id
                &&& ev.from == conn
                &&& ev.timestamp == ts
                &&& send_payload_ok(pre, data.room, data.payload, ev.data)
                &&& post_appended(pre, post, data.room, ev)
            },
            Err(_) => false,
        }
    }
}

/// Resolve a reply reference against the addressed room's log and build
/// the denormalized preview: the deletion placeholder for tombstoned
/// messages, the (possibly truncated) content for live text, a
/// filename-based placeholder for images; no preview when the room, the
/// referenced event, or a message/image original is absent.
pub fn validate_and_enrich_reply(state: &AppState, message_id: u128, room_id: u128) -> (r: Option<
    MessageReply,
>)
    requires
        state.wf(),
    ensures
        reply_enrichment_ok(*state, room_id, message_id, r),
{
    let ri = match state.room_index(room_id) {
        Some(i) => i,
        None => {
            return None;
        },
    };
    let room = &state.rooms[ri];
    let ei = match room.find_event(message_id) {
        Some(i) => i,
        None => {
            return None;
        },
    };
    let from = room.events[ei].from;
    let username = state.get_name(from);
    proof {
        assert(spec_reply_source(*state, room_id, message_id)
            == Some(room.events@[ei as int]));
    }
    match &room.events[ei].data {
        RoomEventData::Message(msg) => {
            if msg.deleted {
                Some(
                    MessageReply {
                        message_id,
                        user_id: from,
                        username,
                        content_preview: deleted_placeholder(),
                        message_type: ReplyMessageType::Deleted,
                    },
                )
            } else {
                Some(
                    MessageReply {
                        message_id,
                        user_id: from,
                        username,
                        content_preview: make_preview(msg.content.as_str()),
                        message_type: ReplyMessageType::Text,
                    },
                )
            }
        },
        RoomEventData::Image(img) => Some(
            MessageReply {
                message_id,
                user_id: from,
                username,
                content_preview: image_placeholder(img.filename.as_str()),
                message_type: ReplyMessageType::Image,
            },
        ),
        _ => None,
    }
}

/// Accept a send with a caller-chosen event id and timestamp; the id and
/// timestamp are passed through to the built event unchanged.
pub fn handle_at(
    state: &mut AppState,
    conn: u64,
    data: SendEventPayload,
    id: u128,
    ts: i64,
) -> (r: Result<RoomEvent, ChatError>)
    requires
        old(state).wf(),
    ensures
        final(state).wf(),
        send_spec(*old(state), *final(state), r, conn, data, id, ts),
{
    let room_id = data.room;
    let ri = match state.room_index(room_id) {
        Some(i) => i,
        None => {
            return Err(ChatError::RoomNotFound);
        },
    };
    if !state.rooms[ri].is_member(conn) {
        return Err(ChatError::NotMember);
    }
    let event_data = match data.payload {
        RoomEventData::Message(m) => {
            let reply = match m.reply_to {
                Some(req) => validate_and_enrich_reply(state, req.message_id, room_id),
                None => None,
            };
            RoomEventData::Message(
                TextMessageEvent {
                    content: m.content,
                    edited: false,
                    deleted: false,
                    reply_to: reply,
                },
            )
        },
        RoomEventData::Image(im) => {
            let reply = match im.reply_to {
                Some(req) => validate_and_enrich_reply(state, req.message_id, room_id),
                None => None,
            };
            RoomEventData::Image(
                ImageMessageEvent {
                    image_data: im.image_data,
                    filename: im.filename,
                    mime_type: im.mime_type,
                    size: im.size,
                    width: im.width,
                    height: im.height,
                    reply_to: reply,
                },
            )
        },
        other => other,
    };
    let ev = RoomEvent { id, from: conn, timestamp: ts, data: event_data };
    let dup = ev.duplicate();
    let room = &mut state.rooms[ri];
    room.append_event(dup);
    proof {
        assert(state.rooms@ == old(state).rooms@.update(ri as int, state.rooms@[ri as int]));
        assert forall|k: int| 0 <= k < state.rooms@.len() implies (#[trigger] state.rooms@[k]).wf() by {
            if k != ri as int {
                assert(state.rooms@[k] == old(state).rooms@[k]);
            }
        }
        assert forall|i: int, j: int| 0 <= i < j < state.rooms@.len()
            implies state.rooms@[i].id != state.rooms@[j].id by {
            assert(state.rooms@[i].id == old(state).rooms@[i].id);
            assert(state.rooms@[j].id == old(state).rooms@[j].id);
        }
        assert(post_appended(*old(state), *state, room_id, ev));
    }
    Ok(ev)
}

/// Accept a send: draw a fresh event id and the current time, validate the
/// request, enrich a carried reply reference, append the event to the
/// room's log and return it for broadcast.
pub fn handle(state: &mut AppState, conn: u64, data: SendEventPayload) -> (r: Result<
    RoomEvent,
    ChatError,
>)
    requires
        old(state).wf(),
    ensures
        final(state).wf(),
        exists|id: u128, ts: i64| send_spec(*old(state), *final(state), r, conn, data, id, ts),
{
    let id = fresh_id();
    let ts = now_millis();
    let r = handle_at(state, conn, data, id, ts);
    r
}

} // verus!
