//! Editing and deleting stored messages.
//!
//! Both require that the requester is a member of the room and the author
//! of the addressed message.  The stored entry is rewritten in place — the
//! log's copy is authoritative, so late joiners replaying history see the
//! edited or tombstoned state automatically — and a broadcast-only
//! notification is returned that is never appended to the log.

use vstd::prelude::*;
use vstd::string::*;
use crate::error::ChatError;
use crate::event::MessageDeleteEvent;
use crate::event::MessageEditEvent;
use crate::event::RoomEvent;
use crate::event::RoomEventData;
use crate::room::Room;
use crate::room::first_event_idx;
use crate::state::AppState;
use crate::state::rooms_updated_at;
use crate::clock::now_millis;
use crate::ids::fresh_id;

verus! {

/// An inbound edit request.
#[derive(Debug, PartialEq)]
pub struct EditMessagePayload {
    pub room: u128,
    pub message_id: u128,
    pub new_content: String,
}

/// An inbound delete request.
#[derive(Debug, PartialEq)]
pub struct DeleteMessagePayload {
    pub room: u128,
    pub message_id: u128,
}

/// The room is unchanged except (at most) at log slot `j`; the log keeps
/// its length, so nothing is ever appended or removed by an edit or a
/// delete.
pub open spec fn room_entry_replaced(pre: Room, post: Room, j: int) -> bool {
    &&& post.id == pre.id
    &&& post.name == pre.name
    &&& post.members == pre.members
    &&& post.events@.len() == pre.events@.len()
    &&& (forall|k: int| 0 <= k < pre.events@.len() && k != j ==> post.events@[k] == pre.events@[k])
}

/// Only log slot `j` of the addressed room may differ between the two
/// contexts; everything else is unchanged.
pub open spec fn post_log_entry(pre: AppState, post: AppState, room: u128, j: int) -> bool {
    let i = pre.room_idx(room);
    &&& rooms_updated_at(pre, post, i)
    &&& room_entry_replaced(pre.rooms@[i], post.rooms@[i], j)
    &&& post.usernames == pre.usernames
    &&& post.starred_messages == pre.starred_messages
}

/// How an edit rewrites a stored entry: a live message gets the new
/// content and its edited flag set, keeping id, author, timestamp and
/// reply; a tombstoned message and every other payload variant stay as
/// they are (a tombstone never regains content).
pub open spec fn entry_edited_ok(pre: RoomEvent, post: RoomEvent, new_content: String) -> bool {
    match pre.data {
        RoomEventData::Message(m) => if m.deleted {
            post == pre
        } else {
            match post.data {
                RoomEventData::Message(m2) => {
                    &&& m2.content == new_content
                    &&& m2.edited
                    &&& !m2.deleted
                    &&& m2.reply_to == m.reply_to
                    &&& post.id == pre.id
                    &&& post.from == pre.from
                    &&& post.timestamp == pre.timestamp
                },
                _ => false,
            }
        },
        _ => post == pre,
    }
}

/// How a delete rewrites a stored entry: a message becomes a tombstone —
/// content cleared, deleted flag set, position, id, author, timestamp,
/// edited flag and reply kept; every other payload variant stays as it is.
pub open spec fn entry_deleted_ok(pre: RoomEvent, post: RoomEvent) -> bool {
    match pre.data {
        RoomEventData::Message(m) => match post.data {
            RoomEventData::Message(m2) => {
                &&& m2.content@ == Seq::<char>::empty()
                &&& m2.edited == m.edited
                &&& m2.deleted
                &&& m2.reply_to == m.reply_to
                &&& post.id == pre.id
                &&& post.from == pre.from
                &&& post.timestamp == pre.timestamp
            },
            _ => false,
        },
        _ => post == pre,
    }
}

/// The full contract of an edit: rejected, with the context untouched,
/// exactly when the room is absent (RoomNotFound), the requester is no
/// member (NotMember), the message id is not in the log (MessageNotFound)
/// or the requester is not the author (NotOwner); otherwise the stored
/// entry is rewritten in place per `entry_edited_ok` and the returned
/// broadcast-only notification carries the given id and timestamp.
pub open spec fn edit_spec(
    pre: AppState,
    post: AppState,
    r: Result<RoomEvent, ChatError>,
    conn: u64,
    data: EditMessagePayload,
    id: u128,
    ts: i64,
) -> bool {
    if !pre.has_room(data.room) {
        r == Err::<RoomEvent, ChatError>(ChatError::RoomNotFound) && post == pre
    } else if !pre.spec_room(data.room).members@.contains(conn) {
        r == Err::<RoomEvent, ChatError>(ChatError::NotMember) && post == pre
    } else if !pre.spec_room(data.room).has_event(data.message_id) {
        r == Err::<RoomEvent, ChatError>(ChatError::MessageNotFound) && post == pre
    } else {
        let room = pre.spec_room(data.room);
        let j = first_event_idx(room.events@, data.message_id);
        if room.events@[j].from != conn {
            r == Err::<RoomEvent, ChatError>(ChatError::NotOwner) && post == pre
        } else {
            match r {
                Ok(ev) => {
                    &&& ev.id == id
                    &&& ev.from == conn
                    &&& ev.timestamp == ts
                    &&& ev.data == RoomEventData::MessageEdit(
                        MessageEditEvent {
                            message_id: data.message_id,
                            new_content: data.new_content,
                        },
                    )
                    &&& post_log_entry(pre, post, data.room, j)
                    &&& entry_edited_ok(room.events@[j], post.rooms@[pre.room_idx(data.room)].events@[j], data.new_content)
                },
                Err(_) => false,
            }
        }
    }
}

/// The full contract of a delete: the same authorization as an edit;
/// on success the stored entry is tombstoned in place per
/// `entry_deleted_ok` — never removed from the log — and the returned
/// broadcast-only notification carries the given id and timestamp.
pub open spec fn delete_spec(
    pre: AppState,
    post: AppState,
    r: Result<RoomEvent, ChatError>,
    conn: u64,
    data: DeleteMessagePayload,
    id: u128,
    ts: i64,
) -> bool {
    if !pre.has_room(data.room) {
        r == Err::<RoomEvent, ChatError>(ChatError::RoomNotFound) && post == pre
    } else if !pre.spec_room(data.room).members@.contains(conn) {
        r == Err::<RoomEvent, ChatError>(ChatError::NotMember) && post == pre
    } else if !pre.spec_room(data.room).has_event(data.message_id) {
        r == Err::<RoomEvent, ChatError>(ChatError::MessageNotFound) && post == pre
    } else {
        let room = pre.spec_room(data.room);
        let j = first_event_idx(room.events@, data.message_id);
        if room.events@[j].from != conn {
            r == Err::<RoomEvent, ChatError>(ChatError::NotOwner) && post == pre
        } else {
            match r {
                Ok(ev) => {
                    &&& ev.id == id
                    &&& ev.from == conn
                    &&& ev.timestamp == ts
                    &&& ev.data == RoomEventData::MessageDelete(
                        MessageDeleteEvent { message_id: data.message_id },
                    )
                    &&& post_log_entry(pre, post, data.room, j)
                    &&& entry_deleted_ok(room.events@[j], post.rooms@[pre.room_idx(data.room)].events@[j])
                },
                Err(_) => false,
            }
        }
    }
}

/// Apply an edit with a caller-chosen notification id and timestamp.
pub fn handle_edit_message_at(
    state: &mut AppState,
    conn: u64,
    data: EditMessagePayload,
    id: u128,
    ts: i64,
) -> (r: Result<RoomEvent, ChatError>)
    requires
        old(state).wf(),
    ensures
        final(state).wf(),
        edit_spec(*old(state), *final(state), r, conn, data, id, ts),
{
    let room_id = data.room;
    let ri = match state.room_index(room_id) {
        Some(i) => i,
        None => {
            return Err(ChatError::RoomNotFound);
        },
    };
    if !state.rooms[ri].is_member(conn) {
        return Err(ChatError::NotMember);
    }
    let ei = match state.rooms[ri].find_event(data.message_id) {
        Some(i) => i,
        None => {
            return Err(ChatError::MessageNotFound);
        },
    };
    if state.rooms[ri].events[ei].from != conn {
        return Err(ChatError::NotOwner);
    }
    let entry = &mut state.rooms[ri].events[ei];
    match &mut entry.data {
        RoomEventData::Message(m) => {
            if !m.deleted {
                m.content = data.new_content.clone();
                m.edited = true;
            }
        },
        _ => {},
    }
    proof {
        assert(state.rooms@ == old(state).rooms@.update(ri as int, state.rooms@[ri as int]));
        assert(state.rooms@[ri as int].events@
            == old(state).rooms@[ri as int].events@.update(ei as int, state.rooms@[ri as int].events@[ei as int]));
        assert forall|k: int| 0 <= k < state.rooms@.len() implies (#[trigger] state.rooms@[k]).wf() by {
            if k != ri as int {
                assert(state.rooms@[k] == old(state).rooms@[k]);
            } else {
                assert forall|e: int| 0 <= e < state.rooms@[k].events@.len()
                    implies crate::room::event_tombstone_ok(#[trigger] state.rooms@[k].events@[e]) by {
                    if e != ei as int {
                        assert(state.rooms@[k].events@[e] == old(state).rooms@[k].events@[e]);
                    }
                }
            }
        }
        assert forall|i: int, j: int| 0 <= i < j < state.rooms@.len()
            implies state.rooms@[i].id != state.rooms@[j].id by {
            assert(state.rooms@[i].id == old(state).rooms@[i].id);
            assert(state.rooms@[j].id == old(state).rooms@[j].id);
        }
    }
    Ok(
        RoomEvent {
            id,
            from: conn,
            timestamp: ts,
            data: RoomEventData::MessageEdit(
                MessageEditEvent { message_id: data.message_id, new_content: data.new_content },
            ),
        },
    )
}

/// Apply an edit: authorize, rewrite the stored message in place and
/// return the broadcast-only MessageEdit notification with a fresh id and
/// the current time.
pub fn handle_edit_message(state: &mut AppState, conn: u64, data: EditMessagePayload) -> (r:
    Result<RoomEvent, ChatError>)
    requires
        old(state).wf(),
    ensures
        final(state).wf(),
        exists|id: u128, ts: i64| edit_spec(*old(state), *final(state), r, conn, data, id, ts),
{
    let id = fresh_id();
    let ts = now_millis();
    let r = handle_edit_message_at(state, conn, data, id, ts);
    r
}

/// Apply a delete with a caller-chosen notification id and timestamp.
pub fn handle_delete_message_at(
    state: &mut AppState,
    conn: u64,
    data: DeleteMessagePayload,
    id: u128,
    ts: i64,
) -> (r: Result<RoomEvent, ChatError>)
    requires
        old(state).wf(),
    ensures
        final(state).wf(),
        delete_spec(*old(state), *final(state), r, conn, data, id, ts),
{
    let room_id = data.room;
    let ri = match state.room_index(room_id) {
        Some(i) => i,
        None => {
            return Err(ChatError::RoomNotFound);
        },
    };
    if !state.rooms[ri].is_member(conn) {
        return Err(ChatError::NotMember);
    }
    let ei = match state.rooms[ri].find_event(data.message_id) {
        Some(i) => i,
        None => {
            return Err(ChatError::MessageNotFound);
        },
    };
    if state.rooms[ri].events[ei].from != conn {
        return Err(ChatError::NotOwner);
    }
    let entry = &mut state.rooms[ri].events[ei];
    match &mut entry.data {
        RoomEventData::Message(m) => {
            m.content = String::new();
            m.deleted = true;
        },
        _ => {},
    }
    proof {
        assert(state.rooms@ == old(state).rooms@.update(ri as int, state.rooms@[ri as int]));
        assert(state.rooms@[ri as int].events@
            == old(state).rooms@[ri as int].events@.update(ei as int, state.rooms@[ri as int].events@[ei as int]));
        assert forall|k: int| 0 <= k < state.rooms@.len() implies (#[trigger] state.rooms@[k]).wf() by {
            if k != ri as int {
                assert(state.rooms@[k] == old(state).rooms@[k]);
            } else {
                assert forall|e: int| 0 <= e < state.rooms@[k].events@.len()
                    implies crate::room::event_tombstone_ok(#[trigger] state.rooms@[k].events@[e]) by {
                    if e != ei as int {
                        assert(state.rooms@[k].events@[e] == old(state).rooms@[k].events@[e]);
                    }
                }
            }
        }
        assert forall|i: int, j: int| 0 <= i < j < state.rooms@.len()
            implies state.rooms@[i].id != state.rooms@[j].id by {
            assert(state.rooms@[i].id == old(state).rooms@[i].id);
            assert(state.rooms@[j].id == old(state).rooms@[j].id);
        }
    }
    Ok(
        RoomEvent {
            id,
            from: conn,
            timestamp: ts,
            data: RoomEventData::MessageDelete(
                MessageDeleteEvent { message_id: data.message_id },
            ),
        },
    )
}

/// Apply a delete: authorize, tombstone the stored message in place and
/// return the broadcast-only MessageDelete notification with a fresh id
/// and the current time.
pub fn handle_delete_message(state: &mut AppState, conn: u64, data: DeleteMessagePayload) -> (r:
    Result<RoomEvent, ChatError>)
    requires
        old(state).wf(),
    ensures
        final(state).wf(),
        exists|id: u128, ts: i64| delete_spec(*old(state), *final(state), r, conn, data, id, ts),
{
    let id = fresh_id();
    let ts = now_millis();
    let r = handle_delete_message_at(state, conn, data, id, ts);
    r
}

} // verus!
