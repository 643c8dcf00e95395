//! Typing indicators: ephemeral notifications that are never logged.
//!
//! Both directions require membership; the built indicator is broadcast
//! by the transport to every room member except the sender.  Nothing in
//! the context changes, which the read-only signatures make plain.

use vstd::prelude::*;
use crate::error::ChatError;
use crate::state::AppState;

verus! {

/// An inbound typing-start request.
#[derive(Debug, PartialEq)]
pub struct StartTypingPayload {
    pub room_id: u128,
}

/// An inbound typing-stop request.
#[derive(Debug, PartialEq)]
pub struct StopTypingPayload {
    pub room_id: u128,
}

/// The ephemeral indicator broadcast to the room, excluding the sender.
#[derive(Debug, PartialEq)]
pub struct TypingIndicator {
    pub user_id: u64,
    pub username: Option<String>,
    pub room_id: u128,
}

/// Whether the connection is currently a member of the room; false when
/// the room is absent.
pub fn is_user_in_room(state: &AppState, user_id: u64, room_id: u128) -> (r: bool)
    requires
        state.wf(),
    ensures
        r == (state.has_room(room_id) && state.spec_room(room_id).members@.contains(user_id)),
{
    match state.room_index(room_id) {
        Some(i) => state.rooms[i].is_member(user_id),
        None => false,
    }
}

/// The full contract of a typing indicator: NotMember when the room is
/// absent or the sender is no member, otherwise the indicator names the
/// sender, their lazily resolved display name, and the room.
pub open spec fn typing_spec(
    state: AppState,
    r: Result<TypingIndicator, ChatError>,
    conn: u64,
    room_id: u128,
) -> bool {
    if state.has_room(room_id) && state.spec_room(room_id).members@.contains(conn) {
        match r {
            Ok(t) => {
                &&& t.user_id == conn
                &&& t.username == state.spec_username(conn)
                &&& t.room_id == room_id
            },
            Err(_) => false,
        }
    } else {
        r == Err::<TypingIndicator, ChatError>(ChatError::NotMember)
    }
}

/// Build the typing-start indicator for broadcast to all room members
/// except the sender; never logged.
pub fn start_typing(state: &AppState, conn: u64, data: StartTypingPayload) -> (r: Result<
    TypingIndicator,
    ChatError,
>)
    requires
        state.wf(),
    ensures
        typing_spec(*state, r, conn, data.room_id),
{
    if !is_user_in_room(state, conn, data.room_id) {
        return Err(ChatError::NotMember);
    }
    let username = state.get_name(conn);
    Ok(TypingIndicator { user_id: conn, username, room_id: data.room_id })
}

/// Build the typing-stop indicator for broadcast to all room members
/// except the sender; never logged.
pub fn stop_typing(state: &AppState, conn: u64, data: StopTypingPayload) -> (r: Result<
    TypingIndicator,
    ChatError,
>)
    requires
        state.wf(),
    ensures
        typing_spec(*state, r, conn, data.room_id),
{
    if !is_user_in_room(state, conn, data.room_id) {
        return Err(ChatError::NotMember);
    }
    let username = state.get_name(conn);
    Ok(TypingIndicator { user_id: conn, username, room_id: data.room_id })
}

} // verus!
