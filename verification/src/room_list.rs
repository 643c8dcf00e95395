//! Listing rooms and creating a room explicitly.
//!
//! The room list names every room with its member count, in registry
//! order; an explicit create draws a fresh room id, registers the empty
//! room and returns the refreshed list for broadcast to all clients.

use vstd::prelude::*;
use crate::state::AppState;
use crate::ids::fresh_id;

verus! {

/// An inbound create-room request.
#[derive(Debug, PartialEq)]
pub struct CreateRoomPayload {
    pub name: String,
}

/// One line of the room list.
#[derive(Debug, PartialEq)]
pub struct RoomListItem {
    pub id: u128,
    pub name: String,
    pub member_count: usize,
}

/// The room list, in registry order.
#[derive(Debug, PartialEq)]
pub struct RoomListResponse {
    pub rooms: Vec<RoomListItem>,
}

/// The list names every room once, in registry order, with its current
/// member count.
pub open spec fn room_list_ok(state: AppState, resp: RoomListResponse) -> bool {
    &&& resp.rooms@.len() == state.rooms@.len()
    &&& (forall|k: int| 0 <= k < state.rooms@.len()
        ==> (#[trigger] resp.rooms@[k]).id == state.rooms@[k].id
            && resp.rooms@[k].name == state.rooms@[k].name
            && resp.rooms@[k].member_count == state.rooms@[k].members@.len())
}

/// List every room with its member count.
pub fn list_rooms(state: &AppState) -> (r: RoomListResponse)
    ensures
        room_list_ok(*state, r),
{
    let n = state.rooms.len();
    let mut items: Vec<RoomListItem> = Vec::new();
    let mut i: usize = 0;
    while i < n
        invariant
            n == state.rooms@.len(),
            0 <= i <= n,
            items@.len() == i,
            forall|k: int| 0 <= k < i
                ==> (#[trigger] items@[k]).id == state.rooms@[k].id
                    && items@[k].name == state.rooms@[k].name
                    && items@[k].member_count == state.rooms@[k].members@.len(),
        decreases n - i,
    {
        let room = &state.rooms[i];
        items.push(
            RoomListItem {
                id: room.id,
                name: room.name.clone(),
                member_count: room.members.len(),
            },
        );
        i += 1;
    }
    RoomListResponse { rooms: items }
}

/// The full contract of an explicit create: when the id is new, the empty
/// room with the requested name is appended to the registry and nothing
/// else changes; an id that already exists leaves the context untouched.
/// The returned list reflects the context after the create.
pub open spec fn create_room_spec(
    pre: AppState,
    post: AppState,
    resp: RoomListResponse,
    data: CreateRoomPayload,
    room_id: u128,
) -> bool {
    &&& post.usernames == pre.usernames
    &&& post.starred_messages == pre.starred_messages
    &&& if pre.has_room(room_id) {
        post == pre
    } else {
        &&& post.rooms@.len() == pre.rooms@.len() + 1
        &&& (forall|k: int| 0 <= k < pre.rooms@.len() ==> post.rooms@[k] == pre.rooms@[k])
        &&& post.rooms@.last().id == room_id
        &&& post.rooms@.last().name == data.name
        &&& post.rooms@.last().members@ == Seq::<u64>::empty()
        &&& post.rooms@.last().events@ == Seq::<crate::event::RoomEvent>::empty()
    }
    &&& room_list_ok(post, resp)
}

/// Create a room under a caller-chosen id.
pub fn create_room_at(state: &mut AppState, data: CreateRoomPayload, room_id: u128) -> (r:
    RoomListResponse)
    requires
        old(state).wf(),
    ensures
        final(state).wf(),
        create_room_spec(*old(state), *final(state), r, data, room_id),
{
    state.ensure_room(room_id, data.name);
    list_rooms(state)
}

/// Create a room: draw a fresh room id, register the empty room under the
/// requested name, and return the id with the refreshed room list for
/// broadcast to all clients.
pub fn create_room(state: &mut AppState, data: CreateRoomPayload) -> (r: (u128, RoomListResponse))
    requires
        old(state).wf(),
    ensures
        final(state).wf(),
        create_room_spec(*old(state), *final(state), r.1, data, r.0),
{
    let id = fresh_id();
    let resp = create_room_at(state, data, id);
    (id, resp)
}

} // verus!
