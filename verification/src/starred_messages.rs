//! Starring and unstarring messages, and listing a connection's stars.
//!
//! Star sets are keyed per (room, connection), independent of message
//! authorship, and are not derivable from the shared log alone.  Both star
//! and unstar require membership and message existence; a star is an
//! idempotent set insert, an unstar of a message not in the set fails with
//! NotStarred.  Unlike edit and delete, star state changes are appended to
//! the room's log as well as broadcast.

use vstd::prelude::*;
use crate::error::ChatError;
use crate::event::MessageStarEvent;
use crate::event::MessageUnstarEvent;
use crate::event::RoomEvent;
use crate::event::RoomEventData;
use crate::room::lemma_distinct_remove;
use crate::room::lemma_push_distinct;
use crate::room::room_log_extended;
use crate::state::AppState;
use crate::state::StarEntry;
use crate::state::lemma_stars_frame_push;
use crate::state::lemma_stars_frame_update;
use crate::state::lemma_stars_unchanged;
use crate::state::rooms_updated_at;
use crate::clock::now_millis;
use crate::ids::fresh_id;

verus! {

/// An inbound star request.
#[derive(Debug, PartialEq)]
pub struct StarMessageRequest {
    pub room_id: u128,
    pub message_id: u128,
}

/// An inbound unstar request.
#[derive(Debug, PartialEq)]
pub struct UnstarMessageRequest {
    pub room_id: u128,
    pub message_id: u128,
}

/// The requesting connection's starred message ids in one room.
#[derive(Debug, PartialEq)]
pub struct StarredMessagesResponse {
    pub starred_message_ids: Vec<u128>,
}

/// Starring the same message twice leaves the star set unchanged: a
/// star makes the set `s.insert(m)`, and inserting again is a no-op.
pub proof fn lemma_star_idempotent(s: Set<u128>, m: u128)
    ensures
        s.insert(m).insert(m) == s.insert(m),
{
    assert(s.insert(m).insert(m) =~= s.insert(m));
}

/// Whether the sequence holds this id.
fn contains_id(v: &Vec<u128>, m: u128) -> (r: bool)
    ensures
        r == v@.contains(m),
{
    let n = v.len();
    let mut i: usize = 0;
    while i < n
        invariant
            n == v@.len(),
            0 <= i <= n,
            forall|k: int| 0 <= k < i ==> v@[k] != m,
        decreases n - i,
    {
        if v[i] == m {
            return true;
        }
        i += 1;
    }
    false
}

/// The first position of this id, if present.
fn index_of(v: &Vec<u128>, m: u128) -> (r: Option<usize>)
    ensures
        match r {
            Some(i) => i < v@.len() && v@[i as int] == m,
            None => !v@.contains(m),
        },
{
    let n = v.len();
    let mut i: usize = 0;
    while i < n
        invariant
            n == v@.len(),
            0 <= i <= n,
            forall|k: int| 0 <= k < i ==> v@[k] != m,
        decreases n - i,
    {
        if v[i] == m {
            return Some(i);
        }
        i += 1;
    }
    None
}

/// The context after a successful star: the MessageStar event is appended
/// to the addressed room's log, the requester's star set in that room
/// grows by the starred id (a no-op when already present), and no other
/// room, name or star set changes.
pub open spec fn star_post(
    pre: AppState,
    post: AppState,
    room: u128,
    conn: u64,
    m: u128,
    ev: RoomEvent,
) -> bool {
    let i = pre.room_idx(room);
    &&& rooms_updated_at(pre, post, i)
    &&& room_log_extended(pre.rooms@[i], post.rooms@[i], ev)
    &&& post.usernames == pre.usernames
    &&& post.spec_stars(room, conn) == pre.spec_stars(room, conn).insert(m)
    &&& (forall|r2: u128, c2: u64| !(r2 == room && c2 == conn)
        ==> post.spec_stars(r2, c2) == pre.spec_stars(r2, c2))
}

/// The full contract of a star: rejected, with the context untouched,
/// exactly when the room is absent (RoomNotFound), the requester is no
/// member (NotMember) or the message id is not in the log
/// (MessageNotFound); otherwise the returned logged event carries the
/// given id and timestamp and the context changes per `star_post`.
pub open spec fn star_spec(
    pre: AppState,
    post: AppState,
    r: Result<RoomEvent, ChatError>,
    conn: u64,
    data: StarMessageRequest,
    id: u128,
    ts: i64,
) -> bool {
    if !pre.has_room(data.room_id) {
        r == Err::<RoomEvent, ChatError>(ChatError::RoomNotFound) && post == pre
    } else if !pre.spec_room(data.room_id).members@.contains(conn) {
        r == Err::<RoomEvent, ChatError>(ChatError::NotMember) && post == pre
    } else if !pre.spec_room(data.room_id).has_event(data.message_id) {
        r == Err::<RoomEvent, ChatError>(ChatError::MessageNotFound) && post == pre
    } else {
        match r {
            Ok(ev) => {
                &&& ev.id == id
                &&& ev.from == conn
                &&& ev.timestamp == ts
                &&& ev.data == RoomEventData::MessageStar(
                    MessageStarEvent { message_id: data.message_id },
                )
                &&& star_post(pre, post, data.room_id, conn, data.message_id, ev)
            },
            Err(_) => false,
        }
    }
}

/// The context after a successful unstar: the MessageUnstar event is
/// appended to the addressed room's log, the starred id leaves the
/// requester's star set in that room, and no other room, name or star set
/// changes.
pub open spec fn unstar_post(
    pre: AppState,
    post: AppState,
    room: u128,
    conn: u64,
    m: u128,
    ev: RoomEvent,
) -> bool {
    let i = pre.room_idx(room);
    &&& rooms_updated_at(pre, post, i)
    &&& room_log_extended(pre.rooms@[i], post.rooms@[i], ev)
    &&& post.usernames == pre.usernames
    &&& post.spec_stars(room, conn) == pre.spec_stars(room, conn).remove(m)
    &&& (forall|r2: u128, c2: u64| !(r2 == room && c2 == conn)
        ==> post.spec_stars(r2, c2) == pre.spec_stars(r2, c2))
}

/// The full contract of an unstar: rejected, with the context untouched,
/// exactly when the room is absent (RoomNotFound), the requester is no
/// member (NotMember), the message id is not in the log (MessageNotFound)
/// or the id is not in the requester's star set (NotStarred); otherwise
/// the returned logged event carries the given id and timestamp and the
/// context changes per `unstar_post`.
pub open spec fn unstar_spec(
    pre: AppState,
    post: AppState,
    r: Result<RoomEvent, ChatError>,
    conn: u64,
    data: UnstarMessageRequest,
    id: u128,
    ts: i64,
) -> bool {
    if !pre.has_room(data.room_id) {
        r == Err::<RoomEvent, ChatError>(ChatError::RoomNotFound) && post == pre
    } else if !pre.spec_room(data.room_id).members@.contains(conn) {
        r == Err::<RoomEvent, ChatError>(ChatError::NotMember) && post == pre
    } else if !pre.spec_room(data.room_id).has_event(data.message_id) {
        r == Err::<RoomEvent, ChatError>(ChatError::MessageNotFound) && post == pre
    } else if !pre.spec_stars(data.room_id, conn).contains(data.message_id) {
        r == Err::<RoomEvent, ChatError>(ChatError::NotStarred) && post == pre
    } else {
        match r {
            Ok(ev) => {
                &&& ev.id == id
                &&& ev.from == conn
                &&& ev.timestamp == ts
                &&& ev.data == RoomEventData::MessageUnstar(
                    MessageUnstarEvent { message_id: data.message_id },
                )
                &&& unstar_post(pre, post, data.room_id, conn, data.message_id, ev)
            },
            Err(_) => false,
        }
    }
}

/// Star a message with a caller-chosen event id and timestamp.
pub fn star_message_at(
    state: &mut AppState,
    conn: u64,
    data: StarMessageRequest,
    id: u128,
    ts: i64,
) -> (r: Result<RoomEvent, ChatError>)
    requires
        old(state).wf(),
    ensures
        final(state).wf(),
        star_spec(*old(state), *final(state), r, conn, data, id, ts),
{
    let room_id = data.room_id;
    let m = data.message_id;
    let ri = match state.room_index(room_id) {
        Some(i) => i,
        None => {
            return Err(ChatError::RoomNotFound);
        },
    };
    if !state.rooms[ri].is_member(conn) {
        return Err(ChatError::NotMember);
    }
    match state.rooms[ri].find_event(m) {
        Some(_) => {},
        None => {
            return Err(ChatError::MessageNotFound);
        },
    }
    match state.star_index(room_id, conn) {
        Some(si) => {
            if !contains_id(&state.starred_messages[si].ids, m) {
                state.starred_messages[si].ids.push(m);
                proof {
                    lemma_push_distinct(old(state).starred_messages@[si as int].ids@, m);
                }
            }
            proof {
                lemma_stars_frame_update(*old(state), *state, si as int);
                assert(state.spec_stars(room_id, conn)
                    =~= old(state).spec_stars(room_id, conn).insert(m));
            }
        },
        None => {
            let mut ids: Vec<u128> = Vec::new();
            ids.push(m);
            let entry = StarEntry { room: room_id, conn, ids };
            state.starred_messages.push(entry);
            proof {
                let e = state.starred_messages@.last();
                assert(e.room == room_id && e.conn == conn);
                assert(e.ids@ == Seq::<u128>::empty().push(m));
                assert(e.ids@.len() == 1 && e.ids@[0] == m);
                assert(e.ids@.contains(m));
                assert forall|c: u128| e.ids@.contains(c) implies c == m by {
                    let k = choose|k: int| 0 <= k < e.ids@.len() && e.ids@[k] == c;
                    assert(k == 0);
                }
                lemma_stars_frame_push(*old(state), *state, e);
                assert(state.spec_stars(room_id, conn)
                    =~= old(state).spec_stars(room_id, conn).insert(m));
            }
        },
    }
    let ghost mid = *state;
    let ev = RoomEvent {
        id,
        from: conn,
        timestamp: ts,
        data: RoomEventData::MessageStar(MessageStarEvent { message_id: m }),
    };
    let dup = ev.duplicate();
    let room = &mut state.rooms[ri];
    room.append_event(dup);
    proof {
        assert(state.rooms@ == mid.rooms@.update(ri as int, state.rooms@[ri as int]));
        assert forall|k: int| 0 <= k < state.rooms@.len() implies (#[trigger] state.rooms@[k]).wf() by {
            if k != ri as int {
                assert(state.rooms@[k] == old(state).rooms@[k]);
            }
        }
        assert forall|i: int, j: int| 0 <= i < j < state.rooms@.len()
            implies state.rooms@[i].id != state.rooms@[j].id by {
            assert(state.rooms@[i].id == old(state).rooms@[i].id);
            assert(state.rooms@[j].id == old(state).rooms@[j].id);
        }
        lemma_stars_unchanged(mid, *state);
        assert(star_post(*old(state), *state, room_id, conn, m, ev));
    }
    Ok(ev)
}

/// Star a message: authorize, insert the id into the requester's star set
/// (idempotently), append the MessageStar event to the log and return it
/// for broadcast, with a fresh id and the current time.
pub fn star_message(state: &mut AppState, conn: u64, data: StarMessageRequest) -> (r: Result<
    RoomEvent,
    ChatError,
>)
    requires
        old(state).wf(),
    ensures
        final(state).wf(),
        exists|id: u128, ts: i64| star_spec(*old(state), *final(state), r, conn, data, id, ts),
{
    let id = fresh_id();
    let ts = now_millis();
    let r = star_message_at(state, conn, data, id, ts);
    r
}

/// Unstar a message with a caller-chosen event id and timestamp.
pub fn unstar_message_at(
    state: &mut AppState,
    conn: u64,
    data: UnstarMessageRequest,
    id: u128,
    ts: i64,
) -> (r: Result<RoomEvent, ChatError>)
    requires
        old(state).wf(),
    ensures
        final(state).wf(),
        unstar_spec(*old(state), *final(state), r, conn, data, id, ts),
{
    let room_id = data.room_id;
    let m = data.message_id;
    let ri = match state.room_index(room_id) {
        Some(i) => i,
        None => {
            return Err(ChatError::RoomNotFound);
        },
    };
    if !state.rooms[ri].is_member(conn) {
        return Err(ChatError::NotMember);
    }
    match state.rooms[ri].find_event(m) {
        Some(_) => {},
        None => {
            return Err(ChatError::MessageNotFound);
        },
    }
    let si = match state.star_index(room_id, conn) {
        Some(i) => i,
        None => {
            proof {
                assert(!old(state).spec_stars(room_id, conn).contains(m));
            }
            return Err(ChatError::NotStarred);
        },
    };
    let ii = match index_of(&state.starred_messages[si].ids, m) {
        Some(i) => i,
        None => {
            proof {
                assert(!old(state).spec_stars(room_id, conn).contains(m));
            }
            return Err(ChatError::NotStarred);
        },
    };
    state.starred_messages[si].ids.remove(ii);
    proof {
        lemma_distinct_remove(old(state).starred_messages@[si as int].ids@, ii as int);
        lemma_stars_frame_update(*old(state), *state, si as int);
        assert(state.spec_stars(room_id, conn)
            =~= old(state).spec_stars(room_id, conn).remove(m));
    }
    let ghost mid = *state;
    let ev = RoomEvent {
        id,
        from: conn,
        timestamp: ts,
        data: RoomEventData::MessageUnstar(MessageUnstarEvent { message_id: m }),
    };
    let dup = ev.duplicate();
    let room = &mut state.rooms[ri];
    room.append_event(dup);
    proof {
        assert(state.rooms@ == mid.rooms@.update(ri as int, state.rooms@[ri as int]));
        assert forall|k: int| 0 <= k < state.rooms@.len() implies (#[trigger] state.rooms@[k]).wf() by {
            if k != ri as int {
                assert(state.rooms@[k] == old(state).rooms@[k]);
            }
        }
        assert forall|i: int, j: int| 0 <= i < j < state.rooms@.len()
            implies state.rooms@[i].id != state.rooms@[j].id by {
            assert(state.rooms@[i].id == old(state).rooms@[i].id);
            assert(state.rooms@[j].id == old(state).rooms@[j].id);
        }
        lemma_stars_unchanged(mid, *state);
        assert(unstar_post(*old(state), *state, room_id, conn, m, ev));
    }
    Ok(ev)
}

/// Unstar a message: authorize, remove the id from the requester's star
/// set, append the MessageUnstar event to the log and return it for
/// broadcast, with a fresh id and the current time.
pub fn unstar_message(state: &mut AppState, conn: u64, data: UnstarMessageRequest) -> (r: Result<
    RoomEvent,
    ChatError,
>)
    requires
        old(state).wf(),
    ensures
        final(state).wf(),
        exists|id: u128, ts: i64| unstar_spec(*old(state), *final(state), r, conn, data, id, ts),
{
    let id = fresh_id();
    let ts = now_millis();
    let r = unstar_message_at(state, conn, data, id, ts);
    r
}

/// List the requester's starred message ids in one room: rejected exactly
/// when the room is absent (RoomNotFound) or the requester is no member
/// (NotMember); otherwise the response lists the requester's own star
/// set, in the order the stars were first placed.
pub fn get_starred_messages(state: &AppState, conn: u64, room_id: u128) -> (r: Result<
    StarredMessagesResponse,
    ChatError,
>)
    requires
        state.wf(),
    ensures
        match r {
            Ok(resp) => {
                &&& state.has_room(room_id)
                &&& state.spec_room(room_id).members@.contains(conn)
                &&& resp.starred_message_ids@ == (if state.has_star_entry(room_id, conn) {
                    state.starred_messages@[state.star_idx(room_id, conn)].ids@
                } else {
                    Seq::<u128>::empty()
                })
                &&& (forall|m: u128| resp.starred_message_ids@.contains(m)
                    == state.spec_stars(room_id, conn).contains(m))
            },
            Err(e) => if !state.has_room(room_id) {
                e == ChatError::RoomNotFound
            } else {
                !state.spec_room(room_id).members@.contains(conn) && e == ChatError::NotMember
            },
        },
{
    let ri = match state.room_index(room_id) {
        Some(i) => i,
        None => {
            return Err(ChatError::RoomNotFound);
        },
    };
    if !state.rooms[ri].is_member(conn) {
        return Err(ChatError::NotMember);
    }
    match state.star_index(room_id, conn) {
        Some(si) => {
            let ids = &state.starred_messages[si].ids;
            let n = ids.len();
            let mut out: Vec<u128> = Vec::new();
            let mut i: usize = 0;
            while i < n
                invariant
                    n == ids@.len(),
                    0 <= i <= n,
                    out@ == ids@.subrange(0, i as int),
                decreases n - i,
            {
                out.push(ids[i]);
                proof {
                    assert(out@ =~= ids@.subrange(0, i + 1));
                }
                i += 1;
            }
            proof {
                assert(out@ =~= ids@);
            }
            Ok(StarredMessagesResponse { starred_message_ids: out })
        },
        None => {
            Ok(StarredMessagesResponse { starred_message_ids: Vec::new() })
        },
    }
}

} // verus!
