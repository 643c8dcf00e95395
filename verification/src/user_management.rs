//! Display names, membership snapshots, the logged UserJoin/UserLeave
//! notifications, and disconnect cleanup.
//!
//! Display names are optional and resolved lazily when an event or a
//! snapshot is built.  A disconnect leaves every room that contains the
//! connection — appending a UserLeave event and producing a refreshed
//! membership snapshot per room — and then drops the session-directory
//! entry; star-index entries are not proactively cleaned, which is
//! acceptable staleness because connection ids are not reused.

use vstd::prelude::*;
use crate::error::ChatError;
use crate::event::RoomEvent;
use crate::event::RoomEventData;
use crate::event::RoomMember;
use crate::event::RoomMembersResponse;
use crate::event::UserJoinEvent;
use crate::event::UserLeaveEvent;
use crate::room::Room;
use crate::state::AppState;
use crate::state::UserNameEntry;
use crate::state::lemma_names_frame_push;
use crate::state::lemma_names_frame_remove;
use crate::state::lemma_names_frame_update;
use crate::state::lemma_names_unchanged;
use crate::state::post_appended;
use crate::clock::now_millis;
use crate::ids::fresh_id;

verus! {

/// An inbound display-name request.
#[derive(Debug, PartialEq)]
pub struct SetUsernamePayload {
    pub username: String,
}

/// An inbound membership-snapshot request.
#[derive(Debug, PartialEq)]
pub struct GetMembersPayload {
    pub room_id: u128,
}

/// What a disconnect produced for one room the connection was in: the
/// logged UserLeave event and the refreshed membership snapshot, both for
/// broadcast to that room.
#[derive(Debug, PartialEq)]
pub struct LeaveNotice {
    pub room_id: u128,
    pub event: RoomEvent,
    pub members: RoomMembersResponse,
}

/// The snapshot lists the room's members in stored order, each with the
/// lazily resolved display name.
pub open spec fn members_snapshot_ok(state: AppState, room: Room, resp: RoomMembersResponse) -> bool {
    &&& resp.members@.len() == room.members@.len()
    &&& (forall|k: int| 0 <= k < room.members@.len()
        ==> (#[trigger] resp.members@[k]).user_id == room.members@[k]
            && resp.members@[k].username == state.spec_username(room.members@[k]))
}

/// Store the connection's display name, replacing any earlier one, and
/// echo it back for the confirmation notification.  No other connection's
/// name, no room and no star set changes.
pub fn set_username(state: &mut AppState, conn: u64, data: SetUsernamePayload) -> (r: String)
    requires
        old(state).wf(),
    ensures
        final(state).wf(),
        r == data.username,
        final(state).spec_username(conn) == Some(data.username),
        forall|c: u64| c != conn ==> final(state).spec_username(c) == old(state).spec_username(c),
        final(state).rooms == old(state).rooms,
        final(state).starred_messages == old(state).starred_messages,
{
    match state.username_index(conn) {
        Some(i) => {
            state.usernames[i].name = data.username.clone();
            proof {
                lemma_names_frame_update(*old(state), *state, i as int);
            }
        },
        None => {
            state.usernames.push(UserNameEntry { conn, name: data.username.clone() });
            proof {
                lemma_names_frame_push(*old(state), *state, state.usernames@.last());
            }
        },
    }
    data.username
}

/// Build the refreshed membership snapshot of a room, for broadcast after
/// a join or a leave; nothing when the room is absent.
pub fn send_updated_members_to_room(state: &AppState, room_id: u128) -> (r: Option<
    RoomMembersResponse,
>)
    requires
        state.wf(),
    ensures
        match r {
            Some(resp) => state.has_room(room_id)
                && members_snapshot_ok(*state, state.spec_room(room_id), resp),
            None => !state.has_room(room_id),
        },
{
    let ri = match state.room_index(room_id) {
        Some(i) => i,
        None => {
            return None;
        },
    };
    let n = state.rooms[ri].members.len();
    let mut members: Vec<RoomMember> = Vec::new();
    let mut i: usize = 0;
    while i < n
        invariant
            state.wf(),
            ri < state.rooms@.len(),
            n == state.rooms@[ri as int].members@.len(),
            0 <= i <= n,
            members@.len() == i,
            forall|k: int| 0 <= k < i
                ==> (#[trigger] members@[k]).user_id == state.rooms@[ri as int].members@[k]
                    && members@[k].username == state.spec_username(
                    state.rooms@[ri as int].members@[k],
                ),
        decreases n - i,
    {
        let user_id = state.rooms[ri].members[i];
        let username = state.get_name(user_id);
        members.push(RoomMember { user_id, username });
        i += 1;
    }
    Some(RoomMembersResponse { members })
}

/// Answer a membership-snapshot request: rejected with RoomNotFound when
/// the room is absent, otherwise the members in stored order with their
/// lazily resolved names.
pub fn get_room_members(state: &AppState, data: GetMembersPayload) -> (r: Result<
    RoomMembersResponse,
    ChatError,
>)
    requires
        state.wf(),
    ensures
        match r {
            Ok(resp) => state.has_room(data.room_id)
                && members_snapshot_ok(*state, state.spec_room(data.room_id), resp),
            Err(e) => !state.has_room(data.room_id) && e == ChatError::RoomNotFound,
        },
{
    match send_updated_members_to_room(state, data.room_id) {
        Some(resp) => Ok(resp),
        None => Err(ChatError::RoomNotFound),
    }
}

/// The full contract of the logged UserJoin notification: RoomNotFound,
/// with the context untouched, when the room is absent; otherwise the
/// UserJoin event — carrying the joiner and their lazily resolved name —
/// is appended to the room's log and returned together with the
/// refreshed membership snapshot, and nothing else changes.
pub open spec fn user_join_spec(
    pre: AppState,
    post: AppState,
    r: Result<(RoomEvent, RoomMembersResponse), ChatError>,
    conn: u64,
    room_id: u128,
    id: u128,
    ts: i64,
) -> bool {
    if !pre.has_room(room_id) {
        r == Err::<(RoomEvent, RoomMembersResponse), ChatError>(ChatError::RoomNotFound)
            && post == pre
    } else {
        match r {
            Ok((ev, resp)) => {
                &&& ev.id == id
                &&& ev.from == conn
                &&& ev.timestamp == ts
                &&& ev.data == RoomEventData::UserJoin(
                    UserJoinEvent { user_id: conn, username: pre.spec_username(conn) },
                )
                &&& post_appended(pre, post, room_id, ev)
                &&& members_snapshot_ok(pre, pre.spec_room(room_id), resp)
            },
            Err(_) => false,
        }
    }
}

/// The full contract of the logged UserLeave notification, shaped like
/// `user_join_spec` with a UserLeave payload.
pub open spec fn user_leave_spec(
    pre: AppState,
    post: AppState,
    r: Result<(RoomEvent, RoomMembersResponse), ChatError>,
    conn: u64,
    room_id: u128,
    id: u128,
    ts: i64,
) -> bool {
    if !pre.has_room(room_id) {
        r == Err::<(RoomEvent, RoomMembersResponse), ChatError>(ChatError::RoomNotFound)
            && post == pre
    } else {
        match r {
            Ok((ev, resp)) => {
                &&& ev.id == id
                &&& ev.from == conn
                &&& ev.timestamp == ts
                &&& ev.data == RoomEventData::UserLeave(
                    UserLeaveEvent { user_id: conn, username: pre.spec_username(conn) },
                )
                &&& post_appended(pre, post, room_id, ev)
                &&& members_snapshot_ok(pre, pre.spec_room(room_id), resp)
            },
            Err(_) => false,
        }
    }
}

/// Append and return the UserJoin notification with a caller-chosen event
/// id and timestamp, together with the refreshed membership snapshot.
pub fn handle_user_join_room_at(
    state: &mut AppState,
    conn: u64,
    room_id: u128,
    id: u128,
    ts: i64,
) -> (r: Result<(RoomEvent, RoomMembersResponse), ChatError>)
    requires
        old(state).wf(),
    ensures
        final(state).wf(),
        user_join_spec(*old(state), *final(state), r, conn, room_id, id, ts),
{
    let ri = match state.room_index(room_id) {
        Some(i) => i,
        None => {
            return Err(ChatError::RoomNotFound);
        },
    };
    let username = state.get_name(conn);
    let resp = match send_updated_members_to_room(state, room_id) {
        Some(resp) => resp,
        None => {
            proof {
                assert(false);
            }
            return Err(ChatError::RoomNotFound);
        },
    };
    let ev = RoomEvent {
        id,
        from: conn,
        timestamp: ts,
        data: RoomEventData::UserJoin(UserJoinEvent { user_id: conn, username }),
    };
    let dup = ev.duplicate();
    let room = &mut state.rooms[ri];
    room.append_event(dup);
    proof {
        assert(state.rooms@ == old(state).rooms@.update(ri as int, state.rooms@[ri as int]));
        assert forall|k: int| 0 <= k < state.rooms@.len() implies (#[trigger] state.rooms@[k]).wf() by {
            if k != ri as int {
                assert(state.rooms@[k] == old(state).rooms@[k]);
            }
        }
        assert forall|i: int, j: int| 0 <= i < j < state.rooms@.len()
            implies state.rooms@[i].id != state.rooms@[j].id by {
            assert(state.rooms@[i].id == old(state).rooms@[i].id);
            assert(state.rooms@[j].id == old(state).rooms@[j].id);
        }
        assert(post_appended(*old(state), *state, room_id, ev));
    }
    Ok((ev, resp))
}

/// Append and return the UserJoin notification with a fresh event id and
/// the current time, together with the refreshed membership snapshot.
pub fn handle_user_join_room(state: &mut AppState, conn: u64, room_id: u128) -> (r: Result<
    (RoomEvent, RoomMembersResponse),
    ChatError,
>)
    requires
        old(state).wf(),
    ensures
        final(state).wf(),
        exists|id: u128, ts: i64| user_join_spec(
            *old(state),
            *final(state),
            r,
            conn,
            room_id,
            id,
            ts,
        ),
{
    let id = fresh_id();
    let ts = now_millis();
    let r = handle_user_join_room_at(state, conn, room_id, id, ts);
    r
}

/// Append and return the UserLeave notification with a caller-chosen
/// event id and timestamp, together with the refreshed membership
/// snapshot.
pub fn handle_user_leave_room_at(
    state: &mut AppState,
    conn: u64,
    room_id: u128,
    id: u128,
    ts: i64,
) -> (r: Result<(RoomEvent, RoomMembersResponse), ChatError>)
    requires
        old(state).wf(),
    ensures
        final(state).wf(),
        user_leave_spec(*old(state), *final(state), r, conn, room_id, id, ts),
{
    let ri = match state.room_index(room_id) {
        Some(i) => i,
        None => {
            return Err(ChatError::RoomNotFound);
        },
    };
    let username = state.get_name(conn);
    let resp = match send_updated_members_to_room(state, room_id) {
        Some(resp) => resp,
        None => {
            proof {
                assert(false);
            }
            return Err(ChatError::RoomNotFound);
        },
    };
    let ev = RoomEvent {
        id,
        from: conn,
        timestamp: ts,
        data: RoomEventData::UserLeave(UserLeaveEvent { user_id: conn, username }),
    };
    let dup = ev.duplicate();
    let room = &mut state.rooms[ri];
    room.append_event(dup);
    proof {
        assert(state.rooms@ == old(state).rooms@.update(ri as int, state.rooms@[ri as int]));
        assert forall|k: int| 0 <= k < state.rooms@.len() implies (#[trigger] state.rooms@[k]).wf() by {
            if k != ri as int {
                assert(state.rooms@[k] == old(state).rooms@[k]);
            }
        }
        assert forall|i: int, j: int| 0 <= i < j < state.rooms@.len()
            implies state.rooms@[i].id != state.rooms@[j].id by {
            assert(state.rooms@[i].id == old(state).rooms@[i].id);
            assert(state.rooms@[j].id == old(state).rooms@[j].id);
        }
        assert(post_appended(*old(state), *state, room_id, ev));
    }
    Ok((ev, resp))
}

/// Append and return the UserLeave notification with a fresh event id and
/// the current time, together with the refreshed membership snapshot.
pub fn handle_user_leave_room(state: &mut AppState, conn: u64, room_id: u128) -> (r: Result<
    (RoomEvent, RoomMembersResponse),
    ChatError,
>)
    requires
        old(state).wf(),
    ensures
        final(state).wf(),
        exists|id: u128, ts: i64| user_leave_spec(
            *old(state),
            *final(state),
            r,
            conn,
            room_id,
            id,
            ts,
        ),
{
    let id = fresh_id();
    let ts = now_millis();
    let r = handle_user_leave_room_at(state, conn, room_id, id, ts);
    r
}

/// How one room looks after a disconnect: same id and name, the
/// connection removed from the member set, and — when the connection was
/// a member — a UserLeave event appended to an otherwise unchanged log;
/// rooms the connection was not in are untouched.
pub open spec fn room_left_ok(pre_room: Room, post_room: Room, conn: u64, uname: Option<String>) -> bool {
    &&& post_room.id == pre_room.id
    &&& post_room.name == pre_room.name
    &&& post_room.member_set() == pre_room.member_set().remove(conn)
    &&& if pre_room.members@.contains(conn) {
        &&& post_room.events@.len() == pre_room.events@.len() + 1
        &&& post_room.events@.subrange(0, pre_room.events@.len() as int) == pre_room.events@
        &&& post_room.events@.last().from == conn
        &&& post_room.events@.last().data == RoomEventData::UserLeave(
            UserLeaveEvent { user_id: conn, username: uname },
        )
    } else {
        post_room == pre_room
    }
}

/// One returned disconnect notice: its room contained the connection, its
/// event is the UserLeave entry now at the end of that room's log, and
/// its snapshot lists that room's members after the removal.
pub open spec fn leave_notice_ok(pre: AppState, cur: AppState, nt: LeaveNotice, conn: u64) -> bool {
    &&& pre.has_room(nt.room_id)
    &&& pre.spec_room(nt.room_id).members@.contains(conn)
    &&& nt.event.from == conn
    &&& nt.event.data == RoomEventData::UserLeave(
        UserLeaveEvent { user_id: conn, username: pre.spec_username(conn) },
    )
    &&& cur.rooms@[pre.room_idx(nt.room_id)].events@.len() > 0
    &&& nt.event == cur.rooms@[pre.room_idx(nt.room_id)].events@.last()
    &&& members_snapshot_ok(pre, cur.rooms@[pre.room_idx(nt.room_id)], nt.members)
}

/// The full contract of a disconnect: every room loses the connection,
/// each room that contained it gets a UserLeave entry and yields one
/// notice, the session-directory entry is dropped, and the star index is
/// left as it is.
pub open spec fn disconnect_spec(
    pre: AppState,
    post: AppState,
    r: Seq<LeaveNotice>,
    conn: u64,
) -> bool {
    &&& post.rooms@.len() == pre.rooms@.len()
    &&& (forall|k: int| 0 <= k < pre.rooms@.len()
        ==> room_left_ok(pre.rooms@[k], #[trigger] post.rooms@[k], conn, pre.spec_username(conn)))
    &&& post.spec_username(conn) == None::<String>
    &&& (forall|c: u64| c != conn ==> post.spec_username(c) == pre.spec_username(c))
    &&& post.starred_messages == pre.starred_messages
    &&& (forall|idx: int| 0 <= idx < r.len() ==> leave_notice_ok(pre, post, #[trigger] r[idx], conn))
    &&& (forall|k: int| 0 <= k < pre.rooms@.len() && (#[trigger] pre.rooms@[k]).members@.contains(conn)
        ==> exists|idx: int| 0 <= idx < r.len() && r[idx].room_id == pre.rooms@[k].id)
    &&& (forall|i1: int, i2: int| 0 <= i1 < i2 < r.len()
        ==> pre.room_idx(r[i1].room_id) < pre.room_idx(r[i2].room_id))
    &&& (forall|i1: int, i2: int| 0 <= i1 < i2 < r.len() ==> r[i1].room_id != r[i2].room_id)
}

/// Disconnect a connection: enumerate every room that contains it, apply
/// the leave to each — remove the member, append a UserLeave event and
/// build a refreshed membership snapshot — and drop its session-directory
/// entry.  Star-index entries are kept.
pub fn handle_disconnect(state: &mut AppState, conn: u64) -> (r: Vec<LeaveNotice>)
    requires
        old(state).wf(),
    ensures
        final(state).wf(),
        disconnect_spec(*old(state), *final(state), r@, conn),
{
    let mut notices: Vec<LeaveNotice> = Vec::new();
    let n = state.rooms.len();
    let mut k: usize = 0;
    while k < n
        invariant
            state.wf(),
            old(state).wf(),
            n == state.rooms@.len(),
            n == old(state).rooms@.len(),
            0 <= k <= n,
            forall|j: int| k <= j < n ==> state.rooms@[j] == old(state).rooms@[j],
            forall|j: int| 0 <= j < k ==> room_left_ok(
                old(state).rooms@[j],
                #[trigger] state.rooms@[j],
                conn,
                old(state).spec_username(conn),
            ),
            state.usernames == old(state).usernames,
            state.starred_messages == old(state).starred_messages,
            forall|idx: int| 0 <= idx < notices@.len() ==> leave_notice_ok(
                *old(state),
                *state,
                #[trigger] notices@[idx],
                conn,
            ),
            forall|idx: int| 0 <= idx < notices@.len()
                ==> 0 <= old(state).room_idx((#[trigger] notices@[idx]).room_id) < k,
            forall|j: int| 0 <= j < k && (#[trigger] old(state).rooms@[j]).members@.contains(conn)
                ==> exists|idx: int| 0 <= idx < notices@.len()
                    && notices@[idx].room_id == old(state).rooms@[j].id,
            forall|i1: int, i2: int| 0 <= i1 < i2 < notices@.len()
                ==> old(state).room_idx(notices@[i1].room_id)
                    < old(state).room_idx(notices@[i2].room_id),
            forall|i1: int, i2: int| 0 <= i1 < i2 < notices@.len()
                ==> notices@[i1].room_id != notices@[i2].room_id,
        decreases n - k,
    {
        let ghost pre_iter = *state;
        if state.rooms[k].is_member(conn) {
            let rid = state.rooms[k].id;
            proof {
                let j = old(state).room_idx(rid);
                assert(old(state).rooms@[k as int].id == rid);
                assert(old(state).has_room(rid));
                assert(0 <= j < n && old(state).rooms@[j].id == rid);
                if j != k as int {
                    assert(old(state).rooms@[j].id != old(state).rooms@[k as int].id);
                }
                assert(j == k as int);
            }
            let room = &mut state.rooms[k];
            room.remove_member(conn);
            proof {
                assert(state.rooms@ == pre_iter.rooms@.update(k as int, state.rooms@[k as int]));
                assert forall|q: int| 0 <= q < state.rooms@.len()
                    implies (#[trigger] state.rooms@[q]).wf() by {
                    if q != k as int {
                        assert(state.rooms@[q] == pre_iter.rooms@[q]);
                    }
                }
                assert forall|q1: int, q2: int| 0 <= q1 < q2 < state.rooms@.len()
                    implies state.rooms@[q1].id != state.rooms@[q2].id by {
                    assert(state.rooms@[q1].id == pre_iter.rooms@[q1].id);
                    assert(state.rooms@[q2].id == pre_iter.rooms@[q2].id);
                }
            }
            let ghost mid = *state;
            let id = fresh_id();
            let ts = now_millis();
            let res = handle_user_leave_room_at(state, conn, rid, id, ts);
            match res {
                Ok((ev, resp)) => {
                    proof {
                        let j = mid.room_idx(rid);
                        assert(mid.rooms@[k as int].id == rid);
                        assert(mid.has_room(rid));
                        assert(0 <= j < n && mid.rooms@[j].id == rid);
                        if j != k as int {
                            assert(mid.rooms@[j].id != mid.rooms@[k as int].id);
                        }
                        assert(j == k as int);
                        lemma_names_unchanged(*old(state), mid);
                        assert(ev.data == RoomEventData::UserLeave(
                            UserLeaveEvent {
                                user_id: conn,
                                username: old(state).spec_username(conn),
                            },
                        ));
                        assert(state.rooms@[k as int].member_set()
                            =~= mid.rooms@[k as int].member_set());
                        assert(state.rooms@[k as int].events@
                            == old(state).rooms@[k as int].events@.push(ev));
                        assert(state.rooms@[k as int].events@.subrange(
                            0,
                            old(state).rooms@[k as int].events@.len() as int,
                        ) =~= old(state).rooms@[k as int].events@);
                        assert(room_left_ok(
                            old(state).rooms@[k as int],
                            state.rooms@[k as int],
                            conn,
                            old(state).spec_username(conn),
                        ));
                        assert(mid.spec_room(rid) == mid.rooms@[k as int]);
                        assert(state.rooms@[k as int].members@ == mid.rooms@[k as int].members@);
                        assert(members_snapshot_ok(*old(state), state.rooms@[k as int], resp));
                    }
                    let ghost notices0 = notices@;
                    notices.push(
                        LeaveNotice { room_id: rid, event: ev.duplicate(), members: resp },
                    );
                    proof {
                        let nn = notices@.len() - 1;
                        assert(notices@[nn].room_id == rid);
                        assert(old(state).room_idx(rid) == k as int);
                        assert(leave_notice_ok(*old(state), *state, notices@[nn], conn));
                        assert forall|idx: int| 0 <= idx < nn implies leave_notice_ok(
                            *old(state),
                            *state,
                            #[trigger] notices@[idx],
                            conn,
                        ) by {
                            let ji = old(state).room_idx(notices@[idx].room_id);
                            assert(ji < k as int);
                            assert(state.rooms@[ji] == mid.rooms@[ji]);
                            assert(mid.rooms@[ji] == pre_iter.rooms@[ji]);
                        }
                        assert forall|j: int| 0 <= j < k + 1
                            && (#[trigger] old(state).rooms@[j]).members@.contains(conn)
                            implies exists|idx: int| 0 <= idx < notices@.len()
                                && notices@[idx].room_id == old(state).rooms@[j].id by {
                            if j == k as int {
                                assert(notices@[nn].room_id == old(state).rooms@[j].id);
                            } else {
                                let idx0 = choose|idx: int| 0 <= idx < notices0.len()
                                    && notices0[idx].room_id == old(state).rooms@[j].id;
                                assert(notices@[idx0] == notices0[idx0]);
                                assert(notices@[idx0].room_id == old(state).rooms@[j].id);
                            }
                        }
                        assert forall|i1: int, i2: int| 0 <= i1 < i2 < notices@.len()
                            implies old(state).room_idx(notices@[i1].room_id)
                                < old(state).room_idx(notices@[i2].room_id) by {
                            if i2 == nn {
                                assert(old(state).room_idx(notices@[i1].room_id) < k as int);
                                assert(old(state).room_idx(notices@[nn].room_id) == k as int);
                            }
                        }
                        assert forall|i1: int, i2: int| 0 <= i1 < i2 < notices@.len()
                            implies notices@[i1].room_id != notices@[i2].room_id by {
                            if i2 == nn {
                                let ji = old(state).room_idx(notices@[i1].room_id);
                                assert(old(state).rooms@[ji].id == notices@[i1].room_id);
                                assert(ji != k as int);
                                assert(old(state).rooms@[ji].id != old(state).rooms@[k as int].id);
                            }
                        }
                    }
                },
                Err(_) => {
                    proof {
                        assert(false);
                    }
                },
            }
        } else {
            proof {
                assert(state.rooms@[k as int] == old(state).rooms@[k as int]);
                assert(!state.rooms@[k as int].members@.contains(conn));
                assert(state.rooms@[k as int].member_set()
                    =~= state.rooms@[k as int].member_set().remove(conn));
                assert(room_left_ok(
                    old(state).rooms@[k as int],
                    state.rooms@[k as int],
                    conn,
                    old(state).spec_username(conn),
                ));
            }
        }
        k += 1;
    }
    let ghost before_name = *state;
    match state.username_index(conn) {
        Some(i) => {
            state.usernames.remove(i);
            proof {
                lemma_names_frame_remove(before_name, *state, i as int);
                lemma_names_unchanged(*old(state), before_name);
            }
        },
        None => {
            proof {
                lemma_names_unchanged(*old(state), before_name);
            }
        },
    }
    proof {
        assert forall|idx: int| 0 <= idx < notices@.len() implies leave_notice_ok(
            *old(state),
            *state,
            #[trigger] notices@[idx],
            conn,
        ) by {
            assert(leave_notice_ok(*old(state), before_name, notices@[idx], conn));
            assert(state.rooms@ == before_name.rooms@);
        }
    }
    notices
}

} // verus!
