//! Join and leave orchestration.
//!
//! A join ensures the room exists (creating it lazily with the requested
//! or default name), adds the member, snapshots the existing log for
//! point-to-point replay to the newly joined connection only, then appends
//! a UserJoin event and builds a refreshed membership snapshot for
//! broadcast.  A leave removes the member, appends a UserLeave event and
//! builds the refreshed snapshot.  Membership is a set: both operations
//! are idempotent on it.

use vstd::prelude::*;
use vstd::pervasive::unreached;
use crate::error::ChatError;
use crate::event::RoomEvent;
use crate::event::RoomMembersResponse;
use crate::event::UserJoinEvent;
use crate::event::UserLeaveEvent;
use crate::event::RoomEventData;
use crate::state::AppState;
use crate::state::lemma_names_unchanged;
use crate::state::rooms_updated_at;
use crate::user_management::handle_user_join_room_at;
use crate::user_management::handle_user_leave_room_at;
use crate::user_management::members_snapshot_ok;
use crate::clock::now_millis;
use crate::ids::fresh_id;

verus! {

/// An inbound join request: the room, and optionally a name for it in
/// case it has to be created.
#[derive(Debug, PartialEq)]
pub struct JoinRoomPayload {
    pub room_id: u128,
    pub room_name: Option<String>,
}

/// An inbound leave request.
#[derive(Debug, PartialEq)]
pub struct LeaveRoomPayload {
    pub room_id: u128,
}

/// What a join produced: whether the room was created, the full existing
/// log to replay to the joining connection only, the logged UserJoin
/// event, and the refreshed membership snapshot for broadcast.
#[derive(Debug, PartialEq)]
pub struct JoinOutcome {
    pub created: bool,
    pub replay: Vec<RoomEvent>,
    pub join_event: RoomEvent,
    pub members: RoomMembersResponse,
}

/// What a leave produced: the logged UserLeave event and the refreshed
/// membership snapshot, both for broadcast.
#[derive(Debug, PartialEq)]
pub struct LeaveOutcome {
    pub leave_event: RoomEvent,
    pub members: RoomMembersResponse,
}

/// The full contract of a join.  The room is created lazily when absent,
/// with the requested name or else the caller's default; the connection
/// enters the member set; the replay is exactly the log before the
/// UserJoin event; the UserJoin event ends the log; the snapshot lists
/// the membership after the join; names and stars do not change.
pub open spec fn join_spec(
    pre: AppState,
    post: AppState,
    r: JoinOutcome,
    conn: u64,
    data: JoinRoomPayload,
    default_name: String,
    id: u128,
    ts: i64,
) -> bool {
    let name = match data.room_name {
        Some(n) => n,
        None => default_name,
    };
    &&& r.created == !pre.has_room(data.room_id)
    &&& r.join_event.id == id
    &&& r.join_event.from == conn
    &&& r.join_event.timestamp == ts
    &&& r.join_event.data == RoomEventData::UserJoin(
        UserJoinEvent { user_id: conn, username: pre.spec_username(conn) },
    )
    &&& post.usernames == pre.usernames
    &&& post.starred_messages == pre.starred_messages
    &&& post.has_room(data.room_id)
    &&& if pre.has_room(data.room_id) {
        let i = pre.room_idx(data.room_id);
        let pre_room = pre.rooms@[i];
        let post_room = post.rooms@[i];
        &&& rooms_updated_at(pre, post, i)
        &&& post_room.id == pre_room.id
        &&& post_room.name == pre_room.name
        &&& post_room.member_set() == pre_room.member_set().insert(conn)
        &&& post_room.events@ == pre_room.events@.push(r.join_event)
        &&& r.replay@ == pre_room.events@
        &&& members_snapshot_ok(pre, post_room, r.members)
    } else {
        let post_room = post.rooms@.last();
        &&& post.rooms@.len() == pre.rooms@.len() + 1
        &&& (forall|k: int| 0 <= k < pre.rooms@.len() ==> post.rooms@[k] == pre.rooms@[k])
        &&& post_room.id == data.room_id
        &&& post_room.name == name
        &&& post_room.members@ == Seq::<u64>::empty().push(conn)
        &&& post_room.events@ == Seq::<RoomEvent>::empty().push(r.join_event)
        &&& r.replay@ == Seq::<RoomEvent>::empty()
        &&& members_snapshot_ok(pre, post_room, r.members)
    }
}

/// The full contract of a leave: RoomNotFound, with the context
/// untouched, when the room is absent; otherwise the connection leaves
/// the member set (idempotently), the UserLeave event ends the log, and
/// the snapshot lists the membership after the leave.
pub open spec fn leave_spec(
    pre: AppState,
    post: AppState,
    r: Result<LeaveOutcome, ChatError>,
    conn: u64,
    data: LeaveRoomPayload,
    id: u128,
    ts: i64,
) -> bool {
    if !pre.has_room(data.room_id) {
        r == Err::<LeaveOutcome, ChatError>(ChatError::RoomNotFound) && post == pre
    } else {
        match r {
            Ok(out) => {
                let i = pre.room_idx(data.room_id);
                let pre_room = pre.rooms@[i];
                let post_room = post.rooms@[i];
                &&& out.leave_event.id == id
                &&& out.leave_event.from == conn
                &&& out.leave_event.timestamp == ts
                &&& out.leave_event.data == RoomEventData::UserLeave(
                    UserLeaveEvent { user_id: conn, username: pre.spec_username(conn) },
                )
                &&& rooms_updated_at(pre, post, i)
                &&& post_room.id == pre_room.id
                &&& post_room.name == pre_room.name
                &&& post_room.member_set() == pre_room.member_set().remove(conn)
                &&& post_room.events@ == pre_room.events@.push(out.leave_event)
                &&& members_snapshot_ok(pre, post_room, out.members)
                &&& post.usernames == pre.usernames
                &&& post.starred_messages == pre.starred_messages
            },
            Err(_) => false,
        }
    }
}

/// Join a room with a caller-chosen event id and timestamp.
pub fn join_room_at(
    state: &mut AppState,
    conn: u64,
    data: JoinRoomPayload,
    default_name: String,
    id: u128,
    ts: i64,
) -> (r: JoinOutcome)
    requires
        old(state).wf(),
    ensures
        final(state).wf(),
        join_spec(*old(state), *final(state), r, conn, data, default_name, id, ts),
{
    let room_id = data.room_id;
    let name = match data.room_name {
        Some(n) => n,
        None => default_name,
    };
    let created = state.ensure_room(room_id, name);
    let ghost s1 = *state;
    let ri = state.room_index(room_id).unwrap();
    proof {
        if created {
            let n0 = old(state).rooms@.len() as int;
            assert(s1.rooms@[n0].id == room_id);
            if ri as int != n0 {
                assert(s1.rooms@[ri as int].id != s1.rooms@[n0].id);
            }
            assert(ri as int == n0);
        } else {
            assert(s1.room_idx(room_id) == old(state).room_idx(room_id));
        }
    }
    let room = &mut state.rooms[ri];
    room.add_member(conn);
    proof {
        assert(state.rooms@ == s1.rooms@.update(ri as int, state.rooms@[ri as int]));
        assert forall|q: int| 0 <= q < state.rooms@.len()
            implies (#[trigger] state.rooms@[q]).wf() by {
            if q != ri as int {
                assert(state.rooms@[q] == s1.rooms@[q]);
            }
        }
        assert forall|q1: int, q2: int| 0 <= q1 < q2 < state.rooms@.len()
            implies state.rooms@[q1].id != state.rooms@[q2].id by {
            assert(state.rooms@[q1].id == s1.rooms@[q1].id);
            assert(state.rooms@[q2].id == s1.rooms@[q2].id);
        }
    }
    let ghost s2 = *state;
    let replay = state.rooms[ri].list_events();
    let res = handle_user_join_room_at(state, conn, room_id, id, ts);
    match res {
        Ok((ev, members)) => {
            proof {
                let j = s2.room_idx(room_id);
                assert(s2.rooms@[ri as int].id == room_id);
                assert(s2.has_room(room_id));
                assert(0 <= j < s2.rooms@.len() && s2.rooms@[j].id == room_id);
                if j != ri as int {
                    assert(s2.rooms@[j].id != s2.rooms@[ri as int].id);
                }
                assert(j == ri as int);
                lemma_names_unchanged(*old(state), s2);
                assert(s2.spec_room(room_id) == s2.rooms@[ri as int]);
                assert(state.rooms@[ri as int].members@ == s2.rooms@[ri as int].members@);
                assert(members_snapshot_ok(*old(state), state.rooms@[ri as int], members));
                if !old(state).has_room(room_id) {
                    assert(state.rooms@.last() == state.rooms@[ri as int]);
                    assert(state.rooms@[ri as int].members@ == Seq::<u64>::empty().push(conn));
                    assert(state.rooms@[ri as int].events@
                        =~= Seq::<RoomEvent>::empty().push(ev));
                    assert(replay@ =~= Seq::<RoomEvent>::empty());
                } else {
                    let i = old(state).room_idx(room_id);
                    assert(i == ri as int);
                    assert(state.rooms@[i].member_set()
                        =~= old(state).rooms@[i].member_set().insert(conn));
                }
            }
            JoinOutcome { created, replay, join_event: ev, members }
        },
        Err(_) => {
            proof {
                assert(false);
            }
            unreached()
        },
    }
}

/// Join a room with a fresh event id and the current time: ensure the
/// room, add the member, snapshot the log for replay, log the UserJoin
/// and build the membership snapshot.
pub fn join_room(state: &mut AppState, conn: u64, data: JoinRoomPayload, default_name: String) -> (r:
    JoinOutcome)
    requires
        old(state).wf(),
    ensures
        final(state).wf(),
        exists|id: u128, ts: i64| join_spec(
            *old(state),
            *final(state),
            r,
            conn,
            data,
            default_name,
            id,
            ts,
        ),
{
    let id = fresh_id();
    let ts = now_millis();
    let r = join_room_at(state, conn, data, default_name, id, ts);
    r
}

/// Leave a room with a caller-chosen event id and timestamp.
pub fn leave_room_at(
    state: &mut AppState,
    conn: u64,
    data: LeaveRoomPayload,
    id: u128,
    ts: i64,
) -> (r: Result<LeaveOutcome, ChatError>)
    requires
        old(state).wf(),
    ensures
        final(state).wf(),
        leave_spec(*old(state), *final(state), r, conn, data, id, ts),
{
    let room_id = data.room_id;
    let ri = match state.room_index(room_id) {
        Some(i) => i,
        None => {
            return Err(ChatError::RoomNotFound);
        },
    };
    let room = &mut state.rooms[ri];
    room.remove_member(conn);
    proof {
        assert(state.rooms@ == old(state).rooms@.update(ri as int, state.rooms@[ri as int]));
        assert forall|q: int| 0 <= q < state.rooms@.len()
            implies (#[trigger] state.rooms@[q]).wf() by {
            if q != ri as int {
                assert(state.rooms@[q] == old(state).rooms@[q]);
            }
        }
        assert forall|q1: int, q2: int| 0 <= q1 < q2 < state.rooms@.len()
            implies state.rooms@[q1].id != state.rooms@[q2].id by {
            assert(state.rooms@[q1].id == old(state).rooms@[q1].id);
            assert(state.rooms@[q2].id == old(state).rooms@[q2].id);
        }
    }
    let ghost s2 = *state;
    let res = handle_user_leave_room_at(state, conn, room_id, id, ts);
    match res {
        Ok((ev, members)) => {
            proof {
                let j = s2.room_idx(room_id);
                assert(s2.rooms@[ri as int].id == room_id);
                assert(s2.has_room(room_id));
                assert(0 <= j < s2.rooms@.len() && s2.rooms@[j].id == room_id);
                if j != ri as int {
                    assert(s2.rooms@[j].id != s2.rooms@[ri as int].id);
                }
                assert(j == ri as int);
                lemma_names_unchanged(*old(state), s2);
                assert(s2.spec_room(room_id) == s2.rooms@[ri as int]);
                assert(state.rooms@[ri as int].members@ == s2.rooms@[ri as int].members@);
                assert(members_snapshot_ok(*old(state), state.rooms@[ri as int], members));
                assert(state.rooms@[ri as int].member_set()
                    =~= s2.rooms@[ri as int].member_set());
            }
            Ok(LeaveOutcome { leave_event: ev, members })
        },
        Err(_) => {
            proof {
                assert(false);
            }
            unreached()
        },
    }
}

/// Leave a room with a fresh event id and the current time: remove the
/// member, log the UserLeave and build the membership snapshot.
pub fn leave_room(state: &mut AppState, conn: u64, data: LeaveRoomPayload) -> (r: Result<
    LeaveOutcome,
    ChatError,
>)
    requires
        old(state).wf(),
    ensures
        final(state).wf(),
        exists|id: u128, ts: i64| leave_spec(*old(state), *final(state), r, conn, data, id, ts),
{
    let id = fresh_id();
    let ts = now_millis();
    let r = leave_room_at(state, conn, data, id, ts);
    r
}

/// One membership action: the acting connection, and whether it joined
/// (true) or left (false).
pub open spec fn apply_action(s: Set<u64>, a: (u64, bool)) -> Set<u64> {
    if a.1 {
        s.insert(a.0)
    } else {
        s.remove(a.0)
    }
}

/// The membership left by a sequence of join/leave actions, applied in
/// order to an initial membership.  `join_room` makes a room's member set
/// `apply_action(s, (conn, true))` and `leave_room` makes it
/// `apply_action(s, (conn, false))`, so a run of joins and leaves folds
/// to this.
pub open spec fn apply_actions(s: Set<u64>, acts: Seq<(u64, bool)>) -> Set<u64>
    decreases acts.len(),
{
    if acts.len() == 0 {
        s
    } else {
        apply_action(apply_actions(s, acts.drop_last()), acts.last())
    }
}

/// The most recent action of one connection in a run of actions, if any.
pub open spec fn last_action(acts: Seq<(u64, bool)>, c: u64) -> Option<bool>
    decreases acts.len(),
{
    if acts.len() == 0 {
        None
    } else if acts.last().0 == c {
        Some(acts.last().1)
    } else {
        last_action(acts.drop_last(), c)
    }
}

/// For any interleaving of join/leave actions on one room, the final
/// membership holds exactly the connections whose most recent action was
/// a join; a connection that never acted keeps its initial standing.
pub proof fn lemma_membership_from_interleaving(s0: Set<u64>, acts: Seq<(u64, bool)>)
    ensures
        forall|c: u64| apply_actions(s0, acts).contains(c) == (match last_action(acts, c) {
            Some(joined) => joined,
            None => s0.contains(c),
        }),
    decreases acts.len(),
{
    if acts.len() == 0 {
    } else {
        lemma_membership_from_interleaving(s0, acts.drop_last());
        let prev = apply_actions(s0, acts.drop_last());
        let a = acts.last();
        assert forall|c: u64| apply_actions(s0, acts).contains(c) == (match last_action(
            acts,
            c,
        ) {
            Some(joined) => joined,
            None => s0.contains(c),
        }) by {
            if a.0 == c {
                if a.1 {
                    assert(apply_actions(s0, acts).contains(c));
                } else {
                    assert(!apply_actions(s0, acts).contains(c));
                }
            } else {
                assert(apply_actions(s0, acts).contains(c) == prev.contains(c));
                assert(last_action(acts, c) == last_action(acts.drop_last(), c));
            }
        }
    }
}

} // verus!
