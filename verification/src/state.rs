//! The shared context: the room registry, the session directory and the
//! star index, bundled into one explicitly constructed value that every
//! request handler receives.
//!
//! Each store is an association list whose keys are unique; the spec
//! functions below read them as maps and sets.

use vstd::prelude::*;
use crate::room::Room;
use crate::room::distinct_seq;

verus! {

/// A session-directory entry: the display name a connection chose.
#[derive(Debug, PartialEq)]
pub struct UserNameEntry {
    pub conn: u64,
    pub name: String,
}

/// A star-index entry: the set of message ids one connection starred in one
/// room.  Star sets are keyed per (room, connection), independent of
/// message authorship.
#[derive(Debug, PartialEq)]
pub struct StarEntry {
    pub room: u128,
    pub conn: u64,
    pub ids: Vec<u128>,
}

/// The three stores, created once at process start and handed to every
/// request handler.
pub struct AppState {
    pub rooms: Vec<Room>,
    pub usernames: Vec<UserNameEntry>,
    pub starred_messages: Vec<StarEntry>,
}

/// The room vector is unchanged except (at most) at slot `i`.
pub open spec fn rooms_updated_at(pre: AppState, post: AppState, i: int) -> bool {
    &&& post.rooms@.len() == pre.rooms@.len()
    &&& (forall|k: int| 0 <= k < pre.rooms@.len() && k != i ==> post.rooms@[k] == pre.rooms@[k])
}

/// The addressed room had `ev` appended to its log; everything else in the
/// context is unchanged.
pub open spec fn post_appended(pre: AppState, post: AppState, room: u128, ev: crate::event::RoomEvent) -> bool {
    let i = pre.room_idx(room);
    &&& rooms_updated_at(pre, post, i)
    &&& crate::room::room_log_extended(pre.rooms@[i], post.rooms@[i], ev)
    &&& post.usernames == pre.usernames
    &&& post.starred_messages == pre.starred_messages
}

impl AppState {
    /// Well-formedness: room ids, directory keys and star-index keys are
    /// unique, every room is well-formed and every star set holds each id
    /// once.
    pub open spec fn wf(self) -> bool {
        &&& (forall|i: int, j: int| 0 <= i < j < self.rooms@.len()
            ==> self.rooms@[i].id != self.rooms@[j].id)
        &&& (forall|i: int| 0 <= i < self.rooms@.len() ==> (#[trigger] self.rooms@[i]).wf())
        &&& (forall|i: int, j: int| 0 <= i < j < self.usernames@.len()
            ==> self.usernames@[i].conn != self.usernames@[j].conn)
        &&& (forall|i: int, j: int| 0 <= i < j < self.starred_messages@.len()
            ==> !(self.starred_messages@[i].room == self.starred_messages@[j].room
                && self.starred_messages@[i].conn == self.starred_messages@[j].conn))
        &&& (forall|i: int| 0 <= i < self.starred_messages@.len()
            ==> distinct_seq((#[trigger] self.starred_messages@[i]).ids@))
    }

    /// A room with this id exists.
    pub open spec fn has_room(self, id: u128) -> bool {
        exists|i: int| 0 <= i < self.rooms@.len() && self.rooms@[i].id == id
    }

    /// The index of the room with this id (unique under `wf`).
    pub open spec fn room_idx(self, id: u128) -> int {
        choose|i: int| 0 <= i < self.rooms@.len() && self.rooms@[i].id == id
    }

    /// The room with this id.
    pub open spec fn spec_room(self, id: u128) -> Room {
        self.rooms@[self.room_idx(id)]
    }

    /// The connection has a session-directory entry.
    pub open spec fn has_username(self, conn: u64) -> bool {
        exists|i: int| 0 <= i < self.usernames@.len() && self.usernames@[i].conn == conn
    }

    /// The index of the connection's directory entry (unique under `wf`).
    pub open spec fn username_idx(self, conn: u64) -> int {
        choose|i: int| 0 <= i < self.usernames@.len() && self.usernames@[i].conn == conn
    }

    /// The display name stored for the connection, if any.
    pub open spec fn spec_username(self, conn: u64) -> Option<String> {
        if self.has_username(conn) {
            Some(self.usernames@[self.username_idx(conn)].name)
        } else {
            None
        }
    }

    /// A star set exists for this (room, connection) key.
    pub open spec fn has_star_entry(self, room: u128, conn: u64) -> bool {
        exists|i: int| 0 <= i < self.starred_messages@.len()
            && self.starred_messages@[i].room == room
            && self.starred_messages@[i].conn == conn
    }

    /// The index of the (room, connection) star entry (unique under `wf`).
    pub open spec fn star_idx(self, room: u128, conn: u64) -> int {
        choose|i: int| 0 <= i < self.starred_messages@.len()
            && self.starred_messages@[i].room == room
            && self.starred_messages@[i].conn == conn
    }

    /// The set of message ids this connection starred in this room.
    pub open spec fn spec_stars(self, room: u128, conn: u64) -> Set<u128> {
        if self.has_star_entry(room, conn) {
            Set::new(|m: u128| self.starred_messages@[self.star_idx(room, conn)].ids@.contains(m))
        } else {
            Set::empty()
        }
    }

    /// A fresh context with no rooms, no names and no stars.
    pub fn new() -> (r: AppState)
        ensures
            r.rooms@ == Seq::<Room>::empty(),
            r.usernames@ == Seq::<UserNameEntry>::empty(),
            r.starred_messages@ == Seq::<StarEntry>::empty(),
            r.wf(),
    {
        AppState { rooms: Vec::new(), usernames: Vec::new(), starred_messages: Vec::new() }
    }

    /// Find the room with this id.
    pub fn room_index(&self, id: u128) -> (r: Option<usize>)
        requires
            self.wf(),
        ensures
            match r {
                Some(i) => self.has_room(id) && i as int == self.room_idx(id)
                    && i < self.rooms@.len() && self.rooms@[i as int].id == id,
                None => !self.has_room(id),
            },
    {
        let n = self.rooms.len();
        let mut i: usize = 0;
        while i < n
            invariant
                self.wf(),
                n == self.rooms@.len(),
                0 <= i <= n,
                forall|k: int| 0 <= k < i ==> self.rooms@[k].id != id,
            decreases n - i,
        {
            if self.rooms[i].id == id {
                proof {
                    let j = self.room_idx(id);
                    assert(0 <= j < self.rooms@.len() && self.rooms@[j].id == id);
                    if j != i {
                        assert(self.rooms@[j].id != self.rooms@[i as int].id);
                    }
                }
                return Some(i);
            }
            i += 1;
        }
        None
    }

    /// Find the connection's session-directory entry.
    pub fn username_index(&self, conn: u64) -> (r: Option<usize>)
        requires
            self.wf(),
        ensures
            match r {
                Some(i) => self.has_username(conn) && i as int == self.username_idx(conn)
                    && i < self.usernames@.len() && self.usernames@[i as int].conn == conn,
                None => !self.has_username(conn),
            },
    {
        let n = self.usernames.len();
        let mut i: usize = 0;
        while i < n
            invariant
                self.wf(),
                n == self.usernames@.len(),
                0 <= i <= n,
                forall|k: int| 0 <= k < i ==> self.usernames@[k].conn != conn,
            decreases n - i,
        {
            if self.usernames[i].conn == conn {
                proof {
                    let j = self.username_idx(conn);
                    assert(0 <= j < self.usernames@.len() && self.usernames@[j].conn == conn);
                    if j != i {
                        assert(self.usernames@[j].conn != self.usernames@[i as int].conn);
                    }
                }
                return Some(i);
            }
            i += 1;
        }
        None
    }

    /// The display name stored for the connection, resolved lazily when an
    /// event or snapshot is built.
    pub fn get_name(&self, conn: u64) -> (r: Option<String>)
        requires
            self.wf(),
        ensures
            r == self.spec_username(conn),
    {
        match self.username_index(conn) {
            Some(i) => Some(self.usernames[i].name.clone()),
            None => None,
        }
    }

    /// Find the (room, connection) star entry.
    pub fn star_index(&self, room: u128, conn: u64) -> (r: Option<usize>)
        requires
            self.wf(),
        ensures
            match r {
                Some(i) => self.has_star_entry(room, conn) && i as int == self.star_idx(room, conn)
                    && i < self.starred_messages@.len()
                    && self.starred_messages@[i as int].room == room
                    && self.starred_messages@[i as int].conn == conn,
                None => !self.has_star_entry(room, conn),
            },
    {
        let n = self.starred_messages.len();
        let mut i: usize = 0;
        while i < n
            invariant
                self.wf(),
                n == self.starred_messages@.len(),
                0 <= i <= n,
                forall|k: int| 0 <= k < i
                    ==> !(self.starred_messages@[k].room == room
                        && self.starred_messages@[k].conn == conn),
            decreases n - i,
        {
            if self.starred_messages[i].room == room && self.starred_messages[i].conn == conn {
                proof {
                    let j = self.star_idx(room, conn);
                    if j != i {
                        assert(!(self.starred_messages@[j].room
                            == self.starred_messages@[i as int].room
                            && self.starred_messages@[j].conn
                                == self.starred_messages@[i as int].conn));
                    }
                }
                return Some(i);
            }
            i += 1;
        }
        None
    }

    /// Atomic insert-if-absent for lazy room creation: a no-op when the
    /// room exists, otherwise the new empty room is appended.
    pub fn ensure_room(&mut self, id: u128, name: String) -> (created: bool)
        requires
            old(self).wf(),
        ensures
            final(self).wf(),
            final(self).has_room(id),
            created == !old(self).has_room(id),
            !created ==> *final(self) == *old(self),
            created ==> ({
                &&& final(self).rooms@.len() == old(self).rooms@.len() + 1
                &&& (forall|k: int| 0 <= k < old(self).rooms@.len()
                    ==> final(self).rooms@[k] == old(self).rooms@[k])
                &&& final(self).rooms@.last().id == id
                &&& final(self).rooms@.last().name == name
                &&& final(self).rooms@.last().members@ == Seq::<u64>::empty()
                &&& final(self).rooms@.last().events@ == Seq::<crate::event::RoomEvent>::empty()
                &&& final(self).usernames == old(self).usernames
                &&& final(self).starred_messages == old(self).starred_messages
            }),
            final(self).spec_room(id).id == id,
    {
        match self.room_index(id) {
            Some(_) => {
                proof {
                    assert(self.spec_room(id).id == id);
                }
                false
            }
            None => {
                let room = Room::new(id, name);
                self.rooms.push(room);
                proof {
                    let n0 = old(self).rooms@.len() as int;
                    assert(self.rooms@[n0].id == id);
                    assert(self.has_room(id));
                    assert forall|i: int, j: int| 0 <= i < j < self.rooms@.len()
                        implies self.rooms@[i].id != self.rooms@[j].id by {
                        if j == n0 {
                            if self.rooms@[i].id == id {
                                assert(old(self).rooms@[i].id == id);
                                assert(old(self).has_room(id));
                            }
                        } else {
                            assert(self.rooms@[i] == old(self).rooms@[i]);
                            assert(self.rooms@[j] == old(self).rooms@[j]);
                        }
                    }
                    assert forall|i: int| 0 <= i < self.rooms@.len()
                        implies (#[trigger] self.rooms@[i]).wf() by {
                        if i < n0 {
                            assert(self.rooms@[i] == old(self).rooms@[i]);
                        }
                    }
                    let j = self.room_idx(id);
                    assert(0 <= j < self.rooms@.len() && self.rooms@[j].id == id);
                }
                true
            }
        }
    }
}

/// Display names are read off the session directory alone: two contexts
/// with the same directory agree on every connection's name.
pub proof fn lemma_names_unchanged(pre: AppState, post: AppState)
    requires
        forall|i: int, j: int| 0 <= i < j < pre.usernames@.len()
            ==> pre.usernames@[i].conn != pre.usernames@[j].conn,
        post.usernames@ == pre.usernames@,
    ensures
        forall|c: u64| post.spec_username(c) == pre.spec_username(c),
{
    assert forall|c: u64| post.spec_username(c) == pre.spec_username(c) by {
        if pre.has_username(c) {
            let j = pre.username_idx(c);
            assert(pre.usernames@[j].conn == c);
            assert(post.usernames@[j].conn == c);
            assert(post.has_username(c));
            let j2 = post.username_idx(c);
            assert(pre.usernames@[j2].conn == c);
            if j2 != j {
                let a = if j2 < j { j2 } else { j };
                let b = if j2 < j { j } else { j2 };
                assert(pre.usernames@[a].conn != pre.usernames@[b].conn);
            }
        } else {
            if post.has_username(c) {
                let j = post.username_idx(c);
                assert(pre.usernames@[j].conn == c);
                assert(pre.has_username(c));
            }
        }
    }
}

/// When only the name of directory slot `si` changes, and its connection
/// stays, that slot is still the entry of its connection and every other
/// connection's name is untouched.
pub proof fn lemma_names_frame_update(pre: AppState, post: AppState, si: int)
    requires
        pre.wf(),
        0 <= si < pre.usernames@.len(),
        post.usernames@.len() == pre.usernames@.len(),
        forall|k: int| 0 <= k < pre.usernames@.len() && k != si
            ==> post.usernames@[k] == pre.usernames@[k],
        post.usernames@[si].conn == pre.usernames@[si].conn,
    ensures
        forall|i: int, j: int| 0 <= i < j < post.usernames@.len()
            ==> post.usernames@[i].conn != post.usernames@[j].conn,
        post.has_username(pre.usernames@[si].conn),
        post.username_idx(pre.usernames@[si].conn) == si,
        post.spec_username(pre.usernames@[si].conn) == Some(post.usernames@[si].name),
        forall|c: u64| c != pre.usernames@[si].conn
            ==> post.spec_username(c) == pre.spec_username(c),
{
    let conn0 = pre.usernames@[si].conn;
    assert(forall|k: int| 0 <= k < post.usernames@.len()
        ==> (#[trigger] post.usernames@[k]).conn == pre.usernames@[k].conn);
    assert(post.has_username(conn0));
    let j0 = post.username_idx(conn0);
    assert(post.usernames@[j0].conn == conn0);
    if j0 != si {
        assert(pre.usernames@[j0].conn != pre.usernames@[si].conn);
    }
    assert forall|c: u64| c != conn0 implies post.spec_username(c) == pre.spec_username(c) by {
        if pre.has_username(c) {
            let j = pre.username_idx(c);
            assert(pre.usernames@[j].conn == c);
            assert(j != si);
            assert(post.usernames@[j] == pre.usernames@[j]);
            assert(post.has_username(c));
            let j2 = post.username_idx(c);
            assert(pre.usernames@[j2].conn == c);
            if j2 != j {
                let a = if j2 < j { j2 } else { j };
                let b = if j2 < j { j } else { j2 };
                assert(pre.usernames@[a].conn != pre.usernames@[b].conn);
            }
        } else {
            if post.has_username(c) {
                let j = post.username_idx(c);
                assert(pre.usernames@[j].conn == c);
                assert(pre.has_username(c));
            }
        }
    }
}

/// Appending a directory entry for a connection that had none leaves
/// every other connection's name untouched; the new slot is that
/// connection's entry.
pub proof fn lemma_names_frame_push(pre: AppState, post: AppState, e: UserNameEntry)
    requires
        pre.wf(),
        !pre.has_username(e.conn),
        post.usernames@ == pre.usernames@.push(e),
    ensures
        forall|i: int, j: int| 0 <= i < j < post.usernames@.len()
            ==> post.usernames@[i].conn != post.usernames@[j].conn,
        post.has_username(e.conn),
        post.username_idx(e.conn) == pre.usernames@.len(),
        post.spec_username(e.conn) == Some(e.name),
        forall|c: u64| c != e.conn ==> post.spec_username(c) == pre.spec_username(c),
{
    let n = pre.usernames@.len() as int;
    assert(post.usernames@[n] == e);
    assert(forall|k: int| 0 <= k < n ==> #[trigger] post.usernames@[k] == pre.usernames@[k]);
    assert forall|i: int, j: int| 0 <= i < j < post.usernames@.len()
        implies post.usernames@[i].conn != post.usernames@[j].conn by {
        if j == n {
            if pre.usernames@[i].conn == e.conn {
                assert(pre.has_username(e.conn));
            }
        }
    }
    assert(post.has_username(e.conn));
    let j0 = post.username_idx(e.conn);
    assert(post.usernames@[j0].conn == e.conn);
    if j0 != n {
        assert(pre.usernames@[j0].conn == e.conn);
        assert(pre.has_username(e.conn));
    }
    assert forall|c: u64| c != e.conn implies post.spec_username(c) == pre.spec_username(c) by {
        if pre.has_username(c) {
            let j = pre.username_idx(c);
            assert(pre.usernames@[j].conn == c);
            assert(post.usernames@[j] == pre.usernames@[j]);
            assert(post.has_username(c));
            let j2 = post.username_idx(c);
            assert(post.usernames@[j2].conn == c);
            assert(j2 != n);
            assert(pre.usernames@[j2].conn == c);
            if j2 != j {
                let a = if j2 < j { j2 } else { j };
                let b = if j2 < j { j } else { j2 };
                assert(pre.usernames@[a].conn != pre.usernames@[b].conn);
            }
        } else {
            assert forall|k: int| 0 <= k < post.usernames@.len()
                implies (#[trigger] post.usernames@[k]).conn != c by {
                if k < n {
                    if pre.usernames@[k].conn == c {
                        assert(pre.has_username(c));
                    }
                }
            }
            assert(!post.has_username(c));
        }
    }
}

/// Removing directory slot `si` removes exactly that connection's entry
/// and leaves every other connection's name untouched.
pub proof fn lemma_names_frame_remove(pre: AppState, post: AppState, si: int)
    requires
        pre.wf(),
        0 <= si < pre.usernames@.len(),
        post.usernames@ == pre.usernames@.remove(si),
    ensures
        forall|i: int, j: int| 0 <= i < j < post.usernames@.len()
            ==> post.usernames@[i].conn != post.usernames@[j].conn,
        !post.has_username(pre.usernames@[si].conn),
        post.spec_username(pre.usernames@[si].conn) == None::<String>,
        forall|c: u64| c != pre.usernames@[si].conn
            ==> post.spec_username(c) == pre.spec_username(c),
{
    let conn0 = pre.usernames@[si].conn;
    let t = post.usernames@;
    assert(forall|k: int| 0 <= k < t.len()
        ==> #[trigger] t[k] == (if k < si { pre.usernames@[k] } else { pre.usernames@[k + 1] }));
    assert forall|i: int, j: int| 0 <= i < j < t.len() implies t[i].conn != t[j].conn by {
        let a = if i < si { i } else { i + 1 };
        let b = if j < si { j } else { j + 1 };
        assert(t[i] == pre.usernames@[a] && t[j] == pre.usernames@[b]);
        assert(pre.usernames@[a].conn != pre.usernames@[b].conn);
    }
    assert forall|k: int| 0 <= k < t.len() implies t[k].conn != conn0 by {
        let a = if k < si { k } else { k + 1 };
        assert(t[k] == pre.usernames@[a]);
        if a < si {
            assert(pre.usernames@[a].conn != pre.usernames@[si].conn);
        } else {
            assert(pre.usernames@[si].conn != pre.usernames@[a].conn);
        }
    }
    assert(!post.has_username(conn0));
    assert forall|c: u64| c != conn0 implies post.spec_username(c) == pre.spec_username(c) by {
        if pre.has_username(c) {
            let j = pre.username_idx(c);
            assert(pre.usernames@[j].conn == c);
            assert(j != si);
            if j < si {
                assert(t[j] == pre.usernames@[j]);
                assert(t[j].conn == c);
            } else {
                assert(t[j - 1] == pre.usernames@[j]);
                assert(t[j - 1].conn == c);
            }
            assert(post.has_username(c));
            let j2 = post.username_idx(c);
            assert(t[j2].conn == c);
            let a2 = if j2 < si { j2 } else { j2 + 1 };
            assert(t[j2] == pre.usernames@[a2]);
            assert(pre.usernames@[a2].conn == c);
            if a2 != j {
                let a = if a2 < j { a2 } else { j };
                let b = if a2 < j { j } else { a2 };
                assert(pre.usernames@[a].conn != pre.usernames@[b].conn);
            }
            assert(post.spec_username(c) == pre.spec_username(c));
        } else {
            if post.has_username(c) {
                let j = post.username_idx(c);
                assert(t[j].conn == c);
                let a = if j < si { j } else { j + 1 };
                assert(pre.usernames@[a].conn == c);
                assert(pre.has_username(c));
            }
        }
    }
}

/// Star sets are read off the star index alone: two contexts with the
/// same star index agree on every key's star set.
pub proof fn lemma_stars_unchanged(pre: AppState, post: AppState)
    requires
        forall|i: int, j: int| 0 <= i < j < pre.starred_messages@.len()
            ==> !(pre.starred_messages@[i].room == pre.starred_messages@[j].room
                && pre.starred_messages@[i].conn == pre.starred_messages@[j].conn),
        post.starred_messages@ == pre.starred_messages@,
    ensures
        forall|r2: u128, c2: u64| post.spec_stars(r2, c2) == pre.spec_stars(r2, c2),
{
    assert forall|r2: u128, c2: u64| post.spec_stars(r2, c2) == pre.spec_stars(r2, c2) by {
        if pre.has_star_entry(r2, c2) {
            let j = pre.star_idx(r2, c2);
            assert(pre.starred_messages@[j].room == r2 && pre.starred_messages@[j].conn == c2);
            assert(post.starred_messages@[j].room == r2 && post.starred_messages@[j].conn == c2);
            assert(post.has_star_entry(r2, c2));
            let j2 = post.star_idx(r2, c2);
            assert(pre.starred_messages@[j2].room == r2 && pre.starred_messages@[j2].conn == c2);
            if j2 != j {
                let a = if j2 < j { j2 } else { j };
                let b = if j2 < j { j } else { j2 };
                assert(!(pre.starred_messages@[a].room == pre.starred_messages@[b].room
                    && pre.starred_messages@[a].conn == pre.starred_messages@[b].conn));
            }
            assert(post.spec_stars(r2, c2) =~= pre.spec_stars(r2, c2));
        } else {
            if post.has_star_entry(r2, c2) {
                let j = post.star_idx(r2, c2);
                assert(pre.starred_messages@[j].room == r2 && pre.starred_messages@[j].conn == c2);
                assert(pre.has_star_entry(r2, c2));
            }
            assert(post.spec_stars(r2, c2) =~= pre.spec_stars(r2, c2));
        }
    }
}

/// When only the id list of star slot `si` changes, and its key stays,
/// that slot is still the entry of its key and every other key's star set
/// is untouched.
pub proof fn lemma_stars_frame_update(pre: AppState, post: AppState, si: int)
    requires
        pre.wf(),
        0 <= si < pre.starred_messages@.len(),
        post.starred_messages@.len() == pre.starred_messages@.len(),
        forall|k: int| 0 <= k < pre.starred_messages@.len() && k != si
            ==> post.starred_messages@[k] == pre.starred_messages@[k],
        post.starred_messages@[si].room == pre.starred_messages@[si].room,
        post.starred_messages@[si].conn == pre.starred_messages@[si].conn,
    ensures
        forall|i: int, j: int| 0 <= i < j < post.starred_messages@.len()
            ==> !(post.starred_messages@[i].room == post.starred_messages@[j].room
                && post.starred_messages@[i].conn == post.starred_messages@[j].conn),
        post.has_star_entry(pre.starred_messages@[si].room, pre.starred_messages@[si].conn),
        post.star_idx(pre.starred_messages@[si].room, pre.starred_messages@[si].conn) == si,
        pre.star_idx(pre.starred_messages@[si].room, pre.starred_messages@[si].conn) == si,
        forall|r2: u128, c2: u64| !(r2 == pre.starred_messages@[si].room
            && c2 == pre.starred_messages@[si].conn)
            ==> post.spec_stars(r2, c2) == pre.spec_stars(r2, c2),
{
    let room0 = pre.starred_messages@[si].room;
    let conn0 = pre.starred_messages@[si].conn;
    assert(forall|k: int| 0 <= k < post.starred_messages@.len()
        ==> (#[trigger] post.starred_messages@[k]).room == pre.starred_messages@[k].room
            && post.starred_messages@[k].conn == pre.starred_messages@[k].conn);
    assert(post.has_star_entry(room0, conn0));
    let j0 = post.star_idx(room0, conn0);
    assert(post.starred_messages@[j0].room == room0 && post.starred_messages@[j0].conn == conn0);
    if j0 != si {
        assert(!(pre.starred_messages@[j0].room == pre.starred_messages@[si].room
            && pre.starred_messages@[j0].conn == pre.starred_messages@[si].conn));
    }
    let jp = pre.star_idx(room0, conn0);
    assert(pre.starred_messages@[jp].room == room0 && pre.starred_messages@[jp].conn == conn0);
    if jp != si {
        assert(!(pre.starred_messages@[jp].room == pre.starred_messages@[si].room
            && pre.starred_messages@[jp].conn == pre.starred_messages@[si].conn));
    }
    assert forall|r2: u128, c2: u64| !(r2 == room0 && c2 == conn0)
        implies post.spec_stars(r2, c2) == pre.spec_stars(r2, c2) by {
        if pre.has_star_entry(r2, c2) {
            let j = pre.star_idx(r2, c2);
            assert(pre.starred_messages@[j].room == r2 && pre.starred_messages@[j].conn == c2);
            assert(j != si);
            assert(post.starred_messages@[j] == pre.starred_messages@[j]);
            assert(post.has_star_entry(r2, c2));
            let j2 = post.star_idx(r2, c2);
            assert(post.starred_messages@[j2].room == r2 && post.starred_messages@[j2].conn == c2);
            assert(pre.starred_messages@[j2].room == r2 && pre.starred_messages@[j2].conn == c2);
            if j2 != j {
                let a = if j2 < j { j2 } else { j };
                let b = if j2 < j { j } else { j2 };
                assert(!(pre.starred_messages@[a].room == pre.starred_messages@[b].room
                    && pre.starred_messages@[a].conn == pre.starred_messages@[b].conn));
            }
            assert(post.spec_stars(r2, c2) =~= pre.spec_stars(r2, c2));
        } else {
            assert forall|k: int| 0 <= k < post.starred_messages@.len()
                implies !(#[trigger] post.starred_messages@[k].room == r2
                    && post.starred_messages@[k].conn == c2) by {
                assert(pre.starred_messages@[k].room == post.starred_messages@[k].room
                    && pre.starred_messages@[k].conn == post.starred_messages@[k].conn);
                if pre.starred_messages@[k].room == r2 && pre.starred_messages@[k].conn == c2 {
                    assert(pre.has_star_entry(r2, c2));
                }
            }
            assert(!post.has_star_entry(r2, c2));
            assert(post.spec_stars(r2, c2) =~= pre.spec_stars(r2, c2));
        }
    }
}

/// Appending a star entry for a key that had none leaves every other
/// key's star set untouched, and the new slot is the entry of its key.
pub proof fn lemma_stars_frame_push(pre: AppState, post: AppState, e: StarEntry)
    requires
        pre.wf(),
        !pre.has_star_entry(e.room, e.conn),
        post.starred_messages@ == pre.starred_messages@.push(e),
    ensures
        forall|i: int, j: int| 0 <= i < j < post.starred_messages@.len()
            ==> !(post.starred_messages@[i].room == post.starred_messages@[j].room
                && post.starred_messages@[i].conn == post.starred_messages@[j].conn),
        post.has_star_entry(e.room, e.conn),
        post.star_idx(e.room, e.conn) == pre.starred_messages@.len(),
        forall|r2: u128, c2: u64| !(r2 == e.room && c2 == e.conn)
            ==> post.spec_stars(r2, c2) == pre.spec_stars(r2, c2),
{
    let n = pre.starred_messages@.len() as int;
    assert(post.starred_messages@[n] == e);
    assert(forall|k: int| 0 <= k < n
        ==> #[trigger] post.starred_messages@[k] == pre.starred_messages@[k]);
    assert forall|i: int, j: int| 0 <= i < j < post.starred_messages@.len()
        implies !(post.starred_messages@[i].room == post.starred_messages@[j].room
            && post.starred_messages@[i].conn == post.starred_messages@[j].conn) by {
        if j == n {
            if pre.starred_messages@[i].room == e.room && pre.starred_messages@[i].conn == e.conn {
                assert(pre.has_star_entry(e.room, e.conn));
            }
        }
    }
    assert(post.has_star_entry(e.room, e.conn));
    let j0 = post.star_idx(e.room, e.conn);
    assert(post.starred_messages@[j0].room == e.room && post.starred_messages@[j0].conn == e.conn);
    if j0 != n {
        assert(pre.starred_messages@[j0].room == e.room && pre.starred_messages@[j0].conn == e.conn);
        assert(pre.has_star_entry(e.room, e.conn));
    }
    assert forall|r2: u128, c2: u64| !(r2 == e.room && c2 == e.conn)
        implies post.spec_stars(r2, c2) == pre.spec_stars(r2, c2) by {
        if pre.has_star_entry(r2, c2) {
            let j = pre.star_idx(r2, c2);
            assert(pre.starred_messages@[j].room == r2 && pre.starred_messages@[j].conn == c2);
            assert(post.starred_messages@[j] == pre.starred_messages@[j]);
            assert(post.has_star_entry(r2, c2));
            let j2 = post.star_idx(r2, c2);
            assert(post.starred_messages@[j2].room == r2 && post.starred_messages@[j2].conn == c2);
            assert(j2 != n);
            assert(pre.starred_messages@[j2].room == r2 && pre.starred_messages@[j2].conn == c2);
            if j2 != j {
                let a = if j2 < j { j2 } else { j };
                let b = if j2 < j { j } else { j2 };
                assert(!(pre.starred_messages@[a].room == pre.starred_messages@[b].room
                    && pre.starred_messages@[a].conn == pre.starred_messages@[b].conn));
            }
            assert(post.spec_stars(r2, c2) =~= pre.spec_stars(r2, c2));
        } else {
            assert forall|k: int| 0 <= k < post.starred_messages@.len()
                implies !(#[trigger] post.starred_messages@[k].room == r2
                    && post.starred_messages@[k].conn == c2) by {
                if k < n {
                    if pre.starred_messages@[k].room == r2 && pre.starred_messages@[k].conn == c2 {
                        assert(pre.has_star_entry(r2, c2));
                    }
                }
            }
            assert(!post.has_star_entry(r2, c2));
            assert(post.spec_stars(r2, c2) =~= pre.spec_stars(r2, c2));
        }
    }
}

} // verus!
