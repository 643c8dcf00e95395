//! A room: a named, long-lived broadcast group with a membership set and an
//! append-only, ordered event log.
//!
//! Membership is a set: the member vector never holds a connection twice,
//! and join/leave are idempotent.  The log is append-only; a delete
//! tombstones its entry in place (content cleared, deleted flag set) and
//! never removes it.

use vstd::prelude::*;
use crate::event::RoomEvent;
use crate::event::RoomEventData;

verus! {

/// The tombstone invariant of a stored event: a deleted message holds no
/// content.
pub open spec fn event_tombstone_ok(e: RoomEvent) -> bool {
    match e.data {
        RoomEventData::Message(m) => m.deleted ==> m.content@.len() == 0,
        _ => true,
    }
}

/// No value occurs twice in the sequence.
pub open spec fn distinct_seq<T>(s: Seq<T>) -> bool {
    forall|i: int, j: int| 0 <= i < j < s.len() ==> s[i] != s[j]
}

/// `i` is the index of the first event with this id.
pub open spec fn first_event_match(events: Seq<RoomEvent>, id: u128, i: int) -> bool {
    &&& 0 <= i < events.len()
    &&& events[i].id == id
    &&& forall|k: int| 0 <= k < i ==> events[k].id != id
}

/// The index of the first event with this id (meaningful only when one
/// exists; at most one index is a first match).
pub open spec fn first_event_idx(events: Seq<RoomEvent>, id: u128) -> int {
    choose|i: int| first_event_match(events, id, i)
}

pub struct Room {
    pub id: u128,
    pub name: String,
    pub members: Vec<u64>,
    pub events: Vec<RoomEvent>,
}

/// The room is unchanged except that `ev` was appended to its log.
pub open spec fn room_log_extended(pre: Room, post: Room, ev: RoomEvent) -> bool {
    &&& post.id == pre.id
    &&& post.name == pre.name
    &&& post.members == pre.members
    &&& post.events@ == pre.events@.push(ev)
}

impl Room {
    /// The membership as a mathematical set.
    pub open spec fn member_set(self) -> Set<u64> {
        Set::new(|c: u64| self.members@.contains(c))
    }

    /// Well-formedness: members form a set and every stored event obeys the
    /// tombstone invariant.
    pub open spec fn wf(self) -> bool {
        &&& distinct_seq(self.members@)
        &&& forall|i: int| 0 <= i < self.events@.len() ==> event_tombstone_ok(#[trigger] self.events@[i])
    }

    /// Some stored event carries this id.
    pub open spec fn has_event(self, id: u128) -> bool {
        exists|i: int| 0 <= i < self.events@.len() && self.events@[i].id == id
    }

    /// An empty room.
    pub fn new(id: u128, name: String) -> (r: Room)
        ensures
            r.id == id,
            r.name == name,
            r.members@ == Seq::<u64>::empty(),
            r.events@ == Seq::<RoomEvent>::empty(),
            r.wf(),
    {
        Room { id, name, members: Vec::new(), events: Vec::new() }
    }

    /// Whether the connection is currently a member.
    pub fn is_member(&self, conn: u64) -> (r: bool)
        ensures
            r == self.members@.contains(conn),
            r == self.member_set().contains(conn),
    {
        let n = self.members.len();
        let mut i: usize = 0;
        while i < n
            invariant
                n == self.members@.len(),
                0 <= i <= n,
                forall|k: int| 0 <= k < i ==> self.members@[k] != conn,
            decreases n - i,
        {
            if self.members[i] == conn {
                return true;
            }
            i += 1;
        }
        false
    }

    /// Idempotent join: adds the connection unless it is already a member.
    pub fn add_member(&mut self, conn: u64) -> (added: bool)
        requires
            old(self).wf(),
        ensures
            final(self).wf(),
            final(self).id == old(self).id,
            final(self).name == old(self).name,
            final(self).events == old(self).events,
            added == !old(self).members@.contains(conn),
            !added ==> *final(self) == *old(self),
            added ==> final(self).members@ == old(self).members@.push(conn),
            final(self).member_set() == old(self).member_set().insert(conn),
    {
        if self.is_member(conn) {
            proof {
                assert(self.member_set() =~= self.member_set().insert(conn));
            }
            false
        } else {
            self.members.push(conn);
            proof {
                let s0 = old(self).members@;
                let s1 = self.members@;
                assert(s1[s0.len() as int] == conn);
                assert(s1.contains(conn));
                assert forall|c: u64| s0.contains(c) implies s1.contains(c) by {
                    let j = choose|j: int| 0 <= j < s0.len() && s0[j] == c;
                    assert(s1[j] == c);
                }
                assert forall|c: u64| s1.contains(c) && c != conn implies s0.contains(c) by {
                    let j = choose|j: int| 0 <= j < s1.len() && s1[j] == c;
                    assert(s0[j] == c);
                }
                assert forall|i: int, j: int| 0 <= i < j < s1.len() implies s1[i] != s1[j] by {
                    if j == s0.len() {
                        if s1[i] == conn {
                            assert(s0[i] == conn);
                            assert(s0.contains(conn));
                        }
                    } else {
                        assert(s1[i] == s0[i] && s1[j] == s0[j]);
                    }
                }
                assert(self.member_set() =~= old(self).member_set().insert(conn));
            }
            true
        }
    }

    /// Idempotent leave: removes the connection if it is a member.
    pub fn remove_member(&mut self, conn: u64) -> (removed: bool)
        requires
            old(self).wf(),
        ensures
            final(self).wf(),
            final(self).id == old(self).id,
            final(self).name == old(self).name,
            final(self).events == old(self).events,
            removed == old(self).members@.contains(conn),
            !removed ==> *final(self) == *old(self),
            removed ==> (exists|i: int|
                0 <= i < old(self).members@.len() && old(self).members@[i] == conn
                    && final(self).members@ == old(self).members@.remove(i)),
            !final(self).members@.contains(conn),
            final(self).member_set() == old(self).member_set().remove(conn),
    {
        let n = self.members.len();
        let mut i: usize = 0;
        while i < n
            invariant
                *self == *old(self),
                old(self).wf(),
                n == self.members@.len(),
                0 <= i <= n,
                forall|k: int| 0 <= k < i ==> self.members@[k] != conn,
            decreases n - i,
        {
            if self.members[i] == conn {
                self.members.remove(i);
                proof {
                    lemma_distinct_remove(old(self).members@, i as int);
                    assert(self.member_set() =~= old(self).member_set().remove(conn));
                }
                return true;
            }
            i += 1;
        }
        proof {
            assert(!self.members@.contains(conn));
            assert(self.member_set() =~= self.member_set().remove(conn));
        }
        false
    }

    /// Append an event to the ordered log.
    pub fn append_event(&mut self, ev: RoomEvent)
        requires
            old(self).wf(),
            event_tombstone_ok(ev),
        ensures
            final(self).wf(),
            final(self).id == old(self).id,
            final(self).name == old(self).name,
            final(self).members == old(self).members,
            final(self).events@ == old(self).events@.push(ev),
    {
        self.events.push(ev);
    }

    /// Scan the log for the first event with this id.
    pub fn find_event(&self, id: u128) -> (r: Option<usize>)
        ensures
            match r {
                Some(i) => first_event_match(self.events@, id, i as int)
                    && i as int == first_event_idx(self.events@, id)
                    && self.has_event(id),
                None => !self.has_event(id),
            },
    {
        let n = self.events.len();
        let mut i: usize = 0;
        while i < n
            invariant
                n == self.events@.len(),
                0 <= i <= n,
                forall|k: int| 0 <= k < i ==> self.events@[k].id != id,
            decreases n - i,
        {
            if self.events[i].id == id {
                proof {
                    assert(first_event_match(self.events@, id, i as int));
                    let j = first_event_idx(self.events@, id);
                    assert(first_event_match(self.events@, id, j));
                    if j < i as int {
                        assert(self.events@[j].id != id);
                    } else if (i as int) < j {
                        assert(self.events@[i as int].id != id);
                    }
                }
                return Some(i);
            }
            i += 1;
        }
        None
    }

    /// Read-only snapshot of the membership.
    pub fn list_members(&self) -> (r: Vec<u64>)
        ensures
            r@ == self.members@,
    {
        let n = self.members.len();
        let mut r: Vec<u64> = Vec::new();
        let mut i: usize = 0;
        while i < n
            invariant
                n == self.members@.len(),
                0 <= i <= n,
                r@ == self.members@.subrange(0, i as int),
            decreases n - i,
        {
            r.push(self.members[i]);
            proof {
                assert(r@ =~= self.members@.subrange(0, i + 1));
            }
            i += 1;
        }
        proof {
            assert(r@ =~= self.members@);
        }
        r
    }

    /// Read-only snapshot of the ordered log.
    pub fn list_events(&self) -> (r: Vec<RoomEvent>)
        ensures
            r@ == self.events@,
    {
        let n = self.events.len();
        let mut r: Vec<RoomEvent> = Vec::new();
        let mut i: usize = 0;
        while i < n
            invariant
                n == self.events@.len(),
                0 <= i <= n,
                r@ == self.events@.subrange(0, i as int),
            decreases n - i,
        {
            r.push(self.events[i].duplicate());
            proof {
                assert(r@ =~= self.events@.subrange(0, i + 1));
            }
            i += 1;
        }
        proof {
            assert(r@ =~= self.events@);
        }
        r
    }
}

/// Removing index `i` from a duplicate-free sequence removes exactly the
/// value at `i` from its set of values, and keeps the rest duplicate-free.
pub proof fn lemma_distinct_remove<T>(s: Seq<T>, i: int)
    requires
        0 <= i < s.len(),
        distinct_seq(s),
    ensures
        distinct_seq(s.remove(i)),
        !s.remove(i).contains(s[i]),
        forall|c: T| c != s[i] ==> (s.remove(i).contains(c) == s.contains(c)),
{
    let t = s.remove(i);
    assert(forall|k: int| 0 <= k < t.len()
        ==> #[trigger] t[k] == (if k < i { s[k] } else { s[k + 1] }));
    assert forall|c: T| c != s[i] && s.contains(c) implies t.contains(c) by {
        let j = choose|j: int| 0 <= j < s.len() && s[j] == c;
        if j < i {
            assert(t[j] == c);
        } else {
            assert(t[j - 1] == c);
        }
    }
    assert forall|c: T| t.contains(c) implies s.contains(c) by {
        let k = choose|k: int| 0 <= k < t.len() && t[k] == c;
        if k < i {
            assert(s[k] == c);
        } else {
            assert(s[k + 1] == c);
        }
    }
    assert forall|k: int| 0 <= k < t.len() implies t[k] != s[i] by {
        if k < i {
            assert(s[k] != s[i]);
        } else {
            assert(s[k + 1] != s[i]);
        }
    }
}

/// A deleted message stored in a well-formed room always has empty
/// content: tombstoning clears the content in place and nothing ever
/// refills it.
pub proof fn lemma_deleted_message_empty(room: Room, i: int)
    requires
        room.wf(),
        0 <= i < room.events@.len(),
    ensures
        match room.events@[i].data {
            RoomEventData::Message(m) => m.deleted ==> m.content@.len() == 0,
            _ => true,
        },
{
}

/// Pushing a value not yet present adds exactly that value to the set of
/// values and keeps the sequence duplicate-free.
pub proof fn lemma_push_distinct<T>(s: Seq<T>, x: T)
    requires
        distinct_seq(s),
        !s.contains(x),
    ensures
        distinct_seq(s.push(x)),
        forall|c: T| #[trigger] s.push(x).contains(c) <==> (s.contains(c) || c == x),
{
    let t = s.push(x);
    assert(t[s.len() as int] == x);
    assert forall|c: T| s.contains(c) implies t.contains(c) by {
        let j = choose|j: int| 0 <= j < s.len() && s[j] == c;
        assert(t[j] == c);
    }
    assert(t.contains(x));
    assert forall|c: T| t.contains(c) && c != x implies s.contains(c) by {
        let j = choose|j: int| 0 <= j < t.len() && t[j] == c;
        assert(s[j] == c);
    }
    assert forall|i: int, j: int| 0 <= i < j < t.len() implies t[i] != t[j] by {
        if j == s.len() {
            if t[i] == x {
                assert(s[i] == x);
                assert(s.contains(x));
            }
        } else {
            assert(t[i] == s[i] && t[j] == s[j]);
        }
    }
}

} // verus!
