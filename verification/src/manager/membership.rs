//! Replacing a room's membership.

use vstd::prelude::*;
use crate::compat::ingest::{merge_sources, merged, sticky_views};
use crate::event::{is_member_type, EventConversionError, RawStickyEvent};
use crate::manager::RtcSessionManager;
use crate::participation::same_members;
use crate::roster::RtcSession;
use crate::seqs::{lemma_filter_next, lemma_filter_none, lemma_take_all};
use crate::session::{CallMembershipEvent, JoinedMembership};
use crate::text::{same_text, texts};
use crate::transport::alike;

verus! {

/// Whether an event is a member event of a room.
pub open spec fn is_member_of(room_id: Seq<char>) -> spec_fn(RawStickyEvent) -> bool {
    |event: RawStickyEvent| event.room_id@ == room_id && is_member_type(event.event_type@)
}

/// Whether an event joins a slot.
pub open spec fn joins(slot_id: Seq<char>) -> spec_fn(RawStickyEvent) -> bool {
    |event: RawStickyEvent| event.content.slot_id@ == slot_id && event.states_join()
}

/// The member events of a room, in order.
pub open spec fn relevant(events: Seq<RawStickyEvent>, room_id: Seq<char>) -> Seq<RawStickyEvent> {
    events.filter(is_member_of(room_id))
}

/// Whether candidates are what events join a slot, in order.
pub open spec fn holds_joins(
    candidates: Seq<JoinedMembership>,
    events: Seq<RawStickyEvent>,
    slot_id: Seq<char>,
) -> bool {
    let joining = events.filter(joins(slot_id));
    &&& candidates.len() == joining.len()
    &&& forall|i: int|
        0 <= i < candidates.len() ==> joining[i].is_joined_as(#[trigger] candidates[i])
}

/// Whether an event was read as a membership event.
pub open spec fn reads_as(event: RawStickyEvent, converted: CallMembershipEvent) -> bool {
    match converted {
        CallMembershipEvent::Joined(joined) => event.states_join() && event.is_joined_as(joined),
        CallMembershipEvent::Left(left) => !event.states_join() && left == event.as_left(),
    }
}

/// Whether an event is a member event of a room that cannot be read as one.
pub open spec fn is_malformed(event: RawStickyEvent, room_id: Seq<char>) -> bool {
    is_member_of(room_id)(event) && !event.convertible()
}

/// Whether every member event of a room can be read as one.
pub open spec fn all_readable(events: Seq<RawStickyEvent>, room_id: Seq<char>) -> bool {
    forall|i: int| 0 <= i < events.len() ==> !is_malformed(#[trigger] events[i], room_id)
}

/// Whether an error is that of the first member event of a room that cannot be
/// read as one.
pub open spec fn refused_for(
    events: Seq<RawStickyEvent>,
    room_id: Seq<char>,
    error: EventConversionError,
) -> bool {
    exists|i: int|
        0 <= i < events.len() && is_malformed(#[trigger] events[i], room_id)
            && events[i].refused_with(error) && all_readable(events.take(i), room_id)
}

/// Reads the member events of a room. The first that cannot be read is refused,
/// and with it all of them.
fn convert_members(room_id: &str, events: Vec<RawStickyEvent>) -> (converted: Result<
    Vec<CallMembershipEvent>,
    EventConversionError,
>)
    ensures
        match converted {
            Ok(converted) => {
                &&& all_readable(events@, room_id@)
                &&& converted@.len() == relevant(events@, room_id@).len()
                &&& forall|i: int|
                    0 <= i < converted@.len() ==> reads_as(
                        relevant(events@, room_id@)[i],
                        #[trigger] converted@[i],
                    )
            },
            Err(error) => refused_for(events@, room_id@, error),
        },
{
    let ghost whole = events@;
    let ghost keep = is_member_of(room_id@);
    let mut converted: Vec<CallMembershipEvent> = Vec::new();
    proof {
        lemma_filter_none(whole, keep);
    }
    for event in iter: events
        invariant
            iter.seq() == whole,
            keep == is_member_of(room_id@),
            forall|i: int|
                0 <= i < iter.index() ==> !is_malformed(#[trigger] whole[i], room_id@),
            converted@.len() == whole.take(iter.index()).filter(keep).len(),
            forall|i: int|
                0 <= i < converted@.len() ==> reads_as(
                    whole.take(iter.index()).filter(keep)[i],
                    #[trigger] converted@[i],
                ),
    {
        proof {
            lemma_filter_next(whole, keep, iter.index());
        }
        assert(event == whole[iter.index()]);
        if same_text(event.room_id.as_str(), room_id) {
            match event.try_into_call_membership_event() {
                Ok(event) => {
                    converted.push(event);
                },
                Err(EventConversionError::UnsupportedEventType { found }) => {},
                Err(error) => {
                    assert(is_malformed(whole[iter.index()], room_id@));
                    proof {
                        let earlier = whole.take(iter.index());
                        assert forall|i: int| 0 <= i < earlier.len() implies !is_malformed(
                            #[trigger] earlier[i],
                            room_id@,
                        ) by {
                            assert(earlier[i] == whole[i]);
                        }
                    }
                    return Err(error);
                },
            }
        }
    }
    proof {
        lemma_take_all(whole);
    }
    Ok(converted)
}

impl RtcSessionManager {
    /// Whether the sessions became `after` when a room's membership was replaced:
    /// every session of the room holds exactly what the events join its slot,
    /// sessions elsewhere are as they were, and every slot that an event names
    /// has a session.
    pub open spec fn replaced(
        self,
        room_id: Seq<char>,
        events: Seq<RawStickyEvent>,
        after: RtcSessionManager,
    ) -> bool {
        let members = relevant(events, room_id);
        &&& self.sessions@.len() <= after.sessions@.len()
        &&& forall|i: int|
            0 <= i < self.sessions@.len() ==> (#[trigger] after.sessions@[i]).key
                == self.sessions@[i].key && after.sessions@[i].session.own
                == self.sessions@[i].session.own && (self.sessions@[i].key.room_id@ != room_id
                ==> after.sessions@[i] == self.sessions@[i])
        &&& forall|i: int|
            0 <= i < after.sessions@.len() && (#[trigger] after.sessions@[i]).key.room_id@
                == room_id ==> holds_joins(
                after.sessions@[i].session.candidates@,
                members,
                after.sessions@[i].key.slot_id@,
            )
        &&& forall|i: int|
            self.sessions@.len() <= i < after.sessions@.len() ==> (
            #[trigger] after.sessions@[i]).key.room_id@ == room_id
                && after.sessions@[i].session.own is None && names_slot(
                members,
                after.sessions@[i].key.slot_id@,
            )
        &&& forall|k: int|
            0 <= k < members.len() ==> after.has(
                room_id,
                (#[trigger] members[k]).content.slot_id@,
            )
    }

    /// Applies the complete current membership of a room.
    ///
    /// It replaces what was known: a member that no event joins is gone, which is
    /// how an entry that lapsed leaves the call. A slot that no event names is
    /// emptied too. A member event that cannot be read refuses the whole update
    /// and changes nothing; events that are no member events, or are of another
    /// room, are passed over.
    pub fn set_current_sticky_state(&mut self, room_id: &str, events: Vec<RawStickyEvent>) -> (
    applied: Result<(), EventConversionError>)
        requires
            old(self).wf(),
        ensures
            final(self).wf(),
            *final(self) == (RtcSessionManager { sessions: final(self).sessions, ..*old(self) }),
            match applied {
                Ok(()) => {
                    &&& all_readable(events@, room_id@)
                    &&& old(self).replaced(room_id@, events@, *final(self))
                },
                Err(error) => {
                    &&& *final(self) == *old(self)
                    &&& refused_for(events@, room_id@, error)
                },
            },
    {
        let converted: Vec<CallMembershipEvent> = match convert_members(room_id, events) {
            Ok(converted) => converted,
            Err(error) => {
                return Err(error);
            },
        };
        let ghost before = *self;
        let ghost members = relevant(events@, room_id@);
        let ghost whole = converted@;
        self.clear_candidates(room_id);
        proof {
            lemma_no_joins_yet(before, *self, members, room_id@);
        }
        for event in iter: converted
            invariant
                iter.seq() == whole,
                whole.len() == members.len(),
                members == relevant(events@, room_id@),
                forall|i: int|
                    0 <= i < whole.len() ==> reads_as(members[i], #[trigger] whole[i]),
                before.wf(),
                self.wf(),
                *self == (RtcSessionManager { sessions: self.sessions, ..before }),
                partly_replaced(before, *self, members.take(iter.index()), room_id@),
        {
            let ghost n = iter.index();
            let ghost held = *self;
            assert(reads_as(members[n], whole[n]));
            proof {
                lemma_is_member(events@, room_id@, n);
                lemma_filter_next(members, joins(members[n].content.slot_id@), n);
            }
            match event {
                CallMembershipEvent::Joined(joined) => {
                    let index: usize = self.session_for_key(room_id, joined.slot_id.as_str());
                    let ghost found = *self;
                    self.sessions[index].session.candidates.push(joined);
                    proof {
                        assert(self.sessions@ =~= found.sessions@.update(
                            index as int,
                            self.sessions@[index as int],
                        ));
                        law_own_part_is_no_room_state(found, *self, index as int);
                        lemma_admitted(
                            before,
                            held,
                            found,
                            *self,
                            members,
                            room_id@,
                            n,
                            index as int,
                            joined,
                        );
                    }
                },
                CallMembershipEvent::Left(left) => {
                    let index: usize = self.session_for_key(room_id, left.slot_id.as_str());
                    proof {
                        lemma_passed_over(before, held, *self, members, room_id@, n, index as int);
                    }
                },
            }
        }
        proof {
            lemma_take_all(members);
        }
        Ok(())
    }

    fn clear_candidates(&mut self, room_id: &str)
        requires
            old(self).wf(),
        ensures
            final(self).wf(),
            *final(self) == (RtcSessionManager { sessions: final(self).sessions, ..*old(self) }),
            final(self).sessions@.len() == old(self).sessions@.len(),
            forall|i: int|
                0 <= i < old(self).sessions@.len() ==> {
                    let now = #[trigger] final(self).sessions@[i];
                    &&& now.key == old(self).sessions@[i].key
                    &&& now.session.own == old(self).sessions@[i].session.own
                    &&& if now.key.room_id@ == room_id@ {
                        now.session.candidates@.len() == 0
                    } else {
                        now == old(self).sessions@[i]
                    }
                },
    {
        let ghost before = *self;
        let mut i: usize = 0;
        while i < self.sessions.len()
            invariant
                i <= self.sessions@.len(),
                before.wf(),
                self.wf(),
                *self == (RtcSessionManager { sessions: self.sessions, ..before }),
                self.sessions@.len() == before.sessions@.len(),
                forall|j: int|
                    0 <= j < before.sessions@.len() ==> {
                        let now = #[trigger] self.sessions@[j];
                        &&& now.key == before.sessions@[j].key
                        &&& now.session.own == before.sessions@[j].session.own
                        &&& if j < i && now.key.room_id@ == room_id@ {
                            now.session.candidates@.len() == 0
                        } else {
                            now == before.sessions@[j]
                        }
                    },
            decreases self.sessions@.len() - i,
        {
            let ghost held = *self;
            if same_text(self.sessions[i].key.room_id.as_str(), room_id) {
                self.sessions[i].session.candidates = Vec::new();
                proof {
                    assert(self.sessions@ =~= held.sessions@.update(
                        i as int,
                        self.sessions@[i as int],
                    ));
                    law_own_part_is_no_room_state(held, *self, i as int);
                }
            }
            i = i + 1;
        }
    }
}

/// Whether some event names a slot.
pub open spec fn names_slot(events: Seq<RawStickyEvent>, slot_id: Seq<char>) -> bool {
    exists|k: int| 0 <= k < events.len() && (#[trigger] events[k]).content.slot_id@ == slot_id
}

/// How far a replacement has come, once `members` have been gone through.
spec fn partly_replaced(
    before: RtcSessionManager,
    after: RtcSessionManager,
    members: Seq<RawStickyEvent>,
    room_id: Seq<char>,
) -> bool {
    &&& before.sessions@.len() <= after.sessions@.len()
    &&& forall|i: int|
        0 <= i < before.sessions@.len() ==> (#[trigger] after.sessions@[i]).key
            == before.sessions@[i].key && after.sessions@[i].session.own
            == before.sessions@[i].session.own && (before.sessions@[i].key.room_id@ != room_id
            ==> after.sessions@[i] == before.sessions@[i])
    &&& forall|i: int|
        0 <= i < after.sessions@.len() && (#[trigger] after.sessions@[i]).key.room_id@ == room_id
            ==> holds_joins(
            after.sessions@[i].session.candidates@,
            members,
            after.sessions@[i].key.slot_id@,
        )
    &&& forall|i: int|
        before.sessions@.len() <= i < after.sessions@.len() ==> (
        #[trigger] after.sessions@[i]).key.room_id@ == room_id
            && after.sessions@[i].session.own is None && names_slot(
            members,
            after.sessions@[i].key.slot_id@,
        )
    &&& forall|k: int|
        0 <= k < members.len() ==> after.has(room_id, (#[trigger] members[k]).content.slot_id@)
}

/// Who the candidates of a session are, and what our own part in it is, has no
/// bearing on what is known of the rooms.
pub proof fn law_own_part_is_no_room_state(
    before: RtcSessionManager,
    after: RtcSessionManager,
    index: int,
)
    requires
        before.wf(),
        0 <= index < before.sessions@.len(),
        before.with_session_at(index, after),
        after.sessions@[index].session == (RtcSession {
            candidates: after.sessions@[index].session.candidates,
            own: after.sessions@[index].session.own,
            ..before.sessions@[index].session
        }),
        after.sessions@[index].session.wf(),
    ensures
        after.wf(),
{
    assert forall|i: int| 0 <= i < after.sessions@.len() implies after.governs(
        #[trigger] after.sessions@[i],
    ) by {
        assert(before.governs(before.sessions@[i]));
    }
    assert forall|i: int, j: int| 0 <= i < j < after.sessions@.len() implies !(
    #[trigger] after.sessions@[i]).key.names(
        (#[trigger] after.sessions@[j]).key.room_id@,
        after.sessions@[j].key.slot_id@,
    ) by {
        assert(after.sessions@[i].key == before.sessions@[i].key);
        assert(after.sessions@[j].key == before.sessions@[j].key);
    }
}

proof fn lemma_no_joins_yet(
    before: RtcSessionManager,
    after: RtcSessionManager,
    members: Seq<RawStickyEvent>,
    room_id: Seq<char>,
)
    requires
        after.sessions@.len() == before.sessions@.len(),
        forall|i: int|
            0 <= i < before.sessions@.len() ==> {
                let now = #[trigger] after.sessions@[i];
                &&& now.key == before.sessions@[i].key
                &&& if now.key.room_id@ == room_id {
                    now.session.candidates@.len() == 0 && now.session.own
                        == before.sessions@[i].session.own
                } else {
                    now == before.sessions@[i]
                }
            },
    ensures
        partly_replaced(before, after, members.take(0), room_id),
{
    let none = members.take(0);
    assert forall|i: int|
        0 <= i < after.sessions@.len() && (#[trigger] after.sessions@[i]).key.room_id@
            == room_id implies holds_joins(
        after.sessions@[i].session.candidates@,
        none,
        after.sessions@[i].key.slot_id@,
    ) by {
        lemma_filter_none(members, joins(after.sessions@[i].key.slot_id@));
    }
}

proof fn lemma_is_member(events: Seq<RawStickyEvent>, room_id: Seq<char>, n: int)
    requires
        0 <= n < relevant(events, room_id).len(),
    ensures
        is_member_of(room_id)(relevant(events, room_id)[n]),
{
    events.lemma_filter_pred(is_member_of(room_id), n);
}

/// Going through an event that joins nobody leaves every session holding what it
/// held.
proof fn lemma_passed_over(
    before: RtcSessionManager,
    held: RtcSessionManager,
    after: RtcSessionManager,
    members: Seq<RawStickyEvent>,
    room_id: Seq<char>,
    n: int,
    index: int,
)
    requires
        0 <= n < members.len(),
        !members[n].states_join(),
        partly_replaced(before, held, members.take(n), room_id),
        after.has_at(room_id, members[n].content.slot_id@, index),
        held.with_session(room_id, members[n].content.slot_id@, after),
        !held.has(room_id, members[n].content.slot_id@) ==> index == held.sessions@.len(),
    ensures
        partly_replaced(before, after, members.take(n + 1), room_id),
{
    let earlier = members.take(n);
    let next = members.take(n + 1);
    let slot_id = members[n].content.slot_id@;
    assert(next[n] == members[n]);
    assert forall|i: int| 0 <= i < held.sessions@.len() implies #[trigger] after.sessions@[i]
        == held.sessions@[i] by {
        if !held.has(room_id, slot_id) {
            assert(after.sessions@.drop_last()[i] == held.sessions@[i]);
        }
    }
    assert forall|i: int|
        0 <= i < after.sessions@.len() && (#[trigger] after.sessions@[i]).key.room_id@
            == room_id implies holds_joins(
        after.sessions@[i].session.candidates@,
        next,
        after.sessions@[i].key.slot_id@,
    ) by {
        lemma_filter_next(members, joins(after.sessions@[i].key.slot_id@), n);
        if i < held.sessions@.len() {
            assert(after.sessions@[i] == held.sessions@[i]);
        } else {
            lemma_nobody_joined(before, held, earlier, room_id, slot_id);
        }
    }
    lemma_slots_named(before, held, after, members, room_id, n, index);
}

/// A slot without a session is one that no event has joined.
proof fn lemma_nobody_joined(
    before: RtcSessionManager,
    held: RtcSessionManager,
    members: Seq<RawStickyEvent>,
    room_id: Seq<char>,
    slot_id: Seq<char>,
)
    requires
        partly_replaced(before, held, members, room_id),
        !held.has(room_id, slot_id),
    ensures
        members.filter(joins(slot_id)).len() == 0,
{
    let joining = members.filter(joins(slot_id));
    if joining.len() > 0 {
        members.lemma_filter_pred(joins(slot_id), 0);
        assert(joining.contains(joining[0]));
        members.lemma_filter_contains_rev(joins(slot_id), joining[0]);
        let k = choose|k: int| 0 <= k < members.len() && members[k] == joining[0];
        assert(held.has(room_id, members[k].content.slot_id@));
    }
}

/// Once an event has been gone through, its slot has a session, and so have the
/// slots of the events before it.
proof fn lemma_slots_named(
    before: RtcSessionManager,
    held: RtcSessionManager,
    after: RtcSessionManager,
    members: Seq<RawStickyEvent>,
    room_id: Seq<char>,
    n: int,
    index: int,
)
    requires
        0 <= n < members.len(),
        partly_replaced(before, held, members.take(n), room_id),
        after.has_at(room_id, members[n].content.slot_id@, index),
        held.sessions@.len() <= after.sessions@.len() <= held.sessions@.len() + 1,
        after.sessions@.len() > held.sessions@.len() ==> index == held.sessions@.len(),
        after.sessions@.len() > held.sessions@.len() ==> after.sessions@[index].session.own is None,
        forall|i: int|
            0 <= i < held.sessions@.len() ==> (#[trigger] after.sessions@[i]).key
                == held.sessions@[i].key && after.sessions@[i].session.own
                == held.sessions@[i].session.own,
    ensures
        forall|i: int|
            before.sessions@.len() <= i < after.sessions@.len() ==> (
            #[trigger] after.sessions@[i]).key.room_id@ == room_id
                && after.sessions@[i].session.own is None && names_slot(
                members.take(n + 1),
                after.sessions@[i].key.slot_id@,
            ),
        forall|k: int|
            0 <= k < n + 1 ==> after.has(
                room_id,
                (#[trigger] members.take(n + 1)[k]).content.slot_id@,
            ),
{
    let earlier = members.take(n);
    let next = members.take(n + 1);
    assert(next[n] == members[n]);
    assert forall|i: int| before.sessions@.len() <= i < after.sessions@.len() implies (
    #[trigger] after.sessions@[i]).key.room_id@ == room_id && after.sessions@[i].session.own is None
        && names_slot(next, after.sessions@[i].key.slot_id@) by {
        if i < held.sessions@.len() {
            assert(held.sessions@[i].key == after.sessions@[i].key);
            let slot_id = held.sessions@[i].key.slot_id@;
            let k = choose|k: int|
                0 <= k < earlier.len() && (#[trigger] earlier[k]).content.slot_id@ == slot_id;
            assert(next[k] == earlier[k]);
        } else {
            assert(next[n].content.slot_id@ == after.sessions@[i].key.slot_id@);
        }
    }
    assert forall|k: int| 0 <= k < n + 1 implies after.has(
        room_id,
        (#[trigger] next[k]).content.slot_id@,
    ) by {
        if k < n {
            assert(next[k] == earlier[k]);
            let slot_id = earlier[k].content.slot_id@;
            assert(held.has(room_id, slot_id));
            let i = choose|i: int| held.has_at(room_id, slot_id, i);
            assert(after.sessions@[i].key == held.sessions@[i].key);
            assert(after.has_at(room_id, slot_id, i));
        } else {
            assert(after.has_at(room_id, next[k].content.slot_id@, index));
        }
    }
}

/// Going through an event that joins somebody adds them to the session of their
/// slot and to no other.
proof fn lemma_admitted(
    before: RtcSessionManager,
    held: RtcSessionManager,
    found: RtcSessionManager,
    after: RtcSessionManager,
    members: Seq<RawStickyEvent>,
    room_id: Seq<char>,
    n: int,
    index: int,
    joined: JoinedMembership,
)
    requires
        0 <= n < members.len(),
        members[n].room_id@ == room_id,
        members[n].states_join(),
        members[n].is_joined_as(joined),
        found.wf(),
        partly_replaced(before, held, members.take(n), room_id),
        found.has_at(room_id, members[n].content.slot_id@, index),
        held.with_session(room_id, members[n].content.slot_id@, found),
        !held.has(room_id, members[n].content.slot_id@) ==> index == held.sessions@.len(),
        found.with_session_at(index, after),
        after.sessions@[index].session.own == found.sessions@[index].session.own,
        after.sessions@[index].session.candidates@ == found.sessions@[index].session.candidates@.push(
            joined,
        ),
    ensures
        partly_replaced(before, after, members.take(n + 1), room_id),
{
    let earlier = members.take(n);
    let next = members.take(n + 1);
    let slot_id = members[n].content.slot_id@;
    assert(next[n] == members[n]);
    assert forall|i: int| 0 <= i < held.sessions@.len() implies #[trigger] found.sessions@[i]
        == held.sessions@[i] by {
        if !held.has(room_id, slot_id) {
            assert(found.sessions@.drop_last()[i] == held.sessions@[i]);
        }
    }
    assert forall|i: int| 0 <= i < held.sessions@.len() implies (#[trigger] after.sessions@[i]).key
        == held.sessions@[i].key && after.sessions@[i].session.own
        == held.sessions@[i].session.own by {
        assert(found.sessions@[i] == held.sessions@[i]);
    }
    assert forall|i: int| 0 <= i < before.sessions@.len() implies (
    #[trigger] after.sessions@[i]).key == before.sessions@[i].key && after.sessions@[i].session.own
        == before.sessions@[i].session.own && (before.sessions@[i].key.room_id@ != room_id
        ==> after.sessions@[i] == before.sessions@[i]) by {
        assert(found.sessions@[i] == held.sessions@[i]);
    }
    assert forall|i: int|
        0 <= i < after.sessions@.len() && (#[trigger] after.sessions@[i]).key.room_id@
            == room_id implies holds_joins(
        after.sessions@[i].session.candidates@,
        next,
        after.sessions@[i].key.slot_id@,
    ) by {
        let here = after.sessions@[i].key.slot_id@;
        lemma_filter_next(members, joins(here), n);
        if i == index {
            let had = found.sessions@[index].session.candidates@;
            if index < held.sessions@.len() {
                assert(found.sessions@[index] == held.sessions@[index]);
                assert(holds_joins(had, earlier, slot_id));
            } else {
                lemma_nobody_joined(before, held, earlier, room_id, slot_id);
            }
            assert(holds_joins(had.push(joined), next, slot_id));
        } else {
            assert(after.sessions@[i] == found.sessions@[i]);
            if i < index {
                assert(!found.sessions@[i].key.names(room_id, slot_id));
            } else {
                assert(!found.sessions@[index].key.names(room_id, here));
            }
            assert(here != slot_id);
            assert(found.sessions@[i] == held.sessions@[i]);
        }
    }
    assert(after.has_at(room_id, slot_id, index));
    lemma_slots_named(before, held, after, members, room_id, n, index);
}

impl RtcSessionManager {
    /// Applies a room's current membership from both sources, sticky events and
    /// room state, as one.
    pub fn apply_membership(
        &mut self,
        room_id: &str,
        sticky: Vec<RawStickyEvent>,
        state: Vec<RawStickyEvent>,
    ) -> (applied: Result<(), EventConversionError>)
        requires
            old(self).wf(),
        ensures
            final(self).wf(),
            *final(self) == (RtcSessionManager { sessions: final(self).sessions, ..*old(self) }),
            exists|current: Seq<RawStickyEvent>|
                #[trigger] sticky_views(current) == merged(
                    sticky_views(sticky@),
                    sticky_views(state@),
                ) && match applied {
                    Ok(()) => {
                        &&& all_readable(current, room_id@)
                        &&& old(self).replaced(room_id@, current, *final(self))
                    },
                    Err(error) => {
                        &&& *final(self) == *old(self)
                        &&& refused_for(current, room_id@, error)
                    },
                },
    {
        let current: Vec<RawStickyEvent> = merge_sources(sticky, state);
        let ghost whole = current@;
        let applied = self.set_current_sticky_state(room_id, current);
        assert(sticky_views(whole) == merged(sticky_views(sticky@), sticky_views(state@)));
        applied
    }
}

/// An empty membership empties the room: every session there is left with nobody.
pub proof fn law_empty_membership_empties_the_room(
    before: RtcSessionManager,
    after: RtcSessionManager,
    room_id: Seq<char>,
    i: int,
)
    requires
        before.replaced(room_id, Seq::empty(), after),
        0 <= i < after.sessions@.len(),
        after.sessions@[i].key.room_id@ == room_id,
    ensures
        after.sessions@[i].session.candidates@.len() == 0,
        after.sessions@[i].session.roster().len() == 0,
{
    let none = Seq::<RawStickyEvent>::empty();
    let slot_id = after.sessions@[i].key.slot_id@;
    reveal(Seq::filter);
    assert(relevant(none, room_id) =~= none);
    assert(none.filter(joins(slot_id)) =~= none);
    assert(holds_joins(after.sessions@[i].session.candidates@, none, slot_id));
}

/// Membership is replaced, not merged: whoever is in a session of the room after
/// an update was joined to it by an event of that update.
pub proof fn law_membership_is_replaced(
    before: RtcSessionManager,
    after: RtcSessionManager,
    room_id: Seq<char>,
    events: Seq<RawStickyEvent>,
    i: int,
    k: int,
)
    requires
        before.replaced(room_id, events, after),
        0 <= i < after.sessions@.len(),
        after.sessions@[i].key.room_id@ == room_id,
        0 <= k < after.sessions@[i].session.candidates@.len(),
    ensures
        exists|e: int|
            0 <= e < events.len() && (#[trigger] events[e]).is_joined_as(
                after.sessions@[i].session.candidates@[k],
            ) && events[e].content.slot_id@ == after.sessions@[i].key.slot_id@,
{
    let slot_id = after.sessions@[i].key.slot_id@;
    let members = relevant(events, room_id);
    let joining = members.filter(joins(slot_id));
    let candidate = after.sessions@[i].session.candidates@[k];
    assert(holds_joins(after.sessions@[i].session.candidates@, members, slot_id));
    assert(joining[k].is_joined_as(candidate));
    members.lemma_filter_pred(joins(slot_id), k);
    assert(joining.contains(joining[k]));
    members.lemma_filter_contains_rev(joins(slot_id), joining[k]);
    events.lemma_filter_contains_rev(is_member_of(room_id), joining[k]);
    let e = choose|e: int| 0 <= e < events.len() && events[e] == joining[k];
    assert(events[e].is_joined_as(candidate));
}

/// Memberships read from one event say the same.
proof fn lemma_read_alike(event: RawStickyEvent, a: JoinedMembership, b: JoinedMembership)
    requires
        event.is_joined_as(a),
        event.is_joined_as(b),
    ensures
        a.same_as(b),
{
    match event.content.transports {
        Some(transports) => {
            assert forall|i: int| 0 <= i < a.transports@.len() implies alike(
                #[trigger] a.transports@[i],
                b.transports@[i],
            ) by {}
        },
        None => {
            assert(texts(a.can_subscribe@) =~= texts(b.can_subscribe@));
        },
    }
}

/// Lists that say the same are filtered alike.
proof fn lemma_filtered_alike(
    a: Seq<JoinedMembership>,
    b: Seq<JoinedMembership>,
    keep_a: spec_fn(JoinedMembership) -> bool,
    keep_b: spec_fn(JoinedMembership) -> bool,
)
    requires
        same_members(a, b),
        forall|i: int| 0 <= i < a.len() ==> keep_a(#[trigger] a[i]) == keep_b(b[i]),
    ensures
        same_members(a.filter(keep_a), b.filter(keep_b)),
    decreases a.len(),
{
    reveal(Seq::filter);
    if a.len() > 0 {
        let fewer_a = a.drop_last();
        let fewer_b = b.drop_last();
        assert forall|i: int| 0 <= i < fewer_a.len() implies (#[trigger] fewer_a[i]).same_as(
            fewer_b[i],
        ) && keep_a(fewer_a[i]) == keep_b(fewer_b[i]) by {
            assert(a[i].same_as(b[i]));
            assert(keep_a(a[i]) == keep_b(b[i]));
        }
        lemma_filtered_alike(fewer_a, fewer_b, keep_a, keep_b);
        assert(a.last().same_as(b.last()));
        assert(keep_a(a[a.len() - 1]) == keep_b(b[a.len() - 1]));
    }
}

/// Applying the same membership once more says nothing new: no session comes up,
/// and every session of the room has the same members in the same order.
pub proof fn law_reapplying_says_nothing_new(
    before: RtcSessionManager,
    once: RtcSessionManager,
    twice: RtcSessionManager,
    room_id: Seq<char>,
    events: Seq<RawStickyEvent>,
    i: int,
)
    requires
        before.replaced(room_id, events, once),
        once.replaced(room_id, events, twice),
        once.wf(),
        twice.wf(),
        twice == (RtcSessionManager { sessions: twice.sessions, ..once }),
        0 <= i < twice.sessions@.len(),
    ensures
        twice.sessions@.len() == once.sessions@.len(),
        twice.sessions@[i].key == once.sessions@[i].key,
        same_members(twice.sessions@[i].session.roster(), once.sessions@[i].session.roster()),
{
    let members = relevant(events, room_id);
    if once.sessions@.len() < twice.sessions@.len() {
        let j = once.sessions@.len() as int;
        let slot_id = twice.sessions@[j].key.slot_id@;
        let k = choose|k: int|
            0 <= k < members.len() && (#[trigger] members[k]).content.slot_id@ == slot_id;
        assert(once.has(room_id, members[k].content.slot_id@));
        let held = choose|held: int| once.has_at(room_id, slot_id, held);
        assert(twice.sessions@[held].key == once.sessions@[held].key);
        assert(!twice.sessions@[held].key.names(
            twice.sessions@[j].key.room_id@,
            twice.sessions@[j].key.slot_id@,
        ));
    }
    let now = twice.sessions@[i].session;
    let then = once.sessions@[i].session;
    if twice.sessions@[i].key.room_id@ == room_id {
        let slot_id = twice.sessions@[i].key.slot_id@;
        assert(holds_joins(now.candidates@, members, slot_id));
        assert(holds_joins(then.candidates@, members, slot_id));
        let joining = members.filter(joins(slot_id));
        assert forall|c: int| 0 <= c < now.candidates@.len() implies (
        #[trigger] now.candidates@[c]).same_as(then.candidates@[c]) by {
            assert(joining[c].is_joined_as(now.candidates@[c]));
            assert(joining[c].is_joined_as(then.candidates@[c]));
            lemma_read_alike(joining[c], now.candidates@[c], then.candidates@[c]);
        }
        assert(twice.governs(twice.sessions@[i]));
        assert(once.governs(once.sessions@[i]));
        let keep_now = |candidate: JoinedMembership| now.counts(candidate);
        let keep_then = |candidate: JoinedMembership| then.counts(candidate);
        assert forall|c: int| 0 <= c < now.candidates@.len() implies keep_now(
            #[trigger] now.candidates@[c],
        ) == keep_then(then.candidates@[c]) by {
            assert(now.candidates@[c].same_as(then.candidates@[c]));
        }
        lemma_filtered_alike(now.candidates@, then.candidates@, keep_now, keep_then);
    } else {
        assert(twice.sessions@[i] == once.sessions@[i]);
        assert forall|c: int| 0 <= c < then.roster().len() implies (
        #[trigger] then.roster()[c]).same_as(then.roster()[c]) by {}
    }
}

} // verus!
