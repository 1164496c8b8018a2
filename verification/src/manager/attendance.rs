//! Who is in the sessions of a room, in terms of the room's events.

use vstd::prelude::*;
use crate::compat::element_call_state::StateEventView;
use crate::compat::ingest::{
    current_membership, has_key, member_events, merged, state_member_events, sticky_views,
    MemberInView, StickyView,
};
use crate::compat::reading::{
    begins_at, is_join_of, lasts, law_lasting_membership_is_read_as_a_join, member_in, names_sound_focus,
    slot_in,
};
use crate::event::RawStickyEvent;
use crate::json::JsonView;
use crate::manager::membership::{holds_joins, is_member_of, joins, relevant};
use crate::manager::RtcSessionManager;
use crate::roster::RtcSession;
use crate::seqs::{lemma_filter_adds_no_order, lemma_filter_keeps_order};
use crate::session::{JoinedMembership, Membership};
use crate::slot::RoomEncryption;
use crate::text::{text_of, texts};

verus! {

/// Whether an event says that its sender is in a slot of a room.
pub open spec fn announces(
    event: RawStickyEvent,
    room_id: Seq<char>,
    slot_id: Seq<char>,
) -> bool {
    &&& event.room_id@ == room_id
    &&& event.event_type@ == "m.rtc.member"@ || event.event_type@
        == "org.matrix.msc4143.rtc.member"@
    &&& event.content.slot_id@ == slot_id
    &&& event.content.member.membership matches Some(membership) && membership == Membership::Join
    &&& event.content.member.id matches Some(id) && id@.len() > 0
    &&& event.content.application.application_type matches Some(text) && text@.len() > 0
}

/// Whether a candidate is who an event says is there.
pub open spec fn is_who(candidate: JoinedMembership, event: RawStickyEvent) -> bool {
    &&& candidate.room_id == event.room_id
    &&& candidate.slot_id == event.content.slot_id
    &&& candidate.sender == event.sender
    &&& candidate.origin == event.origin
    &&& candidate.sticky_key == event.content.sticky_key
    &&& event.content.member.id == Some(candidate.member_id)
    &&& candidate.membership_event_id == event.event_id
    &&& candidate.membership_ts == event.content.created_ts
    &&& candidate.application == event.content.application.application_type
    &&& event.content.transports is None ==> candidate.transports@.len() == 0
    &&& event.content.transports matches Some(transports) ==> {
        &&& candidate.transports@.len() == transports.published@.len()
        &&& forall|i: int|
            0 <= i < transports.published@.len() ==> #[trigger] candidate.transports@[i]
                == transports.published@[i].typed()
        &&& candidate.can_subscribe == transports.can_subscribe
    }
}

/// Applying a room's membership puts everybody in whom it announces: for every event
/// that says its sender is in a slot there is a session of that slot with a candidate
/// who is that sender.
pub proof fn law_whoever_is_announced_is_a_candidate(
    before: RtcSessionManager,
    room_id: Seq<char>,
    events: Seq<RawStickyEvent>,
    after: RtcSessionManager,
    e: int,
)
    requires
        before.replaced(room_id, events, after),
        0 <= e < events.len(),
        announces(events[e], room_id, events[e].content.slot_id@),
    ensures
        exists|i: int, c: int|
            0 <= i < after.sessions@.len() && after.sessions@[i].key.room_id@ == room_id
                && after.sessions@[i].key.slot_id@ == events[e].content.slot_id@ && 0 <= c
                < after.sessions@[i].session.candidates@.len() && is_who(
                #[trigger] after.sessions@[i].session.candidates@[c],
                events[e],
            ),
{
    let slot_id = events[e].content.slot_id@;
    let members = relevant(events, room_id);
    events.lemma_filter_contains(is_member_of(room_id), e);
    let m = choose|m: int| 0 <= m < members.len() && members[m] == events[e];
    assert(after.has(room_id, members[m].content.slot_id@));
    let i = choose|i: int| after.has_at(room_id, slot_id, i);
    members.lemma_filter_contains(joins(slot_id), m);
    let joining = members.filter(joins(slot_id));
    let c = choose|c: int| 0 <= c < joining.len() && joining[c] == members[m];
    let candidates = after.sessions@[i].session.candidates@;
    assert(holds_joins(candidates, members, slot_id));
    assert(joining[c].is_joined_as(candidates[c]));
    assert(is_who(after.sessions@[i].session.candidates@[c], events[e]));
}

/// Applying a room's membership puts nobody else in: every candidate of a session of
/// the room is whom an event announces in its slot.
pub proof fn law_every_candidate_was_announced(
    before: RtcSessionManager,
    room_id: Seq<char>,
    events: Seq<RawStickyEvent>,
    after: RtcSessionManager,
    i: int,
    c: int,
)
    requires
        before.replaced(room_id, events, after),
        0 <= i < after.sessions@.len(),
        after.sessions@[i].key.room_id@ == room_id,
        0 <= c < after.sessions@[i].session.candidates@.len(),
    ensures
        exists|e: int|
            0 <= e < events.len() && announces(
                #[trigger] events[e],
                room_id,
                after.sessions@[i].key.slot_id@,
            ) && is_who(after.sessions@[i].session.candidates@[c], events[e]),
{
    let slot_id = after.sessions@[i].key.slot_id@;
    let members = relevant(events, room_id);
    let joining = members.filter(joins(slot_id));
    assert(holds_joins(after.sessions@[i].session.candidates@, members, slot_id));
    assert(joining[c].is_joined_as(after.sessions@[i].session.candidates@[c]));
    members.lemma_filter_pred(joins(slot_id), c);
    assert(joining.contains(joining[c]));
    members.lemma_filter_contains_rev(joins(slot_id), joining[c]);
    let m = choose|m: int| 0 <= m < members.len() && members[m] == joining[c];
    events.lemma_filter_pred(is_member_of(room_id), m);
    assert(members.contains(members[m]));
    events.lemma_filter_contains_rev(is_member_of(room_id), members[m]);
    let e = choose|e: int| 0 <= e < events.len() && events[e] == members[m];
    assert(announces(events[e], room_id, slot_id));
}

/// The candidates of a session come in the order in which they were announced, each
/// by an event of its own.
pub proof fn law_candidates_come_in_order(
    before: RtcSessionManager,
    room_id: Seq<char>,
    events: Seq<RawStickyEvent>,
    after: RtcSessionManager,
    i: int,
    c: int,
    d: int,
)
    requires
        before.replaced(room_id, events, after),
        0 <= i < after.sessions@.len(),
        after.sessions@[i].key.room_id@ == room_id,
        0 <= c < d < after.sessions@[i].session.candidates@.len(),
    ensures
        exists|e: int, f: int|
            0 <= e < f < events.len() && is_who(
                after.sessions@[i].session.candidates@[c],
                #[trigger] events[e],
            ) && is_who(after.sessions@[i].session.candidates@[d], #[trigger] events[f]),
{
    let slot_id = after.sessions@[i].key.slot_id@;
    let members = relevant(events, room_id);
    let joining = members.filter(joins(slot_id));
    let candidates = after.sessions@[i].session.candidates@;
    assert(holds_joins(candidates, members, slot_id));
    lemma_filter_adds_no_order(members, joins(slot_id), c, d);
    let (m, n) = choose|m: int, n: int|
        0 <= m < n < members.len() && #[trigger] members[m] == joining[c] && #[trigger] members[n]
            == joining[d];
    lemma_filter_adds_no_order(events, is_member_of(room_id), m, n);
    let (e, f) = choose|e: int, f: int|
        0 <= e < f < events.len() && #[trigger] events[e] == members[m] && #[trigger] events[f]
            == members[n];
    assert(joining[c].is_joined_as(candidates[c]));
    assert(joining[d].is_joined_as(candidates[d]));
    assert(is_who(candidates[c], events[e]) && is_who(candidates[d], events[f]));
}

/// Of two events that announce somebody in one slot each has a candidate of its own,
/// and the first comes first.
pub proof fn law_first_announced_comes_first(
    before: RtcSessionManager,
    room_id: Seq<char>,
    events: Seq<RawStickyEvent>,
    after: RtcSessionManager,
    i: int,
    e: int,
    f: int,
)
    requires
        before.replaced(room_id, events, after),
        0 <= i < after.sessions@.len(),
        after.sessions@[i].key.room_id@ == room_id,
        0 <= e < f < events.len(),
        announces(events[e], room_id, after.sessions@[i].key.slot_id@),
        announces(events[f], room_id, after.sessions@[i].key.slot_id@),
    ensures
        exists|c: int, d: int|
            0 <= c < d < after.sessions@[i].session.candidates@.len() && is_who(
                #[trigger] after.sessions@[i].session.candidates@[c],
                events[e],
            ) && is_who(#[trigger] after.sessions@[i].session.candidates@[d], events[f]),
{
    let slot_id = after.sessions@[i].key.slot_id@;
    let members = relevant(events, room_id);
    let joining = members.filter(joins(slot_id));
    let candidates = after.sessions@[i].session.candidates@;
    assert(holds_joins(candidates, members, slot_id));
    lemma_filter_keeps_order(events, is_member_of(room_id), e, f);
    let (m, n) = choose|m: int, n: int|
        0 <= m < n < members.len() && #[trigger] members[m] == events[e] && #[trigger] members[n]
            == events[f];
    lemma_filter_keeps_order(members, joins(slot_id), m, n);
    let (c, d) = choose|c: int, d: int|
        0 <= c < d < joining.len() && #[trigger] joining[c] == members[m] && #[trigger] joining[d]
            == members[n];
    assert(joining[c].is_joined_as(candidates[c]));
    assert(joining[d].is_joined_as(candidates[d]));
    assert(is_who(candidates[c], events[e]) && is_who(candidates[d], events[f]));
}

/// Applying a room's membership concerns that room alone, and never our own part: in
/// other rooms every session is as it was, in this one every session that was there
/// still is, and our part in each is what it was.
pub proof fn law_membership_is_of_one_room(
    before: RtcSessionManager,
    room_id: Seq<char>,
    events: Seq<RawStickyEvent>,
    after: RtcSessionManager,
    i: int,
)
    requires
        before.replaced(room_id, events, after),
        0 <= i < after.sessions@.len(),
    ensures
        i < before.sessions@.len() ==> after.sessions@[i].key == before.sessions@[i].key
            && after.sessions@[i].session.own == before.sessions@[i].session.own,
        i < before.sessions@.len() && before.sessions@[i].key.room_id@ != room_id
            ==> after.sessions@[i].session == before.sessions@[i].session,
        i >= before.sessions@.len() ==> after.sessions@[i].key.room_id@ == room_id
            && after.sessions@[i].session.own is None,
{
}

/// Every membership in the room's state that lasts is a candidate of its slot's
/// session once the room's membership was applied, from its sender and the device it
/// claims, under the member id it names and since it began, unless a sticky event has
/// that id. The foci that the memberships
/// prefer are objects of a type, which is all that a member event can carry; the last
/// instant of all is left out.
pub proof fn law_state_membership_is_a_candidate(
    before: RtcSessionManager,
    room_id: Seq<char>,
    sticky: Seq<MemberInView>,
    state: Seq<StateEventView>,
    now: u64,
    events: Seq<RawStickyEvent>,
    after: RtcSessionManager,
    e: int,
)
    requires
        sticky_views(events) == current_membership(room_id, sticky, state, now),
        before.replaced(room_id, events, after),
        now < u64::MAX,
        0 <= e < state.len(),
        lasts(state[e], now),
        forall|k: int| 0 <= k < state.len() ==> names_sound_focus((#[trigger] state[k]).content),
        forall|s: int|
            0 <= s < member_events(room_id, sticky).len() ==> (#[trigger] member_events(
                room_id,
                sticky,
            )[s]).content.sticky_key != member_in(state[e]),
    ensures
        exists|i: int, c: int|
            0 <= i < after.sessions@.len() && after.sessions@[i].key.room_id@ == room_id
                && after.sessions@[i].key.slot_id@ == slot_in(state[e].content) && 0 <= c
                < after.sessions@[i].session.candidates@.len() && (
            #[trigger] after.sessions@[i].session.candidates@[c]).sender@ == state[e].sender
                && after.sessions@[i].session.candidates@[c].member_id@ == member_in(state[e])
                && after.sessions@[i].session.candidates@[c].room_id@ == room_id
                && after.sessions@[i].session.candidates@[c].origin is Claimed
                && state[e].content.get("device_id"@) == Some(
                JsonView::Text(after.sessions@[i].session.candidates@[c].origin->device_id@),
            ) && text_of(after.sessions@[i].session.candidates@[c].membership_event_id)
                == state[e].event_id && after.sessions@[i].session.candidates@[c].membership_ts
                == Some(begins_at(state[e]) as u64),
{
    let read = state_member_events(room_id, state, now);
    let first = member_events(room_id, sticky);
    let keep = |event: StickyView| !has_key(first, event.content.sticky_key);
    let kept = read.filter(keep);
    law_lasting_membership_is_read_as_a_join(room_id, state, now, e);
    let r = choose|r: int|
        0 <= r < read.len() && is_join_of(#[trigger] read[r], room_id, state[e]);
    assert(keep(read[r]));
    read.lemma_filter_contains(keep, r);
    let k = choose|k: int| 0 <= k < kept.len() && kept[k] == read[r];
    let views = sticky_views(events);
    let at = first.len() + k;
    assert(views == merged(first, read));
    assert(views.len() == events.len());
    assert(merged(first, read) == first + kept);
    assert(at < views.len());
    assert(views[at] == read[r]);
    let event = events[at];
    assert(event@ == views[at]);
    assert(announces(event, room_id, event.content.slot_id@));
    law_whoever_is_announced_is_a_candidate(before, room_id, events, after, at);
    let (i, c) = choose|i: int, c: int|
        0 <= i < after.sessions@.len() && after.sessions@[i].key.room_id@ == room_id
            && after.sessions@[i].key.slot_id@ == event.content.slot_id@ && 0 <= c
            < after.sessions@[i].session.candidates@.len() && is_who(
            #[trigger] after.sessions@[i].session.candidates@[c],
            event,
        );
    assert(after.sessions@[i].session.candidates@[c].sender@ == state[e].sender);
}

/// Whether nothing known of a session's room speaks against a candidate.
pub open spec fn may_take_part(session: RtcSession, candidate: JoinedMembership) -> bool {
    &&& session.slot is None || session.slot->0 is Open
    &&& session.room_members matches Some(users) ==> exists|u: int|
        0 <= u < users@.len() && (#[trigger] users@[u])@ == candidate.sender@
    &&& session.encryption == RoomEncryption::Encrypted ==> !(candidate.origin is Cleartext)
    &&& session.own matches Some(own) ==> candidate.sender@ != own.user_id@
        || candidate.origin.device() != Some(own.device_id@) || candidate.member_id@
        == own.membership.sticky_key@
}

/// A candidate counts exactly if nothing known of the room speaks against it.
pub proof fn lemma_counts(session: RtcSession, candidate: JoinedMembership)
    ensures
        session.counts(candidate) == may_take_part(session, candidate),
{
    match session.room_members {
        Some(users) => {
            let names = texts(users@);
            if names.contains(candidate.sender@) {
                let u = choose|u: int| 0 <= u < names.len() && names[u] == candidate.sender@;
                assert(users@[u]@ == candidate.sender@);
            }
            if exists|u: int| 0 <= u < users@.len() && (#[trigger] users@[u])@ == candidate.sender@ {
                let u = choose|u: int|
                    0 <= u < users@.len() && (#[trigger] users@[u])@ == candidate.sender@;
                assert(names[u] == candidate.sender@);
            }
        },
        None => {},
    }
}

/// Whoever is in a session is a candidate that nothing known of the room speaks
/// against: the slot is open or not known, the sender is among the users that are in
/// the room where those are known, the event did not come in the clear where the room
/// is encrypted, and it is no earlier part of our own device. And every such candidate
/// is in the session.
pub proof fn law_roster_is_whoever_may_take_part(session: RtcSession, member: JoinedMembership)
    ensures
        session.roster().contains(member) <==> session.candidates@.contains(member)
            && may_take_part(session, member),
{
    let keep = |candidate: JoinedMembership| session.counts(candidate);
    let candidates = session.candidates@;
    lemma_counts(session, member);
    if candidates.contains(member) && keep(member) {
        let c = choose|c: int| 0 <= c < candidates.len() && candidates[c] == member;
        candidates.lemma_filter_contains(keep, c);
    }
    if session.roster().contains(member) {
        candidates.lemma_filter_contains_rev(keep, member);
        let r = choose|r: int| 0 <= r < session.roster().len() && session.roster()[r] == member;
        candidates.lemma_filter_pred(keep, r);
    }
}

/// Whoever is in a session comes in the order the candidates have.
pub proof fn law_roster_keeps_the_order(session: RtcSession, i: int, j: int)
    requires
        0 <= i < j < session.roster().len(),
    ensures
        exists|a: int, b: int|
            0 <= a < b < session.candidates@.len() && #[trigger] session.candidates@[a]
                == session.roster()[i] && #[trigger] session.candidates@[b] == session.roster()[j],
{
    lemma_filter_adds_no_order(
        session.candidates@,
        |candidate: JoinedMembership| session.counts(candidate),
        i,
        j,
    );
}

} // verus!
