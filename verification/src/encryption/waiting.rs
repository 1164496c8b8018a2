//! Keys that arrive before the membership they belong to.

use vstd::prelude::*;
use crate::encryption::inbound::{
    event_view, membership_refusal, EventView, InboundView, KeyEvent, PendingView,
};
use crate::encryption::laws::{
    law_filter_places_are_distinct, lemma_stored_material, material_at,
};
use crate::encryption::outbound::find_membership;
use crate::encryption::rollouts::law_member_is_found_by_its_id;
use crate::encryption::signals::MembershipsUpdate;
use crate::encryption::types::{
    filter_key, recent_entries, InboundKeyView, KeyOrigin, ReceivedEncryptionKey,
};
use crate::encryption::EncryptionManager;
use crate::error::CommandError;
use crate::session::JoinedMembership;
use crate::text::text_of;

verus! {

/// Whether no membership has a member id.
pub open spec fn nobody_is(memberships: Seq<JoinedMembership>, member_id: Seq<char>) -> bool {
    forall|i: int|
        0 <= i < memberships.len() ==> (#[trigger] memberships[i]).member_id@ != member_id
}

/// Whether a held key belongs to none of the memberships.
pub open spec fn is_early(memberships: Seq<JoinedMembership>) -> spec_fn(PendingView) -> bool {
    |pending: PendingView| nobody_is(memberships, pending.key.member_id)
}

proof fn lemma_nobody(memberships: Seq<JoinedMembership>, member_id: Seq<char>)
    ensures
        find_membership(memberships, member_id) is None <==> nobody_is(memberships, member_id),
{
    law_member_is_found_by_its_id(memberships, member_id);
    if !nobody_is(memberships, member_id) {
        let i = choose|i: int|
            0 <= i < memberships.len() && (#[trigger] memberships[i]).member_id@ == member_id;
        assert(memberships[i].member_id@ == member_id);
    }
}

/// After held keys were checked against the memberships known, exactly those still
/// wait that belong to none of them, in order and with how they reached us.
pub proof fn law_keys_wait_for_their_member(
    inbound: InboundView,
    ttl_ms: u64,
    pending: Seq<PendingView>,
    memberships: Seq<JoinedMembership>,
)
    ensures
        inbound.settle(ttl_ms, pending, memberships).0.waiting == pending.filter(
            is_early(memberships),
        ),
    decreases pending.len(),
{
    reveal(Seq::filter);
    if pending.len() > 0 {
        law_keys_wait_for_their_member(inbound, ttl_ms, pending.drop_last(), memberships);
        lemma_nobody(memberships, pending.last().key.member_id);
    }
}

/// A membership change keeps exactly those keys waiting that belong to no member
/// known by then. So a key that came before its member event is held until that
/// event comes, however many other changes come between.
pub proof fn law_early_key_outlasts_other_changes(
    manager: EncryptionManager,
    memberships: Seq<JoinedMembership>,
    now: u64,
    after: EncryptionManager,
    update: MembershipsUpdate,
    pending: PendingView,
)
    requires
        manager.config.manage_media_keys,
        manager.updated(memberships, now, after, update),
    ensures
        after.inbound().waiting == manager.inbound().waiting.filter(is_early(memberships)),
        manager.inbound().waiting.contains(pending) && nobody_is(
            memberships,
            pending.key.member_id,
        ) ==> after.inbound().waiting.contains(pending),
{
    let waiting = manager.inbound().waiting;
    law_keys_wait_for_their_member(
        manager.inbound(),
        manager.key_buffer.buffer_ttl_ms,
        waiting,
        memberships,
    );
    let settled = choose|settled: EncryptionManager|
        {
            &&& #[trigger] manager.same_but_inbound(settled)
            &&& settled.inbound() == manager.inbound().settle(
                manager.key_buffer.buffer_ttl_ms,
                waiting,
                memberships,
            ).0
            &&& if settled.owes_signal() {
                settled.signalled(
                    settled.outbound_key->0.key@,
                    settled.outbound_key->0.key_index,
                    0,
                    now,
                    after,
                    update.own_signal,
                )
            } else {
                update.own_signal is None && after == settled
            }
        };
    assert(after.inbound() == settled.inbound());
    if waiting.contains(pending) && nobody_is(memberships, pending.key.member_id) {
        let i = choose|i: int| 0 <= i < waiting.len() && waiting[i] == pending;
        waiting.lemma_filter_contains(is_early(memberships), i);
    }
}

/// A key that passes the checks that need no membership, and whose member nobody
/// is yet, is held as it came, and nobody is told.
pub proof fn law_early_key_is_held(
    manager: EncryptionManager,
    received: ReceivedEncryptionKey,
    bytes: Seq<u8>,
    memberships: Seq<JoinedMembership>,
    now: u64,
    after: EncryptionManager,
    outcome: Result<Option<KeyEvent>, CommandError>,
)
    requires
        manager.received(received, Ok(bytes), memberships, now, after, outcome),
        received.room_id@ == manager.room_id@,
        received.origin matches KeyOrigin::Encrypted { sender_is_cross_signed, .. }
            && sender_is_cross_signed,
        nobody_is(memberships, received.member_id@),
    ensures
        outcome matches Ok(None),
        after.inbound() == (InboundView {
            waiting: manager.inbound().waiting.push(
                PendingView {
                    key: InboundKeyView {
                        key: bytes,
                        key_index: received.key_index,
                        member_id: received.member_id@,
                        creation_ts: now,
                    },
                    origin: received.origin,
                },
            ),
            ..manager.inbound()
        }),
{
    lemma_nobody(memberships, received.member_id@);
}

/// Whether a key that came from `origin` came from the very device a membership
/// names.
pub open spec fn is_from(origin: KeyOrigin, membership: JoinedMembership) -> bool {
    origin matches KeyOrigin::Encrypted { sender_user_id, sender_device_id, .. }
        && sender_user_id@ == membership.sender@ && membership.origin.device() is Some && text_of(
        sender_device_id,
    ) == membership.origin.device()
}

proof fn lemma_accepted_elsewhere(
    inbound: InboundView,
    ttl_ms: u64,
    key: InboundKeyView,
    origin: KeyOrigin,
    membership: JoinedMembership,
    member_id: Seq<char>,
    key_index: u8,
)
    requires
        !(key.member_id == member_id && key.key_index == key_index),
    ensures
        ({
            let after = inbound.accept(ttl_ms, key, origin, membership).0;
            let place = filter_key(member_id, key_index);
            &&& material_at(after.held(member_id), key_index) == material_at(
                inbound.held(member_id),
                key_index,
            )
            &&& after.seen.contains_key(place) ==> inbound.seen.contains_key(place)
                && after.seen[place] == inbound.seen[place]
        }),
{
    let place = filter_key(member_id, key_index);
    if filter_key(key.member_id, key.key_index) == place {
        law_filter_places_are_distinct(key.member_id, key.key_index, member_id, key_index);
    }
    let recent = recent_entries(inbound.seen, key.creation_ts, ttl_ms);
    assert(recent.contains_key(place) ==> inbound.seen.contains_key(place));
    lemma_stored_material(inbound.held(key.member_id), key, key_index);
}

proof fn lemma_settled_elsewhere(
    inbound: InboundView,
    ttl_ms: u64,
    pending: Seq<PendingView>,
    memberships: Seq<JoinedMembership>,
    member_id: Seq<char>,
    key_index: u8,
)
    requires
        forall|j: int|
            0 <= j < pending.len() ==> !((#[trigger] pending[j]).key.member_id == member_id
                && pending[j].key.key_index == key_index),
    ensures
        ({
            let after = inbound.settle(ttl_ms, pending, memberships).0;
            let place = filter_key(member_id, key_index);
            &&& material_at(after.held(member_id), key_index) == material_at(
                inbound.held(member_id),
                key_index,
            )
            &&& after.seen.contains_key(place) ==> inbound.seen.contains_key(place)
                && after.seen[place] == inbound.seen[place]
        }),
    decreases pending.len(),
{
    if pending.len() > 0 {
        let rest = pending.drop_last();
        let next = pending.last();
        assert forall|j: int| 0 <= j < rest.len() implies !((
        #[trigger] rest[j]).key.member_id == member_id && rest[j].key.key_index == key_index) by {
            assert(rest[j] == pending[j]);
        }
        assert(pending[pending.len() - 1] == next);
        lemma_settled_elsewhere(inbound, ttl_ms, rest, memberships, member_id, key_index);
        let earlier = inbound.settle(ttl_ms, rest, memberships).0;
        match find_membership(memberships, next.key.member_id) {
            Some(membership) => {
                lemma_accepted_elsewhere(
                    earlier,
                    ttl_ms,
                    next.key,
                    next.origin,
                    membership,
                    member_id,
                    key_index,
                );
            },
            None => {},
        }
    }
}

/// Once the member of a held key is known, and the key came from that member's very
/// device, the key is what its index holds, and if that is news it is told as
/// usable at once. Left out are indices for which several keys are held, of which
/// only one can stay, and a key older than one already seen.
pub proof fn law_held_key_is_used_once_its_member_is_known(
    inbound: InboundView,
    ttl_ms: u64,
    pending: Seq<PendingView>,
    memberships: Seq<JoinedMembership>,
    at: int,
    membership: JoinedMembership,
)
    requires
        0 <= at < pending.len(),
        find_membership(memberships, pending[at].key.member_id) == Some(membership),
        is_from(pending[at].origin, membership),
        forall|j: int|
            0 <= j < pending.len() && j != at ==> !((#[trigger] pending[j]).key.member_id
                == pending[at].key.member_id && pending[j].key.key_index
                == pending[at].key.key_index),
        ({
            let place = filter_key(pending[at].key.member_id, pending[at].key.key_index);
            inbound.seen.contains_key(place) ==> inbound.seen[place]
                <= pending[at].key.creation_ts
        }),
    ensures
        ({
            let key = pending[at].key;
            let (after, events) = inbound.settle(ttl_ms, pending, memberships);
            &&& material_at(after.held(key.member_id), key.key_index) == Some(key.key)
            &&& material_at(inbound.held(key.member_id), key.key_index) != Some(key.key)
                ==> exists|e: int|
                0 <= e < events.len() && (#[trigger] events[e] matches EventView::Usable(signal)
                    && signal.key == key.key && signal.key_index == key.key_index
                    && signal.use_after_ms == 0 && signal.subject.member_id
                    == membership.member_id@ && signal.subject.user_id == membership.sender@
                    && !signal.subject.is_own)
        }),
    decreases pending.len(),
{
    let key = pending[at].key;
    let rest = pending.drop_last();
    let next = pending.last();
    let (earlier, told) = inbound.settle(ttl_ms, rest, memberships);
    let (after, events) = inbound.settle(ttl_ms, pending, memberships);
    if at == pending.len() - 1 {
        assert forall|j: int| 0 <= j < rest.len() implies !((
        #[trigger] rest[j]).key.member_id == key.member_id && rest[j].key.key_index
            == key.key_index) by {
            assert(rest[j] == pending[j]);
        }
        lemma_settled_elsewhere(
            inbound,
            ttl_ms,
            rest,
            memberships,
            key.member_id,
            key.key_index,
        );
        assert(membership_refusal(next.origin, membership) is None);
        lemma_stored_material(earlier.held(key.member_id), key, key.key_index);
        if material_at(inbound.held(key.member_id), key.key_index) != Some(key.key) {
            let e = told.len() as int;
            assert(events[e] matches EventView::Usable(signal) && signal.key == key.key);
        }
    } else {
        assert(rest[at] == pending[at]);
        assert forall|j: int| 0 <= j < rest.len() && j != at implies !((
        #[trigger] rest[j]).key.member_id == rest[at].key.member_id && rest[j].key.key_index
            == rest[at].key.key_index) by {
            assert(rest[j] == pending[j]);
        }
        law_held_key_is_used_once_its_member_is_known(
            inbound,
            ttl_ms,
            rest,
            memberships,
            at,
            membership,
        );
        assert(pending[pending.len() - 1] == next);
        match find_membership(memberships, next.key.member_id) {
            Some(other) => {
                lemma_accepted_elsewhere(
                    earlier,
                    ttl_ms,
                    next.key,
                    next.origin,
                    other,
                    key.member_id,
                    key.key_index,
                );
            },
            None => {},
        }
        if material_at(inbound.held(key.member_id), key.key_index) != Some(key.key) {
            let e = choose|e: int|
                0 <= e < told.len() && (#[trigger] told[e] matches EventView::Usable(signal)
                    && signal.key == key.key && signal.key_index == key.key_index
                    && signal.use_after_ms == 0 && signal.subject.member_id
                    == membership.member_id@ && signal.subject.user_id == membership.sender@
                    && !signal.subject.is_own);
            assert(events[e] == told[e]);
        }
    }
}

/// A key of a known member that came from the member's very device and is cross
/// signed is what its index holds from then on, whatever it held; unless a later
/// reading of the clock was seen for that index, which is left out. The application
/// is told if that is news and it is told of keys at all.
pub proof fn law_genuine_key_is_held(
    manager: EncryptionManager,
    received: ReceivedEncryptionKey,
    bytes: Seq<u8>,
    memberships: Seq<JoinedMembership>,
    membership: JoinedMembership,
    now: u64,
    after: EncryptionManager,
    outcome: Result<Option<KeyEvent>, CommandError>,
)
    requires
        manager.received(received, Ok(bytes), memberships, now, after, outcome),
        received.room_id@ == manager.room_id@,
        received.origin matches KeyOrigin::Encrypted { sender_is_cross_signed, .. }
            && sender_is_cross_signed,
        find_membership(memberships, received.member_id@) == Some(membership),
        is_from(received.origin, membership),
        forall|place: Seq<char>| #[trigger]
            manager.inbound().seen.contains_key(place) ==> manager.inbound().seen[place] <= now,
    ensures
        outcome is Ok,
        material_at(after.inbound().held(received.member_id@), received.key_index) == Some(bytes),
        after.inbound().waiting == manager.inbound().waiting,
        manager.has_signal_handler && manager.config.manage_media_keys && material_at(
            manager.inbound().held(received.member_id@),
            received.key_index,
        ) != Some(bytes) ==> (outcome matches Ok(Some(KeyEvent::Usable(signal))) && signal.key@
            == bytes && signal.key_index == received.key_index && signal.use_after_ms == 0
            && signal.subject.user_id@ == membership.sender@ && signal.subject.member_id@
            == membership.member_id@ && !signal.subject.is_own),
{
    let key = manager.received_key(received, bytes, now);
    let recent = recent_entries(manager.inbound().seen, now, manager.key_buffer.buffer_ttl_ms);
    let place = filter_key(key.member_id, key.key_index);
    assert(recent.contains_key(place) ==> manager.inbound().seen.contains_key(place));
    assert(membership_refusal(received.origin, membership) is None);
    lemma_stored_material(manager.inbound().held(key.member_id), key, key.key_index);
    if outcome is Ok {
        assert(event_view(outcome->Ok_0) is Some <==> outcome->Ok_0 is Some);
    }
}

} // verus!
