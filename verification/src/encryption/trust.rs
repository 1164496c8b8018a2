//! Whose keys are trusted, and what the application is told of keys.

use vstd::prelude::*;
use crate::encryption::inbound::{
    event_view, membership_refusal, EventView, InboundView, KeyEvent,
};
use crate::encryption::laws::{law_filter_places_are_distinct, lemma_stored_material, material_at};
use crate::encryption::signals::{signal_views, MembershipsUpdate};
use crate::encryption::types::{
    filter_key, recent_entries, InboundKeyView, KeyMaterialSignal, KeyOrigin, KeyRejection,
    OutdatedKeyFilter, ReceivedEncryptionKey,
};
use crate::encryption::{EncryptionManager, PendingSignal};
use crate::error::CommandError;
use crate::session::JoinedMembership;
use crate::text::text_of;

verus! {

/// A key may speak for a membership exactly if its message came encrypted from the
/// user that the membership is of and, where it is known how the member event came,
/// from the very device that the event names. Where it may not, the first of these
/// that fails is the reason: it came in the clear, from another user, the member event
/// names no device to check, or it came from another device or none that is known.
pub proof fn law_key_speaks_only_for_its_sender(origin: KeyOrigin, membership: JoinedMembership)
    ensures
        membership_refusal(origin, membership) is None <==> (origin matches KeyOrigin::Encrypted {
            sender_user_id,
            sender_device_id,
            ..
        } && sender_user_id@ == membership.sender@ && (membership.origin is Unknown || (
        membership.origin.device() is Some && text_of(sender_device_id)
            == membership.origin.device()))),
        origin is Cleartext ==> membership_refusal(origin, membership) == Some(
            KeyRejection::Cleartext,
        ),
        origin matches KeyOrigin::Encrypted { sender_user_id, sender_device_id, .. } ==> {
            &&& sender_user_id@ != membership.sender@ ==> membership_refusal(origin, membership)
                == Some(
                KeyRejection::SenderMismatch {
                    expected: membership.sender,
                    actual: sender_user_id,
                },
            )
            &&& sender_user_id@ == membership.sender@ && (membership.origin is Cleartext || (
            membership.origin is Encrypted && membership.origin.device() is None))
                ==> membership_refusal(origin, membership) == Some(
                KeyRejection::UnverifiableDevice,
            )
            &&& sender_user_id@ == membership.sender@ && membership.origin.device() is Some
                && text_of(sender_device_id) != membership.origin.device() ==> {
                &&& membership_refusal(origin, membership) matches Some(
                    KeyRejection::DeviceMismatch { expected, actual },
                ) && Some(expected@) == membership.origin.device() && actual == sender_device_id
            }
        },
{
}

/// A key message that names another room, that came in the clear, or whose device is
/// not cross-signed where that is required, is refused for the first of these that
/// holds, whoever it claims to be from: nothing is kept of it, and whoever listens is
/// told of the refusal and of nothing else.
pub proof fn law_untrusted_key_is_refused(
    manager: EncryptionManager,
    received: ReceivedEncryptionKey,
    decoded: Result<Seq<u8>, Seq<char>>,
    memberships: Seq<JoinedMembership>,
    now: u64,
    after: EncryptionManager,
    outcome: Result<Option<KeyEvent>, CommandError>,
)
    requires
        manager.received(received, decoded, memberships, now, after, outcome),
        received.room_id@ != manager.room_id@ || received.origin is Cleartext || (
        manager.config.require_cross_signed_sender
            && !received.origin->sender_is_cross_signed),
    ensures
        after == manager,
        outcome is Ok,
        outcome->Ok_0 is Some <==> manager.has_signal_handler,
        outcome->Ok_0 is Some ==> outcome->Ok_0->0 is Refused && {
            let report = outcome->Ok_0->0->Refused_0;
            &&& report.member_id@ == received.member_id@
            &&& report.key_index == Some(received.key_index)
            &&& received.room_id@ != manager.room_id@ ==> report.reason == (
            KeyRejection::RoomMismatch { claimed: received.room_id })
            &&& received.room_id@ == manager.room_id@ && received.origin is Cleartext
                ==> report.reason == KeyRejection::Cleartext && report.sender_user_id is None
            &&& received.room_id@ == manager.room_id@ && received.origin is Encrypted
                ==> report.reason == KeyRejection::NotCrossSigned && text_of(report.sender_user_id)
                == Some(received.origin->sender_user_id@)
        },
{
    if outcome is Ok {
        assert(event_view(outcome->Ok_0) is Some <==> outcome->Ok_0 is Some);
        match outcome->Ok_0 {
            Some(event) => {
                assert(event_view(outcome->Ok_0) == Some(event@));
                match event {
                    KeyEvent::Usable(signal) => {
                        assert(event@ is Usable);
                    },
                    KeyEvent::Refused(report) => {
                        assert(event@ == EventView::Refused(report@));
                    },
                }
            },
            None => {},
        }
    }
}

/// A key of a member that the checks speak against changes nothing: what is held, what
/// was seen and what waits stays, and no key is told as usable.
pub proof fn law_key_of_somebody_else_changes_nothing(
    inbound: InboundView,
    ttl_ms: u64,
    key: InboundKeyView,
    origin: KeyOrigin,
    membership: JoinedMembership,
)
    requires
        !(origin matches KeyOrigin::Encrypted { sender_user_id, sender_device_id, .. }
            && sender_user_id@ == membership.sender@ && (membership.origin is Unknown || (
        membership.origin.device() is Some && text_of(sender_device_id)
            == membership.origin.device()))),
    ensures
        inbound.accept(ttl_ms, key, origin, membership).0 == inbound,
        inbound.accept(ttl_ms, key, origin, membership).1 matches Some(EventView::Refused(report))
            && report.member_id == key.member_id && report.key_index == Some(key.key_index),
{
    law_key_speaks_only_for_its_sender(origin, membership);
}

/// A key that cannot be decoded is an error, and nothing is kept of it.
pub proof fn law_undecodable_key_is_an_error(
    manager: EncryptionManager,
    received: ReceivedEncryptionKey,
    words: Seq<char>,
    memberships: Seq<JoinedMembership>,
    now: u64,
    after: EncryptionManager,
    outcome: Result<Option<KeyEvent>, CommandError>,
)
    requires
        manager.received(received, Err(words), memberships, now, after, outcome),
        received.room_id@ == manager.room_id@,
        received.origin is Encrypted,
        received.origin->sender_is_cross_signed,
    ensures
        after == manager,
        outcome matches Err(CommandError::SendError(text)) && text@ == "Failed to decode key: "@
            + words,
{
}

/// Of two keys for one index, the one that was received later stays, in whatever order
/// they are taken in: an older one that is taken in while the newer is remembered is
/// dropped without a word.
pub proof fn law_older_key_does_not_displace_a_newer_one(
    inbound: InboundView,
    ttl_ms: u64,
    newer: InboundKeyView,
    older: InboundKeyView,
    origin: KeyOrigin,
    membership: JoinedMembership,
)
    requires
        membership_refusal(origin, membership) is None,
        newer.member_id == older.member_id,
        newer.key_index == older.key_index,
        older.creation_ts < newer.creation_ts,
        ({
            let place = filter_key(newer.member_id, newer.key_index);
            inbound.seen.contains_key(place) ==> inbound.seen[place] <= newer.creation_ts
        }),
    ensures
        ({
            let mid = inbound.accept(ttl_ms, newer, origin, membership).0;
            let (after, told) = mid.accept(ttl_ms, older, origin, membership);
            &&& told is None
            &&& after.keys == mid.keys
            &&& after.waiting == mid.waiting
            &&& material_at(after.held(newer.member_id), newer.key_index) == Some(newer.key)
        }),
{
    let place = filter_key(newer.member_id, newer.key_index);
    let recent = recent_entries(inbound.seen, newer.creation_ts, ttl_ms);
    assert(recent.contains_key(place) ==> inbound.seen.contains_key(place));
    let mid = inbound.accept(ttl_ms, newer, origin, membership).0;
    lemma_stored_material(inbound.held(newer.member_id), newer, newer.key_index);
    assert(mid.seen.contains_key(place) && mid.seen[place] == newer.creation_ts);
    let later = recent_entries(mid.seen, older.creation_ts, ttl_ms);
    assert(later.contains_key(place) && later[place] == newer.creation_ts);
}

/// The filter for outdated keys drops a key exactly if a later one of its member and
/// index got through before: after one that did, exactly the earlier ones are
/// dropped, and a key of another member or index is judged as it would have been.
pub proof fn law_filter_drops_what_is_older(
    filter: OutdatedKeyFilter,
    member_id: Seq<char>,
    key_index: u8,
    first: u64,
    mid: OutdatedKeyFilter,
    other_id: Seq<char>,
    other_index: u8,
    second: u64,
    after: OutdatedKeyFilter,
    outdated: bool,
)
    requires
        filter.checked(member_id, key_index, first, mid, false),
        mid.checked(other_id, other_index, second, after, outdated),
    ensures
        other_id == member_id && other_index == key_index ==> (outdated <==> second < first),
        other_id != member_id || other_index != key_index ==> (outdated <==> filter.outdates(
            other_id,
            other_index,
            second,
        )),
        outdated ==> after.buffer@ == mid.buffer@,
        !outdated ==> !after.outdates(other_id, other_index, second),
{
    if filter_key(other_id, other_index) == filter_key(member_id, key_index) && (other_id
        != member_id || other_index != key_index) {
        law_filter_places_are_distinct(other_id, other_index, member_id, key_index);
    }
}

/// Cleaning up forgets exactly what is older than the filter remembers.
pub proof fn law_filter_forgets_in_time(
    filter: OutdatedKeyFilter,
    member_id: Seq<char>,
    key_index: u8,
    at: u64,
    mid: OutdatedKeyFilter,
    now: u64,
)
    requires
        filter.checked(member_id, key_index, at, mid, false),
    ensures
        mid.cleaned(now).contains_key(filter_key(member_id, key_index)) <==> now - at
            <= filter.buffer_ttl_ms,
        forall|place: Seq<char>| #[trigger]
            mid.cleaned(now).contains_key(place) ==> mid.buffer@.contains_key(place)
                && mid.cleaned(now)[place] == mid.buffer@[place],
{
}

/// A membership update tells the application of our own key exactly if it did not know
/// of it yet and is told of keys at all: usable at once, as ours. It calls for a
/// distribution exactly if there is a key of ours to distribute. Where media keys are
/// not managed nothing comes of it.
pub proof fn law_update_tells_of_our_key_once(
    manager: EncryptionManager,
    memberships: Seq<JoinedMembership>,
    now: u64,
    after: EncryptionManager,
    update: MembershipsUpdate,
)
    requires
        manager.updated(memberships, now, after, update),
    ensures
        update.distribute <==> manager.config.manage_media_keys && manager.outbound_key is Some,
        update.own_signal is Some <==> manager.config.manage_media_keys
            && manager.has_signal_handler && manager.outbound_key is Some && (
        manager.signalled_key is None || manager.signalled_key->0.key_index
            != manager.outbound_key->0.key_index),
        update.own_signal matches Some(signal) ==> {
            &&& signal.key@ == manager.outbound_key->0.key@
            &&& signal.key_index == manager.outbound_key->0.key_index
            &&& signal.use_after_ms == 0
            &&& signal.subject.is_own
            &&& signal.subject.user_id@ == manager.own_user_id@
            &&& signal.subject.device_id@ == manager.own_device_id@
            &&& signal.subject.member_id@ == manager.own_member_id@
            &&& after.signalled_key matches Some(told) && told.key_index == signal.key_index
        },
        after.outbound_key == manager.outbound_key,
        after.superseded_key == manager.superseded_key,
        after.rotation_due_at == manager.rotation_due_at,
        after.next_key_index == manager.next_key_index,
        !manager.config.manage_media_keys ==> after == manager && update.events@.len() == 0,
{
    if manager.config.manage_media_keys {
        let settled = choose|settled: EncryptionManager|
            {
                &&& #[trigger] manager.same_but_inbound(settled)
                &&& settled.inbound() == manager.inbound().settle(
                    manager.key_buffer.buffer_ttl_ms,
                    manager.inbound().waiting,
                    memberships,
                ).0
                &&& if settled.owes_signal() {
                    settled.signalled(
                        settled.outbound_key->0.key@,
                        settled.outbound_key->0.key_index,
                        0,
                        now,
                        after,
                        update.own_signal,
                    )
                } else {
                    update.own_signal is None && after == settled
                }
            };
        assert(settled.outbound_key == manager.outbound_key);
        match update.own_signal {
            Some(signal) => {
                assert(signal@.subject == manager.own_subject());
                assert(signal@.subject.user_id == signal.subject.user_id@);
            },
            None => {},
        }
    }
}

/// An application that begins to listen is told of our own key first, with what is left
/// of the delay it was signalled with: a key that was to be used from some time on is
/// to be used from that time on still.
pub proof fn law_replayed_own_key_keeps_its_delay(
    manager: EncryptionManager,
    key: Seq<u8>,
    use_after_ms: u64,
    at: u64,
    mid: EncryptionManager,
    signal: Option<PendingSignal>,
    memberships: Seq<JoinedMembership>,
    now: u64,
    replayed: Seq<PendingSignal>,
)
    requires
        manager.outbound_key is Some,
        manager.tells_keys(),
        manager.signalled(
            key,
            manager.outbound_key->0.key_index,
            use_after_ms,
            at,
            mid,
            signal,
        ),
        signal_views(replayed) == mid.replayed(memberships, now),
        at <= now,
    ensures
        replayed.len() > 0,
        replayed[0].key@ == manager.outbound_key->0.key@,
        replayed[0].key_index == manager.outbound_key->0.key_index,
        replayed[0].subject.is_own,
        replayed[0].subject.member_id@ == manager.own_member_id@,
        now + replayed[0].use_after_ms == (if now < at + use_after_ms {
            at + use_after_ms
        } else {
            now as int
        }),
{
    let told = signal_views(replayed);
    assert(told.len() == replayed.len());
    assert(told[0] == replayed[0]@);
    assert(told[0] == mid.own_replay(now)[0]);
    assert(replayed[0]@.subject == mid.own_subject());
    assert(replayed[0]@.subject.member_id == replayed[0].subject.member_id@);
}

/// The application is told of the key it is given, to be used when it says, under the
/// identity that the host derived. Where it derived none that is the user and the device
/// for our own key, and the member id for anybody else's.
pub proof fn law_signal_names_whose_key_it_is(
    pending: PendingSignal,
    mapped: Option<String>,
    signal: KeyMaterialSignal,
)
    requires
        pending.signals_as(mapped, signal),
    ensures
        signal.key@ == pending.key@,
        signal.key_index == pending.key_index,
        signal.use_after_ms == pending.use_after_ms,
        mapped matches Some(identity) ==> signal.rtc_backend_identity@ == identity@,
        mapped is None && pending.subject.is_own ==> signal.rtc_backend_identity@
            == pending.subject.user_id@ + ":"@ + pending.subject.device_id@,
        mapped is None && !pending.subject.is_own ==> signal.rtc_backend_identity@
            == pending.subject.member_id@,
{
}

/// Of what becomes of keys the application hears everything it listens for: of every key
/// that was refused, and of every one that can be used where media keys are managed; and
/// of nothing else. While nothing listens it hears of nothing.
pub proof fn law_application_hears_what_it_listens_for(
    manager: EncryptionManager,
    events: Seq<EventView>,
    event: EventView,
)
    ensures
        manager.heard_all(events).contains(event) <==> events.contains(event)
            && manager.has_signal_handler && (event is Refused
            || manager.config.manage_media_keys),
{
    let keep = |event: EventView| manager.hears(event);
    let heard = manager.heard_all(events);
    if events.contains(event) && keep(event) {
        let i = choose|i: int| 0 <= i < events.len() && events[i] == event;
        events.lemma_filter_contains(keep, i);
    }
    if heard.contains(event) {
        events.lemma_filter_contains_rev(keep, event);
        let i = choose|i: int| 0 <= i < heard.len() && heard[i] == event;
        events.lemma_filter_pred(keep, i);
    }
}

/// A refusal says in words what failed, and of whom: the room that was claimed, who sent
/// the key and who the member event is from, or which device did and which it came from.
pub proof fn law_refusal_says_what_failed(reason: KeyRejection)
    ensures
        reason is Cleartext ==> reason.words() == "sent in cleartext"@,
        reason is NotCrossSigned ==> reason.words() == "sending device is not cross-signed"@,
        reason is UnverifiableDevice ==> reason.words()
            == "the member event names no sending device to check this against"@,
        reason is RoomMismatch ==> reason.words() == "claims a different room ("@
            + reason->claimed@ + ")"@,
        reason is SenderMismatch ==> reason.words() == "sent by "@
            + reason->SenderMismatch_actual@ + ", but the member event is from "@
            + reason->SenderMismatch_expected@,
        reason is DeviceMismatch ==> reason.words() == "sent by device "@ + (
        match reason->DeviceMismatch_actual {
            Some(device) => device@,
            None => "<unknown>"@,
        }) + ", but the member event came from "@ + reason->DeviceMismatch_expected@,
{
}

/// Leaving forgets every key: ours and the one it replaced, everybody else's and those that
/// wait, what was seen of them and what the application was told. Whoever joins again
/// begins with index zero and is told of the key anew.
pub proof fn law_leaving_forgets_every_key(
    manager: EncryptionManager,
    left: EncryptionManager,
    member_id: Seq<char>,
    now: u64,
)
    requires
        manager.has_left(left),
    ensures
        left.in_use(now) is None,
        left.outbound_key is None,
        left.superseded_key is None,
        left.inbound().held(member_id).len() == 0,
        left.inbound().waiting.len() == 0,
        left.inbound().seen == Map::<Seq<char>, u64>::empty(),
        left.signalled_key is None,
        left.rotation_due_at is None,
        left.next_key_index == 0,
        left.own_member_id == manager.own_member_id,
        left.room_id == manager.room_id,
        left.config == manager.config,
{
}

} // verus!
