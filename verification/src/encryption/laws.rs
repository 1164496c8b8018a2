//! What holds of key management as a whole.

use vstd::prelude::*;
use crate::encoding::read_as;
use crate::encryption::inbound::{
    already_held, index_position, lemma_index_position, membership_refusal, with_key,
    DiscardedView, EventView, InboundView, KeyEvent,
};
use crate::encryption::outbound::{
    find_membership, has_join, has_member_id, key_content, missing, some_missing, some_shared,
    with_joins, PlanView, Rollout,
};
use crate::encryption::rotation::later;
use crate::encryption::signals::peer_signals;
use crate::encryption::types::{
    filter_key, participants, recent_entries, InboundKeyView, KeyOrigin, OutboundKeyView,
    ParticipantView, ReceivedEncryptionKey,
};
use crate::encryption::{
    following_index, inbound_views, EncryptionManager, PendingSignal, SignalView, SubjectView,
};
use crate::error::CommandError;
use crate::json::JsonView;
use crate::session::JoinedMembership;
use crate::text::{decimal, digit_char, text_of};

verus! {

/// Nobody a rollout sends our key to is this join, and nobody is this very
/// device under another member id.
pub proof fn law_our_key_never_goes_to_ourselves(
    manager: EncryptionManager,
    key: OutboundKeyView,
    memberships: Seq<JoinedMembership>,
    now: u64,
    i: int,
)
    requires
        manager.own_device_id@.len() > 0,
        0 <= i < manager.plan(key, memberships, now).recipients.len(),
    ensures
        ({
            let recipient = manager.plan(key, memberships, now).recipients[i];
            &&& recipient.member_id != manager.own_member_id@
            &&& !(recipient.user_id == manager.own_user_id@ && recipient.device_id
                == manager.own_device_id@)
        }),
{
    let present = manager.peers(memberships);
    let recipient = manager.plan(key, memberships, now).recipients[i];
    let keep = |participant: ParticipantView| !has_join(key.shared_with, participant);
    if !manager.plan(key, memberships, now).rotating {
        assert(present.filter(keep).contains(recipient));
        present.lemma_filter_contains_rev(keep, recipient);
    }
    assert(present.contains(recipient));
    memberships.lemma_filter_map_contains(
        |membership: JoinedMembership| manager.as_peer(membership),
        recipient,
    );
}

/// Another device of our own user is a recipient like any other.
pub proof fn law_other_devices_of_ours_are_peers(
    manager: EncryptionManager,
    membership: JoinedMembership,
)
    requires
        membership.member_id@ != manager.own_member_id@,
        membership.origin.device() != Some(manager.own_device_id@),
    ensures
        manager.is_peer(membership),
{
}

/// After a rollout that kept the key, exactly those who held it before and those
/// the send reached are recorded as holding it. So whoever was not reached is an
/// arrival again at the next rollout, and whoever was is not.
pub proof fn law_only_the_served_are_recorded(
    shared: Seq<ParticipantView>,
    served: Seq<ParticipantView>,
    participant: ParticipantView,
)
    ensures
        has_join(with_joins(shared, served), participant) <==> has_join(shared, participant)
            || has_join(served, participant),
    decreases served.len(),
{
    if served.len() > 0 {
        let earlier_served = served.drop_last();
        let last = served.last();
        let earlier = with_joins(shared, earlier_served);
        let all = with_joins(shared, served);
        law_only_the_served_are_recorded(shared, earlier_served, participant);
        if has_join(earlier_served, participant) {
            let i = choose|i: int|
                0 <= i < earlier_served.len() && (#[trigger] earlier_served[i]).same_join(
                    participant,
                );
            assert(served[i].same_join(participant));
        }
        if has_join(served, participant) {
            let i = choose|i: int|
                0 <= i < served.len() && (#[trigger] served[i]).same_join(participant);
            if i < earlier_served.len() {
                assert(earlier_served[i].same_join(participant));
            } else {
                if has_join(earlier, last) {
                    let j = choose|j: int|
                        0 <= j < earlier.len() && (#[trigger] earlier[j]).same_join(last);
                    assert(earlier[j].same_join(participant));
                } else {
                    assert(all[earlier.len() as int].same_join(participant));
                }
            }
        }
        if has_join(earlier, participant) {
            let i = choose|i: int|
                0 <= i < earlier.len() && (#[trigger] earlier[i]).same_join(participant);
            assert(all[i].same_join(participant));
        }
        if has_join(all, participant) {
            let i = choose|i: int|
                0 <= i < all.len() && (#[trigger] all[i]).same_join(participant);
            if i < earlier.len() {
                assert(earlier[i].same_join(participant));
            } else {
                assert(served[served.len() - 1].same_join(participant));
            }
        }
    }
}

/// Deferring the rotation that a departure calls for does not forget it: until
/// the key is replaced, every later rollout still sees that a participation
/// holding it has ended, whoever else is served meanwhile.
pub proof fn law_deferred_departures_stay_owed(
    shared: Seq<ParticipantView>,
    served: Seq<ParticipantView>,
    present: Seq<ParticipantView>,
)
    requires
        some_missing(shared, present),
    ensures
        some_missing(with_joins(shared, served), present),
    decreases served.len(),
{
    if served.len() > 0 {
        law_deferred_departures_stay_owed(shared, served.drop_last(), present);
        let earlier = with_joins(shared, served.drop_last());
        let i = choose|i: int|
            0 <= i < earlier.len() && !has_join(present, #[trigger] earlier[i]);
        assert(with_joins(shared, served)[i] == earlier[i]);
    }
}

/// A device that rejoins under the member id it had before is a new
/// participation: it is sent the key again, and the rotation its previous
/// participation calls for stays owed.
pub proof fn law_rejoin_is_a_new_participation(
    held: ParticipantView,
    rejoined: ParticipantView,
    manager: EncryptionManager,
    key: OutboundKeyView,
    memberships: Seq<JoinedMembership>,
    now: u64,
)
    requires
        held.member_id == rejoined.member_id,
        held.membership_ts != rejoined.membership_ts,
        key.shared_with == seq![held],
        manager.peers(memberships) == seq![rejoined],
    ensures
        manager.plan(key, memberships, now).recipients == seq![rejoined],
        manager.plan(key, memberships, now).due_at <= later(key.creation_ts, manager.config.freshness())
            || manager.plan(key, memberships, now).rotating,
{
    let present = manager.peers(memberships);
    assert(!held.same_join(rejoined));
    assert(!has_join(key.shared_with, rejoined));
    assert(!has_join(present, held)) by {
        if has_join(present, held) {
            let i = choose|i: int|
                0 <= i < present.len() && (#[trigger] present[i]).same_join(held);
            assert(present[i] == rejoined);
        }
    }
    assert(some_missing(key.shared_with, present)) by {
        assert(!has_join(present, key.shared_with[0]));
    }
    reveal(Seq::filter);
    let keep = |participant: ParticipantView| !has_join(key.shared_with, participant);
    assert(present.drop_last() =~= Seq::<ParticipantView>::empty());
    assert(present.drop_last().filter(keep) =~= Seq::<ParticipantView>::empty());
    assert(missing(present, key.shared_with) =~= seq![rejoined]);
}

/// A roster in which everybody holds the key and nobody who held it is gone
/// costs nothing, for as long as the key may live.
pub proof fn law_unchanged_roster_distributes_nothing(
    manager: EncryptionManager,
    key: OutboundKeyView,
    memberships: Seq<JoinedMembership>,
    now: u64,
)
    requires
        !some_missing(key.shared_with, manager.peers(memberships)),
        !some_missing(manager.peers(memberships), key.shared_with),
        now < later(key.creation_ts, manager.config.lifetime()),
    ensures
        !manager.plan(key, memberships, now).rotating,
        manager.plan(key, memberships, now).arrivals.len() == 0,
{
    let present = manager.peers(memberships);
    let keep = |participant: ParticipantView| !has_join(key.shared_with, participant);
    if missing(present, key.shared_with).len() > 0 {
        let arrival = missing(present, key.shared_with)[0];
        present.lemma_filter_pred(keep, 0);
        assert(present.filter(keep).contains(arrival));
        present.lemma_filter_contains_rev(keep, arrival);
        let i = choose|i: int| 0 <= i < present.len() && present[i] == arrival;
        assert(!has_join(key.shared_with, present[i]));
    }
}

/// However much a membership change brings, a rollout mints at most one key, and
/// only where the plan is to rotate.
pub proof fn law_one_rollout_mints_one_key(
    manager: EncryptionManager,
    plan: PlanView,
    fresh: Seq<u8>,
    now: u64,
    after: EncryptionManager,
    started: Option<Rollout>,
)
    requires
        manager.begun(plan, fresh, now, after, started),
    ensures
        after.outbound_key == manager.outbound_key,
        after.next_key_index == (if plan.rotating {
            following_index(manager.next_key_index)
        } else {
            manager.next_key_index
        }),
        plan.rotating ==> started is Some && started->0.key@ == fresh && started->0.key_index
            == manager.next_key_index,
{
}

/// A scheduler always has a next wake-up, and it lies in the future. Only an
/// instant at the end of time, or keys configured not to live at all, are left
/// out.
pub proof fn law_next_wake_up_lies_ahead(
    manager: EncryptionManager,
    key: OutboundKeyView,
    memberships: Seq<JoinedMembership>,
    now: u64,
)
    requires
        now < u64::MAX,
        manager.config.lifetime() > 0,
    ensures
        manager.plan(key, memberships, now).due_at > now,
{
}

/// A rotation is used at once exactly where no one present holds the key it
/// replaces, or no delay is configured.
pub proof fn law_delay_protects_the_members_who_stay(
    manager: EncryptionManager,
    key: OutboundKeyView,
    memberships: Seq<JoinedMembership>,
    now: u64,
)
    requires
        manager.plan(key, memberships, now).rotating,
    ensures
        manager.plan(key, memberships, now).use_after_ms == (if some_shared(
            manager.peers(memberships),
            key.shared_with,
        ) {
            manager.config.delay_before_use_ms
        } else {
            0
        }),
{
}

/// Whoever arrives at a rotation that waits is handed the key still on the wire
/// as well, provided the send of the new one reached them.
pub proof fn law_arrivals_can_decrypt_during_the_delay(
    manager: EncryptionManager,
    rollout: Rollout,
    served: Seq<ParticipantView>,
    memberships: Seq<JoinedMembership>,
    now: u64,
    i: int,
)
    requires
        manager.outbound_key is Some,
        rollout.plan@ == manager.plan(manager.outbound_key->0@, memberships, now),
        rollout.plan.use_after_ms > 0,
        (manager.in_use(now)->0).0 != rollout.key_index,
        0 <= i < rollout.plan@.arrivals.len(),
        has_member_id(served, rollout.plan@.arrivals[i].member_id),
    ensures
        rollout.plan@.still_in_use == manager.in_use(now),
        rollout.plan@.still_in_use is Some,
        rollout.arrivals_to_cover(served).contains(rollout.plan@.arrivals[i]),
{
    let keep = |arrival: ParticipantView| has_member_id(served, arrival.member_id);
    let arrivals = participants(rollout.plan.arrivals@);
    arrivals.lemma_filter_contains(keep, i);
    assert(rollout.plan.still_in_use is Some);
}

/// A rotation that is under way stays bounded: what a departed member can still
/// read ends when the delay does.
pub proof fn law_superseded_key_goes_out_of_use(
    manager: EncryptionManager,
    rollout: Rollout,
    served: Seq<ParticipantView>,
    finished_at: u64,
    after: EncryptionManager,
    signal: Option<PendingSignal>,
    now: u64,
)
    requires
        rollout.plan.rotating,
        manager.finished(rollout, served, finished_at, after, signal),
        now >= later(rollout.started_at, rollout.plan.use_after_ms),
    ensures
        after.in_use(now) == Some((rollout.key_index, rollout.key@)),
{
}

/// Telling the application about our key settles the matter: until the key's
/// index changes it is not told again, however often memberships change.
pub proof fn law_an_index_is_signalled_once(
    manager: EncryptionManager,
    now: u64,
    after: EncryptionManager,
    signal: Option<PendingSignal>,
)
    requires
        manager.tells_keys(),
        manager.outbound_key is Some,
        manager.signalled(
            manager.outbound_key->0.key@,
            manager.outbound_key->0.key_index,
            0,
            now,
            after,
            signal,
        ),
    ensures
        signal is Some,
        !after.owes_signal(),
{
}

/// No key of another participant is ever signalled as usable unless its message
/// came, encrypted, from the user that sent the member event it names and, where
/// that event names a device, from that device.
pub proof fn law_only_verified_keys_are_usable(
    inbound: InboundView,
    ttl_ms: u64,
    key: InboundKeyView,
    origin: KeyOrigin,
    membership: JoinedMembership,
)
    requires
        inbound.accept(ttl_ms, key, origin, membership).1 matches Some(EventView::Usable(_)),
    ensures
        origin matches KeyOrigin::Encrypted { sender_user_id, sender_device_id, .. } && {
            &&& sender_user_id@ == membership.sender@
            &&& membership.origin is Unknown || text_of(sender_device_id)
                == membership.origin.device()
        },
        inbound.accept(ttl_ms, key, origin, membership).1 matches Some(EventView::Usable(signal))
            && signal.key == key.key && signal.use_after_ms == 0,
{
}

/// A refused key leaves no trace, so it cannot keep the genuine one out.
pub proof fn law_refused_keys_leave_no_trace(
    inbound: InboundView,
    ttl_ms: u64,
    key: InboundKeyView,
    origin: KeyOrigin,
    membership: JoinedMembership,
)
    requires
        membership_refusal(origin, membership) is Some,
    ensures
        inbound.accept(ttl_ms, key, origin, membership).0 == inbound,
        inbound.accept(ttl_ms, key, origin, membership).1 matches Some(EventView::Refused(_)),
{
}

/// Where a list holds the key of an index.
proof fn lemma_position_bounds(keys: Seq<InboundKeyView>, key_index: u8)
    ensures
        0 <= index_position(keys, key_index) <= keys.len(),
        index_position(keys, key_index) < keys.len() ==> keys[index_position(
            keys,
            key_index,
        )].key_index == key_index,
        forall|i: int|
            0 <= i < index_position(keys, key_index) ==> (#[trigger] keys[i]).key_index
                != key_index,
    decreases keys.len(),
{
    if keys.len() > 0 && keys[0].key_index != key_index {
        let rest = keys.drop_first();
        lemma_position_bounds(rest, key_index);
        assert forall|i: int| 0 <= i < index_position(keys, key_index) implies (
        #[trigger] keys[i]).key_index != key_index by {
            if i > 0 {
                assert(rest[i - 1] == keys[i]);
            }
        }
    }
}

proof fn lemma_stored_key_is_held(keys: Seq<InboundKeyView>, key: InboundKeyView)
    ensures
        index_position(with_key(keys, key), key.key_index) == index_position(keys, key.key_index),
        with_key(keys, key)[index_position(keys, key.key_index)] == key,
        index_position(keys, key.key_index) < with_key(keys, key).len(),
    decreases keys.len(),
{
    lemma_position_bounds(keys, key.key_index);
    if keys.len() > 0 && keys[0].key_index != key.key_index {
        let rest = keys.drop_first();
        lemma_stored_key_is_held(rest, key);
        assert(with_key(keys, key).drop_first() =~= with_key(rest, key));
        assert(with_key(keys, key)[0] == keys[0]);
    }
}

/// Once a key was accepted, receiving the very same key material again changes
/// nothing but the time it was last seen, and signals nothing.
pub proof fn law_identical_redelivery_is_ignored(
    inbound: InboundView,
    ttl_ms: u64,
    key: InboundKeyView,
    again: InboundKeyView,
    origin: KeyOrigin,
    membership: JoinedMembership,
)
    requires
        inbound.accept(ttl_ms, key, origin, membership).1 matches Some(EventView::Usable(_)),
        again == (InboundKeyView { creation_ts: again.creation_ts, ..key }),
    ensures
        ({
            let (held, _) = inbound.accept(ttl_ms, key, origin, membership);
            let (after, event) = held.accept(ttl_ms, again, origin, membership);
            event is None && after.keys == held.keys && after.waiting == held.waiting
        }),
{
    lemma_stored_key_is_held(inbound.held(key.member_id), key);
}

/// A different key at an index that is already held replaces it: afterwards the
/// index holds the newer material, and no other index is touched.
pub proof fn law_rekey_replaces(keys: Seq<InboundKeyView>, key: InboundKeyView, other: u8)
    requires
        other != key.key_index,
    ensures
        with_key(keys, key)[index_position(with_key(keys, key), key.key_index)] == key,
        index_position(keys, other) < keys.len() ==> {
            &&& index_position(with_key(keys, key), other) == index_position(keys, other)
            &&& with_key(keys, key)[index_position(keys, other)] == keys[index_position(
                keys,
                other,
            )]
        },
    decreases keys.len(),
{
    lemma_stored_key_is_held(keys, key);
    lemma_position_bounds(keys, key.key_index);
    lemma_position_bounds(keys, other);
    if keys.len() > 0 && keys[0].key_index != key.key_index {
        let rest = keys.drop_first();
        law_rekey_replaces(rest, key, other);
        assert(with_key(keys, key).drop_first() =~= with_key(rest, key));
        assert(with_key(keys, key)[0] == keys[0]);
    } else if keys.len() > 0 {
        assert(with_key(keys, key).drop_first() =~= keys.drop_first());
    }
}

proof fn lemma_decimal_digits(n: nat, i: int)
    requires
        0 <= i < decimal(n).len(),
    ensures
        '0' <= decimal(n)[i] <= '9',
    decreases n,
{
    if n >= 10 {
        if i < decimal(n / 10).len() {
            lemma_decimal_digits(n / 10, i);
        }
    }
}

#[verifier::spinoff_prover]
proof fn lemma_decimal_injective(a: nat, b: nat)
    requires
        decimal(a) == decimal(b),
    ensures
        a == b,
    decreases a,
{
    lemma_decimal_nonempty(a / 10);
    lemma_decimal_nonempty(b / 10);
    assert(digit_char(a % 10) as nat == ('0' as nat) + a % 10);
    assert(digit_char(b % 10) as nat == ('0' as nat) + b % 10);
    if a >= 10 && b >= 10 {
        assert(decimal(a).drop_last() =~= decimal(a / 10));
        assert(decimal(b).drop_last() =~= decimal(b / 10));
        assert(decimal(a).last() == decimal(b).last());
        lemma_decimal_injective(a / 10, b / 10);
        assert(decimal(a).last() == digit_char(a % 10));
        assert(decimal(b).last() == digit_char(b % 10));
        assert(a % 10 == b % 10);
    } else {
        assert(decimal(a).len() == decimal(b).len());
        if a >= 10 {
            assert(decimal(a).len() == decimal(a / 10).len() + 1);
            assert(decimal(b).len() == 1);
        }
        if b >= 10 {
            assert(decimal(b).len() == decimal(b / 10).len() + 1);
            assert(decimal(a).len() == 1);
        }
        assert(a % 10 == a && b % 10 == b);
        assert(decimal(a)[0] == digit_char(a % 10));
        assert(decimal(b)[0] == digit_char(b % 10));
    }
}

proof fn lemma_decimal_nonempty(n: nat)
    ensures
        decimal(n).len() > 0,
{
}

/// No two members share a place in the filter for outdated keys, and neither do
/// two indices of one member: one participant's keys never outdate another's.
pub proof fn law_filter_places_are_distinct(a: Seq<char>, i: u8, b: Seq<char>, j: u8)
    requires
        filter_key(a, i) == filter_key(b, j),
    ensures
        a == b,
        i == j,
{
    reveal_strlit(":");
    let left = decimal(i as nat);
    let right = decimal(j as nat);
    let whole = filter_key(a, i);
    assert(whole == filter_key(b, j));
    assert(whole.len() == a.len() + 1 + left.len());
    assert(whole.len() == b.len() + 1 + right.len());
    assert(whole[a.len() as int] == ':');
    assert(whole[b.len() as int] == ':');
    if a.len() > b.len() {
        let at = a.len() - b.len() - 1;
        assert(whole[a.len() as int] == right[at]);
        lemma_decimal_digits(j as nat, at);
    }
    if b.len() > a.len() {
        let at = b.len() - a.len() - 1;
        assert(whole[b.len() as int] == left[at]);
        lemma_decimal_digits(i as nat, at);
    }
    assert(a =~= whole.take(a.len() as int));
    assert(b =~= whole.take(b.len() as int));
    assert(left =~= whole.skip((a.len() + 1) as int));
    assert(right =~= whole.skip((b.len() + 1) as int));
    lemma_decimal_injective(i as nat, j as nat);
}

/// Keys of one member never outdate an index at which nothing newer was seen: a
/// key stamped no earlier than everything remembered of its place gets through.
pub proof fn law_newest_key_gets_through(
    inbound: InboundView,
    ttl_ms: u64,
    key: InboundKeyView,
    origin: KeyOrigin,
    membership: JoinedMembership,
)
    requires
        membership_refusal(origin, membership) is None,
        forall|place: Seq<char>| #[trigger]
            inbound.seen.contains_key(place) ==> inbound.seen[place] <= key.creation_ts,
    ensures
        ({
            let (after, _) = inbound.accept(ttl_ms, key, origin, membership);
            already_held(after.held(key.member_id), key)
        }),
{
    lemma_stored_key_is_held(inbound.held(key.member_id), key);
    let place = filter_key(key.member_id, key.key_index);
    let recent = recent_entries(inbound.seen, key.creation_ts, ttl_ms);
    if recent.contains_key(place) {
        assert(inbound.seen.contains_key(place));
    }
}

/// Where media keys are not managed, the application is told of no key material:
/// not of ours, not of another participant's when it is received or when it
/// waited for a membership, and not when keys are replayed. It is still told of
/// what was refused.
pub proof fn law_unmanaged_keys_are_not_signalled(
    manager: EncryptionManager,
    received: ReceivedEncryptionKey,
    decoded: Result<Seq<u8>, Seq<char>>,
    outcome: Result<Option<KeyEvent>, CommandError>,
    events: Seq<EventView>,
    refusal: DiscardedView,
    memberships: Seq<JoinedMembership>,
    now: u64,
    after: EncryptionManager,
    key: Seq<u8>,
    key_index: u8,
    use_after_ms: u64,
    signal: Option<PendingSignal>,
)
    requires
        !manager.config.manage_media_keys,
    ensures
        manager.received(received, decoded, memberships, now, after, outcome) ==> !(
        outcome matches Ok(Some(KeyEvent::Usable(_)))),
        forall|i: int|
            0 <= i < manager.heard_all(events).len() ==> (#[trigger] manager.heard_all(
                events,
            )[i]) is Refused,
        manager.replayed(memberships, now).len() == 0,
        manager.signalled(key, key_index, use_after_ms, now, after, signal) ==> signal is None
            && after == manager,
        manager.has_signal_handler ==> manager.heard(Some(EventView::Refused(refusal))) == Some(
            EventView::Refused(refusal),
        ),
{
    let hears = |event: EventView| manager.hears(event);
    assert forall|i: int| 0 <= i < manager.heard_all(events).len() implies (
    #[trigger] manager.heard_all(events)[i]) is Refused by {
        events.lemma_filter_pred(hears, i);
    }
    if manager.received(received, decoded, memberships, now, after, outcome) && (
    outcome matches Ok(Some(_))) {
        assert(manager.hears(outcome->Ok_0->0@));
    }
}

/// Every key that is held for a participant whose member event is known is
/// replayed, as usable at once.
pub proof fn law_every_held_key_is_replayed(
    manager: EncryptionManager,
    memberships: Seq<JoinedMembership>,
    now: u64,
    member_id: Seq<char>,
    membership: JoinedMembership,
    i: int,
)
    requires
        manager.tells_keys(),
        manager.inbound_keys.lists_its_keys(),
        find_membership(memberships, member_id) == Some(membership),
        0 <= i < manager.inbound().held(member_id).len(),
    ensures
        ({
            let key = manager.inbound().held(member_id)[i];
            manager.replayed(memberships, now).contains(
                SignalView {
                    key: key.key,
                    key_index: key.key_index,
                    subject: SubjectView::peer(membership),
                    use_after_ms: 0,
                },
            )
        }),
{
    let order = manager.inbound_keys.order();
    assert(manager.inbound_keys@.contains_key(member_id));
    assert(order.contains(member_id));
    let own = manager.own_replay(now);
    let others = manager.peers_replay(memberships, order);
    let signals = peer_signals(manager.inbound().held(member_id), membership);
    lemma_replayed_among(manager, memberships, order, member_id, signals[i]);
    let at = choose|at: int| 0 <= at < others.len() && others[at] == signals[i];
    assert((own + others)[own.len() + at] == signals[i]);
}

proof fn lemma_replayed_among(
    manager: EncryptionManager,
    memberships: Seq<JoinedMembership>,
    member_ids: Seq<Seq<char>>,
    member_id: Seq<char>,
    signal: SignalView,
)
    requires
        member_ids.contains(member_id),
        manager.peer_replay(memberships, member_id).contains(signal),
    ensures
        manager.peers_replay(memberships, member_ids).contains(signal),
    decreases member_ids.len(),
{
    let rest = member_ids.drop_last();
    let earlier = manager.peers_replay(memberships, rest);
    let last = manager.peer_replay(memberships, member_ids.last());
    let all = manager.peers_replay(memberships, member_ids);
    if member_ids.last() == member_id {
        let at = choose|at: int| 0 <= at < last.len() && last[at] == signal;
        assert(all[earlier.len() + at] == signal);
    } else {
        let at = choose|at: int| 0 <= at < member_ids.len() && member_ids[at] == member_id;
        assert(rest[at] == member_id);
        lemma_replayed_among(manager, memberships, rest, member_id, signal);
        let found = choose|at: int| 0 <= at < earlier.len() && earlier[at] == signal;
        assert(all[found] == signal);
    }
}

/// A key message that was received: what it said, when and among which members
/// it arrived, and what came of it.
pub struct Receipt {
    /// The message.
    pub received: ReceivedEncryptionKey,
    /// What its key material decodes to.
    pub decoded: Result<Seq<u8>, Seq<char>>,
    /// The members known when it arrived.
    pub memberships: Seq<JoinedMembership>,
    /// When it arrived, in epoch milliseconds.
    pub now: u64,
    /// What came of it.
    pub outcome: Result<Option<KeyEvent>, CommandError>,
}

impl Receipt {
    /// Whether the message is for an index of a member's keys.
    pub open spec fn is_for(self, member_id: Seq<char>, key_index: u8) -> bool {
        self.received.member_id@ == member_id && self.received.key_index == key_index
    }

    /// The signal that the application was given about an index of a member's
    /// keys, if any.
    pub open spec fn signal_for(self, member_id: Seq<char>, key_index: u8) -> Option<SignalView> {
        match self.outcome {
            Ok(Some(KeyEvent::Usable(signal))) => if signal@.subject.member_id == member_id
                && signal@.key_index == key_index {
                Some(signal@)
            } else {
                None
            },
            _ => None,
        }
    }
}

/// The material a list of keys holds at an index.
pub open spec fn material_at(keys: Seq<InboundKeyView>, key_index: u8) -> Option<Seq<u8>> {
    let at = index_position(keys, key_index);
    if at < keys.len() {
        Some(keys[at].key)
    } else {
        None
    }
}

/// Whether no two keys of a list have one index.
pub open spec fn indices_distinct(keys: Seq<InboundKeyView>) -> bool {
    forall|i: int, j: int|
        0 <= i < j < keys.len() ==> (#[trigger] keys[i]).key_index != (
        #[trigger] keys[j]).key_index
}

impl EncryptionManager {
    /// The material of a key message that passes every check; `None` if it fails
    /// one, or if its member event is not known.
    pub open spec fn accepted_material(self, receipt: Receipt) -> Option<Seq<u8>> {
        match (
            self.origin_refusal(receipt.received),
            receipt.decoded,
            find_membership(receipt.memberships, receipt.received.member_id@),
        ) {
            (None, Ok(bytes), Some(membership)) => if membership_refusal(
                receipt.received.origin,
                membership,
            ) is None {
                Some(bytes)
            } else {
                None
            },
            _ => None,
        }
    }

    /// The material of the last of several key messages for an index of a
    /// member's keys that passed every check; `start` if none did.
    pub open spec fn last_accepted(
        self,
        start: Option<Seq<u8>>,
        receipts: Seq<Receipt>,
        member_id: Seq<char>,
        key_index: u8,
    ) -> Option<Seq<u8>>
        decreases receipts.len(),
    {
        if receipts.len() == 0 {
            start
        } else {
            let earlier = self.last_accepted(start, receipts.drop_last(), member_id, key_index);
            match self.accepted_material(receipts.last()) {
                Some(bytes) => if receipts.last().is_for(member_id, key_index) {
                    Some(bytes)
                } else {
                    earlier
                },
                None => earlier,
            }
        }
    }

    /// One signal for each time the material at an index of a member's keys
    /// changes in the course of several key messages: the new material, usable at
    /// once.
    pub open spec fn changes(
        self,
        start: Option<Seq<u8>>,
        receipts: Seq<Receipt>,
        member_id: Seq<char>,
        key_index: u8,
    ) -> Seq<SignalView>
        decreases receipts.len(),
    {
        if receipts.len() == 0 {
            Seq::empty()
        } else {
            let earlier = receipts.drop_last();
            let last = receipts.last();
            let before = self.last_accepted(start, earlier, member_id, key_index);
            let after = self.last_accepted(start, receipts, member_id, key_index);
            if before == after {
                self.changes(start, earlier, member_id, key_index)
            } else {
                self.changes(start, earlier, member_id, key_index).push(
                    SignalView {
                        key: after->0,
                        key_index,
                        subject: SubjectView::peer(
                            find_membership(last.memberships, member_id)->0,
                        ),
                        use_after_ms: 0,
                    },
                )
            }
        }
    }
}

/// The signals that the application was given about an index of a member's keys,
/// in the course of several key messages.
pub open spec fn signals_given(
    receipts: Seq<Receipt>,
    member_id: Seq<char>,
    key_index: u8,
) -> Seq<SignalView>
    decreases receipts.len(),
{
    if receipts.len() == 0 {
        Seq::empty()
    } else {
        let earlier = signals_given(receipts.drop_last(), member_id, key_index);
        match receipts.last().signal_for(member_id, key_index) {
            Some(signal) => earlier.push(signal),
            None => earlier,
        }
    }
}

/// Whether receiving key messages one after the other leads from the first of
/// `managers` through all the others.
pub open spec fn receiving(managers: Seq<EncryptionManager>, receipts: Seq<Receipt>) -> bool {
    &&& managers.len() == receipts.len() + 1
    &&& forall|i: int|
        0 <= i < receipts.len() ==> managers[i].received(
            (#[trigger] receipts[i]).received,
            receipts[i].decoded,
            receipts[i].memberships,
            receipts[i].now,
            managers[i + 1],
            receipts[i].outcome,
        )
}

/// Whether nothing remembered of keys is later than `now`.
pub open spec fn seen_by(inbound: InboundView, now: u64) -> bool {
    forall|place: Seq<char>| #[trigger]
        inbound.seen.contains_key(place) ==> inbound.seen[place] <= now
}

/// Whether the clock does not go back in the course of several key messages.
pub open spec fn clock_advances(receipts: Seq<Receipt>) -> bool {
    forall|i: int, j: int|
        0 <= i < j < receipts.len() ==> (#[trigger] receipts[i]).now <= (
        #[trigger] receipts[j]).now
}

proof fn lemma_found_membership(memberships: Seq<JoinedMembership>, member_id: Seq<char>)
    ensures
        find_membership(memberships, member_id) matches Some(membership) ==> membership.member_id@
            == member_id,
    decreases memberships.len(),
{
    if memberships.len() > 0 && memberships[0].member_id@ != member_id {
        lemma_found_membership(memberships.drop_first(), member_id);
    }
}

/// Storing a key settles the material at its index and at no other.
pub proof fn lemma_stored_material(keys: Seq<InboundKeyView>, key: InboundKeyView, key_index: u8)
    ensures
        material_at(with_key(keys, key), key_index) == (if key_index == key.key_index {
            Some(key.key)
        } else {
            material_at(keys, key_index)
        }),
        indices_distinct(keys) ==> indices_distinct(with_key(keys, key)),
{
    let stored = with_key(keys, key);
    lemma_position_bounds(keys, key.key_index);
    lemma_position_bounds(keys, key_index);
    lemma_stored_key_is_held(keys, key);
    if key_index != key.key_index {
        let at = index_position(keys, key_index);
        if at < keys.len() {
            lemma_index_position(stored, key_index, at);
        } else {
            lemma_index_position(stored, key_index, stored.len() as int);
        }
    }
}

proof fn lemma_receipt(
    before: EncryptionManager,
    receipt: Receipt,
    after: EncryptionManager,
    member_id: Seq<char>,
    key_index: u8,
)
    requires
        before.tells_keys(),
        seen_by(before.inbound(), receipt.now),
        before.received(
            receipt.received,
            receipt.decoded,
            receipt.memberships,
            receipt.now,
            after,
            receipt.outcome,
        ),
    ensures
        before.same_but_inbound(after),
        seen_by(after.inbound(), receipt.now),
        indices_distinct(before.inbound().held(member_id)) ==> indices_distinct(
            after.inbound().held(member_id),
        ),
        ({
            let old_material = material_at(before.inbound().held(member_id), key_index);
            let new_material = match before.accepted_material(receipt) {
                Some(bytes) if receipt.is_for(member_id, key_index) => Some(bytes),
                _ => old_material,
            };
            &&& material_at(after.inbound().held(member_id), key_index) == new_material
            &&& receipt.signal_for(member_id, key_index) == (if old_material == new_material {
                None
            } else {
                Some(
                    SignalView {
                        key: new_material->0,
                        key_index,
                        subject: SubjectView::peer(
                            find_membership(receipt.memberships, member_id)->0,
                        ),
                        use_after_ms: 0,
                    },
                )
            })
        }),
{
    let received = receipt.received;
    lemma_found_membership(receipt.memberships, received.member_id@);
    if before.origin_refusal(received) is None && receipt.decoded is Ok {
        let key = before.received_key(received, receipt.decoded->Ok_0, receipt.now);
        let recent = recent_entries(
            before.inbound().seen,
            receipt.now,
            before.key_buffer.buffer_ttl_ms,
        );
        assert forall|place: Seq<char>| #[trigger] recent.contains_key(place) implies recent[place]
            <= receipt.now by {
            assert(before.inbound().seen.contains_key(place));
        }
        lemma_stored_material(before.inbound().held(key.member_id), key, key_index);
    }
}

/// Whatever key messages arrive, and in whatever order, as long as the clock does
/// not go back: each index of a member's keys holds the material that was last
/// accepted for it, no index is held twice, and the application was given exactly
/// one signal per change of that material, usable at once. A redelivery of the
/// same material is no change.
pub proof fn law_each_index_holds_the_last_accepted_key(
    managers: Seq<EncryptionManager>,
    receipts: Seq<Receipt>,
    member_id: Seq<char>,
    key_index: u8,
)
    requires
        receiving(managers, receipts),
        managers[0].wf(),
        managers[0].tells_keys(),
        clock_advances(receipts),
        receipts.len() > 0 ==> seen_by(managers[0].inbound(), receipts[0].now),
    ensures
        indices_distinct(managers.last().inbound().held(member_id)),
        ({
            let start = material_at(managers[0].inbound().held(member_id), key_index);
            &&& material_at(managers.last().inbound().held(member_id), key_index)
                == managers[0].last_accepted(start, receipts, member_id, key_index)
            &&& signals_given(receipts, member_id, key_index) == managers[0].changes(
                start,
                receipts,
                member_id,
                key_index,
            )
        }),
{
    let held = managers[0].inbound().held(member_id);
    assert(indices_distinct(held)) by {
        if managers[0].inbound_keys@.contains_key(member_id) {
            let keys = managers[0].inbound_keys@[member_id]@;
            assert(held == inbound_views(keys));
            assert forall|i: int, j: int| 0 <= i < j < held.len() implies (
            #[trigger] held[i]).key_index != (#[trigger] held[j]).key_index by {
                assert(held[i] == keys[i]@ && held[j] == keys[j]@);
                assert(keys[i].key_index != keys[j].key_index);
            }
        }
    }
    lemma_receipts(managers, receipts, member_id, key_index);
}

proof fn lemma_receipts(
    managers: Seq<EncryptionManager>,
    receipts: Seq<Receipt>,
    member_id: Seq<char>,
    key_index: u8,
)
    requires
        receiving(managers, receipts),
        managers[0].tells_keys(),
        clock_advances(receipts),
        receipts.len() > 0 ==> seen_by(managers[0].inbound(), receipts[0].now),
        indices_distinct(managers[0].inbound().held(member_id)),
    ensures
        managers[0].same_but_inbound(managers.last()),
        receipts.len() > 0 ==> seen_by(managers.last().inbound(), receipts.last().now),
        indices_distinct(managers.last().inbound().held(member_id)),
        ({
            let start = material_at(managers[0].inbound().held(member_id), key_index);
            &&& material_at(managers.last().inbound().held(member_id), key_index)
                == managers[0].last_accepted(start, receipts, member_id, key_index)
            &&& signals_given(receipts, member_id, key_index) == managers[0].changes(
                start,
                receipts,
                member_id,
                key_index,
            )
        }),
    decreases receipts.len(),
{
    if receipts.len() > 0 {
        let earlier = receipts.drop_last();
        let last = receipts.last();
        let reached = managers.drop_last();
        let before = managers[receipts.len() - 1];
        assert forall|i: int| 0 <= i < earlier.len() implies reached[i].received(
            (#[trigger] earlier[i]).received,
            earlier[i].decoded,
            earlier[i].memberships,
            earlier[i].now,
            reached[i + 1],
            earlier[i].outcome,
        ) by {
            assert(earlier[i] == receipts[i]);
        }
        assert(clock_advances(earlier)) by {
            assert forall|i: int, j: int| 0 <= i < j < earlier.len() implies (
            #[trigger] earlier[i]).now <= (#[trigger] earlier[j]).now by {
                assert(earlier[i] == receipts[i] && earlier[j] == receipts[j]);
            }
        }
        assert(reached.last() == before && reached[0] == managers[0]);
        lemma_receipts(reached, earlier, member_id, key_index);
        assert(seen_by(before.inbound(), last.now)) by {
            if earlier.len() > 0 {
                assert(earlier.last() == receipts[receipts.len() - 2]);
                assert(receipts[receipts.len() - 2].now <= receipts[receipts.len() - 1].now);
            }
        }
        assert(receipts[receipts.len() - 1] == last);
        lemma_receipt(before, last, managers.last(), member_id, key_index);
        assert(before.accepted_material(last) == managers[0].accepted_material(last));
    }
}

/// Whether a received key is what a key message says.
pub open spec fn carries(content: JsonView, received: ReceivedEncryptionKey) -> bool {
    &&& content.get("room_id"@) == Some(JsonView::Text(received.room_id@))
    &&& content.get("member_id"@) == Some(JsonView::Text(received.member_id@))
    &&& content.get_in("media_key"@, "index"@) == Some(
        JsonView::number(received.key_index as u64),
    )
    &&& content.get_in("media_key"@, "key"@) == Some(JsonView::Text(received.key_b64@))
}

/// A key that one participant sends is the key that another holds: the message
/// `sender` addresses carries its key and index, and whoever receives it from the
/// sending device, knowing the sender's membership, afterwards holds that very key
/// under the sender's member id. Receivers that have already seen the index at a
/// later time than they receive it are left out. `encoded` is the key as it
/// travels, which decodes to the key.
pub proof fn law_sent_key_is_held_by_its_receiver(
    sender: EncryptionManager,
    key: Seq<u8>,
    key_index: u8,
    encoded: Seq<char>,
    decoded: Result<Seq<u8>, Seq<char>>,
    received: ReceivedEncryptionKey,
    receiver: EncryptionManager,
    memberships: Seq<JoinedMembership>,
    membership: JoinedMembership,
    now: u64,
    after: EncryptionManager,
    outcome: Result<Option<KeyEvent>, CommandError>,
)
    requires
        decoded == read_as(key),
        carries(
            key_content(sender.room_id@, sender.own_member_id@, key_index, encoded),
            received,
        ),
        received.origin matches KeyOrigin::Encrypted {
            sender_user_id,
            sender_device_id,
            sender_is_cross_signed,
        } && sender_user_id@ == sender.own_user_id@ && text_of(sender_device_id) == Some(
            sender.own_device_id@,
        ) && sender_is_cross_signed,
        receiver.room_id@ == sender.room_id@,
        find_membership(memberships, sender.own_member_id@) == Some(membership),
        membership.sender@ == sender.own_user_id@,
        membership.origin.device() == Some(sender.own_device_id@),
        forall|place: Seq<char>| #[trigger]
            receiver.inbound().seen.contains_key(place) ==> receiver.inbound().seen[place] <= now,
        receiver.received(received, decoded, memberships, now, after, outcome),
    ensures
        received.key_b64@ == encoded,
        outcome is Ok,
        ({
            let held = after.inbound().held(sender.own_member_id@);
            let at = index_position(held, key_index);
            at < held.len() && held[at].key == key && held[at].key_index == key_index
        }),
{
    reveal_strlit("room_id");
    reveal_strlit("member_id");
    reveal_strlit("media_key");
    reveal_strlit("format");
    reveal_strlit("index");
    reveal_strlit("key");
    assert("room_id"@.len() == 7 && "member_id"@.len() == 9 && "media_key"@.len() == 9);
    assert("format"@.len() == 6 && "index"@.len() == 5 && "key"@.len() == 3);
    assert("member_id"@[1] == 'e' && "member_id"@[2] == 'm' && "media_key"@[2] == 'd');
    let content = key_content(sender.room_id@, sender.own_member_id@, key_index, encoded);
    assert(content.get("room_id"@) == Some(JsonView::Text(sender.room_id@)));
    assert(content.get("member_id"@) == Some(JsonView::Text(sender.own_member_id@)));
    assert(content.get_in("media_key"@, "key"@) == Some(JsonView::Text(encoded)));
    assert(content.get_in("media_key"@, "index"@) == Some(JsonView::number(key_index as u64)));
    let arrived = receiver.received_key(received, key, now);
    law_newest_key_gets_through(
        receiver.inbound(),
        receiver.key_buffer.buffer_ttl_ms,
        arrived,
        received.origin,
        membership,
    );
    lemma_position_bounds(after.inbound().held(sender.own_member_id@), key_index);
}

} // verus!
