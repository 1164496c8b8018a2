//! What handing out our key comes to: who is sent what, and when it is replaced.

use vstd::prelude::*;
use crate::commands::ToDeviceDelivery;
use crate::encoding::{base64_decoded, read_as};
use crate::encryption::outbound::{
    addressable, address_of, find_membership, first_delivery, has_join, key_content, missing,
    participant_of, served_by, some_missing, some_shared, KeySend, Rollout,
};
use crate::encryption::types::ParticipantView;
use crate::encryption::{EncryptionManager, PendingSignal, KEY_LENGTH};
use crate::error::CommandError;
use crate::json::JsonView;
use crate::random::drawn;
use crate::seqs::lemma_filter_map_holds;
use crate::session::JoinedMembership;

verus! {

/// Whether a membership is of this join, or of this very device.
pub open spec fn is_us(manager: EncryptionManager, membership: JoinedMembership) -> bool {
    membership.member_id@ == manager.own_member_id@ || (membership.sender@ == manager.own_user_id@
        && membership.origin.device() == Some(manager.own_device_id@))
}

/// Whether someone else takes part under a member id since a given time.
pub open spec fn takes_part(
    manager: EncryptionManager,
    memberships: Seq<JoinedMembership>,
    member_id: Seq<char>,
    since: Option<u64>,
) -> bool {
    exists|i: int|
        0 <= i < memberships.len() && !is_us(manager, #[trigger] memberships[i])
            && memberships[i].member_id@ == member_id && memberships[i].membership_ts == since
}

/// Whether a list names a participation under a member id since a given time.
pub open spec fn names(
    list: Seq<ParticipantView>,
    member_id: Seq<char>,
    since: Option<u64>,
) -> bool {
    exists|i: int|
        0 <= i < list.len() && (#[trigger] list[i]).member_id == member_id
            && list[i].membership_ts == since
}

/// Whether someone else takes part who was not handed the key.
pub open spec fn someone_arrived(
    manager: EncryptionManager,
    shared_with: Seq<ParticipantView>,
    memberships: Seq<JoinedMembership>,
) -> bool {
    exists|i: int|
        0 <= i < memberships.len() && !is_us(manager, #[trigger] memberships[i]) && !names(
            shared_with,
            memberships[i].member_id@,
            memberships[i].membership_ts,
        )
}

/// Whether someone else takes part who was handed the key.
pub open spec fn someone_stays(
    manager: EncryptionManager,
    shared_with: Seq<ParticipantView>,
    memberships: Seq<JoinedMembership>,
) -> bool {
    exists|i: int|
        0 <= i < memberships.len() && !is_us(manager, #[trigger] memberships[i]) && names(
            shared_with,
            memberships[i].member_id@,
            memberships[i].membership_ts,
        )
}

/// Whether someone who was handed the key takes part no longer.
pub open spec fn someone_left(
    manager: EncryptionManager,
    shared_with: Seq<ParticipantView>,
    memberships: Seq<JoinedMembership>,
) -> bool {
    exists|i: int|
        0 <= i < shared_with.len() && !takes_part(
            manager,
            memberships,
            (#[trigger] shared_with[i]).member_id,
            shared_with[i].membership_ts,
        )
}

proof fn lemma_named(list: Seq<ParticipantView>, participant: ParticipantView)
    ensures
        has_join(list, participant) == names(
            list,
            participant.member_id,
            participant.membership_ts,
        ),
{
    if has_join(list, participant) {
        let i = choose|i: int|
            0 <= i < list.len() && (#[trigger] list[i]).same_join(participant);
        assert(list[i].member_id == participant.member_id);
    }
    if names(list, participant.member_id, participant.membership_ts) {
        let i = choose|i: int|
            0 <= i < list.len() && (#[trigger] list[i]).member_id == participant.member_id
                && list[i].membership_ts == participant.membership_ts;
        assert(list[i].same_join(participant));
    }
}

/// Whether a participation is that of a membership of someone else.
pub open spec fn stands_for(
    manager: EncryptionManager,
    participant: ParticipantView,
    membership: JoinedMembership,
) -> bool {
    &&& !is_us(manager, membership)
    &&& participant.user_id == membership.sender@
    &&& participant.member_id == membership.member_id@
    &&& participant.membership_ts == membership.membership_ts
    &&& membership.origin.device() matches Some(device) ==> participant.device_id == device
}

proof fn lemma_peer(
    manager: EncryptionManager,
    memberships: Seq<JoinedMembership>,
    i: int,
)
    requires
        0 <= i < memberships.len(),
        !is_us(manager, memberships[i]),
    ensures
        manager.peers(memberships).contains(participant_of(memberships[i])),
{
    let choose_peer = |membership: JoinedMembership| manager.as_peer(membership);
    assert(memberships.contains(memberships[i]));
    lemma_filter_map_holds(memberships, choose_peer, memberships[i]);
}

proof fn lemma_peer_is_someone(
    manager: EncryptionManager,
    memberships: Seq<JoinedMembership>,
    participant: ParticipantView,
) -> (i: int)
    requires
        manager.peers(memberships).contains(participant),
    ensures
        0 <= i < memberships.len(),
        !is_us(manager, memberships[i]),
        participant == participant_of(memberships[i]),
{
    let choose_peer = |membership: JoinedMembership| manager.as_peer(membership);
    memberships.lemma_filter_map_contains(choose_peer, participant);
    let membership = choose|membership: JoinedMembership| #[trigger]
        memberships.contains(membership) && choose_peer(membership) == Some(participant);
    choose|i: int| 0 <= i < memberships.len() && memberships[i] == membership
}

proof fn lemma_present(
    manager: EncryptionManager,
    memberships: Seq<JoinedMembership>,
    participant: ParticipantView,
)
    ensures
        has_join(manager.peers(memberships), participant) == takes_part(
            manager,
            memberships,
            participant.member_id,
            participant.membership_ts,
        ),
{
    let present = manager.peers(memberships);
    if has_join(present, participant) {
        let i = choose|i: int|
            0 <= i < present.len() && (#[trigger] present[i]).same_join(participant);
        assert(present.contains(present[i]));
        let at = lemma_peer_is_someone(manager, memberships, present[i]);
        assert(memberships[at].member_id@ == participant.member_id);
    }
    if takes_part(manager, memberships, participant.member_id, participant.membership_ts) {
        let i = choose|i: int|
            0 <= i < memberships.len() && !is_us(manager, #[trigger] memberships[i])
                && memberships[i].member_id@ == participant.member_id
                && memberships[i].membership_ts == participant.membership_ts;
        lemma_peer(manager, memberships, i);
        let at = choose|at: int|
            0 <= at < present.len() && present[at] == participant_of(memberships[i]);
        assert(present[at].same_join(participant));
    }
}

proof fn lemma_changes(
    manager: EncryptionManager,
    shared_with: Seq<ParticipantView>,
    memberships: Seq<JoinedMembership>,
)
    ensures
        some_missing(shared_with, manager.peers(memberships)) == someone_left(
            manager,
            shared_with,
            memberships,
        ),
        (missing(manager.peers(memberships), shared_with).len() > 0) == someone_arrived(
            manager,
            shared_with,
            memberships,
        ),
        some_shared(manager.peers(memberships), shared_with) == someone_stays(
            manager,
            shared_with,
            memberships,
        ),
{
    let present = manager.peers(memberships);
    assert forall|i: int| 0 <= i < shared_with.len() implies has_join(
        present,
        #[trigger] shared_with[i],
    ) == takes_part(
        manager,
        memberships,
        shared_with[i].member_id,
        shared_with[i].membership_ts,
    ) by {
        lemma_present(manager, memberships, shared_with[i]);
    }
    if some_missing(shared_with, present) {
        let i = choose|i: int|
            0 <= i < shared_with.len() && !has_join(present, #[trigger] shared_with[i]);
        assert(!takes_part(
            manager,
            memberships,
            shared_with[i].member_id,
            shared_with[i].membership_ts,
        ));
    }
    let keep = |participant: ParticipantView| !has_join(shared_with, participant);
    let arrivals = missing(present, shared_with);
    if arrivals.len() > 0 {
        present.lemma_filter_pred(keep, 0);
        assert(arrivals.contains(arrivals[0]));
        present.lemma_filter_contains_rev(keep, arrivals[0]);
        let i = lemma_peer_is_someone(manager, memberships, arrivals[0]);
        lemma_named(shared_with, arrivals[0]);
        assert(!is_us(manager, memberships[i]));
    }
    if someone_arrived(manager, shared_with, memberships) {
        let i = choose|i: int|
            0 <= i < memberships.len() && !is_us(manager, #[trigger] memberships[i]) && !names(
                shared_with,
                memberships[i].member_id@,
                memberships[i].membership_ts,
            );
        lemma_peer(manager, memberships, i);
        let at = choose|at: int|
            0 <= at < present.len() && present[at] == participant_of(memberships[i]);
        lemma_named(shared_with, present[at]);
        present.lemma_filter_contains(keep, at);
    }
    if some_shared(present, shared_with) {
        let at = choose|at: int|
            0 <= at < present.len() && has_join(shared_with, #[trigger] present[at]);
        assert(present.contains(present[at]));
        let i = lemma_peer_is_someone(manager, memberships, present[at]);
        lemma_named(shared_with, present[at]);
        assert(!is_us(manager, memberships[i]));
    }
    if someone_stays(manager, shared_with, memberships) {
        let i = choose|i: int|
            0 <= i < memberships.len() && !is_us(manager, #[trigger] memberships[i]) && names(
                shared_with,
                memberships[i].member_id@,
                memberships[i].membership_ts,
            );
        lemma_peer(manager, memberships, i);
        let at = choose|at: int|
            0 <= at < present.len() && present[at] == participant_of(memberships[i]);
        lemma_named(shared_with, present[at]);
    }
}

/// A rollout that rotates hands out a key that was drawn for it, of the length of
/// a media key and under the index that was next; the index after that is next
/// then, starting over after the last. Nothing a departed member holds is handed
/// out again. A rollout that does not rotate hands out the key we have.
pub proof fn law_rotation_hands_out_a_drawn_key(
    manager: EncryptionManager,
    memberships: Seq<JoinedMembership>,
    now: u64,
    after: EncryptionManager,
    rollout: Rollout,
)
    requires
        manager.rolled_out(memberships, now, after, Some(rollout)),
    ensures
        rollout.plan.rotating ==> {
            &&& drawn(rollout.key@)
            &&& rollout.key@.len() == 32
            &&& rollout.key_index == manager.next_key_index
            &&& after.next_key_index == (manager.next_key_index + 1) % 256
        },
        !rollout.plan.rotating ==> {
            &&& manager.outbound_key matches Some(key) && rollout.key@ == key.key@
                && rollout.key_index == key.key_index
            &&& after.next_key_index == manager.next_key_index
        },
        after.outbound_key == manager.outbound_key,
        rollout.started_at == now,
{
}

/// A first key is drawn, too, and starts at index zero with nobody holding it; the
/// keys after it count on from one.
pub proof fn law_first_key_is_drawn(
    manager: EncryptionManager,
    key: Vec<u8>,
    now: u64,
    after: EncryptionManager,
)
    requires
        manager.config.manage_media_keys,
        key@.len() == KEY_LENGTH,
        drawn(key@),
        manager.joined_with(key, now, after),
    ensures
        after.outbound_key matches Some(first) && {
            &&& drawn(first.key@)
            &&& first.key@.len() == 32
            &&& first.key_index == 0
            &&& first.creation_ts == now
            &&& first.shared_with@.len() == 0
        },
        after.next_key_index == 1,
{
    let first = after.outbound_key->0;
    assert(first@.shared_with.len() == first.shared_with@.len());
}

/// The greatest of three numbers.
pub open spec fn greatest(a: u64, b: u64, c: u64) -> int {
    if a >= b && a >= c {
        a as int
    } else if b >= c {
        b as int
    } else {
        c as int
    }
}

/// The key is replaced exactly when it should be: once its lifetime is over, and
/// before that once it is no longer fresh and somebody left or arrived. Otherwise
/// something is handed out exactly if somebody arrived. A key minted after `now`
/// and instants that no clock reaches are left out.
pub proof fn law_key_is_replaced_exactly_when_due(
    manager: EncryptionManager,
    memberships: Seq<JoinedMembership>,
    now: u64,
    after: EncryptionManager,
    started: Option<Rollout>,
)
    requires
        manager.rolled_out(memberships, now, after, started),
        manager.outbound_key is Some,
        manager.outbound_key->0.creation_ts <= now,
        manager.outbound_key->0.creation_ts + greatest(
            manager.config.max_key_lifetime_ms,
            manager.config.key_rotation_grace_period_ms,
            manager.config.delay_before_use_ms,
        ) <= u64::MAX,
    ensures
        ({
            let config = manager.config;
            let key = manager.outbound_key->0@;
            let settled = now >= key.creation_ts + greatest(
                config.key_rotation_grace_period_ms,
                config.delay_before_use_ms,
                0,
            );
            let over = now >= key.creation_ts + greatest(
                config.max_key_lifetime_ms,
                config.key_rotation_grace_period_ms,
                config.delay_before_use_ms,
            );
            let arrived = someone_arrived(manager, key.shared_with, memberships);
            let due = over || (settled && (arrived || someone_left(
                manager,
                key.shared_with,
                memberships,
            )));
            &&& due <==> started is Some && started->0.plan.rotating
            &&& started is Some <==> due || arrived
        }),
{
    lemma_changes(manager, manager.outbound_key->0@.shared_with, memberships);
}

/// A rotation reaches for everyone else who takes part and nobody else; handing
/// the key out without rotating, for everyone else who takes part and was not
/// handed it. Each is reached for at the device that its member event names.
pub proof fn law_rollout_is_for_everyone_it_should_be(
    manager: EncryptionManager,
    memberships: Seq<JoinedMembership>,
    now: u64,
    after: EncryptionManager,
    rollout: Rollout,
)
    requires
        manager.rolled_out(memberships, now, after, Some(rollout)),
    ensures
        ({
            let shared_with = manager.outbound_key->0@.shared_with;
            let recipients = rollout.plan@.recipients;
            &&& forall|i: int|
                0 <= i < memberships.len() && !is_us(manager, #[trigger] memberships[i]) && (
                rollout.plan.rotating || !names(
                    shared_with,
                    memberships[i].member_id@,
                    memberships[i].membership_ts,
                )) ==> exists|r: int|
                    0 <= r < recipients.len() && stands_for(
                        manager,
                        #[trigger] recipients[r],
                        memberships[i],
                    )
            &&& forall|r: int|
                0 <= r < recipients.len() ==> {
                    &&& exists|i: int|
                        0 <= i < memberships.len() && stands_for(
                            manager,
                            #[trigger] recipients[r],
                            #[trigger] memberships[i],
                        )
                    &&& rollout.plan.rotating || !names(
                        shared_with,
                        recipients[r].member_id,
                        recipients[r].membership_ts,
                    )
                }
        }),
{
    let shared_with = manager.outbound_key->0@.shared_with;
    let present = manager.peers(memberships);
    let recipients = rollout.plan@.recipients;
    let keep = |participant: ParticipantView| !has_join(shared_with, participant);
    let rotating = rollout.plan.rotating;
    assert(recipients == if rotating {
        present
    } else {
        present.filter(keep)
    });
    assert forall|i: int|
        0 <= i < memberships.len() && !is_us(manager, #[trigger] memberships[i]) && (rotating
            || !names(
            shared_with,
            memberships[i].member_id@,
            memberships[i].membership_ts,
        )) implies exists|r: int|
        0 <= r < recipients.len() && stands_for(
            manager,
            #[trigger] recipients[r],
            memberships[i],
        ) by {
        lemma_peer(manager, memberships, i);
        let participant = participant_of(memberships[i]);
        let at = choose|at: int| 0 <= at < present.len() && present[at] == participant;
        lemma_named(shared_with, participant);
        if !rotating {
            present.lemma_filter_contains(keep, at);
        }
        let r = choose|r: int| 0 <= r < recipients.len() && recipients[r] == participant;
        assert(stands_for(manager, recipients[r], memberships[i]));
    }
    assert forall|r: int| 0 <= r < recipients.len() implies {
        &&& exists|i: int|
            0 <= i < memberships.len() && stands_for(
                manager,
                #[trigger] recipients[r],
                #[trigger] memberships[i],
            )
        &&& rotating || !names(
            shared_with,
            recipients[r].member_id,
            recipients[r].membership_ts,
        )
    } by {
        assert(recipients.contains(recipients[r]));
        if !rotating {
            present.lemma_filter_pred(keep, r);
            present.lemma_filter_contains_rev(keep, recipients[r]);
            lemma_named(shared_with, recipients[r]);
        }
        let i = lemma_peer_is_someone(manager, memberships, recipients[r]);
        assert(stands_for(manager, recipients[r], memberships[i]));
    }
}

/// A new key waits before it is used exactly where somebody stays who was handed
/// the one it replaces, and then as long as configured.
pub proof fn law_new_key_waits_for_those_who_stay(
    manager: EncryptionManager,
    memberships: Seq<JoinedMembership>,
    now: u64,
    after: EncryptionManager,
    rollout: Rollout,
)
    requires
        manager.rolled_out(memberships, now, after, Some(rollout)),
    ensures
        rollout.plan.use_after_ms == (if rollout.plan.rotating && someone_stays(
            manager,
            manager.outbound_key->0@.shared_with,
            memberships,
        ) {
            manager.config.delay_before_use_ms
        } else {
            0
        }),
        after.rotation_due_at matches Some(due_at) && due_at == rollout.plan.due_at,
        rollout.plan.use_after_ms > 0 ==> rollout.plan@.still_in_use == manager.in_use(now),
{
    lemma_changes(manager, manager.outbound_key->0@.shared_with, memberships);
}

/// Once a rotation is finished the key it handed out is ours, held by exactly those
/// it reached, and the application is told of it with the delay it was planned
/// with. Until the delay is over we go on encrypting with what was in use before.
pub proof fn law_finished_rotation_takes_effect(
    manager: EncryptionManager,
    rollout: Rollout,
    served: Seq<ParticipantView>,
    now: u64,
    after: EncryptionManager,
    signal: Option<PendingSignal>,
    then: u64,
)
    requires
        rollout.plan.rotating,
        manager.finished(rollout, served, now, after, signal),
        rollout.started_at + rollout.plan.use_after_ms <= u64::MAX,
    ensures
        after.outbound_key matches Some(key) && {
            &&& key.key@ == rollout.key@
            &&& key.key_index == rollout.key_index
            &&& key.creation_ts == rollout.started_at
            &&& key@.shared_with == served
        },
        after.next_key_index == manager.next_key_index,
        manager.has_signal_handler && manager.config.manage_media_keys ==> {
            &&& signal matches Some(told) && {
                &&& told.key@ == rollout.key@
                &&& told.key_index == rollout.key_index
                &&& told.use_after_ms == rollout.plan.use_after_ms
                &&& told.subject.user_id@ == manager.own_user_id@
                &&& told.subject.device_id@ == manager.own_device_id@
                &&& told.subject.member_id@ == manager.own_member_id@
                &&& told.subject.is_own
            }
        },
        rollout.started_at <= then < rollout.started_at + rollout.plan.use_after_ms
            && rollout.plan.still_in_use is Some ==> after.in_use(then) == Some(
            (rollout.plan.still_in_use->0.key_index, rollout.plan.still_in_use->0.key@),
        ),
        then >= rollout.started_at + rollout.plan.use_after_ms ==> after.in_use(then) == Some(
            (rollout.key_index, rollout.key@),
        ),
{
}

/// Exactly those arrivals also need the key on the wire that the rollout reached,
/// and only where that key has another index than the one they were sent.
pub proof fn law_arrivals_get_the_key_on_the_wire(
    rollout: Rollout,
    served: Seq<ParticipantView>,
    arrival: ParticipantView,
)
    ensures
        rollout.arrivals_to_cover(served).contains(arrival) <==> {
            &&& rollout.plan.still_in_use matches Some(in_use) && in_use.key_index
                != rollout.key_index
            &&& rollout.plan@.arrivals.contains(arrival)
            &&& exists|i: int|
                0 <= i < served.len() && (#[trigger] served[i]).member_id == arrival.member_id
        },
{
    let keep = |arrival: ParticipantView|
        crate::encryption::outbound::has_member_id(served, arrival.member_id);
    let arrivals = rollout.plan@.arrivals;
    let covered = rollout.arrivals_to_cover(served);
    if arrivals.contains(arrival) && keep(arrival) {
        let i = choose|i: int| 0 <= i < arrivals.len() && arrivals[i] == arrival;
        arrivals.lemma_filter_contains(keep, i);
    }
    if covered.contains(arrival) {
        let i = choose|i: int| 0 <= i < covered.len() && covered[i] == arrival;
        if rollout.plan.still_in_use is Some && rollout.plan.still_in_use->0.key_index
            != rollout.key_index {
            arrivals.lemma_filter_contains_rev(keep, arrival);
            arrivals.lemma_filter_pred(keep, i);
        }
    }
}

/// A rollout that does not rotate leaves the key as it was and tells the
/// application nothing; afterwards exactly those hold the key who held it before
/// or were reached.
pub proof fn law_handing_out_keeps_the_key(
    manager: EncryptionManager,
    rollout: Rollout,
    served: Seq<ParticipantView>,
    now: u64,
    after: EncryptionManager,
    signal: Option<PendingSignal>,
    member_id: Seq<char>,
    since: Option<u64>,
)
    requires
        !rollout.plan.rotating,
        manager.outbound_key is Some,
        manager.finished(rollout, served, now, after, signal),
    ensures
        signal is None,
        after.outbound_key matches Some(key) && {
            &&& key.key@ == manager.outbound_key->0.key@
            &&& key.key_index == manager.outbound_key->0.key_index
            &&& key.creation_ts == manager.outbound_key->0.creation_ts
            &&& names(key@.shared_with, member_id, since) <==> names(
                manager.outbound_key->0@.shared_with,
                member_id,
                since,
            ) || names(served, member_id, since)
        },
        after.in_use(now) == manager.in_use(now),
{
    let participant = ParticipantView {
        user_id: Seq::empty(),
        device_id: Seq::empty(),
        member_id,
        membership_ts: since,
    };
    let shared = manager.outbound_key->0@.shared_with;
    crate::encryption::laws::law_only_the_served_are_recorded(shared, served, participant);
    lemma_named(shared, participant);
    lemma_named(served, participant);
    lemma_named(after.outbound_key->0@.shared_with, participant);
}

proof fn lemma_found(memberships: Seq<JoinedMembership>, member_id: Seq<char>)
    ensures
        match find_membership(memberships, member_id) {
            Some(membership) => {
                &&& memberships.contains(membership)
                &&& membership.member_id@ == member_id
            },
            None => forall|i: int|
                0 <= i < memberships.len() ==> (#[trigger] memberships[i]).member_id@ != member_id,
        },
    decreases memberships.len(),
{
    if memberships.len() > 0 && memberships[0].member_id@ != member_id {
        let rest = memberships.drop_first();
        lemma_found(rest, member_id);
        match find_membership(rest, member_id) {
            Some(membership) => {
                let i = choose|i: int| 0 <= i < rest.len() && rest[i] == membership;
                assert(memberships[i + 1] == membership);
            },
            None => {
                assert forall|i: int| 0 <= i < memberships.len() implies (
                #[trigger] memberships[i]).member_id@ != member_id by {
                    if i > 0 {
                        assert(rest[i - 1] == memberships[i]);
                    }
                }
            },
        }
    } else if memberships.len() > 0 {
        assert(memberships[0].member_id@ == member_id);
    }
}

/// A member is found exactly if there is one of that member id, and who is found
/// is one.
pub proof fn law_member_is_found_by_its_id(
    memberships: Seq<JoinedMembership>,
    member_id: Seq<char>,
)
    ensures
        find_membership(memberships, member_id) is Some <==> exists|i: int|
            0 <= i < memberships.len() && (#[trigger] memberships[i]).member_id@ == member_id,
        find_membership(memberships, member_id) matches Some(membership) ==> memberships.contains(
            membership,
        ) && membership.member_id@ == member_id,
{
    lemma_found(memberships, member_id);
    if find_membership(memberships, member_id) is Some {
        let membership = find_membership(memberships, member_id)->0;
        let i = choose|i: int| 0 <= i < memberships.len() && memberships[i] == membership;
        assert(memberships[i].member_id@ == member_id);
    }
}

/// A key is only ever addressed to the user and the very device that a member
/// event of the target's member id came from, and every target that has such an
/// event, naming a device, is addressed.
pub proof fn law_key_is_addressed_to_the_members_device(
    targets: Seq<ParticipantView>,
    memberships: Seq<JoinedMembership>,
    target: ParticipantView,
)
    ensures
        addressable(targets, memberships).contains(target) <==> targets.contains(target)
            && address_of(memberships, target) is Some,
        address_of(memberships, target) matches Some(address) ==> exists|i: int|
            0 <= i < memberships.len() && (#[trigger] memberships[i]).member_id@
                == target.member_id && memberships[i].sender@ == address.0
                && memberships[i].origin.device() == Some(address.1),
        (exists|i: int|
            0 <= i < memberships.len() && (#[trigger] memberships[i]).member_id@
                == target.member_id) && (forall|i: int|
            0 <= i < memberships.len() && (#[trigger] memberships[i]).member_id@
                == target.member_id ==> memberships[i].origin.device() is Some) ==> address_of(
            memberships,
            target,
        ) is Some,
{
    lemma_found(memberships, target.member_id);
    match find_membership(memberships, target.member_id) {
        Some(membership) => {
            let i = choose|i: int| 0 <= i < memberships.len() && memberships[i] == membership;
            assert(memberships[i].member_id@ == target.member_id);
        },
        None => {},
    }
    let keep = |target: ParticipantView| address_of(memberships, target) is Some;
    let kept = addressable(targets, memberships);
    if targets.contains(target) && keep(target) {
        let i = choose|i: int| 0 <= i < targets.len() && targets[i] == target;
        targets.lemma_filter_contains(keep, i);
    }
    if kept.contains(target) {
        targets.lemma_filter_contains_rev(keep, target);
        let i = choose|i: int| 0 <= i < kept.len() && kept[i] == target;
        targets.lemma_filter_pred(keep, i);
    }
}

/// What a key message says: which room and whose key it is, the key and its index,
/// and the format. `encoded` is the key as it travels.
pub proof fn law_key_message_carries_the_key(
    room_id: Seq<char>,
    member_id: Seq<char>,
    key_index: u8,
    key: Seq<u8>,
    encoded: Seq<char>,
)
    requires
        base64_decoded(encoded) == read_as(key),
    ensures
        ({
            let content = key_content(room_id, member_id, key_index, encoded);
            &&& content.get("room_id"@) == Some(JsonView::Text(room_id))
            &&& content.get("member_id"@) == Some(JsonView::Text(member_id))
            &&& content.get_in("media_key"@, "index"@) == Some(
                JsonView::number(key_index as u64),
            )
            &&& content.get_in("media_key"@, "key"@) matches Some(JsonView::Text(text))
                && base64_decoded(text) == Ok::<Seq<u8>, Seq<char>>(key)
            &&& content.get("format"@) == Some(JsonView::number(0))
        }),
{
    reveal_strlit("room_id");
    reveal_strlit("member_id");
    reveal_strlit("media_key");
    reveal_strlit("format");
    reveal_strlit("index");
    reveal_strlit("key");
    assert("room_id"@.len() == 7 && "member_id"@.len() == 9 && "media_key"@.len() == 9);
    assert("format"@.len() == 6 && "index"@.len() == 5 && "key"@.len() == 3);
    assert("member_id"@[1] == 'e' && "member_id"@[2] == 'm' && "media_key"@[2] == 'd');
}

proof fn lemma_first_delivery(
    deliveries: Seq<ToDeviceDelivery>,
    user_id: Seq<char>,
    device_id: Seq<char>,
)
    ensures
        match first_delivery(deliveries, user_id, device_id) {
            Some(delivery) => {
                &&& deliveries.contains(delivery)
                &&& delivery.recipient.user_id@ == user_id
                &&& delivery.recipient.device_id@ == device_id
            },
            None => forall|i: int|
                0 <= i < deliveries.len() ==> !((#[trigger] deliveries[i]).recipient.user_id@
                    == user_id && deliveries[i].recipient.device_id@ == device_id),
        },
    decreases deliveries.len(),
{
    if deliveries.len() > 0 {
        if deliveries[0].recipient.user_id@ == user_id && deliveries[0].recipient.device_id@
            == device_id {
            assert(deliveries.contains(deliveries[0]));
        } else {
            let rest = deliveries.drop_first();
            lemma_first_delivery(rest, user_id, device_id);
            match first_delivery(rest, user_id, device_id) {
                Some(delivery) => {
                    let i = choose|i: int| 0 <= i < rest.len() && rest[i] == delivery;
                    assert(deliveries[i + 1] == delivery);
                },
                None => {
                    assert forall|i: int| 0 <= i < deliveries.len() implies !((
                    #[trigger] deliveries[i]).recipient.user_id@ == user_id
                        && deliveries[i].recipient.device_id@ == device_id) by {
                        if i > 0 {
                            assert(rest[i - 1] == deliveries[i]);
                        }
                    }
                },
            }
        }
    }
}

/// Whoever counts as served was addressed, and a delivery to their very device was
/// reported without an error; whoever was addressed and had nothing but such
/// deliveries reported counts. A batch that never left served nobody.
pub proof fn law_served_is_who_was_reached(
    addressed: Seq<ParticipantView>,
    outcome: Result<Vec<ToDeviceDelivery>, CommandError>,
    target: ParticipantView,
)
    ensures
        served_by(addressed, outcome).contains(target) ==> addressed.contains(target) && outcome
            is Ok && exists|i: int|
            0 <= i < outcome->Ok_0@.len() && (
            #[trigger] outcome->Ok_0@[i]).recipient.user_id@ == target.user_id
                && outcome->Ok_0@[i].recipient.device_id@ == target.device_id
                && outcome->Ok_0@[i].error is None,
        addressed.contains(target) && outcome is Ok && (exists|i: int|
            0 <= i < outcome->Ok_0@.len() && (
            #[trigger] outcome->Ok_0@[i]).recipient.user_id@ == target.user_id
                && outcome->Ok_0@[i].recipient.device_id@ == target.device_id) && (forall|i: int|
            0 <= i < outcome->Ok_0@.len() && (
            #[trigger] outcome->Ok_0@[i]).recipient.user_id@ == target.user_id
                && outcome->Ok_0@[i].recipient.device_id@ == target.device_id
                ==> outcome->Ok_0@[i].error is None) ==> served_by(addressed, outcome).contains(
            target,
        ),
{
    match outcome {
        Ok(deliveries) => {
            let keep = |target: ParticipantView|
                crate::encryption::outbound::reached(deliveries@, target);
            lemma_first_delivery(deliveries@, target.user_id, target.device_id);
            let served = served_by(addressed, outcome);
            if served.contains(target) {
                addressed.lemma_filter_contains_rev(keep, target);
                let i = choose|i: int| 0 <= i < served.len() && served[i] == target;
                addressed.lemma_filter_pred(keep, i);
                let delivery = first_delivery(deliveries@, target.user_id, target.device_id)->0;
                let d = choose|d: int| 0 <= d < deliveries@.len() && deliveries@[d] == delivery;
                assert(deliveries@[d].error is None);
            }
            if addressed.contains(target) {
                match first_delivery(deliveries@, target.user_id, target.device_id) {
                    Some(delivery) => {
                        let d = choose|d: int|
                            0 <= d < deliveries@.len() && deliveries@[d] == delivery;
                        if deliveries@[d].error is None {
                            let i = choose|i: int|
                                0 <= i < addressed.len() && addressed[i] == target;
                            addressed.lemma_filter_contains(keep, i);
                        }
                    },
                    None => {},
                }
            }
        },
        Err(_) => {},
    }
}

/// After a rollout the key in place is replaced in time: a new one once its lifetime is
/// over, the old one likewise, but once it is no longer fresh if somebody left who holds
/// it. A rotation falls due at that time and not before. A key minted after `now` and
/// instants that no clock reaches are left out.
pub proof fn law_rotation_falls_due_in_time(
    manager: EncryptionManager,
    memberships: Seq<JoinedMembership>,
    now: u64,
    after: EncryptionManager,
    started: Option<Rollout>,
    then: u64,
)
    requires
        manager.rolled_out(memberships, now, after, started),
        manager.outbound_key is Some,
        manager.outbound_key->0.creation_ts <= now,
        now + greatest(
            manager.config.max_key_lifetime_ms,
            manager.config.key_rotation_grace_period_ms,
            manager.config.delay_before_use_ms,
        ) <= u64::MAX,
    ensures
        ({
            let config = manager.config;
            let key = manager.outbound_key->0@;
            let fresh_for = greatest(
                config.key_rotation_grace_period_ms,
                config.delay_before_use_ms,
                0,
            );
            let lives_for = greatest(
                config.max_key_lifetime_ms,
                config.key_rotation_grace_period_ms,
                config.delay_before_use_ms,
            );
            let due_at = if started is Some && started->0.plan.rotating {
                now + lives_for
            } else if someone_left(manager, key.shared_with, memberships) {
                key.creation_ts + fresh_for
            } else {
                key.creation_ts + lives_for
            };
            &&& after.rotation_due_at == Some(due_at as u64)
            &&& after.rotation_is_due(then) <==> then >= due_at
        }),
{
    lemma_changes(manager, manager.outbound_key->0@.shared_with, memberships);
}

/// The arrivals of a rollout are everyone else who takes part and was not handed the key
/// that we have, and nobody else. What is on the wire is handed to them too where a new
/// key waits, and stays in use where none is minted.
pub proof fn law_arrivals_are_who_was_not_handed_the_key(
    manager: EncryptionManager,
    memberships: Seq<JoinedMembership>,
    now: u64,
    after: EncryptionManager,
    rollout: Rollout,
)
    requires
        manager.rolled_out(memberships, now, after, Some(rollout)),
    ensures
        ({
            let shared_with = manager.outbound_key->0@.shared_with;
            let arrivals = rollout.plan@.arrivals;
            &&& forall|i: int|
                0 <= i < memberships.len() && !is_us(manager, #[trigger] memberships[i]) && !names(
                    shared_with,
                    memberships[i].member_id@,
                    memberships[i].membership_ts,
                ) ==> exists|r: int|
                    0 <= r < arrivals.len() && stands_for(
                        manager,
                        #[trigger] arrivals[r],
                        memberships[i],
                    )
            &&& forall|r: int|
                0 <= r < arrivals.len() ==> {
                    &&& exists|i: int|
                        0 <= i < memberships.len() && stands_for(
                            manager,
                            #[trigger] arrivals[r],
                            #[trigger] memberships[i],
                        )
                    &&& !names(shared_with, arrivals[r].member_id, arrivals[r].membership_ts)
                }
        }),
        !rollout.plan.rotating || rollout.plan.use_after_ms > 0 ==> rollout.plan@.still_in_use
            == manager.in_use(now),
        rollout.plan.rotating && rollout.plan.use_after_ms == 0 ==> rollout.plan.still_in_use
            is None,
{
    let shared_with = manager.outbound_key->0@.shared_with;
    let present = manager.peers(memberships);
    let arrivals = rollout.plan@.arrivals;
    let keep = |participant: ParticipantView| !has_join(shared_with, participant);
    assert(arrivals == present.filter(keep));
    assert forall|i: int|
        0 <= i < memberships.len() && !is_us(manager, #[trigger] memberships[i]) && !names(
            shared_with,
            memberships[i].member_id@,
            memberships[i].membership_ts,
        ) implies exists|r: int|
        0 <= r < arrivals.len() && stands_for(manager, #[trigger] arrivals[r], memberships[i]) by {
        lemma_peer(manager, memberships, i);
        let participant = participant_of(memberships[i]);
        let at = choose|at: int| 0 <= at < present.len() && present[at] == participant;
        lemma_named(shared_with, participant);
        present.lemma_filter_contains(keep, at);
        let r = choose|r: int| 0 <= r < arrivals.len() && arrivals[r] == participant;
        assert(stands_for(manager, arrivals[r], memberships[i]));
    }
    assert forall|r: int| 0 <= r < arrivals.len() implies {
        &&& exists|i: int|
            0 <= i < memberships.len() && stands_for(
                manager,
                #[trigger] arrivals[r],
                #[trigger] memberships[i],
            )
        &&& !names(shared_with, arrivals[r].member_id, arrivals[r].membership_ts)
    } by {
        assert(arrivals.contains(arrivals[r]));
        present.lemma_filter_pred(keep, r);
        present.lemma_filter_contains_rev(keep, arrivals[r]);
        lemma_named(shared_with, arrivals[r]);
        let i = lemma_peer_is_someone(manager, memberships, arrivals[r]);
        assert(stands_for(manager, arrivals[r], memberships[i]));
    }
}

/// A key message says which room and which member of ours it is of, and carries the key
/// and its index; it goes to the devices that the targets' member events name, one for
/// one, and there is none exactly where no target has such a device.
pub proof fn law_key_goes_to_every_device_it_can(
    manager: EncryptionManager,
    key: Seq<u8>,
    key_index: u8,
    targets: Seq<ParticipantView>,
    memberships: Seq<JoinedMembership>,
    send: Option<KeySend>,
)
    requires
        manager.addressed_to(key, key_index, targets, memberships, send),
    ensures
        send is None <==> forall|t: int|
            0 <= t < targets.len() ==> address_of(memberships, #[trigger] targets[t]) is None,
        send matches Some(send) ==> {
            &&& send.content@.get("room_id"@) == Some(JsonView::Text(manager.room_id@))
            &&& send.content@.get("member_id"@) == Some(JsonView::Text(manager.own_member_id@))
            &&& send.content@.get_in("media_key"@, "index"@) == Some(
                JsonView::number(key_index as u64),
            )
            &&& send.content@.get_in("media_key"@, "key"@) matches Some(JsonView::Text(text))
                && base64_decoded(text) == Ok::<Seq<u8>, Seq<char>>(key)
            &&& send.recipients@.len() == send.addressed@.len()
            &&& forall|t: int|
                0 <= t < targets.len() && address_of(memberships, #[trigger] targets[t]) is Some
                    ==> exists|r: int|
                    0 <= r < send.recipients@.len() && send.addressed@[r]@ == targets[t] && Some(
                        (
                            (#[trigger] send.recipients@[r]).user_id@,
                            send.recipients@[r].device_id@,
                        ),
                    ) == address_of(memberships, targets[t])
        },
{
    let kept = addressable(targets, memberships);
    let keep = |target: ParticipantView| address_of(memberships, target) is Some;
    if send is None {
        assert forall|t: int| 0 <= t < targets.len() implies address_of(
            memberships,
            #[trigger] targets[t],
        ) is None by {
            if address_of(memberships, targets[t]) is Some {
                targets.lemma_filter_contains(keep, t);
                assert(kept.len() > 0);
            }
        }
    } else {
        let send = send->0;
        law_key_message_carries_the_key(
            manager.room_id@,
            manager.own_member_id@,
            key_index,
            key,
            crate::encoding::base64_encoded(key),
        );
        let views = crate::encryption::types::participants(send.addressed@);
        assert(views.len() == send.addressed@.len());
        assert(views[0] == kept[0]);
        targets.lemma_filter_pred(keep, 0);
        assert(kept.contains(kept[0]));
        targets.lemma_filter_contains_rev(keep, kept[0]);
        let found = choose|t: int| 0 <= t < targets.len() && targets[t] == kept[0];
        assert(address_of(memberships, targets[found]) is Some);
        assert forall|t: int|
            0 <= t < targets.len() && address_of(memberships, #[trigger] targets[t])
                is Some implies exists|r: int|
            0 <= r < send.recipients@.len() && send.addressed@[r]@ == targets[t] && Some(
                ((#[trigger] send.recipients@[r]).user_id@, send.recipients@[r].device_id@),
            ) == address_of(memberships, targets[t]) by {
            targets.lemma_filter_contains(keep, t);
            let r = choose|r: int| 0 <= r < kept.len() && kept[r] == targets[t];
            assert(views[r] == send.addressed@[r]@);
            let (user_id, device_id) = address_of(memberships, targets[t])->0;
            assert(send.recipients@[r].user_id@ == user_id);
        }
    }
}

/// While a distribution is under way, any number of requests for another come to one
/// more: none of them proceeds, and when the rollout ends exactly one more follows, after
/// which nothing is under way.
pub proof fn law_requests_come_to_one_more_distribution(
    idle: EncryptionManager,
    begun: EncryptionManager,
    first: bool,
    asked: EncryptionManager,
    second: bool,
    asked_again: EncryptionManager,
    third: bool,
    ended: EncryptionManager,
    again: bool,
    done: EncryptionManager,
    more: bool,
)
    requires
        idle.config.manage_media_keys,
        !idle.key_distribution_in_progress,
        !idle.need_new_distribution,
        idle.asked_to_distribute(begun, first),
        begun.asked_to_distribute(asked, second),
        asked.asked_to_distribute(asked_again, third),
        asked_again.ended_rollout(ended, again),
        ended.ended_rollout(done, more),
    ensures
        first,
        !second,
        !third,
        again,
        ended.key_distribution_in_progress,
        !more,
        !done.key_distribution_in_progress,
        !done.need_new_distribution,
{
}

/// A distribution that nobody asked for another during ends with the one rollout. Where
/// media keys are not managed none begins.
pub proof fn law_undisturbed_distribution_ends(
    idle: EncryptionManager,
    begun: EncryptionManager,
    proceed: bool,
    done: EncryptionManager,
    again: bool,
)
    requires
        !idle.key_distribution_in_progress,
        !idle.need_new_distribution,
        idle.asked_to_distribute(begun, proceed),
        begun.ended_rollout(done, again),
    ensures
        proceed <==> idle.config.manage_media_keys,
        !again,
        !done.key_distribution_in_progress,
        done.outbound_key == idle.outbound_key,
{
}

} // verus!
