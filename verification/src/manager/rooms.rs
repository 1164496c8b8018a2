//! What the state of a room comes to for the sessions in it.

use vstd::prelude::*;
use crate::commands::RtcCommand;
use crate::error::{CommandError, JoinError, LeaveError};
use crate::join::{JoinSessionParams, LeaveSessionParams};
use crate::joining::states_our_leave;
use crate::json::JsonView;
use crate::manager::{
    elsewhere, law_slots_are_scoped_to_their_room, slot_event, within, RtcSessionManager,
};
use crate::own_membership::OwnMembershipState;
use crate::participation::JoinAttempt;
use crate::slot::{
    EncryptionMechanism, RawSlotEvent, RoomEncryption, SlotEncryption, SlotState, SlotStatus,
};
use crate::text::texts;
use crate::wire::{lemma_content_names, lemma_inner_names};

verus! {

/// Whether an event is the last of several that is of a slot of a room.
pub open spec fn is_last_word(
    slots: Seq<RawSlotEvent>,
    room_id: Seq<char>,
    slot_id: Seq<char>,
    k: int,
) -> bool {
    &&& 0 <= k < slots.len()
    &&& slots[k].room_id@ == room_id
    &&& slots[k].slot_id@ == slot_id
    &&& forall|j: int|
        k < j < slots.len() ==> (#[trigger] slots[j]).room_id@ != room_id || slots[j].slot_id@
            != slot_id
}

/// Whether none of several events is of a slot of a room.
pub open spec fn goes_unmentioned(
    slots: Seq<RawSlotEvent>,
    room_id: Seq<char>,
    slot_id: Seq<char>,
) -> bool {
    forall|j: int|
        0 <= j < slots.len() ==> (#[trigger] slots[j]).room_id@ != room_id || slots[j].slot_id@
            != slot_id
}

/// Whether a slot event opens its slot, given what is known of the room's encryption:
/// it says so, for an application that the slot id begins with, and its sessions are
/// encrypted where the room is and nowhere else.
pub open spec fn opens(slot: RawSlotEvent, room: RoomEncryption) -> bool {
    &&& slot.content.status == Some(SlotStatus::Open)
    &&& slot.content.application_type matches Some(application) && {
        &&& application@.len() > 0
        &&& slot.slot_id@.len() > application@.len()
        &&& slot.slot_id@.take(application@.len() as int) == application@
        &&& slot.slot_id@[application@.len() as int] == '#'
    }
    &&& room == RoomEncryption::Encrypted ==> slot.content.encryption is Some
    &&& room == RoomEncryption::Unencrypted ==> slot.content.encryption is None
}

/// A slot is open exactly if its event opens it, for the application and with the
/// encryption that the event names.
pub proof fn law_slot_is_open_exactly_if_opened(slot: RawSlotEvent, room: RoomEncryption)
    ensures
        slot.resolved(room) is Open <==> opens(slot, room),
        slot.resolved(room) matches SlotState::Open(open) ==> slot.content.application_type == Some(
            open.application_type,
        ) && open.encryption == slot.content.encryption,
{
    reveal_strlit("#");
    match slot.content.application_type {
        Some(application) => {
            let prefix = application@ + "#"@;
            assert(prefix.len() == application@.len() + 1);
            assert(prefix[application@.len() as int] == '#');
            if crate::text::has_prefix(slot.slot_id@, prefix) {
                assert(slot.slot_id@.take(prefix.len() as int) == prefix);
                assert(slot.slot_id@.take(application@.len() as int) =~= slot.slot_id@.take(
                    prefix.len() as int,
                ).take(application@.len() as int));
                assert(prefix.take(application@.len() as int) =~= application@);
                assert(slot.slot_id@[application@.len() as int] == slot.slot_id@.take(
                    prefix.len() as int,
                )[application@.len() as int]);
            }
            if opens(slot, room) {
                assert(slot.slot_id@.take(prefix.len() as int) =~= prefix) by {
                    assert forall|i: int| 0 <= i < application@.len() implies slot.slot_id@[i]
                        == application@[i] by {
                        assert(slot.slot_id@.take(application@.len() as int)[i]
                            == application@[i]);
                    }
                }
            }
        },
        None => {},
    }
}

proof fn lemma_slot_event(
    slots: Seq<RawSlotEvent>,
    room_id: Seq<char>,
    slot_id: Seq<char>,
)
    ensures
        goes_unmentioned(slots, room_id, slot_id) ==> slot_event(slots, room_id, slot_id) is None,
        forall|k: int|
            is_last_word(slots, room_id, slot_id, k) ==> slot_event(slots, room_id, slot_id)
                == Some(#[trigger] slots[k]),
    decreases slots.len(),
{
    if slots.len() > 0 {
        let rest = slots.drop_last();
        lemma_slot_event(rest, room_id, slot_id);
        if goes_unmentioned(slots, room_id, slot_id) {
            assert(slots[slots.len() - 1].room_id@ != room_id || slots[slots.len() - 1].slot_id@
                != slot_id);
            assert forall|j: int| 0 <= j < rest.len() implies (#[trigger] rest[j]).room_id@
                != room_id || rest[j].slot_id@ != slot_id by {
                assert(rest[j] == slots[j]);
            }
        }
        assert forall|k: int| is_last_word(slots, room_id, slot_id, k) implies slot_event(
            slots,
            room_id,
            slot_id,
        ) == Some(#[trigger] slots[k]) by {
            if k < slots.len() - 1 {
                assert(slots[slots.len() - 1].room_id@ != room_id || slots[slots.len()
                    - 1].slot_id@ != slot_id);
                assert forall|j: int| k < j < rest.len() implies (#[trigger] rest[j]).room_id@
                    != room_id || rest[j].slot_id@ != slot_id by {
                    assert(rest[j] == slots[j]);
                }
                assert(is_last_word(rest, room_id, slot_id, k));
                assert(rest[k] == slots[k]);
            }
        }
    }
}

/// Of one room's slot events, those of the room that were noted before do not count.
proof fn lemma_only_the_new_count(
    before: Seq<RawSlotEvent>,
    slots: Seq<RawSlotEvent>,
    room_id: Seq<char>,
    slot_id: Seq<char>,
)
    ensures
        slot_event(
            before.filter(elsewhere(room_id)) + slots.filter(within(room_id)),
            room_id,
            slot_id,
        ) == slot_event(slots, room_id, slot_id),
    decreases slots.len(),
{
    reveal(Seq::filter);
    let kept = before.filter(elsewhere(room_id));
    let added = slots.filter(within(room_id));
    if slots.len() == 0 {
        assert(kept + added =~= kept);
        assert forall|j: int| 0 <= j < kept.len() implies (#[trigger] kept[j]).room_id@ != room_id
            || kept[j].slot_id@ != slot_id by {
            before.lemma_filter_pred(elsewhere(room_id), j);
        }
        lemma_slot_event(kept, room_id, slot_id);
    } else {
        let rest = slots.drop_last();
        let fewer = rest.filter(within(room_id));
        lemma_only_the_new_count(before, rest, room_id, slot_id);
        if within(room_id)(slots.last()) {
            assert(added == fewer.push(slots.last()));
            assert((kept + added).drop_last() =~= kept + fewer);
            assert((kept + added).last() == slots.last());
        } else {
            assert(added == fewer);
        }
    }
}

/// Noting the slots of a room settles which sessions can be held there: a slot is what
/// the last event that names it makes of it, and closed where none does. What an
/// earlier note said of the room counts no more.
pub proof fn law_noted_slots_govern_their_room(
    before: RtcSessionManager,
    room_id: Seq<char>,
    slots: Seq<RawSlotEvent>,
    after: RtcSessionManager,
    i: int,
    k: int,
)
    requires
        before.noted_slots(room_id, slots, after),
        after.wf(),
        0 <= i < after.sessions@.len(),
        after.sessions@[i].key.room_id@ == room_id,
    ensures
        after.sessions@[i].session.slot is Some,
        goes_unmentioned(slots, room_id, after.sessions@[i].key.slot_id@)
            ==> after.sessions@[i].session.slot->0 is Closed,
        is_last_word(slots, room_id, after.sessions@[i].key.slot_id@, k) ==> {
            &&& after.sessions@[i].session.slot->0 is Open <==> opens(
                slots[k],
                before.encryption_of(room_id),
            )
            &&& after.sessions@[i].session.slot->0 matches SlotState::Open(open)
                ==> slots[k].content.application_type == Some(open.application_type)
                && open.encryption == slots[k].content.encryption
        },
{
    let slot_id = after.sessions@[i].key.slot_id@;
    assert(after.governs(after.sessions@[i]));
    assert(after.knows_slots(room_id));
    lemma_only_the_new_count(before.slots@, slots, room_id, slot_id);
    lemma_slot_event(slots, room_id, slot_id);
    if is_last_word(slots, room_id, slot_id, k) {
        assert(slot_event(slots, room_id, slot_id) == Some(slots[k]));
        law_slot_is_open_exactly_if_opened(slots[k], before.encryption_of(room_id));
    }
}

/// Noting or forgetting the slots of a room leaves the sessions of every other room
/// what they were, and everybody who is in a session in it.
pub proof fn law_slots_are_of_one_room(
    before: RtcSessionManager,
    room_id: Seq<char>,
    slots: Seq<RawSlotEvent>,
    after: RtcSessionManager,
    i: int,
)
    requires
        before.noted_slots(room_id, slots, after) || before.forgot_slots(room_id, after),
        before.wf(),
        after.wf(),
        0 <= i < before.sessions@.len(),
    ensures
        after.sessions@.len() == before.sessions@.len(),
        after.sessions@[i].key == before.sessions@[i].key,
        after.sessions@[i].session.candidates == before.sessions@[i].session.candidates,
        after.sessions@[i].session.own == before.sessions@[i].session.own,
        after.sessions@[i].session.encryption == before.sessions@[i].session.encryption,
        before.sessions@[i].key.room_id@ != room_id ==> after.sessions@[i].session.slot
            == before.sessions@[i].session.slot,
{
    let room = before.sessions@[i].key.room_id@;
    let slot_id = before.sessions@[i].key.slot_id@;
    assert(after.sessions@[i].key == before.sessions@[i].key);
    assert(before.governs(before.sessions@[i]));
    assert(after.governs(after.sessions@[i]));
    if room != room_id {
        assert(after.knows_slots(room) == before.knows_slots(room));
        if before.noted_slots(room_id, slots, after) {
            law_slots_are_scoped_to_their_room(before.slots@, slots, room, slot_id, room_id);
        } else {
            let none = Seq::<RawSlotEvent>::empty();
            reveal(Seq::filter);
            law_slots_are_scoped_to_their_room(before.slots@, none, room, slot_id, room_id);
            assert(none.filter(within(room_id)) =~= none);
            assert(before.slots@.filter(elsewhere(room_id)) + none =~= before.slots@.filter(
                elsewhere(room_id),
            ));
        }
    }
}

/// Forgetting the slots of a room is not to close them: no session there depends on a
/// slot any more, and to note the room without slots closes every one of them.
pub proof fn law_forgotten_slots_close_nothing(
    before: RtcSessionManager,
    room_id: Seq<char>,
    forgotten: RtcSessionManager,
    emptied: RtcSessionManager,
    i: int,
)
    requires
        before.forgot_slots(room_id, forgotten),
        forgotten.wf(),
        before.noted_slots(room_id, Seq::empty(), emptied),
        emptied.wf(),
        0 <= i < before.sessions@.len(),
        before.sessions@[i].key.room_id@ == room_id,
    ensures
        forgotten.sessions@[i].session.slot is None,
        emptied.sessions@[i].session.slot == Some(SlotState::Closed),
{
    assert(forgotten.sessions@[i].key == before.sessions@[i].key);
    assert(emptied.sessions@[i].key == before.sessions@[i].key);
    assert(forgotten.governs(forgotten.sessions@[i]));
    assert(!forgotten.knows_slots(room_id));
    law_noted_slots_govern_their_room(before, room_id, Seq::empty(), emptied, i, 0);
}

/// Once it is noted whether a room is encrypted, every session there goes by it: in an
/// encrypted room only slots with encryption are open, in one that is not only slots
/// without; and sessions elsewhere go by what they went by.
pub proof fn law_noted_encryption_governs_its_room(
    before: RtcSessionManager,
    room_id: Seq<char>,
    encrypted: bool,
    after: RtcSessionManager,
    i: int,
    k: int,
)
    requires
        before.noted_encryption(room_id, encrypted, after),
        before.wf(),
        after.wf(),
        0 <= i < before.sessions@.len(),
    ensures
        after.sessions@[i].key == before.sessions@[i].key,
        after.sessions@[i].session.candidates == before.sessions@[i].session.candidates,
        after.sessions@[i].session.own == before.sessions@[i].session.own,
        after.sessions@[i].session.slot is Some <==> before.sessions@[i].session.slot is Some,
        before.sessions@[i].key.room_id@ != room_id ==> after.sessions@[i].session.encryption
            == before.sessions@[i].session.encryption && after.sessions@[i].session.slot
            == before.sessions@[i].session.slot,
        before.sessions@[i].key.room_id@ == room_id ==> {
            &&& after.sessions@[i].session.encryption == (if encrypted {
                RoomEncryption::Encrypted
            } else {
                RoomEncryption::Unencrypted
            })
            &&& before.sessions@[i].session.slot is Some && is_last_word(
                before.slots@,
                room_id,
                before.sessions@[i].key.slot_id@,
                k,
            ) ==> (after.sessions@[i].session.slot->0 is Open <==> opens(
                before.slots@[k],
                RoomEncryption::Unknown,
            ) && (before.slots@[k].content.encryption is Some <==> encrypted))
        },
{
    let slot_id = before.sessions@[i].key.slot_id@;
    assert(after.sessions@[i].key == before.sessions@[i].key);
    assert(before.governs(before.sessions@[i]));
    assert(after.governs(after.sessions@[i]));
    let room = before.sessions@[i].key.room_id@;
    assert(after.knows_slots(room) == before.knows_slots(room));
    if room == room_id && is_last_word(before.slots@, room_id, slot_id, k) {
        lemma_slot_event(before.slots@, room_id, slot_id);
        assert(slot_event(before.slots@, room_id, slot_id) == Some(before.slots@[k]));
        law_slot_is_open_exactly_if_opened(before.slots@[k], after.encryption_of(room_id));
    }
}

/// Once the users in a room are noted, exactly those are in it for the sessions there;
/// sessions elsewhere go by what they went by.
pub proof fn law_noted_users_are_those_in_the_room(
    before: RtcSessionManager,
    room_id: Seq<char>,
    joined_user_ids: Vec<String>,
    after: RtcSessionManager,
    i: int,
)
    requires
        before.noted_members(room_id, joined_user_ids, after),
        before.wf(),
        after.wf(),
        0 <= i < before.sessions@.len(),
    ensures
        after.sessions@[i].key == before.sessions@[i].key,
        after.sessions@[i].session.candidates == before.sessions@[i].session.candidates,
        after.sessions@[i].session.own == before.sessions@[i].session.own,
        after.sessions@[i].session.slot == before.sessions@[i].session.slot,
        after.sessions@[i].session.encryption == before.sessions@[i].session.encryption,
        before.sessions@[i].key.room_id@ == room_id ==> {
            &&& after.sessions@[i].session.room_members is Some
            &&& after.sessions@[i].session.room_members->0@.len() == joined_user_ids@.len()
            &&& forall|u: int|
                0 <= u < joined_user_ids@.len() ==> (
                #[trigger] after.sessions@[i].session.room_members->0@[u])@
                    == joined_user_ids@[u]@
        },
        before.sessions@[i].key.room_id@ != room_id ==> (
        after.sessions@[i].session.room_members is Some
            <==> before.sessions@[i].session.room_members is Some),
{
    let room = before.sessions@[i].key.room_id@;
    assert(after.sessions@[i].key == before.sessions@[i].key);
    assert(before.governs(before.sessions@[i]));
    assert(after.governs(after.sessions@[i]));
    assert(after.knows_slots(room) == before.knows_slots(room));
    if room == room_id {
        let noted = after.sessions@[i].session.room_members;
        assert(texts(noted->0@) == texts(joined_user_ids@));
        assert(texts(noted->0@).len() == noted->0@.len());
        assert(texts(joined_user_ids@).len() == joined_user_ids@.len());
        assert forall|u: int| 0 <= u < joined_user_ids@.len() implies (
        #[trigger] noted->0@[u])@ == joined_user_ids@[u]@ by {
            assert(texts(noted->0@)[u] == noted->0@[u]@);
            assert(texts(joined_user_ids@)[u] == joined_user_ids@[u]@);
        }
    }
}

/// To note a room's state is to note what could be read of it: its encryption, its
/// slots and its users. What could not be read counts as before; and where memberships
/// are room state, slots are not looked at, so that no session closes for want of
/// them.
pub proof fn law_room_state_counts_as_far_as_it_is_read(
    before: RtcSessionManager,
    room_id: Seq<char>,
    state_membership: bool,
    encrypted: Option<bool>,
    slots: Option<Vec<RawSlotEvent>>,
    joined_user_ids: Vec<String>,
    after: RtcSessionManager,
    i: int,
    k: int,
)
    requires
        before.fed(room_id, state_membership, encrypted, slots, joined_user_ids, after),
        before.wf(),
        after.wf(),
        0 <= i < before.sessions@.len(),
        before.sessions@[i].key.room_id@ == room_id,
    ensures
        after.sessions@[i].key == before.sessions@[i].key,
        after.sessions@[i].session.candidates == before.sessions@[i].session.candidates,
        after.sessions@[i].session.own == before.sessions@[i].session.own,
        after.sessions@[i].session.encryption == (match encrypted {
            Some(true) => RoomEncryption::Encrypted,
            Some(false) => RoomEncryption::Unencrypted,
            None => before.sessions@[i].session.encryption,
        }),
        after.sessions@[i].session.room_members is Some,
        after.sessions@[i].session.room_members->0@.len() == joined_user_ids@.len(),
        state_membership || slots is None ==> (after.sessions@[i].session.slot is Some
            <==> before.sessions@[i].session.slot is Some),
        !state_membership && slots is Some ==> {
            let slot_id = before.sessions@[i].key.slot_id@;
            &&& after.sessions@[i].session.slot is Some
            &&& goes_unmentioned(slots->0@, room_id, slot_id) ==> after.sessions@[i].session.slot->0
                is Closed
            &&& is_last_word(slots->0@, room_id, slot_id, k) ==> (
            after.sessions@[i].session.slot->0 is Open <==> opens(
                slots->0@[k],
                after.sessions@[i].session.encryption,
            ))
        },
{
    let slot_id = before.sessions@[i].key.slot_id@;
    assert(after.sessions@[i].key == before.sessions@[i].key);
    assert(before.governs(before.sessions@[i]));
    assert(after.governs(after.sessions@[i]));
    let noted = after.sessions@[i].session.room_members;
    assert(texts(noted->0@) == texts(joined_user_ids@));
    assert(texts(noted->0@).len() == noted->0@.len());
    assert(texts(joined_user_ids@).len() == joined_user_ids@.len());
    match slots {
        Some(slots) => {
            if !state_membership {
                assert(after.knows_slots(room_id));
                lemma_only_the_new_count(before.slots@, slots@, room_id, slot_id);
                lemma_slot_event(slots@, room_id, slot_id);
                if is_last_word(slots@, room_id, slot_id, k) {
                    assert(slot_event(slots@, room_id, slot_id) == Some(slots@[k]));
                    law_slot_is_open_exactly_if_opened(slots@[k], after.encryption_of(room_id));
                }
            }
        },
        None => {},
    }
}

/// Opening a slot sets its state in the room: that it is open, for the application and
/// with the encryption that were named. It succeeds exactly where there is something
/// to send it with and the slot id begins with the application; and such a slot is
/// open for whoever notes it, as far as the room's encryption permits.
pub proof fn law_opening_a_slot_says_so(
    manager: RtcSessionManager,
    room_id: String,
    slot_id: String,
    application_type: String,
    encryption: Option<SlotEncryption>,
    command: Result<RtcCommand, CommandError>,
)
    requires
        manager.opens_slot(room_id, slot_id, application_type, encryption, command),
    ensures
        command is Ok <==> manager.has_sender && slot_id@.len() > application_type@.len()
            && slot_id@.take(application_type@.len() as int) == application_type@
            && slot_id@[application_type@.len() as int] == '#',
        command matches Err(error) ==> error is SendError && error->SendError_0@ == (if slot_id@.len()
            > application_type@.len() && slot_id@.take(application_type@.len() as int)
            == application_type@ && slot_id@[application_type@.len() as int] == '#' {
            "no command sender configured"@
        } else {
            "slot id '"@ + slot_id@ + "' does not match application type '"@ + application_type@
                + "': MSC4143 requires the state key to be '{application_type}#{slot}'"@
        }),
        command matches Ok(command) ==> command is SendState && {
            &&& command->SendState_room_id == room_id
            &&& command->SendState_event_type@ == "m.rtc.slot"@
            &&& command->SendState_state_key == slot_id
            &&& command->SendState_content@.get("status"@) == Some(JsonView::Text("open"@))
            &&& command->SendState_content@.get_in("application"@, "type"@) == Some(
                JsonView::Text(application_type@),
            )
            &&& command->SendState_content@.get_in("encryption"@, "type"@) == (match encryption {
                Some(encryption) => Some(
                    JsonView::Text(
                        match encryption.mechanism {
                            EncryptionMechanism::PerMember => "m.per_member"@,
                            EncryptionMechanism::Other(name) => name@,
                        },
                    ),
                ),
                None => None,
            })
        },
{
    lemma_slot_names();
    reveal_strlit("#");
    let prefix = application_type@ + "#"@;
    if crate::text::has_prefix(slot_id@, prefix) {
        assert(slot_id@.take(prefix.len() as int) == prefix);
        assert(slot_id@.take(application_type@.len() as int) =~= slot_id@.take(
            prefix.len() as int,
        ).take(application_type@.len() as int));
        assert(prefix.take(application_type@.len() as int) =~= application_type@);
        assert(slot_id@[application_type@.len() as int] == slot_id@.take(
            prefix.len() as int,
        )[application_type@.len() as int]);
    }
    if slot_id@.len() > application_type@.len() && slot_id@.take(application_type@.len() as int)
        == application_type@ && slot_id@[application_type@.len() as int] == '#' {
        assert forall|i: int| 0 <= i < application_type@.len() implies slot_id@[i]
            == application_type@[i] by {
            assert(slot_id@.take(application_type@.len() as int)[i] == application_type@[i]);
        }
        assert(slot_id@.take(prefix.len() as int) =~= prefix);
    }
}

proof fn lemma_slot_names()
    ensures
        "status"@ != "application"@,
        "status"@ != "encryption"@,
        "application"@ != "encryption"@,
{
    reveal_strlit("status");
    reveal_strlit("application");
    reveal_strlit("encryption");
    assert("status"@.len() == 6 && "application"@.len() == 11 && "encryption"@.len() == 10);
}

/// Closing a slot sets its state in the room to closed and says nothing more. It
/// succeeds exactly where there is something to send it with.
pub proof fn law_closing_a_slot_says_so(
    manager: RtcSessionManager,
    room_id: String,
    slot_id: String,
    command: Result<RtcCommand, CommandError>,
)
    requires
        manager.closes_slot(room_id, slot_id, command),
    ensures
        command is Ok <==> manager.has_sender,
        command matches Ok(command) ==> command is SendState && {
            &&& command->SendState_room_id == room_id
            &&& command->SendState_event_type@ == "m.rtc.slot"@
            &&& command->SendState_state_key == slot_id
            &&& command->SendState_content@ == JsonView::object().with(
                "status"@,
                JsonView::Text("closed"@),
            )
        },
{
}

/// Asking to join makes sure of the session and changes no other: there is one for the
/// slot that was named afterwards, the ones there were stay as they were, and we are
/// in none that we were not in. Where there is nothing to send with, nothing happens.
pub proof fn law_asking_to_join_makes_sure_of_the_session(
    before: RtcSessionManager,
    params: JoinSessionParams,
    after: RtcSessionManager,
    begun: Result<(JoinAttempt, RtcCommand), JoinError>,
    i: int,
)
    requires
        before.asked_to_join(params, after, begun),
    ensures
        begun is Ok <==> before.has_sender && params.user_id@.len() > 0 && params.device_id@.len()
            > 0 && params.room_id@.len() > 0 && params.slot_id@.len() > 0
            && params.application@.len() > 0,
        before.has_sender ==> exists|j: int|
            0 <= j < after.sessions@.len() && (#[trigger] after.sessions@[j]).key.room_id@
                == params.room_id@ && after.sessions@[j].key.slot_id@ == params.slot_id@,
        !before.has_sender ==> after.sessions == before.sessions,
        before.sessions@.len() <= after.sessions@.len() <= before.sessions@.len() + 1,
        0 <= i < before.sessions@.len() ==> after.sessions@[i] == before.sessions@[i],
        before.sessions@.len() <= i < after.sessions@.len() ==> after.sessions@[i].session.own
            is None && after.sessions@[i].session.candidates@.len() == 0,
{
    if before.has_sender {
        if before.has(params.room_id@, params.slot_id@) {
            let j = choose|j: int| before.has_at(params.room_id@, params.slot_id@, j);
            assert(after.sessions@[j].key.room_id@ == params.room_id@);
        } else {
            let j = after.sessions@.len() - 1;
            assert(after.sessions@[j] == after.sessions@.last());
            if 0 <= i < before.sessions@.len() {
                assert(after.sessions@.drop_last()[i] == after.sessions@[i]);
            }
        }
    }
}

/// Asking to leave publishes our leave exactly where we are in the session that was
/// named, and touches no other session. There is an error exactly where there is no
/// such session.
pub proof fn law_asking_to_leave_concerns_one_session(
    before: RtcSessionManager,
    room_id: Seq<char>,
    slot_id: Seq<char>,
    params: LeaveSessionParams,
    after: RtcSessionManager,
    command: Result<Option<RtcCommand>, LeaveError>,
    i: int,
)
    requires
        before.wf(),
        before.asked_to_leave(room_id, slot_id, params, after, command),
        0 <= i < before.sessions@.len(),
    ensures
        after.sessions@.len() == before.sessions@.len(),
        before.sessions@[i].key.room_id@ != room_id || before.sessions@[i].key.slot_id@ != slot_id
            ==> after.sessions@[i] == before.sessions@[i],
        before.sessions@[i].key.room_id@ == room_id && before.sessions@[i].key.slot_id@ == slot_id
            ==> {
            &&& command is Ok
            &&& command->Ok_0 is Some <==> before.sessions@[i].session.own is Some
            &&& command->Ok_0 is Some ==> states_our_leave(
                command->Ok_0->0,
                before.sessions@[i].session.own->0,
                match params.leave_reason {
                    Some(reason) => reason@.code.wire(),
                    None => "leave"@,
                },
                match params.leave_reason {
                    Some(reason) => reason@.reason,
                    None => None,
                },
            )
            &&& after.sessions@[i].session.own is Some <==> before.sessions@[i].session.own is Some
            &&& after.sessions@[i].session.own is Some
                ==> after.sessions@[i].session.own->0.membership.state
                == OwnMembershipState::Leaving
            &&& after.sessions@[i].session.candidates == before.sessions@[i].session.candidates
        },
{
    lemma_content_names();
    lemma_inner_names();
    if command is Ok {
        let j = choose|j: int|
            {
                &&& #[trigger] before.has_at(room_id, slot_id, j)
                &&& before.with_session_at(j, after)
                &&& match before.sessions@[j].session.own {
                    Some(own) => {
                        &&& after.sessions@[j].session == (crate::roster::RtcSession {
                            own: Some(crate::roster::RtcSession::leaving(own)),
                            ..before.sessions@[j].session
                        })
                        &&& command->Ok_0 is Some
                        &&& crate::roster::RtcSession::publishes_leave(
                            own,
                            command->Ok_0->0,
                            crate::participation::stated_cause(params),
                        )
                    },
                    None => command->Ok_0 is None && after.sessions@ == before.sessions@,
                }
            };
        if i != j {
            let (a, b) = if i < j {
                (i, j)
            } else {
                (j, i)
            };
            assert(!before.sessions@[a].key.names(
                before.sessions@[b].key.room_id@,
                before.sessions@[b].key.slot_id@,
            ));
        }
    } else {
        assert(!before.has(room_id, slot_id));
        assert(!before.has_at(room_id, slot_id, i));
    }
}

} // verus!
