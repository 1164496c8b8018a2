//! That the models which contracts speak of leave nothing out of the values they are
//! of.

use vstd::prelude::*;
use crate::bridge::StickyEntry;
use crate::compat::element_call::LegacyKeyMessage;
use crate::compat::element_call_state::{StateMemberEvent, StateMembership};
use crate::compat::ingest::{LegacyStateMemberEventIn, RawMemberEventIn};
use crate::compat::MemberEventRoute;
use crate::encryption::types::{
    InboundEncryptionKey, OutboundEncryptionKey, ParticipantDeviceInfo,
};
use crate::encryption::{DiscardedKey, PendingSignal};
use crate::event::{EventOrigin, RawStickyEvent, RawStickyEventContent};
use crate::json::{members_model, Json, JsonMember, JsonNumber, JsonView, NumberView};
use crate::reactions::RawTimelineEvent;
use crate::session::{JoinedMembership, LeaveCode, LeaveReason, MemberInfo, Membership};
use crate::slot::RawSlotEvent;
use crate::text::texts;
use crate::transport::{alike, MemberTransports, RtcTransport};

verus! {

/// Two optional texts with the same model are both absent or say the same.
pub open spec fn says_the_same(a: Option<String>, b: Option<String>) -> bool {
    match (a, b) {
        (Some(x), Some(y)) => x@ == y@,
        (None, None) => true,
        (_, _) => false,
    }
}

/// Sticky member events as they come that have the same model agree in everything.
pub proof fn law_incoming_member_event_is_told_whole(a: RawMemberEventIn, b: RawMemberEventIn)
    requires
        a@ == b@,
    ensures
        says_the_same(a.event_id, b.event_id),
        a.sender@ == b.sender@,
        says_the_same(a.sender_device_id, b.sender_device_id),
        a.was_encrypted == b.was_encrypted,
        a.event_type@ == b.event_type@,
        a.content@ == b.content@,
        a@.sender == a.sender@,
        a@.event_type == a.event_type@,
        a@.was_encrypted == a.was_encrypted,
        a@.content == a.content@,
{
}

/// Membership state events that have the same model agree in everything, in whichever
/// of the two forms they come.
pub proof fn law_state_event_is_told_whole(a: LegacyStateMemberEventIn, b: StateMemberEvent)
    requires
        a@ == b@,
    ensures
        says_the_same(a.event_id, b.event_id),
        a.sender@ == b.sender@,
        a.state_key@ == b.state_key@,
        a.origin_server_ts == b.origin_server_ts,
        a.content@ == b.content@,
        a@.sender == a.sender@,
        a@.state_key == a.state_key@,
        a@.origin_server_ts == a.origin_server_ts,
        a@.content == a.content@,
{
}

/// Memberships read from state that have the same model agree in everything.
pub proof fn law_state_membership_is_told_whole(a: StateMembership, b: StateMembership)
    requires
        a@ == b@,
    ensures
        says_the_same(a.event_id, b.event_id),
        a.sender@ == b.sender@,
        a.claimed_device_id@ == b.claimed_device_id@,
        a.content@ == b.content@,
        a@.sender == a.sender@,
        a@.claimed_device_id == a.claimed_device_id@,
        a@.content == a.content@,
{
}

/// Member events that have the same model agree in everything; so do their contents.
pub proof fn law_member_event_is_told_whole(a: RawStickyEvent, b: RawStickyEvent)
    requires
        a@ == b@,
    ensures
        a.room_id@ == b.room_id@,
        says_the_same(a.event_id, b.event_id),
        a.sender@ == b.sender@,
        a.origin@ == b.origin@,
        a.event_type@ == b.event_type@,
        a.content@ == b.content@,
        a@.room_id == a.room_id@,
        a@.sender == a.sender@,
        a@.event_type == a.event_type@,
        a@.origin == a.origin@,
        a@.content == a.content@,
{
}

/// Member contents that have the same model agree in everything.
pub proof fn law_content_is_told_whole(a: RawStickyEventContent, b: RawStickyEventContent)
    requires
        a@ == b@,
    ensures
        a.slot_id@ == b.slot_id@,
        a.sticky_key@ == b.sticky_key@,
        a.member@ == b.member@,
        a.application@ == b.application@,
        says_the_same(a.application.application_type, b.application.application_type),
        a.created_ts == b.created_ts,
        a.transports is Some == b.transports is Some,
        a.transports matches Some(x) ==> x@ == (b.transports->0)@,
        a.leave_reason is Some == b.leave_reason is Some,
        a.leave_reason matches Some(x) ==> x@ == (b.leave_reason->0)@,
        a@.slot_id == a.slot_id@,
        a@.sticky_key == a.sticky_key@,
        a@.created_ts == a.created_ts,
{
}

/// How an event reached us has the same model only if it reached us in the same way,
/// from the same device.
pub proof fn law_origin_is_told_whole(a: EventOrigin, b: EventOrigin)
    requires
        a@ == b@,
    ensures
        a is Unknown == b is Unknown,
        a is Cleartext == b is Cleartext,
        a is Encrypted == b is Encrypted,
        a is Claimed == b is Claimed,
        a is Claimed ==> a->device_id@ == b->device_id@,
        a is Encrypted ==> says_the_same(a->sender_device_id, b->sender_device_id),
{
}

/// Members that have the same model have the same id and state the same membership.
pub proof fn law_member_is_told_whole(a: MemberInfo, b: MemberInfo)
    requires
        a@ == b@,
    ensures
        says_the_same(a.id, b.id),
        a.membership is Some == b.membership is Some,
        a.membership matches Some(Membership::Join) ==> b.membership == Some(Membership::Join),
        a.membership matches Some(Membership::Leave) ==> b.membership == Some(Membership::Leave),
        a.membership matches Some(Membership::Unknown(x)) ==> (b.membership matches Some(
            Membership::Unknown(y),
        ) && x@ == y@),
{
}

/// Reasons for a leave that have the same model agree in everything.
pub proof fn law_leave_reason_is_told_whole(a: LeaveReason, b: LeaveReason)
    requires
        a@ == b@,
    ensures
        says_the_same(a.reason, b.reason),
        a.code is Leave == b.code is Leave,
        a.code is SlotClosed == b.code is SlotClosed,
        a.code is DelayedLeave == b.code is DelayedLeave,
        a.code matches LeaveCode::Other(x) ==> (b.code matches LeaveCode::Other(y) && x@ == y@),
{
}

/// Transports that have the same model are of the same type and hold the same value
/// under every key.
pub proof fn law_transports_are_told_whole(a: MemberTransports, b: MemberTransports)
    requires
        a@ == b@,
    ensures
        a.published@.len() == b.published@.len(),
        forall|i: int|
            0 <= i < a.published@.len() ==> (#[trigger] a.published@[i]).transport_type@
                == b.published@[i].transport_type@ && a.published@[i]@ == b.published@[i]@,
        a.can_subscribe@.len() == b.can_subscribe@.len(),
        forall|i: int|
            0 <= i < a.can_subscribe@.len() ==> (#[trigger] a.can_subscribe@[i])@
                == b.can_subscribe@[i]@,
{
    assert(a@.published.len() == a.published@.len());
    assert(b@.published.len() == b.published@.len());
    assert(a@.can_subscribe.len() == a.can_subscribe@.len());
    assert(b@.can_subscribe.len() == b.can_subscribe@.len());
    assert forall|i: int| 0 <= i < a.published@.len() implies (
    #[trigger] a.published@[i]).transport_type@ == b.published@[i].transport_type@
        && a.published@[i]@ == b.published@[i]@ by {
        assert(a@.published[i] == a.published@[i]@);
        assert(b@.published[i] == b.published@[i]@);
    }
    assert forall|i: int| 0 <= i < a.can_subscribe@.len() implies (
    #[trigger] a.can_subscribe@[i])@ == b.can_subscribe@[i]@ by {
        assert(a@.can_subscribe[i] == a.can_subscribe@[i]@);
        assert(b@.can_subscribe[i] == b.can_subscribe@[i]@);
    }
}

/// Slot events that have the same model agree in everything that is read of them.
pub proof fn law_slot_event_is_told_whole(a: RawSlotEvent, b: RawSlotEvent)
    requires
        a@ == b@,
    ensures
        a.room_id@ == b.room_id@,
        a.slot_id@ == b.slot_id@,
        a.content.status == b.content.status,
        says_the_same(a.content.application_type, b.content.application_type),
        a.content.encryption is Some == b.content.encryption is Some,
        a.content.encryption matches Some(x) ==> (x.mechanism is PerMember
            == (b.content.encryption->0).mechanism is PerMember),
        a@.room_id == a.room_id@,
        a@.slot_id == a.slot_id@,
{
}

/// Entries of a snapshot that have the same model agree in everything.
pub proof fn law_entry_is_told_whole(a: StickyEntry, b: StickyEntry)
    requires
        a@ == b@,
    ensures
        a.event_id@ == b.event_id@,
        a.sender@ == b.sender@,
        a.event_type@ == b.event_type@,
        a.content is Some == b.content is Some,
        a.content matches Some(x) ==> x@ == (b.content->0)@,
        a.decryption is Some == b.decryption is Some,
        a.decryption matches Some(x) ==> says_the_same(
            x.sender_device,
            (b.decryption->0).sender_device,
        ),
        a@.event_id == a.event_id@,
        a@.sender == a.sender@,
        a@.event_type == a.event_type@,
{
}

/// Timeline events that have the same model agree in everything.
pub proof fn law_timeline_event_is_told_whole(a: RawTimelineEvent, b: RawTimelineEvent)
    requires
        a@ == b@,
    ensures
        a.room_id@ == b.room_id@,
        a.event_id@ == b.event_id@,
        a.sender@ == b.sender@,
        a.origin@ == b.origin@,
        a.event_type@ == b.event_type@,
        a.origin_server_ts == b.origin_server_ts,
        a.content@ == b.content@,
        a@.room_id == a.room_id@,
        a@.event_id == a.event_id@,
        a@.sender == a.sender@,
        a@.event_type == a.event_type@,
{
}

/// Key messages of the older format that have the same model agree in everything.
pub proof fn law_key_message_is_told_whole(a: LegacyKeyMessage, b: LegacyKeyMessage)
    requires
        a@ == b@,
    ensures
        a.room_id@ == b.room_id@,
        a.member_id@ == b.member_id@,
        a.key_index == b.key_index,
        a.key_b64@ == b.key_b64@,
        a@.room_id == a.room_id@,
        a@.member_id == a.member_id@,
        a@.key_b64 == a.key_b64@,
{
}

/// Routes that have the same model go the same way with the same content.
pub proof fn law_route_is_told_whole(a: MemberEventRoute, b: MemberEventRoute)
    requires
        a@ == b@,
    ensures
        a is Sticky == b is Sticky,
        a is State == b is State,
        a is Room == b is Room,
        a is Sticky ==> a->Sticky_event_type@ == b->Sticky_event_type@ && a->Sticky_content@
            == b->Sticky_content@,
        a is State ==> a->State_event_type@ == b->State_event_type@ && a->state_key@
            == b->state_key@ && a->State_content@ == b->State_content@,
        a is Room ==> a->Room_event_type@ == b->Room_event_type@ && a->Room_content@
            == b->Room_content@,
{
}

/// Participations that have the same model are the same device's, in the same join.
pub proof fn law_participant_is_told_whole(a: ParticipantDeviceInfo, b: ParticipantDeviceInfo)
    requires
        a@ == b@,
    ensures
        a.user_id@ == b.user_id@,
        a.device_id@ == b.device_id@,
        a.member_id@ == b.member_id@,
        a.membership_ts == b.membership_ts,
        a@.user_id == a.user_id@,
        a@.device_id == a.device_id@,
        a@.member_id == a.member_id@,
{
}

/// Keys that have the same model are the same bytes under the same index, for the same
/// participation and of the same time.
pub proof fn law_inbound_key_is_told_whole(a: InboundEncryptionKey, b: InboundEncryptionKey)
    requires
        a@ == b@,
    ensures
        a.key@ == b.key@,
        a.key_index == b.key_index,
        a.member_id@ == b.member_id@,
        a.creation_ts == b.creation_ts,
{
}

/// Our own keys that have the same model are the same bytes under the same index, of
/// the same time, and have reached the same participations.
pub proof fn law_outbound_key_is_told_whole(a: OutboundEncryptionKey, b: OutboundEncryptionKey)
    requires
        a@ == b@,
    ensures
        a.key@ == b.key@,
        a.key_index == b.key_index,
        a.creation_ts == b.creation_ts,
        a.shared_with@.len() == b.shared_with@.len(),
        forall|i: int|
            0 <= i < a.shared_with@.len() ==> (#[trigger] a.shared_with@[i])@
                == b.shared_with@[i]@,
{
    assert(a@.shared_with.len() == a.shared_with@.len());
    assert(b@.shared_with.len() == b.shared_with@.len());
    assert forall|i: int| 0 <= i < a.shared_with@.len() implies (#[trigger] a.shared_with@[i])@
        == b.shared_with@[i]@ by {
        assert(a@.shared_with[i] == a.shared_with@[i]@);
        assert(b@.shared_with[i] == b.shared_with@[i]@);
    }
}

/// Signals that have the same model carry the same key of the same participant, to be
/// used after the same time.
pub proof fn law_signal_is_told_whole(a: PendingSignal, b: PendingSignal)
    requires
        a@ == b@,
    ensures
        a.key@ == b.key@,
        a.key_index == b.key_index,
        a.subject.user_id@ == b.subject.user_id@,
        a.subject.device_id@ == b.subject.device_id@,
        a.subject.member_id@ == b.subject.member_id@,
        a.subject.is_own == b.subject.is_own,
        a.use_after_ms == b.use_after_ms,
        a@.key == a.key@,
        a@.subject.user_id == a.subject.user_id@,
        a@.subject.device_id == a.subject.device_id@,
        a@.subject.member_id == a.subject.member_id@,
{
}

/// Reports of a refused key that have the same model agree in everything.
pub proof fn law_refusal_is_told_whole(a: DiscardedKey, b: DiscardedKey)
    requires
        a@ == b@,
    ensures
        a.member_id@ == b.member_id@,
        a.key_index == b.key_index,
        says_the_same(a.sender_user_id, b.sender_user_id),
        says_the_same(a.sender_device_id, b.sender_device_id),
        a.reason == b.reason,
{
}

/// An object holds under a name what its first member of that name says, and nothing
/// under a name that no member has.
pub proof fn law_first_member_of_a_name_counts(members: Vec<JsonMember>, key: Seq<char>)
    ensures
        forall|i: int|
            0 <= i < members@.len() && (#[trigger] members@[i]).key@ == key && (forall|j: int|
                0 <= j < i ==> (#[trigger] members@[j]).key@ != key) ==> Json::Object(
                members,
            )@.get(key) == Some(members@[i].value@),
        (forall|i: int| 0 <= i < members@.len() ==> (#[trigger] members@[i]).key@ != key)
            ==> Json::Object(members)@.get(key) is None,
{
    assert forall|i: int|
        0 <= i < members@.len() && (#[trigger] members@[i]).key@ == key && (forall|j: int|
            0 <= j < i ==> (#[trigger] members@[j]).key@ != key) implies Json::Object(
        members,
    )@.get(key) == Some(members@[i].value@) by {
        assert(crate::json::is_first(members@, key, i));
        let first = crate::json::first_at(members@, key);
        assert(crate::json::is_first(members@, key, first));
        assert(first == i);
    }
}

/// A text, a truth value and a number are told as they are, and an array item by item.
pub proof fn law_value_is_told_as_it_is(
    text: String,
    number: u64,
    truth: bool,
    items: Vec<Json>,
    i: int,
)
    requires
        0 <= i < items@.len(),
    ensures
        Json::Text(text)@ == JsonView::Text(text@),
        Json::Number(JsonNumber::Unsigned(number))@ == JsonView::Number(
            NumberView::Unsigned(number),
        ),
        Json::Bool(truth)@ == JsonView::Bool(truth),
        Json::Null@ == JsonView::Null,
        Json::Array(items)@ matches JsonView::Array(told) && told.len() == items@.len() && told[i]
            == items@[i]@,
{
}

/// A membership that says the same as another says the same in every field, of the
/// same transports in the same order.
pub proof fn law_copied_membership_says_the_same(copy: JoinedMembership, of: JoinedMembership)
    requires
        copy.same_as(of),
    ensures
        copy.room_id == of.room_id,
        copy.slot_id == of.slot_id,
        copy.sender == of.sender,
        copy.origin == of.origin,
        copy.sticky_key == of.sticky_key,
        copy.member_id == of.member_id,
        copy.membership_event_id == of.membership_event_id,
        copy.membership_ts == of.membership_ts,
        copy.application == of.application,
        copy.can_subscribe@.len() == of.can_subscribe@.len(),
        forall|i: int|
            0 <= i < copy.can_subscribe@.len() ==> (#[trigger] copy.can_subscribe@[i])@
                == of.can_subscribe@[i]@,
        copy.transports@.len() == of.transports@.len(),
        forall|i: int|
            0 <= i < copy.transports@.len() ==> match #[trigger] copy.transports@[i] {
                RtcTransport::LiveKit(livekit) => of.transports@[i] == RtcTransport::LiveKit(
                    livekit,
                ),
                RtcTransport::Unsupported(other) => of.transports@[i] is Unsupported
                    && other.transport_type == of.transports@[i]->Unsupported_0.transport_type
                    && Json::Object(other.extra_fields)@ == Json::Object(
                    of.transports@[i]->Unsupported_0.extra_fields,
                )@,
            },
{
    assert(texts(copy.can_subscribe@).len() == copy.can_subscribe@.len());
    assert(texts(of.can_subscribe@).len() == of.can_subscribe@.len());
    assert forall|i: int| 0 <= i < copy.can_subscribe@.len() implies (
    #[trigger] copy.can_subscribe@[i])@ == of.can_subscribe@[i]@ by {
        assert(texts(copy.can_subscribe@)[i] == copy.can_subscribe@[i]@);
        assert(texts(of.can_subscribe@)[i] == of.can_subscribe@[i]@);
    }
    assert forall|i: int| 0 <= i < copy.transports@.len() implies match #[trigger] copy.transports@[i] {
        RtcTransport::LiveKit(livekit) => of.transports@[i] == RtcTransport::LiveKit(livekit),
        RtcTransport::Unsupported(other) => of.transports@[i] is Unsupported
            && other.transport_type == of.transports@[i]->Unsupported_0.transport_type
            && Json::Object(other.extra_fields)@ == Json::Object(
            of.transports@[i]->Unsupported_0.extra_fields,
        )@,
    } by {
        assert(alike(copy.transports@[i], of.transports@[i]));
        if let RtcTransport::Unsupported(other) = copy.transports@[i] {
            lemma_object_model(other.extra_fields);
            lemma_object_model(of.transports@[i]->Unsupported_0.extra_fields);
        }
    }
}

proof fn lemma_object_model(members: Vec<JsonMember>)
    ensures
        Json::Object(members)@ == JsonView::Object(members_model(members@)),
{
    let told = Json::Object(members)@->Object_0;
    let model = members_model(members@);
    assert(told.dom() =~= model.dom());
    assert forall|key: Seq<char>| told.contains_key(key) implies #[trigger] told[key]
        == model[key] by {
        let first = crate::json::first_at(members@, key);
        assert(crate::json::is_first(members@, key, first));
    }
    assert(told =~= model);
}

} // verus!
