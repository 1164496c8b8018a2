//! What a bridge reads out of a room.

use vstd::prelude::*;
use crate::bridge::{
    delayed_failure, entry_member, ingest_of, members_among, slot_from, slots_among, state_event_from,
    state_events_from, ApiErrorKind, EntryView, IngestView, SlotView,
};
use crate::compat::element_call_state::StateEventView;
use crate::compat::ingest::{member_event, MemberInView, StickyView};
use crate::error::CommandError;
use crate::event::OriginView;
use crate::json::{JsonView, NumberView};
use crate::own_membership::{KeepAliveAction, OwnMembershipMachine, OwnMembershipState};
use crate::seqs::lemma_filter_map_holds;
use crate::slot::{MechanismView, SlotStatus};

verus! {

/// An entry of the sticky map is read as the member event it is, under either type that
/// member events have: of the room, by its sender, encrypted from the device decryption
/// named or else in the clear. Any other entry is no member event.
pub proof fn law_sticky_entry_is_read_as_a_member_event(room_id: Seq<char>, entry: EntryView)
    ensures
        entry.content is None || (entry.event_type != "m.rtc.member"@ && entry.event_type
            != "org.matrix.msc4143.rtc.member"@) ==> entry_member(room_id, entry) is None,
        entry.content is Some && (entry.event_type == "m.rtc.member"@ || entry.event_type
            == "org.matrix.msc4143.rtc.member"@) ==> exists|read: MemberInView|
            {
                &&& entry_member(room_id, entry) == #[trigger] member_event(room_id, read)
                &&& read.event_id == Some(entry.event_id)
                &&& read.sender == entry.sender
                &&& read.event_type == entry.event_type
                &&& Some(read.content) == entry.content
                &&& read.was_encrypted == Some(entry.decryption is Some)
                &&& read.sender_device_id == (match entry.decryption {
                    Some(device) => device,
                    None => None,
                })
            },
{
    if entry.content is Some {
        let read = MemberInView {
            event_id: Some(entry.event_id),
            sender: entry.sender,
            sender_device_id: match entry.decryption {
                Some(device) => device,
                None => None,
            },
            was_encrypted: Some(entry.decryption is Some),
            event_type: entry.event_type,
            content: entry.content->0,
        };
        assert(member_event(room_id, read) == member_event(room_id, read));
    }
}

/// A snapshot of the sticky map holds the member events of its entries, all of them and
/// nothing else.
pub proof fn law_snapshot_holds_every_member_event(
    room_id: Seq<char>,
    list: Seq<EntryView>,
    e: int,
    event: StickyView,
)
    ensures
        0 <= e < list.len() && entry_member(room_id, list[e]) is Some ==> members_among(
            room_id,
            list,
        ).contains(entry_member(room_id, list[e])->0),
        members_among(room_id, list).contains(event) ==> exists|i: int|
            0 <= i < list.len() && entry_member(room_id, #[trigger] list[i]) == Some(event),
{
    let read = |entry: EntryView| entry_member(room_id, entry);
    if 0 <= e < list.len() && entry_member(room_id, list[e]) is Some {
        assert(list.contains(list[e]));
        lemma_filter_map_holds(list, read, list[e]);
    }
    if members_among(room_id, list).contains(event) {
        list.lemma_filter_map_contains(read, event);
        let entry = choose|entry: EntryView| #[trigger]
            list.contains(entry) && read(entry) == Some(event);
        let i = choose|i: int| 0 <= i < list.len() && list[i] == entry;
        assert(entry_member(room_id, list[i]) == Some(event));
    }
}

/// A state event is read as a slot exactly if it has one of the types of slots and a
/// state key, which is the slot. It says that the slot is open or closed exactly if its
/// content does, for the application that names; unless it speaks of encryption and names
/// none, when it says nothing.
pub proof fn law_slot_event_is_read_as_it_says(room_id: Seq<char>, event: JsonView)
    ensures
        slot_from(room_id, event) is Some <==> (event.get("type"@) == Some(
            JsonView::Text("m.rtc.slot"@),
        ) || event.get("type"@) == Some(JsonView::Text("org.matrix.msc4143.rtc.slot"@)))
            && event.get("state_key"@) is Some && event.get("state_key"@)->0 is Text,
        slot_from(room_id, event) matches Some(slot) ==> {
            let spoilt = event.get_in("content"@, "encryption"@) is Some && !(event.get_in(
                "content"@,
                "encryption"@,
            )->0.get("type"@) is Some && event.get_in("content"@, "encryption"@)->0.get(
                "type"@,
            )->0 is Text);
            &&& slot.room_id == room_id
            &&& event.get("state_key"@) == Some(JsonView::Text(slot.slot_id))
            &&& spoilt ==> slot.content.status is None && slot.content.application_type is None
                && slot.content.mechanism is None
            &&& !spoilt ==> {
                &&& slot.content.status == Some(SlotStatus::Open) <==> event.get_in(
                    "content"@,
                    "status"@,
                ) == Some(JsonView::Text("open"@))
                &&& slot.content.status == Some(SlotStatus::Closed) <==> event.get_in(
                    "content"@,
                    "status"@,
                ) == Some(JsonView::Text("closed"@))
                &&& slot.content.mechanism is Some <==> event.get_in("content"@, "encryption"@)
                    is Some
                &&& slot.content.mechanism == Some(MechanismView::PerMember) <==> event.get(
                    "content"@,
                ) is Some && event.get("content"@)->0.get_in("encryption"@, "type"@) == Some(
                    JsonView::Text("m.per_member"@),
                )
                &&& slot.content.application_type matches Some(application) ==> event.get(
                    "content"@,
                ) is Some && event.get("content"@)->0.get_in("application"@, "type"@) == Some(
                    JsonView::Text(application),
                )
                &&& event.get("content"@) is Some && event.get("content"@)->0.get_in(
                    "application"@,
                    "type"@,
                ) is Some && event.get("content"@)->0.get_in("application"@, "type"@)->0 is Text
                    ==> slot.content.application_type is Some
            }
        },
{
    reveal_strlit("open");
    reveal_strlit("closed");
    assert("open"@.len() != "closed"@.len());
}

/// A snapshot of the slots holds those of the room's state, all of them and nothing
/// else.
pub proof fn law_snapshot_holds_every_slot(
    room_id: Seq<char>,
    events: Seq<JsonView>,
    e: int,
    slot: SlotView,
)
    ensures
        0 <= e < events.len() && slot_from(room_id, events[e]) is Some ==> slots_among(
            room_id,
            events,
        ).contains(slot_from(room_id, events[e])->0),
        slots_among(room_id, events).contains(slot) ==> exists|i: int|
            0 <= i < events.len() && slot_from(room_id, #[trigger] events[i]) == Some(slot),
{
    let read = |event: JsonView| slot_from(room_id, event);
    if 0 <= e < events.len() && slot_from(room_id, events[e]) is Some {
        assert(events.contains(events[e]));
        lemma_filter_map_holds(events, read, events[e]);
    }
    if slots_among(room_id, events).contains(slot) {
        events.lemma_filter_map_contains(read, slot);
        let event = choose|event: JsonView| #[trigger]
            events.contains(event) && read(event) == Some(slot);
        let i = choose|i: int| 0 <= i < events.len() && events[i] == event;
        assert(slot_from(room_id, events[i]) == Some(slot));
    }
}

/// A raw state event is read as a membership state event exactly if it names a sender, a
/// state key, a time and a content; and it is read as it says.
pub proof fn law_state_event_is_read_as_it_says(event: JsonView)
    ensures
        state_event_from(event) is Some <==> {
            &&& event.get("sender"@) is Some && event.get("sender"@)->0 is Text
            &&& event.get("state_key"@) is Some && event.get("state_key"@)->0 is Text
            &&& event.get("origin_server_ts"@) matches Some(
                JsonView::Number(NumberView::Unsigned(_)),
            )
            &&& event.get("content"@) is Some && !(event.get("content"@)->0 is Null)
        },
        state_event_from(event) matches Some(read) ==> {
            &&& event.get("sender"@) == Some(JsonView::Text(read.sender))
            &&& event.get("state_key"@) == Some(JsonView::Text(read.state_key))
            &&& event.get("origin_server_ts"@) == Some(JsonView::number(read.origin_server_ts))
            &&& event.get("content"@) == Some(read.content)
            &&& read.event_id == (match event.get("event_id"@) {
                Some(JsonView::Text(id)) => Some(id),
                _ => None,
            })
        },
{
}

/// The membership state events among raw ones are those that can be read as such, all of
/// them and nothing else.
pub proof fn law_every_state_event_is_read(
    events: Seq<JsonView>,
    e: int,
    read: StateEventView,
)
    ensures
        0 <= e < events.len() && state_event_from(events[e]) is Some ==> state_events_from(
            events,
        ).contains(state_event_from(events[e])->0),
        state_events_from(events).contains(read) ==> exists|i: int|
            0 <= i < events.len() && state_event_from(#[trigger] events[i]) == Some(read),
{
    let pick = |event: JsonView| state_event_from(event);
    if 0 <= e < events.len() && state_event_from(events[e]) is Some {
        assert(events.contains(events[e]));
        lemma_filter_map_holds(events, pick, events[e]);
    }
    if state_events_from(events).contains(read) {
        events.lemma_filter_map_contains(pick, read);
        let event = choose|event: JsonView| #[trigger]
            events.contains(event) && pick(event) == Some(read);
        let i = choose|i: int| 0 <= i < events.len() && events[i] == event;
        assert(state_event_from(events[i]) == Some(read));
    }
}

/// The text of a string member, if it is one.
pub open spec fn text_in(json: JsonView, name: Seq<char>) -> Option<Seq<char>> {
    match json.get(name) {
        Some(JsonView::Text(text)) => Some(text),
        _ => None,
    }
}

/// A redaction undoes the event it names, at the top or else in its content. A reaction,
/// and an annotation, is taken in as what it is: of the room, by its sender, with its own
/// id, time and content, encrypted from the device decryption named or else in the clear.
/// Nothing else of a room's timeline is taken in.
pub proof fn law_timeline_event_is_read_as_it_says(
    room_id: Seq<char>,
    event: JsonView,
    decryption: Option<Option<Seq<char>>>,
)
    ensures
        ({
            let kind = text_in(event, "type"@);
            let taken = ingest_of(room_id, event, decryption);
            &&& taken is Some ==> kind == Some("m.room.redaction"@) || kind == Some(
                "io.element.call.reaction"@,
            ) || kind == Some("m.reaction"@)
            &&& kind == Some("m.room.redaction"@) ==> match text_in(event, "redacts"@) {
                Some(id) => taken == Some(IngestView::Redacted(id)),
                None => if event.get("content"@) is Some && text_in(
                    event.get("content"@)->0,
                    "redacts"@,
                ) is Some {
                    taken == Some(
                        IngestView::Redacted(text_in(event.get("content"@)->0, "redacts"@)->0),
                    )
                } else {
                    taken is None
                },
            }
            &&& kind == Some("io.element.call.reaction"@) || kind == Some("m.reaction"@) ==> {
                &&& taken is Some <==> text_in(event, "event_id"@) is Some && text_in(
                    event,
                    "sender"@,
                ) is Some
                &&& taken is Some ==> taken->0 is Event && {
                    let read = taken->0->Event_0;
                    &&& read.room_id == room_id
                    &&& Some(read.event_id) == text_in(event, "event_id"@)
                    &&& Some(read.sender) == text_in(event, "sender"@)
                    &&& Some(read.event_type) == kind
                    &&& read.origin == (match decryption {
                        Some(device) => OriginView::Encrypted(device),
                        None => OriginView::Cleartext,
                    })
                    &&& event.get("content"@) matches Some(content) ==> read.content == content
                    &&& event.get("content"@) is None ==> read.content is Null
                    &&& event.get("origin_server_ts"@) matches Some(
                        JsonView::Number(NumberView::Unsigned(time)),
                    ) ==> read.origin_server_ts == time
                }
            }
        }),
{
    reveal_strlit("m.room.redaction");
    reveal_strlit("io.element.call.reaction");
    reveal_strlit("m.reaction");
    assert("m.room.redaction"@.len() == 16 && "io.element.call.reaction"@.len() == 24);
    assert("m.reaction"@.len() == 10);
}

/// A homeserver that answers that it does not know the endpoint for delayed events, or will
/// not serve it, is never asked for one again; after any other failure it is, from five
/// minutes on. What it answered is kept in its words.
pub proof fn law_only_a_refusal_is_final(
    machine: OwnMembershipMachine,
    kind: Option<ApiErrorKind>,
    error: String,
    at: u64,
    now: u64,
    action: KeepAliveAction,
)
    requires
        machine.state == OwnMembershipState::Joined,
        machine.keep_alive_info is None,
        machine.after_arming(Err(delayed_failure(kind, error)), at).beats(now, action),
        at <= now,
    ensures
        kind == Some(ApiErrorKind::Unrecognized) || kind == Some(ApiErrorKind::Forbidden)
            ==> action is Rest,
        kind != Some(ApiErrorKind::Unrecognized) && kind != Some(ApiErrorKind::Forbidden) ==> (
        action is Arm <==> now - at >= 300_000),
        delayed_failure(kind, error) matches CommandError::SendError(words) ==> words == error,
        delayed_failure(kind, error) matches CommandError::DelayedEventsNotSupported(words)
            ==> words == error,
{
}

} // verus!
