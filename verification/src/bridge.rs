//! What a bridge to a Matrix client decides: which events of a room concern a
//! session, what a failure means, and when to look again.
//!
//! A host performs the requests; it hands over what came back as plain values.

use vstd::prelude::*;
use crate::compat::element_call_state::{state_events, StateEventView, StateMemberEvent};
use crate::compat::ingest::{
    member_event, read_state_memberships, state_member_events, sticky_views, to_core_member_event,
    MemberInView, RawMemberEventIn, StickyView,
};
use crate::error::CommandError;
use crate::event::{is_member_event_type, is_member_type, EventOrigin, OriginView, RawStickyEvent};
use crate::json::{models, Json, JsonView};
use crate::reactions::{RawTimelineEvent, ANNOTATION_EVENT_TYPE, REACTION_EVENT_TYPE};
use crate::slot::{
    read_slot, RawSlotEvent, RawSlotEventContent, SlotContentView, SLOT_EVENT_TYPE,
};
use crate::text::{joined, same_text, text_of};

verus! {

/// Whether sticky events can be sent and read. Without them a membership can only
/// be room state.
pub const STICKY_EVENTS_SUPPORTED: bool = false;

/// How many annotations to ask for per membership event.
pub const RAISED_HAND_LOOKUP_LIMIT: u32 = 50;

/// How often to look again where memberships are room state, in milliseconds: a
/// membership there expires without an event to say so.
pub const STATE_MEMBERSHIP_POLL_MS: u64 = 30_000;

/// A failure, in the words of whatever failed.
pub fn command_error(error: String) -> (failure: CommandError)
    ensures
        failure == CommandError::SendError(error),
{
    CommandError::from_message(error)
}

/// The kinds of answer a homeserver refuses a request with, as far as they differ
/// to us.
#[derive(Clone, Copy, Debug, PartialEq, Eq, Structural)]
pub enum ApiErrorKind {
    /// `M_UNRECOGNIZED`: it does not know the endpoint.
    Unrecognized,
    /// `M_FORBIDDEN`: it knows the endpoint and will not serve it.
    Forbidden,
    /// Any other.
    Other,
}

/// What a failure of one of the endpoints for delayed events comes to.
pub open spec fn delayed_failure(kind: Option<ApiErrorKind>, error: String) -> CommandError {
    match kind {
        Some(ApiErrorKind::Unrecognized) => CommandError::DelayedEventsNotSupported(error),
        Some(ApiErrorKind::Forbidden) => CommandError::DelayedEventsNotSupported(error),
        _ => CommandError::SendError(error),
    }
}

/// A failure of one of the endpoints for delayed events. Two kinds of answer mean
/// that the homeserver will never serve them; anything else is worth trying again.
pub fn delayed_command_error(kind: Option<ApiErrorKind>, error: String) -> (failure: CommandError)
    ensures
        failure == delayed_failure(kind, error),
{
    match kind {
        Some(ApiErrorKind::Unrecognized) | Some(ApiErrorKind::Forbidden) => {
            CommandError::DelayedEventsNotSupported(error)
        },
        _ => command_error(error),
    }
}

/// The failure of a sticky send where sticky events are not supported. It is
/// refused rather than sent as an ordinary event, which nobody would see.
pub fn sticky_refusal(event_type: &str) -> (failure: CommandError)
    ensures
        failure matches CommandError::ClientRejected(text) && text@ == event_type@
            + ": MSC4354 sticky events need matrix-rtc-bridge's `experimental-sticky` feature; this build only speaks ElementCallCompat::StateEvents"@,
{
    CommandError::ClientRejected(
        joined(
            event_type,
            ": MSC4354 sticky events need matrix-rtc-bridge's `experimental-sticky` feature; this build only speaks ElementCallCompat::StateEvents",
        ),
    )
}

/// Whether a room's membership can be followed at all: there has to be a carrier
/// to read.
pub fn can_bridge(sticky_supported: bool, state_membership: bool) -> (yes: bool)
    ensures
        yes == (sticky_supported || state_membership),
{
    sticky_supported || state_membership
}

/// What waiting on a source of news brought.
#[derive(Clone, Copy, Debug, PartialEq, Eq, Structural)]
pub enum Wake {
    /// Something changed.
    Received,
    /// So much changed that some of it was passed over.
    Lagged,
    /// There will be no more news.
    Closed,
}

/// Whether to go on after waiting. A source that lagged still has news, and
/// everything is read again anyway; a closed one is the end of the room.
pub fn keep_bridging(wake: Wake) -> (yes: bool)
    ensures
        yes == (wake !is Closed),
{
    !matches!(wake, Wake::Closed)
}

/// What decryption said of an event.
#[derive(Debug)]
pub struct DecryptionInfo {
    /// The device that sent it, where it could be attributed.
    pub sender_device: Option<String>,
}

/// An entry of a room's sticky map.
#[derive(Debug)]
pub struct StickyEntry {
    /// The event's id.
    pub event_id: String,
    /// The user that sent it.
    pub sender: String,
    /// The event type.
    pub event_type: String,
    /// The content, where it has one that is an object.
    pub content: Option<Json>,
    /// What decryption said of it; absent, it came in the clear.
    pub decryption: Option<DecryptionInfo>,
}

/// Model of a [`StickyEntry`].
#[verifier::ext_equal]
pub struct EntryView {
    /// The event's id.
    pub event_id: Seq<char>,
    /// The user that sent it.
    pub sender: Seq<char>,
    /// The event type.
    pub event_type: Seq<char>,
    /// The content.
    pub content: Option<JsonView>,
    /// The device decryption attributed it to, if it was decrypted at all.
    pub decryption: Option<Option<Seq<char>>>,
}

/// The device decryption attributed an event to, if it was decrypted at all.
pub open spec fn decrypted_by(decryption: Option<DecryptionInfo>) -> Option<Option<Seq<char>>> {
    match decryption {
        Some(info) => Some(text_of(info.sender_device)),
        None => None,
    }
}

impl View for StickyEntry {
    type V = EntryView;

    open spec fn view(&self) -> EntryView {
        EntryView {
            event_id: self.event_id@,
            sender: self.sender@,
            event_type: self.event_type@,
            content: match self.content {
                Some(content) => Some(content@),
                None => None,
            },
            decryption: decrypted_by(self.decryption),
        }
    }
}

/// The models of a list of entries.
pub open spec fn entries(list: Seq<StickyEntry>) -> Seq<EntryView> {
    list.map_values(|entry: StickyEntry| entry@)
}

/// The member event that an entry of the sticky map stands for. The map holds
/// only events that came in the clear or were decrypted, so which of the two it
/// was is always known.
pub open spec fn entry_member(room_id: Seq<char>, entry: EntryView) -> Option<StickyView> {
    match entry.content {
        Some(content) => if is_member_type(entry.event_type) {
            member_event(
                room_id,
                MemberInView {
                    event_id: Some(entry.event_id),
                    sender: entry.sender,
                    sender_device_id: match entry.decryption {
                        Some(device) => device,
                        None => None,
                    },
                    was_encrypted: Some(entry.decryption is Some),
                    event_type: entry.event_type,
                    content,
                },
            )
        } else {
            None
        },
        None => None,
    }
}

/// Reads one entry of a room's sticky map.
pub fn read_entry(room_id: &str, entry: StickyEntry) -> (event: Option<RawStickyEvent>)
    ensures
        match event {
            Some(event) => entry_member(room_id@, entry@) == Some(event@),
            None => entry_member(room_id@, entry@) is None,
        },
{
    let StickyEntry { event_id, sender, event_type, content, decryption } = entry;
    if !is_member_event_type(event_type.as_str()) {
        return None;
    }
    let was_encrypted: bool = decryption.is_some();
    let sender_device_id: Option<String> = match decryption {
        Some(info) => info.sender_device,
        None => None,
    };
    match content {
        Some(content) => to_core_member_event(
            room_id,
            RawMemberEventIn {
                event_id: Some(event_id),
                sender,
                sender_device_id,
                was_encrypted: Some(was_encrypted),
                event_type,
                content,
            },
        ),
        None => None,
    }
}

/// The member events in a room's sticky map, in order.
pub open spec fn members_among(room_id: Seq<char>, list: Seq<EntryView>) -> Seq<StickyView> {
    list.filter_map(|entry: EntryView| entry_member(room_id, entry))
}

/// Reads the member events out of a room's sticky map.
pub fn snapshot(room_id: &str, list: Vec<StickyEntry>) -> (events: Vec<RawStickyEvent>)
    ensures
        sticky_views(events@) == members_among(room_id@, entries(list@)),
{
    let ghost whole = list@;
    let ghost all = entries(whole);
    let ghost read = |entry: EntryView| entry_member(room_id@, entry);
    let mut events: Vec<RawStickyEvent> = Vec::new();
    proof {
        reveal(Seq::filter_map);
    }
    assert(sticky_views(events@) =~= all.take(0).filter_map(read));
    for entry in iter: list
        invariant
            iter.seq() == whole,
            all == entries(whole),
            read == (|entry: EntryView| entry_member(room_id@, entry)),
            sticky_views(events@) == all.take(iter.index()).filter_map(read),
    {
        proof {
            all.lemma_filter_map_take_succ(read, iter.index());
        }
        let ghost before = events@;
        match read_entry(room_id, entry) {
            Some(event) => {
                events.push(event);
                assert(sticky_views(events@) =~= sticky_views(before).push(events@.last()@));
            },
            None => {},
        }
        assert(sticky_views(events@) =~= all.take(iter.index() + 1).filter_map(read));
    }
    assert(all.take(all.len() as int) =~= all);
    events
}

/// Model of a [`RawSlotEvent`].
#[verifier::ext_equal]
pub struct SlotView {
    /// The room.
    pub room_id: Seq<char>,
    /// The slot.
    pub slot_id: Seq<char>,
    /// The content.
    pub content: SlotContentView,
}

impl View for RawSlotEvent {
    type V = SlotView;

    open spec fn view(&self) -> SlotView {
        SlotView { room_id: self.room_id@, slot_id: self.slot_id@, content: self.content@ }
    }
}

/// The models of a list of slot events.
pub open spec fn slot_views(slots: Seq<RawSlotEvent>) -> Seq<SlotView> {
    slots.map_values(|slot: RawSlotEvent| slot@)
}

/// Whether an event type is that of a slot event, under its stable or its
/// unstable name.
pub open spec fn is_slot_type(event_type: Seq<char>) -> bool {
    event_type == SLOT_EVENT_TYPE@ || event_type == "org.matrix.msc4143.rtc.slot"@
}

/// The slot event that a state event stands for. One whose content cannot be read
/// still counts, and leaves its slot closed.
pub open spec fn slot_from(room_id: Seq<char>, event: JsonView) -> Option<SlotView> {
    match (event.text_at("type"@), event.text_at("state_key"@)) {
        (Some(event_type), Some(slot_id)) => if is_slot_type(event_type) {
            Some(
                SlotView {
                    room_id,
                    slot_id,
                    content: match event.get("content"@) {
                        Some(content) => read_slot(content),
                        None => SlotContentView {
                            status: None,
                            application_type: None,
                            mechanism: None,
                        },
                    },
                },
            )
        } else {
            None
        },
        _ => None,
    }
}

fn read_slot_event(room_id: &str, event: &Json) -> (slot: Option<RawSlotEvent>)
    ensures
        match slot {
            Some(slot) => slot_from(room_id@, event@) == Some(slot@),
            None => slot_from(room_id@, event@) is None,
        },
{
    match (event.text_at("type"), event.text_at("state_key")) {
        (Some(event_type), Some(slot_id)) => {
            if !same_text(event_type, SLOT_EVENT_TYPE) && !same_text(
                event_type,
                "org.matrix.msc4143.rtc.slot",
            ) {
                return None;
            }
            let content: RawSlotEventContent = match event.get("content") {
                Some(content) => RawSlotEventContent::from_json(content),
                None => RawSlotEventContent::empty(),
            };
            Some(
                RawSlotEvent {
                    room_id: room_id.to_owned(),
                    slot_id: slot_id.to_owned(),
                    content,
                },
            )
        },
        (_, _) => None,
    }
}

/// The slots in a room's state, in order.
pub open spec fn slots_among(room_id: Seq<char>, events: Seq<JsonView>) -> Seq<SlotView> {
    events.filter_map(|event: JsonView| slot_from(room_id, event))
}

/// Reads the slots out of a room's state.
pub fn slot_snapshot(room_id: &str, room_state: &Vec<Json>) -> (slots: Vec<RawSlotEvent>)
    ensures
        slot_views(slots@) == slots_among(room_id@, models(room_state@)),
{
    let ghost all = models(room_state@);
    let ghost read = |event: JsonView| slot_from(room_id@, event);
    let mut slots: Vec<RawSlotEvent> = Vec::new();
    proof {
        reveal(Seq::filter_map);
    }
    assert(slot_views(slots@) =~= all.take(0).filter_map(read));
    let mut i: usize = 0;
    while i < room_state.len()
        invariant
            i <= room_state@.len(),
            all == models(room_state@),
            read == (|event: JsonView| slot_from(room_id@, event)),
            slot_views(slots@) == all.take(i as int).filter_map(read),
        decreases room_state@.len() - i,
    {
        proof {
            all.lemma_filter_map_take_succ(read, i as int);
        }
        let ghost before = slots@;
        match read_slot_event(room_id, &room_state[i]) {
            Some(slot) => {
                slots.push(slot);
                assert(slot_views(slots@) =~= slot_views(before).push(slots@.last()@));
            },
            None => {},
        }
        assert(slot_views(slots@) =~= all.take(i + 1).filter_map(read));
        i = i + 1;
    }
    assert(all.take(all.len() as int) =~= all);
    slots
}

/// The membership state event in a raw state event. One without a sender, a state
/// key, a time or a content is none.
pub open spec fn state_event_from(event: JsonView) -> Option<StateEventView> {
    match (
        event.text_at("sender"@),
        event.text_at("state_key"@),
        event.number_at("origin_server_ts"@),
        event.get("content"@),
    ) {
        (Some(sender), Some(state_key), Some(origin_server_ts), Some(content)) => if content
            is Null {
            None
        } else {
            Some(
                StateEventView {
                    event_id: event.text_at("event_id"@),
                    sender,
                    state_key,
                    origin_server_ts,
                    content,
                },
            )
        },
        _ => None,
    }
}

fn read_state_event(event: &Json) -> (read: Option<StateMemberEvent>)
    ensures
        match read {
            Some(read) => state_event_from(event@) == Some(read@),
            None => state_event_from(event@) is None,
        },
{
    match (
        event.text_at("sender"),
        event.text_at("state_key"),
        event.number_at("origin_server_ts"),
        event.get("content"),
    ) {
        (Some(sender), Some(state_key), Some(origin_server_ts), Some(content)) => {
            if matches!(content, Json::Null) {
                return None;
            }
            let event_id: Option<String> = match event.text_at("event_id") {
                Some(event_id) => Some(event_id.to_owned()),
                None => None,
            };
            Some(
                StateMemberEvent {
                    event_id,
                    sender: sender.to_owned(),
                    state_key: state_key.to_owned(),
                    origin_server_ts,
                    content: content.clone(),
                },
            )
        },
        (_, _, _, _) => None,
    }
}

/// The membership state events among raw ones.
pub open spec fn state_events_from(events: Seq<JsonView>) -> Seq<StateEventView> {
    events.filter_map(|event: JsonView| state_event_from(event))
}

/// Reads the memberships out of a room's membership state, at `now`.
pub fn element_call_state_snapshot(room_id: &str, raw: &Vec<Json>, now: u64) -> (events: Vec<
    RawStickyEvent,
>)
    ensures
        sticky_views(events@) == state_member_events(
            room_id@,
            state_events_from(models(raw@)),
            now,
        ),
{
    let ghost all = models(raw@);
    let ghost read = |event: JsonView| state_event_from(event);
    let mut read_events: Vec<StateMemberEvent> = Vec::new();
    proof {
        reveal(Seq::filter_map);
    }
    assert(state_events(read_events@) =~= all.take(0).filter_map(read));
    let mut i: usize = 0;
    while i < raw.len()
        invariant
            i <= raw@.len(),
            all == models(raw@),
            read == (|event: JsonView| state_event_from(event)),
            state_events(read_events@) == all.take(i as int).filter_map(read),
        decreases raw@.len() - i,
    {
        proof {
            all.lemma_filter_map_take_succ(read, i as int);
        }
        let ghost before = read_events@;
        match read_state_event(&raw[i]) {
            Some(event) => {
                read_events.push(event);
                assert(state_events(read_events@) =~= state_events(before).push(
                    read_events@.last()@,
                ));
            },
            None => {},
        }
        assert(state_events(read_events@) =~= all.take(i + 1).filter_map(read));
        i = i + 1;
    }
    assert(all.take(all.len() as int) =~= all);
    read_state_memberships(room_id, &read_events, now)
}

/// Something a room event means for reactions and raised hands.
#[derive(Debug)]
pub enum TimelineIngest {
    /// A reaction, or a raised hand.
    Event(RawTimelineEvent),
    /// An event was redacted.
    Redacted {
        /// The redacted event.
        event_id: String,
    },
}

/// Model of a [`RawTimelineEvent`].
#[verifier::ext_equal]
pub struct TimelineView {
    /// The room.
    pub room_id: Seq<char>,
    /// The event's id.
    pub event_id: Seq<char>,
    /// The user that sent it.
    pub sender: Seq<char>,
    /// How it reached us.
    pub origin: OriginView,
    /// The event type.
    pub event_type: Seq<char>,
    /// When the sender's homeserver received it.
    pub origin_server_ts: u64,
    /// The content.
    pub content: JsonView,
}

impl View for RawTimelineEvent {
    type V = TimelineView;

    open spec fn view(&self) -> TimelineView {
        TimelineView {
            room_id: self.room_id@,
            event_id: self.event_id@,
            sender: self.sender@,
            origin: self.origin@,
            event_type: self.event_type@,
            origin_server_ts: self.origin_server_ts,
            content: self.content@,
        }
    }
}

/// Model of a [`TimelineIngest`].
#[verifier::ext_equal]
pub enum IngestView {
    /// A reaction, or a raised hand.
    Event(TimelineView),
    /// An event was redacted.
    Redacted(Seq<char>),
}

impl View for TimelineIngest {
    type V = IngestView;

    open spec fn view(&self) -> IngestView {
        match self {
            TimelineIngest::Event(event) => IngestView::Event(event@),
            TimelineIngest::Redacted { event_id } => IngestView::Redacted(event_id@),
        }
    }
}

/// The event a redaction redacts: named at the top level in older rooms, and in
/// the content in newer ones.
pub open spec fn redacted_by(event: JsonView) -> Option<Seq<char>> {
    match event.text_at("redacts"@) {
        Some(event_id) => Some(event_id),
        None => match event.get("content"@) {
            Some(content) => content.text_at("redacts"@),
            None => None,
        },
    }
}

/// What an event in a room means for reactions and raised hands, if anything.
pub open spec fn ingest_of(
    room_id: Seq<char>,
    event: JsonView,
    decryption: Option<Option<Seq<char>>>,
) -> Option<IngestView> {
    match event.text_at("type"@) {
        Some(event_type) => if event_type == "m.room.redaction"@ {
            match redacted_by(event) {
                Some(event_id) => Some(IngestView::Redacted(event_id)),
                None => None,
            }
        } else if event_type == REACTION_EVENT_TYPE@ || event_type == ANNOTATION_EVENT_TYPE@ {
            match (event.text_at("event_id"@), event.text_at("sender"@)) {
                (Some(event_id), Some(sender)) => Some(
                    IngestView::Event(
                        TimelineView {
                            room_id,
                            event_id,
                            sender,
                            origin: match decryption {
                                Some(device) => OriginView::Encrypted(device),
                                None => OriginView::Cleartext,
                            },
                            event_type,
                            origin_server_ts: match event.number_at("origin_server_ts"@) {
                                Some(time) => time,
                                None => 0,
                            },
                            content: match event.get("content"@) {
                                Some(content) => content,
                                None => JsonView::Null,
                            },
                        },
                    ),
                ),
                _ => None,
            }
        } else {
            None
        },
        None => None,
    }
}

fn redaction_target(event: &Json) -> (event_id: Option<String>)
    ensures
        text_of(event_id) == redacted_by(event@),
{
    match event.text_at("redacts") {
        Some(event_id) => Some(event_id.to_owned()),
        None => match event.get("content") {
            Some(content) => match content.text_at("redacts") {
                Some(event_id) => Some(event_id.to_owned()),
                None => None,
            },
            None => None,
        },
    }
}

/// Reads what a room event means for reactions and raised hands; `None` where it
/// is neither of those nor a redaction.
///
/// `decryption` is what decryption said of the event; absent, it came in the
/// clear.
pub fn timeline_ingest_from_raw(
    room_id: &str,
    event: &Json,
    decryption: Option<DecryptionInfo>,
) -> (ingest: Option<TimelineIngest>)
    ensures
        match ingest {
            Some(ingest) => ingest_of(room_id@, event@, decrypted_by(decryption)) == Some(ingest@),
            None => ingest_of(room_id@, event@, decrypted_by(decryption)) is None,
        },
{
    let event_type: &str = match event.text_at("type") {
        Some(event_type) => event_type,
        None => {
            return None;
        },
    };
    if same_text(event_type, "m.room.redaction") {
        return match redaction_target(event) {
            Some(event_id) => Some(TimelineIngest::Redacted { event_id }),
            None => None,
        };
    }
    if !same_text(event_type, REACTION_EVENT_TYPE) && !same_text(
        event_type,
        ANNOTATION_EVENT_TYPE,
    ) {
        return None;
    }
    let origin: EventOrigin = match decryption {
        Some(info) => EventOrigin::encrypted(info.sender_device),
        None => EventOrigin::Cleartext,
    };
    let origin_server_ts: u64 = match event.number_at("origin_server_ts") {
        Some(time) => time,
        None => 0,
    };
    let content: Json = match event.get("content") {
        Some(content) => content.clone(),
        None => Json::Null,
    };
    match (event.text_at("event_id"), event.text_at("sender")) {
        (Some(event_id), Some(sender)) => Some(
            TimelineIngest::Event(
                RawTimelineEvent {
                    room_id: room_id.to_owned(),
                    event_id: event_id.to_owned(),
                    sender: sender.to_owned(),
                    origin,
                    event_type: event_type.to_owned(),
                    origin_server_ts,
                    content,
                },
            ),
        ),
        (_, _) => None,
    }
}

} // verus!
