//! Reading memberships and media keys of every generation.

use vstd::prelude::*;
use crate::clock::now_ms;
use crate::compat::element_call::{
    claimed_device, claimed_device_id, claimed_key_device, claimed_key_device_id, identity_of,
    is_bare_leave, key_message, normalize_member_content, normalized, parse_key_message,
    ElementCallDialect, LegacyKeyMessage, LegacyKeyView, MemberContent,
};
use crate::compat::element_call_state::{
    participant_identity, state_events, state_memberships, translate_state_memberships,
    translation, ElementCallStateDialect, StateEventView, StateMemberEvent, StateMembership,
    StateMembershipView,
};
use crate::compat::{ElementCallCompat, OutboundDialect};
use crate::event::{EventOrigin, OriginView, RawStickyEvent, RawStickyEventContent};
use crate::join::{generate_member_id, is_generated_id};
use crate::json::{Json, JsonView};
use crate::seqs::{lemma_filter_next, lemma_filter_none, lemma_take_all};
use crate::text::text_of;
use crate::wire::{read_content, ContentView};

verus! {

/// A sticky member event, with its content as it came.
#[derive(Debug)]
pub struct RawMemberEventIn {
    /// The event's id, when known.
    pub event_id: Option<String>,
    /// The user that sent it.
    pub sender: String,
    /// The device that sent it, as decryption attributed it.
    pub sender_device_id: Option<String>,
    /// Whether it arrived encrypted; `None` where the host did not say.
    pub was_encrypted: Option<bool>,
    /// The event type.
    pub event_type: String,
    /// The event's content.
    pub content: Json,
}

/// A membership state event, with its content as it came.
#[derive(Debug)]
pub struct LegacyStateMemberEventIn {
    /// The event's id, when known.
    pub event_id: Option<String>,
    /// The user that sent it.
    pub sender: String,
    /// The event's state key.
    pub state_key: String,
    /// When the sender's homeserver received it.
    pub origin_server_ts: u64,
    /// The event's content.
    pub content: Json,
}

/// Model of a [`RawMemberEventIn`].
#[verifier::ext_equal]
pub struct MemberInView {
    /// The event's id, when known.
    pub event_id: Option<Seq<char>>,
    /// The user that sent it.
    pub sender: Seq<char>,
    /// The device that sent it, as decryption attributed it.
    pub sender_device_id: Option<Seq<char>>,
    /// Whether it arrived encrypted.
    pub was_encrypted: Option<bool>,
    /// The event type.
    pub event_type: Seq<char>,
    /// The event's content.
    pub content: JsonView,
}

impl View for RawMemberEventIn {
    type V = MemberInView;

    open spec fn view(&self) -> MemberInView {
        MemberInView {
            event_id: text_of(self.event_id),
            sender: self.sender@,
            sender_device_id: text_of(self.sender_device_id),
            was_encrypted: self.was_encrypted,
            event_type: self.event_type@,
            content: self.content@,
        }
    }
}

impl View for LegacyStateMemberEventIn {
    type V = StateEventView;

    open spec fn view(&self) -> StateEventView {
        StateEventView {
            event_id: text_of(self.event_id),
            sender: self.sender@,
            state_key: self.state_key@,
            origin_server_ts: self.origin_server_ts,
            content: self.content@,
        }
    }
}

/// Model of a [`RawStickyEvent`].
#[verifier::ext_equal]
pub struct StickyView {
    /// The room.
    pub room_id: Seq<char>,
    /// The event's id, when known.
    pub event_id: Option<Seq<char>>,
    /// The user that sent it.
    pub sender: Seq<char>,
    /// How it reached us.
    pub origin: OriginView,
    /// The event type.
    pub event_type: Seq<char>,
    /// The content.
    pub content: ContentView,
}

impl View for RawStickyEvent {
    type V = StickyView;

    open spec fn view(&self) -> StickyView {
        StickyView {
            room_id: self.room_id@,
            event_id: text_of(self.event_id),
            sender: self.sender@,
            origin: self.origin@,
            event_type: self.event_type@,
            content: self.content@,
        }
    }
}

/// The models of a list of sticky member events.
pub open spec fn members_in(events: Seq<RawMemberEventIn>) -> Seq<MemberInView> {
    events.map_values(|event: RawMemberEventIn| event@)
}

/// The models of a list of membership state events.
pub open spec fn states_in(events: Seq<LegacyStateMemberEventIn>) -> Seq<StateEventView> {
    events.map_values(|event: LegacyStateMemberEventIn| event@)
}

/// The models of a list of member events.
pub open spec fn sticky_views(events: Seq<RawStickyEvent>) -> Seq<StickyView> {
    events.map_values(|event: RawStickyEvent| event@)
}

/// Whether a dialect is that of a generation, for one joined session.
pub open spec fn speaks(
    compat: ElementCallCompat,
    user_id: Seq<char>,
    device_id: Seq<char>,
    room_id: Seq<char>,
    slot_id: Seq<char>,
    dialect: OutboundDialect,
) -> bool {
    match compat {
        ElementCallCompat::Off => dialect is Current,
        ElementCallCompat::StickyEvents => dialect matches OutboundDialect::Sticky(dialect)
            && dialect.user() == user_id && dialect.device() == device_id && dialect.slot()
            == slot_id,
        ElementCallCompat::StateEvents => dialect matches OutboundDialect::State(dialect)
            && dialect.user() == user_id && dialect.device() == device_id && dialect.room()
            == room_id && dialect.slot() == slot_id,
    }
}

/// Builds the dialect for one joined session.
pub fn outbound_dialect(
    compat: ElementCallCompat,
    user_id: &str,
    device_id: &str,
    room_id: &str,
    slot_id: &str,
) -> (dialect: OutboundDialect)
    ensures
        speaks(compat, user_id@, device_id@, room_id@, slot_id@, dialect),
{
    match compat {
        ElementCallCompat::Off => OutboundDialect::Current,
        ElementCallCompat::StickyEvents => OutboundDialect::Sticky(
            ElementCallDialect::new(user_id, device_id, slot_id),
        ),
        ElementCallCompat::StateEvents => OutboundDialect::State(
            ElementCallStateDialect::new(user_id, device_id, room_id, slot_id),
        ),
    }
}

/// The member id to join with: a fresh one, except where memberships are room
/// state, whose member ids are the user and device.
pub fn member_id(compat: ElementCallCompat, user_id: &str, device_id: &str) -> (id: String)
    ensures
        match compat {
            ElementCallCompat::StateEvents => id@ == identity_of(user_id@, device_id@),
            _ => is_generated_id(id@) && id@.len() == 32,
        },
{
    match compat {
        ElementCallCompat::StateEvents => participant_identity(user_id, device_id),
        _ => generate_member_id(),
    }
}

/// The origin for a device that an event merely claims.
pub open spec fn claimed_or(claimed: Option<Seq<char>>, otherwise: OriginView) -> OriginView {
    match claimed {
        Some(device) => OriginView::Claimed(device),
        None => otherwise,
    }
}

/// How an event reached us. A device it merely claims counts only where
/// decryption named none.
pub open spec fn origin_of(
    was_encrypted: Option<bool>,
    sender_device_id: Option<Seq<char>>,
    claimed: Option<Seq<char>>,
) -> OriginView {
    match was_encrypted {
        Some(true) => match sender_device_id {
            Some(device) => OriginView::Encrypted(Some(device)),
            None => claimed_or(claimed, OriginView::Encrypted(None)),
        },
        Some(false) => claimed_or(claimed, OriginView::Cleartext),
        None => claimed_or(claimed, OriginView::Unknown),
    }
}

/// The member event that a raw one stands for. There is none in a legacy leave,
/// whose absence is the leave, and none in a content that cannot be read.
pub open spec fn member_event(room_id: Seq<char>, event: MemberInView) -> Option<StickyView> {
    let content = normalized(event.content);
    if is_bare_leave(event.content) {
        None
    } else {
        match read_content(content) {
            Some(read) => Some(
                StickyView {
                    room_id,
                    event_id: event.event_id,
                    sender: event.sender,
                    origin: origin_of(
                        event.was_encrypted,
                        event.sender_device_id,
                        claimed_device(content),
                    ),
                    event_type: event.event_type,
                    content: read,
                },
            ),
            None => None,
        }
    }
}

/// An origin from a device the event only claims, where it claims one.
pub fn claimed_origin(claimed_device: &Option<String>) -> (origin: Option<EventOrigin>)
    ensures
        match origin {
            Some(origin) => origin is Claimed && origin.device() == text_of(*claimed_device),
            None => *claimed_device is None,
        },
{
    match claimed_device {
        Some(device) => Some(EventOrigin::claimed(device.as_str())),
        None => None,
    }
}

fn resolve_origin(
    was_encrypted: Option<bool>,
    sender_device_id: Option<String>,
    claimed: &Option<String>,
) -> (origin: EventOrigin)
    ensures
        origin@ == origin_of(was_encrypted, text_of(sender_device_id), text_of(*claimed)),
{
    let otherwise: EventOrigin = match was_encrypted {
        Some(true) => match sender_device_id {
            Some(device) => {
                return EventOrigin::encrypted(Some(device));
            },
            None => EventOrigin::encrypted(None),
        },
        Some(false) => EventOrigin::Cleartext,
        None => EventOrigin::Unknown,
    };
    match claimed_origin(claimed) {
        Some(origin) => origin,
        None => otherwise,
    }
}

/// Normalises and reads one raw member event; `None` where it contributes no
/// membership.
pub fn to_core_member_event(room_id: &str, event: RawMemberEventIn) -> (converted: Option<
    RawStickyEvent,
>)
    ensures
        match converted {
            Some(converted) => member_event(room_id@, event@) == Some(converted@),
            None => member_event(room_id@, event@) is None,
        },
{
    let RawMemberEventIn {
        event_id,
        sender,
        sender_device_id,
        was_encrypted,
        event_type,
        content,
    } = event;
    let mut value: Json = content;
    if normalize_member_content(&mut value) == MemberContent::BareLeave {
        return None;
    }
    let claimed: Option<String> = claimed_device_id(&value);
    match RawStickyEventContent::from_json(&value) {
        Some(content) => Some(
            RawStickyEvent {
                room_id: room_id.to_owned(),
                event_id,
                sender,
                origin: resolve_origin(was_encrypted, sender_device_id, &claimed),
                event_type,
                content,
            },
        ),
        None => None,
    }
}

/// The member event that a translated membership stands for.
pub open spec fn state_member_event(
    room_id: Seq<char>,
    membership: StateMembershipView,
) -> Option<StickyView> {
    match read_content(membership.content) {
        Some(content) => Some(
            StickyView {
                room_id,
                event_id: membership.event_id,
                sender: membership.sender,
                origin: OriginView::Claimed(membership.claimed_device_id),
                event_type: "m.rtc.member"@,
                content,
            },
        ),
        None => None,
    }
}

/// The member events of a room's membership state at `now`.
pub open spec fn state_member_events(
    room_id: Seq<char>,
    events: Seq<StateEventView>,
    now: u64,
) -> Seq<StickyView> {
    translation(events, now).filter_map(
        |membership: StateMembershipView| state_member_event(room_id, membership),
    )
}

fn from_translated(room_id: &str, membership: StateMembership) -> (event: Option<RawStickyEvent>)
    ensures
        match event {
            Some(event) => state_member_event(room_id@, membership@) == Some(event@),
            None => state_member_event(room_id@, membership@) is None,
        },
{
    let StateMembership { event_id, sender, claimed_device_id, content } = membership;
    match RawStickyEventContent::from_json(&content) {
        Some(content) => Some(
            RawStickyEvent {
                room_id: room_id.to_owned(),
                event_id,
                sender,
                origin: EventOrigin::claimed(claimed_device_id.as_str()),
                event_type: "m.rtc.member".to_owned(),
                content,
            },
        ),
        None => None,
    }
}

/// Reads a room's membership state at `now`.
pub fn read_state_memberships(room_id: &str, events: &Vec<StateMemberEvent>, now: u64) -> (
converted: Vec<RawStickyEvent>)
    ensures
        sticky_views(converted@) == state_member_events(room_id@, state_events(events@), now),
{
    let memberships: Vec<StateMembership> = translate_state_memberships(events, now);
    let ghost all = state_memberships(memberships@);
    let ghost whole = memberships@;
    let ghost read = |membership: StateMembershipView| state_member_event(room_id@, membership);
    let mut converted: Vec<RawStickyEvent> = Vec::new();
    proof {
        reveal(Seq::filter_map);
    }
    assert(sticky_views(converted@) =~= all.take(0).filter_map(read));
    for membership in iter: memberships
        invariant
            iter.seq() == whole,
            all == state_memberships(whole),
            read == (|membership: StateMembershipView| state_member_event(room_id@, membership)),
            sticky_views(converted@) == all.take(iter.index()).filter_map(read),
    {
        proof {
            all.lemma_filter_map_take_succ(read, iter.index());
        }
        let ghost before = converted@;
        match from_translated(room_id, membership) {
            Some(event) => {
                converted.push(event);
                assert(sticky_views(converted@) =~= sticky_views(before).push(
                    converted@.last()@,
                ));
            },
            None => {},
        }
        assert(sticky_views(converted@) =~= all.take(iter.index() + 1).filter_map(read));
    }
    assert(all.take(all.len() as int) =~= all);
    converted
}

/// Reads a room's membership state at the time the clock shows.
pub fn to_core_state_memberships(room_id: &str, events: Vec<LegacyStateMemberEventIn>) -> (
converted: Vec<RawStickyEvent>)
    ensures
        exists|now: u64|
            sticky_views(converted@) == #[trigger] state_member_events(
                room_id@,
                states_in(events@),
                now,
            ),
{
    let now: u64 = now_ms();
    to_core_state_memberships_at(room_id, events, now)
}

/// Reads a room's membership state at `now`.
pub fn to_core_state_memberships_at(
    room_id: &str,
    events: Vec<LegacyStateMemberEventIn>,
    now: u64,
) -> (converted: Vec<RawStickyEvent>)
    ensures
        sticky_views(converted@) == state_member_events(room_id@, states_in(events@), now),
{
    let ghost whole = events@;
    let mut plain: Vec<StateMemberEvent> = Vec::new();
    for event in iter: events
        invariant
            iter.seq() == whole,
            plain@.len() == iter.index(),
            forall|j: int| 0 <= j < plain@.len() ==> (#[trigger] plain@[j])@ == whole[j]@,
    {
        let LegacyStateMemberEventIn { event_id, sender, state_key, origin_server_ts, content } =
            event;
        plain.push(StateMemberEvent { event_id, sender, state_key, origin_server_ts, content });
    }
    assert(state_events(plain@) =~= states_in(whole));
    read_state_memberships(room_id, &plain, now)
}

/// Whether some event goes under a sticky key.
pub open spec fn has_key(events: Seq<StickyView>, key: Seq<char>) -> bool {
    exists|i: int| 0 <= i < events.len() && (#[trigger] events[i]).content.sticky_key == key
}

/// Memberships from both sources: every sticky one, and the state ones whose key
/// is not taken.
pub open spec fn merged(sticky: Seq<StickyView>, state: Seq<StickyView>) -> Seq<StickyView> {
    sticky + state.filter(|event: StickyView| !has_key(sticky, event.content.sticky_key))
}

fn key_taken(events: &Vec<RawStickyEvent>, count: usize, key: &String) -> (yes: bool)
    requires
        count <= events@.len(),
    ensures
        yes == has_key(sticky_views(events@).take(count as int), key@),
{
    let ghost views = sticky_views(events@);
    let ghost taken = views.take(count as int);
    let mut i: usize = 0;
    while i < count
        invariant
            i <= count <= events@.len(),
            views == sticky_views(events@),
            taken == views.take(count as int),
            forall|j: int| 0 <= j < i ==> (#[trigger] taken[j]).content.sticky_key != key@,
        decreases count - i,
    {
        assert(taken[i as int] == events@[i as int]@);
        if events[i].content.sticky_key == *key {
            return true;
        }
        i = i + 1;
    }
    false
}

/// Puts together the memberships from both sources. A sticky one wins over a
/// state one under the same key: the same person twice in a roster means two
/// streams and two key exchanges for one peer.
pub fn merge_sources(sticky: Vec<RawStickyEvent>, state: Vec<RawStickyEvent>) -> (current: Vec<
    RawStickyEvent,
>)
    ensures
        sticky_views(current@) == merged(sticky_views(sticky@), sticky_views(state@)),
{
    let count: usize = sticky.len();
    let ghost first = sticky_views(sticky@);
    let ghost second = sticky_views(state@);
    let ghost whole = state@;
    let ghost keep = |event: StickyView| !has_key(first, event.content.sticky_key);
    let mut current: Vec<RawStickyEvent> = sticky;
    proof {
        lemma_filter_none(second, keep);
        assert(first + second.take(0).filter(keep) =~= first);
    }
    for event in iter: state
        invariant
            iter.seq() == whole,
            second == sticky_views(whole),
            count == first.len(),
            count <= current@.len(),
            keep == (|event: StickyView| !has_key(first, event.content.sticky_key)),
            sticky_views(current@) == first + second.take(iter.index()).filter(keep),
    {
        proof {
            lemma_filter_next(second, keep, iter.index());
        }
        let ghost before = sticky_views(current@);
        assert(before.take(count as int) =~= first);
        if !key_taken(&current, count, &event.content.sticky_key) {
            current.push(event);
            assert(sticky_views(current@) =~= before.push(event@));
        }
        assert(sticky_views(current@) =~= first + second.take(iter.index() + 1).filter(keep));
    }
    proof {
        lemma_take_all(second);
    }
    current
}

/// The memberships that a list of sticky member events stands for, in order.
pub open spec fn member_events(room_id: Seq<char>, events: Seq<MemberInView>) -> Seq<StickyView> {
    events.filter_map(|event: MemberInView| member_event(room_id, event))
}

/// Reads a list of raw member events, leaving out those that contribute no
/// membership.
pub fn to_core_member_events(room_id: &str, events: Vec<RawMemberEventIn>) -> (converted: Vec<
    RawStickyEvent,
>)
    ensures
        sticky_views(converted@) == member_events(room_id@, members_in(events@)),
{
    let ghost whole = events@;
    let ghost all = members_in(whole);
    let ghost read = |event: MemberInView| member_event(room_id@, event);
    let mut converted: Vec<RawStickyEvent> = Vec::new();
    proof {
        reveal(Seq::filter_map);
    }
    assert(sticky_views(converted@) =~= all.take(0).filter_map(read));
    for event in iter: events
        invariant
            iter.seq() == whole,
            all == members_in(whole),
            read == (|event: MemberInView| member_event(room_id@, event)),
            sticky_views(converted@) == all.take(iter.index()).filter_map(read),
    {
        proof {
            all.lemma_filter_map_take_succ(read, iter.index());
        }
        let ghost before = converted@;
        match to_core_member_event(room_id, event) {
            Some(event) => {
                converted.push(event);
                assert(sticky_views(converted@) =~= sticky_views(before).push(
                    converted@.last()@,
                ));
            },
            None => {},
        }
        assert(sticky_views(converted@) =~= all.take(iter.index() + 1).filter_map(read));
    }
    assert(all.take(all.len() as int) =~= all);
    converted
}

/// A room's complete membership from both sources, at `now`.
pub open spec fn current_membership(
    room_id: Seq<char>,
    sticky: Seq<MemberInView>,
    state: Seq<StateEventView>,
    now: u64,
) -> Seq<StickyView> {
    merged(member_events(room_id, sticky), state_member_events(room_id, state, now))
}

/// A room's complete membership from both sources, at the time the clock shows.
///
/// Both go in one list because the list replaces what was known: fed one after
/// the other, each would wipe out the other.
pub fn merge_current_membership(
    room_id: &str,
    member_events: Vec<RawMemberEventIn>,
    legacy_state_events: Vec<LegacyStateMemberEventIn>,
) -> (current: Vec<RawStickyEvent>)
    ensures
        exists|now: u64|
            sticky_views(current@) == #[trigger] current_membership(
                room_id@,
                members_in(member_events@),
                states_in(legacy_state_events@),
                now,
            ),
{
    let now: u64 = now_ms();
    merge_current_membership_at(room_id, member_events, legacy_state_events, now)
}

/// A room's complete membership from both sources, at `now`.
pub fn merge_current_membership_at(
    room_id: &str,
    member_events: Vec<RawMemberEventIn>,
    legacy_state_events: Vec<LegacyStateMemberEventIn>,
    now: u64,
) -> (current: Vec<RawStickyEvent>)
    ensures
        sticky_views(current@) == current_membership(
            room_id@,
            members_in(member_events@),
            states_in(legacy_state_events@),
            now,
        ),
{
    let sticky: Vec<RawStickyEvent> = to_core_member_events(room_id, member_events);
    let state: Vec<RawStickyEvent> = to_core_state_memberships_at(
        room_id,
        legacy_state_events,
        now,
    );
    merge_sources(sticky, state)
}

/// The media key in a legacy key message, bound to the membership it is filed
/// under. Where memberships are room state, that is the sender's user and device,
/// and a message that names no device has no key.
pub open spec fn legacy_key(
    compat: ElementCallCompat,
    sender: Seq<char>,
    sender_device_id: Option<Seq<char>>,
    content: JsonView,
) -> Option<LegacyKeyView> {
    match key_message(sender, content) {
        Some(key) => if compat is StateEvents {
            match (sender_device_id, claimed_key_device(content)) {
                (Some(device), _) => Some(
                    LegacyKeyView { member_id: identity_of(sender, device), ..key },
                ),
                (None, Some(device)) => Some(
                    LegacyKeyView { member_id: identity_of(sender, device), ..key },
                ),
                (None, None) => None,
            }
        } else {
            Some(key)
        },
        None => None,
    }
}

/// Reads the media key in a legacy key message; `None` where it lacks something
/// the key needs, or there is no device to bind it to.
pub fn parse_legacy_key(
    compat: ElementCallCompat,
    sender: &str,
    sender_device_id: Option<&str>,
    content: &Json,
) -> (key: Option<LegacyKeyMessage>)
    ensures
        ({
            let device = match sender_device_id {
                Some(device) => Some(device@),
                None => None,
            };
            match key {
                Some(key) => legacy_key(compat, sender@, device, content@) == Some(key@),
                None => legacy_key(compat, sender@, device, content@) is None,
            }
        }),
{
    let mut key: LegacyKeyMessage = match parse_key_message(sender, content) {
        Some(key) => key,
        None => {
            return None;
        },
    };
    if compat == ElementCallCompat::StateEvents {
        let member_id: String = match sender_device_id {
            Some(device) => participant_identity(sender, device),
            None => match claimed_key_device_id(content) {
                Some(device) => participant_identity(sender, device.as_str()),
                None => {
                    return None;
                },
            },
        };
        key.member_id = member_id;
    }
    Some(key)
}

/// A device that an event merely claims never makes it count as encrypted, and
/// never displaces the device that decryption named.
pub proof fn law_claims_authenticate_nothing(
    was_encrypted: Option<bool>,
    sender_device_id: Option<Seq<char>>,
    claimed: Option<Seq<char>>,
)
    ensures
        origin_of(was_encrypted, sender_device_id, claimed) matches OriginView::Encrypted(device)
            ==> was_encrypted == Some(true) && device == sender_device_id,
        was_encrypted == Some(true) && sender_device_id is Some ==> origin_of(
            was_encrypted,
            sender_device_id,
            claimed,
        ) == OriginView::Encrypted(sender_device_id),
{
}

/// In a merged roster a sticky membership wins: it is always there, and no state
/// membership stands beside it under the same key.
pub proof fn law_sticky_membership_wins(sticky: Seq<StickyView>, state: Seq<StickyView>, i: int)
    requires
        0 <= i < merged(sticky, state).len(),
    ensures
        merged(sticky, state).take(sticky.len() as int) == sticky,
        i >= sticky.len() ==> state.contains(merged(sticky, state)[i]) && !has_key(
            sticky,
            merged(sticky, state)[i].content.sticky_key,
        ),
{
    let keep = |event: StickyView| !has_key(sticky, event.content.sticky_key);
    assert(merged(sticky, state).take(sticky.len() as int) =~= sticky);
    if i >= sticky.len() {
        let kept = state.filter(keep);
        let at = i - sticky.len();
        assert(merged(sticky, state)[i] == kept[at]);
        assert(kept.contains(kept[at]));
        state.lemma_filter_contains_rev(keep, kept[at]);
        state.lemma_filter_pred(keep, at);
    }
}

/// Merging loses nobody: whatever key either source has, the merged roster has.
pub proof fn law_merging_loses_nobody(
    sticky: Seq<StickyView>,
    state: Seq<StickyView>,
    key: Seq<char>,
)
    ensures
        has_key(merged(sticky, state), key) <==> has_key(sticky, key) || has_key(state, key),
{
    let keep = |event: StickyView| !has_key(sticky, event.content.sticky_key);
    let kept = state.filter(keep);
    let whole = merged(sticky, state);
    if has_key(sticky, key) {
        let i = choose|i: int|
            0 <= i < sticky.len() && (#[trigger] sticky[i]).content.sticky_key == key;
        assert(whole[i] == sticky[i]);
    } else if has_key(state, key) {
        let i = choose|i: int|
            0 <= i < state.len() && (#[trigger] state[i]).content.sticky_key == key;
        assert(keep(state[i]));
        state.lemma_filter_contains(keep, i);
        let at = choose|at: int| 0 <= at < kept.len() && kept[at] == state[i];
        assert(whole[sticky.len() + at] == state[i]);
    }
    if has_key(whole, key) && !has_key(sticky, key) {
        let i = choose|i: int|
            0 <= i < whole.len() && (#[trigger] whole[i]).content.sticky_key == key;
        if i < sticky.len() {
            assert(whole[i] == sticky[i]);
        } else {
            let at = i - sticky.len();
            assert(whole[i] == kept[at]);
            assert(kept.contains(kept[at]));
            state.lemma_filter_contains_rev(keep, kept[at]);
            let j = choose|j: int| 0 <= j < state.len() && state[j] == kept[at];
            assert(state[j].content.sticky_key == key);
        }
    }
}

} // verus!
