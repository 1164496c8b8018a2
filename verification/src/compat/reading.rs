//! What reading a room's membership state comes to.

use vstd::prelude::*;
use crate::compat::element_call_state::{
    focus_of, is_oldest, live, live_members, translated, translated_content,
    translated_transports, translation, LiveView, StateEventView, StateMembershipView,
};
use crate::compat::element_call::{
    is_bare_leave, key_message, normalized, transport_types, LegacyKeyView,
};
use crate::compat::ingest::{
    legacy_key, member_event, member_events, state_member_event, state_member_events, MemberInView, StickyView,
};
use crate::compat::laws::{law_translated_membership_is_a_join, lemma_content_names};
use crate::compat::ElementCallCompat;
use crate::event::{is_member_type, OriginView};
use crate::json::{JsonView, NumberView};
use crate::seqs::lemma_filter_map_holds;
use crate::wire::{read_content, read_transport, read_transport_list, read_transports};

verus! {

/// When a membership begins: when it says it was created, but no later than when
/// its event was received.
pub open spec fn begins_at(event: StateEventView) -> int {
    match event.content.number_at("created_ts"@) {
        Some(created) if created < event.origin_server_ts => created as int,
        _ => event.origin_server_ts as int,
    }
}

/// When a membership ends: as long after it begins as it says, or four hours.
pub open spec fn ends_at(event: StateEventView) -> int {
    begins_at(event) + match event.content.number_at("expires"@) {
        Some(expires) => expires as int,
        None => 14_400_000,
    }
}

/// Whether a state event is a membership that lasts at `now`: it names an
/// application and a device, is not in the older list shape, and has not ended.
pub open spec fn lasts(event: StateEventView, now: u64) -> bool {
    &&& event.content is Object
    &&& event.content.get("memberships"@) is None
    &&& event.content.get("application"@) matches Some(JsonView::Text(text)) && text.len() > 0
    &&& event.content.get("device_id"@) matches Some(JsonView::Text(text)) && text.len() > 0
    &&& now < ends_at(event)
}

/// The text under a name, where there is one that is not empty, or else another.
pub open spec fn text_or(json: JsonView, name: Seq<char>, otherwise: Seq<char>) -> Seq<char> {
    match json.get(name) {
        Some(JsonView::Text(text)) if text.len() > 0 => text,
        _ => otherwise,
    }
}

/// The slot a membership is in.
pub open spec fn slot_in(content: JsonView) -> Seq<char> {
    content.get("application"@)->0->Text_0 + "#"@ + text_or(content, "call_id"@, "ROOM"@)
}

/// The member id of a membership: what it says, or its user and device.
pub open spec fn member_in(event: StateEventView) -> Seq<char> {
    text_or(
        event.content,
        "membershipID"@,
        event.sender + ":"@ + event.content.get("device_id"@)->0->Text_0,
    )
}

/// Whether the first focus that a content prefers, if any, is an object of a type.
pub open spec fn names_sound_focus(content: JsonView) -> bool {
    match content.get("foci_preferred"@) {
        Some(JsonView::Array(foci)) => foci.len() > 0 ==> foci[0] is Object && foci[0].get(
            "type"@,
        ) is Some && foci[0].get("type"@)->0 is Text,
        _ => true,
    }
}

/// A state event stands for a membership exactly while it lasts, in the slot and
/// under the member id it names, since it began. The last instant of all is left
/// out.
pub proof fn law_membership_is_live_exactly_while_it_lasts(event: StateEventView, now: u64)
    requires
        now < u64::MAX,
    ensures
        live(event, now) is Some <==> lasts(event, now),
        live(event, now) matches Some(member) ==> {
            &&& member.event == event
            &&& member.slot_id == slot_in(event.content)
            &&& member.member_id == member_in(event)
            &&& event.content.get("device_id"@) == Some(JsonView::Text(member.device_id))
            &&& event.content.get("application"@) == Some(JsonView::Text(member.application))
            &&& member.joined_at == begins_at(event)
            &&& member.intent == event.content.get("m.call.intent"@)
            &&& member.prefers_own_focus <==> event.content.get_in(
                "focus_active"@,
                "focus_selection"@,
            ) == Some(JsonView::Text("multi_sfu"@))
            &&& member.own_focus == (match event.content.get("foci_preferred"@) {
                Some(JsonView::Array(foci)) if foci.len() > 0 => Some(foci[0]),
                _ => None,
            })
        },
{
    if lasts(event, now) {
        assert(event.content->Object_0.contains_key("application"@));
        assert(!Map::<Seq<char>, JsonView>::empty().contains_key("application"@));
        assert(event.content != JsonView::object());
    }
}

proof fn lemma_live_member(events: Seq<StateEventView>, now: u64, k: int) -> (e: int)
    requires
        0 <= k < live_members(events, now).len(),
    ensures
        0 <= e < events.len(),
        live(events[e], now) == Some(live_members(events, now)[k]),
{
    let choose_live = |event: StateEventView| live(event, now);
    let all = live_members(events, now);
    assert(all.contains(all[k]));
    events.lemma_filter_map_contains(choose_live, all[k]);
    let event = choose|event: StateEventView| #[trigger]
        events.contains(event) && choose_live(event) == Some(all[k]);
    choose|e: int| 0 <= e < events.len() && events[e] == event
}

proof fn lemma_focus_is_sound(events: Seq<StateEventView>, now: u64, k: int)
    requires
        0 <= k < live_members(events, now).len(),
        forall|e: int|
            0 <= e < events.len() ==> names_sound_focus((#[trigger] events[e]).content),
    ensures
        focus_of(live_members(events, now)[k], live_members(events, now)) matches Some(focus)
            ==> read_transport(focus) is Some,
{
    let all = live_members(events, now);
    let member = all[k];
    let e = lemma_live_member(events, now, k);
    assert(names_sound_focus(events[e].content));
    if exists|i: int| is_oldest(all, member.slot_id, i) {
        let i = choose|i: int| is_oldest(all, member.slot_id, i);
        let o = lemma_live_member(events, now, i);
        assert(names_sound_focus(events[o].content));
    }
}

/// Every membership that lasts is read as a member event, provided the foci that
/// the room's memberships prefer are objects of a type, which is all that a member
/// event can carry. The event is of the room and of the type that members have,
/// joins the membership's slot under its member id, and names the device that the
/// membership claims, authenticating nothing.
pub proof fn law_lasting_membership_is_read_as_a_join(
    room_id: Seq<char>,
    events: Seq<StateEventView>,
    now: u64,
    e: int,
)
    requires
        now < u64::MAX,
        0 <= e < events.len(),
        lasts(events[e], now),
        forall|k: int|
            0 <= k < events.len() ==> names_sound_focus((#[trigger] events[k]).content),
    ensures
        exists|i: int|
            0 <= i < state_member_events(room_id, events, now).len() && is_join_of(
                #[trigger] state_member_events(room_id, events, now)[i],
                room_id,
                events[e],
            ),
{
    law_membership_is_live_exactly_while_it_lasts(events[e], now);
    let choose_live = |event: StateEventView| live(event, now);
    let all = live_members(events, now);
    let member = live(events[e], now)->0;
    assert(events.contains(events[e]));
    lemma_filter_map_holds(events, choose_live, events[e]);
    let k = choose|k: int| 0 <= k < all.len() && all[k] == member;
    lemma_focus_is_sound(events, now, k);
    let focus = focus_of(member, all);
    law_translated_membership_is_a_join(events[e], now, member, focus);
    let memberships = translation(events, now);
    let membership = memberships[k];
    assert(membership == translated(member, all));
    let read = |membership: StateMembershipView| state_member_event(room_id, membership);
    assert(memberships.contains(membership));
    lemma_filter_map_holds(memberships, read, membership);
    let converted = state_member_events(room_id, events, now);
    let event = state_member_event(room_id, membership)->0;
    assert(converted.contains(event));
    let i = choose|i: int| 0 <= i < converted.len() && converted[i] == event;
    assert(is_join_of(converted[i], room_id, events[e]));
}

/// Whether a member event is of a room and joins what a state event says.
pub open spec fn is_join_of(
    event: StickyView,
    room_id: Seq<char>,
    state: StateEventView,
) -> bool {
    &&& event.event_type == "m.rtc.member"@
    &&& event.room_id == room_id
    &&& event.event_id == state.event_id
    &&& event.sender == state.sender
    &&& state.content.get("device_id"@) matches Some(JsonView::Text(device)) && event.origin
        == OriginView::Claimed(device)
    &&& event.content.slot_id == slot_in(state.content)
    &&& event.content.sticky_key == member_in(state)
    &&& event.content.member.is_join()
    &&& event.content.member.id == Some(member_in(state))
    &&& event.content.application.application_type matches Some(text) && text.len() > 0
    &&& event.content.created_ts matches Some(created) && created == begins_at(state)
}

/// Every member event that a room's membership state is read as can be taken in:
/// it is a member event of the room by its type, names a slot and a sticky key, and
/// states a join; and it joins what a membership that lasts says.
pub proof fn law_state_is_read_as_member_events(
    room_id: Seq<char>,
    events: Seq<StateEventView>,
    now: u64,
    i: int,
)
    requires
        now < u64::MAX,
        0 <= i < state_member_events(room_id, events, now).len(),
    ensures
        ({
            let event = state_member_events(room_id, events, now)[i];
            &&& is_member_type(event.event_type)
            &&& event.room_id == room_id
            &&& event.content.slot_id.len() > 0
            &&& event.content.sticky_key.len() > 0
            &&& event.content.member.is_join()
            &&& event.content.application.application_type matches Some(text) && text.len() > 0
            &&& exists|e: int|
                0 <= e < events.len() && lasts(#[trigger] events[e], now) && is_join_of(
                    event,
                    room_id,
                    events[e],
                )
        }),
{
    let converted = state_member_events(room_id, events, now);
    let event = converted[i];
    let read = |membership: StateMembershipView| state_member_event(room_id, membership);
    let memberships = translation(events, now);
    assert(converted.contains(event));
    memberships.lemma_filter_map_contains(read, event);
    let membership = choose|membership: StateMembershipView| #[trigger]
        memberships.contains(membership) && read(membership) == Some(event);
    let k = choose|k: int| 0 <= k < memberships.len() && memberships[k] == membership;
    let all = live_members(events, now);
    let member = all[k];
    let e = lemma_live_member(events, now, k);
    law_membership_is_live_exactly_while_it_lasts(events[e], now);
    let focus = focus_of(member, all);
    assert(membership == translated(member, all));
    lemma_readable_focus(member, focus);
    law_translated_membership_is_a_join(events[e], now, member, focus);
    reveal_strlit("#");
    assert(is_join_of(event, room_id, events[e]));
    assert(event.content.slot_id.len() > 0);
}

proof fn lemma_readable_focus(member: LiveView, focus: Option<JsonView>)
    requires
        read_content(translated_content(member, focus)) is Some,
    ensures
        focus matches Some(focus) ==> read_transport(focus) is Some,
{
    lemma_content_names();
    match focus {
        Some(focus) => {
            let content = translated_content(member, Some(focus));
            let transports = translated_transports(focus);
            assert(content.get("transports"@) == Some(transports));
            assert(read_transports(transports) is Some);
            assert(transports.get("published"@) == Some(JsonView::Array(seq![focus])));
            assert(read_transport_list(seq![focus]) is Some);
            assert(seq![focus].last() == focus);
        },
        None => {},
    }
}

/// A sticky member event contributes a membership exactly if it is more than a bare
/// sticky key and its content, in the current names, can be read. The membership is of
/// the room, and has the event's id, sender and type, and what its content says.
pub proof fn law_member_event_is_read_as_it_says(room_id: Seq<char>, event: MemberInView)
    ensures
        member_event(room_id, event) is Some <==> !is_bare_leave(event.content) && read_content(
            normalized(event.content),
        ) is Some,
        member_event(room_id, event) matches Some(read) ==> {
            &&& read.room_id == room_id
            &&& read.event_id == event.event_id
            &&& read.sender == event.sender
            &&& read.event_type == event.event_type
            &&& read_content(normalized(event.content)) == Some(read.content)
        },
{
}

/// How a sticky member event reached us is what decryption said of it: encrypted from
/// the device that decryption named, whatever device its content claims. Where
/// decryption named none, the device that the content claims is taken for a claim; and
/// where it claims none, the event came as it was reported to.
pub proof fn law_member_event_keeps_its_origin(
    room_id: Seq<char>,
    event: MemberInView,
)
    requires
        member_event(room_id, event) is Some,
        event.content is Object,
    ensures
        ({
            let read = member_event(room_id, event)->0;
            let claim = event.content.get_in("member"@, "device_id"@);
            &&& event.was_encrypted == Some(true) && event.sender_device_id is Some ==> read.origin
                == OriginView::Encrypted(event.sender_device_id)
            &&& !(event.was_encrypted == Some(true) && event.sender_device_id is Some) ==> {
                &&& claim matches Some(JsonView::Text(device)) ==> device.len() > 0 ==> read.origin
                    == OriginView::Claimed(device)
                &&& claim is None ==> read.origin == (match event.was_encrypted {
                    Some(true) => OriginView::Encrypted(None),
                    Some(false) => OriginView::Cleartext,
                    None => OriginView::Unknown,
                })
            }
        }),
{
    reveal_strlit("member");
    reveal_strlit("transports");
    reveal_strlit("membership");
    reveal_strlit("device_id");
    assert("member"@.len() == 6 && "transports"@.len() == 10);
    assert("membership"@.len() == 10 && "device_id"@.len() == 9);
    assert(normalized(event.content).get_in("member"@, "device_id"@) == event.content.get_in(
        "member"@,
        "device_id"@,
    ));
}

/// A content of an older generation is brought into the current names and loses
/// nothing: a member that does not say so is in the session, and transports that are
/// listed flat are those it publishes on, with their types as those it can receive on.
/// What is said in the current names already stays as it is.
pub proof fn law_older_content_is_brought_into_current_names(content: JsonView, name: Seq<char>)
    requires
        content is Object,
        !is_bare_leave(content),
    ensures
        ({
            let read = normalized(content);
            &&& name != "member"@ && name != "transports"@ ==> read.get(name) == content.get(name)
            &&& name != "membership"@ ==> read.get_in("member"@, name) == content.get_in(
                "member"@,
                name,
            )
            &&& content.get("member"@) is Some && content.get("member"@)->0 is Object
                ==> read.get_in("member"@, "membership"@) == (match content.get_in(
                "member"@,
                "membership"@,
            ) {
                Some(stated) => Some(stated),
                None => Some(JsonView::Text("join"@)),
            })
            &&& content.get("transports"@) is Some || content.get("rtc_transports"@) is None
                ==> read.get("transports"@) == content.get("transports"@)
            &&& content.get("transports"@) is None && content.get("rtc_transports"@) is Some
                && content.get("rtc_transports"@)->0 is Array ==> {
                &&& read.get_in("transports"@, "published"@) == content.get("rtc_transports"@)
                &&& read.get_in("transports"@, "can_subscribe"@) is Some
                &&& read.get_in("transports"@, "can_subscribe"@)->0 is Array
            }
        }),
{
    reveal_strlit("member");
    reveal_strlit("transports");
    reveal_strlit("rtc_transports");
    reveal_strlit("membership");
    reveal_strlit("published");
    reveal_strlit("can_subscribe");
    assert("member"@.len() == 6 && "transports"@.len() == 10 && "rtc_transports"@.len() == 14);
    assert("published"@.len() == 9 && "can_subscribe"@.len() == 13);
}

/// The types a member of an older generation can receive on are those of the transports
/// it lists, in order, where each names one.
pub proof fn law_older_member_receives_what_it_publishes(transports: Seq<JsonView>)
    requires
        forall|i: int|
            0 <= i < transports.len() ==> (#[trigger] transports[i]).get("type"@) is Some
                && transports[i].get("type"@)->0 is Text,
    ensures
        transport_types(transports).len() == transports.len(),
        forall|i: int|
            0 <= i < transports.len() ==> Some(#[trigger] transport_types(transports)[i])
                == transports[i].get("type"@),
    decreases transports.len(),
{
    reveal(Seq::filter_map);
    if transports.len() > 0 {
        let rest = transports.drop_last();
        assert forall|i: int| 0 <= i < rest.len() implies (#[trigger] rest[i]).get(
            "type"@,
        ) is Some && rest[i].get("type"@)->0 is Text by {
            assert(rest[i] == transports[i]);
        }
        law_older_member_receives_what_it_publishes(rest);
        assert(transports[transports.len() - 1].get("type"@) is Some);
        let last = transports.last().get("type"@)->0;
        assert(transport_types(transports) =~= transport_types(rest).push(last));
        assert forall|i: int| 0 <= i < transports.len() implies Some(
            #[trigger] transport_types(transports)[i],
        ) == transports[i].get("type"@) by {
            if i < rest.len() {
                assert(rest[i] == transports[i]);
                assert(transport_types(rest)[i] == transport_types(transports)[i]);
            }
        }
    }
}

/// A key message of an older generation has a key exactly if it names a room, an index
/// that fits a byte, key material, and whom the key is of: the member it names or, where
/// it names none, the user it came from with the device it says it came from.
pub proof fn law_older_key_message_is_read_as_it_says(sender: Seq<char>, content: JsonView)
    ensures
        key_message(sender, content) matches Some(key) ==> {
            &&& content.get("room_id"@) == Some(JsonView::Text(key.room_id))
            &&& key.room_id.len() > 0
            &&& content.get_in("keys"@, "key"@) == Some(JsonView::Text(key.key_b64))
            &&& key.key_b64.len() > 0
            &&& content.get_in("keys"@, "index"@) == Some(JsonView::number(key.key_index as u64))
            &&& match content.get_in("member"@, "id"@) {
                Some(JsonView::Text(id)) if id.len() > 0 => key.member_id == id,
                _ => content.get("device_id"@) matches Some(JsonView::Text(device)) && device.len()
                    > 0 && key.member_id == sender + ":"@ + device,
            }
        },
        key_message(sender, content) is None ==> text_or(content, "room_id"@, Seq::empty()).len()
            == 0 || content.get("keys"@) is None || text_or(
            content.get("keys"@)->0,
            "key"@,
            Seq::empty(),
        ).len() == 0 || (text_or(content, "device_id"@, Seq::empty()).len() == 0 && (content.get(
            "member"@,
        ) is None || text_or(content.get("member"@)->0, "id"@, Seq::empty()).len() == 0)) || !(
        content.get_in("keys"@, "index"@) matches Some(
            JsonView::Number(NumberView::Unsigned(index)),
        ) && index <= 255),
{
}

/// Where memberships are room state a key is of the user it came from and the device
/// that decryption named or, where it named none, the one that the message claims; a
/// message of no device has no key. In any other generation a key is of whom its
/// message says.
pub proof fn law_key_is_bound_to_its_membership(
    compat: ElementCallCompat,
    sender: Seq<char>,
    device: Option<Seq<char>>,
    content: JsonView,
)
    ensures
        compat != ElementCallCompat::StateEvents ==> legacy_key(compat, sender, device, content)
            == key_message(sender, content),
        key_message(sender, content) is None ==> legacy_key(compat, sender, device, content)
            is None,
        compat == ElementCallCompat::StateEvents && key_message(sender, content) is Some ==> {
            let claim = text_or(content, "device_id"@, Seq::empty());
            let said = key_message(sender, content)->0;
            match (device, claim.len() > 0) {
                (Some(device), _) => legacy_key(compat, sender, Some(device), content) == Some(
                    LegacyKeyView { member_id: sender + ":"@ + device, ..said },
                ),
                (None, true) => legacy_key(compat, sender, None, content) == Some(
                    LegacyKeyView { member_id: sender + ":"@ + claim, ..said },
                ),
                (None, false) => legacy_key(compat, sender, None, content) is None,
            }
        },
{
}

/// A content is a bare leave exactly if it says its sticky key, under either name, and
/// nothing else.
pub proof fn law_bare_leave_says_its_key_alone(content: JsonView)
    requires
        content is Object,
    ensures
        is_bare_leave(content) <==> (content.get("msc4354_sticky_key"@) is Some || content.get(
            "sticky_key"@,
        ) is Some) && forall|name: Seq<char>| #[trigger]
            content.get(name) is Some ==> name == "msc4354_sticky_key"@ || name == "sticky_key"@,
{
    let members = content->Object_0;
    if is_bare_leave(content) {
        if !members.contains_key("msc4354_sticky_key"@) && !members.contains_key("sticky_key"@) {
            assert forall|name: Seq<char>| !members.contains_key(name) by {}
            assert(members =~= Map::empty());
        }
    } else if (content.get("msc4354_sticky_key"@) is Some || content.get("sticky_key"@) is Some)
        && forall|name: Seq<char>| #[trigger]
        content.get(name) is Some ==> name == "msc4354_sticky_key"@ || name == "sticky_key"@ {
        assert forall|name: Seq<char>| #[trigger] members.contains_key(name) implies name
            == "msc4354_sticky_key"@ || name == "sticky_key"@ by {
            assert(content.get(name) is Some);
        }
        assert(members.contains_key("msc4354_sticky_key"@) || members.contains_key(
            "sticky_key"@,
        ));
        assert(!Map::<Seq<char>, JsonView>::empty().contains_key("msc4354_sticky_key"@));
        assert(!Map::<Seq<char>, JsonView>::empty().contains_key("sticky_key"@));
    }
}

/// What a membership of room state is read as says its kind of call where it names one,
/// and the focus it is settled on as the one transport it publishes on and can receive.
pub proof fn law_read_membership_says_its_focus(member: LiveView, focus: Option<JsonView>)
    ensures
        ({
            let content = translated_content(member, focus);
            &&& content.get_in("application"@, "m.call.intent"@) == member.intent
            &&& content.get_in("application"@, "type"@) == Some(
                JsonView::Text(member.application),
            )
            &&& focus is None ==> content.get("transports"@) is None
            &&& focus matches Some(focus) ==> {
                &&& content.get_in("transports"@, "published"@) == Some(
                    JsonView::Array(seq![focus]),
                )
                &&& focus.get("type"@) matches Some(JsonView::Text(text)) ==> content.get_in(
                    "transports"@,
                    "can_subscribe"@,
                ) == Some(JsonView::Array(seq![JsonView::Text(text)]))
            }
        }),
{
    lemma_content_names();
}

/// The memberships that a list of sticky member events is read as are those of its
/// events, all of them and nothing else.
pub proof fn law_every_member_event_is_read(
    room_id: Seq<char>,
    events: Seq<MemberInView>,
    e: int,
    read: StickyView,
)
    ensures
        0 <= e < events.len() && member_event(room_id, events[e]) is Some ==> member_events(
            room_id,
            events,
        ).contains(member_event(room_id, events[e])->0),
        member_events(room_id, events).contains(read) ==> exists|i: int|
            0 <= i < events.len() && member_event(room_id, #[trigger] events[i]) == Some(read),
{
    let pick = |event: MemberInView| member_event(room_id, event);
    if 0 <= e < events.len() && member_event(room_id, events[e]) is Some {
        assert(events.contains(events[e]));
        lemma_filter_map_holds(events, pick, events[e]);
    }
    if member_events(room_id, events).contains(read) {
        events.lemma_filter_map_contains(pick, read);
        let event = choose|event: MemberInView| #[trigger]
            events.contains(event) && pick(event) == Some(read);
        let i = choose|i: int| 0 <= i < events.len() && events[i] == event;
        assert(member_event(room_id, events[i]) == Some(read));
    }
}

} // verus!
