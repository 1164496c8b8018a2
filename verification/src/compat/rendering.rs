//! What the events we send say to the members they are for.

use vstd::prelude::*;
use crate::compat::element_call::{
    content_kind, flattened, key_message, law_sent_key_is_read_back, legacy_key_content,
    ElementCallDialect, LegacyKeyView, MemberContent,
};
use crate::compat::element_call_state::{as_focus, foci_for, ElementCallStateDialect};
use crate::compat::ingest::speaks;
use crate::compat::{ElementCallCompat, OutboundDialect, RouteView};
use crate::encryption::outbound::key_content;
use crate::event::is_member_type;
use crate::json::{Json, JsonView};
use crate::seqs::lemma_filter_map_holds;
use crate::text::lemma_first_mark;

verus! {

/// Whether a content says that its member leaves.
pub open spec fn says_leave(content: JsonView) -> bool {
    content.get_in("member"@, "membership"@) == Some(JsonView::Text("leave"@))
}

/// In the sticky dialect a membership goes out as a sticky event of its type that
/// legacy readers can read: its member names our user and device, and the
/// published transports are listed where they look for them. Everything else it
/// said it still says.
pub proof fn law_sticky_join_is_legible_to_both(
    dialect: ElementCallDialect,
    began: Option<u64>,
    event_type: Seq<char>,
    content: JsonView,
    lifetime: Option<u64>,
    now: u64,
    name: Seq<char>,
)
    requires
        is_member_type(event_type),
        content is Object,
        content.get("member"@) matches Some(member) && member is Object,
        !says_leave(content),
    ensures
        OutboundDialect::Sticky(dialect).route(began, event_type, content, lifetime, now) matches
            RouteView::Sticky(sent_type, sent) && {
            &&& sent_type == event_type
            &&& sent.get_in("member"@, "user_id"@) == Some(JsonView::Text(dialect.user()))
            &&& sent.get_in("member"@, "device_id"@) == Some(JsonView::Text(dialect.device()))
            &&& content.get_in("transports"@, "published"@) is Some ==> sent.get(
                "rtc_transports"@,
            ) == content.get_in("transports"@, "published"@)
            &&& name != "member"@ && name != "rtc_transports"@ ==> sent.get(name)
                == content.get(name)
            &&& name != "user_id"@ && name != "device_id"@ ==> sent.get_in("member"@, name)
                == content.get_in("member"@, name)
        },
{
    reveal_strlit("member");
    reveal_strlit("rtc_transports");
    reveal_strlit("user_id");
    reveal_strlit("device_id");
    assert("member"@.len() != "rtc_transports"@.len());
    assert("user_id"@.len() != "device_id"@.len());
}

/// In the sticky dialect a leave goes out as its bare sticky key, which is what
/// legacy readers take for a leave: nothing else stays in it.
pub proof fn law_sticky_leave_is_a_bare_key(
    dialect: ElementCallDialect,
    began: Option<u64>,
    event_type: Seq<char>,
    content: JsonView,
    lifetime: Option<u64>,
    now: u64,
    key: JsonView,
)
    requires
        is_member_type(event_type),
        says_leave(content),
        content.get("msc4354_sticky_key"@) == Some(key) || (content.get("msc4354_sticky_key"@) is None
            && content.get("sticky_key"@) == Some(key)),
    ensures
        OutboundDialect::Sticky(dialect).route(began, event_type, content, lifetime, now) matches
            RouteView::Sticky(sent_type, sent) && {
            &&& sent_type == event_type
            &&& sent == JsonView::object().with("msc4354_sticky_key"@, key)
            &&& content_kind(sent) == MemberContent::BareLeave
        },
{
    let sent = JsonView::object().with("msc4354_sticky_key"@, key);
    assert(sent->Object_0.contains_key("msc4354_sticky_key"@));
    assert(!Map::<Seq<char>, JsonView>::empty().contains_key("msc4354_sticky_key"@));
}

/// In the state dialect a membership goes out as room state under our user, device
/// and session: a leave as the empty content, a join as one that names our device,
/// our member id, our session and the foci we offer.
pub proof fn law_state_membership_is_room_state(
    dialect: ElementCallStateDialect,
    began: Option<u64>,
    event_type: Seq<char>,
    content: JsonView,
    lifetime: Option<u64>,
    now: u64,
)
    requires
        is_member_type(event_type),
    ensures
        OutboundDialect::State(dialect).route(began, event_type, content, lifetime, now) matches
            RouteView::State(sent_type, state_key, sent) && {
            &&& sent_type == "org.matrix.msc3401.call.member"@
            &&& (says_leave(content) || content.get("slot_id"@) is None) ==> sent
                == JsonView::object()
            &&& !says_leave(content) && content.get("slot_id"@) is Some ==> {
                &&& sent.get("device_id"@) == Some(JsonView::Text(dialect.device()))
                &&& sent.get("membershipID"@) == Some(
                    JsonView::Text(dialect.user() + ":"@ + dialect.device()),
                )
                &&& sent.get_in("focus_active"@, "type"@) == Some(JsonView::Text("livekit"@))
                &&& sent.get_in("focus_active"@, "focus_selection"@) == Some(
                    JsonView::Text("multi_sfu"@),
                )
                &&& sent.get("foci_preferred"@) == Some(
                    JsonView::Array(foci_for(content, dialect.room())),
                )
                &&& sent.get("scope"@) == Some(JsonView::Text("m.room"@))
                &&& sent.get("m.call.intent"@) == (match content.get_in(
                    "application"@,
                    "m.call.intent"@,
                ) {
                    Some(intent) => Some(intent),
                    None => Some(JsonView::Text("video"@)),
                })
            }
        },
{
    crate::compat::laws::lemma_state_names();
    reveal_strlit("scope");
    reveal_strlit("focus_selection");
    reveal_strlit("type");
}

/// In the current format every event goes out as it is, as a sticky event; nothing
/// else is ever learnt from routing it.
pub proof fn law_current_format_is_untouched(
    began: Option<u64>,
    event_type: Seq<char>,
    content: JsonView,
    lifetime: Option<u64>,
    now: u64,
)
    ensures
        OutboundDialect::Current.route(began, event_type, content, lifetime, now)
            == RouteView::Sticky(event_type, content),
        OutboundDialect::Current.began_after(began, event_type, content, now) == began,
{
}

/// What is no membership goes out as it is: sticky in the dialect that has sticky
/// events, and as an ordinary room event in the one that has none.
pub proof fn law_other_events_go_where_the_dialect_has_them(
    sticky: ElementCallDialect,
    state: ElementCallStateDialect,
    began: Option<u64>,
    event_type: Seq<char>,
    content: JsonView,
    lifetime: Option<u64>,
    now: u64,
)
    requires
        event_type != "m.rtc.member"@,
        event_type != "org.matrix.msc4143.rtc.member"@,
    ensures
        OutboundDialect::Sticky(sticky).route(began, event_type, content, lifetime, now)
            == RouteView::Sticky(event_type, content),
        OutboundDialect::State(state).route(began, event_type, content, lifetime, now)
            == RouteView::Room(event_type, content),
        OutboundDialect::State(state).began_after(began, event_type, content, now) == began,
{
}

/// A notification for an older generation says at the top what it says of the call
/// in its application, and otherwise what it said.
pub proof fn law_flat_notification_says_it_twice(content: JsonView, name: Seq<char>)
    requires
        content is Object,
    ensures
        ({
            let lifted = name == "notification_type"@ || name == "sender_ts"@ || name
                == "lifetime"@ || name == "m.call.intent"@;
            flattened(content).get(name) == (if lifted && content.get_in(
                "application"@,
                name,
            ) is Some {
                content.get_in("application"@, name)
            } else {
                content.get(name)
            })
        }),
{
    reveal_strlit("notification_type");
    reveal_strlit("sender_ts");
    reveal_strlit("lifetime");
    reveal_strlit("m.call.intent");
    reveal_strlit("application");
    assert("notification_type"@.len() == 17 && "sender_ts"@.len() == 9 && "lifetime"@.len() == 8);
    assert("m.call.intent"@.len() == 13 && "application"@.len() == 11);
}

/// A media key for an older generation goes out under the type and in the shape
/// that generation reads, and is read there as the key it is, of the room and the
/// member it is of. In the current format it goes out as it is, and so does in
/// every dialect what is no media key.
pub proof fn law_media_key_is_read_by_its_generation(
    sticky: ElementCallDialect,
    state: ElementCallStateDialect,
    sender: Seq<char>,
    room_id: Seq<char>,
    member_id: Seq<char>,
    key_index: u8,
    key_b64: Seq<char>,
    message_type: Seq<char>,
    content: JsonView,
)
    requires
        room_id.len() > 0,
        member_id.len() > 0,
        key_b64.len() > 0,
        message_type != crate::encryption::KEY_MESSAGE_TYPE@,
    ensures
        ({
            let key = key_content(room_id, member_id, key_index, key_b64);
            let by_sticky = OutboundDialect::Sticky(sticky).to_device(
                crate::encryption::KEY_MESSAGE_TYPE@,
                key,
            );
            let by_state = OutboundDialect::State(state).to_device(
                crate::encryption::KEY_MESSAGE_TYPE@,
                key,
            );
            let read = LegacyKeyView { room_id, member_id, key_index, key_b64 };
            &&& by_sticky.0 == "io.element.call.encryption_keys"@
            &&& key_message(sender, by_sticky.1) == Some(read)
            &&& by_state.0 == "io.element.call.encryption_keys"@
            &&& key_message(sender, by_state.1) == Some(read)
            &&& OutboundDialect::Current.to_device(crate::encryption::KEY_MESSAGE_TYPE@, key) == (
                crate::encryption::KEY_MESSAGE_TYPE@,
                key,
            )
        }),
        OutboundDialect::Sticky(sticky).to_device(message_type, content) == (
            message_type,
            content,
        ),
        OutboundDialect::State(state).to_device(message_type, content) == (message_type, content),
{
    law_sent_key_is_read_back(
        sender,
        sticky.device(),
        sticky.slot(),
        room_id,
        member_id,
        key_index,
        key_b64,
    );
    law_sent_key_is_read_back(
        sender,
        state.device(),
        state.slot(),
        room_id,
        member_id,
        key_index,
        key_b64,
    );
}

/// A media key in the shape of an older generation says which device it is from and
/// which session it is for: the application and the call that the slot id names, the
/// call of the whole room being written as nothing.
pub proof fn law_legacy_key_names_its_session(
    device_id: Seq<char>,
    application: Seq<char>,
    call: Seq<char>,
    content: JsonView,
)
    requires
        content.get("room_id"@) is Some,
        content.get("member_id"@) is Some,
        content.get_in("media_key"@, "index"@) is Some,
        content.get_in("media_key"@, "key"@) is Some,
        forall|i: int| 0 <= i < application.len() ==> #[trigger] application[i] != '#',
    ensures
        legacy_key_content(device_id, application + "#"@ + call, content) matches Some(legacy) && {
            &&& legacy.get("room_id"@) == content.get("room_id"@)
            &&& legacy.get("device_id"@) == Some(JsonView::Text(device_id))
            &&& legacy.get_in("member"@, "id"@) == content.get("member_id"@)
            &&& legacy.get_in("member"@, "claimed_device_id"@) == Some(JsonView::Text(device_id))
            &&& legacy.get_in("keys"@, "index"@) == content.get_in("media_key"@, "index"@)
            &&& legacy.get_in("keys"@, "key"@) == content.get_in("media_key"@, "key"@)
            &&& legacy.get_in("session"@, "application"@) == Some(JsonView::Text(application))
            &&& legacy.get_in("session"@, "call_id"@) == Some(
                JsonView::Text(
                    if call == "ROOM"@ {
                        ""@
                    } else {
                        call
                    },
                ),
            )
            &&& legacy.get_in("session"@, "scope"@) == Some(JsonView::Text("m.room"@))
        },
{
    let slot_id = application + "#"@ + call;
    reveal_strlit("#");
    reveal_strlit("");
    reveal_strlit("room_id");
    reveal_strlit("device_id");
    reveal_strlit("member");
    reveal_strlit("keys");
    reveal_strlit("session");
    reveal_strlit("id");
    reveal_strlit("claimed_device_id");
    reveal_strlit("index");
    reveal_strlit("key");
    reveal_strlit("application");
    reveal_strlit("call_id");
    reveal_strlit("scope");
    assert("room_id"@.len() == 7 && "device_id"@.len() == 9 && "member"@.len() == 6);
    assert("keys"@.len() == 4 && "session"@.len() == 7);
    assert("room_id"@[0] == 'r' && "session"@[0] == 's');
    assert("id"@.len() == 2 && "claimed_device_id"@.len() == 17);
    assert("index"@.len() == 5 && "key"@.len() == 3);
    assert("application"@.len() == 11 && "call_id"@.len() == 7 && "scope"@.len() == 5);
    assert forall|i: int| 0 <= i < application.len() implies #[trigger] slot_id[i] != '#' by {
        assert(slot_id[i] == application[i]);
    }
    assert(slot_id[application.len() as int] == '#');
    lemma_first_mark(slot_id, '#', application.len() as int);
    assert(slot_id.take(application.len() as int) =~= application);
    assert(slot_id.skip(application.len() as int + 1) =~= call);
    assert(""@ =~= Seq::<char>::empty());
}

/// A notification is rendered flat for an older generation, under either of its names;
/// in the current format it stays as it is, and so does everything else in any.
pub proof fn law_only_older_generations_get_flat_notifications(
    dialect: OutboundDialect,
    event_type: Seq<char>,
    content: JsonView,
)
    ensures
        (event_type == "m.rtc.notification"@ || event_type
            == "org.matrix.msc4075.rtc.notification"@) && dialect != OutboundDialect::Current
            ==> dialect.notification(event_type, content) == flattened(content),
        dialect == OutboundDialect::Current ==> dialect.notification(event_type, content)
            == content,
        event_type != "m.rtc.notification"@ && event_type
            != "org.matrix.msc4075.rtc.notification"@ ==> dialect.notification(event_type, content)
            == content,
{
}

/// A media key is rendered exactly in the dialects of older generations, as the message
/// that goes out there: what a to-device message says is what it was rendered to, and
/// what was not rendered goes out as it is.
pub proof fn law_rendered_key_is_what_goes_out(
    dialect: OutboundDialect,
    message_type: Seq<char>,
    content: JsonView,
    rewritten: Option<(String, Json)>,
)
    requires
        dialect.renders_key(message_type, content, rewritten),
    ensures
        rewritten matches Some((legacy_type, legacy)) ==> dialect.to_device(message_type, content)
            == (legacy_type@, legacy@) && legacy_type@ == "io.element.call.encryption_keys"@
            && message_type == "org.matrix.msc4143.rtc.encryption_key"@ && dialect != OutboundDialect::Current,
        rewritten is None ==> dialect.to_device(message_type, content) == (message_type, content),
{
}

/// The state key of our membership as room state names our user, our device and the
/// session: the application and the call of the slot id, the call of the whole room
/// being written as nothing.
pub proof fn law_state_key_names_the_session(
    dialect: ElementCallStateDialect,
    began: Option<u64>,
    event_type: Seq<char>,
    content: JsonView,
    lifetime: Option<u64>,
    now: u64,
    application: Seq<char>,
    call: Seq<char>,
)
    requires
        is_member_type(event_type),
        dialect.slot() == application + "#"@ + call,
        forall|i: int| 0 <= i < application.len() ==> #[trigger] application[i] != '#',
    ensures
        OutboundDialect::State(dialect).route(began, event_type, content, lifetime, now) matches
            RouteView::State(_, state_key, _) && state_key == "_"@ + dialect.user() + "_"@
            + dialect.device() + "_"@ + application + (if call == "ROOM"@ {
            ""@
        } else {
            call
        }),
{
    let slot_id = dialect.slot();
    reveal_strlit("#");
    reveal_strlit("");
    assert forall|i: int| 0 <= i < application.len() implies #[trigger] slot_id[i] != '#' by {
        assert(slot_id[i] == application[i]);
    }
    assert(slot_id[application.len() as int] == '#');
    lemma_first_mark(slot_id, '#', application.len() as int);
    assert(slot_id.take(application.len() as int) =~= application);
    assert(slot_id.skip(application.len() as int + 1) =~= call);
    assert(""@ =~= Seq::<char>::empty());
}

/// Whether a focus is a transport under the alias it names, or else the room's id.
pub open spec fn is_focus_of(
    focus: JsonView,
    transport: JsonView,
    room_id: Seq<char>,
) -> bool {
    &&& focus.get("livekit_alias"@) == (match transport.get("livekit_alias"@) {
        Some(alias) => Some(alias),
        None => Some(JsonView::Text(room_id)),
    })
    &&& forall|name: Seq<char>|
        name != "livekit_alias"@ ==> #[trigger] focus.get(name) == transport.get(name)
}

/// The foci that our membership as room state offers are the LiveKit transports we publish
/// on, all of them and nothing else, each under the alias it names or else the room's id.
pub proof fn law_foci_are_the_published_transports(
    content: JsonView,
    room_id: Seq<char>,
    t: int,
    f: int,
)
    ensures
        ({
            let published = content.get_in("transports"@, "published"@);
            let transports = published->0->Array_0;
            let foci = foci_for(content, room_id);
            let listed = published is Some && published->0 is Array;
            &&& !listed ==> foci.len() == 0
            &&& listed && 0 <= t < transports.len() && transports[t].get("type"@) == Some(
                JsonView::Text("livekit"@),
            ) ==> exists|g: int|
                0 <= g < foci.len() && is_focus_of(#[trigger] foci[g], transports[t], room_id)
            &&& listed && 0 <= f < foci.len() ==> exists|u: int|
                0 <= u < transports.len() && (#[trigger] transports[u]).get("type"@) == Some(
                    JsonView::Text("livekit"@),
                ) && is_focus_of(foci[f], transports[u], room_id)
        }),
{
    let published = content.get_in("transports"@, "published"@);
    let pick = |transport: JsonView|
        if transport.text_at("type"@) == Some("livekit"@) {
            Some(as_focus(transport, room_id))
        } else {
            None
        };
    let foci = foci_for(content, room_id);
    reveal(Seq::filter_map);
    if published is Some && published->0 is Array {
        let transports = published->0->Array_0;
        if 0 <= t < transports.len() && transports[t].get("type"@) == Some(
            JsonView::Text("livekit"@),
        ) {
            assert(transports.contains(transports[t]));
            lemma_filter_map_holds(transports, pick, transports[t]);
            let g = choose|g: int|
                0 <= g < foci.len() && foci[g] == as_focus(transports[t], room_id);
            assert(is_focus_of(foci[g], transports[t], room_id));
        }
        if 0 <= f < foci.len() {
            assert(foci.contains(foci[f]));
            transports.lemma_filter_map_contains(pick, foci[f]);
            let transport = choose|transport: JsonView| #[trigger]
                transports.contains(transport) && pick(transport) == Some(foci[f]);
            let u = choose|u: int| 0 <= u < transports.len() && transports[u] == transport;
            assert(is_focus_of(foci[f], transports[u], room_id));
        }
    }
}

/// Each generation is spoken to in its own dialect, as the user and device we are and in
/// the slot we are in: with the current format's names alone, with the older names beside
/// them, or with memberships as room state.
pub proof fn law_each_generation_has_its_dialect(
    compat: ElementCallCompat,
    user_id: Seq<char>,
    device_id: Seq<char>,
    room_id: Seq<char>,
    slot_id: Seq<char>,
    dialect: OutboundDialect,
    began: Option<u64>,
    event_type: Seq<char>,
    content: JsonView,
    lifetime: Option<u64>,
    now: u64,
)
    requires
        speaks(compat, user_id, device_id, room_id, slot_id, dialect),
        is_member_type(event_type),
        content is Object,
        content.get("member"@) matches Some(member) && member is Object,
        content.get("slot_id"@) is Some,
        !says_leave(content),
    ensures
        ({
            let route = dialect.route(began, event_type, content, lifetime, now);
            &&& compat is Off ==> route == RouteView::Sticky(event_type, content)
            &&& compat is StickyEvents ==> (route matches RouteView::Sticky(sent_type, sent)
                && sent_type == event_type && sent.get_in("member"@, "user_id"@) == Some(
                JsonView::Text(user_id),
            ) && sent.get_in("member"@, "device_id"@) == Some(JsonView::Text(device_id)))
            &&& compat is StateEvents ==> (route matches RouteView::State(sent_type, _, sent)
                && sent_type == "org.matrix.msc3401.call.member"@ && sent.get("device_id"@)
                == Some(JsonView::Text(device_id)) && sent.get("membershipID"@) == Some(
                JsonView::Text(user_id + ":"@ + device_id),
            ) && sent.get("foci_preferred"@) == Some(
                JsonView::Array(foci_for(content, room_id)),
            ))
        }),
{
    match dialect {
        OutboundDialect::Sticky(sticky) => {
            law_sticky_join_is_legible_to_both(
                sticky,
                began,
                event_type,
                content,
                lifetime,
                now,
                "member"@,
            );
        },
        OutboundDialect::State(state) => {
            law_state_membership_is_room_state(state, began, event_type, content, lifetime, now);
        },
        OutboundDialect::Current => {},
    }
}

/// A notification that is to be sticky goes out flat where the dialect is of an older
/// generation and as it is in the current format; it says nothing of when our
/// membership began.
pub proof fn law_notification_is_prepared_for_its_readers(
    dialect: OutboundDialect,
    began: Option<u64>,
    event_type: Seq<char>,
    content: JsonView,
    duration_ms: u64,
    now: u64,
    after: Option<u64>,
    route: RouteView,
)
    requires
        dialect.prepares_sticky(began, event_type, content, duration_ms, now, after, route),
        event_type == "m.rtc.notification"@ || event_type
            == "org.matrix.msc4075.rtc.notification"@,
    ensures
        after == began,
        dialect is Current ==> route == RouteView::Sticky(event_type, content),
        dialect is Sticky ==> route == RouteView::Sticky(event_type, flattened(content)),
        dialect is State ==> route == RouteView::Room(event_type, flattened(content)),
{
    reveal_strlit("m.rtc.notification");
    reveal_strlit("org.matrix.msc4075.rtc.notification");
    reveal_strlit("m.rtc.member");
    reveal_strlit("org.matrix.msc4143.rtc.member");
    assert("m.rtc.notification"@.len() == 18);
    assert("org.matrix.msc4075.rtc.notification"@.len() == 35);
    assert("m.rtc.member"@.len() == 12);
    assert("org.matrix.msc4143.rtc.member"@.len() == 29);
}

/// A leave that is to be sent later says then what a leave says at once: in the current
/// format what it said, in the sticky dialect its bare key, and in the state dialect
/// nothing, under our state key. It leaves alone when our membership began.
pub proof fn law_delayed_leave_is_prepared_as_a_leave(
    dialect: OutboundDialect,
    began: Option<u64>,
    event_type: Seq<char>,
    content: JsonView,
    key: JsonView,
    now: u64,
    after: Option<u64>,
    route: RouteView,
)
    requires
        dialect.prepares_delayed(began, event_type, content, now, after, route),
        event_type == "m.rtc.member"@ || event_type == "org.matrix.msc4143.rtc.member"@,
        says_leave(content),
        content.get("msc4354_sticky_key"@) == Some(key) || (content.get("msc4354_sticky_key"@) is None
            && content.get("sticky_key"@) == Some(key)),
    ensures
        after == began,
        dialect is Current ==> route == RouteView::Sticky(event_type, content),
        dialect is Sticky ==> route == RouteView::Sticky(
            event_type,
            JsonView::object().with("msc4354_sticky_key"@, key),
        ),
        dialect is State ==> (route matches RouteView::State(sent_type, _, sent) && sent_type
            == "org.matrix.msc3401.call.member"@ && sent == JsonView::object()),
{
    match dialect {
        OutboundDialect::Current => {},
        OutboundDialect::Sticky(sticky) => {
            law_sticky_leave_is_a_bare_key(sticky, began, event_type, content, None, now, key);
        },
        OutboundDialect::State(state) => {
            law_state_membership_is_room_state(state, began, event_type, content, None, now);
        },
    }
}

/// A membership that is to be sticky goes out as it would by itself, for as long as was
/// asked.
pub proof fn law_membership_is_prepared_as_it_is(
    dialect: OutboundDialect,
    began: Option<u64>,
    event_type: Seq<char>,
    content: JsonView,
    duration_ms: u64,
    now: u64,
    after: Option<u64>,
    route: RouteView,
)
    requires
        dialect.prepares_sticky(began, event_type, content, duration_ms, now, after, route),
        event_type == "m.rtc.member"@ || event_type == "org.matrix.msc4143.rtc.member"@,
    ensures
        route == dialect.route(began, event_type, content, Some(duration_ms), now),
        began is Some ==> after == began,
{
    reveal_strlit("m.rtc.notification");
    reveal_strlit("org.matrix.msc4075.rtc.notification");
    reveal_strlit("m.rtc.member");
    reveal_strlit("org.matrix.msc4143.rtc.member");
    assert("m.rtc.notification"@.len() == 18);
    assert("org.matrix.msc4075.rtc.notification"@.len() == 35);
    assert("m.rtc.member"@.len() == 12);
    assert("org.matrix.msc4143.rtc.member"@.len() == 29);
}

} // verus!
