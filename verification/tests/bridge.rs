//! What a bridge to a Matrix client decides.

use matrix_rtc::bridge::{
    can_bridge, delayed_command_error, keep_bridging, slot_snapshot, snapshot, sticky_refusal,
    timeline_ingest_from_raw, ApiErrorKind, DecryptionInfo, StickyEntry, TimelineIngest, Wake,
};
use matrix_rtc::clock::now_ms;
use matrix_rtc::compat::element_call_state::{translate_state_memberships, StateMemberEvent};
use matrix_rtc::error::CommandError;
use matrix_rtc::event::{EventOrigin, RawStickyEvent, RawStickyEventContent};
use matrix_rtc::json::{Json, JsonNumber};
use matrix_rtc::reactions::{ANNOTATION_EVENT_TYPE, REACTION_EVENT_TYPE};
use matrix_rtc::session::CallMembershipEvent;
use matrix_rtc::transport::RtcTransport;
use serde_json::Value;

/// A JSON value as the library holds it.
fn to_json(value: &Value) -> Json {
    match value {
        Value::Null => Json::Null,
        Value::Bool(b) => Json::Bool(*b),
        Value::Number(n) => match n.as_u64() {
            Some(n) => Json::number(n),
            None => Json::Number(JsonNumber::Other(n.to_string())),
        },
        Value::String(text) => Json::text(text),
        Value::Array(items) => Json::array(items.iter().map(to_json).collect()),
        Value::Object(members) => {
            let mut json = Json::object();
            for (key, value) in members {
                json = json.with(key, to_json(value));
            }
            json
        }
    }
}

/// A JSON value as `serde_json` holds it.
fn to_value(json: &Json) -> Value {
    match json {
        Json::Null => Value::Null,
        Json::Bool(b) => Value::Bool(*b),
        Json::Number(JsonNumber::Unsigned(n)) => Value::from(*n),
        Json::Number(JsonNumber::Other(text)) => value(text),
        Json::Text(text) => Value::String(text.clone()),
        Json::Array(items) => Value::Array(items.iter().map(to_value).collect()),
        Json::Object(members) => Value::Object(
            members
                .iter()
                .map(|member| (member.key.clone(), to_value(&member.value)))
                .collect(),
        ),
    }
}

fn value(text: &str) -> Value {
    serde_json::from_str(text).expect("valid json")
}

fn raw_event(json: &str) -> Json {
    to_json(&value(json))
}

#[test]
fn a_reaction_event_is_read_into_the_core_dto() {
    let raw = raw_event(
        r#"{
            "type": "io.element.call.reaction",
            "event_id": "$reaction",
            "sender": "@bob:example.org",
            "origin_server_ts": 1234,
            "content": {
                "m.relates_to": { "rel_type": "m.reference", "event_id": "$member" },
                "emoji": "👏",
                "name": "clapping"
            }
        }"#,
    );
    let Some(TimelineIngest::Event(event)) =
        timeline_ingest_from_raw("!room:example.org", &raw, None)
    else {
        panic!("a reaction must be read as an event");
    };
    assert_eq!(event.room_id, "!room:example.org");
    assert_eq!(event.event_id, "$reaction");
    assert_eq!(event.sender, "@bob:example.org");
    assert_eq!(event.event_type, REACTION_EVENT_TYPE);
    assert_eq!(event.origin_server_ts, 1234);
    assert_eq!(event.origin, EventOrigin::Cleartext);
    assert_eq!(to_value(&event.content)["emoji"], "👏");
    assert_eq!(to_value(&event.content)["m.relates_to"]["event_id"], "$member");
}

#[test]
fn a_raised_hand_is_read_with_its_decryption_origin() {
    let raw = raw_event(
        r#"{
            "type": "m.reaction",
            "event_id": "$hand",
            "sender": "@bob:example.org",
            "origin_server_ts": 5,
            "content": {
                "m.relates_to": { "rel_type": "m.annotation", "event_id": "$member", "key": "🖐️" }
            }
        }"#,
    );
    let Some(TimelineIngest::Event(event)) =
        timeline_ingest_from_raw("!room:example.org", &raw, None)
    else {
        panic!("an annotation must be read as an event");
    };
    assert_eq!(event.event_type, ANNOTATION_EVENT_TYPE);
    assert_eq!(to_value(&event.content)["m.relates_to"]["key"], "🖐️");
}

#[test]
fn a_redaction_names_its_target_in_either_room_version_shape() {
    let pre_v11 = raw_event(
        r#"{
            "type": "m.room.redaction",
            "event_id": "$redaction",
            "sender": "@bob:example.org",
            "origin_server_ts": 6,
            "redacts": "$hand",
            "content": {}
        }"#,
    );
    assert!(matches!(
        timeline_ingest_from_raw("!room:example.org", &pre_v11, None),
        Some(TimelineIngest::Redacted { event_id }) if event_id == "$hand"
    ));

    let v11 = raw_event(
        r#"{
            "type": "m.room.redaction",
            "event_id": "$redaction",
            "sender": "@bob:example.org",
            "origin_server_ts": 6,
            "content": { "redacts": "$hand" }
        }"#,
    );
    assert!(matches!(
        timeline_ingest_from_raw("!room:example.org", &v11, None),
        Some(TimelineIngest::Redacted { event_id }) if event_id == "$hand"
    ));
}

#[test]
fn other_message_like_events_are_not_forwarded() {
    let message = raw_event(
        r#"{
            "type": "m.room.message",
            "event_id": "$msg",
            "sender": "@bob:example.org",
            "origin_server_ts": 7,
            "content": { "msgtype": "m.text", "body": "🖐️" }
        }"#,
    );
    assert!(timeline_ingest_from_raw("!room:example.org", &message, None).is_none());
}

/// A join as observed from Element Call on the JS SDK, pre-sticky.
const EC_STATE_JOIN: &str = r#"{
    "application": "m.call",
    "call_id": "",
    "scope": "m.room",
    "device_id": "V5cP8FErcB",
    "membershipID": "@alice:example.io:V5cP8FErcB",
    "expires": 14400000,
    "m.call.intent": "video",
    "focus_active": { "type": "livekit", "focus_selection": "multi_sfu" },
    "foci_preferred": [
        {
            "type": "livekit",
            "livekit_alias": "!room:example.io",
            "livekit_service_url": "https://mrtc.example.io/livekit/jwt"
        }
    ]
}"#;

/// The seam `compat::element_call_state` cannot test itself.
///
/// That module is `serde_json`-only on purpose, so nothing inside it can
/// assert that what it emits actually parses as a core type and projects to a
/// *joined* member. This is the assertion that the translation and the core's
/// `RawStickyEventContent` agree, and it is the one that would break first if
/// either side moved.
#[test]
fn a_translated_pre_sticky_membership_is_a_joined_core_membership() {
    let now = now_ms();
    let events = vec![StateMemberEvent {
        event_id: None,
        sender: "@alice:example.io".to_owned(),
        state_key: "_@alice:example.io_V5cP8FErcB_m.call".to_owned(),
        // No `created_ts` in the fixture — the first join of a session — so
        // the lifetime is measured from here.
        origin_server_ts: now,
        content: to_json(&value(EC_STATE_JOIN)),
    }];

    let mut translated = translate_state_memberships(&events, now);
    assert_eq!(translated.len(), 1, "a live join must survive translation");
    let membership = translated.pop().unwrap();

    let content = RawStickyEventContent::from_json(&membership.content)
        .expect("the translation must produce parseable MSC4143 content");
    let event = RawStickyEvent {
        room_id: "!room:example.io".to_owned(),
        event_id: membership.event_id,
        sender: membership.sender,
        origin: EventOrigin::claimed(&membership.claimed_device_id),
        event_type: "m.rtc.member".to_owned(),
        content,
    };

    let joined = match event
        .try_into_call_membership_event()
        .expect("converts to a membership event")
    {
        CallMembershipEvent::Joined(joined) => joined,
        CallMembershipEvent::Left(_) => panic!("a join must not project as a leave"),
    };

    assert_eq!(joined.slot_id, "m.call#ROOM");
    assert_eq!(joined.sender, "@alice:example.io");
    assert_eq!(joined.member_id, "@alice:example.io:V5cP8FErcB");
    // The core keys the roster by one and binds media keys by the other.
    assert_eq!(joined.sticky_key, joined.member_id);
    assert_eq!(joined.application.as_deref(), Some("m.call"));
    assert_eq!(joined.can_subscribe, vec!["livekit".to_owned()]);
    // The claimed device is what a media key gets addressed to; without it
    // nothing names the peer's device and its peer's media is unattributable.
    assert_eq!(joined.origin.sender_device_id(), Some("V5cP8FErcB"));
    // ...and it must not read as cleartext-in-an-encrypted-room, or
    // `join_condition` would drop it.
    assert_eq!(joined.origin.was_encrypted(), None);

    match joined.transports.as_slice() {
        [RtcTransport::LiveKit(livekit)] => assert_eq!(
            livekit.livekit_service_url,
            "https://mrtc.example.io/livekit/jwt"
        ),
        other => panic!("expected exactly one livekit transport, got {other:?}"),
    }
}

/// The leave, end to end: an empty content contributes no event at all, and
/// because the bridge replaces the whole membership every tick, contributing
/// nothing *is* leaving.
#[test]
fn a_pre_sticky_leave_contributes_no_membership() {
    let now = now_ms();
    let events = vec![StateMemberEvent {
        event_id: None,
        sender: "@alice:example.io".to_owned(),
        state_key: "_@alice:example.io_V5cP8FErcB_m.call".to_owned(),
        origin_server_ts: now,
        content: Json::object(),
    }];

    assert!(
        translate_state_memberships(&events, now).is_empty(),
        "an empty content is this dialect's leave"
    );
}

/// Two kinds of answer are final; any other failure is worth trying again.
#[test]
fn only_a_stated_refusal_of_delayed_events_is_final() {
    let words = || "403".to_string();
    for kind in [ApiErrorKind::Unrecognized, ApiErrorKind::Forbidden] {
        assert_eq!(
            delayed_command_error(Some(kind), words()),
            CommandError::DelayedEventsNotSupported(words())
        );
    }
    for kind in [Some(ApiErrorKind::Other), None] {
        assert_eq!(
            delayed_command_error(kind, words()),
            CommandError::SendError(words())
        );
    }
}

#[test]
fn a_sticky_send_is_refused_by_name() {
    assert_eq!(
        sticky_refusal("m.rtc.member"),
        CommandError::ClientRejected(
            "m.rtc.member: MSC4354 sticky events need matrix-rtc-bridge's `experimental-sticky` \
             feature; this build only speaks ElementCallCompat::StateEvents"
                .to_string()
        )
    );
}

#[test]
fn a_bridge_needs_a_carrier_and_lives_as_long_as_its_source() {
    assert!(!can_bridge(false, false));
    assert!(can_bridge(false, true));
    assert!(can_bridge(true, false));
    assert!(keep_bridging(Wake::Received));
    assert!(keep_bridging(Wake::Lagged));
    assert!(!keep_bridging(Wake::Closed));
}

/// Only member events of the sticky map count, and whether they were encrypted is
/// always known.
#[test]
fn the_sticky_map_is_read_whole() {
    let content = || {
        raw_event(
            r##"{ "slot_id": "m.call#ROOM", "msc4354_sticky_key": "a",
                 "member": { "id": "a", "membership": "join" },
                 "application": { "type": "m.call" } }"##,
        )
    };
    let entry = |event_type: &str, content: Option<Json>, decryption| StickyEntry {
        event_id: "$e".to_string(),
        sender: "@a:example.org".to_string(),
        event_type: event_type.to_string(),
        content,
        decryption,
    };
    let events = snapshot(
        "!room:example.org",
        vec![
            entry("m.rtc.member", Some(content()), None),
            entry("m.other", Some(content()), None),
            entry("m.rtc.member", None, None),
            entry(
                "org.matrix.msc4143.rtc.member",
                Some(content()),
                Some(DecryptionInfo {
                    sender_device: Some("DEV".to_string()),
                }),
            ),
        ],
    );
    assert_eq!(events.len(), 2);
    assert_eq!(events[0].origin, EventOrigin::Cleartext);
    assert_eq!(
        events[1].origin,
        EventOrigin::encrypted(Some("DEV".to_string()))
    );
}

#[test]
fn slots_are_read_from_room_state() {
    let slots = slot_snapshot(
        "!room:example.org",
        &vec![
            raw_event(
                r##"{ "type": "m.rtc.slot", "state_key": "m.call#ROOM",
                     "content": { "status": "open", "application": { "type": "m.call" } } }"##,
            ),
            raw_event(r##"{ "type": "m.room.name", "state_key": "", "content": {} }"##),
            raw_event(r##"{ "type": "org.matrix.msc4143.rtc.slot", "state_key": "m.call#B" }"##),
            raw_event(r##"{ "type": "m.rtc.slot", "content": {} }"##),
        ],
    );
    let names: Vec<&str> = slots.iter().map(|slot| slot.slot_id.as_str()).collect();
    assert_eq!(names, vec!["m.call#ROOM", "m.call#B"]);
    assert!(slots[0].content.status.is_some());
    assert!(slots[1].content.status.is_none());
}
