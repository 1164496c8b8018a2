//! Member events: reading, building and converting them.

use matrix_rtc::event::{EventOrigin, RawStickyEvent, RawStickyEventContent};
use matrix_rtc::json::{Json, JsonNumber};
use matrix_rtc::session::{CallMembershipEvent, LeaveCode, Membership};
use matrix_rtc::transport::{MemberTransports, RawRtcTransport, RtcTransport};
use serde_json::Value;

/// A JSON value as the library holds it.
fn to_json(value: &Value) -> Json {
    match value {
        Value::Null => Json::Null,
        Value::Bool(b) => Json::Bool(*b),
        Value::Number(n) => match n.as_u64() {
            Some(n) => Json::number(n),
            None => Json::Number(JsonNumber::Other(n.to_string())),
        },
        Value::String(text) => Json::text(text),
        Value::Array(items) => Json::array(items.iter().map(to_json).collect()),
        Value::Object(members) => {
            let mut json = Json::object();
            for (key, value) in members {
                json = json.with(key, to_json(value));
            }
            json
        }
    }
}

/// A JSON value as `serde_json` holds it.
fn to_value(json: &Json) -> Value {
    match json {
        Json::Null => Value::Null,
        Json::Bool(b) => Value::Bool(*b),
        Json::Number(JsonNumber::Unsigned(n)) => Value::from(*n),
        Json::Number(JsonNumber::Other(text)) => value(text),
        Json::Text(text) => Value::String(text.clone()),
        Json::Array(items) => Value::Array(items.iter().map(to_value).collect()),
        Json::Object(members) => Value::Object(
            members
                .iter()
                .map(|member| (member.key.clone(), to_value(&member.value)))
                .collect(),
        ),
    }
}

fn value(text: &str) -> Value {
    serde_json::from_str(text).expect("valid json")
}

/// A spec-shaped join event as another client would send it on the wire.
const JOIN_JSON: &str = r#"{
    "slot_id": "m.call#ROOM",
    "member": { "id": "xyzABCDEF0123", "membership": "join" },
    "application": { "type": "m.call", "m.call.voice_only": true },
    "transports": {
        "published": [
            { "type": "livekit", "livekit_service_url": "https://sfu.example.com/jwt" }
        ],
        "can_subscribe": ["livekit"]
    },
    "msc4354_sticky_key": "xyzABCDEF0123"
}"#;

fn event(content: RawStickyEventContent) -> RawStickyEvent {
    RawStickyEvent {
        room_id: "!room:example.org".to_owned(),
        event_id: Some("$member".to_owned()),
        sender: "@alice:example.org".to_owned(),
        origin: EventOrigin::encrypted(Some("DEVICEID".to_owned())),
        event_type: "m.rtc.member".to_owned(),
        content,
    }
}

fn read(json: &str) -> Option<RawStickyEventContent> {
    RawStickyEventContent::from_json(&to_json(&value(json)))
}

fn parse(json: &str) -> CallMembershipEvent {
    event(read(json).expect("content must parse"))
        .try_into_call_membership_event()
        .expect("conversion must succeed")
}

/// The two facts MSC4143 needs from decryption — was it encrypted, and by
/// which device — travel together, so a cleartext event cannot claim a
/// sending device.
#[test]
fn origin_reports_encryption_and_device_together() {
    let attributed = EventOrigin::encrypted(Some("DEVICEID".to_owned()));
    assert_eq!(attributed.was_encrypted(), Some(true));
    assert_eq!(attributed.sender_device_id(), Some("DEVICEID"));

    // Encrypted but unattributable: the SDK could not name the device.
    let unattributed = EventOrigin::encrypted(None);
    assert_eq!(unattributed.was_encrypted(), Some(true));
    assert_eq!(unattributed.sender_device_id(), None);

    assert_eq!(EventOrigin::Cleartext.was_encrypted(), Some(false));
    assert_eq!(EventOrigin::Cleartext.sender_device_id(), None);

    // Unreported is distinct from cleartext: the rules that depend on it
    // are skipped rather than failed.
    assert_eq!(EventOrigin::Unknown.was_encrypted(), None);
    assert_eq!(EventOrigin::default(), EventOrigin::Unknown);
}

/// A claimed device is usable as a device but must never pass for
/// encryption — otherwise the legacy path would let an unencrypted member
/// event through the encrypted-room rule.
#[test]
fn a_claimed_device_is_named_but_not_authenticated() {
    let claimed = EventOrigin::claimed("V5cP8FErcB");

    assert_eq!(claimed.sender_device_id(), Some("V5cP8FErcB"));
    assert_eq!(claimed.was_encrypted(), None);
}

#[test]
fn spec_shaped_join_event_parses() {
    match parse(JOIN_JSON) {
        CallMembershipEvent::Joined(joined) => {
            assert_eq!(joined.member_id, "xyzABCDEF0123");
            assert_eq!(joined.sticky_key, "xyzABCDEF0123");
            assert_eq!(joined.application.as_deref(), Some("m.call"));
            assert_eq!(joined.can_subscribe, vec!["livekit".to_owned()]);
            assert_eq!(joined.origin.sender_device_id(), Some("DEVICEID"));
            match &joined.transports[..] {
                [RtcTransport::LiveKit(livekit)] => {
                    assert_eq!(livekit.livekit_service_url, "https://sfu.example.com/jwt");
                }
                other => panic!("expected one livekit transport, got {other:?}"),
            }
        }
        CallMembershipEvent::Left(_) => panic!("expected a joined membership"),
    }
}

/// `member.membership` is authoritative: fully join-shaped content (a
/// `member.id`, an application, transports) is still a leave if it says so.
#[test]
fn membership_leave_wins_over_join_shaped_content() {
    let json = JOIN_JSON.replace(r#""membership": "join""#, r#""membership": "leave""#);
    match parse(&json) {
        CallMembershipEvent::Left(left) => {
            assert_eq!(left.member_id.as_deref(), Some("xyzABCDEF0123"));
        }
        CallMembershipEvent::Joined(_) => panic!("membership=leave must not count as joined"),
    }
}

/// A membership value from a future spec revision must not fail the parse;
/// it simply doesn't count as joined.
#[test]
fn unknown_membership_parses_and_counts_as_left() {
    let json = JOIN_JSON.replace(r#""membership": "join""#, r#""membership": "lurking""#);
    let content = read(&json).expect("unknown membership must still parse");
    assert_eq!(
        content.member.membership,
        Some(Membership::Unknown("lurking".to_owned()))
    );
    assert!(matches!(
        event(content).try_into_call_membership_event().unwrap(),
        CallMembershipEvent::Left(_)
    ));
}

/// MSC4143 makes `application` REQUIRED on a joining member event.
#[test]
fn join_without_application_is_left() {
    let json = JOIN_JSON.replace(
        r#""application": { "type": "m.call", "m.call.voice_only": true },"#,
        "",
    );
    assert!(matches!(parse(&json), CallMembershipEvent::Left(_)));
}

#[test]
fn leave_reason_parses_generic_and_custom_codes() {
    let leave = |code: &str| {
        let json = format!(
            r#"{{ "slot_id": "m.call#ROOM",
                  "member": {{ "id": "abc", "membership": "leave" }},
                  "leave_reason": {{ "code": "{code}", "reason": "bye" }},
                  "msc4354_sticky_key": "abc" }}"#
        );
        match parse(&json) {
            CallMembershipEvent::Left(left) => left.leave_reason.expect("leave_reason"),
            CallMembershipEvent::Joined(_) => panic!("expected left"),
        }
    };

    assert_eq!(leave("slot_closed").code, LeaveCode::SlotClosed);
    assert_eq!(leave("delayed_leave").code, LeaveCode::DelayedLeave);
    assert_eq!(leave("leave").reason.as_deref(), Some("bye"));
    // Transport- and application-defined codes survive as-is.
    assert_eq!(
        leave("ice_failed").code,
        LeaveCode::Other("ice_failed".to_owned())
    );
}

/// A sticky removal is a leave whatever the content says, since the entry is
/// no longer live.
#[test]
fn removal_of_join_content_is_left() {
    let content = read(JOIN_JSON).unwrap();
    assert!(matches!(
        event(content).try_into_left_membership_event().unwrap(),
        CallMembershipEvent::Left(_)
    ));
}

/// What we send must be what we can read back.
#[test]
fn built_join_content_round_trips() {
    let built = RawStickyEventContent::for_join(
        "m.call#ROOM".to_owned(),
        "xyzABCDEF0123".to_owned(),
        "m.call".to_owned(),
        MemberTransports::publishing(RawRtcTransport {
            transport_type: "livekit".to_owned(),
            extra_fields: Default::default(),
        }),
    );

    let json = to_value(&built.to_json());
    assert_eq!(json.pointer("/member/membership").unwrap(), "join");
    assert_eq!(
        json.pointer("/msc4354_sticky_key").unwrap(),
        "xyzABCDEF0123"
    );

    let parsed = RawStickyEventContent::from_json(&to_json(&json)).unwrap();
    assert!(parsed.member.is_join());
    assert_eq!(
        parsed.transports.unwrap().can_subscribe,
        vec!["livekit".to_owned()]
    );
}

/// A content may also list its members in order, leaving out the last ones.
#[test]
fn a_content_written_as_an_array_is_read_in_order() {
    let content = read(
        r#"["m.call#ROOM", "key", { "id": "key", "membership": "join" },
            { "type": "m.call" }, null, null, 12]"#,
    )
    .expect("it has every required member");
    assert_eq!(content.slot_id, "m.call#ROOM");
    assert_eq!(content.sticky_key, "key");
    assert_eq!(content.member.id.as_deref(), Some("key"));
    assert_eq!(content.application.application_type.as_deref(), Some("m.call"));
    assert!(content.transports.is_none());
    assert_eq!(content.created_ts, Some(12));

    let short = read(r#"["m.call#ROOM", "key"]"#).expect("the rest is optional");
    assert!(short.member.is_empty());
    assert!(short.created_ts.is_none());
}

#[test]
fn an_array_that_is_too_short_or_too_long_is_no_content() {
    assert!(read(r#"["m.call#ROOM"]"#).is_none());
    assert!(read(r#"["m.call#ROOM", 7]"#).is_none());
    assert!(read(
        r#"["m.call#ROOM", "key", {}, {}, null, null, null, null]"#
    )
    .is_none());
}
