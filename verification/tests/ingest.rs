//! Reading memberships and media keys of every generation.

use matrix_rtc::clock::now_ms;
use matrix_rtc::compat::ingest::{
    merge_current_membership, parse_legacy_key, to_core_member_event, to_core_state_memberships,
    LegacyStateMemberEventIn, RawMemberEventIn,
};
use matrix_rtc::compat::ElementCallCompat;
use matrix_rtc::json::{Json, JsonNumber};
use matrix_rtc::session::Membership;
use serde_json::Value;

/// A JSON value as the library holds it.
fn to_json(value: &Value) -> Json {
    match value {
        Value::Null => Json::Null,
        Value::Bool(b) => Json::Bool(*b),
        Value::Number(n) => match n.as_u64() {
            Some(n) => Json::number(n),
            None => Json::Number(JsonNumber::Other(n.to_string())),
        },
        Value::String(text) => Json::text(text),
        Value::Array(items) => Json::array(items.iter().map(to_json).collect()),
        Value::Object(members) => {
            let mut json = Json::object();
            for (key, value) in members {
                json = json.with(key, to_json(value));
            }
            json
        }
    }
}

fn value(text: &str) -> Value {
    serde_json::from_str(text).expect("valid json")
}

fn raw(content: Value) -> RawMemberEventIn {
    RawMemberEventIn {
        event_id: None,
        sender: "@alice:example.org".to_owned(),
        sender_device_id: Some("ALICEDEVICE".to_owned()),
        was_encrypted: Some(true),
        event_type: "org.matrix.msc4143.rtc.member".to_owned(),
        content: to_json(&content),
    }
}

#[test]
fn normalises_a_pre_2026_membership() {
    let event = raw(value(r#"{
        "slot_id": "m.call#ROOM",
        "msc4354_sticky_key": "MEMBER",
        "application": { "type": "m.call" },
        "member": { "id": "MEMBER", "user_id": "@alice:example.org", "device_id": "ALICEDEVICE" },
        "rtc_transports": [{ "type": "livekit", "livekit_service_url": "https://sfu" }]
    }"#));

    let converted = to_core_member_event("!room:example.org", event).expect("a membership");
    assert_eq!(converted.content.member.id.as_deref(), Some("MEMBER"));
    // Inferred: that generation has no `membership` field at all.
    assert_eq!(
        converted.content.member.membership,
        Some(Membership::Join),
    );
    // Lifted out of the flat `rtc_transports` array.
    let transports = converted.content.transports.expect("transports");
    assert_eq!(transports.published.len(), 1);
    assert_eq!(transports.can_subscribe, vec!["livekit".to_owned()]);
}

#[test]
fn drops_a_pre_2026_leave() {
    let event = raw(value(r#"{ "msc4354_sticky_key": "MEMBER" }"#));
    assert!(to_core_member_event("!room:example.org", event).is_none());
}

#[test]
fn prefers_the_decrypted_device_over_the_claimed_one() {
    let event = raw(value(r#"{
        "slot_id": "m.call#ROOM",
        "msc4354_sticky_key": "MEMBER",
        "application": { "type": "m.call" },
        "member": { "id": "MEMBER", "device_id": "CLAIMED" }
    }"#));

    let converted = to_core_member_event("!room:example.org", event).expect("a membership");
    assert_eq!(converted.origin.sender_device_id(), Some("ALICEDEVICE"));
    assert_eq!(converted.origin.was_encrypted(), Some(true));
}

#[test]
fn falls_back_to_the_claimed_device_when_nothing_decrypted() {
    let mut event = raw(value(r#"{
        "slot_id": "m.call#ROOM",
        "msc4354_sticky_key": "MEMBER",
        "application": { "type": "m.call" },
        "member": { "id": "MEMBER", "device_id": "CLAIMED" }
    }"#));
    event.was_encrypted = None;
    event.sender_device_id = None;

    let converted = to_core_member_event("!room:example.org", event).expect("a membership");
    assert_eq!(converted.origin.sender_device_id(), Some("CLAIMED"));
    // A claim says nothing about encryption, so it never satisfies the
    // encrypted-room rule.
    assert_eq!(converted.origin.was_encrypted(), None);
}

#[test]
fn translates_pre_sticky_room_state() {
    let now = now_ms();
    let events = vec![LegacyStateMemberEventIn {
        event_id: None,
        sender: "@alice:example.org".to_owned(),
        state_key: "_@alice:example.org_ALICEDEVICE_m.call".to_owned(),
        origin_server_ts: now,
        content: to_json(&value(&format!(
                r#"{{
            "application": "m.call",
            "call_id": "",
            "created_ts": {},
            "device_id": "ALICEDEVICE",
            "expires": 14400000,
            "membershipID": "@alice:example.org:ALICEDEVICE",
            "foci_preferred": [{{
                "type": "livekit",
                "livekit_service_url": "https://sfu",
                "livekit_alias": "!room:example.org"
            }}]
        }}"#,
                now - 5000,
            ))),
    }];

    let converted = to_core_state_memberships("!room:example.org", events);
    assert_eq!(converted.len(), 1);
    assert_eq!(converted[0].content.slot_id, "m.call#ROOM");
    assert_eq!(
        converted[0].content.member.id.as_deref(),
        Some("@alice:example.org:ALICEDEVICE"),
    );
    assert_eq!(converted[0].origin.sender_device_id(), Some("ALICEDEVICE"));
    // The member id is reused across this dialect's joins, so the join
    // timestamp must survive the translation — it is what key distribution
    // uses to tell a rejoined session from the join it already served.
    assert_eq!(converted[0].content.created_ts, Some(now - 5_000));
}

#[test]
fn drops_an_expired_pre_sticky_membership() {
    let events = vec![LegacyStateMemberEventIn {
        event_id: None,
        sender: "@alice:example.org".to_owned(),
        state_key: "_@alice:example.org_ALICEDEVICE_m.call".to_owned(),
        origin_server_ts: 1,
        content: to_json(&value(r#"{
            "application": "m.call",
            "device_id": "ALICEDEVICE",
            "expires": 1000
        }"#)),
    }];

    assert!(to_core_state_memberships("!room:example.org", events).is_empty());
}

/// The merge is replace-not-merge per source, sticky winning on a shared
/// key: the same human twice in the roster means two receive streams and
/// two key exchanges for one peer.
#[test]
fn a_sticky_membership_wins_over_the_state_one_with_the_same_key() {
    let now = now_ms();
    let sticky = raw(value(r#"{
        "slot_id": "m.call#ROOM",
        "msc4354_sticky_key": "@alice:example.org:ALICEDEVICE",
        "application": { "type": "m.call" },
        "member": { "id": "@alice:example.org:ALICEDEVICE" }
    }"#));
    let state = LegacyStateMemberEventIn {
        event_id: None,
        sender: "@alice:example.org".to_owned(),
        state_key: "_@alice:example.org_ALICEDEVICE_m.call".to_owned(),
        origin_server_ts: now,
        content: to_json(&value(r#"{
            "application": "m.call",
            "device_id": "ALICEDEVICE",
            "expires": 14400000,
            "membershipID": "@alice:example.org:ALICEDEVICE"
        }"#)),
    };

    let merged = merge_current_membership("!room:example.org", vec![sticky], vec![state]);
    assert_eq!(merged.len(), 1);
    assert_eq!(merged[0].origin.was_encrypted(), Some(true));
}

#[test]
fn binds_a_pre_sticky_key_by_user_and_device() {
    let content = value(r#"{
        "keys": { "index": 0, "key": "AAAA" },
        "member": { "id": "ef8adf45-0000-0000-0000-000000000000" },
        "device_id": "ALICEDEVICE",
        "room_id": "!room:example.org"
    }"#);

    let sticky = parse_legacy_key(
        ElementCallCompat::StickyEvents,
        "@alice:example.org",
        Some("ALICEDEVICE"),
        &to_json(&content),
    )
    .expect("a key");
    assert_eq!(sticky.member_id, "ef8adf45-0000-0000-0000-000000000000");

    let state = parse_legacy_key(
        ElementCallCompat::StateEvents,
        "@alice:example.org",
        Some("ALICEDEVICE"),
        &to_json(&content),
    )
    .expect("a key");
    assert_eq!(state.member_id, "@alice:example.org:ALICEDEVICE");
    assert_eq!(state.key_index, 0);
    assert_eq!(state.room_id, "!room:example.org");
}

#[test]
fn refuses_a_pre_sticky_key_with_no_device_to_bind_it_to() {
    let content = value(r#"{
        "keys": { "index": 0, "key": "AAAA" },
        "member": { "id": "ef8adf45" },
        "room_id": "!room:example.org"
    }"#);

    assert!(
        parse_legacy_key(
            ElementCallCompat::StateEvents,
            "@alice:example.org",
            None,
            &to_json(&content),
        )
        .is_none()
    );
}
