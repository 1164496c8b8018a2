//! Notifications.

use matrix_rtc::json::{Json, JsonNumber};
use matrix_rtc::notification::{
    build_notification_content, notification_sticky_duration_ms, Mentions, NotifyConfig,
    DEFAULT_RING_LIFETIME_MS, MAX_RING_LIFETIME_MS,
};
use serde_json::Value;

/// A JSON value as `serde_json` holds it.
fn to_value(json: &Json) -> Value {
    match json {
        Json::Null => Value::Null,
        Json::Bool(b) => Value::Bool(*b),
        Json::Number(JsonNumber::Unsigned(n)) => Value::from(*n),
        Json::Number(JsonNumber::Other(text)) => value(text),
        Json::Text(text) => Value::String(text.clone()),
        Json::Array(items) => Value::Array(items.iter().map(to_value).collect()),
        Json::Object(members) => Value::Object(
            members
                .iter()
                .map(|member| (member.key.clone(), to_value(&member.value)))
                .collect(),
        ),
    }
}

fn value(text: &str) -> Value {
    serde_json::from_str(text).expect("valid json")
}

fn content(config: &NotifyConfig) -> Value {
    to_value(&build_notification_content(
        config,
        "m.call",
        "@alice:example.org",
        "DEVICEID",
        "$member_event",
        1_752_583_130_365,
    ))
}

/// MSC4075 as written: everything under `application`, plus the three
/// required siblings.
#[test]
fn ring_carries_every_field_the_msc_requires() {
    let mut config = NotifyConfig::ring();
    config.intent = Some("video".to_owned());
    let content = content(&config);

    assert_eq!(
        content["application"],
        value(r#"{
            "type": "m.call",
            "notification_type": "ring",
            "sender_ts": 1752583130365,
            "lifetime": 30000,
            "device_id": "DEVICEID",
            "m.call.intent": "video"
        }"#)
    );
    assert_eq!(
        content["m.text"],
        value(r#"[{ "body": "Session started by @alice:example.org" }]"#)
    );
    assert_eq!(
        content["m.mentions"],
        value(r#"{ "user_ids": [], "room": true }"#)
    );
    assert_eq!(
        content["m.relates_to"],
        value(r#"{ "rel_type": "m.reference", "event_id": "$member_event" }"#)
    );
}

/// ruma's `RtcNotificationEventContent` — what matrix-rust-sdk hands a
/// mobile client — has no `application` object and takes these three as
/// required top-level fields. Nest them only and the event fails to
/// deserialize there, so nothing rings.
#[test]
fn ring_also_carries_the_fields_at_the_top_level() {
    let mut config = NotifyConfig::ring();
    config.intent = Some("video".to_owned());
    let content = content(&config);

    assert_eq!(content["notification_type"], "ring");
    assert_eq!(content["sender_ts"], 1_752_583_130_365u64);
    assert_eq!(content["lifetime"], DEFAULT_RING_LIFETIME_MS);
    assert_eq!(content["m.call.intent"], "video");
    // Only meaningful for ring acknowledgements, and the top level is where
    // Element Call's key messages mean something else by it.
    assert!(content.get("device_id").is_none());
}

#[test]
fn intent_is_omitted_from_both_shapes_when_unset() {
    let content = content(&NotifyConfig::notification());

    assert_eq!(content["application"]["notification_type"], "notification");
    assert_eq!(content["notification_type"], "notification");
    assert!(content["application"].get("m.call.intent").is_none());
    assert!(content.get("m.call.intent").is_none());
}

#[test]
fn explicit_mentions_are_used() {
    let mut config = NotifyConfig::ring();
    config.mentions = Mentions {
        user_ids: vec!["@bob:example.org".to_owned()],
        room: false,
    };

    assert_eq!(
        content(&config)["m.mentions"],
        value(r#"{ "user_ids": ["@bob:example.org"], "room": false }"#)
    );
}

/// Sending a lifetime past the cap only makes the two ends disagree about
/// when the ring stops, since receivers cap it anyway.
#[test]
fn lifetime_is_clamped_to_what_receivers_honour() {
    let mut config = NotifyConfig::ring();
    config.lifetime_ms = Some(MAX_RING_LIFETIME_MS + 1);

    assert_eq!(config.lifetime_ms(), MAX_RING_LIFETIME_MS);
    let content = content(&config);
    assert_eq!(content["application"]["lifetime"], MAX_RING_LIFETIME_MS);
    assert_eq!(content["lifetime"], MAX_RING_LIFETIME_MS);
}

#[test]
fn sticky_duration_leaves_room_for_acknowledgements() {
    assert_eq!(
        notification_sticky_duration_ms(DEFAULT_RING_LIFETIME_MS),
        2 * DEFAULT_RING_LIFETIME_MS
    );
}
