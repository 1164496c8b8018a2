//! Where our own events go in each dialect.

use matrix_rtc::compat::element_call::ElementCallDialect;
use matrix_rtc::compat::element_call_state::ElementCallStateDialect;
use matrix_rtc::compat::{MemberEventRoute, OutboundDialect};
use matrix_rtc::json::{Json, JsonNumber};
use serde_json::Value;

/// A JSON value as the library holds it.
fn to_json(value: &Value) -> Json {
    match value {
        Value::Null => Json::Null,
        Value::Bool(b) => Json::Bool(*b),
        Value::Number(n) => match n.as_u64() {
            Some(n) => Json::number(n),
            None => Json::Number(JsonNumber::Other(n.to_string())),
        },
        Value::String(text) => Json::text(text),
        Value::Array(items) => Json::array(items.iter().map(to_json).collect()),
        Value::Object(members) => {
            let mut json = Json::object();
            for (key, value) in members {
                json = json.with(key, to_json(value));
            }
            json
        }
    }
}

fn value(text: &str) -> Value {
    serde_json::from_str(text).expect("valid json")
}

fn notification() -> Json {
    to_json(&value(
        r#"{
            "application": { "type": "m.call", "notification_type": "ring" },
            "m.mentions": { "user_ids": [], "room": true }
        }"#,
    ))
}

fn state_dialect() -> OutboundDialect {
    OutboundDialect::State(ElementCallStateDialect::new(
        "@us:example.io",
        "DEVICE",
        "!room:example.io",
        "m.call#ROOM",
    ))
}

/// The pre-sticky wire has no sticky map, so a host in that mode must never
/// be asked for a sticky send — including for the notification.
#[test]
fn a_notification_is_a_plain_room_event_in_the_state_dialect() {
    let route =
        state_dialect().route_member_event(&mut None, "m.rtc.notification".into(), notification(), None);
    assert!(
        matches!(route, MemberEventRoute::Room { ref event_type, .. } if event_type == "m.rtc.notification"),
        "got {route:?}"
    );
}

/// Both generations with a sticky map keep the notification sticky, and the
/// non-member short-circuit leaves the content alone.
#[test]
fn a_notification_stays_sticky_in_the_other_dialects() {
    for dialect in [
        OutboundDialect::Current,
        OutboundDialect::Sticky(ElementCallDialect::new(
            "@us:example.io",
            "DEVICE",
            "m.call#ROOM",
        )),
    ] {
        let route =
            dialect.route_member_event(&mut None, "m.rtc.notification".into(), notification(), None);
        assert!(
            matches!(route, MemberEventRoute::Sticky { ref content, .. } if *content == notification()),
            "got {route:?}"
        );
    }
}
