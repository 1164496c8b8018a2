//! Memberships as room state: reading them and rendering our own.

use matrix_rtc::clock::now_ms;
use matrix_rtc::compat::element_call::legacy_session;
use matrix_rtc::compat::element_call_state::{
    participant_identity, translate_state_memberships, ElementCallStateDialect, StateMemberEvent,
    DEFAULT_CALL_INTENT, DEFAULT_EXPIRES_MS,
};
use matrix_rtc::json::{Json, JsonNumber};
use serde_json::Value;

/// A JSON value as the library holds it.
fn to_json(value: &Value) -> Json {
    match value {
        Value::Null => Json::Null,
        Value::Bool(b) => Json::Bool(*b),
        Value::Number(n) => match n.as_u64() {
            Some(n) => Json::number(n),
            None => Json::Number(JsonNumber::Other(n.to_string())),
        },
        Value::String(text) => Json::text(text),
        Value::Array(items) => Json::array(items.iter().map(to_json).collect()),
        Value::Object(members) => {
            let mut json = Json::object();
            for (key, value) in members {
                json = json.with(key, to_json(value));
            }
            json
        }
    }
}

/// A JSON value as `serde_json` holds it.
fn to_value(json: &Json) -> Value {
    match json {
        Json::Null => Value::Null,
        Json::Bool(b) => Value::Bool(*b),
        Json::Number(JsonNumber::Unsigned(n)) => Value::from(*n),
        Json::Number(JsonNumber::Other(text)) => value(text),
        Json::Text(text) => Value::String(text.clone()),
        Json::Array(items) => Value::Array(items.iter().map(to_value).collect()),
        Json::Object(members) => Value::Object(
            members
                .iter()
                .map(|member| (member.key.clone(), to_value(&member.value)))
                .collect(),
        ),
    }
}

fn value(text: &str) -> Value {
    serde_json::from_str(text).expect("valid json")
}

/// A translated membership, with its content as `serde_json` holds it.
struct Translated {
    sender: String,
    claimed_device_id: String,
    content: Value,
}

fn translated(events: Vec<StateMemberEvent>, now: u64) -> Vec<Translated> {
    translate_state_memberships(&events, now)
        .into_iter()
        .map(|membership| Translated {
            sender: membership.sender,
            claimed_device_id: membership.claimed_device_id,
            content: to_value(&membership.content),
        })
        .collect()
}

/// What a dialect makes of a member content of a membership that has not begun.
fn render(dialect: &ElementCallStateDialect, spec: &Value, lifetime: Option<u64>) -> Value {
    render_again(dialect, &mut None, spec, lifetime)
}

/// What a dialect makes of a member content of a membership that may have begun.
fn render_again(
    dialect: &ElementCallStateDialect,
    began: &mut Option<u64>,
    spec: &Value,
    lifetime: Option<u64>,
) -> Value {
    to_value(&dialect.member_content(began, &to_json(spec), lifetime))
}

/// A join as observed from Element Call on the JS SDK, pre-sticky.
const EC_JOIN: &str = r#"{
    "application": "m.call",
    "call_id": "",
    "scope": "m.room",
    "device_id": "V5cP8FErcB",
    "membershipID": "@alice:example.io:V5cP8FErcB",
    "expires": 14400000,
    "created_ts": 1749000000000,
    "m.call.intent": "video",
    "focus_active": { "type": "livekit", "focus_selection": "multi_sfu" },
    "foci_preferred": [
        {
            "type": "livekit",
            "livekit_alias": "!room:example.io",
            "livekit_service_url": "https://mrtc.example.io/livekit/jwt"
        }
    ]
}"#;

/// The leave: the content becomes an empty object.
const EC_LEAVE: &str = "{}";

/// Two generations back: one state event per user, holding an array.
const EC_ARRAY_CONTENT: &str = r#"{ "memberships": [ { "application": "m.call" } ] }"#;

/// Ten minutes after `EC_JOIN`'s `created_ts`, so it is comfortably live.
const NOW: u64 = 1_749_000_600_000;
const CREATED: u64 = 1_749_000_000_000;

fn content(json: &str) -> Value {
    value(json)
}

/// A `StateMemberEvent` with `origin_server_ts` equal to the fixture's
/// `created_ts`, which is the ordinary case.
fn event(json: &str) -> StateMemberEvent {
    event_at(json, CREATED)
}

fn event_at(json: &str, origin_server_ts: u64) -> StateMemberEvent {
    StateMemberEvent {
        event_id: None,
        sender: "@alice:example.io".to_owned(),
        state_key: "_@alice:example.io_V5cP8FErcB_m.call".to_owned(),
        origin_server_ts,
        content: to_json(&content(json)),
    }
}

/// Translate a single event, at `NOW`.
fn one(json: &str) -> Option<Translated> {
    translated(vec![event(json)], NOW).pop()
}

/// `EC_JOIN` with `patch` applied to the top level; a `Value::Null` removes.
fn join_with(patch: &[(&str, Value)]) -> Value {
    let mut value = content(EC_JOIN);
    let object = value.as_object_mut().unwrap();
    for (key, replacement) in patch {
        if replacement.is_null() {
            object.remove(*key);
        } else {
            object.insert((*key).to_owned(), replacement.clone());
        }
    }
    value
}

fn translate_values(contents: &[(&str, u64, Value)], now: u64) -> Vec<Translated> {
    let events: Vec<StateMemberEvent> = contents
        .iter()
        .map(|(state_key, origin_server_ts, content)| StateMemberEvent {
            event_id: None,
            sender: "@alice:example.io".to_owned(),
            state_key: (*state_key).to_owned(),
            origin_server_ts: *origin_server_ts,
            content: to_json(content),
        })
        .collect();
    translated(events, now)
}

#[test]
fn a_join_becomes_msc4143_member_content() {
    let membership = one(EC_JOIN).expect("a live join");

    assert_eq!(membership.sender, "@alice:example.io");
    assert_eq!(membership.claimed_device_id, "V5cP8FErcB");
    assert_eq!(
        membership.content,
        value(r#"{
            "slot_id": "m.call#ROOM",
            "msc4354_sticky_key": "@alice:example.io:V5cP8FErcB",
            "member": { "id": "@alice:example.io:V5cP8FErcB", "membership": "join" },
            "application": { "type": "m.call", "m.call.intent": "video" },
            "created_ts": 1749000000000,
            "transports": {
                "published": [{
                    "type": "livekit",
                    "livekit_alias": "!room:example.io",
                    "livekit_service_url": "https://mrtc.example.io/livekit/jwt"
                }],
                "can_subscribe": ["livekit"]
            }
        }"#)
    );
}

/// The focus is passed through untouched: `livekit_alias` is not ours to
/// interpret, and the core drops it at `into_typed`, not here.
#[test]
fn the_focus_object_is_passed_through_verbatim() {
    let membership = one(EC_JOIN).unwrap();

    assert_eq!(
        membership
            .content
            .pointer("/transports/published/0/livekit_alias")
            .unwrap(),
        "!room:example.io"
    );
}

#[test]
fn the_empty_call_id_becomes_the_room_sentinel() {
    let room_wide = one(EC_JOIN).unwrap();
    assert_eq!(room_wide.content["slot_id"], "m.call#ROOM");

    let named = translate_values(
        &[("a", CREATED, join_with(&[("call_id", value(r#""standup""#))]))],
        NOW,
    )
    .pop()
    .unwrap();
    assert_eq!(named.content["slot_id"], "m.call#standup");

    // And the sentinel round-trips through the convention the outbound half
    // uses, so a peer lands in the session we are actually in.
    assert_eq!(legacy_session("m.call#ROOM"), ("m.call", ""));
    assert_eq!(legacy_session("m.call#standup"), ("m.call", "standup"));
}

#[test]
fn an_empty_content_is_dropped_as_a_leave() {
    assert!(one(EC_LEAVE).is_none());
}

#[test]
fn a_memberships_array_is_dropped() {
    assert!(one(EC_ARRAY_CONTENT).is_none());
}

#[test]
fn a_membership_with_no_device_id_is_dropped() {
    assert!(
        translate_values(
            &[("a", CREATED, join_with(&[("device_id", Value::Null)]))],
            NOW
        )
        .is_empty()
    );
    assert!(
        translate_values(
            &[("a", CREATED, join_with(&[("device_id", value(r#""""#))]))],
            NOW
        )
        .is_empty()
    );
}

#[test]
fn a_membership_with_no_application_is_dropped() {
    assert!(
        translate_values(
            &[("a", CREATED, join_with(&[("application", Value::Null)]))],
            NOW
        )
        .is_empty()
    );
    // An object rather than a string is the *modern* shape, and is not this
    // dialect; refusing it keeps the two generations from crossing.
    assert!(
        translate_values(
            &[(
                "a",
                CREATED,
                join_with(&[("application", value(r#"{ "type": "m.call" }"#))])
            )],
            NOW
        )
        .is_empty()
    );
}

#[test]
fn the_expiry_boundary_is_exclusive_of_the_deadline() {
    let deadline = CREATED + 14_400_000;

    assert!(translate_values(&[("a", CREATED, content(EC_JOIN))], deadline - 1).len() == 1);
    assert!(translate_values(&[("a", CREATED, content(EC_JOIN))], deadline).is_empty());
}

/// The first join of a session states no `created_ts` — the client cannot
/// know it yet — so the deadline is measured from the event itself.
#[test]
fn a_first_join_expires_from_origin_server_ts() {
    let first_join = join_with(&[("created_ts", Value::Null)]);

    // Stamped long ago: expired.
    assert!(translate_values(&[("a", 1_000, first_join.clone())], NOW).is_empty());
    // Stamped just now: live.
    assert_eq!(
        translate_values(&[("a", NOW - 1_000, first_join)], NOW).len(),
        1
    );
}

#[test]
fn a_membership_with_no_expires_gets_four_hours() {
    let no_expires = join_with(&[("expires", Value::Null)]);

    assert_eq!(
        translate_values(
            &[("a", CREATED, no_expires.clone())],
            CREATED + DEFAULT_EXPIRES_MS - 1
        )
        .len(),
        1
    );
    assert!(
        translate_values(&[("a", CREATED, no_expires)], CREATED + DEFAULT_EXPIRES_MS)
            .is_empty()
    );
}

/// A peer with a fast clock must not get to outlive its own event.
#[test]
fn a_created_ts_after_the_event_is_clamped_to_the_event() {
    let skewed = join_with(&[("created_ts", Value::from(NOW + 60_000))]);

    // origin_server_ts is old, so despite the future `created_ts` this is
    // judged from the server's stamp and has expired.
    assert!(translate_values(&[("a", 1_000, skewed)], NOW).is_empty());
}

#[test]
fn the_membership_id_falls_back_to_user_and_device() {
    let membership = translate_values(
        &[("a", CREATED, join_with(&[("membershipID", Value::Null)]))],
        NOW,
    )
    .pop()
    .unwrap();

    assert_eq!(
        membership.content["member"]["id"],
        "@alice:example.io:V5cP8FErcB"
    );
    // The two must never diverge: the core keys the roster by one and binds
    // media keys by the other.
    assert_eq!(
        membership.content["member"]["id"],
        membership.content["msc4354_sticky_key"]
    );
}

/// Ten and five minutes before `NOW`; both comfortably inside the four-hour
/// default lifetime, so these tests exercise focus resolution and not expiry.
const JOINED_EARLIER: u64 = NOW - 600_000;
const JOINED_LATER: u64 = NOW - 300_000;

fn focus(url: &str) -> Value {
    value(&format!(
        r#"{{ "type": "livekit", "livekit_service_url": "{url}" }}"#
    ))
}

/// One member, with `created_ts` and `origin_server_ts` agreeing.
///
/// Keeping them equal matters: `joined_at` is the *minimum* of the two, so a
/// fixture that moves one and not the other silently backdates the
/// membership into expiry and every focus assertion below it becomes
/// vacuous.
fn focus_member(
    state_key: &'static str,
    joined_at: u64,
    selection: &str,
    url: &str,
) -> (&'static str, u64, Value) {
    let content = join_with(&[
        ("created_ts", Value::from(joined_at)),
        (
            "focus_active",
            value(&format!(
                r#"{{ "type": "livekit", "focus_selection": "{selection}" }}"#
            )),
        ),
        ("foci_preferred", Value::Array(vec![focus(url)])),
    ]);
    (state_key, joined_at, content)
}

fn published_url(membership: &Translated) -> Option<&str> {
    membership
        .content
        .pointer("/transports/published/0/livekit_service_url")
        .and_then(Value::as_str)
}

/// Fed newest-first, so a naive "first in the list wins" would pass the
/// wrong focus and this test would catch it.
#[test]
fn oldest_membership_uses_the_oldest_members_focus() {
    let members = translate_values(
        &[
            focus_member("b", JOINED_LATER, "oldest_membership", "https://new"),
            focus_member("a", JOINED_EARLIER, "oldest_membership", "https://old"),
        ],
        NOW,
    );

    assert_eq!(members.len(), 2);
    for member in &members {
        assert_eq!(published_url(member), Some("https://old"));
    }
}

#[test]
fn oldest_membership_is_resolved_per_slot() {
    let room_wide = focus_member("a", JOINED_LATER, "oldest_membership", "https://room");
    let (key, ts, mut standup) =
        focus_member("b", JOINED_EARLIER, "oldest_membership", "https://standup");
    standup["call_id"] = value(r#""standup""#);

    let members = translate_values(&[room_wide, (key, ts, standup)], NOW);

    // The older `standup` membership must not lend its focus to the
    // room-wide session it is not part of.
    assert_eq!(published_url(&members[0]), Some("https://room"));
    assert_eq!(published_url(&members[1]), Some("https://standup"));
}

#[test]
fn multi_sfu_keeps_each_members_own_focus() {
    let members = translate_values(
        &[
            focus_member("a", JOINED_EARLIER, "multi_sfu", "https://one"),
            focus_member("b", JOINED_LATER, "multi_sfu", "https://two"),
        ],
        NOW,
    );

    assert_eq!(published_url(&members[0]), Some("https://one"));
    assert_eq!(published_url(&members[1]), Some("https://two"));
}

/// A member we never try to reach is worse than one we reach on the wrong
/// SFU, so an empty `foci_preferred` borrows rather than publishing nowhere.
#[test]
fn a_member_with_no_focus_of_its_own_borrows_one() {
    let (key, ts, mut without) = focus_member("b", JOINED_LATER, "multi_sfu", "https://unused");
    without["foci_preferred"] = value(r#"[]"#);

    let members = translate_values(
        &[
            focus_member("a", JOINED_EARLIER, "multi_sfu", "https://one"),
            (key, ts, without),
        ],
        NOW,
    );

    assert_eq!(published_url(&members[1]), Some("https://one"));
}

#[test]
fn a_membership_with_no_focus_anywhere_still_appears() {
    let mut without = content(EC_JOIN);
    without["foci_preferred"] = value(r#"[]"#);

    let membership = translate_values(&[("a", CREATED, without)], NOW)
        .pop()
        .expect("the member is still in the call, it just publishes nowhere");
    assert!(membership.content.get("transports").is_none());
}

/// The subtlest bug this file can have: a long-dead membership pinning every
/// live member to an SFU nobody is on any more.
#[test]
fn an_expired_member_does_not_get_to_be_the_oldest() {
    let (key, ts, mut ancient) = focus_member("a", 1_000, "oldest_membership", "https://dead");
    ancient["expires"] = Value::from(1_000);
    let live = focus_member("b", JOINED_LATER, "oldest_membership", "https://alive");

    let members = translate_values(&[(key, ts, ancient), live], NOW);

    assert_eq!(members.len(), 1);
    assert_eq!(published_url(&members[0]), Some("https://alive"));
}

/// Two clients reading the same room must reach the same answer, whatever
/// order the state arrived in — hence the `state_key` tie-break on an
/// identical `joined_at`.
#[test]
fn the_translation_is_deterministic_under_reordering() {
    let a = focus_member("a", JOINED_EARLIER, "oldest_membership", "https://a");
    let b = focus_member("b", JOINED_EARLIER, "oldest_membership", "https://b");

    let forwards = translate_values(&[a.clone(), b.clone()], NOW);
    let backwards = translate_values(&[b, a], NOW);

    assert_eq!(published_url(&forwards[0]), published_url(&backwards[1]));
    assert_eq!(published_url(&forwards[0]), Some("https://a"));
}

/// Reordering only reorders: every membership is there as often as before, on the
/// focus of the oldest member.
#[test]
fn reordering_the_state_only_reorders_the_memberships() {
    let a = focus_member("a", JOINED_LATER, "oldest_membership", "https://a");
    let b = focus_member("b", JOINED_EARLIER, "oldest_membership", "https://b");
    let c = focus_member("c", JOINED_LATER, "multi_sfu", "https://c");

    let forwards = translate_values(&[a.clone(), b.clone(), c.clone()], NOW);
    let shuffled = translate_values(&[c, a, b], NOW);

    assert_eq!(
        forwards.iter().map(published_url).collect::<Vec<_>>(),
        vec![Some("https://b"), Some("https://b"), Some("https://c")],
    );
    assert_eq!(
        shuffled.iter().map(published_url).collect::<Vec<_>>(),
        vec![Some("https://c"), Some("https://b"), Some("https://b")],
    );
}

// -- the outbound half -------------------------------------------------

/// The content the core hands us for a join, as `RawStickyEventContent`
/// serializes it.
const SPEC_JOIN: &str = r#"{
    "slot_id": "m.call#ROOM",
    "msc4354_sticky_key": "xyzABCDEF0123",
    "member": { "id": "xyzABCDEF0123", "membership": "join" },
    "application": { "type": "m.call", "m.call.intent": "video" },
    "transports": {
        "published": [{ "type": "livekit", "livekit_service_url": "https://sfu.example.com" }],
        "can_subscribe": ["livekit"]
    }
}"#;

/// The core's leave, and the delayed leave it arms at join time.
const SPEC_LEAVE: &str = r#"{
    "slot_id": "m.call#ROOM",
    "msc4354_sticky_key": "xyzABCDEF0123",
    "member": { "id": "xyzABCDEF0123", "membership": "leave" },
    "leave_reason": { "code": "m.delayed_leave", "reason": "Dead man's switch" }
}"#;

fn dialect() -> ElementCallStateDialect {
    ElementCallStateDialect::new(
        "@alice:example.io",
        "V5cP8FErcB",
        "!room:example.io",
        "m.call#ROOM",
    )
}

#[test]
fn the_state_key_is_the_underscore_prefixed_per_device_form() {
    assert_eq!(
        dialect().state_key(),
        "_@alice:example.io_V5cP8FErcB_m.call"
    );

    let named = ElementCallStateDialect::new(
        "@alice:example.io",
        "V5cP8FErcB",
        "!room:example.io",
        "m.call#standup",
    );
    assert_eq!(
        named.state_key(),
        "_@alice:example.io_V5cP8FErcB_m.callstandup"
    );
}

#[test]
fn the_membership_id_is_the_participant_identity() {
    assert_eq!(dialect().membership_id(), "@alice:example.io:V5cP8FErcB");
    assert_eq!(
        dialect().membership_id(),
        participant_identity("@alice:example.io", "V5cP8FErcB")
    );
}

#[test]
fn a_spec_join_becomes_pre_sticky_state_content() {
    let dialect = dialect();
    let legacy = render(&dialect, &content(SPEC_JOIN), None);

    assert_eq!(legacy["application"], "m.call");
    assert_eq!(legacy["call_id"], "");
    assert_eq!(legacy["scope"], "m.room");
    assert_eq!(legacy["device_id"], "V5cP8FErcB");
    assert_eq!(legacy["membershipID"], "@alice:example.io:V5cP8FErcB");
    assert_eq!(legacy["expires"], DEFAULT_EXPIRES_MS);
    assert_eq!(legacy["m.call.intent"], "video");
    assert_eq!(legacy["focus_active"]["focus_selection"], "multi_sfu");
    assert_eq!(
        legacy["foci_preferred"][0]["livekit_service_url"],
        "https://sfu.example.com"
    );
    // The alias this generation expects, and the value `/sfu/get` must be
    // given as `room`.
    assert_eq!(
        legacy["foci_preferred"][0]["livekit_alias"],
        "!room:example.io"
    );
    assert!(legacy["created_ts"].is_u64());
    // No spec field survives: this event serves one dialect only.
    assert!(legacy.get("slot_id").is_none());
    assert!(legacy.get("member").is_none());
    assert!(legacy.get("transports").is_none());
}

#[test]
fn a_spec_leave_becomes_the_empty_object() {
    assert_eq!(
        render(&dialect(), &content(SPEC_LEAVE), None),
        value(r#"{}"#)
    );
}

/// An already-legacy content (no `slot_id`) must not be dressed up again
/// into something that looks like a fresh membership.
#[test]
fn content_without_a_slot_id_becomes_the_empty_object() {
    assert_eq!(render(&dialect(), &value(r#"{}"#), None), value(r#"{}"#));
}

/// The regression test for the `created_ts` pinning. Peers read
/// `created_ts` as the join instant — this generation's
/// `oldest_membership` focus selection picks the SFU of the smallest one —
/// so a refresh must not move it, however many times we re-send.
#[test]
fn a_refresh_never_moves_created_ts() {
    let dialect = dialect();
    let mut began = None;
    let spec = content(SPEC_JOIN);

    let first = render_again(&dialect, &mut began, &spec, Some(60_000));
    let second = render_again(&dialect, &mut began, &spec, Some(60_000));

    assert_eq!(first["created_ts"], second["created_ts"]);
    // Including across a clone, which is how the command sender holds it.
    assert_eq!(
        first["created_ts"],
        render_again(&dialect.clone(), &mut began, &spec, Some(60_000))["created_ts"],
    );
}

/// The deadline peers compute is `created_ts + expires`, and `created_ts`
/// never moves, so `expires` is the only thing a refresh can push out. On a
/// homeserver without MSC4140 it is the *sole* thing bounding a ghost, so it
/// has to track the lifetime the core asked for rather than a fixed constant.
#[test]
fn expires_carries_the_lifetime_the_core_asked_for() {
    let dialect = dialect();
    let mut began = None;
    let spec = content(SPEC_JOIN);
    let lifetime = 60_000;

    let first = render_again(&dialect, &mut began, &spec, Some(lifetime));
    let created_ts = first["created_ts"].as_u64().expect("stamped");
    let deadline = created_ts + first["expires"].as_u64().expect("stated");

    // The first send is the join itself, so its deadline is one lifetime out.
    assert!(deadline.abs_diff(now_ms() + lifetime) < 1_000);

    // A later send moves the deadline out by a further lifetime from *then*,
    // which is what keeps a refreshed membership alive.
    let refreshed = render_again(&dialect, &mut began, &spec, Some(lifetime));
    assert!(refreshed["expires"].as_u64().expect("stated") >= lifetime);

    // No lifetime stated is the delayed leave, which needs no deadline: the
    // JS SDK's four hours, as before.
    let unstated = render_again(&dialect, &mut began, &spec, None);
    assert!(unstated["expires"].as_u64().expect("stated") >= DEFAULT_EXPIRES_MS);
}

/// This generation validates `m.call.intent` and logs
/// "RTC membership has invalid m.call.intent" when it is missing — which it
/// always was, because the core carries no intent for us to copy.
#[test]
fn a_join_always_states_a_call_intent() {
    let legacy = render(&dialect(), &content(SPEC_JOIN), None);
    assert_eq!(legacy["m.call.intent"], DEFAULT_CALL_INTENT);

    // An intent the core did supply wins over the default.
    let mut spec = content(SPEC_JOIN);
    spec["application"]["m.call.intent"] = value(r#""audio""#);
    assert_eq!(
        render(&dialect(), &spec, None)["m.call.intent"],
        "audio"
    );
}

#[test]
fn a_non_livekit_transport_is_not_offered_as_a_focus() {
    let mut spec = content(SPEC_JOIN);
    spec["transports"]["published"] = value(r#"[{ "type": "something-else" }]"#);

    let legacy = render(&dialect(), &spec, None);
    assert_eq!(legacy["foci_preferred"], value(r#"[]"#));
}

/// Whoever renders our membership, and whenever, states when it began; so do copies
/// made before it was first rendered.
#[test]
fn every_copy_states_one_beginning() {
    let dialect = dialect();
    let copy = dialect.clone();
    let mut began = None;
    let spec = matrix_rtc::json::Json::object()
        .with("slot_id", matrix_rtc::json::Json::text("m.call#ROOM"));

    let first = dialect.member_content_at(&mut began, &spec, Some(60_000), 1_000);
    let by_copy = copy.member_content_at(&mut began, &spec, Some(60_000), 5_000);
    let refreshed = dialect.member_content_at(&mut began, &spec, None, 9_000);

    assert_eq!(began, Some(1_000));
    assert_eq!(first.number_at("created_ts"), Some(1_000));
    assert_eq!(first.number_at("expires"), Some(60_000));
    assert_eq!(by_copy.number_at("created_ts"), Some(1_000));
    assert_eq!(by_copy.number_at("expires"), Some(64_000));
    assert_eq!(refreshed.number_at("created_ts"), Some(1_000));
    assert_eq!(refreshed.number_at("expires"), Some(14_408_000));
    assert!(by_copy.get("slot_id").is_none());
}

/// A leave begins nothing.
#[test]
fn a_leave_does_not_settle_the_beginning() {
    let mut began = None;
    let rendered = render_again(&dialect(), &mut began, &content(SPEC_LEAVE), None);
    assert_eq!(rendered, value(r#"{}"#));
    assert_eq!(began, None);
}
