//! The sticky dialect with the older names.

use matrix_rtc::compat::element_call::{
    legacy_session, normalize_member_content, parse_key_message, rewrite_key_message,
    ElementCallDialect, MemberContent, LEGACY_KEY_EVENT_TYPE,
};
use matrix_rtc::compat::{MemberEventRoute, OutboundDialect};
use matrix_rtc::compat::element_call_state::ElementCallStateDialect;
use matrix_rtc::encryption::KEY_MESSAGE_TYPE;
use matrix_rtc::event::RawStickyEventContent;
use matrix_rtc::json::{Json, JsonMember};
use matrix_rtc::session::{LeaveCode, LeaveReason, Membership};
use matrix_rtc::transport::{MemberTransports, RawRtcTransport};

fn dialect() -> ElementCallDialect {
    ElementCallDialect::new("@us:example.io", "DEVICE", "m.call#ROOM")
}

fn join() -> Json {
    RawStickyEventContent::for_join(
        "m.call#ROOM".to_string(),
        "us-a".to_string(),
        "m.call".to_string(),
        MemberTransports::publishing(RawRtcTransport {
            transport_type: "livekit".to_string(),
            extra_fields: vec![JsonMember {
                key: "livekit_service_url".to_string(),
                value: Json::text("https://sfu.example.io"),
            }],
        }),
    )
    .to_json()
}

#[test]
fn slot_ids_name_an_application_and_a_call() {
    assert_eq!(legacy_session("m.call#ROOM"), ("m.call", ""));
    assert_eq!(legacy_session("m.call#standup"), ("m.call", "standup"));
    assert_eq!(legacy_session("m.call#a#b"), ("m.call", "a#b"));
    assert_eq!(legacy_session("m.call"), ("m.call", ""));
}

#[test]
fn a_rewritten_join_reads_the_same() {
    let mut sent = join();
    dialect().rewrite_member_content(&mut sent);
    assert_eq!(
        sent.get_in("member", "device_id").and_then(Json::as_text),
        Some("DEVICE")
    );
    assert_eq!(
        sent.get_in("member", "user_id").and_then(Json::as_text),
        Some("@us:example.io")
    );
    assert!(sent.get("rtc_transports").and_then(Json::items).is_some());

    assert_eq!(normalize_member_content(&mut sent), MemberContent::Membership);
    let read = RawStickyEventContent::from_json(&sent).expect("a membership");
    assert_eq!(read.slot_id, "m.call#ROOM");
    assert_eq!(read.sticky_key, "us-a");
    assert_eq!(read.member.id.as_deref(), Some("us-a"));
    assert_eq!(read.member.membership, Some(Membership::Join));
    let transports = read.transports.expect("transports");
    assert_eq!(transports.published[0].transport_type, "livekit");
    assert_eq!(transports.can_subscribe, vec!["livekit"]);
}

#[test]
fn a_sent_leave_is_its_bare_sticky_key() {
    let mut sent = RawStickyEventContent::for_leave(
        "m.call#ROOM".to_string(),
        "us-a".to_string(),
        Some(LeaveReason::new(LeaveCode::Leave)),
    )
    .to_json();
    dialect().rewrite_member_content(&mut sent);
    assert_eq!(
        sent,
        Json::object().with("msc4354_sticky_key", Json::text("us-a"))
    );
    assert_eq!(normalize_member_content(&mut sent), MemberContent::BareLeave);
}

#[test]
fn older_names_are_filled_in() {
    let mut content = Json::object()
        .with("slot_id", Json::text("m.call#ROOM"))
        .with("member", Json::object().with("id", Json::text("them-a")))
        .with(
            "rtc_transports",
            Json::array(vec![
                Json::object().with("type", Json::text("livekit")),
                Json::object(),
            ]),
        );
    assert_eq!(
        normalize_member_content(&mut content),
        MemberContent::Membership
    );
    assert_eq!(
        content.get_in("member", "membership").and_then(Json::as_text),
        Some("join")
    );
    let types = content
        .get_in("transports", "can_subscribe")
        .and_then(Json::items)
        .expect("can_subscribe");
    assert_eq!(types.len(), 1);
    assert_eq!(types[0].as_text(), Some("livekit"));
}

#[test]
fn current_contents_pass_through() {
    let mut content = join();
    assert_eq!(
        normalize_member_content(&mut content),
        MemberContent::Membership
    );
    assert_eq!(content, join());
}

fn key_message() -> Json {
    Json::object()
        .with("room_id", Json::text("!room:example.io"))
        .with("member_id", Json::text("us-a"))
        .with(
            "media_key",
            Json::object()
                .with("index", Json::number(3))
                .with("key", Json::text("AAECAw==")),
        )
        .with("format", Json::number(0))
}

#[test]
fn a_sent_key_is_read_back() {
    let (message_type, content) = dialect()
        .rewrite_key_message(KEY_MESSAGE_TYPE, &key_message())
        .expect("a key message");
    assert_eq!(message_type, LEGACY_KEY_EVENT_TYPE);
    assert_eq!(content.text_at("device_id"), Some("DEVICE"));
    let session = content.get("session").expect("session");
    assert_eq!(session.text_at("application"), Some("m.call"));
    assert_eq!(session.text_at("call_id"), Some(""));

    let read = parse_key_message("@us:example.io", &content).expect("a key");
    assert_eq!(read.room_id, "!room:example.io");
    assert_eq!(read.member_id, "us-a");
    assert_eq!(read.key_index, 3);
    assert_eq!(read.key_b64, "AAECAw==");
}

#[test]
fn other_messages_are_no_key_messages() {
    assert!(rewrite_key_message("DEVICE", "m.call#ROOM", "m.other", &key_message()).is_none());
    assert!(rewrite_key_message(
        "DEVICE",
        "m.call#ROOM",
        KEY_MESSAGE_TYPE,
        &Json::object().with("room_id", Json::text("!room:example.io"))
    )
    .is_none());
}

#[test]
fn an_index_has_to_fit_a_byte() {
    let message = |index: u64| {
        Json::object()
            .with("room_id", Json::text("!room:example.io"))
            .with("device_id", Json::text("THEIRS"))
            .with(
                "keys",
                Json::object()
                    .with("index", Json::number(index))
                    .with("key", Json::text("AAECAw==")),
            )
    };
    let read = parse_key_message("@them:example.io", &message(255)).expect("a key");
    assert_eq!(read.key_index, 255);
    assert_eq!(read.member_id, "@them:example.io:THEIRS");
    assert!(parse_key_message("@them:example.io", &message(256)).is_none());
}

#[test]
fn memberships_go_where_the_dialect_has_them() {
    let mut began = None;
    let current = OutboundDialect::Current;
    let route = current.prepare_sticky_event(&mut began, "m.rtc.member".to_string(), join(), 60_000, 1_000);
    assert!(matches!(route, MemberEventRoute::Sticky { content, .. } if content == join()));

    let state = OutboundDialect::State(ElementCallStateDialect::new(
        "@us:example.io",
        "DEVICE",
        "!room:example.io",
        "m.call#ROOM",
    ));
    let route = state.prepare_sticky_event(&mut began, "m.rtc.member".to_string(), join(), 60_000, 1_000);
    let MemberEventRoute::State {
        event_type,
        state_key,
        content,
    } = route
    else {
        panic!("a membership is room state here");
    };
    assert_eq!(event_type, "org.matrix.msc3401.call.member");
    assert_eq!(state_key, "_@us:example.io_DEVICE_m.call");
    assert_eq!(content.number_at("expires"), Some(60_000));

    let leave = RawStickyEventContent::for_leave(
        "m.call#ROOM".to_string(),
        "us-a".to_string(),
        Some(LeaveReason::new(LeaveCode::DelayedLeave)),
    )
    .to_json();
    let route = state.prepare_delayed_event(&mut began, "m.rtc.member".to_string(), leave, 2_000);
    assert!(matches!(route, MemberEventRoute::State { .. }));
}

#[test]
fn keys_go_out_in_one_shape() {
    let (message_type, content) = OutboundDialect::Current
        .prepare_to_device_message(KEY_MESSAGE_TYPE.to_string(), key_message());
    assert_eq!(message_type, KEY_MESSAGE_TYPE);
    assert_eq!(content, key_message());

    let (message_type, content) = OutboundDialect::Sticky(dialect())
        .prepare_to_device_message(KEY_MESSAGE_TYPE.to_string(), key_message());
    assert_eq!(message_type, LEGACY_KEY_EVENT_TYPE);
    assert!(content.get("media_key").is_none());
}
