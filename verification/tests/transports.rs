//! Transports as member events carry them.

use matrix_rtc::event::{EventOrigin, RawStickyEvent, RawStickyEventContent};
use matrix_rtc::json::{Json, JsonMember};
use matrix_rtc::session::{ApplicationInfo, CallMembershipEvent, MemberInfo, Membership};
use matrix_rtc::transport::{MemberTransports, RawRtcTransport, RtcTransport};

const ROOM_ID: &str = "!room:example.org";

#[test]
fn joined_event_with_livekit_transport_is_parsed_correctly() {
    let extra_fields = vec![JsonMember {
        key: "livekit_service_url".to_owned(),
        value: Json::text("https://example.com/livekit/jwt"),
    }];

    let event = RawStickyEvent {
        room_id: ROOM_ID.to_owned(),
        event_id: None,
        sender: "@alice:example.org".to_owned(),
        origin: EventOrigin::default(),
        event_type: "m.rtc.member".to_owned(),
        content: RawStickyEventContent {
            slot_id: "m.call#ROOM".to_owned(),
            sticky_key: "alice-device-a".to_owned(),
            application: ApplicationInfo {
                application_type: Some("m.call".to_owned()),
                extra: Vec::new(),
            },
            member: MemberInfo {
                id: Some("alice-device-a".to_owned()),
                membership: Some(Membership::Join),
            },
            transports: Some(MemberTransports::publishing(RawRtcTransport {
                transport_type: "livekit".to_owned(),
                extra_fields,
            })),
            leave_reason: None,
            created_ts: None,
        },
    };

    let membership_event = event.try_into_call_membership_event().unwrap();

    match membership_event {
        CallMembershipEvent::Joined(joined) => {
            assert_eq!(joined.transports.len(), 1);
            match &joined.transports[0] {
                RtcTransport::LiveKit(livekit) => {
                    assert_eq!(
                        livekit.livekit_service_url,
                        "https://example.com/livekit/jwt"
                    );
                }
                RtcTransport::Unsupported(_) => panic!("Expected LiveKit transport"),
            }
        }
        CallMembershipEvent::Left(_) => panic!("Expected Joined membership"),
    }
}

#[test]
fn joined_event_with_unknown_transport_is_preserved_as_unsupported() {
    let extra_fields = vec![JsonMember {
        key: "custom_field".to_owned(),
        value: Json::text("custom_value"),
    }];

    let event = RawStickyEvent {
        room_id: ROOM_ID.to_owned(),
        event_id: None,
        sender: "@alice:example.org".to_owned(),
        origin: EventOrigin::default(),
        event_type: "m.rtc.member".to_owned(),
        content: RawStickyEventContent {
            slot_id: "m.call#ROOM".to_owned(),
            sticky_key: "alice-device-a".to_owned(),
            application: ApplicationInfo {
                application_type: Some("m.call".to_owned()),
                extra: Vec::new(),
            },
            member: MemberInfo {
                id: Some("alice-device-a".to_owned()),
                membership: Some(Membership::Join),
            },
            transports: Some(MemberTransports::publishing(RawRtcTransport {
                transport_type: "unknown_transport".to_owned(),
                extra_fields,
            })),
            leave_reason: None,
            created_ts: None,
        },
    };

    let membership_event = event.try_into_call_membership_event().unwrap();

    match membership_event {
        CallMembershipEvent::Joined(joined) => {
            assert_eq!(joined.transports.len(), 1);
            match &joined.transports[0] {
                RtcTransport::Unsupported(unsupported) => {
                    assert_eq!(unsupported.transport_type, "unknown_transport");
                    assert!(unsupported
                        .extra_fields
                        .iter()
                        .any(|member| member.key == "custom_field"));
                }
                RtcTransport::LiveKit(_) => panic!("Expected Unsupported transport"),
            }
        }
        CallMembershipEvent::Left(_) => panic!("Expected Joined membership"),
    }
}
