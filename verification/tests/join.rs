//! Joining and leaving: the parameters.

use matrix_rtc::join::{JoinSessionParams, DEFAULT_KEEP_ALIVE_TIMEOUT_MS};
use matrix_rtc::transport::{LiveKitTransport, RtcTransport};

/// MSC4143 requires `member.id` to differ on every join, so a generated id
/// must not be derived from the (stable) user and device IDs.
#[test]
fn test_membership_id_is_unique_per_call() {
    let params = JoinSessionParams::new(
        "@alice:example.org".to_string(),
        "device123".to_string(),
        "!room:example.org".to_string(),
        "m.call#ROOM".to_string(),
        "m.call".to_string(),
        RtcTransport::LiveKit(LiveKitTransport {
            livekit_service_url: "https://example.com".to_string(),
        }),
    );

    let first = params.membership_id();
    let second = params.membership_id();

    assert_ne!(first, second);
    assert_eq!(first.len(), 32);
    assert!(!first.contains("@alice:example.org"));
    assert!(!first.contains("device123"));
}

#[test]
fn test_explicit_membership_id() {
    let mut params = JoinSessionParams::new(
        "@alice:example.org".to_string(),
        "device123".to_string(),
        "!room:example.org".to_string(),
        "m.call#ROOM".to_string(),
        "m.call".to_string(),
        RtcTransport::LiveKit(LiveKitTransport {
            livekit_service_url: "https://example.com".to_string(),
        }),
    );
    params.membership_id = Some("custom-id".to_string());

    assert_eq!(params.membership_id(), "custom-id");
}

#[test]
fn test_keep_alive_timeout_default() {
    let params = JoinSessionParams::new(
        "@alice:example.org".to_string(),
        "device123".to_string(),
        "!room:example.org".to_string(),
        "m.call#ROOM".to_string(),
        "m.call".to_string(),
        RtcTransport::LiveKit(LiveKitTransport {
            livekit_service_url: "https://example.com".to_string(),
        }),
    );

    assert_eq!(
        params.keep_alive_timeout_ms(),
        DEFAULT_KEEP_ALIVE_TIMEOUT_MS
    );
}

#[test]
fn test_keep_alive_timeout_custom() {
    let mut params = JoinSessionParams::new(
        "@alice:example.org".to_string(),
        "device123".to_string(),
        "!room:example.org".to_string(),
        "m.call#ROOM".to_string(),
        "m.call".to_string(),
        RtcTransport::LiveKit(LiveKitTransport {
            livekit_service_url: "https://example.com".to_string(),
        }),
    );
    params.keep_alive_timeout_ms = Some(60_000);

    assert_eq!(params.keep_alive_timeout_ms(), 60_000);
}

#[test]
fn test_validate_success() {
    let params = JoinSessionParams::new(
        "@alice:example.org".to_string(),
        "device123".to_string(),
        "!room:example.org".to_string(),
        "m.call#ROOM".to_string(),
        "m.call".to_string(),
        RtcTransport::LiveKit(LiveKitTransport {
            livekit_service_url: "https://example.com".to_string(),
        }),
    );

    assert!(params.validate().is_ok());
}

#[test]
fn test_validate_empty_user_id() {
    let params = JoinSessionParams::new(
        "".to_string(),
        "device123".to_string(),
        "!room:example.org".to_string(),
        "m.call#ROOM".to_string(),
        "m.call".to_string(),
        RtcTransport::LiveKit(LiveKitTransport {
            livekit_service_url: "https://example.com".to_string(),
        }),
    );

    assert_eq!(params.validate(), Err("user_id is required"));
}

#[test]
fn test_validate_empty_room_id() {
    let params = JoinSessionParams::new(
        "@alice:example.org".to_string(),
        "device123".to_string(),
        "".to_string(),
        "m.call#ROOM".to_string(),
        "m.call".to_string(),
        RtcTransport::LiveKit(LiveKitTransport {
            livekit_service_url: "https://example.com".to_string(),
        }),
    );

    assert_eq!(params.validate(), Err("room_id is required"));
}

#[test]
fn a_generated_member_id_is_lower_case_hexadecimal() {
    let id = matrix_rtc::join::generate_member_id();
    assert_eq!(id.len(), 32);
    assert!(id.chars().all(|c| c.is_ascii_digit() || ('a'..='f').contains(&c)));
}
