//! What a slot event amounts to.

use matrix_rtc::json::Json;
use matrix_rtc::slot::{
    EncryptionMechanism, RawSlotEvent, RawSlotEventContent, RoomEncryption, SlotEncryption,
    SlotState, SlotStatus,
};

const ROOM_ID: &str = "!room:example.org";

fn event(slot_id: &str, content: RawSlotEventContent) -> RawSlotEvent {
    RawSlotEvent {
        room_id: ROOM_ID.to_string(),
        slot_id: slot_id.to_string(),
        content,
    }
}

fn per_member() -> Option<SlotEncryption> {
    Some(SlotEncryption {
        mechanism: EncryptionMechanism::PerMember,
    })
}

#[test]
fn what_is_written_is_read_back() {
    for encryption in [
        None,
        per_member(),
        Some(SlotEncryption {
            mechanism: EncryptionMechanism::Other("org.example.other".to_string()),
        }),
    ] {
        let written = RawSlotEventContent::for_open("m.call".to_string(), encryption);
        let read = RawSlotEventContent::from_json(&written.to_json());
        assert_eq!(read.status, written.status);
        assert_eq!(read.application_type, written.application_type);
        assert_eq!(read.encryption, written.encryption);
    }
    let closed = RawSlotEventContent::from_json(&RawSlotEventContent::for_close().to_json());
    assert_eq!(closed.status, Some(SlotStatus::Closed));
    assert_eq!(closed.application_type, None);
    assert_eq!(closed.encryption, None);
}

#[test]
fn an_opened_slot_is_open_where_its_encryption_suits_the_room() {
    let open = |encryption| {
        event(
            "m.call#ROOM",
            RawSlotEventContent::for_open("m.call".to_string(), encryption),
        )
    };
    assert!(open(None).resolve(RoomEncryption::Unknown).is_open());
    assert!(open(per_member()).resolve(RoomEncryption::Unknown).is_open());
    assert!(open(per_member()).resolve(RoomEncryption::Encrypted).is_open());
    assert!(open(None).resolve(RoomEncryption::Unencrypted).is_open());
    assert_eq!(
        open(None).resolve(RoomEncryption::Encrypted),
        SlotState::Closed
    );
    assert_eq!(
        open(per_member()).resolve(RoomEncryption::Unencrypted),
        SlotState::Closed
    );
}

#[test]
fn a_slot_of_another_application_is_closed() {
    let content = || RawSlotEventContent::for_open("m.call".to_string(), None);
    assert!(event("m.call#ROOM", content())
        .resolve(RoomEncryption::Unknown)
        .is_open());
    for slot_id in ["m.call", "m.calls#ROOM", "other#ROOM", ""] {
        assert_eq!(
            event(slot_id, content()).resolve(RoomEncryption::Unknown),
            SlotState::Closed,
            "{slot_id}"
        );
    }
}

#[test]
fn a_slot_that_says_nothing_is_closed() {
    for content in [
        RawSlotEventContent::empty(),
        RawSlotEventContent::for_close(),
        RawSlotEventContent::from_json(&Json::Null),
        RawSlotEventContent::from_json(&Json::object().with("status", Json::text("ajar"))),
        RawSlotEventContent::for_open(String::new(), None),
    ] {
        assert_eq!(
            event("m.call#ROOM", content).resolve(RoomEncryption::Unknown),
            SlotState::Closed
        );
    }
}

/// An encryption that cannot be read must not pass for none.
#[test]
fn an_unreadable_encryption_closes_the_slot() {
    let content = RawSlotEventContent::from_json(
        &RawSlotEventContent::for_open("m.call".to_string(), None)
            .to_json()
            .with("encryption", Json::text("m.per_member")),
    );
    assert_eq!(
        event("m.call#ROOM", content).resolve(RoomEncryption::Unencrypted),
        SlotState::Closed
    );
}

#[test]
fn the_known_mechanism_is_recognised() {
    let read = RawSlotEventContent::from_json(
        &RawSlotEventContent::for_open("m.call".to_string(), per_member()).to_json(),
    );
    assert!(matches!(
        read.encryption,
        Some(SlotEncryption {
            mechanism: EncryptionMechanism::PerMember
        })
    ));
    assert_eq!(
        EncryptionMechanism::from_wire("org.example.other"),
        EncryptionMechanism::Other("org.example.other".to_string()),
    );
    assert_eq!(EncryptionMechanism::PerMember.as_str(), "m.per_member");
}
