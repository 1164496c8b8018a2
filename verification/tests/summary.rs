//! What concerns several sessions at once.

use matrix_rtc::manager::summary::{describe_batches, pending_relation_lookups, SessionBatch};
use matrix_rtc::json::Json;
use matrix_rtc::manager::{RtcSessionManager, SessionKey};
use matrix_rtc::reactions::RelationLookup;
use matrix_rtc::slot::{RawSlotEvent, RawSlotEventContent};

fn lookup(event_id: &str, member_id: &str) -> RelationLookup {
    RelationLookup {
        membership_event_id: event_id.to_string(),
        member_id: member_id.to_string(),
    }
}

#[test]
fn each_membership_event_is_looked_up_once() {
    let distinct: Vec<(String, String)> = pending_relation_lookups(vec![
        lookup("$a", "alice-a"),
        lookup("$b", "bob-a"),
        lookup("$a", "alice-b"),
        lookup("$c", "carol-a"),
        lookup("$b", "bob-a"),
    ])
    .into_iter()
    .map(|lookup| (lookup.membership_event_id, lookup.member_id))
    .collect();
    let expected: Vec<(String, String)> = [("$a", "alice-a"), ("$b", "bob-a"), ("$c", "carol-a")]
        .iter()
        .map(|(event_id, member_id)| (event_id.to_string(), member_id.to_string()))
        .collect();
    assert_eq!(distinct, expected);
    assert!(pending_relation_lookups(Vec::new()).is_empty());
}

#[test]
fn batches_are_described_by_slot_and_size() {
    let batch = |slot_id: &str, events: u64| SessionBatch {
        key: SessionKey::new("!room:example.org".to_string(), slot_id.to_string()),
        events,
    };
    assert_eq!(describe_batches(&Vec::new()), "none");
    assert_eq!(describe_batches(&vec![batch("m.call#ROOM", 3)]), "m.call#ROOM x3");
    assert_eq!(
        describe_batches(&vec![batch("m.call#ROOM", 12), batch("m.call#OTHER", 0)]),
        "m.call#ROOM x12, m.call#OTHER x0"
    );
}

#[test]
fn a_session_is_described_by_room_and_slot() {
    let key = SessionKey::new("!room:example.org".to_string(), "m.call#ROOM".to_string());
    assert_eq!(key.describe(), "!room:example.org/m.call#ROOM");
}

#[test]
fn a_snapshot_says_what_is_believed_of_the_rooms() {
    let slot = |slot_id: &str| RawSlotEvent {
        room_id: "!room:example.org".to_string(),
        slot_id: slot_id.to_string(),
        content: RawSlotEventContent::for_open("m.call".to_string(), None),
    };
    let mut manager = RtcSessionManager::new();
    manager.session_for_key("!room:example.org", "m.call#ROOM");
    manager.on_room_encryption_received("!room:example.org", false);
    manager.on_room_members_received(
        "!room:example.org",
        vec!["@alice:example.org".to_string(), "@bob:example.org".to_string()],
    );
    manager.on_room_slots_received(
        "!room:example.org",
        vec![slot("m.call#ROOM"), slot("m.call#two"), slot("m.call#ROOM")],
    );

    let snapshot = manager.debug_snapshot();

    assert_eq!(snapshot.get("has_command_sender"), Some(&Json::Bool(false)));
    assert_eq!(snapshot.number_at("session_count"), Some(1));
    assert_eq!(
        snapshot.get("rooms_with_slot_state"),
        Some(&Json::array(vec![Json::text("!room:example.org")])),
    );
    assert_eq!(
        snapshot.get("known_slots"),
        Some(&Json::array(vec![
            Json::text("!room:example.org/m.call#ROOM"),
            Json::text("!room:example.org/m.call#two"),
        ])),
    );
    assert_eq!(
        snapshot
            .get_in("room_encryption", "!room:example.org")
            .and_then(Json::as_text),
        Some("Unencrypted"),
    );
    assert_eq!(
        snapshot.get("room_members").and_then(|rooms| rooms.number_at("!room:example.org")),
        Some(2),
    );
    let session = snapshot
        .get_in("sessions", "!room:example.org/m.call#ROOM")
        .expect("the session is there");
    assert_eq!(session.number_at("members"), Some(0));
    assert_eq!(session.get("slot_open"), Some(&Json::Bool(true)));
    assert_eq!(session.get("own_member_id"), Some(&Json::Null));
}
