//! Sessions across rooms: who is in them, and our own part in them.

use base64::engine::general_purpose;
use base64::Engine;
use matrix_rtc::commands::{RtcCommand, ToDeviceDelivery};
use matrix_rtc::encryption::inbound::KeyEvent;
use matrix_rtc::encryption::types::{EncryptionConfig, KeyOrigin, ReceivedEncryptionKey};
use matrix_rtc::error::{CommandError, JoinError, LeaveError};
use matrix_rtc::event::{
    EventConversionError, EventOrigin, RawStickyEvent, RawStickyEventContent,
};
use matrix_rtc::join::{JoinSessionParams, LeaveSessionParams, TransportIntent};
use matrix_rtc::json::{Json, JsonNumber};
use matrix_rtc::manager::RtcSessionManager;
use matrix_rtc::notification::{
    NotifyConfig, DEFAULT_RING_LIFETIME_MS, NOTIFICATION_EVENT_TYPE,
};
use matrix_rtc::session::{
    ApplicationInfo, LeaveCode, LeaveReason, MemberInfo, Membership,
};
use matrix_rtc::slot::{
    EncryptionMechanism, RawSlotEvent, RawSlotEventContent, SlotEncryption, SlotState,
};
use matrix_rtc::transport::{LiveKitTransport, RtcTransport};
use serde_json::Value;

const ROOM_ID: &str = "!room:example.org";
const OTHER_ROOM: &str = "!other:example.org";
const SLOT_ID: &str = "m.call#ROOM";


/// A JSON value as the library holds it.
fn to_json(value: &Value) -> Json {
    match value {
        Value::Null => Json::Null,
        Value::Bool(b) => Json::Bool(*b),
        Value::Number(n) => match n.as_u64() {
            Some(n) => Json::number(n),
            None => Json::Number(JsonNumber::Other(n.to_string())),
        },
        Value::String(text) => Json::text(text),
        Value::Array(items) => Json::array(items.iter().map(to_json).collect()),
        Value::Object(members) => {
            let mut json = Json::object();
            for (key, value) in members {
                json = json.with(key, to_json(value));
            }
            json
        }
    }
}


fn value(text: &str) -> Value {
    serde_json::from_str(text).expect("valid json")
}

fn sticky_event(
    sender: &str,
    slot_id: &str,
    sticky_key: &str,
    application_type: Option<&str>,
    membership: Membership,
    leave_reason: Option<LeaveReason>,
) -> RawStickyEvent {
    RawStickyEvent {
        room_id: ROOM_ID.to_owned(),
        event_id: None,
        sender: sender.to_owned(),
        origin: EventOrigin::default(),
        event_type: "m.rtc.member".to_owned(),
        content: RawStickyEventContent {
            slot_id: slot_id.to_owned(),
            sticky_key: sticky_key.to_owned(),
            application: ApplicationInfo {
                application_type: application_type.map(str::to_owned),
                extra: Vec::new(),
            },
            member: MemberInfo {
                id: Some(sticky_key.to_owned()),
                membership: Some(membership),
            },
            transports: None,
            leave_reason,
            created_ts: None,
        },
    }
}

fn joined_event(sender: &str, slot_id: &str, sticky_key: &str) -> RawStickyEvent {
    sticky_event(
        sender,
        slot_id,
        sticky_key,
        Some("m.call"),
        Membership::Join,
        None,
    )
}

fn left_event(sender: &str, slot_id: &str, sticky_key: &str) -> RawStickyEvent {
    sticky_event(
        sender,
        slot_id,
        sticky_key,
        None,
        Membership::Leave,
        Some(LeaveReason::new(LeaveCode::Leave)),
    )
}

fn slot_event(slot_id: &str, json: &str) -> RawSlotEvent {
    RawSlotEvent {
        room_id: ROOM_ID.to_owned(),
        slot_id: slot_id.to_owned(),
        content: RawSlotEventContent::from_json(&to_json(&value(json))),
    }
}

fn open_call_slot() -> RawSlotEvent {
    slot_event(
        SLOT_ID,
        r#"{ "status": "open", "application": { "type": "m.call" } }"#,
    )
}

fn encrypted_call_slot() -> RawSlotEvent {
    slot_event(
        SLOT_ID,
        r#"{ "status": "open",
             "application": { "type": "m.call" },
             "encryption": { "type": "m.per_member" } }"#,
    )
}

/// Feeds a manager and carries its decisions out, keeping what was sent.
struct Host {
    manager: RtcSessionManager,
    now: u64,
    armed: u32,
    fail_sticky: bool,
    /// Type, content and lifetime of every sticky event.
    sticky: Vec<(String, Json, u64)>,
    to_device: Vec<(String, String, Json)>,
    cancelled: Vec<String>,
    /// The leaves nobody asked for.
    auto_leaves: u32,
}

impl Host {
    fn silent() -> Host {
        Host {
            manager: RtcSessionManager::new(),
            now: 1_700_000_000_000,
            armed: 0,
            fail_sticky: false,
            sticky: Vec::new(),
            to_device: Vec::new(),
            cancelled: Vec::new(),
            auto_leaves: 0,
        }
    }

    fn new() -> Host {
        Host {
            manager: RtcSessionManager::with_command_sender(),
            ..Host::silent()
        }
    }

    /// In an encrypted room with a slot that prescribes media keys.
    fn encrypted_call() -> Host {
        let mut host = Host::new();
        host.manager.on_room_encryption_received(ROOM_ID, true);
        host.slots(vec![encrypted_call_slot()]);
        host
    }

    fn publish(&mut self, command: RtcCommand) -> Result<String, CommandError> {
        let RtcCommand::SendSticky {
            event_type,
            content,
            duration_ms,
            ..
        } = command
        else {
            panic!("expected a sticky event");
        };
        if self.fail_sticky {
            return Err(CommandError::from_message("sticky send rejected".to_string()));
        }
        self.sticky.push((event_type, content, duration_ms));
        Ok(format!("$sticky-{}", self.sticky.len()))
    }

    fn send_key(&mut self, command: RtcCommand) -> Vec<ToDeviceDelivery> {
        let RtcCommand::SendToDevice {
            recipients,
            content,
            ..
        } = command
        else {
            panic!("expected a to-device message");
        };
        recipients
            .into_iter()
            .map(|recipient| {
                self.to_device.push((
                    recipient.user_id.clone(),
                    recipient.device_id.clone(),
                    content.clone(),
                ));
                ToDeviceDelivery::sent(recipient)
            })
            .collect()
    }

    fn rollout(&mut self, at: usize) {
        let members = self.manager.sessions[at].session.members();
        let own = self.manager.sessions[at].session.own.as_mut().expect("joined");
        let Some(rollout) = own.keys.rollout_outbound_key(&members, self.now) else {
            return;
        };
        let send = own.keys.send_key_to_participants(
            &rollout.key,
            rollout.key_index,
            &rollout.plan.recipients,
            &members,
        );
        let served = match send {
            Some(send) => {
                let deliveries = self.send_key(send.command());
                send.served(Ok(deliveries))
            }
            None => Vec::new(),
        };
        let own = self.manager.sessions[at].session.own.as_mut().expect("joined");
        own.keys.finish_rollout(rollout, served, self.now);
    }

    fn members_changed(&mut self, at: usize) {
        let Some(update) = self.manager.sessions[at].session.on_members_changed(self.now) else {
            return;
        };
        let own = self.manager.sessions[at].session.own.as_mut().expect("joined");
        if !update.distribute || !own.keys.ensure_key_distribution() {
            return;
        }
        loop {
            self.rollout(at);
            let own = self.manager.sessions[at].session.own.as_mut().expect("joined");
            if !own.keys.end_distribution() {
                return;
            }
        }
    }

    fn state(&mut self, events: Vec<RawStickyEvent>) {
        self.manager
            .set_current_sticky_state(ROOM_ID, events)
            .expect("well-formed events");
        for at in self.manager.sessions_in_room(ROOM_ID) {
            self.members_changed(at);
        }
    }

    fn let_in(&mut self, user_id: &str, device_id: &str, member_id: &str) {
        self.state(vec![RawStickyEvent {
            origin: EventOrigin::encrypted(Some(device_id.to_owned())),
            ..joined_event(user_id, SLOT_ID, member_id)
        }]);
    }

    fn slots(&mut self, slots: Vec<RawSlotEvent>) {
        self.manager.on_room_slots_received(ROOM_ID, slots);
        for at in self.manager.sessions_in_room(ROOM_ID) {
            if let Some(command) = self.manager.sessions[at].session.leave_closed_slot() {
                self.finish_leave(at, command).expect("the leave goes out");
                self.auto_leaves += 1;
            }
        }
    }

    fn join(&mut self, params: JoinSessionParams) -> Result<(), JoinError> {
        let (room_id, slot_id) = (params.room_id.clone(), params.slot_id.clone());
        let (attempt, command) = self.manager.join(params)?;
        assert!(matches!(command, RtcCommand::SendDelayed { .. }));
        self.armed += 1;
        let (publication, command) =
            attempt.on_armed(Ok(format!("delay-{}", self.armed)), self.now);
        let sent = self.publish(command);
        let at = self.manager.find(&room_id, &slot_id).expect("a session");
        let session = &mut self.manager.sessions[at].session;
        if let Some(notice) = session.on_join_sent(publication, sent, self.now)? {
            self.publish(notice).expect("the notification goes out");
        }
        self.members_changed(at);
        Ok(())
    }

    fn finish_leave(&mut self, at: usize, command: RtcCommand) -> Result<(), LeaveError> {
        let sent = self.publish(command);
        let session = &mut self.manager.sessions[at].session;
        if let Some(command) = session.on_leave_sent(sent)? {
            let RtcCommand::CancelDelayed { delay_id, .. } = command else {
                panic!("leaving cancels the delayed leave");
            };
            self.cancelled.push(delay_id);
            session.on_leave_cancelled(Ok(()));
        }
        Ok(())
    }

    fn leave(&mut self, params: LeaveSessionParams) -> Result<(), LeaveError> {
        let command = self.manager.leave(ROOM_ID, SLOT_ID, params)?;
        let at = self.manager.find(ROOM_ID, SLOT_ID).expect("a session");
        match command {
            Some(command) => self.finish_leave(at, command),
            None => Ok(()),
        }
    }

    fn members(&self) -> Vec<String> {
        let at = self.manager.find(ROOM_ID, SLOT_ID).expect("a session");
        self.manager.sessions[at]
            .session
            .members()
            .into_iter()
            .map(|member| member.member_id)
            .collect()
    }

    fn count(&self, slot_id: &str) -> Option<usize> {
        self.manager.member_count(ROOM_ID, slot_id)
    }

    fn keys_sent_to(&self, user: &str, device: &str) -> Vec<&Json> {
        self.to_device
            .iter()
            .filter(|(user_id, device_id, _)| user_id == user && device_id == device)
            .map(|(_, _, content)| content)
            .collect()
    }

    fn notifications(&self) -> Vec<(&Json, u64)> {
        self.sticky
            .iter()
            .filter(|(event_type, _, _)| event_type == NOTIFICATION_EVENT_TYPE)
            .map(|(_, content, duration_ms)| (content, *duration_ms))
            .collect()
    }
}

fn alice(member_id: &str) -> JoinSessionParams {
    let mut params = JoinSessionParams::new(
        "@alice:example.org".to_owned(),
        "ALICEDEV".to_owned(),
        ROOM_ID.to_owned(),
        SLOT_ID.to_owned(),
        "m.call".to_owned(),
        RtcTransport::LiveKit(LiveKitTransport {
            livekit_service_url: "https://example.com/jwt".to_owned(),
        }),
    );
    params.membership_id = Some(member_id.to_owned());
    params
}

fn ringing(member_id: &str) -> JoinSessionParams {
    JoinSessionParams {
        notify: Some(NotifyConfig::ring()),
        ..alice(member_id)
    }
}

#[test]
fn a_member_whose_sticky_entry_expired_is_dropped() {
    let mut host = Host::silent();
    let alice = || joined_event("@alice:example.org", SLOT_ID, "alice-a");
    let bob = joined_event("@bob:example.org", SLOT_ID, "bob-a");

    host.state(vec![alice(), bob]);
    assert_eq!(host.count(SLOT_ID), Some(2));

    // Bob's entry lapsed: no leave event, he is simply absent now.
    host.state(vec![alice()]);
    assert_eq!(
        host.count(SLOT_ID),
        Some(1),
        "an expired entry must leave the call, with no leave event to feed in"
    );

    // And an empty state empties the room, rather than being a no-op.
    host.state(Vec::new());
    assert_eq!(host.count(SLOT_ID), Some(0));
}

#[test]
fn a_slot_missing_from_the_current_state_is_cleared_too() {
    let mut host = Host::silent();
    let in_call = || joined_event("@alice:example.org", SLOT_ID, "alice-a");
    let in_other = joined_event("@bob:example.org", "m.call#OTHER", "bob-a");

    host.state(vec![in_call(), in_other]);
    assert_eq!(host.count("m.call#OTHER"), Some(1));

    // Only the first slot is represented now; the second must empty.
    host.state(vec![in_call()]);
    assert_eq!(host.count(SLOT_ID), Some(1));
    assert_eq!(
        host.count("m.call#OTHER"),
        Some(0),
        "a slot absent from the current state is empty, not untouched"
    );
}

#[test]
fn a_rejoin_in_the_same_process_distributes_a_key_to_the_incumbent() {
    let mut host = Host::encrypted_call();

    host.join(alice("alice-a")).expect("join should succeed");
    host.let_in("@bob:example.org", "BOBDEV", "bob-a");
    assert!(
        !host.keys_sent_to("@bob:example.org", "BOBDEV").is_empty(),
        "first call should have distributed a key to the incumbent"
    );

    host.leave(LeaveSessionParams::new()).expect("leave should succeed");
    host.to_device.clear();

    // Second call: deliberately no further sticky events. Bob has not moved.
    host.join(alice("alice-b")).expect("join should succeed");

    let sent = host.keys_sent_to("@bob:example.org", "BOBDEV");
    assert_eq!(
        sent.len(),
        1,
        "the incumbent should be handed the key once, not once per code path \
         that noticed the join"
    );
    assert_eq!(
        sent[0].text_at("member_id"),
        Some("alice-b"),
        "the key must be advertised under the member id of the current join"
    );
    assert_eq!(
        sent[0].get("media_key").and_then(|key| key.number_at("index")),
        Some(0),
        "a fresh join starts a fresh key index"
    );
}

#[test]
fn starting_a_call_notifies_the_room() {
    let mut host = Host::encrypted_call();

    let mut notify = NotifyConfig::ring();
    notify.intent = Some("video".to_owned());
    host.join(JoinSessionParams {
        notify: Some(notify),
        ..alice("alice-a")
    })
    .expect("join should succeed");

    let member_event_id = host
        .sticky
        .iter()
        .position(|(event_type, _, _)| event_type == "m.rtc.member")
        .map(|index| format!("$sticky-{}", index + 1))
        .expect("the join sends a membership event");
    let sent = host.notifications();
    assert_eq!(sent.len(), 1, "the call starter should notify exactly once");
    let (content, duration_ms) = sent[0];
    assert_eq!(
        content.get_in("m.relates_to", "event_id").and_then(Json::as_text),
        Some(member_event_id.as_str()),
        "the relation must name our own membership event"
    );
    assert_eq!(
        content.get_in("m.relates_to", "rel_type").and_then(Json::as_text),
        Some("m.reference")
    );
    let application = content.get("application").expect("application");
    assert_eq!(application.text_at("type"), Some("m.call"));
    assert_eq!(application.text_at("notification_type"), Some("ring"));
    assert_eq!(application.text_at("m.call.intent"), Some("video"));
    assert_eq!(application.text_at("device_id"), Some("ALICEDEV"));
    assert_eq!(
        duration_ms,
        2 * DEFAULT_RING_LIFETIME_MS,
        "the sticky entry must outlive the ring so acknowledgements can extend it"
    );
}

#[test]
fn our_own_membership_does_not_count_as_somebody_else() {
    let mut host = Host::encrypted_call();

    // The echo of our own membership, under the very id we are about to join with.
    host.let_in("@alice:example.org", "ALICEDEV", "alice-a");
    host.join(ringing("alice-a")).expect("join should succeed");

    assert_eq!(
        host.notifications().len(),
        1,
        "the only membership in the session is our own, so we are the one starting the call"
    );
}

#[test]
fn a_stale_participation_of_ours_does_not_count_either() {
    let mut host = Host::new();
    host.slots(vec![open_call_slot()]);

    // Our own device, one call ago, with no device reported.
    host.state(vec![joined_event("@alice:example.org", SLOT_ID, "alice-old")]);

    host.join(ringing("alice-new")).expect("join should succeed");

    assert_eq!(
        host.notifications().len(),
        1,
        "the session held nothing but our own previous participation"
    );
}

#[test]
fn another_device_of_ours_already_in_the_call_counts() {
    let mut host = Host::encrypted_call();

    host.let_in("@alice:example.org", "ALICELAPTOP", "alice-laptop");
    host.join(ringing("alice-a")).expect("join should succeed");

    assert!(
        host.notifications().is_empty(),
        "our laptop was already in the call, so our phone is joining, not starting"
    );
}

#[test]
fn joining_an_occupied_session_notifies_nobody() {
    let mut host = Host::encrypted_call();

    host.let_in("@bob:example.org", "BOBDEV", "bob-a");
    host.join(ringing("alice-a")).expect("join should succeed");

    assert!(
        host.notifications().is_empty(),
        "bob was already in the session, so he started the call, not us"
    );
}

#[test]
fn joining_quietly_notifies_nobody() {
    let mut host = Host::encrypted_call();

    host.join(alice("alice-a")).expect("join should succeed");

    assert!(host.notifications().is_empty());
}

#[test]
fn a_rejoin_does_not_advertise_the_previous_participation() {
    let mut host = Host::encrypted_call();

    host.join(alice("alice-a")).expect("join should succeed");
    // The homeserver echoes our own membership back through the sticky map.
    host.let_in("@alice:example.org", "ALICEDEV", "alice-a");
    assert_eq!(host.members(), vec!["alice-a"]);
    host.leave(LeaveSessionParams::new()).expect("leave should succeed");

    host.join(alice("alice-b")).expect("join should succeed");

    let member_ids = host.members();
    assert!(
        !member_ids.iter().any(|id| id == "alice-a"),
        "our superseded participation is still in the roster: {member_ids:?}"
    );
}

#[test]
fn a_left_session_still_publishes_the_peer_roster() {
    let mut host = Host::encrypted_call();

    host.join(alice("alice-a")).expect("join should succeed");
    host.let_in("@bob:example.org", "BOBDEV", "bob-a");
    assert_eq!(
        host.manager.own_member_id(ROOM_ID, SLOT_ID).as_deref(),
        Some("alice-a")
    );
    host.leave(LeaveSessionParams::new()).expect("leave should succeed");

    assert_eq!(host.manager.session_count(), 1, "the session should survive");
    assert!(
        host.members().iter().any(|id| id == "bob-a"),
        "the peer roster should survive our own departure"
    );
    assert_eq!(
        host.count(SLOT_ID),
        Some(1),
        "the incumbent is still in the call"
    );
    assert_eq!(
        host.manager.own_member_id(ROOM_ID, SLOT_ID),
        None,
        "we are no longer joined, so we have no member id"
    );
}

#[test]
fn manager_routes_snapshot_and_diff_update_membership() {
    let mut host = Host::silent();
    host.state(vec![joined_event("@alice:example.org", SLOT_ID, "alice-device-a")]);

    assert_eq!(host.manager.session_count(), 1);
    assert_eq!(host.count(SLOT_ID), Some(1));

    // A departure arrives as a leave-shaped sticky under the same key.
    host.state(vec![left_event("@alice:example.org", SLOT_ID, "alice-device-a")]);

    assert_eq!(host.count(SLOT_ID), Some(0));
}

#[test]
fn manager_accepts_stable_and_unstable_rtc_member_event_types() {
    let mut host = Host::silent();

    let stable = joined_event("@alice:example.org", SLOT_ID, "alice-device-a");
    let unstable = RawStickyEvent {
        event_type: "org.matrix.msc4143.rtc.member".to_owned(),
        ..joined_event("@bob:example.org", SLOT_ID, "bob-device-a")
    };
    host.state(vec![stable, unstable]);

    assert_eq!(host.count(SLOT_ID), Some(2));
}

#[test]
fn manager_ignores_non_membership_event_types() {
    let mut host = Host::silent();

    host.state(vec![RawStickyEvent {
        event_type: "m.not.rtc.member".to_owned(),
        ..joined_event("@alice:example.org", SLOT_ID, "alice-device-a")
    }]);

    assert_eq!(host.manager.session_count(), 0);
}

#[test]
fn members_are_joined_while_slot_state_is_unsupplied() {
    let mut host = Host::silent();

    host.state(vec![joined_event("@alice:example.org", SLOT_ID, "alice-a")]);

    assert_eq!(host.count(SLOT_ID), Some(1));
    assert_eq!(host.manager.slot_state(ROOM_ID, SLOT_ID), None);
}

#[test]
fn re_applying_the_same_sticky_state_publishes_nothing() {
    let mut host = Host::silent();
    let members = || {
        vec![
            joined_event("@alice:example.org", SLOT_ID, "alice-a"),
            joined_event("@bob:example.org", SLOT_ID, "bob-a"),
            joined_event("@carol:example.org", SLOT_ID, "carol-a"),
        ]
    };

    host.state(members());
    assert_eq!(host.count(SLOT_ID), Some(3));
    let before = host.members();

    host.state(members());

    assert_eq!(
        host.members(),
        before,
        "an unchanged sticky state must not change the roster",
    );
    assert_eq!(host.count(SLOT_ID), Some(3));
    assert_eq!(host.manager.session_count(), 1);
}

#[test]
fn members_are_left_when_no_slot_is_open() {
    let mut host = Host::silent();

    host.state(vec![joined_event("@alice:example.org", SLOT_ID, "alice-a")]);
    assert_eq!(host.count(SLOT_ID), Some(1));

    host.slots(Vec::new());

    assert_eq!(host.count(SLOT_ID), Some(0));
    assert_eq!(
        host.manager.slot_state(ROOM_ID, SLOT_ID),
        Some(SlotState::Closed)
    );
}

#[test]
fn members_are_joined_against_an_open_slot() {
    let mut host = Host::silent();

    host.slots(vec![open_call_slot()]);
    host.state(vec![joined_event("@alice:example.org", SLOT_ID, "alice-a")]);

    assert_eq!(host.count(SLOT_ID), Some(1));
    assert!(host
        .manager
        .slot_state(ROOM_ID, SLOT_ID)
        .is_some_and(|state| state.is_open()));
}

#[test]
fn closing_and_reopening_a_slot_re_evaluates_members() {
    let mut host = Host::silent();

    host.slots(vec![open_call_slot()]);
    host.state(vec![joined_event("@alice:example.org", SLOT_ID, "alice-a")]);
    assert_eq!(host.count(SLOT_ID), Some(1));

    host.slots(vec![slot_event(SLOT_ID, r#"{ "status": "closed" }"#)]);
    assert_eq!(host.count(SLOT_ID), Some(0));

    host.slots(vec![open_call_slot()]);
    assert_eq!(host.count(SLOT_ID), Some(1));
}

#[test]
fn closing_the_slot_leaves_our_own_join() {
    let mut host = Host::encrypted_call();
    host.join(alice("alice-a")).expect("join should succeed");

    host.slots(vec![slot_event(SLOT_ID, r#"{ "status": "closed" }"#)]);

    assert_eq!(host.auto_leaves, 1, "an auto-leave");
    assert_eq!(host.manager.own_member_id(ROOM_ID, SLOT_ID), None);
    let (_, leave, _) = host.sticky.last().expect("a leave was sent");
    assert_eq!(
        leave.get_in("leave_reason", "code").and_then(Json::as_text),
        Some("slot_closed")
    );
    assert_eq!(host.cancelled.len(), 1);
}

#[test]
fn a_host_leave_is_not_announced_as_an_auto_leave() {
    let mut host = Host::encrypted_call();
    host.join(alice("alice-a")).expect("join should succeed");

    host.leave(LeaveSessionParams::default()).expect("leave should succeed");
    // Closing the slot now finds nobody of ours to leave.
    host.slots(vec![slot_event(SLOT_ID, r#"{ "status": "closed" }"#)]);

    assert_eq!(host.auto_leaves, 0);
}

#[test]
fn slot_state_applies_to_sessions_created_later() {
    let mut host = Host::silent();

    host.slots(Vec::new());
    host.state(vec![joined_event("@alice:example.org", SLOT_ID, "alice-a")]);

    assert_eq!(host.count(SLOT_ID), Some(0));
}

#[test]
fn forgetting_a_room_s_slots_stops_the_condition_being_enforced() {
    let mut host = Host::silent();

    // No slot in the room: everyone is projected out.
    host.slots(Vec::new());
    host.state(vec![joined_event("@alice:example.org", SLOT_ID, "alice-a")]);
    assert_eq!(host.count(SLOT_ID), Some(0));

    host.manager.forget_room_slots(ROOM_ID);
    assert_eq!(
        host.count(SLOT_ID),
        Some(1),
        "an unenforced condition must not keep a live member out",
    );
    assert_eq!(
        host.manager.slot_state(ROOM_ID, SLOT_ID),
        None,
        "the slot is unknown again, not open",
    );

    // And a session created afterwards is born unenforced too.
    host.state(vec![
        joined_event("@alice:example.org", SLOT_ID, "alice-a"),
        joined_event("@bob:example.org", "m.call#OTHER", "bob-a"),
    ]);
    assert_eq!(host.count("m.call#OTHER"), Some(1));
}

#[test]
fn forgetting_slots_is_scoped_to_its_room() {
    let mut host = Host::silent();

    host.slots(vec![open_call_slot()]);
    host.manager.on_room_slots_received(
        OTHER_ROOM,
        vec![RawSlotEvent {
            room_id: OTHER_ROOM.to_owned(),
            ..open_call_slot()
        }],
    );

    host.manager.forget_room_slots(ROOM_ID);

    assert_eq!(host.manager.slot_state(ROOM_ID, SLOT_ID), None);
    assert!(host
        .manager
        .slot_state(OTHER_ROOM, SLOT_ID)
        .is_some_and(|state| state.is_open()));
}

#[test]
fn slot_state_is_scoped_to_its_room() {
    let mut host = Host::silent();

    host.slots(vec![open_call_slot()]);

    assert!(host.manager.slot_state(ROOM_ID, SLOT_ID).is_some());
    assert_eq!(host.manager.slot_state(OTHER_ROOM, SLOT_ID), None);
}

/// A slot event of another room says nothing about this one.
#[test]
fn slot_events_of_another_room_are_passed_over() {
    let mut host = Host::silent();
    host.slots(vec![RawSlotEvent {
        room_id: OTHER_ROOM.to_owned(),
        ..open_call_slot()
    }]);
    assert_eq!(
        host.manager.slot_state(ROOM_ID, SLOT_ID),
        Some(SlotState::Closed)
    );
    assert_eq!(host.manager.slot_state(OTHER_ROOM, SLOT_ID), None);
}

#[test]
fn members_who_left_the_room_are_not_joined() {
    let mut host = Host::silent();

    host.state(vec![
        joined_event("@alice:example.org", SLOT_ID, "alice-a"),
        joined_event("@bob:example.org", SLOT_ID, "bob-a"),
    ]);
    assert_eq!(host.count(SLOT_ID), Some(2));

    // Bob is no longer in the room, though his member event is still sticky.
    host.manager
        .on_room_members_received(ROOM_ID, vec!["@alice:example.org".to_owned()]);

    assert_eq!(host.count(SLOT_ID), Some(1));
}

#[test]
fn cleartext_member_events_are_left_in_an_encrypted_room() {
    let mut host = Host::silent();

    let encrypted = RawStickyEvent {
        origin: EventOrigin::encrypted(Some("ALICEDEV".to_owned())),
        ..joined_event("@alice:example.org", SLOT_ID, "alice-a")
    };
    let cleartext = RawStickyEvent {
        origin: EventOrigin::Cleartext,
        ..joined_event("@bob:example.org", SLOT_ID, "bob-a")
    };

    host.state(vec![encrypted, cleartext]);
    // Nothing has reported the room's encryption yet, so neither is judged.
    assert_eq!(host.count(SLOT_ID), Some(2));

    host.manager.on_room_encryption_received(ROOM_ID, true);
    assert_eq!(host.count(SLOT_ID), Some(1));
}

#[test]
fn cleartext_member_events_are_fine_in_an_unencrypted_room() {
    let mut host = Host::silent();

    host.state(vec![RawStickyEvent {
        origin: EventOrigin::Cleartext,
        ..joined_event("@bob:example.org", SLOT_ID, "bob-a")
    }]);
    host.manager.on_room_encryption_received(ROOM_ID, false);

    assert_eq!(host.count(SLOT_ID), Some(1));
}

#[test]
fn unencrypted_slot_closes_in_an_encrypted_room() {
    let mut host = Host::silent();

    host.slots(vec![open_call_slot()]);
    host.state(vec![joined_event("@alice:example.org", SLOT_ID, "alice-a")]);
    assert_eq!(host.count(SLOT_ID), Some(1));

    host.manager.on_room_encryption_received(ROOM_ID, true);

    assert_eq!(
        host.manager.slot_state(ROOM_ID, SLOT_ID),
        Some(SlotState::Closed)
    );
    assert_eq!(host.count(SLOT_ID), Some(0));
}

#[test]
fn slot_resolution_reacts_to_room_encryption_in_either_order() {
    // Encryption first, then the slot.
    let mut a = Host::silent();
    a.manager.on_room_encryption_received(ROOM_ID, true);
    a.slots(vec![encrypted_call_slot()]);
    assert!(a.manager.slot_state(ROOM_ID, SLOT_ID).unwrap().is_open());

    // Slot first, then encryption.
    let mut b = Host::silent();
    b.slots(vec![encrypted_call_slot()]);
    b.manager.on_room_encryption_received(ROOM_ID, true);
    assert!(b.manager.slot_state(ROOM_ID, SLOT_ID).unwrap().is_open());
}

/// Joins with a preference of our own on media keys, then lets bob in.
fn join_and_let_in_a_peer(host: &mut Host, manage_media_keys: bool) {
    host.join(JoinSessionParams {
        encryption_config: Some(EncryptionConfig {
            manage_media_keys,
            ..EncryptionConfig::default()
        }),
        ..alice("alice-a")
    })
    .expect("join should succeed");
    host.let_in("@bob:example.org", "BOBDEV", "bob-a");
}

#[test]
fn slot_encryption_turns_key_distribution_on() {
    let mut host = Host::encrypted_call();

    // Local config asks for NO keys; the slot must override it upward.
    join_and_let_in_a_peer(&mut host, false);

    assert!(
        !host.to_device.is_empty(),
        "keys should be distributed when the slot prescribes a mechanism"
    );
}

#[test]
fn absent_slot_encryption_turns_key_distribution_off() {
    let mut host = Host::new();
    host.manager.on_room_encryption_received(ROOM_ID, false);
    host.slots(vec![open_call_slot()]);

    // Local config asks for keys; the slot must override it downward.
    join_and_let_in_a_peer(&mut host, true);

    assert!(
        host.to_device.is_empty(),
        "no keys should be distributed when the slot prescribes no mechanism"
    );
}

fn recorder(can_subscribe: Vec<String>) -> JoinSessionParams {
    JoinSessionParams::with_transport_intent(
        "@recorder:example.org".to_owned(),
        "RECORDERDEV".to_owned(),
        ROOM_ID.to_owned(),
        SLOT_ID.to_owned(),
        "m.call".to_owned(),
        TransportIntent::ReceiveOnly { can_subscribe },
    )
}

#[test]
fn a_receive_only_member_joins_and_publishes_nothing() {
    let mut host = Host::new();
    host.join(recorder(vec!["livekit".to_owned()]))
        .expect("join should succeed");

    let (_, content, _) = host.sticky.first().expect("a join should have been sent");
    let published = content.get_in("transports", "published").and_then(Json::items);
    assert!(published.is_none_or(|published| published.is_empty()));
    let can_subscribe = content
        .get_in("transports", "can_subscribe")
        .and_then(Json::items)
        .expect("can_subscribe");
    assert_eq!(can_subscribe[0].as_text(), Some("livekit"));
    assert_eq!(
        content.get_in("member", "membership").and_then(Json::as_text),
        Some("join")
    );
}

#[test]
fn a_receive_only_member_with_no_cue_omits_transports() {
    let mut host = Host::new();
    host.join(recorder(Vec::new())).expect("join should succeed");

    let (_, content, _) = host.sticky.first().expect("a join should have been sent");
    assert!(content.get("transports").is_none());
}

#[test]
fn a_publishing_member_advertises_its_transport() {
    let mut host = Host::new();
    host.join(JoinSessionParams::new(
        "@alice:example.org".to_owned(),
        "ALICEDEV".to_owned(),
        ROOM_ID.to_owned(),
        SLOT_ID.to_owned(),
        "m.call".to_owned(),
        RtcTransport::LiveKit(LiveKitTransport {
            livekit_service_url: "https://sfu.example.com/jwt".to_owned(),
        }),
    ))
    .expect("join should succeed");

    let (_, content, _) = host.sticky.first().expect("a join should have been sent");
    let published = content
        .get_in("transports", "published")
        .and_then(Json::items)
        .expect("published");
    assert_eq!(
        published[0].text_at("livekit_service_url"),
        Some("https://sfu.example.com/jwt")
    );
    let can_subscribe = content
        .get_in("transports", "can_subscribe")
        .and_then(Json::items)
        .expect("can_subscribe");
    assert_eq!(can_subscribe[0].as_text(), Some("livekit"));
}

/// Each join takes a member id of its own.
#[test]
fn joins_take_fresh_member_ids() {
    let mut ids = Vec::new();
    for _ in 0..2 {
        let mut host = Host::new();
        host.join(recorder(Vec::new())).expect("join should succeed");
        ids.push(
            host.manager
                .own_member_id(ROOM_ID, SLOT_ID)
                .expect("we are in the session"),
        );
    }
    assert_ne!(ids[0], ids[1]);
    assert!(ids.iter().all(|id| id.len() == 32));
}

#[test]
fn a_join_without_a_sender_is_refused() {
    let mut host = Host::silent();
    assert_eq!(
        host.join(alice("alice-a")),
        Err(JoinError::CommandError(CommandError::SendError(
            "no command sender configured".to_string()
        )))
    );
    assert_eq!(host.manager.session_count(), 0);
}

#[test]
fn a_join_with_a_parameter_missing_is_refused() {
    let mut host = Host::new();
    let mut params = alice("alice-a");
    params.device_id = String::new();
    assert_eq!(
        host.join(params),
        Err(JoinError::InvalidParams("device_id is required"))
    );
    assert_eq!(host.manager.own_member_id(ROOM_ID, SLOT_ID), None);
}

#[test]
fn a_join_that_is_not_published_changes_nothing() {
    let mut host = Host::new();
    host.fail_sticky = true;
    assert_eq!(
        host.join(alice("alice-a")),
        Err(JoinError::CommandError(CommandError::SendError(
            "sticky send rejected".to_string()
        )))
    );
    assert_eq!(host.manager.own_member_id(ROOM_ID, SLOT_ID), None);
}

#[test]
fn leaving_an_unknown_session_is_refused() {
    let mut host = Host::new();
    assert_eq!(
        host.leave(LeaveSessionParams::new()),
        Err(LeaveError::CommandError(CommandError::SendError(
            "session not found".to_string()
        )))
    );
}

#[test]
fn a_leave_that_is_not_published_can_be_tried_again() {
    let mut host = Host::new();
    host.join(alice("alice-a")).expect("join should succeed");
    host.fail_sticky = true;
    assert_eq!(
        host.leave(LeaveSessionParams::new()),
        Err(LeaveError::CommandError(CommandError::SendError(
            "sticky send rejected".to_string()
        )))
    );
    assert!(host.cancelled.is_empty());

    host.fail_sticky = false;
    assert_eq!(host.leave(LeaveSessionParams::new()), Ok(()));
    assert_eq!(host.cancelled, vec!["delay-1"]);
}

/// A member event that cannot be read refuses the whole update.
#[test]
fn malformed_membership_changes_nothing() {
    let mut host = Host::silent();
    host.state(vec![joined_event("@alice:example.org", SLOT_ID, "alice-a")]);

    let malformed = joined_event("@bob:example.org", "", "bob-a");
    let applied = host
        .manager
        .set_current_sticky_state(ROOM_ID, vec![malformed]);
    assert!(matches!(
        applied,
        Err(EventConversionError::MissingField { .. })
    ));
    assert_eq!(host.members(), vec!["alice-a"]);
}

/// A key names a room and no slot, so every session of the room is offered it.
#[test]
fn keys_reach_every_session_of_their_room() {
    let mut host = Host::encrypted_call();
    host.join(alice("alice-a")).expect("join should succeed");
    host.join(JoinSessionParams {
        slot_id: "m.call#OTHER".to_owned(),
        ..alice("alice-b")
    })
    .expect("join should succeed");
    host.let_in("@bob:example.org", "BOBDEV", "bob-a");
    assert!(host.manager.set_encryption_signal_handler(ROOM_ID, SLOT_ID));
    assert!(!host.manager.set_encryption_signal_handler(OTHER_ROOM, SLOT_ID));

    let key = |key_b64: String, room_id: &str| ReceivedEncryptionKey {
        origin: KeyOrigin::Encrypted {
            sender_user_id: "@bob:example.org".to_string(),
            sender_device_id: Some("BOBDEV".to_string()),
            sender_is_cross_signed: true,
        },
        room_id: room_id.to_string(),
        member_id: "bob-a".to_string(),
        key_b64,
        key_index: 0,
    };
    let encoded = general_purpose::STANDARD.encode([7u8; 32]);

    let (events, outcome) = host
        .manager
        .receive_encryption_key(key(encoded.clone(), OTHER_ROOM), host.now);
    assert!(events.is_empty());
    assert_eq!(outcome, Ok(()));

    let (events, outcome) = host
        .manager
        .receive_encryption_key(key(encoded, ROOM_ID), host.now);
    assert_eq!(outcome, Ok(()));
    assert_eq!(events.len(), 1, "only one of the two sessions is listened to");
    assert_eq!(events[0].at, 0);
    assert!(matches!(&events[0].event, KeyEvent::Usable(signal) if signal.key == vec![7u8; 32]));
    // The other session does not know bob, so it holds the key until it does.
    let held: Vec<(usize, usize)> = host
        .manager
        .sessions
        .iter()
        .map(|entry| {
            let keys = &entry.session.own.as_ref().expect("joined").keys;
            (
                keys.get_inbound_keys("bob-a").len(),
                keys.keys_without_membership.len(),
            )
        })
        .collect();
    assert_eq!(held, vec![(1, 0), (0, 1)]);

    let replayed = host
        .manager
        .replay_encryption_keys(ROOM_ID, SLOT_ID, host.now)
        .expect("joined");
    assert_eq!(replayed.len(), 2, "our own key and bob's");

    let (_, outcome) = host
        .manager
        .receive_encryption_key(key("!!!".to_string(), ROOM_ID), host.now);
    assert!(outcome.is_err(), "a key that is no base64");
}

/// A rotation that a departure owes falls due, and not before.
#[test]
fn a_deferred_rotation_falls_due() {
    let mut host = Host::encrypted_call();
    assert_eq!(
        host.manager.flush_due_key_rotation(ROOM_ID, SLOT_ID, host.now),
        None,
        "we are not in the session"
    );
    host.join(alice("alice-a")).expect("join should succeed");
    host.let_in("@bob:example.org", "BOBDEV", "bob-a");
    host.state(Vec::new());
    let due_at = host
        .manager
        .key_rotation_due_at_ms(ROOM_ID, SLOT_ID)
        .expect("bob has left with our key");
    assert_eq!(
        host.manager.flush_due_key_rotation(ROOM_ID, SLOT_ID, due_at - 1),
        Some(false)
    );
    assert_eq!(
        host.manager.flush_due_key_rotation(ROOM_ID, SLOT_ID, due_at),
        Some(true)
    );
}

#[test]
fn slots_are_opened_under_the_right_name_only() {
    let manager = RtcSessionManager::with_command_sender();
    let encryption = || {
        Some(SlotEncryption {
            mechanism: EncryptionMechanism::PerMember,
        })
    };
    let command = manager
        .open_slot(
            ROOM_ID.to_string(),
            SLOT_ID.to_string(),
            "m.call".to_string(),
            encryption(),
        )
        .expect("the slot belongs to the application");
    let RtcCommand::SendState {
        event_type,
        state_key,
        content,
        ..
    } = command
    else {
        panic!("opening a slot sets room state");
    };
    assert_eq!(event_type, "m.rtc.slot");
    assert_eq!(state_key, SLOT_ID);
    assert_eq!(content.text_at("status"), Some("open"));

    assert_eq!(
        manager
            .open_slot(
                ROOM_ID.to_string(),
                "other#ROOM".to_string(),
                "m.call".to_string(),
                None
            )
            .err(),
        Some(CommandError::SendError(
            "slot id 'other#ROOM' does not match application type 'm.call': \
             MSC4143 requires the state key to be '{application_type}#{slot}'"
                .to_string()
        ))
    );
    assert_eq!(
        RtcSessionManager::new()
            .close_slot(ROOM_ID.to_string(), SLOT_ID.to_string())
            .err(),
        Some(CommandError::SendError(
            "no command sender configured".to_string()
        ))
    );
    let RtcCommand::SendState { content, .. } = manager
        .close_slot(ROOM_ID.to_string(), SLOT_ID.to_string())
        .expect("there is a sender")
    else {
        panic!("closing a slot sets room state");
    };
    assert_eq!(content.text_at("status"), Some("closed"));
}
