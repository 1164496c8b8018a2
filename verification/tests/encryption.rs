//! Media keys, from the first join to the last rotation.

use base64::engine::general_purpose;
use base64::Engine;
use matrix_rtc::commands::{RtcCommand, ToDeviceDelivery};
use matrix_rtc::encryption::inbound::KeyEvent;
use matrix_rtc::encryption::types::{
    EncryptionConfig, KeyMaterialSignal, KeyOrigin, KeyRejection, ParticipantDeviceInfo,
    ReceivedEncryptionKey,
};
use matrix_rtc::encryption::{DiscardedKey, EncryptionManager, PendingSignal};
use matrix_rtc::error::CommandError;
use matrix_rtc::event::EventOrigin;
use matrix_rtc::json::Json;
use matrix_rtc::session::JoinedMembership;

const ROOM_ID: &str = "!room:example.org";
const SLOT_ID: &str = "m.call#ROOM";
const USER_ID: &str = "@alice:example.org";
const DEVICE_ID: &str = "device123";
const MEMBER_ID: &str = "alice-device123-uuid";
const BOB: &str = "bob-device456-uuid";

fn bob_membership() -> JoinedMembership {
    JoinedMembership {
        room_id: ROOM_ID.to_string(),
        slot_id: SLOT_ID.to_string(),
        sender: "@bob:example.org".to_string(),
        origin: EventOrigin::encrypted(Some("device456".to_string())),
        sticky_key: BOB.to_string(),
        member_id: BOB.to_string(),
        membership_event_id: None,
        membership_ts: None,
        application: Some("m.call".to_string()),
        transports: Vec::new(),
        can_subscribe: Vec::new(),
    }
}

fn bob_since(membership_ts: u64) -> JoinedMembership {
    JoinedMembership {
        membership_ts: Some(membership_ts),
        ..bob_membership()
    }
}

fn carol_membership() -> JoinedMembership {
    JoinedMembership {
        sender: "@carol:example.org".to_string(),
        origin: EventOrigin::encrypted(Some("CAROLDEV".to_string())),
        sticky_key: "carol-a".to_string(),
        member_id: "carol-a".to_string(),
        ..bob_membership()
    }
}

fn bob_key(key: Vec<u8>, index: u8) -> ReceivedEncryptionKey {
    ReceivedEncryptionKey {
        origin: KeyOrigin::Encrypted {
            sender_user_id: "@bob:example.org".to_string(),
            sender_device_id: Some("device456".to_string()),
            sender_is_cross_signed: true,
        },
        room_id: ROOM_ID.to_string(),
        member_id: BOB.to_string(),
        key_b64: general_purpose::STANDARD.encode(key),
        key_index: index,
    }
}

/// Carries a manager's decisions out against a network that records them.
struct Host {
    manager: EncryptionManager,
    memberships: Vec<JoinedMembership>,
    now: u64,
    /// Users whose devices cannot be reached.
    unreachable: Vec<String>,
    /// Who was addressed, and with what.
    sent: Vec<(String, String, Json)>,
    signals: Vec<KeyMaterialSignal>,
    discarded: Vec<DiscardedKey>,
    mapped: bool,
}

impl Host {
    fn new(memberships: Vec<JoinedMembership>) -> Host {
        Host {
            manager: EncryptionManager::new(
                USER_ID.to_string(),
                DEVICE_ID.to_string(),
                MEMBER_ID.to_string(),
                ROOM_ID.to_string(),
                SLOT_ID.to_string(),
            ),
            memberships,
            now: 1_700_000_000_000,
            unreachable: Vec::new(),
            sent: Vec::new(),
            signals: Vec::new(),
            discarded: Vec::new(),
            mapped: false,
        }
    }

    fn listening(memberships: Vec<JoinedMembership>) -> Host {
        let mut host = Host::new(memberships);
        host.manager.set_signal_handler();
        host
    }

    fn join(&mut self) {
        self.manager.join(self.now);
    }

    fn advance(&mut self, ms: u64) {
        self.now += ms;
    }

    fn signal(&mut self, signal: PendingSignal) {
        let mapped = if self.mapped {
            Some(format!(
                "mapped:{}/{}/{}",
                signal.subject.user_id, signal.subject.device_id, signal.subject.member_id
            ))
        } else {
            None
        };
        self.signals.push(signal.into_signal(mapped));
    }

    fn tell(&mut self, event: KeyEvent) {
        match event {
            KeyEvent::Usable(signal) => self.signal(signal),
            KeyEvent::Refused(discarded) => self.discarded.push(discarded),
        }
    }

    fn send(
        &mut self,
        key: &Vec<u8>,
        key_index: u8,
        targets: &Vec<ParticipantDeviceInfo>,
    ) -> Vec<ParticipantDeviceInfo> {
        let Some(send) =
            self.manager
                .send_key_to_participants(key, key_index, targets, &self.memberships)
        else {
            return Vec::new();
        };
        let RtcCommand::SendToDevice {
            recipients,
            content,
            ..
        } = send.command()
        else {
            panic!("a key goes out as a to-device message");
        };
        let mut deliveries = Vec::new();
        for recipient in recipients {
            self.sent.push((
                recipient.user_id.clone(),
                recipient.device_id.clone(),
                content.clone(),
            ));
            deliveries.push(if self.unreachable.contains(&recipient.user_id) {
                ToDeviceDelivery::failed(recipient, "no olm session")
            } else {
                ToDeviceDelivery::sent(recipient)
            });
        }
        send.served(Ok(deliveries))
    }

    fn rollout(&mut self) {
        let Some(rollout) = self
            .manager
            .rollout_outbound_key(&self.memberships, self.now)
        else {
            return;
        };
        let served = self.send(&rollout.key, rollout.key_index, &rollout.plan.recipients);
        let arrivals = rollout.arrivals_needing_key_in_use(&served);
        if let Some(in_use) = &rollout.plan.still_in_use {
            if !arrivals.is_empty() {
                self.send(&in_use.key, in_use.key_index, &arrivals);
            }
        }
        if let Some(signal) = self.manager.finish_rollout(rollout, served, self.now) {
            self.signal(signal);
        }
    }

    fn distribute(&mut self) {
        if !self.manager.ensure_key_distribution() {
            return;
        }
        loop {
            self.rollout();
            if !self.manager.end_distribution() {
                return;
            }
        }
    }

    fn update(&mut self) {
        let update = self
            .manager
            .on_memberships_update(&self.memberships, self.now);
        for event in update.events {
            self.tell(event);
        }
        if let Some(signal) = update.own_signal {
            self.signal(signal);
        }
        if update.distribute {
            self.distribute();
        }
    }

    fn flush(&mut self) {
        if self.manager.flush_due_rotation(self.now) {
            self.distribute();
        }
    }

    fn receive(&mut self, key: ReceivedEncryptionKey) {
        let heard = self
            .manager
            .receive_key(key, &self.memberships, self.now)
            .expect("a discarded key is not an error");
        if let Some(event) = heard {
            self.tell(event);
        }
    }

    fn replay(&mut self) {
        for signal in self
            .manager
            .replay_keys_to_handler(&self.memberships, self.now)
        {
            self.signal(signal);
        }
    }

    fn index(&self) -> Option<u8> {
        self.manager.get_outbound_key().map(|key| key.key_index)
    }

    fn recipients(&self) -> Vec<(String, String)> {
        self.sent
            .iter()
            .map(|(user_id, device_id, _)| (user_id.clone(), device_id.clone()))
            .collect()
    }

    /// The key indices a device was sent, in order.
    fn indices_sent_to(&self, user: &str, device: &str) -> Vec<u64> {
        self.sent
            .iter()
            .filter(|(user_id, device_id, _)| user_id == user && device_id == device)
            .map(|(_, _, content)| {
                content
                    .get("media_key")
                    .and_then(|key| key.number_at("index"))
                    .expect("the key message carries an index")
            })
            .collect()
    }
}

fn assert_discarded(host: &mut Host, key: ReceivedEncryptionKey) {
    let member_id = key.member_id.clone();
    host.receive(key);
    assert!(
        host.manager.get_inbound_keys(&member_id).is_empty(),
        "key should have been discarded"
    );
}

#[test]
fn keys_held_before_a_handler_exists_are_replayed_on_attach() {
    let mut host = Host::new(vec![bob_membership()]);
    host.join();
    host.receive(bob_key(vec![7u8; 32], 0));

    host.manager.set_signal_handler();
    assert!(host.signals.is_empty(), "installing a handler must not itself signal");

    host.replay();

    assert_eq!(host.signals.len(), 2, "our own key and bob's");
    assert!(host.signals.iter().all(|signal| signal.use_after_ms == 0));
    assert!(host.signals.iter().any(|signal| signal.key == vec![7u8; 32]));
}

#[test]
fn a_key_index_is_signalled_once_however_often_memberships_update() {
    let mut host = Host::listening(Vec::new());
    host.join();

    for _ in 0..3 {
        host.update();
    }

    assert_eq!(host.signals.len(), 1);
    assert_eq!(host.signals[0].key_index, 0);
    assert_eq!(
        host.signals[0].use_after_ms, 0,
        "the first key must be usable at once, or nothing can be encrypted"
    );
}

#[test]
fn a_departure_rotates_so_the_next_arrival_gets_the_live_key() {
    let mut host = Host::listening(vec![bob_membership()]);
    host.join();

    // Bob is in the call and gets index 0.
    host.update();
    let index_bob_got = *host
        .indices_sent_to("@bob:example.org", "device456")
        .last()
        .expect("bob should have been sent a key");

    // The call settles, so bob's departure is answered at once.
    host.advance(EncryptionConfig::default().key_rotation_grace_period_ms);

    // Bob leaves. Nobody is left.
    host.memberships.clear();
    host.update();
    assert_ne!(
        host.index(),
        Some(index_bob_got as u8),
        "the departed member's key must be retired"
    );

    // Carol arrives while that key is still fresh, so it is reused.
    host.memberships = vec![carol_membership()];
    host.update();

    let sent_to_carol = host.indices_sent_to("@carol:example.org", "CAROLDEV");
    assert_eq!(sent_to_carol.len(), 1);
    assert_ne!(
        sent_to_carol[0], index_bob_got,
        "the key bob held must not be reused for carol"
    );
    assert_eq!(
        host.index(),
        Some(sent_to_carol[0] as u8),
        "we must encrypt with exactly the index carol was handed"
    );
}

#[test]
fn a_rotation_nobody_can_decrypt_is_usable_at_once() {
    let mut host = Host::listening(vec![bob_membership()]);
    host.manager.set_config(EncryptionConfig {
        key_rotation_grace_period_ms: 0,
        ..EncryptionConfig::default()
    });
    let settled = EncryptionConfig::default().delay_before_use_ms;
    host.join();

    // Bob is here and holds our key.
    host.update();
    host.advance(settled);

    // Carol joins alongside him, so the rotation must wait.
    host.memberships.push(carol_membership());
    host.update();
    assert_eq!(
        host.signals.last().expect("a signal").use_after_ms,
        EncryptionConfig::default().delay_before_use_ms,
        "bob still holds the outgoing key"
    );

    // Now everyone leaves and, later, carol arrives alone.
    host.advance(settled);
    host.memberships.clear();
    host.update();
    host.advance(settled);
    host.memberships = vec![carol_membership()];
    host.update();

    assert_eq!(
        host.signals.last().expect("a signal").use_after_ms,
        0,
        "nobody present holds the outgoing key"
    );
}

#[test]
fn a_departure_keeps_the_delay_that_protects_the_members_who_stay() {
    let mut host = Host::listening(vec![bob_membership(), carol_membership()]);
    host.join();
    host.update();
    host.advance(EncryptionConfig::default().key_rotation_grace_period_ms);

    // Carol leaves. Bob is still here and still holds the outgoing key.
    host.memberships
        .retain(|membership| membership.member_id != "carol-a");
    host.update();

    assert_eq!(
        host.signals.last().expect("a signal").use_after_ms,
        EncryptionConfig::default().delay_before_use_ms,
    );
}

#[test]
fn a_departure_pulls_the_expiry_in_and_it_is_collected_then() {
    let mut host = Host::new(vec![bob_membership(), carol_membership()]);
    host.join();
    host.update();
    let lifetime = EncryptionConfig::default().max_key_lifetime_ms;
    assert_eq!(
        host.manager.rotation_due_at_ms(),
        Some(host.now + lifetime),
        "with nobody gone, the key expires on its lifetime cap and nothing sooner"
    );

    // Bob leaves while the key is fresh, so the rotation is owed, not made.
    let held = host.index();
    host.memberships
        .retain(|membership| membership.member_id != BOB);
    host.update();
    assert_eq!(host.index(), held);

    // Carol leaves too, inside the same window: still one rotation owed.
    host.advance(100);
    host.memberships.clear();
    host.update();
    assert_eq!(host.index(), held);
    let due_at = host
        .manager
        .rotation_due_at_ms()
        .expect("a key always has an expiry");
    assert!(due_at < host.now + lifetime);

    // Collecting early changes nothing; collecting once due rotates.
    host.flush();
    assert_eq!(host.index(), held, "the expiry has not arrived yet");

    host.advance(due_at - host.now + 1);
    host.flush();
    assert_ne!(host.index(), held);
    assert_eq!(
        host.manager.rotation_due_at_ms(),
        Some(host.now + lifetime),
        "the replacement expires on the lifetime cap again"
    );
}

#[test]
fn a_rejoin_under_the_same_member_id_is_resent_the_current_key() {
    let mut host = Host::new(vec![bob_since(1_000)]);
    host.join();
    host.update();
    let first_index = host.index();
    assert_eq!(
        host.indices_sent_to("@bob:example.org", "device456").len(),
        1
    );

    // Bob's client dies; the key is fresh, so the rotation is deferred.
    host.memberships.clear();
    host.update();
    assert_eq!(host.index(), first_index);

    // Bob rejoins under the same member id, with a new start.
    host.advance(2_000);
    host.memberships = vec![bob_since(3_000)];
    host.update();
    assert_eq!(
        host.indices_sent_to("@bob:example.org", "device456").len(),
        2,
        "the rejoined session holds no keys and must be re-sent the current one"
    );
    assert_eq!(host.index(), first_index);

    // The rotation owed to the earlier departure still falls due.
    host.advance(EncryptionConfig::default().key_rotation_grace_period_ms);
    host.flush();
    assert_ne!(host.index(), first_index);
    assert_eq!(
        host.indices_sent_to("@bob:example.org", "device456").len(),
        3,
        "the rotation must hand the rejoined session the replacement key"
    );
}

#[test]
fn a_rejoin_no_feed_ever_saw_leave_is_still_served() {
    let mut host = Host::new(vec![bob_since(1_000)]);
    host.join();
    host.update();

    host.memberships = vec![bob_since(4_000)];
    host.update();

    assert_eq!(
        host.indices_sent_to("@bob:example.org", "device456").len(),
        2
    );
}

#[test]
fn a_membership_refresh_with_an_unchanged_timestamp_distributes_nothing() {
    let mut host = Host::new(vec![bob_since(1_000)]);
    host.join();
    for _ in 0..3 {
        host.update();
    }

    assert_eq!(
        host.indices_sent_to("@bob:example.org", "device456").len(),
        1
    );
}

#[test]
fn an_arrival_is_handed_the_key_we_keep_encrypting_with() {
    let mut host = Host::listening(vec![bob_membership()]);
    host.manager.set_config(EncryptionConfig {
        key_rotation_grace_period_ms: 0,
        ..EncryptionConfig::default()
    });
    host.join();
    host.update();
    host.advance(EncryptionConfig::default().delay_before_use_ms);

    let index_in_use = host.index().expect("we hold a key");

    host.memberships.push(carol_membership());
    host.update();

    let signal = host.signals.last().expect("a signal");
    assert_eq!(
        signal.use_after_ms,
        EncryptionConfig::default().delay_before_use_ms,
        "bob holds the outgoing key, so the switch waits for him"
    );
    let sent_to_carol = host.indices_sent_to("@carol:example.org", "CAROLDEV");
    assert!(sent_to_carol.contains(&(signal.key_index as u64)));
    assert!(sent_to_carol.contains(&(index_in_use as u64)));
}

#[test]
fn an_identical_key_redelivery_is_not_reimported() {
    let mut host = Host::listening(vec![bob_membership()]);
    host.receive(bob_key(vec![7u8; 32], 0));
    host.receive(bob_key(vec![7u8; 32], 0));

    assert_eq!(host.signals.len(), 1, "an identical key was imported twice");
    assert_eq!(host.manager.get_inbound_keys(BOB).len(), 1);
}

#[test]
fn a_different_key_at_the_same_index_is_still_imported() {
    let mut host = Host::listening(vec![bob_membership()]);
    host.receive(bob_key(vec![7u8; 32], 0));
    host.receive(bob_key(vec![9u8; 32], 0));

    assert_eq!(host.signals.len(), 2);
}

#[test]
fn replayed_keys_use_the_installed_identity_mapper() {
    let mut host = Host::new(vec![bob_membership()]);
    host.join();
    host.receive(bob_key(vec![7u8; 32], 0));

    host.manager.set_signal_handler();
    host.mapped = true;
    host.replay();

    let identities: Vec<String> = host
        .signals
        .iter()
        .map(|signal| signal.rtc_backend_identity.clone())
        .collect();
    assert!(identities.contains(&format!("mapped:{USER_ID}/{DEVICE_ID}/{MEMBER_ID}")));
    assert!(
        identities.contains(&"mapped:@bob:example.org/device456/bob-device456-uuid".to_string())
    );
}

#[test]
fn replaying_without_a_handler_is_a_no_op() {
    let mut host = Host::new(Vec::new());
    host.join();
    host.replay();
    assert!(host.signals.is_empty());
}

#[test]
fn test_manager_join_creates_first_key() {
    let mut host = Host::new(Vec::new());
    host.join();

    let key = host.manager.get_outbound_key().expect("a key");
    assert_eq!(key.key_index, 0);
    assert_eq!(key.key.len(), 32);
    assert!(key.creation_ts > 0);
}

#[test]
fn test_key_index_increments() {
    let mut host = Host::new(Vec::new());
    host.join();
    assert_eq!(host.index(), Some(0));

    let now = host.now;
    assert_eq!(host.manager.create_new_outbound_key(now).key_index, 1);
    assert_eq!(host.manager.create_new_outbound_key(now).key_index, 2);
}

#[test]
fn test_key_index_wraps() {
    let mut host = Host::new(Vec::new());
    let now = host.now;

    // Create 256 keys, next should wrap to 0
    for _ in 0..256 {
        host.manager.create_new_outbound_key(now);
    }

    assert_eq!(host.manager.create_new_outbound_key(now).key_index, 0);
}

#[test]
fn test_receive_key_stores_inbound() {
    let mut host = Host::new(vec![bob_membership()]);
    host.receive(bob_key(vec![1u8; 32], 0));

    let keys = host.manager.get_inbound_keys(BOB);
    assert_eq!(keys.len(), 1);
    assert_eq!(keys[0].key_index, 0);
    assert_eq!(keys[0].key, vec![1u8; 32]);
}

#[test]
fn a_rekey_at_the_same_index_replaces_the_key_we_held() {
    let mut host = Host::new(vec![bob_membership()]);
    host.receive(bob_key(vec![1u8; 32], 1));
    host.receive(bob_key(vec![2u8; 32], 1));

    let keys = host.manager.get_inbound_keys(BOB);
    assert_eq!(keys.len(), 1, "an index should not accumulate keys");
    assert_eq!(keys[0].key_index, 1);
    assert_eq!(keys[0].key, vec![2u8; 32], "the rekey should have won");
}

#[test]
fn a_refused_key_is_reported_with_its_reason() {
    let mut host = Host::listening(vec![bob_membership()]);
    let mut key = bob_key(vec![1u8; 32], 3);
    key.origin = KeyOrigin::Encrypted {
        sender_user_id: "@bob:example.org".to_string(),
        sender_device_id: Some("device456".to_string()),
        sender_is_cross_signed: false,
    };
    host.receive(key);

    assert_eq!(
        host.discarded,
        vec![DiscardedKey {
            member_id: BOB.to_string(),
            key_index: Some(3),
            sender_user_id: Some("@bob:example.org".to_string()),
            sender_device_id: Some("device456".to_string()),
            reason: KeyRejection::NotCrossSigned,
        }],
    );
    assert!(
        host.signals.is_empty(),
        "a refused key must not also be signalled as usable"
    );
}

#[test]
fn a_key_from_the_wrong_device_is_reported_with_its_reason() {
    let mut host = Host::listening(vec![bob_membership()]);
    let mut key = bob_key(vec![1u8; 32], 0);
    key.origin = KeyOrigin::Encrypted {
        sender_user_id: "@bob:example.org".to_string(),
        sender_device_id: Some("SOMEOTHERDEV".to_string()),
        sender_is_cross_signed: true,
    };
    host.receive(key);

    assert_eq!(host.discarded.len(), 1);
    assert_eq!(
        host.discarded[0].sender_device_id.as_deref(),
        Some("SOMEOTHERDEV")
    );
    assert!(matches!(
        host.discarded[0].reason,
        KeyRejection::DeviceMismatch { .. }
    ));
}

#[test]
fn cleartext_key_is_discarded() {
    let mut host = Host::new(vec![bob_membership()]);
    let mut key = bob_key(vec![1u8; 32], 0);
    key.origin = KeyOrigin::Cleartext;
    assert_discarded(&mut host, key);
}

#[test]
fn key_from_wrong_user_is_discarded() {
    let mut host = Host::new(vec![bob_membership()]);
    let mut key = bob_key(vec![1u8; 32], 0);
    key.origin = KeyOrigin::Encrypted {
        sender_user_id: "@mallory:example.org".to_string(),
        sender_device_id: Some("device456".to_string()),
        sender_is_cross_signed: true,
    };
    assert_discarded(&mut host, key);
}

#[test]
fn key_from_wrong_device_is_discarded() {
    let mut host = Host::new(vec![bob_membership()]);
    let mut key = bob_key(vec![1u8; 32], 0);
    key.origin = KeyOrigin::Encrypted {
        sender_user_id: "@bob:example.org".to_string(),
        sender_device_id: Some("someOtherDevice".to_string()),
        sender_is_cross_signed: true,
    };
    assert_discarded(&mut host, key);
}

#[test]
fn key_is_discarded_when_the_member_event_has_no_attributable_device() {
    let mut host = Host::new(vec![JoinedMembership {
        origin: EventOrigin::encrypted(None),
        ..bob_membership()
    }]);
    assert_discarded(&mut host, bob_key(vec![1u8; 32], 0));
}

#[test]
fn key_is_discarded_when_the_member_event_was_cleartext() {
    let mut host = Host::new(vec![JoinedMembership {
        origin: EventOrigin::Cleartext,
        ..bob_membership()
    }]);
    assert_discarded(&mut host, bob_key(vec![1u8; 32], 0));
}

#[test]
fn key_is_checked_against_a_claimed_device() {
    let claimed = |device_id: &str| {
        Host::new(vec![JoinedMembership {
            origin: EventOrigin::claimed(device_id),
            ..bob_membership()
        }])
    };

    let mut host = claimed("device456");
    host.receive(bob_key(vec![1u8; 32], 0));
    assert_eq!(host.manager.get_inbound_keys(BOB).len(), 1);

    assert_discarded(&mut claimed("someOtherDevice"), bob_key(vec![1u8; 32], 0));
}

#[test]
fn key_is_accepted_when_the_member_events_origin_is_unreported() {
    let mut host = Host::new(vec![JoinedMembership {
        origin: EventOrigin::Unknown,
        ..bob_membership()
    }]);
    host.receive(bob_key(vec![1u8; 32], 0));
    assert_eq!(host.manager.get_inbound_keys(BOB).len(), 1);
}

#[test]
fn key_from_non_cross_signed_device_is_discarded_when_required() {
    let mut host = Host::new(vec![bob_membership()]);
    let mut key = bob_key(vec![1u8; 32], 0);
    key.origin = KeyOrigin::Encrypted {
        sender_user_id: "@bob:example.org".to_string(),
        sender_device_id: Some("device456".to_string()),
        sender_is_cross_signed: false,
    };
    assert_discarded(&mut host, key);
}

#[test]
fn key_from_non_cross_signed_device_is_accepted_when_not_required() {
    let mut host = Host::new(vec![bob_membership()]);
    host.manager.set_config(EncryptionConfig {
        require_cross_signed_sender: false,
        ..EncryptionConfig::default()
    });
    let mut key = bob_key(vec![1u8; 32], 0);
    key.origin = KeyOrigin::Encrypted {
        sender_user_id: "@bob:example.org".to_string(),
        sender_device_id: Some("device456".to_string()),
        sender_is_cross_signed: false,
    };
    host.receive(key);

    assert_eq!(host.manager.get_inbound_keys(BOB).len(), 1);
}

#[test]
fn key_for_another_room_is_discarded() {
    let mut host = Host::new(vec![bob_membership()]);
    let mut key = bob_key(vec![1u8; 32], 0);
    key.room_id = "!other:example.org".to_string();
    assert_discarded(&mut host, key);
}

#[test]
fn buffered_key_is_verified_when_membership_arrives() {
    let mut host = Host::new(Vec::new());

    // One key from Bob's device, one from an impostor; neither can be checked yet.
    let mut impostor = bob_key(vec![9u8; 32], 0);
    impostor.origin = KeyOrigin::Encrypted {
        sender_user_id: "@mallory:example.org".to_string(),
        sender_device_id: Some("device456".to_string()),
        sender_is_cross_signed: true,
    };
    host.receive(impostor);
    host.receive(bob_key(vec![1u8; 32], 1));
    assert!(host.manager.get_inbound_keys(BOB).is_empty());

    host.memberships = vec![bob_membership()];
    host.update();

    let keys = host.manager.get_inbound_keys(BOB);
    assert_eq!(keys.len(), 1, "only the genuine key should survive");
    assert_eq!(keys[0].key, vec![1u8; 32]);
}

#[test]
fn discarded_key_does_not_block_the_genuine_one() {
    let mut host = Host::new(vec![bob_membership()]);
    let mut impostor = bob_key(vec![9u8; 32], 0);
    impostor.origin = KeyOrigin::Encrypted {
        sender_user_id: "@mallory:example.org".to_string(),
        sender_device_id: Some("device456".to_string()),
        sender_is_cross_signed: true,
    };
    host.receive(impostor);
    host.receive(bob_key(vec![1u8; 32], 0));

    let keys = host.manager.get_inbound_keys(BOB);
    assert_eq!(keys.len(), 1);
    assert_eq!(keys[0].key, vec![1u8; 32]);
}

#[test]
fn distributed_key_declares_msc4143_format() {
    let mut host = Host::new(vec![bob_membership()]);
    host.join();
    host.update();

    let (_, _, content) = host.sent.first().expect("a key should have been sent");
    assert_eq!(content.number_at("format"), Some(0));
    assert!(content.get("version").is_none());
}

/// What goes out is the key itself, in base64: whoever decodes it holds our key.
#[test]
fn distributed_key_decodes_to_the_key_we_hold() {
    let mut host = Host::new(vec![bob_membership()]);
    host.join();
    host.update();

    let (_, _, content) = host.sent.first().expect("a key should have been sent");
    let key_b64 = content
        .get("media_key")
        .and_then(|key| key.text_at("key"))
        .expect("the key message carries the key");
    let held = host.manager.get_outbound_key().expect("a key").key.clone();
    assert_eq!(general_purpose::STANDARD.decode(key_b64), Ok(held));
    assert_eq!(content.text_at("room_id"), Some(ROOM_ID));
    assert_eq!(content.text_at("member_id"), Some(MEMBER_ID));
}

/// What one participant sends is what another ends up holding.
#[test]
fn a_sent_key_is_held_by_its_receiver() {
    let mut alice = Host::new(vec![bob_membership()]);
    alice.join();
    alice.update();
    let (user_id, device_id, content) = alice.sent.first().expect("a key should have been sent");
    assert_eq!((user_id.as_str(), device_id.as_str()), ("@bob:example.org", "device456"));
    let media_key = content.get("media_key").expect("a key");
    let received = ReceivedEncryptionKey {
        origin: KeyOrigin::Encrypted {
            sender_user_id: USER_ID.to_string(),
            sender_device_id: Some(DEVICE_ID.to_string()),
            sender_is_cross_signed: true,
        },
        room_id: content.text_at("room_id").expect("a room").to_string(),
        member_id: content.text_at("member_id").expect("a member").to_string(),
        key_b64: media_key.text_at("key").expect("a key").to_string(),
        key_index: media_key.number_at("index").expect("an index") as u8,
    };

    let mut bob = EncryptionManager::new(
        "@bob:example.org".to_string(),
        "device456".to_string(),
        BOB.to_string(),
        ROOM_ID.to_string(),
        SLOT_ID.to_string(),
    );
    let memberships = vec![JoinedMembership {
        sender: USER_ID.to_string(),
        origin: EventOrigin::encrypted(Some(DEVICE_ID.to_string())),
        member_id: MEMBER_ID.to_string(),
        sticky_key: MEMBER_ID.to_string(),
        ..bob_membership()
    }];
    bob.receive_key(received, &memberships, alice.now)
        .expect("the key decodes");
    let held = bob.get_inbound_keys(MEMBER_ID);
    let ours = alice.manager.get_outbound_key().expect("our key");
    assert_eq!(held.len(), 1);
    assert_eq!(held[0].key, ours.key);
    assert_eq!(held[0].key_index, ours.key_index);
}

/// A key that is no base64 is a failure of the sender, not a refusal.
#[test]
fn undecodable_key_is_an_error() {
    let mut host = Host::new(vec![bob_membership()]);
    let mut key = bob_key(vec![1u8; 32], 0);
    key.key_b64 = "!!!".to_string();
    let outcome = host.manager.receive_key(key, &host.memberships, host.now);
    assert!(matches!(
        outcome,
        Err(CommandError::SendError(text)) if text.starts_with("Failed to decode key: ")
    ));
}

#[test]
fn test_leave_cleans_up() {
    let mut host = Host::new(Vec::new());
    host.join();
    assert!(host.manager.get_outbound_key().is_some());

    host.manager.leave();

    assert!(host.manager.get_outbound_key().is_none());
    assert!(host.manager.get_all_inbound_keys().is_empty());
}

#[test]
fn our_own_stale_membership_is_never_a_key_recipient() {
    let ghost = JoinedMembership {
        member_id: "alice-device123-previous-join".to_string(),
        sticky_key: "alice-device123-previous-join".to_string(),
        sender: USER_ID.to_string(),
        origin: EventOrigin::encrypted(Some(DEVICE_ID.to_string())),
        ..bob_membership()
    };
    let mut host = Host::new(vec![ghost, bob_membership()]);
    host.join();
    host.update();

    assert_eq!(
        host.recipients(),
        vec![("@bob:example.org".to_string(), "device456".to_string())],
        "bob is the only real recipient",
    );
}

#[test]
fn another_device_of_our_own_user_still_receives_the_key() {
    let other_device = JoinedMembership {
        member_id: "alice-tablet-uuid".to_string(),
        sticky_key: "alice-tablet-uuid".to_string(),
        sender: USER_ID.to_string(),
        origin: EventOrigin::encrypted(Some("TABLET".to_string())),
        ..bob_membership()
    };
    let mut host = Host::new(vec![other_device]);
    host.join();
    host.update();

    assert_eq!(
        host.recipients(),
        vec![(USER_ID.to_string(), "TABLET".to_string())],
    );
}

#[test]
fn a_membership_with_no_sending_device_is_skipped_not_broadcast() {
    let mut host = Host::new(vec![JoinedMembership {
        origin: EventOrigin::encrypted(None),
        ..bob_membership()
    }]);
    host.join();
    host.update();

    assert!(host.recipients().is_empty());
}

#[test]
fn a_failed_recipient_does_not_abort_the_rollout() {
    let carol = JoinedMembership {
        member_id: "carol-device789-uuid".to_string(),
        sticky_key: "carol-device789-uuid".to_string(),
        sender: "@carol:example.org".to_string(),
        origin: EventOrigin::encrypted(Some("device789".to_string())),
        ..bob_membership()
    };
    let mut host = Host::listening(vec![bob_membership(), carol]);
    host.unreachable.push("@bob:example.org".to_string());
    host.join();
    host.update();

    let attempted: Vec<String> = host.recipients().into_iter().map(|(user, _)| user).collect();
    assert_eq!(attempted, vec!["@bob:example.org", "@carol:example.org"]);
    assert!(host.manager.get_outbound_key().is_some());
    assert!(!host.signals.is_empty());

    let shared_with: Vec<String> = host
        .manager
        .get_outbound_key()
        .expect("the key is stored")
        .shared_with
        .iter()
        .map(|participant| participant.user_id.clone())
        .collect();
    assert_eq!(shared_with, vec!["@carol:example.org"]);

    // Bob was not reached, so he is addressed again, and carol is left alone.
    host.sent.clear();
    host.update();
    let attempted: Vec<String> = host.recipients().into_iter().map(|(user, _)| user).collect();
    assert_eq!(attempted, vec!["@bob:example.org"]);
}

fn unmanaged(memberships: Vec<JoinedMembership>) -> Host {
    let mut host = Host::listening(memberships);
    host.manager.config = EncryptionConfig {
        manage_media_keys: false,
        ..EncryptionConfig::default()
    };
    host
}

#[test]
fn key_material_is_not_signalled_where_media_keys_are_not_managed() {
    let mut host = unmanaged(vec![bob_membership()]);

    let outcome = host
        .manager
        .receive_key(bob_key(vec![1u8; 32], 0), &host.memberships, host.now);

    assert!(matches!(outcome, Ok(None)));
    assert_eq!(host.manager.get_inbound_keys(BOB).len(), 1);
}

#[test]
fn a_key_that_waited_is_not_signalled_where_media_keys_are_not_managed() {
    let mut host = unmanaged(Vec::new());
    host.receive(bob_key(vec![1u8; 32], 0));

    let events = host
        .manager
        .check_keys_without_membership(&vec![bob_membership()]);

    assert!(events.is_empty());
    assert_eq!(host.manager.get_inbound_keys(BOB).len(), 1);
}

#[test]
fn nothing_is_replayed_where_media_keys_are_not_managed() {
    let mut host = unmanaged(vec![bob_membership()]);
    host.join();
    host.receive(bob_key(vec![1u8; 32], 0));
    host.replay();
    assert!(host.signals.is_empty());
}

#[test]
fn a_refused_key_is_reported_even_where_media_keys_are_not_managed() {
    let mut host = unmanaged(vec![bob_membership()]);
    host.receive(ReceivedEncryptionKey {
        origin: KeyOrigin::Cleartext,
        ..bob_key(vec![1u8; 32], 0)
    });
    assert_eq!(host.discarded.len(), 1);
    assert!(matches!(host.discarded[0].reason, KeyRejection::Cleartext));
}

#[test]
fn each_index_holds_the_last_accepted_key_and_each_change_is_signalled_once() {
    let mut host = Host::listening(vec![bob_membership(), carol_membership()]);
    host.receive(bob_key(vec![1u8; 32], 0));
    host.advance(5);
    // The same again: no change.
    host.receive(bob_key(vec![1u8; 32], 0));
    // Refused: no change.
    host.receive(ReceivedEncryptionKey {
        origin: KeyOrigin::Cleartext,
        ..bob_key(vec![9u8; 32], 0)
    });
    host.receive(bob_key(vec![2u8; 32], 0));
    host.receive(bob_key(vec![3u8; 32], 1));
    // Back to what was held first: that is a change too.
    host.receive(bob_key(vec![1u8; 32], 0));

    let held: Vec<(u8, Vec<u8>)> = host
        .manager
        .get_inbound_keys(BOB)
        .into_iter()
        .map(|key| (key.key_index, key.key))
        .collect();
    assert_eq!(held, vec![(0, vec![1u8; 32]), (1, vec![3u8; 32])]);

    let signalled: Vec<(u8, u8, u64)> = host
        .signals
        .iter()
        .map(|signal| (signal.key_index, signal.key[0], signal.use_after_ms))
        .collect();
    assert_eq!(signalled, vec![(0, 1, 0), (0, 2, 0), (1, 3, 0), (0, 1, 0)]);
}

#[test]
fn every_held_key_is_replayed_once() {
    let mut host = Host::listening(vec![bob_membership(), carol_membership()]);
    host.receive(bob_key(vec![1u8; 32], 0));
    host.receive(bob_key(vec![2u8; 32], 1));
    host.receive(ReceivedEncryptionKey {
        origin: KeyOrigin::Encrypted {
            sender_user_id: "@carol:example.org".to_string(),
            sender_device_id: Some("CAROLDEV".to_string()),
            sender_is_cross_signed: true,
        },
        member_id: "carol-a".to_string(),
        ..bob_key(vec![3u8; 32], 0)
    });
    host.signals.clear();

    host.replay();

    let mut replayed: Vec<u8> = host.signals.iter().map(|signal| signal.key[0]).collect();
    replayed.sort();
    assert_eq!(replayed, vec![1, 2, 3]);
}
