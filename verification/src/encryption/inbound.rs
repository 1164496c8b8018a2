//! The keys of other participants: verified, stored and signalled.
//!
//! A key is accepted only if the message that carried it came, encrypted, from
//! the very user and device that published the membership it names. One whose
//! membership is not known yet is held, with its provenance, and checked once the
//! membership arrives.

use vstd::prelude::*;
use crate::encoding::{base64_decode, base64_decoded};
use crate::encryption::outbound::{find_membership, membership_of};
use crate::encryption::types::{
    copy_bytes, filter_key, recent_entries, InboundEncryptionKey, InboundKeyView, KeyOrigin,
    KeyRejection, PendingInboundKey, ReceivedEncryptionKey,
};
use crate::encryption::{
    inbound_views, one_key_per_index, DiscardedKey, EncryptionManager, KeySubject, PendingSignal,
    SignalView, SubjectView,
};
use crate::error::CommandError;
use crate::event::EventOrigin;
use crate::seqs::lemma_take_all;
use crate::session::JoinedMembership;
use crate::text::{joined, text_of};

verus! {

/// Something the application has to be told about another participant's key.
#[derive(Debug)]
pub enum KeyEvent {
    /// The key can be used from now on.
    Usable(PendingSignal),
    /// A key was received and refused.
    Refused(DiscardedKey),
}

/// Model of a [`DiscardedKey`].
#[verifier::ext_equal]
pub struct DiscardedView {
    /// The member the key claimed to be for.
    pub member_id: Seq<char>,
    /// The key's index.
    pub key_index: Option<u8>,
    /// The user the message was attributed to.
    pub sender_user_id: Option<Seq<char>>,
    /// The device it was attributed to.
    pub sender_device_id: Option<Seq<char>>,
    /// Why it was refused.
    pub reason: KeyRejection,
}

impl View for DiscardedKey {
    type V = DiscardedView;

    open spec fn view(&self) -> DiscardedView {
        DiscardedView {
            member_id: self.member_id@,
            key_index: self.key_index,
            sender_user_id: text_of(self.sender_user_id),
            sender_device_id: text_of(self.sender_device_id),
            reason: self.reason,
        }
    }
}

/// The report of a key of `member_id` that came from `origin` and was refused.
pub open spec fn discarded(
    member_id: Seq<char>,
    key_index: u8,
    origin: KeyOrigin,
    reason: KeyRejection,
) -> DiscardedView {
    match origin {
        KeyOrigin::Encrypted { sender_user_id, sender_device_id, .. } => DiscardedView {
            member_id,
            key_index: Some(key_index),
            sender_user_id: Some(sender_user_id@),
            sender_device_id: text_of(sender_device_id),
            reason,
        },
        KeyOrigin::Cleartext => DiscardedView {
            member_id,
            key_index: Some(key_index),
            sender_user_id: None,
            sender_device_id: None,
            reason,
        },
    }
}

/// Model of a [`KeyEvent`].
#[verifier::ext_equal]
pub enum EventView {
    /// The key can be used from now on.
    Usable(SignalView),
    /// A key was received and refused.
    Refused(DiscardedView),
}

impl View for KeyEvent {
    type V = EventView;

    open spec fn view(&self) -> EventView {
        match self {
            KeyEvent::Usable(signal) => EventView::Usable(signal@),
            KeyEvent::Refused(discarded) => EventView::Refused(discarded@),
        }
    }
}

/// The model of an event, where there is one.
pub open spec fn event_view(event: Option<KeyEvent>) -> Option<EventView> {
    match event {
        Some(event) => Some(event@),
        None => None,
    }
}

/// The models of a list of events.
pub open spec fn event_views(events: Seq<KeyEvent>) -> Seq<EventView> {
    events.map_values(|event: KeyEvent| event@)
}

/// Model of a [`PendingInboundKey`].
#[verifier::ext_equal]
pub struct PendingView {
    /// The key.
    pub key: InboundKeyView,
    /// How it reached us.
    pub origin: KeyOrigin,
}

/// The models of a list of held keys.
pub open spec fn pending_views(pending: Seq<PendingInboundKey>) -> Seq<PendingView> {
    pending.map_values(
        |pending: PendingInboundKey| PendingView { key: pending.key@, origin: pending.origin },
    )
}

/// What is known of other participants' keys.
#[verifier::ext_equal]
pub struct InboundView {
    /// The keys held, by member id.
    pub keys: Map<Seq<char>, Seq<InboundKeyView>>,
    /// The newest time seen per member and index.
    pub seen: Map<Seq<char>, u64>,
    /// The keys whose member event has not arrived yet.
    pub waiting: Seq<PendingView>,
}

/// Where a list holds the key of an index; its length where it holds none.
pub open spec fn index_position(keys: Seq<InboundKeyView>, key_index: u8) -> int
    decreases keys.len(),
{
    if keys.len() == 0 || keys[0].key_index == key_index {
        0
    } else {
        1 + index_position(keys.drop_first(), key_index)
    }
}

/// A list holds the key of an index where the first key of that index stands.
pub proof fn lemma_index_position(keys: Seq<InboundKeyView>, key_index: u8, at: int)
    requires
        0 <= at <= keys.len(),
        forall|i: int| 0 <= i < at ==> (#[trigger] keys[i]).key_index != key_index,
        at < keys.len() ==> keys[at].key_index == key_index,
    ensures
        index_position(keys, key_index) == at,
    decreases keys.len(),
{
    if keys.len() > 0 && keys[0].key_index != key_index {
        let rest = keys.drop_first();
        assert forall|i: int| 0 <= i < at - 1 implies (#[trigger] rest[i]).key_index
            != key_index by {
            assert(rest[i] == keys[i + 1]);
        }
        assert(at >= 1);
        lemma_index_position(rest, key_index, at - 1);
    }
}

/// A list of keys once `key` is stored in it: a different key of the same index
/// is replaced, and one of a new index is added.
pub open spec fn with_key(keys: Seq<InboundKeyView>, key: InboundKeyView) -> Seq<InboundKeyView> {
    let at = index_position(keys, key.key_index);
    if at < keys.len() {
        keys.update(at, key)
    } else {
        keys.push(key)
    }
}

/// Whether a list already holds the very same key material at `key`'s index.
pub open spec fn already_held(keys: Seq<InboundKeyView>, key: InboundKeyView) -> bool {
    let at = index_position(keys, key.key_index);
    at < keys.len() && keys[at].key == key.key
}

/// Why a key message that came from `origin` may not speak for `membership`;
/// `None` if it may.
pub open spec fn membership_refusal(
    origin: KeyOrigin,
    membership: JoinedMembership,
) -> Option<KeyRejection> {
    match origin {
        KeyOrigin::Cleartext => Some(KeyRejection::Cleartext),
        KeyOrigin::Encrypted { sender_user_id, sender_device_id, .. } => {
            if sender_user_id@ != membership.sender@ {
                Some(
                    KeyRejection::SenderMismatch {
                        expected: membership.sender,
                        actual: sender_user_id,
                    },
                )
            } else {
                match membership.origin {
                    EventOrigin::Unknown => None,
                    EventOrigin::Cleartext => Some(KeyRejection::UnverifiableDevice),
                    EventOrigin::Encrypted { sender_device_id: None } => Some(
                        KeyRejection::UnverifiableDevice,
                    ),
                    EventOrigin::Encrypted { sender_device_id: Some(expected) } => device_refusal(
                        expected,
                        sender_device_id,
                    ),
                    EventOrigin::Claimed { device_id } => device_refusal(
                        device_id,
                        sender_device_id,
                    ),
                }
            }
        },
    }
}

/// Why a key from device `actual` may not speak for device `expected`.
pub open spec fn device_refusal(expected: String, actual: Option<String>) -> Option<KeyRejection> {
    if text_of(actual) == Some(expected@) {
        None
    } else {
        Some(KeyRejection::DeviceMismatch { expected, actual })
    }
}

/// The signal that another participant's key is usable.
pub open spec fn inbound_signal(key: InboundKeyView, membership: JoinedMembership) -> EventView {
    EventView::Usable(
        SignalView {
            key: key.key,
            key_index: key.key_index,
            subject: SubjectView::peer(membership),
            use_after_ms: 0,
        },
    )
}

impl InboundView {
    /// The keys held for a member.
    pub open spec fn held(self, member_id: Seq<char>) -> Seq<InboundKeyView> {
        if self.keys.contains_key(member_id) {
            self.keys[member_id]
        } else {
            Seq::empty()
        }
    }

    /// What becomes of a key of `membership` that came from `origin`: refused,
    /// dropped as outdated, ignored as already held, or stored.
    pub open spec fn accept(
        self,
        ttl_ms: u64,
        key: InboundKeyView,
        origin: KeyOrigin,
        membership: JoinedMembership,
    ) -> (InboundView, Option<EventView>) {
        match membership_refusal(origin, membership) {
            Some(reason) => (
                self,
                Some(
                    EventView::Refused(discarded(key.member_id, key.key_index, origin, reason)),
                ),
            ),
            None => {
                let recent = recent_entries(self.seen, key.creation_ts, ttl_ms);
                let slot = filter_key(key.member_id, key.key_index);
                if recent.contains_key(slot) && recent[slot] > key.creation_ts {
                    (InboundView { seen: recent, ..self }, None)
                } else {
                    let seen = recent.insert(slot, key.creation_ts);
                    let held = self.held(key.member_id);
                    if already_held(held, key) {
                        (InboundView { seen, ..self }, None)
                    } else {
                        (
                            InboundView {
                                seen,
                                keys: self.keys.insert(key.member_id, with_key(held, key)),
                                ..self
                            },
                            Some(inbound_signal(key, membership)),
                        )
                    }
                }
            },
        }
    }

    /// What becomes of held keys, in order, once `memberships` are known.
    pub open spec fn settle(
        self,
        ttl_ms: u64,
        pending: Seq<PendingView>,
        memberships: Seq<JoinedMembership>,
    ) -> (InboundView, Seq<EventView>)
        decreases pending.len(),
    {
        if pending.len() == 0 {
            (InboundView { waiting: Seq::empty(), ..self }, Seq::empty())
        } else {
            let (earlier, events) = self.settle(ttl_ms, pending.drop_last(), memberships);
            let next = pending.last();
            match find_membership(memberships, next.key.member_id) {
                Some(membership) => {
                    let (after, event) = earlier.accept(
                        ttl_ms,
                        next.key,
                        next.origin,
                        membership,
                    );
                    (
                        after,
                        match event {
                            Some(event) => events.push(event),
                            None => events,
                        },
                    )
                },
                None => (
                    InboundView { waiting: earlier.waiting.push(next), ..earlier },
                    events,
                ),
            }
        }
    }
}

/// Checks a key message against the member event it claims: both must have been
/// sent by the same user from the same device.
pub fn verify_against_membership(origin: &KeyOrigin, membership: &JoinedMembership) -> (verified:
    Result<(), KeyRejection>)
    ensures
        match verified {
            Ok(()) => membership_refusal(*origin, *membership) is None,
            Err(reason) => membership_refusal(*origin, *membership) == Some(reason),
        },
{
    let (user, device): (&String, &Option<String>) = match origin {
        KeyOrigin::Encrypted { sender_user_id, sender_device_id, .. } => (
            sender_user_id,
            sender_device_id,
        ),
        KeyOrigin::Cleartext => {
            return Err(KeyRejection::Cleartext);
        },
    };
    if *user != membership.sender {
        return Err(
            KeyRejection::SenderMismatch {
                expected: membership.sender.clone(),
                actual: user.clone(),
            },
        );
    }
    let expected: &String = match &membership.origin {
        EventOrigin::Encrypted { sender_device_id: Some(device) } => device,
        EventOrigin::Claimed { device_id } => device_id,
        EventOrigin::Unknown => {
            return Ok(());
        },
        _ => {
            return Err(KeyRejection::UnverifiableDevice);
        },
    };
    match device {
        Some(actual) => if *actual == *expected {
            Ok(())
        } else {
            Err(
                KeyRejection::DeviceMismatch {
                    expected: expected.clone(),
                    actual: Some(actual.clone()),
                },
            )
        },
        None => Err(KeyRejection::DeviceMismatch { expected: expected.clone(), actual: None }),
    }
}

impl EncryptionManager {
    /// What is known of other participants' keys.
    pub open spec fn inbound(self) -> InboundView {
        InboundView {
            keys: self.inbound_keys@.map_values(
                |keys: Vec<InboundEncryptionKey>| inbound_views(keys@),
            ),
            seen: self.key_buffer.buffer@,
            waiting: pending_views(self.keys_without_membership@),
        }
    }

    /// Whether `after` differs from this manager in other participants' keys at
    /// most.
    pub open spec fn same_but_inbound(self, after: EncryptionManager) -> bool {
        &&& after == (EncryptionManager {
            inbound_keys: after.inbound_keys,
            key_buffer: after.key_buffer,
            keys_without_membership: after.keys_without_membership,
            ..self
        })
        &&& after.key_buffer.buffer_ttl_ms == self.key_buffer.buffer_ttl_ms
    }

    /// Whether the application is told of key material: something listens, and
    /// media keys are managed.
    pub open spec fn tells_keys(self) -> bool {
        self.has_signal_handler && self.config.manage_media_keys
    }

    /// Whether the application is told of key material.
    pub fn signals_key_material(&self) -> (yes: bool)
        ensures
            yes == self.tells_keys(),
    {
        self.has_signal_handler && self.config.manage_media_keys
    }

    /// Whether the application is told of an event: of a refusal while anything
    /// listens, and of a usable key only if media keys are managed as well.
    pub open spec fn hears(self, event: EventView) -> bool {
        match event {
            EventView::Usable(_) => self.tells_keys(),
            EventView::Refused(_) => self.has_signal_handler,
        }
    }

    /// An event as the application hears of it, where it does.
    pub open spec fn heard(self, event: Option<EventView>) -> Option<EventView> {
        match event {
            Some(event) => if self.hears(event) {
                Some(event)
            } else {
                None
            },
            None => None,
        }
    }

    /// Why a key message is refused before its member event is looked at; `None`
    /// if it is not.
    pub open spec fn origin_refusal(self, key: ReceivedEncryptionKey) -> Option<KeyRejection> {
        if key.room_id@ != self.room_id@ {
            Some(KeyRejection::RoomMismatch { claimed: key.room_id })
        } else {
            match key.origin {
                KeyOrigin::Cleartext => Some(KeyRejection::Cleartext),
                KeyOrigin::Encrypted { sender_is_cross_signed, .. } => {
                    if self.config.require_cross_signed_sender && !sender_is_cross_signed {
                        Some(KeyRejection::NotCrossSigned)
                    } else {
                        None
                    }
                },
            }
        }
    }

    /// Checks the parts of a key message that do not depend on the membership.
    fn verify_origin(&self, key: &ReceivedEncryptionKey) -> (verified: Result<(), KeyRejection>)
        ensures
            match verified {
                Ok(()) => self.origin_refusal(*key) is None,
                Err(reason) => self.origin_refusal(*key) == Some(reason),
            },
    {
        if key.room_id != self.room_id {
            return Err(KeyRejection::RoomMismatch { claimed: key.room_id.clone() });
        }
        match &key.origin {
            KeyOrigin::Cleartext => Err(KeyRejection::Cleartext),
            KeyOrigin::Encrypted { sender_is_cross_signed, .. } => {
                if self.config.require_cross_signed_sender && !*sender_is_cross_signed {
                    Err(KeyRejection::NotCrossSigned)
                } else {
                    Ok(())
                }
            },
        }
    }

    /// Reports a refused key, if anything listens.
    fn discard(
        &self,
        member_id: &str,
        key_index: u8,
        origin: &KeyOrigin,
        reason: KeyRejection,
    ) -> (event: Option<KeyEvent>)
        ensures
            event_view(event) == self.heard(
                Some(EventView::Refused(discarded(member_id@, key_index, *origin, reason))),
            ),
    {
        if self.has_signal_handler {
            Some(
                KeyEvent::Refused(DiscardedKey::new(member_id, Some(key_index), origin, reason)),
            )
        } else {
            None
        }
    }

    /// Stores a verified key: at most one per index, holding the newest material
    /// seen for it. A key that is already held is neither stored nor signalled
    /// again.
    fn add_key_to_participant(
        &mut self,
        key: InboundEncryptionKey,
        membership: &JoinedMembership,
    ) -> (event: Option<KeyEvent>)
        requires
            old(self).wf(),
        ensures
            final(self).wf(),
            *final(self) == (EncryptionManager {
                inbound_keys: final(self).inbound_keys,
                ..*old(self)
            }),
            ({
                let held = old(self).inbound().held(key@.member_id);
                if already_held(held, key@) {
                    event is None && final(self).inbound() == old(self).inbound()
                } else {
                    &&& final(self).inbound().keys == old(self).inbound().keys.insert(
                        key@.member_id,
                        with_key(held, key@),
                    )
                    &&& event_view(event) == old(self).heard(Some(inbound_signal(key@, *membership)))
                }
            }),
    {
        let ghost before = *self;
        let member_id: String = key.member_id.clone();
        let mut held: Vec<InboundEncryptionKey> = self.get_inbound_keys(member_id.as_str());
        let ghost views = inbound_views(held@);
        proof {
            assert(views =~= before.inbound().held(member_id@));
            if before.inbound_keys@.contains_key(member_id@) {
                lemma_one_key_per_index(before.inbound_keys@[member_id@]@, held@);
            }
        }
        assert(one_key_per_index(held@));
        let mut at: usize = 0;
        while at < held.len() && held[at].key_index != key.key_index
            invariant
                at <= held@.len(),
                forall|i: int| 0 <= i < at ==> (#[trigger] held@[i]).key_index != key.key_index,
            decreases held@.len() - at,
        {
            at = at + 1;
        }
        proof {
            assert forall|i: int| 0 <= i < at implies (#[trigger] views[i]).key_index
                != key.key_index by {
                assert(views[i] == held@[i]@);
            }
            lemma_index_position(views, key.key_index, at as int);
        }
        if at < held.len() {
            if same_bytes(&held[at].key, &key.key) {
                return None;
            }
            let copy: InboundEncryptionKey = key.clone();
            held.set(at, copy);
            assert(inbound_views(held@) =~= views.update(at as int, key@));
        } else {
            let copy: InboundEncryptionKey = key.clone();
            held.push(copy);
            assert(inbound_views(held@) =~= views.push(key@));
        }
        let ghost stored = held@;
        self.inbound_keys.insert(member_id, held);
        proof {
            assert(self.inbound().keys =~= before.inbound().keys.insert(
                key@.member_id,
                with_key(views, key@),
            ));
        }
        if self.signals_key_material() {
            Some(
                KeyEvent::Usable(
                    PendingSignal {
                        key: copy_bytes(&key.key),
                        key_index: key.key_index,
                        subject: KeySubject::peer(membership),
                        use_after_ms: 0,
                    },
                ),
            )
        } else {
            None
        }
    }

    /// Verifies a key against its member event and, if it passes, stores it.
    ///
    /// The filter for outdated keys only sees keys that pass, so a refused key
    /// cannot suppress the genuine one.
    pub fn accept_verified_key(
        &mut self,
        key: InboundEncryptionKey,
        origin: &KeyOrigin,
        membership: &JoinedMembership,
    ) -> (event: Option<KeyEvent>)
        requires
            old(self).wf(),
        ensures
            final(self).wf(),
            old(self).same_but_inbound(*final(self)),
            ({
                let (after, outcome) = old(self).inbound().accept(
                    old(self).key_buffer.buffer_ttl_ms,
                    key@,
                    *origin,
                    *membership,
                );
                final(self).inbound() == after && event_view(event) == old(self).heard(outcome)
            }),
            final(self).keys_without_membership == old(self).keys_without_membership,
    {
        match verify_against_membership(origin, membership) {
            Ok(()) => {},
            Err(reason) => {
                return self.discard(key.member_id.as_str(), key.key_index, origin, reason);
            },
        }
        self.key_buffer.cleanup(key.creation_ts);
        let outdated: bool = self.key_buffer.check_and_add(
            key.member_id.clone(),
            key.key_index,
            key.creation_ts,
        );
        if outdated {
            return None;
        }
        self.add_key_to_participant(key, membership)
    }
}

/// Whether two byte strings are the same.
fn same_bytes(a: &Vec<u8>, b: &Vec<u8>) -> (same: bool)
    ensures
        same == (a@ == b@),
{
    if a.len() != b.len() {
        return false;
    }
    let mut i: usize = 0;
    while i < a.len()
        invariant
            i <= a@.len() == b@.len(),
            forall|j: int| 0 <= j < i ==> a@[j] == b@[j],
        decreases a@.len() - i,
    {
        if a[i] != b[i] {
            return false;
        }
        i = i + 1;
    }
    assert(a@ =~= b@);
    true
}

proof fn lemma_one_key_per_index(a: Seq<InboundEncryptionKey>, b: Seq<InboundEncryptionKey>)
    requires
        one_key_per_index(a),
        inbound_views(a) == inbound_views(b),
    ensures
        one_key_per_index(b),
{
    assert(inbound_views(a).len() == a.len() && inbound_views(b).len() == b.len());
    assert forall|i: int| 0 <= i < b.len() implies (#[trigger] b[i]).key_index
        == a[i].key_index by {
        assert(inbound_views(a)[i] == inbound_views(b)[i]);
    }
}

/// What the words of a key message that cannot be decoded are.
pub open spec fn undecodable(words: Seq<char>) -> Seq<char> {
    "Failed to decode key: "@ + words
}

impl EncryptionManager {
    /// A received key once its material was decoded.
    pub open spec fn received_key(
        self,
        received: ReceivedEncryptionKey,
        bytes: Seq<u8>,
        now: u64,
    ) -> InboundKeyView {
        InboundKeyView {
            key: bytes,
            key_index: received.key_index,
            member_id: received.member_id@,
            creation_ts: now,
        }
    }

    /// Whether receiving a key whose material decodes to `decoded` leads to
    /// `after` and `outcome`.
    pub open spec fn received(
        self,
        received: ReceivedEncryptionKey,
        decoded: Result<Seq<u8>, Seq<char>>,
        memberships: Seq<JoinedMembership>,
        now: u64,
        after: EncryptionManager,
        outcome: Result<Option<KeyEvent>, CommandError>,
    ) -> bool {
        match self.origin_refusal(received) {
            Some(reason) => {
                &&& after == self
                &&& outcome matches Ok(event) && event_view(event) == self.heard(
                    Some(
                        EventView::Refused(
                            discarded(
                                received.member_id@,
                                received.key_index,
                                received.origin,
                                reason,
                            ),
                        ),
                    ),
                )
            },
            None => match decoded {
                Err(words) => {
                    &&& after == self
                    &&& outcome matches Err(CommandError::SendError(message)) && message@
                        == undecodable(words)
                },
                Ok(bytes) => {
                    let key = self.received_key(received, bytes, now);
                    &&& self.same_but_inbound(after)
                    &&& match find_membership(memberships, received.member_id@) {
                        Some(membership) => {
                            let (inbound, event) = self.inbound().accept(
                                self.key_buffer.buffer_ttl_ms,
                                key,
                                received.origin,
                                membership,
                            );
                            &&& after.inbound() == inbound
                            &&& outcome matches Ok(told) && event_view(told) == self.heard(event)
                        },
                        None => {
                            &&& after.inbound() == (InboundView {
                                waiting: self.inbound().waiting.push(
                                    PendingView { key, origin: received.origin },
                                ),
                                ..self.inbound()
                            })
                            &&& outcome matches Ok(None)
                        },
                    }
                },
            },
        }
    }

    /// Receives a key from a to-device message.
    ///
    /// A key that fails a check is discarded, which is no error; one whose member
    /// event is not known yet is held until it is. No key is signalled before it
    /// has been verified, and none at all where media keys are not managed.
    pub fn receive_key(
        &mut self,
        received: ReceivedEncryptionKey,
        memberships: &Vec<JoinedMembership>,
        now: u64,
    ) -> (outcome: Result<Option<KeyEvent>, CommandError>)
        requires
            old(self).wf(),
        ensures
            final(self).wf(),
            old(self).received(
                received,
                base64_decoded(received.key_b64@),
                memberships@,
                now,
                *final(self),
                outcome,
            ),
    {
        let decoded: Result<Vec<u8>, String> = base64_decode(received.key_b64.as_str());
        self.receive_decoded_key(received, decoded, memberships, now)
    }

    /// Receives a key whose material was decoded already.
    pub fn receive_decoded_key(
        &mut self,
        received: ReceivedEncryptionKey,
        decoded: Result<Vec<u8>, String>,
        memberships: &Vec<JoinedMembership>,
        now: u64,
    ) -> (outcome: Result<Option<KeyEvent>, CommandError>)
        requires
            old(self).wf(),
        ensures
            final(self).wf(),
            old(self).received(
                received,
                decoding(decoded),
                memberships@,
                now,
                *final(self),
                outcome,
            ),
    {
        match self.verify_origin(&received) {
            Ok(()) => {},
            Err(reason) => {
                return Ok(
                    self.discard(
                        received.member_id.as_str(),
                        received.key_index,
                        &received.origin,
                        reason,
                    ),
                );
            },
        }
        let bytes: Vec<u8> = match decoded {
            Ok(bytes) => bytes,
            Err(words) => {
                return Err(
                    CommandError::SendError(joined("Failed to decode key: ", words.as_str())),
                );
            },
        };
        let key = InboundEncryptionKey {
            key: bytes,
            key_index: received.key_index,
            member_id: received.member_id.clone(),
            creation_ts: now,
        };
        match membership_of(memberships, received.member_id.as_str()) {
            Some(membership) => Ok(self.accept_verified_key(key, &received.origin, membership)),
            None => {
                let ghost before = *self;
                self.keys_without_membership.push(
                    PendingInboundKey { key, origin: received.origin },
                );
                assert(self.inbound().waiting =~= before.inbound().waiting.push(
                    PendingView { key: key@, origin: received.origin },
                ));
                Ok(None)
            },
        }
    }

    /// The events a list amounts to, as the application hears of them.
    pub open spec fn heard_all(self, events: Seq<EventView>) -> Seq<EventView> {
        events.filter(|event: EventView| self.hears(event))
    }

    proof fn lemma_heard_next(self, events: Seq<EventView>, event: EventView)
        ensures
            self.heard_all(events.push(event)) == (match self.heard(Some(event)) {
                Some(heard) => self.heard_all(events).push(heard),
                None => self.heard_all(events),
            }),
    {
        reveal(Seq::filter);
        assert(events.push(event).drop_last() =~= events);
    }

    /// Checks held keys against the memberships that are known by now. Those
    /// whose member event is still missing stay held, in order.
    pub fn check_keys_without_membership(&mut self, memberships: &Vec<JoinedMembership>) -> (events:
        Vec<KeyEvent>)
        requires
            old(self).wf(),
        ensures
            final(self).wf(),
            old(self).same_but_inbound(*final(self)),
            ({
                let (after, told) = old(self).inbound().settle(
                    old(self).key_buffer.buffer_ttl_ms,
                    old(self).inbound().waiting,
                    memberships@,
                );
                final(self).inbound() == after && event_views(events@) == old(self).heard_all(told)
            }),
    {
        let ghost before = *self;
        let ghost ttl = self.key_buffer.buffer_ttl_ms;
        let mut pending: Vec<PendingInboundKey> = Vec::new();
        std::mem::swap(&mut pending, &mut self.keys_without_membership);
        let ghost whole = pending_views(pending@);
        let mut events: Vec<KeyEvent> = Vec::new();
        proof {
            assert(whole == before.inbound().waiting);
            assert(whole.take(0) =~= Seq::<PendingView>::empty());
            assert(self.inbound().waiting =~= Seq::<PendingView>::empty());
            assert(event_views(events@) =~= Seq::<EventView>::empty());
            reveal(Seq::filter);
            assert(before.heard_all(Seq::empty()) =~= Seq::<EventView>::empty());
        }
        for next in iter: pending
            invariant
                pending_views(iter.seq()) == whole,
                self.wf(),
                before.same_but_inbound(*self),
                ttl == before.key_buffer.buffer_ttl_ms,
                ({
                    let (after, told) = before.inbound().settle(
                        ttl,
                        whole.take(iter.index()),
                        memberships@,
                    );
                    self.inbound() == after && event_views(events@) == before.heard_all(told)
                }),
        {
            let ghost earlier = *self;
            let ghost index = iter.index();
            let ghost here = PendingView { key: next.key@, origin: next.origin };
            proof {
                assert(whole.take(index + 1).drop_last() =~= whole.take(index));
                assert(whole.take(index + 1).last() == whole[index]);
                assert(whole[index] == here);
            }
            let PendingInboundKey { key, origin } = next;
            match membership_of(memberships, key.member_id.as_str()) {
                Some(membership) => {
                    proof {
                        let (_, told) = before.inbound().settle(
                            ttl,
                            whole.take(index),
                            memberships@,
                        );
                        let (_, outcome) = earlier.inbound().accept(
                            ttl,
                            key@,
                            origin,
                            *membership,
                        );
                        match outcome {
                            Some(event) => {
                                before.lemma_heard_next(told, event);
                            },
                            None => {},
                        }
                        assert(earlier.heard(outcome) == before.heard(outcome));
                    }
                    match self.accept_verified_key(key, &origin, membership) {
                        Some(event) => {
                            let ghost told = events@;
                            events.push(event);
                            assert(event_views(events@) =~= event_views(told).push(event@));
                        },
                        None => {},
                    }
                },
                None => {
                    self.keys_without_membership.push(PendingInboundKey { key, origin });
                    assert(self.inbound().waiting =~= earlier.inbound().waiting.push(here));
                },
            }
        }
        proof {
            lemma_take_all(whole);
        }
        events
    }
}

/// A decoding outcome, by what it holds.
pub open spec fn decoding(decoded: Result<Vec<u8>, String>) -> Result<Seq<u8>, Seq<char>> {
    match decoded {
        Ok(bytes) => Ok(bytes@),
        Err(words) => Err(words@),
    }
}

} // verus!
