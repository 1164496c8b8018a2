//! Media key management for a session.
//!
//! The manager mints our own key, decides who has to be sent it and when it has
//! to be replaced, and verifies and stores the keys of other participants. It
//! owns no clock, no timer and no network: every step takes the current time and
//! the current memberships, and says what to send or to signal.

use vstd::prelude::*;
use crate::encryption::types::{
    EncryptionConfig, InboundEncryptionKey, InboundKeyView, KeyMaterialSignal, KeyOrigin,
    KeyRejection, OutboundEncryptionKey, OutboundKeyView, OutdatedKeyFilter, ParticipantDeviceInfo,
    PendingInboundKey,
};
use crate::random::{drawn, random_bytes};
use crate::session::JoinedMembership;
use crate::table::TextMap;
use crate::text::joined_with;

pub mod inbound;
pub mod laws;
pub mod outbound;
pub mod rollouts;
pub mod rotation;
pub mod signals;
pub mod trust;
pub mod types;
pub mod waiting;

verus! {

/// The to-device message type keys are distributed under.
pub const KEY_MESSAGE_TYPE: &'static str = "org.matrix.msc4143.rtc.encryption_key";

/// How many bytes a media key has.
pub const KEY_LENGTH: usize = 32;

/// A media key that was received and refused, and why.
#[derive(Debug, PartialEq, Eq)]
pub struct DiscardedKey {
    /// The member the key claimed to be for.
    pub member_id: String,
    /// The key's index.
    pub key_index: Option<u8>,
    /// The user the message was attributed to, if it was attributable at all.
    pub sender_user_id: Option<String>,
    /// The device it was attributed to, if known.
    pub sender_device_id: Option<String>,
    /// Why it was refused.
    pub reason: KeyRejection,
}

impl DiscardedKey {
    /// Whether this reports a key of `member_id` that came from `origin`.
    pub open spec fn reports(
        self,
        member_id: Seq<char>,
        key_index: Option<u8>,
        origin: KeyOrigin,
        reason: KeyRejection,
    ) -> bool {
        &&& self.member_id@ == member_id
        &&& self.key_index == key_index
        &&& self.reason == reason
        &&& match origin {
            KeyOrigin::Encrypted { sender_user_id, sender_device_id, .. } => {
                &&& self.sender_user_id == Some(sender_user_id)
                &&& self.sender_device_id == sender_device_id
            },
            KeyOrigin::Cleartext => self.sender_user_id is None && self.sender_device_id is None,
        }
    }

    /// Reports a refused key, attributed as far as its origin allows.
    pub fn new(
        member_id: &str,
        key_index: Option<u8>,
        origin: &KeyOrigin,
        reason: KeyRejection,
    ) -> (discarded: DiscardedKey)
        ensures
            discarded.reports(member_id@, key_index, *origin, reason),
    {
        let (sender_user_id, sender_device_id) = match origin {
            KeyOrigin::Encrypted { sender_user_id, sender_device_id, .. } => {
                let device: Option<String> = match sender_device_id {
                    Some(device) => Some(device.clone()),
                    None => None,
                };
                (Some(sender_user_id.clone()), device)
            },
            KeyOrigin::Cleartext => (None, None),
        };
        DiscardedKey {
            member_id: member_id.to_owned(),
            key_index,
            sender_user_id,
            sender_device_id,
            reason,
        }
    }
}

/// Whose key a signal carries.
#[derive(Debug, PartialEq, Eq)]
pub struct KeySubject {
    /// The owner's user id.
    pub user_id: String,
    /// The owner's device id; empty where the member event names none.
    pub device_id: String,
    /// The owner's member id.
    pub member_id: String,
    /// Whether the owner is this device.
    pub is_own: bool,
}

/// Model of a [`KeySubject`].
#[verifier::ext_equal]
pub struct SubjectView {
    /// The owner's user id.
    pub user_id: Seq<char>,
    /// The owner's device id; empty where the member event names none.
    pub device_id: Seq<char>,
    /// The owner's member id.
    pub member_id: Seq<char>,
    /// Whether the owner is this device.
    pub is_own: bool,
}

impl View for KeySubject {
    type V = SubjectView;

    open spec fn view(&self) -> SubjectView {
        SubjectView {
            user_id: self.user_id@,
            device_id: self.device_id@,
            member_id: self.member_id@,
            is_own: self.is_own,
        }
    }
}

impl SubjectView {
    /// The participant a membership stands for.
    pub open spec fn peer(membership: JoinedMembership) -> SubjectView {
        SubjectView {
            user_id: membership.sender@,
            device_id: device_or_empty(membership),
            member_id: membership.member_id@,
            is_own: false,
        }
    }

    /// The identity the media layer knows the owner by when the host derives
    /// none: `user:device` for ourselves, the member id for anyone else.
    pub open spec fn default_identity(self) -> Seq<char> {
        if self.is_own {
            self.user_id + ":"@ + self.device_id
        } else {
            self.member_id
        }
    }
}

/// The device a member event names, or nothing at all.
pub open spec fn device_or_empty(membership: JoinedMembership) -> Seq<char> {
    match membership.origin.device() {
        Some(device) => device,
        None => Seq::empty(),
    }
}

/// The device a member event names, or nothing at all.
pub fn device_or_nothing(membership: &JoinedMembership) -> (device: String)
    ensures
        device@ == device_or_empty(*membership),
{
    match membership.origin.sender_device_id() {
        Some(device) => device.to_owned(),
        None => String::new(),
    }
}

impl KeySubject {
    /// The participant a membership stands for.
    pub fn peer(membership: &JoinedMembership) -> (subject: KeySubject)
        ensures
            subject@ == SubjectView::peer(*membership),
    {
        KeySubject {
            user_id: membership.sender.clone(),
            device_id: device_or_nothing(membership),
            member_id: membership.member_id.clone(),
            is_own: false,
        }
    }

    /// The identity the media layer knows the owner by when the host derives
    /// none.
    pub fn default_identity(&self) -> (identity: String)
        ensures
            identity@ == self@.default_identity(),
    {
        if self.is_own {
            joined_with(self.user_id.as_str(), ":", self.device_id.as_str())
        } else {
            self.member_id.clone()
        }
    }
}

/// Key material on its way to the media layer, before the host has derived the
/// identity its owner is known by.
#[derive(Debug)]
pub struct PendingSignal {
    /// The key bytes.
    pub key: Vec<u8>,
    /// The rolling key index.
    pub key_index: u8,
    /// Whose key it is.
    pub subject: KeySubject,
    /// How long the consumer must wait before encrypting with the key.
    pub use_after_ms: u64,
}

/// Model of a [`PendingSignal`].
#[verifier::ext_equal]
pub struct SignalView {
    /// The key bytes.
    pub key: Seq<u8>,
    /// The rolling key index.
    pub key_index: u8,
    /// Whose key it is.
    pub subject: SubjectView,
    /// How long the consumer must wait before encrypting with the key.
    pub use_after_ms: u64,
}

impl View for PendingSignal {
    type V = SignalView;

    open spec fn view(&self) -> SignalView {
        SignalView {
            key: self.key@,
            key_index: self.key_index,
            subject: self.subject@,
            use_after_ms: self.use_after_ms,
        }
    }
}

impl PendingSignal {
    /// Whether `signal` is this one under the identity the host derived, if any.
    pub open spec fn signals_as(self, mapped: Option<String>, signal: KeyMaterialSignal) -> bool {
        &&& signal.key == self.key
        &&& signal.key_index == self.key_index
        &&& signal.use_after_ms == self.use_after_ms
        &&& signal.rtc_backend_identity@ == (match mapped {
            Some(identity) => identity@,
            None => self.subject@.default_identity(),
        })
    }

    /// The signal under the identity the host derived, or the default one where
    /// it derives none.
    pub fn into_signal(self, mapped: Option<String>) -> (signal: KeyMaterialSignal)
        ensures
            self.signals_as(mapped, signal),
    {
        let rtc_backend_identity: String = match mapped {
            Some(identity) => identity,
            None => self.subject.default_identity(),
        };
        KeyMaterialSignal {
            key: self.key,
            key_index: self.key_index,
            rtc_backend_identity,
            use_after_ms: self.use_after_ms,
        }
    }
}

/// A key that has been replaced but is still what we encrypt with, because its
/// replacement is waiting out its delay.
#[derive(Debug)]
pub struct SupersededKey {
    /// The key bytes.
    pub key: Vec<u8>,
    /// The rolling key index.
    pub key_index: u8,
    /// When its replacement takes over.
    pub in_use_until_ms: u64,
}

/// What we last told the application about our own key, and when.
#[derive(Debug)]
pub struct SignalledKey {
    /// The rolling key index.
    pub key_index: u8,
    /// When it was signalled, in epoch milliseconds.
    pub at_ms: u64,
    /// The delay it was signalled with.
    pub use_after_ms: u64,
}

/// Manages the media keys of one session.
#[derive(Debug)]
pub struct EncryptionManager {
    /// Our user id.
    pub own_user_id: String,
    /// Our device id.
    pub own_device_id: String,
    /// Our member id.
    pub own_member_id: String,
    /// The session's room.
    pub room_id: String,
    /// The session's slot.
    pub slot_id: String,
    /// How keys are rotated.
    pub config: EncryptionConfig,
    /// Whether anything listens for key material. Signals are not produced while
    /// nothing does.
    pub has_signal_handler: bool,
    /// Our current key; `None` unless joined.
    pub outbound_key: Option<OutboundEncryptionKey>,
    /// Verified keys of other participants, by member id.
    pub inbound_keys: TextMap<Vec<InboundEncryptionKey>>,
    /// Keys whose member event has not arrived yet.
    pub keys_without_membership: Vec<PendingInboundKey>,
    /// Drops keys that arrive out of order.
    pub key_buffer: OutdatedKeyFilter,
    /// The index the next key gets.
    pub next_key_index: u8,
    /// The key we go on encrypting with while its replacement waits.
    pub superseded_key: Option<SupersededKey>,
    /// When the current key has to be replaced.
    pub rotation_due_at: Option<u64>,
    /// Our key as last signalled to the application.
    pub signalled_key: Option<SignalledKey>,
    /// Whether a distribution is under way.
    pub key_distribution_in_progress: bool,
    /// Whether another distribution has to follow the one under way.
    pub need_new_distribution: bool,
}

/// The models of a list of inbound keys.
pub open spec fn inbound_views(keys: Seq<InboundEncryptionKey>) -> Seq<InboundKeyView> {
    keys.map_values(|key: InboundEncryptionKey| key@)
}

/// No two keys of a list have the same index.
pub open spec fn one_key_per_index(keys: Seq<InboundEncryptionKey>) -> bool {
    forall|i: int, j: int|
        0 <= i < j < keys.len() ==> (#[trigger] keys[i]).key_index != (
        #[trigger] keys[j]).key_index
}

/// What another participant's keys are, by member id.
pub open spec fn held_keys(
    inbound: TextMap<Vec<InboundEncryptionKey>>,
    member_id: Seq<char>,
) -> Seq<InboundEncryptionKey> {
    if inbound@.contains_key(member_id) {
        inbound@[member_id]@
    } else {
        Seq::empty()
    }
}

impl EncryptionManager {
    /// Our own keys have the length of a media key, and every other participant
    /// has at most one key per index.
    pub open spec fn wf(self) -> bool {
        &&& self.outbound_key matches Some(key) ==> key.key@.len() == KEY_LENGTH
        &&& self.superseded_key matches Some(key) ==> key.key@.len() == KEY_LENGTH
        &&& forall|member_id: Seq<char>|
            #![trigger self.inbound_keys@.contains_key(member_id)]
            self.inbound_keys@.contains_key(member_id) ==> one_key_per_index(
                self.inbound_keys@[member_id]@,
            )
    }

    /// Ourselves, as the owner of a key.
    pub open spec fn own_subject(self) -> SubjectView {
        SubjectView {
            user_id: self.own_user_id@,
            device_id: self.own_device_id@,
            member_id: self.own_member_id@,
            is_own: true,
        }
    }

    /// A manager for one session, with the default configuration and no key.
    pub fn new(
        own_user_id: String,
        own_device_id: String,
        own_member_id: String,
        room_id: String,
        slot_id: String,
    ) -> (manager: EncryptionManager)
        ensures
            manager.wf(),
            manager.own_user_id == own_user_id,
            manager.own_device_id == own_device_id,
            manager.own_member_id == own_member_id,
            manager.room_id == room_id,
            manager.slot_id == slot_id,
            manager.config == EncryptionConfig::standard(),
            !manager.has_signal_handler,
            manager.is_blank(),
            manager.key_buffer.buffer_ttl_ms == 5_000,
            !manager.key_distribution_in_progress,
            !manager.need_new_distribution,
    {
        EncryptionManager {
            own_user_id,
            own_device_id,
            own_member_id,
            room_id,
            slot_id,
            config: EncryptionConfig::default(),
            has_signal_handler: false,
            outbound_key: None,
            inbound_keys: TextMap::new(),
            keys_without_membership: Vec::new(),
            key_buffer: OutdatedKeyFilter::default(),
            next_key_index: 0,
            superseded_key: None,
            rotation_due_at: None,
            signalled_key: None,
            key_distribution_in_progress: false,
            need_new_distribution: false,
        }
    }

    /// Whether no key of ours or of anyone else's is held, or remembered.
    pub open spec fn is_blank(self) -> bool {
        &&& self.outbound_key is None
        &&& self.inbound_keys@ == Map::<Seq<char>, Vec<InboundEncryptionKey>>::empty()
        &&& self.keys_without_membership@.len() == 0
        &&& self.key_buffer.buffer@ == Map::<Seq<char>, u64>::empty()
        &&& self.next_key_index == 0
        &&& self.superseded_key is None
        &&& self.rotation_due_at is None
        &&& self.signalled_key is None
    }

    /// Sets the configuration.
    pub fn set_config(&mut self, config: EncryptionConfig)
        ensures
            *final(self) == (EncryptionManager { config, ..*old(self) }),
    {
        self.config = config;
    }

    /// Notes that something listens for key material from now on.
    ///
    /// Keys that arrived earlier were stored but not signalled; see
    /// [`EncryptionManager::replay_keys_to_handler`].
    pub fn set_signal_handler(&mut self)
        ensures
            *final(self) == (EncryptionManager { has_signal_handler: true, ..*old(self) }),
    {
        self.has_signal_handler = true;
    }

    /// A fresh random key.
    pub fn generate_random_key(&self) -> (key: Vec<u8>)
        ensures
            key@.len() == KEY_LENGTH,
            drawn(key@),
    {
        random_bytes(KEY_LENGTH)
    }

    /// Takes the next key index; indices wrap around.
    pub fn next_key_index(&mut self) -> (index: u8)
        ensures
            index == old(self).next_key_index,
            *final(self) == (EncryptionManager {
                next_key_index: following_index(old(self).next_key_index),
                ..*old(self)
            }),
    {
        let index: u8 = self.next_key_index;
        self.next_key_index = index.wrapping_add(1);
        index
    }

    /// The identity the media layer knows us by when the host derives none.
    pub fn get_own_rtc_backend_identity(&self) -> (identity: String)
        ensures
            identity@ == self.own_subject().default_identity(),
    {
        joined_with(self.own_user_id.as_str(), ":", self.own_device_id.as_str())
    }

    /// Our user id.
    pub fn own_user_id(&self) -> (user_id: &str)
        ensures
            user_id@ == self.own_user_id@,
    {
        self.own_user_id.as_str()
    }

    /// Joins with a freshly minted first key.
    ///
    /// The key is not signalled yet: that happens on the first membership update,
    /// so that the transport is listening.
    pub fn join(&mut self, now: u64)
        requires
            old(self).wf(),
        ensures
            final(self).wf(),
            exists|key: Vec<u8>|
                key@.len() == KEY_LENGTH && drawn(key@) && #[trigger] old(self).joined_with(
                    key,
                    now,
                    *final(self),
                ),
    {
        let key: Vec<u8> = self.generate_random_key();
        let ghost minted = key;
        self.join_with(key, now);
        assert(old(self).joined_with(minted, now, *self));
    }

    /// Whether `after` is this manager having joined with `key` as its first.
    pub open spec fn joined_with(self, key: Vec<u8>, now: u64, after: EncryptionManager) -> bool {
        if self.config.manage_media_keys {
            &&& after == (EncryptionManager {
                outbound_key: after.outbound_key,
                next_key_index: 1,
                ..self
            })
            &&& after.outbound_key matches Some(first) && first@ == (OutboundKeyView {
                key: key@,
                key_index: 0,
                creation_ts: now,
                shared_with: Seq::empty(),
            })
        } else {
            after == self
        }
    }

    /// Joins with `key` as the first key. Nothing happens where media keys are
    /// not managed.
    pub fn join_with(&mut self, key: Vec<u8>, now: u64)
        requires
            old(self).wf(),
            key@.len() == KEY_LENGTH,
        ensures
            final(self).wf(),
            old(self).joined_with(key, now, *final(self)),
    {
        if !self.config.manage_media_keys {
            return;
        }
        let shared_with: Vec<ParticipantDeviceInfo> = Vec::new();
        let first = OutboundEncryptionKey { key, key_index: 0, creation_ts: now, shared_with };
        assert(first@.shared_with =~= Seq::empty());
        self.outbound_key = Some(first);
        self.next_key_index = 1;
    }

    /// Whether `after` is this manager having left the session.
    pub open spec fn has_left(self, after: EncryptionManager) -> bool {
        &&& after.is_blank()
        &&& after.own_user_id == self.own_user_id
        &&& after.own_device_id == self.own_device_id
        &&& after.own_member_id == self.own_member_id
        &&& after.room_id == self.room_id
        &&& after.slot_id == self.slot_id
        &&& after.config == self.config
        &&& after.has_signal_handler == self.has_signal_handler
        &&& after.key_buffer.buffer_ttl_ms == self.key_buffer.buffer_ttl_ms
        &&& after.key_distribution_in_progress == self.key_distribution_in_progress
        &&& after.need_new_distribution == self.need_new_distribution
    }

    /// Leaves the session: every key, and everything remembered about keys, is
    /// forgotten.
    pub fn leave(&mut self)
        ensures
            final(self).wf(),
            old(self).has_left(*final(self)),
    {
        self.outbound_key = None;
        self.inbound_keys = TextMap::new();
        self.next_key_index = 0;
        self.signalled_key = None;
        self.superseded_key = None;
        self.rotation_due_at = None;
        self.key_buffer.buffer = TextMap::new();
        self.keys_without_membership = Vec::new();
    }

    /// When the current key has to be replaced; `None` until something was
    /// distributed.
    pub fn rotation_due_at_ms(&self) -> (due_at: Option<u64>)
        ensures
            due_at == self.rotation_due_at,
    {
        self.rotation_due_at
    }

    /// Our current key.
    pub fn get_outbound_key(&self) -> (key: Option<&OutboundEncryptionKey>)
        ensures
            key matches Some(key) ==> self.outbound_key == Some(*key),
            key is None ==> self.outbound_key is None,
    {
        match &self.outbound_key {
            Some(key) => Some(key),
            None => None,
        }
    }

    /// The keys held for one participant, in the order their indices were first
    /// seen.
    pub fn get_inbound_keys(&self, member_id: &str) -> (keys: Vec<InboundEncryptionKey>)
        ensures
            inbound_views(keys@) == inbound_views(held_keys(self.inbound_keys, member_id@)),
    {
        let mut keys: Vec<InboundEncryptionKey> = Vec::new();
        match self.inbound_keys.get(member_id) {
            Some(held) => {
                let mut i: usize = 0;
                while i < held.len()
                    invariant
                        i <= held@.len(),
                        inbound_views(keys@) == inbound_views(held@).take(i as int),
                    decreases held@.len() - i,
                {
                    let ghost before = keys@;
                    let copy: InboundEncryptionKey = held[i].clone();
                    keys.push(copy);
                    assert(inbound_views(keys@) =~= inbound_views(before).push(copy@));
                    assert(inbound_views(held@).take(i + 1) =~= inbound_views(held@).take(
                        i as int,
                    ).push(held@[i as int]@));
                    i = i + 1;
                }
                assert(inbound_views(held@).take(held@.len() as int) =~= inbound_views(held@));
            },
            None => {
                assert(inbound_views(keys@) =~= inbound_views(
                    Seq::<InboundEncryptionKey>::empty(),
                ));
            },
        }
        keys
    }

    /// All keys held, by member id.
    pub fn get_all_inbound_keys(&self) -> (keys: &TextMap<Vec<InboundEncryptionKey>>)
        ensures
            *keys == self.inbound_keys,
    {
        &self.inbound_keys
    }
}

/// The index after `index`; indices wrap around.
pub open spec fn following_index(index: u8) -> u8 {
    if index == u8::MAX {
        0
    } else {
        (index + 1) as u8
    }
}

} // verus!
