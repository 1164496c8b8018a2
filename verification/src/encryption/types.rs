//! Data the encryption manager works on.

use vstd::prelude::*;
use vstd::string::StringExecFns;
use crate::table::TextMap;
use crate::text::{clone_text, decimal, joined_with, to_decimal};

verus! {

/// One participation of one device in a session.
#[derive(Debug, PartialEq, Eq)]
pub struct ParticipantDeviceInfo {
    /// The participant's user id.
    pub user_id: String,
    /// The participant's device id.
    pub device_id: String,
    /// The `member.id` of the participant's member event.
    pub member_id: String,
    /// When this participation began, where the dialect states it.
    ///
    /// The pre-sticky dialect reuses `{user}:{device}` as the member id across
    /// joins, and this timestamp is then what tells two joins by the same device
    /// apart.
    pub membership_ts: Option<u64>,
}

/// Model of a [`ParticipantDeviceInfo`].
#[verifier::ext_equal]
pub struct ParticipantView {
    /// The participant's user id.
    pub user_id: Seq<char>,
    /// The participant's device id.
    pub device_id: Seq<char>,
    /// The `member.id` of the participant's member event.
    pub member_id: Seq<char>,
    /// When this participation began, where the dialect states it.
    pub membership_ts: Option<u64>,
}

impl ParticipantView {
    /// Whether two values name the same join, not merely the same member id.
    pub open spec fn same_join(self, other: ParticipantView) -> bool {
        self.member_id == other.member_id && self.membership_ts == other.membership_ts
    }
}

impl View for ParticipantDeviceInfo {
    type V = ParticipantView;

    open spec fn view(&self) -> ParticipantView {
        ParticipantView {
            user_id: self.user_id@,
            device_id: self.device_id@,
            member_id: self.member_id@,
            membership_ts: self.membership_ts,
        }
    }
}

impl Clone for ParticipantDeviceInfo {
    fn clone(&self) -> (copy: ParticipantDeviceInfo)
        ensures
            copy == *self,
    {
        ParticipantDeviceInfo {
            user_id: self.user_id.clone(),
            device_id: self.device_id.clone(),
            member_id: self.member_id.clone(),
            membership_ts: self.membership_ts,
        }
    }
}

impl ParticipantDeviceInfo {
    /// The key participants are filed under: the member id.
    pub fn map_key(&self) -> (key: String)
        ensures
            key == self.member_id,
    {
        self.member_id.clone()
    }

    /// Whether `other` is the same *join*, not merely the same member id.
    pub fn same_join(&self, other: &ParticipantDeviceInfo) -> (yes: bool)
        ensures
            yes == self@.same_join(other@),
    {
        let same_time: bool = match (self.membership_ts, other.membership_ts) {
            (Some(a), Some(b)) => a == b,
            (None, None) => true,
            (_, _) => false,
        };
        self.member_id == other.member_id && same_time
    }
}

/// Authenticated provenance of an inbound key message.
#[derive(Debug, PartialEq, Eq)]
pub enum KeyOrigin {
    /// The message arrived encrypted; these values come from the decryption
    /// metadata, not from the payload.
    Encrypted {
        /// The user the message was decrypted as coming from.
        sender_user_id: String,
        /// The device the message was decrypted as coming from, when known.
        sender_device_id: Option<String>,
        /// Whether that device is cross-signed.
        sender_is_cross_signed: bool,
    },
    /// The message arrived in the clear, so it has no authenticated sender.
    Cleartext,
}

/// Why an inbound key message was discarded.
#[derive(Debug, PartialEq, Eq)]
#[allow(inconsistent_fields)]
pub enum KeyRejection {
    /// Sent in cleartext, so the sender cannot be authenticated.
    Cleartext,
    /// The sending device is not cross-signed.
    NotCrossSigned,
    /// The message names a different room than this session's.
    RoomMismatch {
        /// The room the message names.
        claimed: String,
    },
    /// The sender does not match the one on the member event it claims.
    SenderMismatch {
        /// The user the member event was sent by.
        expected: String,
        /// The user that actually sent the key.
        actual: String,
    },
    /// The member event names no sending device, so the required match cannot be
    /// performed at all.
    UnverifiableDevice,
    /// The sending device does not match the one that sent the member event.
    DeviceMismatch {
        /// The device the member event names.
        expected: String,
        /// The device that actually sent the key, if known.
        actual: Option<String>,
    },
}

impl KeyRejection {
    /// The rejection in words.
    pub open spec fn words(self) -> Seq<char> {
        match self {
            KeyRejection::Cleartext => "sent in cleartext"@,
            KeyRejection::NotCrossSigned => "sending device is not cross-signed"@,
            KeyRejection::UnverifiableDevice => {
                "the member event names no sending device to check this against"@
            },
            KeyRejection::RoomMismatch { claimed } => "claims a different room ("@ + claimed@
                + ")"@,
            KeyRejection::SenderMismatch { expected, actual } => "sent by "@ + actual@
                + ", but the member event is from "@ + expected@,
            KeyRejection::DeviceMismatch { expected, actual } => "sent by device "@ + (
            match actual {
                Some(device) => device@,
                None => "<unknown>"@,
            }) + ", but the member event came from "@ + expected@,
        }
    }

    /// Says in words why the key was discarded.
    pub fn describe(&self) -> (text: String)
        ensures
            text@ == self.words(),
    {
        match self {
            KeyRejection::Cleartext => "sent in cleartext".to_owned(),
            KeyRejection::NotCrossSigned => "sending device is not cross-signed".to_owned(),
            KeyRejection::UnverifiableDevice => {
                "the member event names no sending device to check this against".to_owned()
            },
            KeyRejection::RoomMismatch { claimed } => joined_with(
                "claims a different room (",
                claimed.as_str(),
                ")",
            ),
            KeyRejection::SenderMismatch { expected, actual } => {
                let mut text: String = joined_with(
                    "sent by ",
                    actual.as_str(),
                    ", but the member event is from ",
                );
                text.append(expected.as_str());
                text
            },
            KeyRejection::DeviceMismatch { expected, actual } => {
                let device: &str = match actual {
                    Some(device) => device.as_str(),
                    None => "<unknown>",
                };
                let mut text: String = joined_with(
                    "sent by device ",
                    device,
                    ", but the member event came from ",
                );
                text.append(expected.as_str());
                text
            },
        }
    }
}

/// An inbound key message, with the provenance needed to decide whether to trust
/// it.
#[derive(Debug)]
pub struct ReceivedEncryptionKey {
    /// How the message reached us, and from whom.
    pub origin: KeyOrigin,
    /// The `room_id` the message carries.
    pub room_id: String,
    /// The `member_id` the message carries, naming the sender's member event.
    pub member_id: String,
    /// The key material, base64 encoded.
    pub key_b64: String,
    /// The rolling key index.
    pub key_index: u8,
}

impl Clone for KeyOrigin {
    fn clone(&self) -> (copy: KeyOrigin)
        ensures
            copy == *self,
    {
        match self {
            KeyOrigin::Encrypted { sender_user_id, sender_device_id, sender_is_cross_signed } =>
            KeyOrigin::Encrypted {
                sender_user_id: sender_user_id.clone(),
                sender_device_id: clone_text(sender_device_id),
                sender_is_cross_signed: *sender_is_cross_signed,
            },
            KeyOrigin::Cleartext => KeyOrigin::Cleartext,
        }
    }
}

impl Clone for ReceivedEncryptionKey {
    fn clone(&self) -> (copy: ReceivedEncryptionKey)
        ensures
            copy == *self,
    {
        ReceivedEncryptionKey {
            origin: self.origin.clone(),
            room_id: self.room_id.clone(),
            member_id: self.member_id.clone(),
            key_b64: self.key_b64.clone(),
            key_index: self.key_index,
        }
    }
}

/// A verified key from another participant, used to decrypt its media.
#[derive(Debug)]
pub struct InboundEncryptionKey {
    /// The key bytes.
    pub key: Vec<u8>,
    /// The rolling key index.
    pub key_index: u8,
    /// The `member_id` of the sender's member event.
    pub member_id: String,
    /// When the key was received, in epoch milliseconds.
    pub creation_ts: u64,
}

/// Model of an [`InboundEncryptionKey`].
#[verifier::ext_equal]
pub struct InboundKeyView {
    /// The key bytes.
    pub key: Seq<u8>,
    /// The rolling key index.
    pub key_index: u8,
    /// The `member_id` of the sender's member event.
    pub member_id: Seq<char>,
    /// When the key was received, in epoch milliseconds.
    pub creation_ts: u64,
}

impl View for InboundEncryptionKey {
    type V = InboundKeyView;

    open spec fn view(&self) -> InboundKeyView {
        InboundKeyView {
            key: self.key@,
            key_index: self.key_index,
            member_id: self.member_id@,
            creation_ts: self.creation_ts,
        }
    }
}

impl Clone for InboundEncryptionKey {
    fn clone(&self) -> (copy: InboundEncryptionKey)
        ensures
            copy@ == self@,
    {
        InboundEncryptionKey {
            key: copy_bytes(&self.key),
            key_index: self.key_index,
            member_id: self.member_id.clone(),
            creation_ts: self.creation_ts,
        }
    }
}

/// A copy of some bytes.
pub fn copy_bytes(bytes: &Vec<u8>) -> (copy: Vec<u8>)
    ensures
        copy@ == bytes@,
{
    let copy: Vec<u8> = bytes.clone();
    assert(copy@ =~= bytes@);
    copy
}

/// An inbound key whose member event has not arrived yet, held with the
/// provenance needed to verify it once it does.
#[derive(Debug)]
pub struct PendingInboundKey {
    /// The key.
    pub key: InboundEncryptionKey,
    /// How it reached us.
    pub origin: KeyOrigin,
}

/// Our own key, used to encrypt our media.
#[derive(Debug)]
pub struct OutboundEncryptionKey {
    /// The key bytes.
    pub key: Vec<u8>,
    /// The rolling key index.
    pub key_index: u8,
    /// When the key was minted, in epoch milliseconds.
    pub creation_ts: u64,
    /// The participations the key has reached.
    pub shared_with: Vec<ParticipantDeviceInfo>,
}

/// The models of a list of participations.
pub open spec fn participants(list: Seq<ParticipantDeviceInfo>) -> Seq<ParticipantView> {
    list.map_values(|participant: ParticipantDeviceInfo| participant@)
}

/// Model of an [`OutboundEncryptionKey`].
#[verifier::ext_equal]
pub struct OutboundKeyView {
    /// The key bytes.
    pub key: Seq<u8>,
    /// The rolling key index.
    pub key_index: u8,
    /// When the key was minted, in epoch milliseconds.
    pub creation_ts: u64,
    /// The participations the key has reached.
    pub shared_with: Seq<ParticipantView>,
}

impl View for OutboundEncryptionKey {
    type V = OutboundKeyView;

    open spec fn view(&self) -> OutboundKeyView {
        OutboundKeyView {
            key: self.key@,
            key_index: self.key_index,
            creation_ts: self.creation_ts,
            shared_with: participants(self.shared_with@),
        }
    }
}

/// Key material for the media layer.
#[derive(Debug)]
pub struct KeyMaterialSignal {
    /// The key bytes.
    pub key: Vec<u8>,
    /// The rolling key index.
    pub key_index: u8,
    /// The identity the media layer knows the key's owner by.
    pub rtc_backend_identity: String,
    /// How long the consumer must wait before *encrypting* with this key, in
    /// milliseconds. Non-zero only for our own rotated key: peers need time to
    /// receive it first.
    pub use_after_ms: u64,
}

/// How keys are rotated.
#[derive(Debug)]
pub struct EncryptionConfig {
    /// How long to go on using the previous key after a new one was distributed.
    pub delay_before_use_ms: u64,
    /// How long a key counts as fresh: it is handed to arrivals rather than
    /// replaced, and departures are answered by one rotation at the window's end.
    /// Values below `delay_before_use_ms` have no effect.
    pub key_rotation_grace_period_ms: u64,
    /// Longest a key may be used before it is replaced regardless of membership.
    /// A value shorter than the freshness window is raised to it.
    pub max_key_lifetime_ms: u64,
    /// Whether to manage media keys. If not, no keys are distributed and no key
    /// material is signalled to the application, as suits a session that needs no
    /// encryption.
    pub manage_media_keys: bool,
    /// Whether to discard keys from devices that are not cross-signed.
    pub require_cross_signed_sender: bool,
}

impl Clone for EncryptionConfig {
    fn clone(&self) -> (copy: EncryptionConfig)
        ensures
            copy == *self,
    {
        EncryptionConfig {
            delay_before_use_ms: self.delay_before_use_ms,
            key_rotation_grace_period_ms: self.key_rotation_grace_period_ms,
            max_key_lifetime_ms: self.max_key_lifetime_ms,
            manage_media_keys: self.manage_media_keys,
            require_cross_signed_sender: self.require_cross_signed_sender,
        }
    }
}

impl Default for EncryptionConfig {
    fn default() -> (config: EncryptionConfig)
        ensures
            config == EncryptionConfig::standard(),
    {
        EncryptionConfig {
            delay_before_use_ms: 5_000,
            key_rotation_grace_period_ms: 10_000,
            max_key_lifetime_ms: 5_400_000,
            manage_media_keys: true,
            require_cross_signed_sender: true,
        }
    }
}

impl EncryptionConfig {
    /// The default configuration.
    pub open spec fn standard() -> EncryptionConfig {
        EncryptionConfig {
            delay_before_use_ms: 5_000,
            key_rotation_grace_period_ms: 10_000,
            max_key_lifetime_ms: 5_400_000,
            manage_media_keys: true,
            require_cross_signed_sender: true,
        }
    }
}

/// Drops keys that arrive out of order: per member and index, only a key at
/// least as new as the newest one seen gets through.
#[derive(Debug)]
pub struct OutdatedKeyFilter {
    /// The latest time per `member_id:index`.
    pub buffer: TextMap<u64>,
    /// Entries older than this, in milliseconds, are cleaned up.
    pub buffer_ttl_ms: u64,
}

/// The name an index of a member's keys is filed under: `member_id:index`.
pub open spec fn filter_key(member_id: Seq<char>, key_index: u8) -> Seq<char> {
    member_id + ":"@ + decimal(key_index as nat)
}

/// The name an index of a member's keys is filed under: `member_id:index`.
fn filter_key_text(member_id: &str, key_index: u8) -> (key: String)
    ensures
        key@ == filter_key(member_id@, key_index),
{
    let index: String = to_decimal(key_index as u64);
    joined_with(member_id, ":", index.as_str())
}

impl Default for OutdatedKeyFilter {
    fn default() -> (filter: OutdatedKeyFilter)
        ensures
            filter.buffer@ == Map::<Seq<char>, u64>::empty(),
            filter.buffer_ttl_ms == 5_000,
    {
        OutdatedKeyFilter { buffer: TextMap::new(), buffer_ttl_ms: 5_000 }
    }
}

/// The entries of a memory that are not older than `current_ts - ttl_ms`.
pub open spec fn recent_entries(
    memory: Map<Seq<char>, u64>,
    current_ts: u64,
    ttl_ms: u64,
) -> Map<Seq<char>, u64> {
    memory.restrict(
        Set::new(
            |key: Seq<char>| memory.contains_key(key) && current_ts - memory[key] <= ttl_ms,
        ),
    )
}

impl OutdatedKeyFilter {
    /// Whether the filter has seen a strictly newer key of this member and index.
    pub open spec fn outdates(self, member_id: Seq<char>, key_index: u8, candidate_ts: u64) -> bool {
        let key = filter_key(member_id, key_index);
        self.buffer@.contains_key(key) && self.buffer@[key] > candidate_ts
    }

    /// A filter that forgets entries older than `ttl_ms`.
    pub fn with_ttl(ttl_ms: u64) -> (filter: OutdatedKeyFilter)
        ensures
            filter.buffer@ == Map::<Seq<char>, u64>::empty(),
            filter.buffer_ttl_ms == ttl_ms,
    {
        OutdatedKeyFilter { buffer: TextMap::new(), buffer_ttl_ms: ttl_ms }
    }

    /// Whether a key of this time should be dropped.
    ///
    /// Equal times let the candidate through: times are stamped on receipt, so
    /// two keys of one index in the same millisecond are a rekey seen in quick
    /// succession, and the later one is the one the sender now encrypts with.
    pub fn is_outdated(&self, member_id: &str, key_index: u8, candidate_ts: u64) -> (outdated: bool)
        ensures
            outdated == self.outdates(member_id@, key_index, candidate_ts),
    {
        let key: String = filter_key_text(member_id, key_index);
        match self.buffer.get(key.as_str()) {
            Some(existing) => *existing > candidate_ts,
            None => false,
        }
    }

    /// Whether checking a key of this time leads to `after` and `outdated`.
    pub open spec fn checked(
        self,
        member_id: Seq<char>,
        key_index: u8,
        candidate_ts: u64,
        after: OutdatedKeyFilter,
        outdated: bool,
    ) -> bool {
        &&& outdated == self.outdates(member_id, key_index, candidate_ts)
        &&& after.buffer_ttl_ms == self.buffer_ttl_ms
        &&& after.buffer@ == (if outdated {
            self.buffer@
        } else {
            self.buffer@.insert(filter_key(member_id, key_index), candidate_ts)
        })
    }

    /// Whether a key of this time should be dropped; one that should not is
    /// remembered as the newest of its member and index.
    pub fn check_and_add(&mut self, member_id: String, key_index: u8, candidate_ts: u64) -> (
    outdated: bool)
        ensures
            old(self).checked(member_id@, key_index, candidate_ts, *final(self), outdated),
    {
        let outdated: bool = self.is_outdated(member_id.as_str(), key_index, candidate_ts);
        if !outdated {
            let key: String = filter_key_text(member_id.as_str(), key_index);
            self.buffer.insert(key, candidate_ts);
        }
        outdated
    }

    /// This filter's memory with every entry older than
    /// `current_ts - buffer_ttl_ms` removed, and nothing else.
    pub open spec fn cleaned(self, current_ts: u64) -> Map<Seq<char>, u64> {
        recent_entries(self.buffer@, current_ts, self.buffer_ttl_ms)
    }

    /// Removes entries whose time is older than `current_ts - buffer_ttl_ms`.
    pub fn cleanup(&mut self, current_ts: u64)
        ensures
            final(self).buffer_ttl_ms == old(self).buffer_ttl_ms,
            final(self).buffer@ == old(self).cleaned(current_ts),
    {
        self.buffer.drop_older(current_ts, self.buffer_ttl_ms);
        proof {
            assert(self.buffer@ =~= old(self).cleaned(current_ts));
        }
    }
}

} // verus!
