//! Verified core of a MatrixRTC participant.
//!
//! A participant publishes a membership and keeps it alive ([`own_membership`],
//! [`participation`]), follows who else is in the session ([`event`], [`wire`],
//! [`slot`], [`roster`], [`manager`]), and exchanges media keys with them
//! ([`encryption`]). [`compat`] speaks the dialects of older clients, and
//! [`bridge`] and [`delivery`] hold what a host decides between its requests.
//!
//! Nothing here sends, waits or keeps time: every step says what is to be done,
//! and the next one takes what came of it.

pub mod bridge;
pub mod bridging;
pub mod clock;
pub mod commands;
pub mod compat;
pub mod contents;
pub mod delivery;
pub mod encoding;
pub mod encryption;
pub mod error;
pub mod event;
pub mod join;
pub mod joining;
pub mod json;
pub mod lifecycle;
pub mod manager;
pub mod maybe_send;
pub mod models;
pub mod notification;
pub mod openid;
pub mod own_membership;
pub mod participation;
mod random;
pub mod reactions;
pub mod roster;
pub mod seqs;
pub mod session;
pub mod sessions;
pub mod slot;
pub mod table;
pub mod text;
pub mod transport;
pub mod wire;

pub use bridge::{timeline_ingest_from_raw, TimelineIngest, STICKY_EVENTS_SUPPORTED};
pub use commands::{RtcCommand, ToDeviceDelivery, ToDeviceRecipient};
pub use compat::element_call::{
    ElementCallDialect, LegacyKeyMessage, MemberContent, LEGACY_KEY_EVENT_TYPE,
};
pub use compat::element_call_state::{
    ElementCallStateDialect, StateMemberEvent, StateMembership, STATE_MEMBER_EVENT_TYPE,
};
pub use compat::{ElementCallCompat, MemberEventRoute, OutboundDialect};
pub use encryption::types::{
    EncryptionConfig, InboundEncryptionKey, KeyMaterialSignal, KeyOrigin, KeyRejection,
    OutboundEncryptionKey, OutdatedKeyFilter, ParticipantDeviceInfo, ReceivedEncryptionKey,
};
pub use encryption::{DiscardedKey, EncryptionManager, KEY_MESSAGE_TYPE};
pub use error::{CommandError, JoinError, LeaveError};
pub use event::{
    EventConversionError, EventOrigin, RawStickyEvent, RawStickyEventContent, RawStickyEventUpdate,
    StickyEventsUpdate,
};
pub use join::{generate_member_id, JoinSessionParams, LeaveSessionParams, TransportIntent};
pub use manager::RtcSessionManager;
pub use maybe_send::MaybeSend;
pub use notification::{
    build_notification_content, notification_sticky_duration_ms, Mentions, NotificationType,
    NotifyConfig, DEFAULT_RING_LIFETIME_MS, MAX_RING_LIFETIME_MS, NOTIFICATION_EVENT_TYPE,
};
pub use openid::{OpenIdToken, OpenIdTokenError};
pub use own_membership::{
    transport_to_json, DelayedLeaveSupport, KeepAliveInfo, MembershipTimings,
    OwnMembershipMachine, OwnMembershipState,
};
pub use participation::{JoinAttempt, JoinPublication, Participation};
pub use reactions::{
    RawTimelineEvent, ReactionsConfig, RelationLookup, ANNOTATION_EVENT_TYPE,
    DEFAULT_REACTION_ACTIVE_MS, REACTION_EVENT_TYPE,
};
pub use roster::RtcSession;
pub use session::{
    ApplicationInfo, CallMembershipEvent, JoinedMembership, LeaveCode, LeaveReason, LeftMembership,
    MemberInfo, Membership,
};
pub use slot::{
    EncryptionMechanism, OpenSlot, RawSlotEvent, RawSlotEventContent, RoomEncryption,
    SlotEncryption, SlotState, SlotStatus, SLOT_EVENT_TYPE,
};
pub use transport::{
    LiveKitTransport, MemberTransports, RawRtcTransport, RtcTransport, UnsupportedTransport,
};
