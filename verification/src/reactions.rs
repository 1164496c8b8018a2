//! Reactions and raised hands: the events they travel in.

use vstd::prelude::*;
use crate::event::EventOrigin;
use crate::json::Json;

verus! {

/// The type of an emoji reaction event.
pub const REACTION_EVENT_TYPE: &'static str = "io.element.call.reaction";

/// The type of an annotation, which is what a raised hand is.
pub const ANNOTATION_EVENT_TYPE: &'static str = "m.reaction";

/// How long a reaction is shown, by default (3 seconds).
pub const DEFAULT_REACTION_ACTIVE_MS: u64 = 3_000;

/// How a session handles reactions and raised hands.
#[derive(Clone, Copy, Debug, PartialEq, Eq, Structural)]
pub struct ReactionsConfig {
    /// Whether reactions are handled at all.
    pub enabled: bool,
    /// How long a reaction is shown, in milliseconds.
    pub active_ms: u64,
}

impl ReactionsConfig {
    /// Enabled, with the default window.
    pub open spec fn standard() -> ReactionsConfig {
        ReactionsConfig { enabled: true, active_ms: DEFAULT_REACTION_ACTIVE_MS }
    }
}

impl Default for ReactionsConfig {
    fn default() -> (config: ReactionsConfig)
        ensures
            config == ReactionsConfig::standard(),
    {
        ReactionsConfig { enabled: true, active_ms: DEFAULT_REACTION_ACTIVE_MS }
    }
}

/// A message-like room event that may be a reaction or a raised hand.
#[derive(Debug)]
pub struct RawTimelineEvent {
    /// The room.
    pub room_id: String,
    /// The event's id.
    pub event_id: String,
    /// The user that sent it.
    pub sender: String,
    /// How it reached us.
    pub origin: EventOrigin,
    /// The event type.
    pub event_type: String,
    /// When the sender's homeserver received it.
    pub origin_server_ts: u64,
    /// The event's content.
    pub content: Json,
}

/// A membership event whose annotations have not been fetched yet.
#[derive(Debug)]
pub struct RelationLookup {
    /// The membership event.
    pub membership_event_id: String,
    /// The participation it belongs to.
    pub member_id: String,
}

} // verus!
