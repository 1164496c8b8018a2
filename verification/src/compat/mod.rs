//! Interoperability with members that speak older dialects.
//!
//! There are two: [`element_call`], whose memberships are sticky events with
//! older names in them, and [`element_call_state`], whose memberships are room
//! state. The rest of the library speaks the current format alone; everything
//! that reads or writes another goes through here.

use vstd::prelude::*;
use crate::clock::now_ms;
use crate::compat::element_call::{
    flatten_notification_content, flattened, is_notification_type, legacy_key_content,
    legacy_member_content, session_application, session_call_id, ElementCallDialect,
    LEGACY_KEY_EVENT_TYPE,
};
use crate::compat::element_call_state::{ElementCallStateDialect, STATE_MEMBER_EVENT_TYPE};
use crate::encryption::KEY_MESSAGE_TYPE;
use crate::event::is_member_type;
use crate::json::{Json, JsonView};

pub mod element_call;
pub mod element_call_state;
pub mod ingest;
pub mod laws;
pub mod reading;
pub mod rendering;

verus! {

/// Which dialect a call renders itself in, and reads.
#[derive(Clone, Copy, Debug, Default, PartialEq, Eq, Structural)]
pub enum ElementCallCompat {
    /// The current format alone.
    #[default]
    Off,
    /// Sticky events that carry the older names beside the current ones.
    StickyEvents,
    /// Memberships as room state, which only members of that generation see.
    StateEvents,
}

impl ElementCallCompat {
    /// Whether memberships are room state.
    pub fn reads_state_membership(self) -> (yes: bool)
        ensures
            yes == (self is StateEvents),
    {
        matches!(self, ElementCallCompat::StateEvents)
    }
}

/// Where an event goes, and what it says.
#[derive(Debug)]
#[allow(inconsistent_fields)]
pub enum MemberEventRoute {
    /// A sticky event.
    Sticky {
        /// The event type.
        event_type: String,
        /// The content.
        content: Json,
    },
    /// A state event, which has no lifetime but what its content states.
    State {
        /// The event type.
        event_type: &'static str,
        /// The state key.
        state_key: String,
        /// The content.
        content: Json,
    },
    /// An ordinary room event.
    Room {
        /// The event type.
        event_type: String,
        /// The content.
        content: Json,
    },
}

/// Model of a [`MemberEventRoute`].
#[verifier::ext_equal]
pub enum RouteView {
    /// A sticky event.
    Sticky(Seq<char>, JsonView),
    /// A state event, under a state key.
    State(Seq<char>, Seq<char>, JsonView),
    /// An ordinary room event.
    Room(Seq<char>, JsonView),
}

impl View for MemberEventRoute {
    type V = RouteView;

    open spec fn view(&self) -> RouteView {
        match self {
            MemberEventRoute::Sticky { event_type, content } => RouteView::Sticky(
                event_type@,
                content@,
            ),
            MemberEventRoute::State { event_type, state_key, content } => RouteView::State(
                event_type@,
                state_key@,
                content@,
            ),
            MemberEventRoute::Room { event_type, content } => RouteView::Room(event_type@, content@),
        }
    }
}

/// The dialect our own events go out in.
#[derive(Debug)]
pub enum OutboundDialect {
    /// The current format.
    Current,
    /// Sticky events with the older names beside the current ones.
    Sticky(ElementCallDialect),
    /// Memberships as room state.
    State(ElementCallStateDialect),
}

impl Clone for OutboundDialect {
    fn clone(&self) -> (copy: OutboundDialect)
        ensures
            copy == *self,
    {
        match self {
            OutboundDialect::Current => OutboundDialect::Current,
            OutboundDialect::Sticky(dialect) => OutboundDialect::Sticky(dialect.clone()),
            OutboundDialect::State(dialect) => OutboundDialect::State(dialect.clone()),
        }
    }
}

/// The state key a state dialect's membership goes under.
pub open spec fn state_key_of(dialect: ElementCallStateDialect) -> Seq<char> {
    "_"@ + dialect.user() + "_"@ + dialect.device() + "_"@ + session_application(dialect.slot())
        + session_call_id(dialect.slot())
}

impl OutboundDialect {
    /// Where an event goes at `now`, and what it says; `began` is when our
    /// membership began, if it has.
    ///
    /// Anything but a membership says what it said. It is sticky in the dialects
    /// that have sticky events, and an ordinary room event in the one that has
    /// none.
    pub open spec fn route(
        self,
        began: Option<u64>,
        event_type: Seq<char>,
        content: JsonView,
        lifetime: Option<u64>,
        now: u64,
    ) -> RouteView {
        match self {
            OutboundDialect::Current => RouteView::Sticky(event_type, content),
            OutboundDialect::Sticky(dialect) => if is_member_type(event_type) {
                RouteView::Sticky(
                    event_type,
                    legacy_member_content(content, dialect.user(), dialect.device()),
                )
            } else {
                RouteView::Sticky(event_type, content)
            },
            OutboundDialect::State(dialect) => if is_member_type(event_type) {
                RouteView::State(
                    STATE_MEMBER_EVENT_TYPE@,
                    state_key_of(dialect),
                    dialect.rendered(began, content, lifetime, now),
                )
            } else {
                RouteView::Room(event_type, content)
            },
        }
    }

    /// When our membership began once an event was routed at `now`: only the first
    /// membership that is room state settles it.
    pub open spec fn began_after(
        self,
        began: Option<u64>,
        event_type: Seq<char>,
        content: JsonView,
        now: u64,
    ) -> Option<u64> {
        if self is State && is_member_type(event_type) {
            ElementCallStateDialect::began_by(began, content, now)
        } else {
            began
        }
    }

    /// Decides where an event goes and what it says, at the time the clock shows.
    ///
    /// `began` is when our membership began, shared by everyone who routes its
    /// events. `lifetime_ms` is how long a membership should stay valid; only room
    /// state has to say either in its content.
    pub fn route_member_event(
        &self,
        began: &mut Option<u64>,
        event_type: String,
        content: Json,
        lifetime_ms: Option<u64>,
    ) -> (route: MemberEventRoute)
        ensures
            exists|now: u64|
                route@ == #[trigger] self.route(
                    *old(began),
                    event_type@,
                    content@,
                    lifetime_ms,
                    now,
                ) && *final(began) == self.began_after(*old(began), event_type@, content@, now),
    {
        let now: u64 = now_ms();
        self.route_member_event_at(began, event_type, content, lifetime_ms, now)
    }

    /// Decides where an event goes and what it says, at `now`.
    pub fn route_member_event_at(
        &self,
        began: &mut Option<u64>,
        event_type: String,
        content: Json,
        lifetime_ms: Option<u64>,
        now: u64,
    ) -> (route: MemberEventRoute)
        ensures
            route@ == self.route(*old(began), event_type@, content@, lifetime_ms, now),
            *final(began) == self.began_after(*old(began), event_type@, content@, now),
    {
        let is_member: bool = ElementCallDialect::is_member_event(event_type.as_str());
        match self {
            OutboundDialect::Current => MemberEventRoute::Sticky { event_type, content },
            OutboundDialect::Sticky(dialect) => {
                let mut content: Json = content;
                if is_member {
                    dialect.rewrite_member_content(&mut content);
                }
                MemberEventRoute::Sticky { event_type, content }
            },
            OutboundDialect::State(dialect) => if is_member {
                let state_key: String = dialect.state_key();
                let content: Json = dialect.member_content_at(began, &content, lifetime_ms, now);
                MemberEventRoute::State {
                    event_type: STATE_MEMBER_EVENT_TYPE,
                    state_key,
                    content,
                }
            } else {
                MemberEventRoute::Room { event_type, content }
            },
        }
    }

    /// What an event says once a notification was rendered for the target generation.
    pub open spec fn notification(self, event_type: Seq<char>, content: JsonView) -> JsonView {
        if is_notification_type(event_type) && self !is Current {
            flattened(content)
        } else {
            content
        }
    }

    /// Renders a notification for the target generation. Anything else, and
    /// anything in the current format, stays as it is.
    pub fn rewrite_notification(&self, event_type: &str, content: Json) -> (rewritten: Json)
        ensures
            rewritten@ == self.notification(event_type@, content@),
    {
        match self {
            OutboundDialect::Current => content,
            _ => match flatten_notification_content(event_type, &content) {
                Some(flat) => flat,
                None => content,
            },
        }
    }

    /// The device and slot a legacy key message states, in a dialect that has
    /// legacy key messages.
    pub open spec fn key_origin(self) -> Option<(Seq<char>, Seq<char>)> {
        match self {
            OutboundDialect::Current => None,
            OutboundDialect::Sticky(dialect) => Some((dialect.device(), dialect.slot())),
            OutboundDialect::State(dialect) => Some((dialect.device(), dialect.slot())),
        }
    }

    /// Whether rendering a media key leads to `rewritten`.
    pub open spec fn renders_key(
        self,
        message_type: Seq<char>,
        content: JsonView,
        rewritten: Option<(String, Json)>,
    ) -> bool {
        match (rewritten, self.key_origin()) {
            (Some((legacy_type, legacy)), Some((device_id, slot_id))) => {
                &&& message_type == KEY_MESSAGE_TYPE@
                &&& legacy_type@ == LEGACY_KEY_EVENT_TYPE@
                &&& legacy_key_content(device_id, slot_id, content) == Some(legacy@)
            },
            (Some(_), None) => false,
            (None, Some((device_id, slot_id))) => message_type != KEY_MESSAGE_TYPE@
                || legacy_key_content(device_id, slot_id, content) is None,
            (None, None) => true,
        }
    }

    /// Renders a media key in the legacy type and shape; `None` where it goes out
    /// as it is.
    pub fn rewrite_key_message(&self, message_type: &str, content: &Json) -> (rewritten: Option<
        (String, Json),
    >)
        ensures
            self.renders_key(message_type@, content@, rewritten),
    {
        match self {
            OutboundDialect::Current => None,
            OutboundDialect::Sticky(dialect) => dialect.rewrite_key_message(message_type, content),
            OutboundDialect::State(dialect) => element_call::rewrite_key_message(
                dialect.own_device_id(),
                dialect.slot_id(),
                message_type,
                content,
            ),
        }
    }

    /// Whether an event that is to be sticky goes out as `route` at `now`, after which
    /// our membership began as `after` says.
    pub open spec fn prepares_sticky(
        self,
        began: Option<u64>,
        event_type: Seq<char>,
        content: JsonView,
        duration_ms: u64,
        now: u64,
        after: Option<u64>,
        route: RouteView,
    ) -> bool {
        let said = self.notification(event_type, content);
        &&& route == self.route(began, event_type, said, Some(duration_ms), now)
        &&& after == self.began_after(began, event_type, said, now)
    }

    /// Whether an event that is to be sent later goes out as `route` at `now`, after
    /// which our membership began as `after` says.
    pub open spec fn prepares_delayed(
        self,
        began: Option<u64>,
        event_type: Seq<char>,
        content: JsonView,
        now: u64,
        after: Option<u64>,
        route: RouteView,
    ) -> bool {
        &&& route == self.route(began, event_type, content, None, now)
        &&& after == self.began_after(began, event_type, content, now)
    }

    /// Decides where an event that is to be sticky goes and what it says, at `now`:
    /// a notification is rendered for the target generation first.
    pub fn prepare_sticky_event(
        &self,
        began: &mut Option<u64>,
        event_type: String,
        content: Json,
        duration_ms: u64,
        now: u64,
    ) -> (route: MemberEventRoute)
        ensures
            self.prepares_sticky(
                *old(began),
                event_type@,
                content@,
                duration_ms,
                now,
                *final(began),
                route@,
            ),
    {
        let content: Json = self.rewrite_notification(event_type.as_str(), content);
        self.route_member_event_at(began, event_type, content, Some(duration_ms), now)
    }

    /// Decides where an event that is to be sent later goes and what it says, at
    /// `now`. It has no lifetime: the one there is, a leave, needs none.
    pub fn prepare_delayed_event(
        &self,
        began: &mut Option<u64>,
        event_type: String,
        content: Json,
        now: u64,
    ) -> (route: MemberEventRoute)
        ensures
            self.prepares_delayed(
                *old(began),
                event_type@,
                content@,
                now,
                *final(began),
                route@,
            ),
    {
        self.route_member_event_at(began, event_type, content, None, now)
    }

    /// The type and content a to-device message goes out with. It has one type, so
    /// a media key goes out in the target generation's shape alone.
    pub open spec fn to_device(self, message_type: Seq<char>, content: JsonView) -> (
        Seq<char>,
        JsonView,
    ) {
        match self.key_origin() {
            Some((device_id, slot_id)) => match legacy_key_content(device_id, slot_id, content) {
                Some(legacy) => if message_type == KEY_MESSAGE_TYPE@ {
                    (LEGACY_KEY_EVENT_TYPE@, legacy)
                } else {
                    (message_type, content)
                },
                None => (message_type, content),
            },
            None => (message_type, content),
        }
    }

    /// Renders a to-device message for the target generation.
    pub fn prepare_to_device_message(&self, message_type: String, content: Json) -> (message: (
        String,
        Json,
    ))
        ensures
            (message.0@, message.1@) == self.to_device(message_type@, content@),
    {
        match self.rewrite_key_message(message_type.as_str(), &content) {
            Some(rewritten) => rewritten,
            None => (message_type, content),
        }
    }
}

/// Where memberships are room state, no event ever asks for a sticky send, so a
/// host without sticky events can carry such a call from end to end.
pub proof fn law_state_dialect_never_sends_sticky(
    dialect: ElementCallStateDialect,
    began: Option<u64>,
    event_type: Seq<char>,
    content: JsonView,
    lifetime: Option<u64>,
    now: u64,
)
    ensures
        OutboundDialect::State(dialect).route(began, event_type, content, lifetime, now) !is Sticky,
{
}

/// What is no membership says the same in every dialect.
pub proof fn law_other_events_keep_their_content(
    dialect: OutboundDialect,
    began: Option<u64>,
    event_type: Seq<char>,
    content: JsonView,
    lifetime: Option<u64>,
    now: u64,
)
    requires
        !is_member_type(event_type),
    ensures
        ({
            let route = dialect.route(began, event_type, content, lifetime, now);
            route == RouteView::Sticky(event_type, content) || route == RouteView::Room(
                event_type,
                content,
            )
        }),
        dialect.began_after(began, event_type, content, now) == began,
{
}

} // verus!
