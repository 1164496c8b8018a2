//! The lifecycle of our own membership, with its dead man's switch.
//!
//! 1. A delayed leave is scheduled *first*. If the client dies at any point, it
//!    fires and cleans up.
//! 2. The join is sent as a sticky event.
//! 3. A heartbeat pushes the delayed leave back out, and sends the membership
//!    again once its sticky entry is halfway to expiry.
//!
//! A homeserver that schedules no delayed events does not fail the join: the
//! membership still expires on its own, and goes out with a shorter lifetime so
//! that a client that dies is forgotten soon. That choice is made before the first
//! membership goes out and never revisited, because a sticky entry cannot be
//! shortened afterwards.
//!
//! The machine performs nothing itself. Each step says which command to carry
//! out, and the next one takes what the host reported of it.

use vstd::prelude::*;
use crate::commands::RtcCommand;
use crate::encryption::rotation::age;
use crate::error::CommandError;
use crate::event::RawStickyEventContent;
use crate::join::{
    DEFAULT_DEGRADED_LIFETIME_MS, DEFAULT_KEEP_ALIVE_TIMEOUT_MS, DEFAULT_STICKY_DURATION_MS,
};
use crate::json::{lemma_model, members_model, Json, JsonMember, JsonView};
use crate::session::{
    ApplicationView, LeaveCode, LeaveCodeView, LeaveReason, LeaveReasonView, MemberView,
    MembershipView,
};
use crate::transport::{MemberTransports, RtcTransport};
use crate::wire::{content_json, ContentView};

verus! {

/// How long to wait before asking a homeserver that failed to schedule a delayed
/// event again (5 minutes).
pub const DELAYED_LEAVE_PROBE_INTERVAL_MS: u64 = 300_000;

/// The type membership events are sent under.
pub const MEMBER_EVENT_TYPE: &'static str = "m.rtc.member";

/// A transport as a JSON object. Where a transport without a typed form has a
/// `type` among its other members, that one counts.
pub open spec fn transport_json(transport: RtcTransport) -> JsonView {
    match transport {
        RtcTransport::LiveKit(livekit) => JsonView::object().with(
            "type"@,
            JsonView::Text("livekit"@),
        ).with("livekit_service_url"@, JsonView::Text(livekit.livekit_service_url@)),
        RtcTransport::Unsupported(unsupported) => JsonView::Object(
            Map::<Seq<char>, JsonView>::empty().insert(
                "type"@,
                JsonView::Text(unsupported.transport_type@),
            ).union_prefer_right(members_model(unsupported.extra_fields@)),
        ),
    }
}

/// Renders a transport as a JSON object.
pub fn transport_to_json(transport: &RtcTransport) -> (json: Json)
    ensures
        json@ == transport_json(*transport),
{
    match transport {
        RtcTransport::LiveKit(livekit) => Json::object().with("type", Json::text("livekit")).with(
            "livekit_service_url",
            Json::text(livekit.livekit_service_url.as_str()),
        ),
        RtcTransport::Unsupported(unsupported) => {
            let extra: Vec<JsonMember> = crate::json::clone_members(&unsupported.extra_fields);
            let names_type: bool = crate::json::position(&extra, "type").is_some();
            let object = Json::Object(extra);
            proof {
                lemma_model(object);
            }
            let ghost model = members_model(unsupported.extra_fields@);
            let ghost typed = Map::<Seq<char>, JsonView>::empty().insert(
                "type"@,
                JsonView::Text(unsupported.transport_type@),
            );
            if names_type {
                assert(typed.union_prefer_right(model) =~= model);
                object
            } else {
                assert(typed.union_prefer_right(model) =~= model.insert(
                    "type"@,
                    JsonView::Text(unsupported.transport_type@),
                ));
                object.with("type", Json::text(unsupported.transport_type.as_str()))
            }
        },
    }
}

/// Where the machine stands.
#[derive(Debug, Clone, Copy, PartialEq, Eq, Structural)]
pub enum OwnMembershipState {
    /// Not joined.
    NotJoined,
    /// A join is under way.
    Joining,
    /// Joined.
    Joined,
    /// A leave is under way.
    Leaving,
    /// Left.
    Left,
}

/// The delayed leave that is armed.
#[derive(Debug)]
pub struct KeepAliveInfo {
    /// Its delay id.
    pub delayed_event_id: String,
    /// How long after the last successful restart it fires.
    pub timeout_ms: u64,
    /// When it was last armed or restarted, in epoch milliseconds.
    pub last_restart_ms: u64,
}

/// What the homeserver has told us about delayed events, learned by trying.
#[derive(Debug, Clone, Copy, PartialEq, Eq, Structural)]
pub enum DelayedLeaveSupport {
    /// Nothing tried yet. Treated as supported.
    Unknown,
    /// A delayed leave was armed at least once.
    Supported,
    /// The last attempt to arm one failed.
    Unsupported {
        /// When that was, in epoch milliseconds.
        last_probe_ms: u64,
        /// Whether the homeserver said that it will never work.
        permanent: bool,
    },
}

impl DelayedLeaveSupport {
    /// Whether a delayed leave is believed to be available.
    pub open spec fn available(self) -> bool {
        !(self is Unsupported)
    }

    /// Whether a delayed leave is believed to be available.
    pub fn is_available(&self) -> (yes: bool)
        ensures
            yes == self.available(),
    {
        match self {
            DelayedLeaveSupport::Unsupported { .. } => false,
            _ => true,
        }
    }

    /// Whether it is worth asking the homeserver for a delayed leave.
    ///
    /// Always, unless it has refused one: if in as many words, never again; if it
    /// merely failed, once the probe interval has passed.
    pub open spec fn probe_due(self, now: u64) -> bool {
        match self {
            DelayedLeaveSupport::Unknown => true,
            DelayedLeaveSupport::Supported => true,
            DelayedLeaveSupport::Unsupported { last_probe_ms, permanent } => !permanent && age(
                last_probe_ms,
                now,
            ) >= DELAYED_LEAVE_PROBE_INTERVAL_MS,
        }
    }
}

/// The lifetimes a membership runs on, all in milliseconds.
#[derive(Debug, Clone, Copy, PartialEq, Eq, Structural)]
pub struct MembershipTimings {
    /// How long the delayed leave waits before it fires.
    pub keep_alive_timeout_ms: u64,
    /// How long the homeserver keeps our sticky entry.
    pub sticky_duration_ms: u64,
    /// The lifetime to use instead where delayed events are unavailable.
    pub degraded_lifetime_ms: u64,
}

impl MembershipTimings {
    /// The default lifetimes.
    pub open spec fn standard() -> MembershipTimings {
        MembershipTimings {
            keep_alive_timeout_ms: DEFAULT_KEEP_ALIVE_TIMEOUT_MS,
            sticky_duration_ms: DEFAULT_STICKY_DURATION_MS,
            degraded_lifetime_ms: DEFAULT_DEGRADED_LIFETIME_MS,
        }
    }
}

impl Default for MembershipTimings {
    fn default() -> (timings: MembershipTimings)
        ensures
            timings == MembershipTimings::standard(),
    {
        MembershipTimings {
            keep_alive_timeout_ms: DEFAULT_KEEP_ALIVE_TIMEOUT_MS,
            sticky_duration_ms: DEFAULT_STICKY_DURATION_MS,
            degraded_lifetime_ms: DEFAULT_DEGRADED_LIFETIME_MS,
        }
    }
}

/// The membership event we last put in the sticky map.
#[derive(Debug)]
pub struct SentSticky {
    /// Its content, sent again verbatim to refresh the entry.
    pub content: Json,
    /// When the homeserver accepted it, in epoch milliseconds.
    pub sent_at_ms: u64,
}

/// A membership event on its way into the sticky map.
#[derive(Debug)]
pub struct StickySend {
    /// Its content.
    pub content: Json,
    /// How long the homeserver is to keep it.
    pub duration_ms: u64,
}

/// What a heartbeat does about the delayed leave.
#[derive(Debug)]
pub enum KeepAliveAction {
    /// Nothing.
    Rest,
    /// Arm one; report the outcome to [`OwnMembershipMachine::on_armed`].
    Arm(RtcCommand),
    /// Push the armed one back out; report the outcome to
    /// [`OwnMembershipMachine::on_restarted`].
    Restart {
        /// The armed one's delay id.
        delay_id: String,
        /// The command.
        command: RtcCommand,
    },
}

/// Manages our own membership in one session.
#[derive(Debug)]
pub struct OwnMembershipMachine {
    /// The session's room.
    pub room_id: String,
    /// The session's slot.
    pub slot_id: String,
    /// Our member id, which doubles as the sticky key.
    pub sticky_key: String,
    /// The application's type.
    pub application_type: String,
    /// The lifetimes the membership runs on.
    pub timings: MembershipTimings,
    /// Where the machine stands.
    pub state: OwnMembershipState,
    /// The delayed leave that is armed, if any.
    pub keep_alive_info: Option<KeepAliveInfo>,
    /// What we know of the homeserver's delayed events.
    pub delayed_support: DelayedLeaveSupport,
    /// The lifetime every membership event of this join is published with. Chosen
    /// by the join and never moved, because a sticky entry cannot be shortened:
    /// of two events with one key, the last to expire wins.
    pub published_lifetime_ms: u64,
    /// The join content and when it was last sent. `None` unless joined.
    pub last_sticky: Option<SentSticky>,
    /// The id of the event that currently represents us in the sticky map.
    pub latest_event_id: Option<String>,
}

/// The content of a leave.
pub open spec fn leave_content(
    slot_id: Seq<char>,
    sticky_key: Seq<char>,
    reason: LeaveReasonView,
) -> ContentView {
    ContentView {
        slot_id,
        sticky_key,
        member: MemberView { id: Some(sticky_key), membership: Some(MembershipView::Leave) },
        application: ApplicationView::none(),
        transports: None,
        leave_reason: Some(reason),
        created_ts: None,
    }
}

/// The content of a join. Transports that say nothing are left out.
pub open spec fn join_content(
    slot_id: Seq<char>,
    sticky_key: Seq<char>,
    application_type: Seq<char>,
    transports: MemberTransports,
) -> ContentView {
    ContentView {
        slot_id,
        sticky_key,
        member: MemberView { id: Some(sticky_key), membership: Some(MembershipView::Join) },
        application: ApplicationView {
            application_type: Some(application_type),
            extra: Map::empty(),
        },
        transports: if transports.says_nothing() {
            None
        } else {
            Some(transports@)
        },
        leave_reason: None,
        created_ts: None,
    }
}

/// Why the homeserver leaves on our behalf.
pub open spec fn delayed_leave_reason() -> LeaveReasonView {
    LeaveReasonView {
        code: LeaveCodeView::DelayedLeave,
        reason: Some("Dead man's switch: client failed to heartbeat"@),
    }
}

impl OwnMembershipMachine {
    /// Whether a command schedules our delayed leave.
    pub open spec fn arms_delayed_leave(self, command: RtcCommand) -> bool {
        command matches RtcCommand::SendDelayed { room_id, event_type, content, delay_ms }
            && room_id@ == self.room_id@ && event_type@ == MEMBER_EVENT_TYPE@ && content@
            == content_json(
            leave_content(self.slot_id@, self.sticky_key@, delayed_leave_reason()),
        ) && delay_ms == self.timings.keep_alive_timeout_ms
    }

    /// Whether a command puts `content` in the sticky map for `duration`.
    pub open spec fn sends_sticky(
        self,
        command: RtcCommand,
        content: JsonView,
        duration: u64,
    ) -> bool {
        command matches RtcCommand::SendSticky { room_id, event_type, content: sent, duration_ms }
            && room_id@ == self.room_id@ && event_type@ == MEMBER_EVENT_TYPE@ && sent@ == content
            && duration_ms == duration
    }

    /// A machine that has not joined.
    pub fn new(
        room_id: String,
        slot_id: String,
        sticky_key: String,
        application_type: String,
        timings: MembershipTimings,
    ) -> (machine: OwnMembershipMachine)
        ensures
            machine == (OwnMembershipMachine {
                room_id,
                slot_id,
                sticky_key,
                application_type,
                timings,
                state: OwnMembershipState::NotJoined,
                keep_alive_info: None,
                delayed_support: DelayedLeaveSupport::Unknown,
                published_lifetime_ms: timings.sticky_duration_ms,
                last_sticky: None,
                latest_event_id: None,
            }),
    {
        OwnMembershipMachine {
            room_id,
            slot_id,
            sticky_key,
            application_type,
            timings,
            state: OwnMembershipState::NotJoined,
            keep_alive_info: None,
            delayed_support: DelayedLeaveSupport::Unknown,
            published_lifetime_ms: timings.sticky_duration_ms,
            last_sticky: None,
            latest_event_id: None,
        }
    }

    /// A machine that has not joined, with the default lifetimes.
    pub fn with_default_timeout(
        room_id: String,
        slot_id: String,
        sticky_key: String,
        application_type: String,
    ) -> (machine: OwnMembershipMachine)
        ensures
            machine == (OwnMembershipMachine {
                room_id,
                slot_id,
                sticky_key,
                application_type,
                timings: MembershipTimings::standard(),
                state: OwnMembershipState::NotJoined,
                keep_alive_info: None,
                delayed_support: DelayedLeaveSupport::Unknown,
                published_lifetime_ms: DEFAULT_STICKY_DURATION_MS,
                last_sticky: None,
                latest_event_id: None,
            }),
    {
        OwnMembershipMachine::new(
            room_id,
            slot_id,
            sticky_key,
            application_type,
            MembershipTimings::default(),
        )
    }

    /// Where the machine stands.
    pub fn state(&self) -> (state: OwnMembershipState)
        ensures
            state == self.state,
    {
        self.state
    }

    /// Our member id, which doubles as the sticky key.
    pub fn sticky_key(&self) -> (key: &str)
        ensures
            key@ == self.sticky_key@,
    {
        self.sticky_key.as_str()
    }

    /// The session's room.
    pub fn room_id(&self) -> (room_id: &str)
        ensures
            room_id@ == self.room_id@,
    {
        self.room_id.as_str()
    }

    /// The session's slot.
    pub fn slot_id(&self) -> (slot_id: &str)
        ensures
            slot_id@ == self.slot_id@,
    {
        self.slot_id.as_str()
    }

    /// What the homeserver has told us about delayed events.
    pub fn delayed_leave_support(&self) -> (support: DelayedLeaveSupport)
        ensures
            support == self.delayed_support,
    {
        self.delayed_support
    }

    /// Whether a dead man's switch is believed to protect this membership.
    pub fn delayed_leave_supported(&self) -> (yes: bool)
        ensures
            yes == self.delayed_support.available(),
    {
        self.delayed_support.is_available()
    }

    /// How long every membership event of this join lives.
    pub fn membership_lifetime_ms(&self) -> (ms: u64)
        ensures
            ms == self.published_lifetime_ms,
    {
        self.published_lifetime_ms
    }

    /// The id of the event that currently represents us in the sticky map. Moves
    /// on every refresh.
    pub fn membership_event_id(&self) -> (id: Option<String>)
        ensures
            id == self.latest_event_id,
    {
        match &self.latest_event_id {
            Some(id) => Some(id.clone()),
            None => None,
        }
    }

    /// The delay id of the delayed leave that is armed, if any.
    pub open spec fn armed_id(self) -> Option<String> {
        match self.keep_alive_info {
            Some(info) => Some(info.delayed_event_id),
            None => None,
        }
    }

    /// The delay id of the delayed leave that is armed, if any.
    pub fn delayed_event_id(&self) -> (id: Option<String>)
        ensures
            id == self.armed_id(),
    {
        match &self.keep_alive_info {
            Some(info) => Some(info.delayed_event_id.clone()),
            None => None,
        }
    }

    /// The command that schedules our delayed leave.
    fn schedule_delayed_leave(&self) -> (command: RtcCommand)
        ensures
            self.arms_delayed_leave(command),
    {
        let reason: LeaveReason = LeaveReason::with_reason(
            LeaveCode::DelayedLeave,
            "Dead man's switch: client failed to heartbeat",
        );
        let content: RawStickyEventContent = RawStickyEventContent::for_leave(
            self.slot_id.clone(),
            self.sticky_key.clone(),
            Some(reason),
        );
        proof {
            assert(members_model(content.application.extra@) =~= Map::empty());
            assert(content@ == leave_content(
                self.slot_id@,
                self.sticky_key@,
                delayed_leave_reason(),
            ));
        }
        RtcCommand::SendDelayed {
            room_id: self.room_id.clone(),
            event_type: MEMBER_EVENT_TYPE.to_owned(),
            content: content.to_json(),
            delay_ms: self.timings.keep_alive_timeout_ms,
        }
    }

    /// The command that puts a membership event in the sticky map.
    pub fn sticky_command(&self, send: &StickySend) -> (command: RtcCommand)
        ensures
            self.sends_sticky(command, send.content@, send.duration_ms),
    {
        RtcCommand::SendSticky {
            room_id: self.room_id.clone(),
            event_type: MEMBER_EVENT_TYPE.to_owned(),
            content: send.content.clone(),
            duration_ms: send.duration_ms,
        }
    }

    /// Begins a join: the delayed leave is armed first, so that a client that
    /// dies at any point is cleaned up after.
    pub fn join(&mut self) -> (command: RtcCommand)
        ensures
            old(self).arms_delayed_leave(command),
            *final(self) == (OwnMembershipMachine {
                state: OwnMembershipState::Joining,
                ..*old(self)
            }),
    {
        self.state = OwnMembershipState::Joining;
        self.schedule_delayed_leave()
    }

    /// This machine once an attempt to arm a delayed leave was answered.
    pub open spec fn after_arming(self, armed: Result<String, CommandError>, now: u64) -> Self {
        match armed {
            Ok(delayed_event_id) => OwnMembershipMachine {
                delayed_support: DelayedLeaveSupport::Supported,
                keep_alive_info: Some(
                    KeepAliveInfo {
                        delayed_event_id,
                        timeout_ms: self.timings.keep_alive_timeout_ms,
                        last_restart_ms: now,
                    },
                ),
                ..self
            },
            Err(error) => OwnMembershipMachine {
                delayed_support: DelayedLeaveSupport::Unsupported {
                    last_probe_ms: now,
                    permanent: error is DelayedEventsNotSupported,
                },
                ..self
            },
        }
    }

    /// Takes the answer to an attempt to arm a delayed leave.
    ///
    /// A homeserver that refused in as many words is taken at its word; any other
    /// failure may have been a blip.
    pub fn on_armed(&mut self, armed: Result<String, CommandError>, now: u64)
        ensures
            *final(self) == old(self).after_arming(armed, now),
    {
        match armed {
            Ok(delayed_event_id) => {
                self.delayed_support = DelayedLeaveSupport::Supported;
                self.keep_alive_info = Some(
                    KeepAliveInfo {
                        delayed_event_id,
                        timeout_ms: self.timings.keep_alive_timeout_ms,
                        last_restart_ms: now,
                    },
                );
            },
            Err(error) => {
                self.delayed_support = DelayedLeaveSupport::Unsupported {
                    last_probe_ms: now,
                    permanent: error.is_delayed_events_unsupported(),
                };
            },
        }
    }

    /// The lifetime a join is published with, given how arming went.
    pub open spec fn join_lifetime(self, armed: Result<String, CommandError>) -> u64 {
        match armed {
            Ok(_) => self.published_lifetime_ms,
            Err(_) => self.timings.degraded_lifetime_ms,
        }
    }

    /// Whether `after` and `send` are what becomes of a join once arming was
    /// answered.
    pub open spec fn join_continued(
        self,
        armed: Result<String, CommandError>,
        transports: MemberTransports,
        now: u64,
        after: OwnMembershipMachine,
        send: StickySend,
    ) -> bool {
        &&& after == (OwnMembershipMachine {
            published_lifetime_ms: self.join_lifetime(armed),
            ..self.after_arming(armed, now)
        })
        &&& send.content@ == content_json(
            join_content(self.slot_id@, self.sticky_key@, self.application_type@, transports),
        )
        &&& send.duration_ms == self.join_lifetime(armed)
    }

    /// Continues a join once arming was answered: settles the membership's
    /// lifetime and says what to publish. A homeserver without delayed events does
    /// not fail the join.
    pub fn on_join_armed(
        &mut self,
        armed: Result<String, CommandError>,
        transports: MemberTransports,
        now: u64,
    ) -> (send: StickySend)
        ensures
            old(self).join_continued(armed, transports, now, *final(self), send),
    {
        if armed.is_err() {
            self.published_lifetime_ms = self.timings.degraded_lifetime_ms;
        }
        self.on_armed(armed, now);
        let content: RawStickyEventContent = RawStickyEventContent::for_join(
            self.slot_id.clone(),
            self.sticky_key.clone(),
            self.application_type.clone(),
            transports,
        );
        proof {
            assert(members_model(content.application.extra@) =~= Map::empty());
            assert(content@ == join_content(
                self.slot_id@,
                self.sticky_key@,
                self.application_type@,
                transports,
            ));
        }
        StickySend { content: content.to_json(), duration_ms: self.published_lifetime_ms }
    }

    /// Whether `after` is this machine once publishing `send` was answered.
    pub open spec fn published(
        self,
        send: StickySend,
        sent: Result<String, CommandError>,
        now: u64,
        after: OwnMembershipMachine,
    ) -> bool {
        match sent {
            Ok(event_id) => after == (OwnMembershipMachine {
                state: OwnMembershipState::Joined,
                last_sticky: Some(SentSticky { content: send.content, sent_at_ms: now }),
                latest_event_id: Some(event_id),
                ..self
            }),
            Err(_) => after == (OwnMembershipMachine {
                state: OwnMembershipState::NotJoined,
                ..self
            }),
        }
    }

    /// Finishes a join once publishing was answered. Only this step can fail it:
    /// if nothing was published, we are not in the call.
    pub fn on_join_sent(
        &mut self,
        send: StickySend,
        sent: Result<String, CommandError>,
        now: u64,
    ) -> (joined: Result<String, CommandError>)
        ensures
            joined == sent,
            old(self).published(send, sent, now, *final(self)),
    {
        match sent {
            Ok(event_id) => {
                self.last_sticky = Some(SentSticky { content: send.content, sent_at_ms: now });
                self.latest_event_id = Some(event_id.clone());
                self.state = OwnMembershipState::Joined;
                Ok(event_id)
            },
            Err(error) => {
                self.state = OwnMembershipState::NotJoined;
                Err(error)
            },
        }
    }

    /// Whether `after` and `command` are what a leave for the given cause begins
    /// with.
    pub open spec fn leave_begun(
        self,
        leave_reason: Option<LeaveReason>,
        after: OwnMembershipMachine,
        command: RtcCommand,
    ) -> bool {
        &&& after == (OwnMembershipMachine { state: OwnMembershipState::Leaving, ..self })
        &&& self.sends_sticky(
            command,
            content_json(
                leave_content(
                    self.slot_id@,
                    self.sticky_key@,
                    match leave_reason {
                        Some(reason) => reason@,
                        None => LeaveReasonView { code: LeaveCodeView::Leave, reason: None },
                    },
                ),
            ),
            self.published_lifetime_ms,
        )
    }

    /// Begins a leave: says which leave to publish. A leave without a stated cause
    /// is a plain `leave`.
    pub fn leave(&mut self, leave_reason: Option<LeaveReason>) -> (command: RtcCommand)
        ensures
            old(self).leave_begun(leave_reason, *final(self), command),
    {
        let reason: LeaveReason = match leave_reason {
            Some(reason) => reason,
            None => LeaveReason::new(LeaveCode::Leave),
        };
        let content: RawStickyEventContent = RawStickyEventContent::for_leave(
            self.slot_id.clone(),
            self.sticky_key.clone(),
            Some(reason),
        );
        proof {
            assert(members_model(content.application.extra@) =~= Map::empty());
            assert(content@ == leave_content(self.slot_id@, self.sticky_key@, reason@));
        }
        let send = StickySend {
            content: content.to_json(),
            duration_ms: self.published_lifetime_ms,
        };
        self.state = OwnMembershipState::Leaving;
        self.sticky_command(&send)
    }

    /// Whether `after` and `next` are what becomes of a leave once publishing it was
    /// answered.
    pub open spec fn leave_continued(
        self,
        sent: Result<String, CommandError>,
        after: OwnMembershipMachine,
        next: Result<Option<RtcCommand>, CommandError>,
    ) -> bool {
        match sent {
            Err(error) => next == Err::<Option<RtcCommand>, CommandError>(error) && after == self,
            Ok(_) => {
                &&& next is Ok
                &&& after == (OwnMembershipMachine {
                    last_sticky: None,
                    latest_event_id: None,
                    state: if self.keep_alive_info is Some {
                        self.state
                    } else {
                        OwnMembershipState::Left
                    },
                    ..self
                })
                &&& match self.armed_id() {
                    Some(id) => next->Ok_0 == Some(
                        RtcCommand::CancelDelayed { room_id: self.room_id, delay_id: id },
                    ),
                    None => next->Ok_0 is None,
                }
            },
        }
    }

    /// Continues a leave once publishing was answered. A failure is handed back,
    /// and the leave stays under way. Otherwise the membership is no longer
    /// refreshed, and a delayed leave that is still armed has to be cancelled.
    pub fn on_leave_sent(&mut self, sent: Result<String, CommandError>) -> (next: Result<
        Option<RtcCommand>,
        CommandError,
    >)
        ensures
            old(self).leave_continued(sent, *final(self), next),
    {
        match sent {
            Err(error) => Err(error),
            Ok(_) => {
                self.last_sticky = None;
                self.latest_event_id = None;
                match self.delayed_event_id() {
                    Some(delay_id) => Ok(
                        Some(RtcCommand::CancelDelayed { room_id: self.room_id.clone(), delay_id }),
                    ),
                    None => {
                        self.state = OwnMembershipState::Left;
                        Ok(None)
                    },
                }
            },
        }
    }

    /// Whether `after` is this machine once cancelling was answered.
    pub open spec fn leave_finished(self, after: OwnMembershipMachine) -> bool {
        after == (OwnMembershipMachine {
            keep_alive_info: None,
            state: OwnMembershipState::Left,
            ..self
        })
    }

    /// Finishes a leave once cancelling was answered, however it was: a delayed
    /// leave that could not be cancelled has most likely fired, and we have left
    /// either way.
    pub fn on_leave_cancelled(&mut self, cancelled: Result<(), CommandError>)
        ensures
            old(self).leave_finished(*final(self)),
    {
        self.keep_alive_info = None;
        self.state = OwnMembershipState::Left;
    }

    /// Whether the sticky entry is halfway to expiry.
    pub open spec fn refresh_due(self, now: u64) -> bool {
        self.last_sticky matches Some(sticky) && age(sticky.sent_at_ms, now)
            >= self.published_lifetime_ms / 2
    }

    /// Whether `send` is what is due to be published again at `now`.
    pub open spec fn refreshes_with(self, now: u64, send: Option<StickySend>) -> bool {
        &&& send is Some <==> self.refresh_due(now)
        &&& send matches Some(send) ==> send.content@ == self.last_sticky->0.content@
            && send.duration_ms == self.published_lifetime_ms
    }

    /// The refresh a heartbeat has to send first, if any: the membership verbatim,
    /// for the lifetime the join settled on.
    pub fn refresh_sticky_if_due(&self, now: u64) -> (send: Option<StickySend>)
        ensures
            self.refreshes_with(now, send),
    {
        match &self.last_sticky {
            Some(sticky) => {
                let elapsed: u64 = now.saturating_sub(sticky.sent_at_ms);
                if elapsed < self.published_lifetime_ms / 2 {
                    None
                } else {
                    Some(
                        StickySend {
                            content: sticky.content.clone(),
                            duration_ms: self.published_lifetime_ms,
                        },
                    )
                }
            },
            None => None,
        }
    }

    /// Whether `after` is this machine once refreshing was answered.
    pub open spec fn refreshed(
        self,
        content: JsonView,
        sent: Result<String, CommandError>,
        now: u64,
        after: OwnMembershipMachine,
    ) -> bool {
        match sent {
            Ok(event_id) => after == (OwnMembershipMachine {
                latest_event_id: Some(event_id),
                last_sticky: match self.last_sticky {
                    Some(current) => if current.content@ == content {
                        Some(SentSticky { content: current.content, sent_at_ms: now })
                    } else {
                        Some(current)
                    },
                    None => None,
                },
                ..self
            }),
            Err(_) => after == self,
        }
    }

    /// Takes the answer to a refresh. The clock only advances if the content is
    /// still the one being tracked: a join or leave may have replaced it meanwhile.
    pub fn on_sticky_refreshed(
        &mut self,
        send: StickySend,
        sent: Result<String, CommandError>,
        now: u64,
    )
        ensures
            old(self).refreshed(send.content@, sent, now, *final(self)),
    {
        match sent {
            Ok(event_id) => {
                self.latest_event_id = Some(event_id);
                let mut taken: Option<SentSticky> = None;
                std::mem::swap(&mut taken, &mut self.last_sticky);
                self.last_sticky = match taken {
                    Some(current) => if current.content.same(&send.content) {
                        Some(SentSticky { content: current.content, sent_at_ms: now })
                    } else {
                        Some(current)
                    },
                    None => None,
                };
            },
            Err(_) => {},
        }
    }

    /// Whether `action` is what a heartbeat does about the delayed leave.
    pub open spec fn beats(self, now: u64, action: KeepAliveAction) -> bool {
        match self.armed_id() {
            Some(id) => action == (KeepAliveAction::Restart {
                delay_id: id,
                command: RtcCommand::RestartDelayed { room_id: self.room_id, delay_id: id },
            }),
            None => if self.state == OwnMembershipState::Joined && self.delayed_support.probe_due(
                now,
            ) {
                action matches KeepAliveAction::Arm(command) && self.arms_delayed_leave(command)
            } else {
                action is Rest
            },
        }
    }

    /// What a heartbeat does about the delayed leave: the armed one is restarted;
    /// without one, arming is tried while joined and worth asking.
    pub fn heartbeat(&self, now: u64) -> (action: KeepAliveAction)
        ensures
            self.beats(now, action),
    {
        match self.delayed_event_id() {
            Some(delay_id) => KeepAliveAction::Restart {
                delay_id: delay_id.clone(),
                command: RtcCommand::RestartDelayed { room_id: self.room_id.clone(), delay_id },
            },
            None => if self.state == OwnMembershipState::Joined && self.delayed_leave_probe_due(
                now,
            ) {
                KeepAliveAction::Arm(self.schedule_delayed_leave())
            } else {
                KeepAliveAction::Rest
            },
        }
    }

    /// Whether it is worth asking the homeserver for a delayed leave.
    pub fn delayed_leave_probe_due(&self, now: u64) -> (due: bool)
        ensures
            due == self.delayed_support.probe_due(now),
    {
        match self.delayed_support {
            DelayedLeaveSupport::Unknown | DelayedLeaveSupport::Supported => true,
            DelayedLeaveSupport::Unsupported { last_probe_ms, permanent } => !permanent
                && now.saturating_sub(last_probe_ms) >= DELAYED_LEAVE_PROBE_INTERVAL_MS,
        }
    }

    /// Whether the armed delayed leave must have fired: its full delay has passed
    /// since it was last restarted.
    pub open spec fn certainly_fired(self, now: u64) -> bool {
        self.keep_alive_info matches Some(info) && age(info.last_restart_ms, now) > info.timeout_ms
    }

    /// Whether `after` and `rearm` are what becomes of this machine once a restart
    /// of `delay_id` was answered.
    pub open spec fn restarted(
        self,
        delay_id: Seq<char>,
        outcome: Result<(), CommandError>,
        now: u64,
        after: OwnMembershipMachine,
        rearm: Option<RtcCommand>,
    ) -> bool {
        match outcome {
            Ok(()) => {
                &&& rearm is None
                &&& after == (match self.keep_alive_info {
                    Some(info) => if info.delayed_event_id@ == delay_id {
                        OwnMembershipMachine {
                            keep_alive_info: Some(KeepAliveInfo { last_restart_ms: now, ..info }),
                            ..self
                        }
                    } else {
                        self
                    },
                    None => self,
                })
            },
            Err(_) => if self.certainly_fired(now) {
                &&& after == (OwnMembershipMachine { keep_alive_info: None, ..self })
                &&& rearm matches Some(command) && self.arms_delayed_leave(command)
            } else {
                rearm is None && after == self
            },
        }
    }

    /// Takes the answer to a restart, and says whether to arm a replacement.
    ///
    /// A restart can keep failing while the delayed leave is armed all the same,
    /// and arming a second one would leak the first, which then marks us departed
    /// when it fires. So a replacement is armed only once the old one must be
    /// gone; its outcome is reported to [`OwnMembershipMachine::on_armed`].
    pub fn on_restarted(&mut self, delay_id: &str, outcome: Result<(), CommandError>, now: u64) -> (
    rearm: Option<RtcCommand>)
        ensures
            old(self).restarted(delay_id@, outcome, now, *final(self), rearm),
    {
        match outcome {
            Ok(()) => {
                let mut taken: Option<KeepAliveInfo> = None;
                std::mem::swap(&mut taken, &mut self.keep_alive_info);
                self.keep_alive_info = match taken {
                    Some(info) => if crate::text::same_text(
                        info.delayed_event_id.as_str(),
                        delay_id,
                    ) {
                        Some(
                            KeepAliveInfo {
                                delayed_event_id: info.delayed_event_id,
                                timeout_ms: info.timeout_ms,
                                last_restart_ms: now,
                            },
                        )
                    } else {
                        Some(info)
                    },
                    None => None,
                };
                None
            },
            Err(_) => self.rearm_if_certainly_fired(now),
        }
    }

    /// Arms a fresh delayed leave, but only once the old one must be gone.
    fn rearm_if_certainly_fired(&mut self, now: u64) -> (rearm: Option<RtcCommand>)
        ensures
            if old(self).certainly_fired(now) {
                &&& *final(self) == (OwnMembershipMachine { keep_alive_info: None, ..*old(self) })
                &&& rearm matches Some(command) && old(self).arms_delayed_leave(command)
            } else {
                rearm is None && *final(self) == *old(self)
            },
    {
        let fired: bool = match &self.keep_alive_info {
            Some(info) => now.saturating_sub(info.last_restart_ms) > info.timeout_ms,
            None => false,
        };
        if !fired {
            return None;
        }
        self.keep_alive_info = None;
        Some(self.schedule_delayed_leave())
    }
}

/// The lifetime a join settled on does not move afterwards: no refresh, restart
/// or attempt to arm changes it, and every refresh is published with it.
pub proof fn law_lifetime_is_settled_at_join(
    machine: OwnMembershipMachine,
    content: JsonView,
    sent: Result<String, CommandError>,
    armed: Result<String, CommandError>,
    delay_id: Seq<char>,
    outcome: Result<(), CommandError>,
    now: u64,
    refreshed: OwnMembershipMachine,
    restarted: OwnMembershipMachine,
    rearm: Option<RtcCommand>,
)
    requires
        machine.refreshed(content, sent, now, refreshed),
        machine.restarted(delay_id, outcome, now, restarted, rearm),
    ensures
        refreshed.published_lifetime_ms == machine.published_lifetime_ms,
        restarted.published_lifetime_ms == machine.published_lifetime_ms,
        machine.after_arming(armed, now).published_lifetime_ms == machine.published_lifetime_ms,
{
}

/// A homeserver that refused delayed events in as many words is never asked
/// again, at whatever time.
pub proof fn law_permanent_refusal_is_final(
    machine: OwnMembershipMachine,
    error: CommandError,
    at: u64,
    now: u64,
)
    requires
        error is DelayedEventsNotSupported,
    ensures
        !machine.after_arming(Err(error), at).delayed_support.probe_due(now),
{
}

/// A homeserver that merely failed is asked again exactly once the probe interval
/// has passed.
pub proof fn law_failed_probe_is_paced(
    machine: OwnMembershipMachine,
    error: CommandError,
    at: u64,
    now: u64,
)
    requires
        !(error is DelayedEventsNotSupported),
        at <= now,
    ensures
        machine.after_arming(Err(error), at).delayed_support.probe_due(now) <==> now - at
            >= DELAYED_LEAVE_PROBE_INTERVAL_MS,
{
}

/// A failed restart never leads to a second delayed leave while the first may
/// still be armed.
pub proof fn law_no_delayed_leave_is_leaked(
    machine: OwnMembershipMachine,
    delay_id: Seq<char>,
    outcome: Result<(), CommandError>,
    now: u64,
    after: OwnMembershipMachine,
    rearm: Option<RtcCommand>,
)
    requires
        machine.restarted(delay_id, outcome, now, after, rearm),
        rearm is Some,
    ensures
        machine.keep_alive_info is Some,
        now - machine.keep_alive_info->0.last_restart_ms > machine.keep_alive_info->0.timeout_ms,
        after.keep_alive_info is None,
{
}

/// A join that could not arm a delayed leave is published all the same, with the
/// degraded lifetime; and whether a join succeeds is decided by publishing alone.
pub proof fn law_join_degrades_rather_than_fails(
    machine: OwnMembershipMachine,
    armed: Result<String, CommandError>,
    send: StickySend,
    sent: Result<String, CommandError>,
    now: u64,
    after: OwnMembershipMachine,
)
    requires
        machine.published(send, sent, now, after),
    ensures
        armed is Err ==> machine.join_lifetime(armed) == machine.timings.degraded_lifetime_ms,
        after.state == OwnMembershipState::Joined <==> sent is Ok,
        after.state == OwnMembershipState::NotJoined <==> sent is Err,
{
}

/// After a refresh was accepted, the next one is due only once the entry is again
/// halfway to expiry. Lifetimes too short to have a half are left out.
pub proof fn law_refresh_restarts_the_clock(
    machine: OwnMembershipMachine,
    event_id: String,
    at: u64,
    after: OwnMembershipMachine,
    now: u64,
)
    requires
        machine.last_sticky is Some,
        machine.refreshed(machine.last_sticky->0.content@, Ok(event_id), at, after),
        at <= now,
        machine.published_lifetime_ms >= 2,
    ensures
        after.refresh_due(now) <==> now - at >= machine.published_lifetime_ms / 2,
        after.latest_event_id == Some(event_id),
{
}

/// A transport is told as an object of its type: LiveKit with its service URL and nothing
/// else, any other with whatever else it says. Where one of these says a type of its own
/// among the rest, that one counts.
pub proof fn law_transport_is_told_as_it_is(transport: RtcTransport, name: Seq<char>)
    ensures
        transport matches RtcTransport::LiveKit(livekit) ==> {
            &&& transport_json(transport).get("type"@) == Some(JsonView::Text("livekit"@))
            &&& transport_json(transport).get("livekit_service_url"@) == Some(
                JsonView::Text(livekit.livekit_service_url@),
            )
            &&& name != "type"@ && name != "livekit_service_url"@ ==> transport_json(transport).get(
                name,
            ) is None
        },
        transport matches RtcTransport::Unsupported(other) ==> {
            let rest = members_model(other.extra_fields@);
            transport_json(transport).get(name) == (if rest.contains_key(name) {
                Some(rest[name])
            } else if name == "type"@ {
                Some(JsonView::Text(other.transport_type@))
            } else {
                None
            })
        },
{
    reveal_strlit("type");
    reveal_strlit("livekit_service_url");
    assert("type"@.len() == 4 && "livekit_service_url"@.len() == 19);
}

} // verus!
