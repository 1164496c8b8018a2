//! Our own part in a session: joining it, being in it, leaving it.
//!
//! Joining takes two exchanges with the homeserver: a delayed leave is armed, and
//! then the membership is published. We are in the session once the second was
//! accepted, and not before. A session outlives our part in it: whoever else is
//! in it stays.

use vstd::prelude::*;
use crate::commands::RtcCommand;
use crate::encryption::inbound::KeyEvent;
use crate::encryption::signals::MembershipsUpdate;
use crate::encryption::types::{EncryptionConfig, ReceivedEncryptionKey};
use crate::encryption::{EncryptionManager, KEY_LENGTH};
use crate::encoding::base64_decoded;
use crate::error::{CommandError, JoinError, LeaveError};
use crate::join::{
    honoured, is_generated_id, or_default, JoinSessionParams, LeaveSessionParams, TransportIntent,
    DEFAULT_DEGRADED_LIFETIME_MS, DEFAULT_KEEP_ALIVE_TIMEOUT_MS, DEFAULT_STICKY_DURATION_MS,
};
use crate::notification::{
    build_notification_content, notification_content, notification_sticky_duration_ms,
    sticky_duration, NotifyConfig, NOTIFICATION_EVENT_TYPE,
};
use crate::own_membership::{
    leave_content, DelayedLeaveSupport, MembershipTimings, OwnMembershipMachine,
    OwnMembershipState, StickySend,
};
use crate::random::drawn;
use crate::roster::RtcSession;
use crate::session::{JoinedMembership, LeaveCode, LeaveCodeView, LeaveReasonView};
use crate::slot::SlotState;
use crate::text::{same_text, texts};
use crate::transport::{MemberTransports, TransportsView};
use crate::wire::content_json;

verus! {

/// Our own part in a session.
#[derive(Debug)]
pub struct Participation {
    /// Our user id.
    pub user_id: String,
    /// Our device id.
    pub device_id: String,
    /// Our membership, which also knows our member id.
    pub membership: OwnMembershipMachine,
    /// The media keys, ours and everybody's.
    pub keys: EncryptionManager,
    /// The notification to send when this starts the session.
    pub notify: Option<NotifyConfig>,
}

/// The lifetimes that join parameters ask for.
pub open spec fn timings_of(params: JoinSessionParams) -> MembershipTimings {
    MembershipTimings {
        keep_alive_timeout_ms: or_default(
            params.keep_alive_timeout_ms,
            DEFAULT_KEEP_ALIVE_TIMEOUT_MS,
        ),
        sticky_duration_ms: honoured(
            or_default(params.sticky_duration_ms, DEFAULT_STICKY_DURATION_MS),
        ),
        degraded_lifetime_ms: honoured(
            or_default(params.degraded_lifetime_ms, DEFAULT_DEGRADED_LIFETIME_MS),
        ),
    }
}

/// Whether media keys are managed in a slot. An open slot says so itself, whatever
/// the application would rather have.
pub open spec fn manages_keys(slot: Option<SlotState>, preference: bool) -> bool {
    match slot {
        Some(SlotState::Open(open)) => open.encryption is Some,
        _ => preference,
    }
}

/// How media keys are managed, given join parameters and what is known of the slot.
pub open spec fn key_config(
    params: JoinSessionParams,
    slot: Option<SlotState>,
) -> EncryptionConfig {
    let config = match params.encryption_config {
        Some(configured) => configured,
        None => EncryptionConfig::standard(),
    };
    EncryptionConfig {
        manage_media_keys: manages_keys(slot, config.manage_media_keys),
        ..config
    }
}

/// The transports a member with the given intent states.
pub open spec fn stated_transports(intent: TransportIntent) -> TransportsView {
    match intent {
        TransportIntent::Publish(transport) => TransportsView {
            published: seq![transport.wire()],
            can_subscribe: seq![transport.wire().transport_type],
        },
        TransportIntent::ReceiveOnly { can_subscribe } => TransportsView {
            published: Seq::empty(),
            can_subscribe: texts(can_subscribe@),
        },
    }
}

/// States the transports of a member with the given intent.
pub fn state_transports(intent: TransportIntent) -> (transports: MemberTransports)
    ensures
        transports@ == stated_transports(intent),
{
    match intent {
        TransportIntent::Publish(transport) => {
            let transports: MemberTransports = MemberTransports::publishing(transport.into_raw());
            assert(transports@ =~= stated_transports(intent));
            transports
        },
        TransportIntent::ReceiveOnly { can_subscribe } => {
            let transports = MemberTransports { published: Vec::new(), can_subscribe };
            assert(transports@ =~= stated_transports(intent));
            transports
        },
    }
}

impl Participation {
    /// Whether the media keys are in order.
    pub open spec fn wf(self) -> bool {
        self.keys.wf()
    }

    /// Our member id.
    pub open spec fn member_id(self) -> Seq<char> {
        self.membership.sticky_key@
    }

    /// Whether a membership is an earlier part of this very device. Every join
    /// takes a new member id, so that one is over.
    pub open spec fn supersedes(self, membership: JoinedMembership) -> bool {
        &&& membership.sender@ == self.user_id@
        &&& membership.origin.device() == Some(self.device_id@)
        &&& membership.member_id@ != self.member_id()
    }

    /// Whether a membership is ours, as far as can be told: a membership of our
    /// user that names no device may well be.
    pub open spec fn is_own(self, membership: JoinedMembership) -> bool {
        ||| membership.member_id@ == self.member_id()
        ||| membership.sender@ == self.user_id@ && (membership.origin.device() is None
            || membership.origin.device() == Some(self.device_id@))
    }

    /// Whether this is what joining with `params` begins with.
    pub open spec fn begun(self, params: JoinSessionParams, slot: Option<SlotState>) -> bool {
        &&& self.user_id == params.user_id
        &&& self.device_id == params.device_id
        &&& self.notify == params.notify
        &&& match params.membership_id {
            Some(id) => self.membership.sticky_key == id,
            None => is_generated_id(self.member_id()) && self.member_id().len() == 32,
        }
        &&& self.membership == (OwnMembershipMachine {
            room_id: params.room_id,
            slot_id: params.slot_id,
            sticky_key: self.membership.sticky_key,
            application_type: params.application,
            timings: timings_of(params),
            state: OwnMembershipState::Joining,
            keep_alive_info: None,
            delayed_support: DelayedLeaveSupport::Unknown,
            published_lifetime_ms: timings_of(params).sticky_duration_ms,
            last_sticky: None,
            latest_event_id: None,
        })
        &&& self.keys.wf()
        &&& self.keys.is_blank()
        &&& self.keys.own_user_id == params.user_id
        &&& self.keys.own_device_id == params.device_id
        &&& self.keys.own_member_id == self.membership.sticky_key
        &&& self.keys.room_id == params.room_id
        &&& self.keys.slot_id == params.slot_id
        &&& self.keys.config == key_config(params, slot)
        &&& !self.keys.has_signal_handler
        &&& self.keys.key_buffer.buffer_ttl_ms == 5_000
        &&& !self.keys.key_distribution_in_progress
        &&& !self.keys.need_new_distribution
    }

    /// Whether a membership is an earlier part of this very device.
    pub fn is_superseded(&self, membership: &JoinedMembership) -> (yes: bool)
        ensures
            yes == self.supersedes(*membership),
    {
        same_text(membership.sender.as_str(), self.user_id.as_str())
            && match membership.origin.sender_device_id() {
            Some(device) => same_text(device, self.device_id.as_str()),
            None => false,
        } && !same_text(membership.member_id.as_str(), self.membership.sticky_key.as_str())
    }

    /// Whether a membership is ours, as far as can be told.
    pub fn owns(&self, membership: &JoinedMembership) -> (yes: bool)
        ensures
            yes == self.is_own(*membership),
    {
        same_text(membership.member_id.as_str(), self.membership.sticky_key.as_str()) || same_text(
            membership.sender.as_str(),
            self.user_id.as_str(),
        ) && match membership.origin.sender_device_id() {
            Some(device) => same_text(device, self.device_id.as_str()),
            None => true,
        }
    }
}

/// A join that has been asked for: a delayed leave is being armed.
#[derive(Debug)]
pub struct JoinAttempt {
    /// The part we would have.
    pub participation: Participation,
    /// The transports we would state.
    pub transports: MemberTransports,
}

/// A join whose membership is being published.
#[derive(Debug)]
pub struct JoinPublication {
    /// The part we would have.
    pub participation: Participation,
    /// What is being published.
    pub send: StickySend,
}

impl JoinAttempt {
    /// Begins a join with parameters that were checked already.
    fn begin(params: JoinSessionParams, slot: &Option<SlotState>) -> (begun: (
        JoinAttempt,
        RtcCommand,
    ))
        ensures
            begun.0.participation.begun(params, *slot),
            begun.0.transports@ == stated_transports(params.transport),
            begun.0.participation.membership.arms_delayed_leave(begun.1),
    {
        let member_id: String = params.membership_id();
        let mut config: EncryptionConfig = params.encryption_config();
        match slot {
            Some(SlotState::Open(open)) => {
                config.manage_media_keys = open.encryption.is_some();
            },
            _ => {},
        }
        let mut keys: EncryptionManager = EncryptionManager::new(
            params.user_id.clone(),
            params.device_id.clone(),
            member_id.clone(),
            params.room_id.clone(),
            params.slot_id.clone(),
        );
        keys.set_config(config);
        let timings = MembershipTimings {
            keep_alive_timeout_ms: params.keep_alive_timeout_ms(),
            sticky_duration_ms: params.sticky_duration_ms(),
            degraded_lifetime_ms: params.degraded_lifetime_ms(),
        };
        let mut membership: OwnMembershipMachine = OwnMembershipMachine::new(
            params.room_id,
            params.slot_id,
            member_id,
            params.application,
            timings,
        );
        let command: RtcCommand = membership.join();
        let participation = Participation {
            user_id: params.user_id,
            device_id: params.device_id,
            membership,
            keys,
            notify: params.notify,
        };
        (JoinAttempt { participation, transports: state_transports(params.transport) }, command)
    }

    /// Whether `next` is what becomes of this attempt once arming was answered.
    pub open spec fn continued(
        self,
        armed: Result<String, CommandError>,
        now: u64,
        next: (JoinPublication, RtcCommand),
    ) -> bool {
        let before = self.participation.membership;
        let (publication, command) = next;
        &&& publication.participation == (Participation {
            membership: publication.participation.membership,
            ..self.participation
        })
        &&& before.join_continued(
            armed,
            self.transports,
            now,
            publication.participation.membership,
            publication.send,
        )
        &&& before.sends_sticky(
            command,
            publication.send.content@,
            publication.send.duration_ms,
        )
    }

    /// Continues once arming was answered, whatever the answer: says what to
    /// publish.
    pub fn on_armed(self, armed: Result<String, CommandError>, now: u64) -> (next: (
        JoinPublication,
        RtcCommand,
    ))
        ensures
            self.continued(armed, now, next),
    {
        let mut participation: Participation = self.participation;
        let send: StickySend = participation.membership.on_join_armed(armed, self.transports, now);
        let command: RtcCommand = participation.membership.sticky_command(&send);
        (JoinPublication { participation, send }, command)
    }
}

/// Whether a command notifies the room of a session that we have started.
pub open spec fn notifies(
    command: RtcCommand,
    own: Participation,
    config: NotifyConfig,
    event_id: Seq<char>,
    now: u64,
) -> bool {
    command matches RtcCommand::SendSticky { room_id, event_type, content, duration_ms }
        && room_id == own.membership.room_id && event_type@ == NOTIFICATION_EVENT_TYPE@ && content@
        == notification_content(
        config,
        own.membership.application_type@,
        own.user_id@,
        own.device_id@,
        event_id,
        now,
    ) && duration_ms == sticky_duration(config.lifetime())
}

/// The cause of a leave. Without one it is a plain leave.
pub open spec fn stated_cause(params: LeaveSessionParams) -> LeaveReasonView {
    match params.leave_reason {
        Some(reason) => reason@,
        None => LeaveReasonView { code: LeaveCodeView::Leave, reason: None },
    }
}

/// Whether two lists of members say the same.
pub open spec fn same_members(a: Seq<JoinedMembership>, b: Seq<JoinedMembership>) -> bool {
    &&& a.len() == b.len()
    &&& forall|i: int| 0 <= i < a.len() ==> (#[trigger] a[i]).same_as(b[i])
}

impl RtcSession {
    /// Whether somebody else is in the session already.
    pub open spec fn occupied(self, own: Participation) -> bool {
        exists|i: int|
            0 <= i < self.candidates@.len() && self.counts(#[trigger] self.candidates@[i])
                && !own.is_own(self.candidates@[i])
    }

    /// Whether somebody else is in the session already. Neither our own membership
    /// nor what is left of an earlier one is somebody else; another device of ours
    /// is.
    pub fn is_occupied(&self, own: &Participation) -> (yes: bool)
        ensures
            yes == self.occupied(*own),
    {
        let mut i: usize = 0;
        while i < self.candidates.len()
            invariant
                i <= self.candidates@.len(),
                forall|j: int|
                    0 <= j < i ==> !(self.counts(#[trigger] self.candidates@[j]) && !own.is_own(
                        self.candidates@[j],
                    )),
            decreases self.candidates@.len() - i,
        {
            if self.is_joined(&self.candidates[i]) && !own.owns(&self.candidates[i]) {
                return true;
            }
            i = i + 1;
        }
        false
    }

    /// Whether asking to join with `params` leads to `begun`.
    pub open spec fn asked_to_join(
        self,
        params: JoinSessionParams,
        begun: Result<(JoinAttempt, RtcCommand), JoinError>,
    ) -> bool {
        match begun {
            Ok((attempt, command)) => {
                &&& params.missing() is None
                &&& attempt.participation.begun(params, self.slot)
                &&& attempt.transports@ == stated_transports(params.transport)
                &&& attempt.participation.membership.arms_delayed_leave(command)
            },
            Err(error) => error matches JoinError::InvalidParams(words) && params.missing() == Some(
                words@,
            ),
        }
    }

    /// Asks to join. Refused where a required parameter is missing; otherwise a
    /// delayed leave has to be armed first.
    pub fn join(&self, params: JoinSessionParams) -> (begun: Result<
        (JoinAttempt, RtcCommand),
        JoinError,
    >)
        ensures
            self.asked_to_join(params, begun),
    {
        match params.validate() {
            Ok(()) => Ok(JoinAttempt::begin(params, &self.slot)),
            Err(words) => Err(JoinError::InvalidParams(words)),
        }
    }

    /// Whether `after` and `joined` are what becomes of this session once publishing
    /// a join was answered.
    pub open spec fn entered(
        self,
        publication: JoinPublication,
        sent: Result<String, CommandError>,
        now: u64,
        after: RtcSession,
        joined: Result<Option<RtcCommand>, JoinError>,
    ) -> bool {
        match sent {
            Ok(event_id) => {
                &&& after == (RtcSession { own: after.own, ..self })
                &&& after.own is Some
                &&& after.own->0 == (Participation {
                    membership: after.own->0.membership,
                    keys: after.own->0.keys,
                    ..publication.participation
                })
                &&& publication.participation.membership.published(
                    publication.send,
                    sent,
                    now,
                    after.own->0.membership,
                )
                &&& after.own->0.wf()
                &&& exists|key: Vec<u8>|
                    key@.len() == KEY_LENGTH && drawn(key@)
                        && #[trigger] publication.participation.keys.joined_with(
                        key,
                        now,
                        after.own->0.keys,
                    )
                &&& joined is Ok
                &&& joined->Ok_0 is Some <==> publication.participation.notify is Some
                    && !self.occupied(publication.participation)
                &&& joined->Ok_0 matches Some(command) ==> notifies(
                    command,
                    publication.participation,
                    publication.participation.notify->0,
                    event_id@,
                    now,
                )
            },
            Err(error) => {
                &&& joined == Err::<Option<RtcCommand>, JoinError>(JoinError::CommandError(error))
                &&& after == self
            },
        }
    }

    /// Takes the answer to publishing a join. If it was accepted we are in the
    /// session, with a fresh media key where keys are managed; and where that
    /// starts the session and we were asked to, the room is to be notified.
    pub fn on_join_sent(
        &mut self,
        publication: JoinPublication,
        sent: Result<String, CommandError>,
        now: u64,
    ) -> (joined: Result<Option<RtcCommand>, JoinError>)
        requires
            publication.participation.wf(),
        ensures
            old(self).entered(publication, sent, now, *final(self), joined),
    {
        let mut own: Participation = publication.participation;
        match own.membership.on_join_sent(publication.send, sent, now) {
            Err(error) => Err(JoinError::CommandError(error)),
            Ok(event_id) => {
                let notice: Option<RtcCommand> = match &own.notify {
                    Some(config) => if self.is_occupied(&own) {
                        None
                    } else {
                        Some(
                            RtcCommand::SendSticky {
                                room_id: own.membership.room_id.clone(),
                                event_type: NOTIFICATION_EVENT_TYPE.to_owned(),
                                content: build_notification_content(
                                    config,
                                    own.membership.application_type.as_str(),
                                    own.user_id.as_str(),
                                    own.device_id.as_str(),
                                    event_id.as_str(),
                                    now,
                                ),
                                duration_ms: notification_sticky_duration_ms(config.lifetime_ms()),
                            },
                        )
                    },
                    None => None,
                };
                own.keys.join(now);
                self.own = Some(own);
                Ok(notice)
            },
        }
    }

    /// Our member id, while we are in the session.
    pub fn own_member_id(&self) -> (id: Option<&str>)
        ensures
            match id {
                Some(id) => self.own is Some && id@ == self.own->0.member_id(),
                None => self.own is None,
            },
    {
        match &self.own {
            Some(own) => Some(own.membership.sticky_key()),
            None => None,
        }
    }

    /// The event that currently represents us, while we are in the session.
    pub fn own_membership_event_id(&self) -> (id: Option<String>)
        ensures
            id == (match self.own {
                Some(own) => own.membership.latest_event_id,
                None => None,
            }),
    {
        match &self.own {
            Some(own) => own.membership.membership_event_id(),
            None => None,
        }
    }

    /// Whether a command publishes our leave, for `reason`.
    pub open spec fn publishes_leave(
        own: Participation,
        command: RtcCommand,
        reason: LeaveReasonView,
    ) -> bool {
        own.membership.sends_sticky(
            command,
            content_json(
                leave_content(own.membership.slot_id@, own.member_id(), reason),
            ),
            own.membership.published_lifetime_ms,
        )
    }

    /// Our part while we are leaving.
    pub open spec fn leaving(own: Participation) -> Participation {
        Participation {
            membership: OwnMembershipMachine {
                state: OwnMembershipState::Leaving,
                ..own.membership
            },
            ..own
        }
    }

    /// Whether `after` and `command` are what asking to leave for the given cause
    /// leads to.
    pub open spec fn asked_to_leave(
        self,
        reason: LeaveReasonView,
        after: RtcSession,
        command: Option<RtcCommand>,
    ) -> bool {
        match self.own {
            Some(own) => {
                &&& after == (RtcSession { own: Some(RtcSession::leaving(own)), ..self })
                &&& command is Some
                &&& RtcSession::publishes_leave(own, command->0, reason)
            },
            None => command is None && after == self,
        }
    }

    /// Asks to leave: says which leave to publish, or `None` if we are not in the
    /// session. A leave without a stated cause is a plain one.
    pub fn leave(&mut self, params: LeaveSessionParams) -> (command: Option<RtcCommand>)
        ensures
            old(self).asked_to_leave(stated_cause(params), *final(self), command),
    {
        match self.own.take() {
            Some(mut own) => {
                let command: RtcCommand = own.membership.leave(params.leave_reason);
                self.own = Some(own);
                Some(command)
            },
            None => None,
        }
    }

    /// Whether `after` and `command` are what it leads to that the slot is as it is.
    pub open spec fn left_if_closed(
        self,
        after: RtcSession,
        command: Option<RtcCommand>,
    ) -> bool {
        if self.slot == Some(SlotState::Closed) && self.own is Some
            && self.own->0.membership.state == OwnMembershipState::Joined {
            self.asked_to_leave(
                LeaveReasonView { code: LeaveCodeView::SlotClosed, reason: None },
                after,
                command,
            )
        } else {
            command is None && after == self
        }
    }

    /// Leaves if the slot has closed under us, which nobody has to ask for: says
    /// which leave to publish, or `None` if there is nothing to leave.
    pub fn leave_closed_slot(&mut self) -> (command: Option<RtcCommand>)
        ensures
            old(self).left_if_closed(*final(self), command),
    {
        let joined: bool = match &self.own {
            Some(own) => own.membership.state() == OwnMembershipState::Joined,
            None => false,
        };
        let closed: bool = match &self.slot {
            Some(slot) => !slot.is_open(),
            None => false,
        };
        if joined && closed {
            self.leave(LeaveSessionParams::with_code(LeaveCode::SlotClosed))
        } else {
            None
        }
    }

    /// Whether `after` and `next` are what becomes of this session once publishing a
    /// leave was answered.
    pub open spec fn leave_answered(
        self,
        sent: Result<String, CommandError>,
        after: RtcSession,
        next: Result<Option<RtcCommand>, LeaveError>,
    ) -> bool {
        match (self.own, sent) {
            (None, _) => next matches Ok(None) && after == self,
            (Some(own), Err(error)) => {
                &&& next == Err::<Option<RtcCommand>, LeaveError>(LeaveError::CommandError(error))
                &&& after == self
            },
            (Some(own), Ok(_)) => match own.membership.armed_id() {
                Some(id) => {
                    &&& next == Ok::<Option<RtcCommand>, LeaveError>(
                        Some(
                            RtcCommand::CancelDelayed {
                                room_id: own.membership.room_id,
                                delay_id: id,
                            },
                        ),
                    )
                    &&& after == (RtcSession {
                        own: Some(
                            Participation {
                                membership: OwnMembershipMachine {
                                    last_sticky: None,
                                    latest_event_id: None,
                                    ..own.membership
                                },
                                ..own
                            },
                        ),
                        ..self
                    })
                },
                None => {
                    &&& next matches Ok(None)
                    &&& after == (RtcSession { own: None, ..self })
                },
            },
        }
    }

    /// Takes the answer to publishing a leave. A failure is handed back, and we are
    /// still leaving. Otherwise a delayed leave that is still armed has to be
    /// cancelled; without one we are out.
    pub fn on_leave_sent(&mut self, sent: Result<String, CommandError>) -> (next: Result<
        Option<RtcCommand>,
        LeaveError,
    >)
        ensures
            old(self).leave_answered(sent, *final(self), next),
    {
        match self.own.take() {
            Some(mut own) => match own.membership.on_leave_sent(sent) {
                Ok(Some(command)) => {
                    self.own = Some(own);
                    Ok(Some(command))
                },
                Ok(None) => Ok(None),
                Err(error) => {
                    self.own = Some(own);
                    Err(LeaveError::CommandError(error))
                },
            },
            None => Ok(None),
        }
    }

    /// Takes the answer to cancelling the delayed leave, whatever it was: we are
    /// out.
    pub fn on_leave_cancelled(&mut self, cancelled: Result<(), CommandError>)
        ensures
            *final(self) == (RtcSession { own: None, ..*old(self) }),
    {
        self.own = None;
    }

    /// The members of the session, in order.
    pub fn members(&self) -> (members: Vec<JoinedMembership>)
        ensures
            same_members(members@, self.roster()),
    {
        let joined: Vec<&JoinedMembership> = self.joined();
        let mut members: Vec<JoinedMembership> = Vec::new();
        let mut i: usize = 0;
        while i < joined.len()
            invariant
                i <= joined@.len() == self.roster().len(),
                members@.len() == i,
                forall|j: int|
                    0 <= j < joined@.len() ==> *(#[trigger] joined@[j]) == self.roster()[j],
                forall|j: int|
                    0 <= j < i ==> (#[trigger] members@[j]).same_as(self.roster()[j]),
            decreases joined@.len() - i,
        {
            assert(*joined@[i as int] == self.roster()[i as int]);
            members.push(joined[i].clone());
            i = i + 1;
        }
        members
    }

    /// Whether `after` is this session but for our media keys, once `now` is taken
    /// note of who is in it; `update` is what has to be done.
    pub open spec fn noted(
        self,
        now: u64,
        after: RtcSession,
        update: Option<MembershipsUpdate>,
    ) -> bool {
        match self.own {
            Some(own) => {
                &&& self.same_but_keys(after)
                &&& update is Some
                &&& exists|members: Seq<JoinedMembership>|
                    same_members(members, self.roster()) && #[trigger] own.keys.updated(
                        members,
                        now,
                        after.own->0.keys,
                        update->0,
                    )
            },
            None => update is None && after == self,
        }
    }

    /// Whether `after` is this session but for our media keys.
    pub open spec fn same_but_keys(self, after: RtcSession) -> bool {
        &&& self.own is Some
        &&& after == (RtcSession {
            own: Some(Participation { keys: after.own->0.keys, ..self.own->0 }),
            ..self
        })
    }

    /// Takes note of who is in the session, for the sake of media keys. Nothing
    /// happens while we are not in it.
    pub fn on_members_changed(&mut self, now: u64) -> (update: Option<MembershipsUpdate>)
        requires
            old(self).wf(),
        ensures
            final(self).wf(),
            old(self).noted(now, *final(self), update),
    {
        let members: Vec<JoinedMembership> = self.members();
        match self.own.take() {
            Some(mut own) => {
                let ghost keys = own.keys;
                let update: MembershipsUpdate = own.keys.on_memberships_update(&members, now);
                self.own = Some(own);
                let noted: Option<MembershipsUpdate> = Some(update);
                assert(keys.updated(members@, now, self.own->0.keys, noted->0));
                noted
            },
            None => None,
        }
    }

    /// Whether a key that is offered to this session leads to `after` and
    /// `outcome`.
    pub open spec fn offered(
        self,
        received: ReceivedEncryptionKey,
        now: u64,
        after: RtcSession,
        outcome: Result<Option<KeyEvent>, CommandError>,
    ) -> bool {
        match self.own {
            Some(own) => {
                &&& self.same_but_keys(after)
                &&& exists|members: Seq<JoinedMembership>|
                    same_members(members, self.roster()) && #[trigger] own.keys.received(
                        received,
                        base64_decoded(received.key_b64@),
                        members,
                        now,
                        after.own->0.keys,
                        outcome,
                    )
            },
            None => outcome matches Ok(None) && after == self,
        }
    }

    /// Offers a media key to this session. Nothing happens while we are not in it.
    pub fn receive_encryption_key(&mut self, received: ReceivedEncryptionKey, now: u64) -> (outcome:
        Result<Option<KeyEvent>, CommandError>)
        requires
            old(self).wf(),
        ensures
            final(self).wf(),
            old(self).offered(received, now, *final(self), outcome),
    {
        let members: Vec<JoinedMembership> = self.members();
        match self.own.take() {
            Some(mut own) => {
                let ghost keys = own.keys;
                let outcome: Result<Option<KeyEvent>, CommandError> = own.keys.receive_key(
                    received,
                    &members,
                    now,
                );
                assert(keys.received(
                    received,
                    base64_decoded(received.key_b64@),
                    members@,
                    now,
                    own.keys,
                    outcome,
                ));
                self.own = Some(own);
                outcome
            },
            None => Ok(None),
        }
    }
}

/// Our own memberships occupy nothing: in a session that holds no others, we are
/// the one that starts it.
pub proof fn law_own_memberships_do_not_occupy(session: RtcSession, own: Participation)
    requires
        forall|i: int|
            0 <= i < session.candidates@.len() ==> own.is_own(#[trigger] session.candidates@[i]),
    ensures
        !session.occupied(own),
{
}

/// Whoever else is in the session occupies it, and so does another device of our
/// own user.
pub proof fn law_others_occupy(session: RtcSession, own: Participation, i: int)
    requires
        0 <= i < session.candidates@.len(),
        session.counts(session.candidates@[i]),
        session.candidates@[i].member_id@ != own.member_id(),
        session.candidates@[i].sender@ != own.user_id@ || (
        session.candidates@[i].origin.device() is Some && session.candidates@[i].origin.device()
            != Some(own.device_id@)),
    ensures
        session.occupied(own),
{
    assert(!own.is_own(session.candidates@[i]));
}

/// Once we joined anew, what is left of an earlier part of this device is not in
/// the session any more.
pub proof fn law_earlier_part_is_over(
    session: RtcSession,
    own: Participation,
    candidate: JoinedMembership,
)
    requires
        session.own == Some(own),
        own.supersedes(candidate),
    ensures
        !session.counts(candidate),
        !session.roster().contains(candidate),
{
    let keep = |c: JoinedMembership| session.counts(c);
    if session.roster().contains(candidate) {
        let i = choose|i: int| 0 <= i < session.roster().len() && session.roster()[i] == candidate;
        session.candidates@.lemma_filter_pred(keep, i);
    }
}

/// Whether other users are in a session has nothing to do with our own part in it,
/// so they are still there when we have left.
pub proof fn law_leaving_keeps_the_others(
    session: RtcSession,
    left: RtcSession,
    candidate: JoinedMembership,
)
    requires
        left == (RtcSession { own: None, ..session }),
        session.own matches Some(own) ==> candidate.sender@ != own.user_id@,
    ensures
        left.counts(candidate) == session.counts(candidate),
        left.candidates == session.candidates,
{
}

/// In an open slot, whether media keys are managed is the slot's to say: whatever
/// the application prefers comes to the same.
pub proof fn law_slot_decides_on_media_keys(
    open: crate::slot::OpenSlot,
    params: JoinSessionParams,
    other: JoinSessionParams,
)
    ensures
        key_config(params, Some(SlotState::Open(open))).manage_media_keys == (
        open.encryption is Some),
        key_config(params, Some(SlotState::Open(open))).manage_media_keys == key_config(
            other,
            Some(SlotState::Open(open)),
        ).manage_media_keys,
{
}

} // verus!
