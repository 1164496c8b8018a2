//! Joining and leaving sessions, opening and closing slots.

use vstd::prelude::*;
use vstd::string::StringExecFns;
use crate::commands::RtcCommand;
use crate::error::{CommandError, JoinError, LeaveError};
use crate::join::{JoinSessionParams, LeaveSessionParams};
use crate::manager::membership::law_own_part_is_no_room_state;
use crate::manager::RtcSessionManager;
use crate::participation::{stated_cause, stated_transports, JoinAttempt};
use crate::roster::RtcSession;
use crate::slot::{
    belongs_to, slot_belongs_to, slot_json, RawSlotEventContent, SlotEncryption, SlotStatus,
    SLOT_EVENT_TYPE,
};

verus! {

/// The words for a slot id that does not belong to its application.
pub open spec fn slot_mismatch(slot_id: Seq<char>, application_type: Seq<char>) -> Seq<char> {
    "slot id '"@ + slot_id + "' does not match application type '"@ + application_type
        + "': MSC4143 requires the state key to be '{application_type}#{slot}'"@
}

/// Whether a command sets the state of a slot.
pub open spec fn sets_slot(
    command: RtcCommand,
    room_id: String,
    slot_id: String,
    content: RawSlotEventContent,
) -> bool {
    match command {
        RtcCommand::SendState { room_id: room, event_type, state_key, content: json } => {
            &&& room == room_id
            &&& event_type@ == SLOT_EVENT_TYPE@
            &&& state_key == slot_id
            &&& json@ == slot_json(content@)
        },
        _ => false,
    }
}

/// Whether an error says that there is nothing to send commands with.
pub open spec fn lacks_sender(error: CommandError) -> bool {
    error matches CommandError::SendError(text) && text@ == "no command sender configured"@
}

fn no_sender() -> (error: CommandError)
    ensures
        lacks_sender(error),
{
    CommandError::from_message("no command sender configured".to_owned())
}

impl RtcSessionManager {
    /// Whether asking to join with `params` leads to `after` and `begun`.
    pub open spec fn asked_to_join(
        self,
        params: JoinSessionParams,
        after: RtcSessionManager,
        begun: Result<(JoinAttempt, RtcCommand), JoinError>,
    ) -> bool {
        if self.has_sender {
            &&& self.with_session(params.room_id@, params.slot_id@, after)
            &&& match begun {
                Ok((attempt, command)) => {
                    &&& params.missing() is None
                    &&& attempt.participation.begun(
                        params,
                        self.state_of(params.room_id@, params.slot_id@),
                    )
                    &&& attempt.transports@ == stated_transports(params.transport)
                    &&& attempt.participation.membership.arms_delayed_leave(command)
                },
                Err(error) => error matches JoinError::InvalidParams(words) && params.missing()
                    == Some(words@),
            }
        } else {
            &&& after == self
            &&& begun matches Err(JoinError::CommandError(error)) && lacks_sender(error)
        }
    }

    /// Asks to join the session that the parameters name, creating it where there
    /// is none. Refused where there is nothing to send commands with, or where a
    /// required parameter is missing.
    pub fn join(&mut self, params: JoinSessionParams) -> (begun: Result<
        (JoinAttempt, RtcCommand),
        JoinError,
    >)
        requires
            old(self).wf(),
        ensures
            final(self).wf(),
            old(self).asked_to_join(params, *final(self), begun),
    {
        if !self.has_sender {
            return Err(JoinError::CommandError(no_sender()));
        }
        let index: usize = self.session_for_key(params.room_id.as_str(), params.slot_id.as_str());
        assert(self.governs(self.sessions@[index as int]));
        self.sessions[index].session.join(params)
    }

    /// Whether asking to leave a session leads to `after` and `command`.
    pub open spec fn asked_to_leave(
        self,
        room_id: Seq<char>,
        slot_id: Seq<char>,
        params: LeaveSessionParams,
        after: RtcSessionManager,
        command: Result<Option<RtcCommand>, LeaveError>,
    ) -> bool {
        match command {
            Ok(command) => exists|i: int|
                {
                    &&& #[trigger] self.has_at(room_id, slot_id, i)
                    &&& self.with_session_at(i, after)
                    &&& match self.sessions@[i].session.own {
                        Some(own) => {
                            &&& after.sessions@[i].session == (RtcSession {
                                own: Some(RtcSession::leaving(own)),
                                ..self.sessions@[i].session
                            })
                            &&& command is Some
                            &&& RtcSession::publishes_leave(
                                own,
                                command->0,
                                stated_cause(params),
                            )
                        },
                        None => command is None && after.sessions@ == self.sessions@,
                    }
                },
            Err(LeaveError::CommandError(error)) => {
                &&& !self.has(room_id, slot_id)
                &&& after == self
                &&& error matches CommandError::SendError(text)
                &&& text@ == "session not found"@
            },
        }
    }

    /// Asks to leave a session: says which leave to publish, or `None` if we are
    /// not in it. The session is kept, for a later join.
    pub fn leave(&mut self, room_id: &str, slot_id: &str, params: LeaveSessionParams) -> (command:
        Result<Option<RtcCommand>, LeaveError>)
        requires
            old(self).wf(),
        ensures
            final(self).wf(),
            old(self).asked_to_leave(room_id@, slot_id@, params, *final(self), command),
    {
        match self.find(room_id, slot_id) {
            Some(index) => {
                let ghost before = *self;
                let command: Option<RtcCommand> = self.sessions[index].session.leave(params);
                proof {
                    assert(self.sessions@ =~= before.sessions@.update(
                        index as int,
                        self.sessions@[index as int],
                    ));
                    law_own_part_is_no_room_state(before, *self, index as int);
                    assert(before.has_at(room_id@, slot_id@, index as int));
                    if before.sessions@[index as int].session.own is None {
                        assert(self.sessions@ =~= before.sessions@);
                    }
                }
                Ok(command)
            },
            None => Err(
                LeaveError::CommandError(
                    CommandError::from_message("session not found".to_owned()),
                ),
            ),
        }
    }

    /// Whether opening a slot leads to `command`.
    pub open spec fn opens_slot(
        self,
        room_id: String,
        slot_id: String,
        application_type: String,
        encryption: Option<SlotEncryption>,
        command: Result<RtcCommand, CommandError>,
    ) -> bool {
        &&& command is Ok <==> belongs_to(slot_id@, application_type@) && self.has_sender
        &&& match command {
            Ok(command) => sets_slot(
                command,
                room_id,
                slot_id,
                RawSlotEventContent {
                    status: Some(SlotStatus::Open),
                    application_type: Some(application_type),
                    encryption,
                },
            ),
            Err(error) => if belongs_to(slot_id@, application_type@) {
                lacks_sender(error)
            } else {
                error matches CommandError::SendError(text) && text@ == slot_mismatch(
                    slot_id@,
                    application_type@,
                )
            },
        }
    }

    /// Whether closing a slot leads to `command`.
    pub open spec fn closes_slot(
        self,
        room_id: String,
        slot_id: String,
        command: Result<RtcCommand, CommandError>,
    ) -> bool {
        &&& command is Ok <==> self.has_sender
        &&& match command {
            Ok(command) => sets_slot(
                command,
                room_id,
                slot_id,
                RawSlotEventContent {
                    status: Some(SlotStatus::Closed),
                    application_type: None,
                    encryption: None,
                },
            ),
            Err(error) => lacks_sender(error),
        }
    }

    /// Opens a slot. A slot id that does not belong to the application is refused,
    /// because everybody would take such a slot for closed.
    pub fn open_slot(
        &self,
        room_id: String,
        slot_id: String,
        application_type: String,
        encryption: Option<SlotEncryption>,
    ) -> (command: Result<RtcCommand, CommandError>)
        ensures
            self.opens_slot(room_id, slot_id, application_type, encryption, command),
    {
        if !slot_belongs_to(slot_id.as_str(), application_type.as_str()) {
            let mut words: String = "slot id '".to_owned();
            words.append(slot_id.as_str());
            words.append("' does not match application type '");
            words.append(application_type.as_str());
            words.append("': MSC4143 requires the state key to be '{application_type}#{slot}'");
            return Err(CommandError::from_message(words));
        }
        self.slot_command(
            room_id,
            slot_id,
            RawSlotEventContent::for_open(application_type, encryption),
        )
    }

    /// Closes a slot.
    pub fn close_slot(&self, room_id: String, slot_id: String) -> (command: Result<
        RtcCommand,
        CommandError,
    >)
        ensures
            self.closes_slot(room_id, slot_id, command),
    {
        self.slot_command(room_id, slot_id, RawSlotEventContent::for_close())
    }

    fn slot_command(&self, room_id: String, slot_id: String, content: RawSlotEventContent) -> (
    command: Result<RtcCommand, CommandError>)
        ensures
            command is Ok <==> self.has_sender,
            match command {
                Ok(command) => sets_slot(command, room_id, slot_id, content),
                Err(error) => lacks_sender(error),
            },
    {
        if !self.has_sender {
            return Err(no_sender());
        }
        Ok(
            RtcCommand::SendState {
                room_id,
                event_type: SLOT_EVENT_TYPE.to_owned(),
                state_key: slot_id,
                content: content.to_json(),
            },
        )
    }
}

} // verus!
