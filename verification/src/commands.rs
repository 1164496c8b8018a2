//! Commands the library asks a host's Matrix client to carry out, and what may
//! come back.
//!
//! The library decides; the host performs. Every decision that needs the network
//! ends in an [`RtcCommand`], and what the host reports back is handed to the
//! next step as a plain value.

use vstd::prelude::*;
use crate::error::CommandError;
use crate::json::Json;

verus! {

/// One device a to-device message is addressed to.
///
/// Always one specific device: media keys go to the device that published the
/// membership.
#[derive(Debug, PartialEq, Eq)]
pub struct ToDeviceRecipient {
    /// The user.
    pub user_id: String,
    /// The user's device.
    pub device_id: String,
}

impl Clone for ToDeviceRecipient {
    fn clone(&self) -> (copy: ToDeviceRecipient)
        ensures
            copy == *self,
    {
        ToDeviceRecipient { user_id: self.user_id.clone(), device_id: self.device_id.clone() }
    }
}

impl ToDeviceRecipient {
    /// Addresses one device.
    pub fn new(user_id: &str, device_id: &str) -> (recipient: ToDeviceRecipient)
        ensures
            recipient.user_id@ == user_id@,
            recipient.device_id@ == device_id@,
    {
        ToDeviceRecipient { user_id: user_id.to_owned(), device_id: device_id.to_owned() }
    }
}

/// What became of one recipient of a to-device send.
///
/// A recipient recorded as served is taken to hold the key and is never sent to
/// again, so a failure mistaken for a success costs that member the call.
#[derive(Debug, PartialEq, Eq)]
pub struct ToDeviceDelivery {
    /// Who was addressed.
    pub recipient: ToDeviceRecipient,
    /// `None` when the message was accepted for this recipient; otherwise why it
    /// was not.
    pub error: Option<String>,
}

impl ToDeviceDelivery {
    /// The message was accepted for this recipient.
    pub fn sent(recipient: ToDeviceRecipient) -> (delivery: ToDeviceDelivery)
        ensures
            delivery == (ToDeviceDelivery { recipient, error: None }),
    {
        ToDeviceDelivery { recipient, error: None }
    }

    /// The message could not be delivered to this recipient.
    pub fn failed(recipient: ToDeviceRecipient, error: &str) -> (delivery: ToDeviceDelivery)
        ensures
            delivery.recipient == recipient,
            delivery.error matches Some(text) && text@ == error@,
    {
        ToDeviceDelivery { recipient, error: Some(error.to_owned()) }
    }

    /// Whether the message was accepted for this recipient.
    pub fn is_sent(&self) -> (yes: bool)
        ensures
            yes == (self.error is None),
    {
        self.error.is_none()
    }
}

/// Something for the host's Matrix client to carry out.
#[derive(Debug)]
pub enum RtcCommand {
    /// Send a sticky event. The lifetime must be passed through as it is: the
    /// event is sent again before it elapses, so any other lifetime breaks that.
    SendSticky {
        /// The room.
        room_id: String,
        /// The event type.
        event_type: String,
        /// The event content.
        content: Json,
        /// How long the homeserver keeps the entry in the sticky map.
        duration_ms: u64,
    },
    /// Schedule an event. Answered with the delay id, which is what restarting
    /// and cancelling take.
    SendDelayed {
        /// The room.
        room_id: String,
        /// The event type.
        event_type: String,
        /// The event content.
        content: Json,
        /// How long the homeserver waits before it sends the event.
        delay_ms: u64,
    },
    /// Push a scheduled event back out to its full delay.
    RestartDelayed {
        /// The room.
        room_id: String,
        /// The scheduled event's delay id.
        delay_id: String,
    },
    /// Drop a scheduled event.
    CancelDelayed {
        /// The room.
        room_id: String,
        /// The scheduled event's delay id.
        delay_id: String,
    },
    /// Send one encrypted message to each of a set of devices.
    SendToDevice {
        /// The devices.
        recipients: Vec<ToDeviceRecipient>,
        /// The message type.
        message_type: String,
        /// The message content, the same for all.
        content: Json,
    },
    /// Send a state event.
    SendState {
        /// The room.
        room_id: String,
        /// The event type.
        event_type: String,
        /// The state key.
        state_key: String,
        /// The event content.
        content: Json,
    },
    /// Send a plain room event, neither sticky nor state.
    SendRoom {
        /// The room.
        room_id: String,
        /// The event type, sent as it is.
        event_type: String,
        /// The event content.
        content: Json,
    },
    /// Redact an event.
    Redact {
        /// The room.
        room_id: String,
        /// The event.
        event_id: String,
        /// Why, in words.
        reason: Option<String>,
    },
}

/// What a host reports of a command.
#[derive(Debug)]
pub enum CommandReply {
    /// An event was accepted (or scheduled) under this id.
    Accepted(String),
    /// The command was carried out; there is nothing to hand back.
    Done,
    /// A to-device batch was attempted, with these outcomes.
    Deliveries(Vec<ToDeviceDelivery>),
    /// The command failed.
    Failed(CommandError),
}

/// A host that carries nothing out and reports success for everything.
pub struct NoopCommandSender;

/// Every recipient of a batch, reported as served.
pub open spec fn all_sent(recipients: Seq<ToDeviceRecipient>) -> Seq<ToDeviceDelivery> {
    recipients.map_values(
        |recipient: ToDeviceRecipient| ToDeviceDelivery { recipient, error: None },
    )
}

/// Whether `reply` reports success of `command`, with nothing behind it.
pub open spec fn succeeds_with(command: RtcCommand, reply: CommandReply) -> bool {
    match command {
        RtcCommand::SendSticky { .. } => reply matches CommandReply::Accepted(id) && id@
            == "$mock-sticky-event"@,
        RtcCommand::SendDelayed { .. } => reply matches CommandReply::Accepted(id) && id@
            == "mock-event-id"@,
        RtcCommand::SendState { .. } => reply matches CommandReply::Accepted(id) && id@
            == "$mock-state-event"@,
        RtcCommand::SendRoom { .. } => reply matches CommandReply::Accepted(id) && id@
            == "$mock-room-event"@,
        RtcCommand::SendToDevice { recipients, .. } => reply matches CommandReply::Deliveries(
            deliveries,
        ) && deliveries@ == all_sent(recipients@),
        RtcCommand::RestartDelayed { .. } => reply is Done,
        RtcCommand::CancelDelayed { .. } => reply is Done,
        RtcCommand::Redact { .. } => reply is Done,
    }
}

impl NoopCommandSender {
    /// Answers a command with success.
    pub fn perform(&self, command: RtcCommand) -> (reply: CommandReply)
        ensures
            succeeds_with(command, reply),
    {
        match command {
            RtcCommand::SendSticky { .. } => CommandReply::Accepted(
                "$mock-sticky-event".to_owned(),
            ),
            RtcCommand::SendDelayed { .. } => CommandReply::Accepted("mock-event-id".to_owned()),
            RtcCommand::SendState { .. } => CommandReply::Accepted("$mock-state-event".to_owned()),
            RtcCommand::SendRoom { .. } => CommandReply::Accepted("$mock-room-event".to_owned()),
            RtcCommand::SendToDevice { recipients, .. } => {
                let ghost whole = recipients@;
                let mut deliveries: Vec<ToDeviceDelivery> = Vec::new();
                for recipient in iter: recipients
                    invariant
                        iter.seq() == whole,
                        deliveries@ == all_sent(whole.take(iter.index())),
                {
                    deliveries.push(ToDeviceDelivery::sent(recipient));
                    assert(deliveries@ =~= all_sent(whole.take(iter.index() + 1)));
                }
                assert(whole.take(whole.len() as int) =~= whole);
                CommandReply::Deliveries(deliveries)
            },
            RtcCommand::RestartDelayed { .. } => CommandReply::Done,
            RtcCommand::CancelDelayed { .. } => CommandReply::Done,
            RtcCommand::Redact { .. } => CommandReply::Done,
        }
    }
}

/// A host that carries nothing out reports no failure: each recipient of a batch is
/// reported as served, once and in its place, and whatever sends an event is answered
/// with an id.
pub proof fn law_everything_is_reported_as_done(command: RtcCommand, reply: CommandReply)
    requires
        succeeds_with(command, reply),
    ensures
        reply !is Failed,
        command is SendSticky || command is SendDelayed || command is SendState
            || command is SendRoom <==> reply is Accepted,
        command is SendToDevice <==> reply is Deliveries,
        reply matches CommandReply::Deliveries(deliveries) ==> {
            &&& deliveries@.len() == command->recipients@.len()
            &&& forall|i: int|
                0 <= i < deliveries@.len() ==> (#[trigger] deliveries@[i]).recipient
                    == command->recipients@[i] && deliveries@[i].error is None
        },
{
}

} // verus!
