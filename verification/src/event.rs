//! Event transfer types and what they amount to.
//!
//! These types carry sticky event data from a host's Matrix client into the
//! library. Conversion then reads them as membership events.

use vstd::prelude::*;
use crate::session::{
    ApplicationInfo, CallMembershipEvent, JoinedMembership, LeaveReason, LeftMembership, MemberInfo,
    Membership,
};
use crate::text::{same_text, text_of};
use crate::transport::{into_typed_all, typed_all, MemberTransports};

verus! {

/// How an event reached us, and what its decryption metadata says.
///
/// Member events must be encrypted in encrypted rooms, and a member's device is
/// identified by the device that encrypted the event rather than by any field of
/// its content. Both facts come from the same place, so they are one value: a
/// cleartext event cannot carry a sending device, and that is unrepresentable
/// here.
#[derive(Debug, PartialEq, Eq)]
pub enum EventOrigin {
    /// The host did not report how the event arrived. Rules that depend on it
    /// are not applied.
    Unknown,
    /// The event arrived in the clear.
    Cleartext,
    /// The event arrived encrypted and was decrypted.
    Encrypted {
        /// The sending device, as decryption attributed it.
        sender_device_id: Option<String>,
    },
    /// The event named its own sending device, and nothing authenticated that
    /// claim.
    Claimed {
        /// The device the event says sent it.
        device_id: String,
    },
}

/// Model of an [`EventOrigin`].
#[verifier::ext_equal]
pub enum OriginView {
    /// Not reported.
    Unknown,
    /// In the clear.
    Cleartext,
    /// Encrypted, by this device where it could be attributed.
    Encrypted(Option<Seq<char>>),
    /// By this device, according to the event alone.
    Claimed(Seq<char>),
}

impl View for EventOrigin {
    type V = OriginView;

    open spec fn view(&self) -> OriginView {
        match self {
            EventOrigin::Unknown => OriginView::Unknown,
            EventOrigin::Cleartext => OriginView::Cleartext,
            EventOrigin::Encrypted { sender_device_id } => OriginView::Encrypted(
                text_of(*sender_device_id),
            ),
            EventOrigin::Claimed { device_id } => OriginView::Claimed(device_id@),
        }
    }
}

impl Clone for EventOrigin {
    fn clone(&self) -> (copy: EventOrigin)
        ensures
            copy == *self,
    {
        match self {
            EventOrigin::Unknown => EventOrigin::Unknown,
            EventOrigin::Cleartext => EventOrigin::Cleartext,
            EventOrigin::Encrypted { sender_device_id } => match sender_device_id {
                Some(device) => EventOrigin::Encrypted { sender_device_id: Some(device.clone()) },
                None => EventOrigin::Encrypted { sender_device_id: None },
            },
            EventOrigin::Claimed { device_id } => EventOrigin::Claimed {
                device_id: device_id.clone(),
            },
        }
    }
}

impl Default for EventOrigin {
    /// An origin the host did not report.
    fn default() -> (origin: EventOrigin)
        ensures
            origin == EventOrigin::Unknown,
    {
        EventOrigin::Unknown
    }
}

impl EventOrigin {
    /// The device this origin names, authenticated or claimed.
    pub open spec fn device(self) -> Option<Seq<char>> {
        match self {
            EventOrigin::Encrypted { sender_device_id: Some(device) } => Some(device@),
            EventOrigin::Claimed { device_id } => Some(device_id@),
            _ => None,
        }
    }

    /// An origin for an event the host decrypted.
    pub fn encrypted(sender_device_id: Option<String>) -> (origin: EventOrigin)
        ensures
            origin == (EventOrigin::Encrypted { sender_device_id }),
    {
        EventOrigin::Encrypted { sender_device_id }
    }

    /// An origin from a device the event merely claims.
    pub fn claimed(device_id: &str) -> (origin: EventOrigin)
        ensures
            origin is Claimed,
            origin.device() == Some(device_id@),
    {
        EventOrigin::Claimed { device_id: device_id.to_owned() }
    }

    /// The sending device, if the event was encrypted and attributable, or if it
    /// claimed one.
    pub fn sender_device_id(&self) -> (device: Option<&str>)
        ensures
            match device {
                Some(device) => self.device() == Some(device@),
                None => self.device() is None,
            },
    {
        match self {
            EventOrigin::Encrypted { sender_device_id: Some(device) } => Some(device.as_str()),
            EventOrigin::Claimed { device_id } => Some(device_id.as_str()),
            _ => None,
        }
    }

    /// Whether the event arrived encrypted; `None` when the host did not say.
    ///
    /// A claimed device says nothing about encryption, so it reports `None`: the
    /// rules that depend on this are skipped rather than passed.
    pub fn was_encrypted(&self) -> (encrypted: Option<bool>)
        ensures
            encrypted == (match *self {
                EventOrigin::Unknown => None,
                EventOrigin::Claimed { .. } => None,
                EventOrigin::Cleartext => Some(false),
                EventOrigin::Encrypted { .. } => Some(true),
            }),
    {
        match self {
            EventOrigin::Unknown | EventOrigin::Claimed { .. } => None,
            EventOrigin::Cleartext => Some(false),
            EventOrigin::Encrypted { .. } => Some(true),
        }
    }
}

/// A sticky event received from a host's Matrix client.
#[derive(Debug)]
pub struct RawStickyEvent {
    /// Room the event belongs to.
    pub room_id: String,
    /// The event's id, when the host reports it.
    pub event_id: Option<String>,
    /// The user that sent the event.
    pub sender: String,
    /// How the event reached us, including the sending device.
    pub origin: EventOrigin,
    /// The event type, e.g. `m.rtc.member`.
    pub event_type: String,
    /// The part of the content this library reads.
    pub content: RawStickyEventContent,
}

/// The content of a member event.
#[derive(Debug)]
pub struct RawStickyEventContent {
    /// The slot the member is in.
    pub slot_id: String,
    /// The key the event is filed under in the sticky map; equal to `member.id`.
    pub sticky_key: String,
    /// The `member` object.
    pub member: MemberInfo,
    /// The `application` object.
    pub application: ApplicationInfo,
    /// The `transports` object, where stated.
    pub transports: Option<MemberTransports>,
    /// The `leave_reason` object, where stated.
    pub leave_reason: Option<LeaveReason>,
    /// When this participation began, in milliseconds since the epoch. Only the
    /// pre-sticky dialect states it, because only that one reuses member ids
    /// across joins.
    pub created_ts: Option<u64>,
}

/// One sticky key whose `current` value supersedes `previous`.
#[derive(Debug)]
pub struct RawStickyEventUpdate {
    /// The new value.
    pub current: RawStickyEvent,
    /// The value it replaced.
    pub previous: RawStickyEvent,
}

/// A difference between two states of the sticky map.
#[derive(Debug)]
pub struct StickyEventsUpdate {
    /// Keys that had no predecessor.
    pub added: Vec<RawStickyEvent>,
    /// Keys whose value was replaced.
    pub updated: Vec<RawStickyEventUpdate>,
    /// Keys that left the map, usually by expiry.
    pub removed: Vec<RawStickyEvent>,
}

/// Why a sticky event could not be read as a membership event.
#[derive(Debug, PartialEq, Eq)]
pub enum EventConversionError {
    /// The event is not a member event.
    UnsupportedEventType {
        /// The type it has.
        found: String,
    },
    /// A required field is empty.
    MissingField {
        /// The field.
        field: &'static str,
    },
}

/// Whether an event type is that of a member event, under its stable or its
/// unstable name.
pub open spec fn is_member_type(event_type: Seq<char>) -> bool {
    event_type == "m.rtc.member"@ || event_type == "org.matrix.msc4143.rtc.member"@
}

/// Whether an event type is that of a member event, under its stable or its
/// unstable name.
pub fn is_member_event_type(event_type: &str) -> (yes: bool)
    ensures
        yes == is_member_type(event_type@),
{
    same_text(event_type, "m.rtc.member") || same_text(event_type, "org.matrix.msc4143.rtc.member")
}

impl RawStickyEvent {
    /// Whether this can be read as a membership event at all.
    pub open spec fn convertible(self) -> bool {
        &&& is_member_type(self.event_type@)
        &&& self.content.slot_id@.len() > 0
        &&& self.content.sticky_key@.len() > 0
    }

    /// The failure that reading this as a membership event reports.
    pub open spec fn refused_with(self, error: EventConversionError) -> bool {
        if !is_member_type(self.event_type@) {
            error == (EventConversionError::UnsupportedEventType { found: self.event_type })
        } else if self.content.slot_id@.len() == 0 {
            error matches EventConversionError::MissingField { field } && field@ == "slot_id"@
        } else {
            error matches EventConversionError::MissingField { field } && field@ == "sticky_key"@
        }
    }

    /// Whether the content states a join: `member.membership` is `join`,
    /// `member.id` is set, and the application names a type.
    pub open spec fn states_join(self) -> bool {
        &&& self.content.member@.is_join()
        &&& self.content.application.application_type is Some
        &&& self.content.application.application_type->0@.len() > 0
    }

    /// This event read as a departure.
    pub open spec fn as_left(self) -> LeftMembership {
        LeftMembership {
            room_id: self.room_id,
            slot_id: self.content.slot_id,
            sender: self.sender,
            sticky_key: self.content.sticky_key,
            member_id: self.content.member.id,
            leave_reason: self.content.leave_reason,
        }
    }

    /// Whether `joined` is this event read as a participation.
    pub open spec fn is_joined_as(self, joined: JoinedMembership) -> bool {
        &&& joined.room_id == self.room_id
        &&& joined.slot_id == self.content.slot_id
        &&& joined.sender == self.sender
        &&& joined.origin == self.origin
        &&& joined.sticky_key == self.content.sticky_key
        &&& Some(joined.member_id) == self.content.member.id
        &&& joined.membership_event_id == self.event_id
        &&& joined.membership_ts == self.content.created_ts
        &&& joined.application == self.content.application.application_type
        &&& match self.content.transports {
            Some(transports) => {
                &&& joined.transports@ == typed_all(transports.published@)
                &&& joined.can_subscribe == transports.can_subscribe
            },
            None => joined.transports@.len() == 0 && joined.can_subscribe@.len() == 0,
        }
    }

    /// Whether reading this as a membership event leads to `converted`.
    pub open spec fn converts_to(
        self,
        converted: Result<CallMembershipEvent, EventConversionError>,
    ) -> bool {
        &&& converted is Ok <==> self.convertible()
        &&& match converted {
            Ok(CallMembershipEvent::Joined(joined)) => self.states_join() && self.is_joined_as(
                joined,
            ),
            Ok(CallMembershipEvent::Left(left)) => !self.states_join() && left == self.as_left(),
            Err(error) => self.refused_with(error),
        }
    }

    /// Whether reading this as a departure leads to `converted`.
    pub open spec fn departs_as(
        self,
        converted: Result<CallMembershipEvent, EventConversionError>,
    ) -> bool {
        &&& converted is Ok <==> self.convertible()
        &&& match converted {
            Ok(event) => event == CallMembershipEvent::Left(self.as_left()),
            Err(error) => self.refused_with(error),
        }
    }

    /// Checks what both conversions require.
    pub fn check_convertible(&self) -> (checked: Result<(), EventConversionError>)
        ensures
            checked is Ok <==> self.convertible(),
            checked matches Err(error) ==> self.refused_with(error),
    {
        if !is_member_event_type(self.event_type.as_str()) {
            return Err(
                EventConversionError::UnsupportedEventType { found: self.event_type.clone() },
            );
        }
        if self.content.slot_id.as_str().is_empty() {
            return Err(EventConversionError::MissingField { field: "slot_id" });
        }
        if self.content.sticky_key.as_str().is_empty() {
            return Err(EventConversionError::MissingField { field: "sticky_key" });
        }
        Ok(())
    }

    /// Reads this event as a membership event.
    ///
    /// It counts as joined only when `member.membership` is `join`, `member.id`
    /// is set and the application names a type. Anything else, including content
    /// this library cannot make sense of, is a departure. The conditions that
    /// depend on other state (an open slot, the sender still being in the room)
    /// are not applied here.
    pub fn try_into_call_membership_event(self) -> (converted: Result<
        CallMembershipEvent,
        EventConversionError,
    >)
        ensures
            self.converts_to(converted),
    {
        match self.check_convertible() {
            Ok(()) => {},
            Err(error) => {
                return Err(error);
            },
        }
        let names_application: bool = match &self.content.application.application_type {
            Some(application) => !application.as_str().is_empty(),
            None => false,
        };
        if !(self.content.member.is_join() && names_application) {
            return Ok(CallMembershipEvent::Left(self.into_left()));
        }
        let RawStickyEvent { room_id, event_id, sender, origin, event_type, content } = self;
        match content.member.id {
            Some(member_id) => {
                let transports: MemberTransports = match content.transports {
                    Some(transports) => transports,
                    None => MemberTransports::none(),
                };
                Ok(
                    CallMembershipEvent::Joined(
                        JoinedMembership {
                            room_id,
                            slot_id: content.slot_id,
                            sender,
                            origin,
                            sticky_key: content.sticky_key,
                            member_id,
                            membership_event_id: event_id,
                            membership_ts: content.created_ts,
                            application: content.application.application_type,
                            transports: into_typed_all(transports.published),
                            can_subscribe: transports.can_subscribe,
                        },
                    ),
                )
            },
            None => Ok(
                CallMembershipEvent::Left(
                    LeftMembership {
                        room_id,
                        slot_id: content.slot_id,
                        sender,
                        sticky_key: content.sticky_key,
                        member_id: None,
                        leave_reason: content.leave_reason,
                    },
                ),
            ),
        }
    }

    /// Reads this event as a departure, whatever its content says.
    ///
    /// This is for sticky removals and expiry, where the entry is no longer live.
    pub fn try_into_left_membership_event(self) -> (converted: Result<
        CallMembershipEvent,
        EventConversionError,
    >)
        ensures
            self.departs_as(converted),
    {
        match self.check_convertible() {
            Ok(()) => Ok(CallMembershipEvent::Left(self.into_left())),
            Err(error) => Err(error),
        }
    }

    /// This event read as a departure.
    pub fn into_left(self) -> (left: LeftMembership)
        ensures
            left == self.as_left(),
    {
        LeftMembership {
            room_id: self.room_id,
            slot_id: self.content.slot_id,
            sender: self.sender,
            sticky_key: self.content.sticky_key,
            member_id: self.content.member.id,
            leave_reason: self.content.leave_reason,
        }
    }
}

impl RawStickyEventContent {
    /// The content of a joining member event. `member_id` doubles as the sticky
    /// key. The transports are left out entirely when they say nothing.
    pub fn for_join(
        slot_id: String,
        member_id: String,
        application_type: String,
        transports: MemberTransports,
    ) -> (content: RawStickyEventContent)
        ensures
            content.slot_id == slot_id,
            content.sticky_key == member_id,
            content.member == (MemberInfo {
                id: Some(member_id),
                membership: Some(Membership::Join),
            }),
            content.application.application_type == Some(application_type),
            content.application.extra@.len() == 0,
            content.transports == (if transports.says_nothing() {
                None
            } else {
                Some(transports)
            }),
            content.leave_reason is None,
            content.created_ts is None,
    {
        RawStickyEventContent {
            slot_id,
            member: MemberInfo { id: Some(member_id.clone()), membership: Some(Membership::Join) },
            sticky_key: member_id,
            application: ApplicationInfo {
                application_type: Some(application_type),
                extra: Vec::new(),
            },
            transports: if transports.is_empty() {
                None
            } else {
                Some(transports)
            },
            leave_reason: None,
            created_ts: None,
        }
    }

    /// The content of a leaving member event: the slot, the member and the
    /// reason, and nothing a join would state.
    pub fn for_leave(
        slot_id: String,
        member_id: String,
        leave_reason: Option<LeaveReason>,
    ) -> (content: RawStickyEventContent)
        ensures
            content.slot_id == slot_id,
            content.sticky_key == member_id,
            content.member == (MemberInfo {
                id: Some(member_id),
                membership: Some(Membership::Leave),
            }),
            content.application.application_type is None,
            content.application.extra@.len() == 0,
            content.transports is None,
            content.leave_reason == leave_reason,
            content.created_ts is None,
    {
        RawStickyEventContent {
            slot_id,
            member: MemberInfo { id: Some(member_id.clone()), membership: Some(Membership::Leave) },
            sticky_key: member_id,
            application: ApplicationInfo::none(),
            transports: None,
            leave_reason,
            created_ts: None,
        }
    }
}

/// A sticky event is read as a membership event exactly if it has one of the types that
/// member events have and names a slot and a sticky key; where it is not, the error says
/// which of these it lacks. It says that its member is in the session exactly if it says
/// so, names the member and names an application; anything else is a departure, and so is
/// everything that is read as one.
pub proof fn law_event_is_read_as_a_membership(
    event: RawStickyEvent,
    converted: Result<CallMembershipEvent, EventConversionError>,
    departed: Result<CallMembershipEvent, EventConversionError>,
)
    requires
        event.converts_to(converted),
        event.departs_as(departed),
    ensures
        ({
            let of_type = event.event_type@ == "m.rtc.member"@ || event.event_type@
                == "org.matrix.msc4143.rtc.member"@;
            let joins = event.content.member.membership == Some(Membership::Join)
                && event.content.member.id is Some && event.content.member.id->0@.len() > 0
                && event.content.application.application_type is Some
                && event.content.application.application_type->0@.len() > 0;
            &&& converted is Ok <==> of_type && event.content.slot_id@.len() > 0
                && event.content.sticky_key@.len() > 0
            &&& departed is Ok <==> converted is Ok
            &&& converted is Ok ==> (converted->Ok_0 is Joined <==> joins)
            &&& departed is Ok ==> departed->Ok_0 is Left
            &&& converted is Err ==> {
                &&& !of_type <==> converted->Err_0 is UnsupportedEventType
                &&& of_type && event.content.slot_id@.len() == 0 ==> converted->Err_0
                    is MissingField && converted->Err_0->field@ == "slot_id"@
                &&& of_type && event.content.slot_id@.len() > 0 ==> converted->Err_0
                    is MissingField && converted->Err_0->field@ == "sticky_key"@
            }
        }),
        converted matches Ok(CallMembershipEvent::Joined(joined)) ==> {
            &&& joined.room_id == event.room_id
            &&& joined.slot_id == event.content.slot_id
            &&& joined.sender == event.sender
            &&& joined.origin == event.origin
            &&& joined.sticky_key == event.content.sticky_key
            &&& event.content.member.id == Some(joined.member_id)
            &&& joined.membership_event_id == event.event_id
            &&& joined.membership_ts == event.content.created_ts
            &&& joined.application == event.content.application.application_type
        },
        departed matches Ok(CallMembershipEvent::Left(left)) ==> {
            &&& left.room_id == event.room_id
            &&& left.slot_id == event.content.slot_id
            &&& left.sender == event.sender
            &&& left.sticky_key == event.content.sticky_key
            &&& left.member_id == event.content.member.id
            &&& left.leave_reason == event.content.leave_reason
        },
        converted matches Ok(CallMembershipEvent::Left(left)) ==> departed == Ok::<
            CallMembershipEvent,
            EventConversionError,
        >(CallMembershipEvent::Left(left)),
{
    match event.content.member.membership {
        Some(Membership::Join) => {
            assert(event.content.member@.membership is Some);
        },
        _ => {},
    }
}

} // verus!
