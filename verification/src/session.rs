//! What a member event says: the member, its application, and the membership it
//! amounts to.

use vstd::prelude::*;
use crate::event::EventOrigin;
use crate::json::{members_model, JsonMember, JsonView};
use crate::text::{clone_text, clone_texts, same_text, text_of, texts};
use crate::transport::{alike, RtcTransport};

verus! {

/// The membership a member event states.
#[derive(Debug, PartialEq, Eq)]
pub enum Membership {
    /// `join`
    Join,
    /// `leave`
    Leave,
    /// Any other value, as it was written.
    Unknown(String),
}

/// The `member` object of a member event.
#[derive(Debug, PartialEq, Eq)]
pub struct MemberInfo {
    /// The globally unique id of this participation.
    pub id: Option<String>,
    /// Whether the member is joining or leaving.
    pub membership: Option<Membership>,
}

/// The `application` object of a member event.
#[derive(Debug)]
pub struct ApplicationInfo {
    /// The application's `type`, e.g. `m.call`.
    pub application_type: Option<String>,
    /// All other members.
    pub extra: Vec<JsonMember>,
}

/// Why a member left, as a code.
#[derive(Debug, PartialEq, Eq)]
pub enum LeaveCode {
    /// `leave`: a voluntary leave.
    Leave,
    /// `slot_closed`: the slot closed under the member.
    SlotClosed,
    /// `delayed_leave`: the homeserver left on the member's behalf.
    DelayedLeave,
    /// A code some transport or application defined.
    Other(String),
}

/// The `leave_reason` object of a member event.
#[derive(Debug, PartialEq, Eq)]
pub struct LeaveReason {
    /// The machine-readable cause.
    pub code: LeaveCode,
    /// The human-readable cause.
    pub reason: Option<String>,
}

/// A member that is in the session.
#[derive(Debug)]
pub struct JoinedMembership {
    /// The room the session is in.
    pub room_id: String,
    /// The slot the member joined.
    pub slot_id: String,
    /// The user that sent the member event.
    pub sender: String,
    /// How the member event arrived, including the sending device.
    pub origin: EventOrigin,
    /// The key the member event is filed under in the sticky map.
    pub sticky_key: String,
    /// The id of this participation.
    pub member_id: String,
    /// The member event's id, when known.
    pub membership_event_id: Option<String>,
    /// When this participation began, where the dialect states it.
    pub membership_ts: Option<u64>,
    /// The application's type.
    pub application: Option<String>,
    /// The transports the member publishes on.
    pub transports: Vec<RtcTransport>,
    /// The transport types the member can receive on.
    pub can_subscribe: Vec<String>,
}

/// A member that is not, or no longer, in the session.
#[derive(Debug)]
pub struct LeftMembership {
    /// The room the session is in.
    pub room_id: String,
    /// The slot the member was in.
    pub slot_id: String,
    /// The user that sent the member event.
    pub sender: String,
    /// The key the member event is filed under in the sticky map.
    pub sticky_key: String,
    /// The id of the participation that ended, when stated.
    pub member_id: Option<String>,
    /// Why it ended, when stated.
    pub leave_reason: Option<LeaveReason>,
}

/// What a member event amounts to.
#[derive(Debug)]
pub enum CallMembershipEvent {
    /// The member is in the session.
    Joined(JoinedMembership),
    /// The member is not.
    Left(LeftMembership),
}

/// Model of a [`Membership`].
#[verifier::ext_equal]
pub enum MembershipView {
    /// `join`
    Join,
    /// `leave`
    Leave,
    /// Any other value, as it was written.
    Unknown(Seq<char>),
}

/// Model of a [`MemberInfo`].
#[verifier::ext_equal]
pub struct MemberView {
    /// The id of this participation.
    pub id: Option<Seq<char>>,
    /// Whether the member is joining or leaving.
    pub membership: Option<MembershipView>,
}

/// Model of an [`ApplicationInfo`].
#[verifier::ext_equal]
pub struct ApplicationView {
    /// The application's `type`.
    pub application_type: Option<Seq<char>>,
    /// All other members.
    pub extra: Map<Seq<char>, JsonView>,
}

/// Model of a [`LeaveCode`].
#[verifier::ext_equal]
pub enum LeaveCodeView {
    /// `leave`
    Leave,
    /// `slot_closed`
    SlotClosed,
    /// `delayed_leave`
    DelayedLeave,
    /// Any other code, as it was written.
    Other(Seq<char>),
}

/// Model of a [`LeaveReason`].
#[verifier::ext_equal]
pub struct LeaveReasonView {
    /// The machine-readable cause.
    pub code: LeaveCodeView,
    /// The human-readable cause.
    pub reason: Option<Seq<char>>,
}

impl View for Membership {
    type V = MembershipView;

    open spec fn view(&self) -> MembershipView {
        match self {
            Membership::Join => MembershipView::Join,
            Membership::Leave => MembershipView::Leave,
            Membership::Unknown(text) => MembershipView::Unknown(text@),
        }
    }
}

impl MembershipView {
    /// The wire value.
    pub open spec fn wire(self) -> Seq<char> {
        match self {
            MembershipView::Join => "join"@,
            MembershipView::Leave => "leave"@,
            MembershipView::Unknown(text) => text,
        }
    }

    /// What a wire value says.
    pub open spec fn read(text: Seq<char>) -> MembershipView {
        if text == "join"@ {
            MembershipView::Join
        } else if text == "leave"@ {
            MembershipView::Leave
        } else {
            MembershipView::Unknown(text)
        }
    }
}

impl Membership {
    /// Reads a wire value; any value but the two known ones is kept as it is.
    pub fn from_wire(text: &str) -> (membership: Membership)
        ensures
            membership@ == MembershipView::read(text@),
    {
        if same_text(text, "join") {
            Membership::Join
        } else if same_text(text, "leave") {
            Membership::Leave
        } else {
            Membership::Unknown(text.to_owned())
        }
    }

    /// The wire value.
    pub fn as_wire(&self) -> (text: &str)
        ensures
            text@ == self@.wire(),
    {
        match self {
            Membership::Join => "join",
            Membership::Leave => "leave",
            Membership::Unknown(text) => text.as_str(),
        }
    }
}

impl View for MemberInfo {
    type V = MemberView;

    open spec fn view(&self) -> MemberView {
        MemberView {
            id: text_of(self.id),
            membership: match self.membership {
                Some(membership) => Some(membership@),
                None => None,
            },
        }
    }
}

impl MemberView {
    /// Whether nothing is stated.
    pub open spec fn says_nothing(self) -> bool {
        self.id is None && self.membership is None
    }

    /// Whether this states a join: `membership` is `join` and the id is set.
    pub open spec fn is_join(self) -> bool {
        self.membership == Some(MembershipView::Join) && self.id is Some && self.id->0.len() > 0
    }
}

impl MemberInfo {
    /// Whether nothing is stated.
    pub fn is_empty(&self) -> (yes: bool)
        ensures
            yes == self@.says_nothing(),
    {
        self.id.is_none() && self.membership.is_none()
    }

    /// Whether this states a join: `membership` is `join` and the id is set.
    pub fn is_join(&self) -> (yes: bool)
        ensures
            yes == self@.is_join(),
    {
        match (&self.membership, &self.id) {
            (Some(Membership::Join), Some(id)) => !id.as_str().is_empty(),
            (_, _) => false,
        }
    }
}

impl View for ApplicationInfo {
    type V = ApplicationView;

    open spec fn view(&self) -> ApplicationView {
        ApplicationView {
            application_type: text_of(self.application_type),
            extra: members_model(self.extra@),
        }
    }
}

impl ApplicationView {
    /// Nothing stated.
    pub open spec fn none() -> ApplicationView {
        ApplicationView { application_type: None, extra: Map::empty() }
    }
}

impl ApplicationInfo {
    /// Nothing stated.
    pub fn none() -> (application: ApplicationInfo)
        ensures
            application.application_type is None,
            application.extra@.len() == 0,
            application@ == ApplicationView::none(),
    {
        let application = ApplicationInfo { application_type: None, extra: Vec::new() };
        assert(members_model(application.extra@) =~= Map::empty());
        application
    }

    /// Whether nothing is stated.
    pub fn is_empty(&self) -> (yes: bool)
        ensures
            yes == (self@ == ApplicationView::none()),
    {
        proof {
            if self.extra@.len() == 0 {
                assert(members_model(self.extra@) =~= Map::empty());
            } else {
                let key = self.extra@[0].key@;
                assert(crate::json::is_first(self.extra@, key, 0));
                assert(members_model(self.extra@).contains_key(key));
            }
        }
        self.application_type.is_none() && self.extra.is_empty()
    }
}

impl View for LeaveCode {
    type V = LeaveCodeView;

    open spec fn view(&self) -> LeaveCodeView {
        match self {
            LeaveCode::Leave => LeaveCodeView::Leave,
            LeaveCode::SlotClosed => LeaveCodeView::SlotClosed,
            LeaveCode::DelayedLeave => LeaveCodeView::DelayedLeave,
            LeaveCode::Other(text) => LeaveCodeView::Other(text@),
        }
    }
}

impl LeaveCodeView {
    /// The wire value.
    pub open spec fn wire(self) -> Seq<char> {
        match self {
            LeaveCodeView::Leave => "leave"@,
            LeaveCodeView::SlotClosed => "slot_closed"@,
            LeaveCodeView::DelayedLeave => "delayed_leave"@,
            LeaveCodeView::Other(text) => text,
        }
    }

    /// What a wire value says.
    pub open spec fn read(text: Seq<char>) -> LeaveCodeView {
        if text == "leave"@ {
            LeaveCodeView::Leave
        } else if text == "slot_closed"@ {
            LeaveCodeView::SlotClosed
        } else if text == "delayed_leave"@ {
            LeaveCodeView::DelayedLeave
        } else {
            LeaveCodeView::Other(text)
        }
    }
}

impl LeaveCode {
    /// Reads a wire value; codes this library does not know survive as they are.
    pub fn from_wire(text: &str) -> (code: LeaveCode)
        ensures
            code@ == LeaveCodeView::read(text@),
    {
        if same_text(text, "leave") {
            LeaveCode::Leave
        } else if same_text(text, "slot_closed") {
            LeaveCode::SlotClosed
        } else if same_text(text, "delayed_leave") {
            LeaveCode::DelayedLeave
        } else {
            LeaveCode::Other(text.to_owned())
        }
    }

    /// The wire value.
    pub fn as_wire(&self) -> (text: &str)
        ensures
            text@ == self@.wire(),
    {
        match self {
            LeaveCode::Leave => "leave",
            LeaveCode::SlotClosed => "slot_closed",
            LeaveCode::DelayedLeave => "delayed_leave",
            LeaveCode::Other(text) => text.as_str(),
        }
    }
}

impl View for LeaveReason {
    type V = LeaveReasonView;

    open spec fn view(&self) -> LeaveReasonView {
        LeaveReasonView { code: self.code@, reason: text_of(self.reason) }
    }
}

impl LeaveReason {
    /// A reason that is only a code.
    pub fn new(code: LeaveCode) -> (reason: LeaveReason)
        ensures
            reason == (LeaveReason { code, reason: None }),
    {
        LeaveReason { code, reason: None }
    }

    /// A reason with its explanation.
    pub fn with_reason(code: LeaveCode, reason: &str) -> (stated: LeaveReason)
        ensures
            stated.code == code,
            text_of(stated.reason) == Some(reason@),
    {
        LeaveReason { code, reason: Some(reason.to_owned()) }
    }
}

impl JoinedMembership {
    /// Whether another membership says the same.
    pub open spec fn same_as(self, other: JoinedMembership) -> bool {
        &&& self == (JoinedMembership {
            transports: self.transports,
            can_subscribe: self.can_subscribe,
            ..other
        })
        &&& texts(self.can_subscribe@) == texts(other.can_subscribe@)
        &&& self.transports@.len() == other.transports@.len()
        &&& forall|i: int|
            0 <= i < self.transports@.len() ==> alike(
                #[trigger] self.transports@[i],
                other.transports@[i],
            )
    }
}

impl Clone for JoinedMembership {
    fn clone(&self) -> (copy: JoinedMembership)
        ensures
            copy.same_as(*self),
    {
        let mut transports: Vec<RtcTransport> = Vec::new();
        let mut i: usize = 0;
        while i < self.transports.len()
            invariant
                i <= self.transports@.len(),
                transports@.len() == i,
                forall|j: int|
                    0 <= j < i ==> alike(#[trigger] transports@[j], self.transports@[j]),
            decreases self.transports@.len() - i,
        {
            transports.push(self.transports[i].clone());
            i = i + 1;
        }
        JoinedMembership {
            room_id: self.room_id.clone(),
            slot_id: self.slot_id.clone(),
            sender: self.sender.clone(),
            origin: self.origin.clone(),
            sticky_key: self.sticky_key.clone(),
            member_id: self.member_id.clone(),
            membership_event_id: clone_text(&self.membership_event_id),
            membership_ts: self.membership_ts,
            application: clone_text(&self.application),
            transports,
            can_subscribe: clone_texts(&self.can_subscribe),
        }
    }
}

} // verus!
