//! Slots: where in a room a session may be held.
//!
//! A slot is room state. Whether it is open depends on what its event says and on
//! whether the room is encrypted: sessions are encrypted in encrypted rooms and
//! nowhere else.

use vstd::prelude::*;
use crate::json::{Json, JsonView};
use crate::text::{has_prefix, joined, same_text, starts_with, text_of};

verus! {

/// The type of a slot event.
pub const SLOT_EVENT_TYPE: &'static str = "m.rtc.slot";

/// Whether a room is end-to-end encrypted.
#[derive(Clone, Copy, Debug, PartialEq, Eq, Structural)]
pub enum RoomEncryption {
    /// Nobody has said yet, so no rule that depends on it applies.
    Unknown,
    /// It is.
    Encrypted,
    /// It is not.
    Unencrypted,
}

impl Default for RoomEncryption {
    fn default() -> (encryption: RoomEncryption)
        ensures
            encryption is Unknown,
    {
        RoomEncryption::Unknown
    }
}

/// What a slot event says of the slot.
#[derive(Clone, Copy, Debug, PartialEq, Eq, Structural)]
pub enum SlotStatus {
    /// `open`
    Open,
    /// `closed`
    Closed,
}

/// How the media of a session is encrypted.
#[derive(Debug, PartialEq, Eq)]
pub enum EncryptionMechanism {
    /// `m.per_member`: every member has a key of its own.
    PerMember,
    /// Any other mechanism, by its name.
    Other(String),
}

/// The `encryption` object of a slot event.
#[derive(Debug, PartialEq, Eq)]
pub struct SlotEncryption {
    /// The mechanism.
    pub mechanism: EncryptionMechanism,
}

/// The content of a slot event.
#[derive(Debug)]
pub struct RawSlotEventContent {
    /// What it says of the slot, where it says anything known.
    pub status: Option<SlotStatus>,
    /// The type of the application the slot is for.
    pub application_type: Option<String>,
    /// How sessions in the slot are encrypted; absent, they are not.
    pub encryption: Option<SlotEncryption>,
}

/// A slot event.
#[derive(Debug)]
pub struct RawSlotEvent {
    /// The room.
    pub room_id: String,
    /// The slot, which is the event's state key.
    pub slot_id: String,
    /// The content.
    pub content: RawSlotEventContent,
}

/// An open slot.
#[derive(Debug, PartialEq, Eq)]
pub struct OpenSlot {
    /// The type of the application it is for.
    pub application_type: String,
    /// How sessions in it are encrypted.
    pub encryption: Option<SlotEncryption>,
}

/// What a slot amounts to.
#[derive(Debug, PartialEq, Eq)]
pub enum SlotState {
    /// No session can be held.
    Closed,
    /// Sessions can be held.
    Open(OpenSlot),
}

impl Clone for EncryptionMechanism {
    fn clone(&self) -> (copy: EncryptionMechanism)
        ensures
            copy == *self,
    {
        match self {
            EncryptionMechanism::PerMember => EncryptionMechanism::PerMember,
            EncryptionMechanism::Other(name) => EncryptionMechanism::Other(name.clone()),
        }
    }
}

impl Clone for SlotEncryption {
    fn clone(&self) -> (copy: SlotEncryption)
        ensures
            copy == *self,
    {
        SlotEncryption { mechanism: self.mechanism.clone() }
    }
}

fn clone_encryption(encryption: &Option<SlotEncryption>) -> (copy: Option<SlotEncryption>)
    ensures
        copy == *encryption,
{
    match encryption {
        Some(encryption) => Some(encryption.clone()),
        None => None,
    }
}

impl Clone for SlotState {
    fn clone(&self) -> (copy: SlotState)
        ensures
            copy == *self,
    {
        match self {
            SlotState::Closed => SlotState::Closed,
            SlotState::Open(slot) => SlotState::Open(
                OpenSlot {
                    application_type: slot.application_type.clone(),
                    encryption: clone_encryption(&slot.encryption),
                },
            ),
        }
    }
}

impl SlotState {
    /// Whether sessions can be held.
    pub fn is_open(&self) -> (yes: bool)
        ensures
            yes == (self is Open),
    {
        matches!(self, SlotState::Open(_))
    }
}

/// Whether a slot id belongs to an application: it begins with the application's
/// type and a `#`.
pub open spec fn belongs_to(slot_id: Seq<char>, application_type: Seq<char>) -> bool {
    has_prefix(slot_id, application_type + "#"@)
}

/// Whether a slot id belongs to an application.
pub fn slot_belongs_to(slot_id: &str, application_type: &str) -> (yes: bool)
    ensures
        yes == belongs_to(slot_id@, application_type@),
{
    let prefix: String = joined(application_type, "#");
    starts_with(slot_id, prefix.as_str())
}

/// Whether sessions may be encrypted as stated in a room.
pub open spec fn permitted(encryption: Option<SlotEncryption>, room: RoomEncryption) -> bool {
    match room {
        RoomEncryption::Unknown => true,
        RoomEncryption::Encrypted => encryption is Some,
        RoomEncryption::Unencrypted => encryption is None,
    }
}

impl RawSlotEvent {
    /// What the slot amounts to in a room: open where its event says so, for an
    /// application it belongs to, encrypted as the room demands.
    pub open spec fn resolved(self, room: RoomEncryption) -> SlotState {
        match (self.content.status, self.content.application_type) {
            (Some(SlotStatus::Open), Some(application_type)) => if application_type@.len() > 0
                && belongs_to(self.slot_id@, application_type@) && permitted(
                self.content.encryption,
                room,
            ) {
                SlotState::Open(OpenSlot { application_type, encryption: self.content.encryption })
            } else {
                SlotState::Closed
            },
            _ => SlotState::Closed,
        }
    }

    /// Resolves the slot against the room's encryption.
    pub fn resolve(&self, room: RoomEncryption) -> (state: SlotState)
        ensures
            state == self.resolved(room),
    {
        match (&self.content.status, &self.content.application_type) {
            (Some(SlotStatus::Open), Some(application_type)) => {
                let allowed: bool = match room {
                    RoomEncryption::Unknown => true,
                    RoomEncryption::Encrypted => self.content.encryption.is_some(),
                    RoomEncryption::Unencrypted => self.content.encryption.is_none(),
                };
                if !application_type.as_str().is_empty() && slot_belongs_to(
                    self.slot_id.as_str(),
                    application_type.as_str(),
                ) && allowed {
                    SlotState::Open(
                        OpenSlot {
                            application_type: application_type.clone(),
                            encryption: clone_encryption(&self.content.encryption),
                        },
                    )
                } else {
                    SlotState::Closed
                }
            },
            (_, _) => SlotState::Closed,
        }
    }
}

/// Model of an [`EncryptionMechanism`].
#[verifier::ext_equal]
pub enum MechanismView {
    /// `m.per_member`
    PerMember,
    /// Any other mechanism, by its name.
    Other(Seq<char>),
}

impl View for EncryptionMechanism {
    type V = MechanismView;

    open spec fn view(&self) -> MechanismView {
        match self {
            EncryptionMechanism::PerMember => MechanismView::PerMember,
            EncryptionMechanism::Other(name) => MechanismView::Other(name@),
        }
    }
}

impl MechanismView {
    /// The mechanism's name on the wire.
    pub open spec fn wire(self) -> Seq<char> {
        match self {
            MechanismView::PerMember => "m.per_member"@,
            MechanismView::Other(name) => name,
        }
    }

    /// The mechanism that a name on the wire stands for.
    pub open spec fn read(name: Seq<char>) -> MechanismView {
        if name == "m.per_member"@ {
            MechanismView::PerMember
        } else {
            MechanismView::Other(name)
        }
    }
}

impl EncryptionMechanism {
    /// The mechanism that a name on the wire stands for.
    pub fn from_wire(name: &str) -> (mechanism: EncryptionMechanism)
        ensures
            mechanism@ == MechanismView::read(name@),
    {
        if same_text(name, "m.per_member") {
            EncryptionMechanism::PerMember
        } else {
            EncryptionMechanism::Other(name.to_owned())
        }
    }

    /// The mechanism's name on the wire.
    pub fn as_str(&self) -> (name: &str)
        ensures
            name@ == self@.wire(),
    {
        match self {
            EncryptionMechanism::PerMember => "m.per_member",
            EncryptionMechanism::Other(name) => name.as_str(),
        }
    }
}

/// Model of a [`RawSlotEventContent`].
#[verifier::ext_equal]
pub struct SlotContentView {
    /// What it says of the slot.
    pub status: Option<SlotStatus>,
    /// The type of the application the slot is for.
    pub application_type: Option<Seq<char>>,
    /// How sessions in the slot are encrypted.
    pub mechanism: Option<MechanismView>,
}

impl View for RawSlotEventContent {
    type V = SlotContentView;

    open spec fn view(&self) -> SlotContentView {
        SlotContentView {
            status: self.status,
            application_type: text_of(self.application_type),
            mechanism: match self.encryption {
                Some(encryption) => Some(encryption.mechanism@),
                None => None,
            },
        }
    }
}

/// A slot content on the wire.
pub open spec fn slot_json(content: SlotContentView) -> JsonView {
    let status = match content.status {
        Some(SlotStatus::Open) => JsonView::object().with("status"@, JsonView::Text("open"@)),
        Some(SlotStatus::Closed) => JsonView::object().with("status"@, JsonView::Text("closed"@)),
        None => JsonView::object(),
    };
    let named = match content.application_type {
        Some(application_type) => status.with(
            "application"@,
            JsonView::object().with("type"@, JsonView::Text(application_type)),
        ),
        None => status,
    };
    match content.mechanism {
        Some(mechanism) => named.with(
            "encryption"@,
            JsonView::object().with("type"@, JsonView::Text(mechanism.wire())),
        ),
        None => named,
    }
}

/// What a slot content on the wire says. One whose encryption cannot be read says
/// nothing at all, so that its slot is not taken for an unencrypted one.
pub open spec fn read_slot(json: JsonView) -> SlotContentView {
    let status = match json.text_at("status"@) {
        Some(text) => if text == "open"@ {
            Some(SlotStatus::Open)
        } else if text == "closed"@ {
            Some(SlotStatus::Closed)
        } else {
            None
        },
        None => None,
    };
    let application_type = match json.get("application"@) {
        Some(application) => application.text_at("type"@),
        None => None,
    };
    match json.get("encryption"@) {
        Some(encryption) => match encryption.text_at("type"@) {
            Some(name) => SlotContentView {
                status,
                application_type,
                mechanism: Some(MechanismView::read(name)),
            },
            None => SlotContentView { status: None, application_type: None, mechanism: None },
        },
        None => SlotContentView { status, application_type, mechanism: None },
    }
}

impl RawSlotEventContent {
    /// Says nothing.
    pub fn empty() -> (content: RawSlotEventContent)
        ensures
            content == (RawSlotEventContent {
                status: None,
                application_type: None,
                encryption: None,
            }),
    {
        RawSlotEventContent { status: None, application_type: None, encryption: None }
    }

    /// Opens a slot.
    pub fn for_open(application_type: String, encryption: Option<SlotEncryption>) -> (content:
        RawSlotEventContent)
        ensures
            content == (RawSlotEventContent {
                status: Some(SlotStatus::Open),
                application_type: Some(application_type),
                encryption,
            }),
    {
        RawSlotEventContent {
            status: Some(SlotStatus::Open),
            application_type: Some(application_type),
            encryption,
        }
    }

    /// Closes a slot.
    pub fn for_close() -> (content: RawSlotEventContent)
        ensures
            content == (RawSlotEventContent {
                status: Some(SlotStatus::Closed),
                application_type: None,
                encryption: None,
            }),
    {
        RawSlotEventContent {
            status: Some(SlotStatus::Closed),
            application_type: None,
            encryption: None,
        }
    }

    /// Writes the content out.
    pub fn to_json(&self) -> (json: Json)
        ensures
            json@ == slot_json(self@),
    {
        let status: Json = match self.status {
            Some(SlotStatus::Open) => Json::object().with("status", Json::text("open")),
            Some(SlotStatus::Closed) => Json::object().with("status", Json::text("closed")),
            None => Json::object(),
        };
        let named: Json = match &self.application_type {
            Some(application_type) => status.with(
                "application",
                Json::object().with("type", Json::text(application_type.as_str())),
            ),
            None => status,
        };
        match &self.encryption {
            Some(encryption) => named.with(
                "encryption",
                Json::object().with("type", Json::text(encryption.mechanism.as_str())),
            ),
            None => named,
        }
    }

    /// Reads a content. A content that cannot be read says nothing, which leaves
    /// its slot closed.
    pub fn from_json(json: &Json) -> (content: RawSlotEventContent)
        ensures
            content@ == read_slot(json@),
    {
        let status: Option<SlotStatus> = match json.text_at("status") {
            Some(text) => if same_text(text, "open") {
                Some(SlotStatus::Open)
            } else if same_text(text, "closed") {
                Some(SlotStatus::Closed)
            } else {
                None
            },
            None => None,
        };
        let application_type: Option<String> = match json.get("application") {
            Some(application) => match application.text_at("type") {
                Some(text) => Some(text.to_owned()),
                None => None,
            },
            None => None,
        };
        let encryption: Option<SlotEncryption> = match json.get("encryption") {
            Some(encryption) => match encryption.text_at("type") {
                Some(name) => Some(
                    SlotEncryption { mechanism: EncryptionMechanism::from_wire(name) },
                ),
                None => {
                    return RawSlotEventContent::empty();
                },
            },
            None => None,
        };
        RawSlotEventContent { status, application_type, encryption }
    }
}

/// What is sent of a slot is what is read of it. An unknown mechanism that spells
/// the known one is left out.
pub proof fn law_slot_content_round_trips(content: SlotContentView)
    requires
        content.mechanism != Some(MechanismView::Other("m.per_member"@)),
    ensures
        read_slot(slot_json(content)) == content,
{
    reveal_strlit("status");
    reveal_strlit("application");
    reveal_strlit("encryption");
    reveal_strlit("open");
    reveal_strlit("closed");
    assert("status"@.len() == 6 && "application"@.len() == 11 && "encryption"@.len() == 10);
    assert("open"@.len() == 4 && "closed"@.len() == 6);
    let json = slot_json(content);
    assert(json.text_at("status"@) is Some <==> content.status is Some);
}

/// A slot that is opened for an application it belongs to is open, as far as the
/// room's encryption permits, and closed in every room once it is closed.
pub proof fn law_opened_slot_is_open(slot: RawSlotEvent, room: RoomEncryption)
    ensures
        slot.content.status == Some(SlotStatus::Open) && slot.content.application_type is Some
            && slot.content.application_type->0@.len() > 0 && belongs_to(
            slot.slot_id@,
            slot.content.application_type->0@,
        ) ==> (slot.resolved(room) is Open <==> permitted(slot.content.encryption, room)),
        slot.content.status == Some(SlotStatus::Closed) ==> slot.resolved(room) is Closed,
{
}

} // verus!
