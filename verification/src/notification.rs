//! Notifications: summoning people to a session.
//!
//! Membership says who is in a session, not who should be summoned to one. A
//! notification is a timeline event that does, with a reference to the sender's
//! own member event, by which a receiver can check that the session is real.

use vstd::prelude::*;
use crate::json::{models, Json, JsonView};
use crate::text::{joined, texts};

verus! {

/// The type of a notification event.
pub const NOTIFICATION_EVENT_TYPE: &'static str = "m.rtc.notification";

/// How long a ring lasts, by default (30 seconds).
pub const DEFAULT_RING_LIFETIME_MS: u64 = 30_000;

/// The longest ring that receivers honour (2 minutes).
pub const MAX_RING_LIFETIME_MS: u64 = 120_000;

/// What kind of noise a notification asks for.
#[derive(Clone, Copy, Debug, PartialEq, Eq, Structural)]
pub enum NotificationType {
    /// Ring audibly.
    Ring,
    /// Show a visual indication only.
    Notification,
}

impl NotificationType {
    /// The name on the wire.
    pub open spec fn wire(self) -> Seq<char> {
        match self {
            NotificationType::Ring => "ring"@,
            NotificationType::Notification => "notification"@,
        }
    }

    /// The name on the wire.
    pub fn as_str(self) -> (text: &'static str)
        ensures
            text@ == self.wire(),
    {
        match self {
            NotificationType::Ring => "ring",
            NotificationType::Notification => "notification",
        }
    }
}

/// Who a notification is for.
#[derive(Debug, PartialEq, Eq)]
pub struct Mentions {
    /// Users named one by one.
    pub user_ids: Vec<String>,
    /// Whether the whole room is meant.
    pub room: bool,
}

impl Default for Mentions {
    /// Everyone in the room.
    fn default() -> (mentions: Mentions)
        ensures
            mentions.user_ids@.len() == 0,
            mentions.room,
    {
        Mentions { user_ids: Vec::new(), room: true }
    }
}

/// What a host asks for when it starts a call.
#[derive(Debug)]
pub struct NotifyConfig {
    /// Ring, or notify silently.
    pub notification_type: NotificationType,
    /// What kind of call it is, e.g. `audio`; left out of the event when absent.
    pub intent: Option<String>,
    /// How long the ring stays valid, in milliseconds.
    pub lifetime_ms: Option<u64>,
    /// Who to notify.
    pub mentions: Mentions,
}

impl NotifyConfig {
    /// Whether this asks the whole room for `kind` of noise, with nothing else
    /// said.
    pub open spec fn is_plain(self, kind: NotificationType) -> bool {
        &&& self.notification_type == kind
        &&& self.intent is None
        &&& self.lifetime_ms is None
        &&& self.mentions.user_ids@.len() == 0
        &&& self.mentions.room
    }

    /// The lifetime to put on the wire: the configured one or the default, but
    /// no longer than receivers honour.
    pub open spec fn lifetime(self) -> u64 {
        match self.lifetime_ms {
            Some(requested) => if requested > MAX_RING_LIFETIME_MS {
                MAX_RING_LIFETIME_MS
            } else {
                requested
            },
            None => DEFAULT_RING_LIFETIME_MS,
        }
    }

    /// Rings the room, with the default lifetime.
    pub fn ring() -> (config: NotifyConfig)
        ensures
            config.is_plain(NotificationType::Ring),
    {
        NotifyConfig::new(NotificationType::Ring)
    }

    /// Notifies the room without ringing.
    pub fn notification() -> (config: NotifyConfig)
        ensures
            config.is_plain(NotificationType::Notification),
    {
        NotifyConfig::new(NotificationType::Notification)
    }

    fn new(notification_type: NotificationType) -> (config: NotifyConfig)
        ensures
            config.is_plain(notification_type),
    {
        NotifyConfig {
            notification_type,
            intent: None,
            lifetime_ms: None,
            mentions: Mentions::default(),
        }
    }

    /// The lifetime to put on the wire: the configured one or the default, but
    /// no longer than receivers honour.
    pub fn lifetime_ms(&self) -> (lifetime: u64)
        ensures
            lifetime == self.lifetime(),
    {
        match self.lifetime_ms {
            Some(requested) => if requested > MAX_RING_LIFETIME_MS {
                MAX_RING_LIFETIME_MS
            } else {
                requested
            },
            None => DEFAULT_RING_LIFETIME_MS,
        }
    }
}

/// How long the homeserver should keep a notification in the sticky map: twice
/// its lifetime, because an acknowledgement can extend the ring.
pub open spec fn sticky_duration(lifetime_ms: u64) -> u64 {
    if lifetime_ms * 2 > u64::MAX {
        u64::MAX
    } else {
        (lifetime_ms * 2) as u64
    }
}

/// How long the homeserver should keep a notification in the sticky map: twice
/// its lifetime, because an acknowledgement can extend the ring.
pub fn notification_sticky_duration_ms(lifetime_ms: u64) -> (duration: u64)
    ensures
        duration == sticky_duration(lifetime_ms),
{
    match lifetime_ms.checked_mul(2) {
        Some(duration) => duration,
        None => u64::MAX,
    }
}

/// The call's members of a notification, added to `json`.
pub open spec fn with_call_members(
    json: JsonView,
    config: NotifyConfig,
    sender_ts_ms: u64,
) -> JsonView {
    let stated = json.with("notification_type"@, JsonView::Text(config.notification_type.wire())).with(
        "sender_ts"@,
        JsonView::number(sender_ts_ms),
    ).with("lifetime"@, JsonView::number(config.lifetime()));
    match config.intent {
        Some(intent) => stated.with("m.call.intent"@, JsonView::Text(intent@)),
        None => stated,
    }
}

/// The content of a notification. The call's members stand both inside
/// `application`, where the current format has them, and at the top level, where
/// deployed receivers read them; `device_id` stands in `application` alone.
pub open spec fn notification_content(
    config: NotifyConfig,
    application_type: Seq<char>,
    sender: Seq<char>,
    device_id: Seq<char>,
    member_event_id: Seq<char>,
    sender_ts_ms: u64,
) -> JsonView {
    let application = with_call_members(
        JsonView::object().with("type"@, JsonView::Text(application_type)).with(
            "device_id"@,
            JsonView::Text(device_id),
        ),
        config,
        sender_ts_ms,
    );
    with_call_members(
        JsonView::object().with("application"@, application),
        config,
        sender_ts_ms,
    ).with(
        "m.text"@,
        JsonView::Array(
            seq![
                JsonView::object().with(
                    "body"@,
                    JsonView::Text("Session started by "@ + sender),
                ),
            ],
        ),
    ).with(
        "m.mentions"@,
        JsonView::object().with(
            "user_ids"@,
            JsonView::Array(
                texts(config.mentions.user_ids@).map_values(|user: Seq<char>| JsonView::Text(user)),
            ),
        ).with("room"@, JsonView::Bool(config.mentions.room)),
    ).with(
        "m.relates_to"@,
        JsonView::object().with("rel_type"@, JsonView::Text("m.reference"@)).with(
            "event_id"@,
            JsonView::Text(member_event_id),
        ),
    )
}

fn add_call_members(json: Json, config: &NotifyConfig, sender_ts_ms: u64) -> (result: Json)
    ensures
        result@ == with_call_members(json@, *config, sender_ts_ms),
{
    let stated: Json = json.with(
        "notification_type",
        Json::text(config.notification_type.as_str()),
    ).with("sender_ts", Json::number(sender_ts_ms)).with(
        "lifetime",
        Json::number(config.lifetime_ms()),
    );
    match &config.intent {
        Some(intent) => stated.with("m.call.intent", Json::text(intent.as_str())),
        None => stated,
    }
}

fn text_items(strings: &Vec<String>) -> (items: Vec<Json>)
    ensures
        models(items@) == texts(strings@).map_values(|text: Seq<char>| JsonView::Text(text)),
{
    let mut items: Vec<Json> = Vec::new();
    let mut i: usize = 0;
    while i < strings.len()
        invariant
            i <= strings@.len(),
            items@.len() == i,
            forall|j: int|
                0 <= j < i ==> (#[trigger] items@[j])@ == JsonView::Text(strings@[j]@),
        decreases strings@.len() - i,
    {
        items.push(Json::text(strings[i].as_str()));
        i = i + 1;
    }
    assert(models(items@) =~= texts(strings@).map_values(|text: Seq<char>| JsonView::Text(text)));
    items
}

/// Builds the content of a notification. `member_event_id` is the id of our own
/// member event, which is why a notification cannot go out before the membership.
pub fn build_notification_content(
    config: &NotifyConfig,
    application_type: &str,
    sender: &str,
    device_id: &str,
    member_event_id: &str,
    sender_ts_ms: u64,
) -> (content: Json)
    ensures
        content@ == notification_content(
            *config,
            application_type@,
            sender@,
            device_id@,
            member_event_id@,
            sender_ts_ms,
        ),
{
    let application: Json = add_call_members(
        Json::object().with("type", Json::text(application_type)).with(
            "device_id",
            Json::text(device_id),
        ),
        config,
        sender_ts_ms,
    );
    let started: String = joined("Session started by ", sender);
    let body: Json = Json::object().with("body", Json::text(started.as_str()));
    let mut fallback: Vec<Json> = Vec::new();
    fallback.push(body);
    assert(models(fallback@) =~= seq![body@]);
    let mentions: Json = Json::object().with(
        "user_ids",
        Json::array(text_items(&config.mentions.user_ids)),
    ).with("room", Json::Bool(config.mentions.room));
    let reference: Json = Json::object().with("rel_type", Json::text("m.reference")).with(
        "event_id",
        Json::text(member_event_id),
    );
    add_call_members(
        Json::object().with("application", application),
        config,
        sender_ts_ms,
    ).with("m.text", Json::array(fallback)).with("m.mentions", mentions).with(
        "m.relates_to",
        reference,
    )
}

/// The names of a notification's members are all different.
pub proof fn lemma_names()
    ensures
        forall|a: Seq<char>, b: Seq<char>|
            #![trigger call_name(a), outer_name(b)]
            call_name(a) && outer_name(b) ==> a != b,
        "device_id"@ != "notification_type"@,
        "device_id"@ != "sender_ts"@,
        "device_id"@ != "lifetime"@,
        "device_id"@ != "m.call.intent"@,
        !outer_name("device_id"@),
        "notification_type"@ != "sender_ts"@,
        "notification_type"@ != "lifetime"@,
        "notification_type"@ != "m.call.intent"@,
        "sender_ts"@ != "lifetime"@,
        "sender_ts"@ != "m.call.intent"@,
        "lifetime"@ != "m.call.intent"@,
        "application"@ != "m.text"@,
        "application"@ != "m.mentions"@,
        "application"@ != "m.relates_to"@,
        "m.relates_to"@ != "m.text"@,
        "m.relates_to"@ != "m.mentions"@,
        "rel_type"@ != "event_id"@,
{
    reveal_strlit("notification_type");
    reveal_strlit("sender_ts");
    reveal_strlit("lifetime");
    reveal_strlit("m.call.intent");
    reveal_strlit("application");
    reveal_strlit("m.text");
    reveal_strlit("m.mentions");
    reveal_strlit("m.relates_to");
    reveal_strlit("device_id");
    reveal_strlit("rel_type");
    reveal_strlit("event_id");
    assert("notification_type"@.len() == 17 && "sender_ts"@.len() == 9 && "lifetime"@.len() == 8);
    assert("m.call.intent"@.len() == 13 && "application"@.len() == 11 && "m.text"@.len() == 6);
    assert("m.mentions"@.len() == 10 && "m.relates_to"@.len() == 12 && "device_id"@.len() == 9);
    assert("device_id"@[0] == 'd' && "sender_ts"@[0] == 's');
    assert("rel_type"@[0] == 'r' && "event_id"@[0] == 'e');
}

/// Whether a name is that of one of the call's members.
pub open spec fn call_name(name: Seq<char>) -> bool {
    ||| name == "notification_type"@
    ||| name == "sender_ts"@
    ||| name == "lifetime"@
    ||| name == "m.call.intent"@
}

/// Whether a name is that of another member of a notification.
pub open spec fn outer_name(name: Seq<char>) -> bool {
    ||| name == "application"@
    ||| name == "m.text"@
    ||| name == "m.mentions"@
    ||| name == "m.relates_to"@
}

/// A receiver of either shape reads the same: what a notification says of the
/// call inside `application` it says at the top level too. The device stands in
/// `application` alone.
pub proof fn law_both_shapes_agree(
    config: NotifyConfig,
    application_type: Seq<char>,
    sender: Seq<char>,
    device_id: Seq<char>,
    member_event_id: Seq<char>,
    sender_ts_ms: u64,
    name: Seq<char>,
)
    requires
        call_name(name),
    ensures
        ({
            let content = notification_content(
                config,
                application_type,
                sender,
                device_id,
                member_event_id,
                sender_ts_ms,
            );
            &&& content.get(name) == content.get_in("application"@, name)
            &&& content.get("device_id"@) is None
            &&& content.get_in("application"@, "device_id"@) == Some(JsonView::Text(device_id))
        }),
{
    lemma_names();
    reveal_strlit("type");
    assert("type"@.len() == 4);
    assert(outer_name("application"@) && outer_name("m.text"@) && outer_name("m.mentions"@)
        && outer_name("m.relates_to"@));
    assert(call_name("notification_type"@) && call_name("sender_ts"@) && call_name("lifetime"@)
        && call_name("m.call.intent"@));
    let inner = JsonView::object().with("type"@, JsonView::Text(application_type)).with(
        "device_id"@,
        JsonView::Text(device_id),
    );
    reveal_strlit("notification_type");
    reveal_strlit("sender_ts");
    reveal_strlit("lifetime");
    reveal_strlit("m.call.intent");
    reveal_strlit("device_id");
    assert("notification_type"@.len() == 17 && "sender_ts"@.len() == 9 && "lifetime"@.len() == 8);
    assert("m.call.intent"@.len() == 13 && "device_id"@.len() == 9);
    assert("device_id"@[0] == 'd' && "sender_ts"@[0] == 's');
    assert(inner.get(name) is None);
    let application = with_call_members(inner, config, sender_ts_ms);
    let outer = with_call_members(
        JsonView::object().with("application"@, application),
        config,
        sender_ts_ms,
    );
    assert(outer.get("application"@) == Some(application));
    assert(outer.get(name) == application.get(name));
}

/// The ring outlasts nothing it should not: on the wire it is never longer than
/// receivers honour, and the sticky entry is there for at least twice as long.
pub proof fn law_entry_outlives_the_ring(config: NotifyConfig)
    ensures
        config.lifetime() <= MAX_RING_LIFETIME_MS,
        sticky_duration(config.lifetime()) == 2 * config.lifetime(),
{
}

} // verus!
