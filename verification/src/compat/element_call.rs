//! The Element Call dialect of 2025: sticky events whose content still uses the
//! names from before the current member format.
//!
//! Reading it is permissive: every rule fills in a modern member that is absent
//! from a legacy one that is present, so a current content passes through as it
//! is.

use vstd::prelude::*;
use vstd::string::StrSliceExecFns;
use crate::encryption::KEY_MESSAGE_TYPE;
use crate::event::{is_member_event_type, is_member_type};
use crate::json::{lemma_model, lemma_some_first, models, Json, JsonView};
use crate::encryption::outbound::key_content;
use crate::wire::{read_content, read_member};
use crate::text::{find_mark, first_mark, joined_with, same_text, text_of};

verus! {

/// The type of the to-device message that carries a media key in this dialect.
pub const LEGACY_KEY_EVENT_TYPE: &'static str = "io.element.call.encryption_keys";

/// The call id that a slot id names for the session of the whole room, where the
/// legacy dialects have an empty string.
pub const ROOM_CALL_ID: &'static str = "ROOM";

/// What a member content turned out to be.
#[derive(Clone, Copy, Debug, PartialEq, Eq, Structural)]
pub enum MemberContent {
    /// A legacy leave: a sticky key and nothing else.
    BareLeave,
    /// A content that states a membership in the current names.
    Membership,
}

/// The application a slot id names: what stands before the first `#`.
pub open spec fn session_application(slot_id: Seq<char>) -> Seq<char> {
    slot_id.take(first_mark(slot_id, '#'))
}

/// The call id a slot id names: what stands behind the first `#`, with the
/// room-wide call written as nothing.
pub open spec fn session_call_id(slot_id: Seq<char>) -> Seq<char> {
    let rest = slot_id.skip(first_mark(slot_id, '#') + 1);
    if first_mark(slot_id, '#') == slot_id.len() || rest == ROOM_CALL_ID@ {
        Seq::empty()
    } else {
        rest
    }
}

/// Splits a slot id into the legacy application and call id.
pub fn legacy_session(slot_id: &str) -> (session: (&str, &str))
    ensures
        session.0@ == session_application(slot_id@),
        session.1@ == session_call_id(slot_id@),
{
    let length: usize = slot_id.unicode_len();
    let at: usize = find_mark(slot_id, '#');
    let application: &str = slot_id.substring_char(0, at);
    assert(application@ =~= session_application(slot_id@));
    if at == length {
        proof {
            reveal_strlit("");
        }
        assert(""@ =~= session_call_id(slot_id@));
        return (application, "");
    }
    let rest: &str = slot_id.substring_char(at + 1, length);
    assert(rest@ =~= slot_id@.skip(at + 1));
    if same_text(rest, ROOM_CALL_ID) {
        proof {
            reveal_strlit("");
        }
        assert(""@ =~= session_call_id(slot_id@));
        (application, "")
    } else {
        (application, rest)
    }
}

/// Whether a content states a leave.
pub open spec fn states_leave(content: JsonView) -> bool {
    content.get_in("member"@, "membership"@) == Some(JsonView::Text("leave"@))
}

/// Whether a content states a leave.
pub fn is_leave(content: &Json) -> (yes: bool)
    ensures
        yes == states_leave(content@),
{
    match content.get_in("member", "membership") {
        Some(Json::Text(text)) => same_text(text.as_str(), "leave"),
        _ => false,
    }
}

/// Whether a member name is one the sticky key goes by.
pub open spec fn names_sticky_key(name: Seq<char>) -> bool {
    name == "msc4354_sticky_key"@ || name == "sticky_key"@
}

/// Whether a content is a sticky key and nothing else.
pub open spec fn is_bare_leave(content: JsonView) -> bool {
    match content {
        JsonView::Object(members) => {
            &&& members != Map::<Seq<char>, JsonView>::empty()
            &&& forall|name: Seq<char>|
                #[trigger] members.contains_key(name) ==> names_sticky_key(name)
        },
        _ => false,
    }
}

/// The transport types a list of transports names, in order.
pub open spec fn transport_types(transports: Seq<JsonView>) -> Seq<JsonView> {
    transports.filter_map(
        |transport: JsonView|
            match transport.text_at("type"@) {
                Some(text) => Some(JsonView::Text(text)),
                None => None,
            },
    )
}

/// The content with `member.membership` filled in: a legacy member event that
/// says anything is a join.
pub open spec fn with_membership(content: JsonView) -> JsonView {
    match content.get("member"@) {
        Some(JsonView::Object(member)) => if member.contains_key("membership"@) {
            content
        } else {
            content.with(
                "member"@,
                JsonView::Object(member).with("membership"@, JsonView::Text("join"@)),
            )
        },
        _ => content,
    }
}

/// The content with `transports` filled in from the flat legacy list.
pub open spec fn with_transports(content: JsonView) -> JsonView {
    match (content.get("transports"@), content.get("rtc_transports"@)) {
        (None, Some(JsonView::Array(transports))) => content.with(
            "transports"@,
            JsonView::object().with("published"@, JsonView::Array(transports)).with(
                "can_subscribe"@,
                JsonView::Array(transport_types(transports)),
            ),
        ),
        _ => content,
    }
}

/// A content in the current names. A bare leave stays as it is.
pub open spec fn normalized(content: JsonView) -> JsonView {
    if is_bare_leave(content) {
        content
    } else {
        with_transports(with_membership(content))
    }
}

/// The kind of a content.
pub open spec fn content_kind(content: JsonView) -> MemberContent {
    if is_bare_leave(content) {
        MemberContent::BareLeave
    } else {
        MemberContent::Membership
    }
}

fn bare_leave(content: &Json) -> (yes: bool)
    ensures
        yes == is_bare_leave(content@),
{
    proof {
        lemma_model(*content);
    }
    match content {
        Json::Object(members) => {
            let ghost model = crate::json::members_model(members@);
            let mut i: usize = 0;
            while i < members.len()
                invariant
                    i <= members@.len(),
                    model == crate::json::members_model(members@),
                    content@ == JsonView::Object(model),
                    forall|j: int|
                        0 <= j < i ==> names_sticky_key((#[trigger] members@[j]).key@),
                decreases members@.len() - i,
            {
                let key: &str = members[i].key.as_str();
                if !same_text(key, "msc4354_sticky_key") && !same_text(key, "sticky_key") {
                    proof {
                        lemma_some_first(members@, i as int);
                        assert(model.contains_key(members@[i as int].key@));
                    }
                    return false;
                }
                i = i + 1;
            }
            proof {
                assert forall|name: Seq<char>| #[trigger] model.contains_key(name) implies
                    names_sticky_key(name) by {
                    let at = crate::json::first_at(members@, name);
                    assert(crate::json::is_first(members@, name, at));
                }
                if members@.len() > 0 {
                    lemma_some_first(members@, 0);
                    assert(model.contains_key(members@[0].key@));
                } else {
                    assert(model =~= Map::empty());
                }
            }
            members.len() > 0
        },
        _ => false,
    }
}

fn types_of(transports: &Vec<Json>) -> (types: Vec<Json>)
    ensures
        models(types@) == transport_types(models(transports@)),
{
    let mut types: Vec<Json> = Vec::new();
    let ghost all = models(transports@);
    let ghost choose_type = |transport: JsonView|
        match transport.text_at("type"@) {
            Some(text) => Some(JsonView::Text(text)),
            None => None,
        };
    proof {
        reveal(Seq::filter_map);
    }
    assert(models(types@) =~= all.take(0).filter_map(choose_type));
    let mut i: usize = 0;
    while i < transports.len()
        invariant
            i <= transports@.len(),
            all == models(transports@),
            choose_type == (|transport: JsonView|
                match transport.text_at("type"@) {
                    Some(text) => Some(JsonView::Text(text)),
                    None => None,
                }),
            models(types@) == all.take(i as int).filter_map(choose_type),
        decreases transports@.len() - i,
    {
        proof {
            all.lemma_filter_map_take_succ(choose_type, i as int);
        }
        let ghost before = types@;
        match transports[i].text_at("type") {
            Some(text) => {
                types.push(Json::text(text));
                assert(models(types@) =~= models(before).push(types@.last()@));
            },
            None => {},
        }
        assert(models(types@) =~= all.take(i + 1).filter_map(choose_type));
        i = i + 1;
    }
    assert(all.take(all.len() as int) =~= all);
    types
}

fn fill_membership(content: Json) -> (filled: Json)
    ensures
        filled@ == with_membership(content@),
{
    let member: Json = match content.get("member") {
        Some(member) => if member.is_object() && member.get("membership").is_none() {
            member.clone()
        } else {
            return content;
        },
        None => {
            return content;
        },
    };
    content.with("member", member.with("membership", Json::text("join")))
}

fn fill_transports(content: Json) -> (filled: Json)
    ensures
        filled@ == with_transports(content@),
{
    if content.get("transports").is_some() {
        return content;
    }
    let transports: Json = match content.get("rtc_transports") {
        Some(listed) => match listed.items() {
            Some(items) => {
                let types: Vec<Json> = types_of(items);
                Json::object().with("published", listed.clone()).with(
                    "can_subscribe",
                    Json::array(types),
                )
            },
            None => {
                return content;
            },
        },
        None => {
            return content;
        },
    };
    content.with("transports", transports)
}

/// Rewrites a content into the current names and says what it is.
pub fn normalize_member_content(content: &mut Json) -> (kind: MemberContent)
    ensures
        kind == content_kind(old(content)@),
        final(content)@ == normalized(old(content)@),
{
    if bare_leave(content) {
        return MemberContent::BareLeave;
    }
    let mut taken: Json = Json::Null;
    std::mem::swap(&mut taken, content);
    *content = fill_transports(fill_membership(taken));
    MemberContent::Membership
}

/// The device a member content says it was sent from.
pub open spec fn claimed_device(content: JsonView) -> Option<Seq<char>> {
    match content.get("member"@) {
        Some(member) => member.nonempty_text_at("device_id"@),
        None => None,
    }
}

/// The device a member content says it was sent from.
pub fn claimed_device_id(content: &Json) -> (device: Option<String>)
    ensures
        text_of(device) == claimed_device(content@),
{
    match content.get("member") {
        Some(member) => match member.nonempty_text_at("device_id") {
            Some(device) => Some(device.to_owned()),
            None => None,
        },
        None => None,
    }
}

/// A media key from a legacy key message.
#[derive(Debug)]
pub struct LegacyKeyMessage {
    /// The room the key is for.
    pub room_id: String,
    /// The participation the key belongs to.
    pub member_id: String,
    /// The key's index.
    pub key_index: u8,
    /// The key, in base64.
    pub key_b64: String,
}

/// Model of a [`LegacyKeyMessage`].
#[verifier::ext_equal]
pub struct LegacyKeyView {
    /// The room the key is for.
    pub room_id: Seq<char>,
    /// The participation the key belongs to.
    pub member_id: Seq<char>,
    /// The key's index.
    pub key_index: u8,
    /// The key, in base64.
    pub key_b64: Seq<char>,
}

impl View for LegacyKeyMessage {
    type V = LegacyKeyView;

    open spec fn view(&self) -> LegacyKeyView {
        LegacyKeyView {
            room_id: self.room_id@,
            member_id: self.member_id@,
            key_index: self.key_index,
            key_b64: self.key_b64@,
        }
    }
}

/// A user and a device, as one id.
pub open spec fn identity_of(user_id: Seq<char>, device_id: Seq<char>) -> Seq<char> {
    user_id + ":"@ + device_id
}

/// The device a key message says it was sent from.
pub open spec fn claimed_key_device(content: JsonView) -> Option<Seq<char>> {
    content.nonempty_text_at("device_id"@)
}

/// The participation a key message is for: the member it names, or else the user
/// and device it came from.
pub open spec fn key_member(sender: Seq<char>, content: JsonView) -> Option<Seq<char>> {
    let named = match content.get("member"@) {
        Some(member) => member.nonempty_text_at("id"@),
        None => None,
    };
    match named {
        Some(id) => Some(id),
        None => match claimed_key_device(content) {
            Some(device) => Some(identity_of(sender, device)),
            None => None,
        },
    }
}

/// The index under `keys.index`, where it fits a byte.
pub open spec fn key_index_of(content: JsonView) -> Option<u8> {
    match content.get("keys"@) {
        Some(keys) => match keys.number_at("index"@) {
            Some(index) => if index <= 255 {
                Some(index as u8)
            } else {
                None
            },
            None => None,
        },
        None => None,
    }
}

/// The key under `keys.key`.
pub open spec fn key_text_of(content: JsonView) -> Option<Seq<char>> {
    match content.get("keys"@) {
        Some(keys) => keys.nonempty_text_at("key"@),
        None => None,
    }
}

/// What a legacy key message says, where it says everything a key needs.
pub open spec fn key_message(sender: Seq<char>, content: JsonView) -> Option<LegacyKeyView> {
    match (
        content.nonempty_text_at("room_id"@),
        key_member(sender, content),
        key_index_of(content),
        key_text_of(content),
    ) {
        (Some(room_id), Some(member_id), Some(key_index), Some(key_b64)) => Some(
            LegacyKeyView { room_id, member_id, key_index, key_b64 },
        ),
        _ => None,
    }
}

/// The device a key message says it was sent from.
pub fn claimed_key_device_id(content: &Json) -> (device: Option<String>)
    ensures
        text_of(device) == claimed_key_device(content@),
{
    match content.nonempty_text_at("device_id") {
        Some(device) => Some(device.to_owned()),
        None => None,
    }
}

fn member_named(sender: &str, content: &Json) -> (member_id: Option<String>)
    ensures
        text_of(member_id) == key_member(sender@, content@),
{
    match content.get("member") {
        Some(member) => match member.nonempty_text_at("id") {
            Some(id) => {
                return Some(id.to_owned());
            },
            None => {},
        },
        None => {},
    }
    match content.nonempty_text_at("device_id") {
        Some(device) => Some(joined_with(sender, ":", device)),
        None => None,
    }
}

/// Reads a legacy key message; `None` where it lacks something a key needs.
pub fn parse_key_message(sender: &str, content: &Json) -> (message: Option<LegacyKeyMessage>)
    ensures
        match message {
            Some(message) => key_message(sender@, content@) == Some(message@),
            None => key_message(sender@, content@) is None,
        },
{
    let room_id: String = match content.nonempty_text_at("room_id") {
        Some(room_id) => room_id.to_owned(),
        None => {
            return None;
        },
    };
    let member_id: String = match member_named(sender, content) {
        Some(member_id) => member_id,
        None => {
            return None;
        },
    };
    let keys: &Json = match content.get("keys") {
        Some(keys) => keys,
        None => {
            return None;
        },
    };
    let key_index: u8 = match keys.number_at("index") {
        Some(index) => if index <= 255 {
            index as u8
        } else {
            return None;
        },
        None => {
            return None;
        },
    };
    match keys.nonempty_text_at("key") {
        Some(key) => Some(
            LegacyKeyMessage { room_id, member_id, key_index, key_b64: key.to_owned() },
        ),
        None => None,
    }
}

/// Renders our own events in this dialect.
#[derive(Debug)]
pub struct ElementCallDialect {
    own_user_id: String,
    own_device_id: String,
    slot_id: String,
}

impl Clone for ElementCallDialect {
    fn clone(&self) -> (copy: ElementCallDialect)
        ensures
            copy == *self,
    {
        ElementCallDialect {
            own_user_id: self.own_user_id.clone(),
            own_device_id: self.own_device_id.clone(),
            slot_id: self.slot_id.clone(),
        }
    }
}

/// The legacy leave for a content: its sticky key and nothing else.
pub open spec fn bare_leave_of(content: JsonView) -> JsonView {
    match (content.get("msc4354_sticky_key"@), content.get("sticky_key"@)) {
        (Some(key), _) => JsonView::object().with("msc4354_sticky_key"@, key),
        (None, Some(key)) => JsonView::object().with("msc4354_sticky_key"@, key),
        (None, None) => JsonView::object(),
    }
}

/// A join with the legacy members beside the current ones.
pub open spec fn with_legacy_members(
    content: JsonView,
    user_id: Seq<char>,
    device_id: Seq<char>,
) -> JsonView {
    let named = match content.get("member"@) {
        Some(member) => content.with(
            "member"@,
            member.with("user_id"@, JsonView::Text(user_id)).with(
                "device_id"@,
                JsonView::Text(device_id),
            ),
        ),
        None => content,
    };
    match content.get_in("transports"@, "published"@) {
        Some(published) => named.with("rtc_transports"@, published),
        None => named,
    }
}

/// A member content as this dialect sends it.
pub open spec fn legacy_member_content(
    content: JsonView,
    user_id: Seq<char>,
    device_id: Seq<char>,
) -> JsonView {
    if states_leave(content) {
        bare_leave_of(content)
    } else {
        with_legacy_members(content, user_id, device_id)
    }
}

/// The legacy content of a key message, where `content` is that of a current one.
pub open spec fn legacy_key_content(
    own_device_id: Seq<char>,
    slot_id: Seq<char>,
    content: JsonView,
) -> Option<JsonView> {
    match (
        content.get("room_id"@),
        content.get("member_id"@),
        content.get_in("media_key"@, "index"@),
        content.get_in("media_key"@, "key"@),
    ) {
        (Some(room_id), Some(member_id), Some(index), Some(key)) => Some(
            JsonView::object().with("room_id"@, room_id).with(
                "device_id"@,
                JsonView::Text(own_device_id),
            ).with(
                "member"@,
                JsonView::object().with("id"@, member_id).with(
                    "claimed_device_id"@,
                    JsonView::Text(own_device_id),
                ),
            ).with("keys"@, JsonView::object().with("index"@, index).with("key"@, key)).with(
                "session"@,
                JsonView::object().with(
                    "application"@,
                    JsonView::Text(session_application(slot_id)),
                ).with("call_id"@, JsonView::Text(session_call_id(slot_id))).with(
                    "scope"@,
                    JsonView::Text("m.room"@),
                ),
            ),
        ),
        _ => None,
    }
}

/// Renders a key message in the legacy type and shape; `None` where it is no key
/// message, which then goes out as it is.
pub fn rewrite_key_message(
    own_device_id: &str,
    slot_id: &str,
    message_type: &str,
    content: &Json,
) -> (rewritten: Option<(String, Json)>)
    ensures
        match rewritten {
            Some((legacy_type, legacy)) => {
                &&& message_type@ == KEY_MESSAGE_TYPE@
                &&& legacy_type@ == LEGACY_KEY_EVENT_TYPE@
                &&& legacy_key_content(own_device_id@, slot_id@, content@) == Some(legacy@)
            },
            None => message_type@ != KEY_MESSAGE_TYPE@ || legacy_key_content(
                own_device_id@,
                slot_id@,
                content@,
            ) is None,
        },
{
    if !same_text(message_type, KEY_MESSAGE_TYPE) {
        return None;
    }
    match (
        content.get("room_id"),
        content.get("member_id"),
        content.get_in("media_key", "index"),
        content.get_in("media_key", "key"),
    ) {
        (Some(room_id), Some(member_id), Some(index), Some(key)) => {
            let (application, call_id) = legacy_session(slot_id);
            let member: Json = Json::object().with("id", member_id.clone()).with(
                "claimed_device_id",
                Json::text(own_device_id),
            );
            let keys: Json = Json::object().with("index", index.clone()).with("key", key.clone());
            let session: Json = Json::object().with("application", Json::text(application)).with(
                "call_id",
                Json::text(call_id),
            ).with("scope", Json::text("m.room"));
            let legacy: Json = Json::object().with("room_id", room_id.clone()).with(
                "device_id",
                Json::text(own_device_id),
            ).with("member", member).with("keys", keys).with("session", session);
            Some((LEGACY_KEY_EVENT_TYPE.to_owned(), legacy))
        },
        (_, _, _, _) => None,
    }
}

/// Whether an event type is that of a notification, under its stable or its
/// unstable name.
pub open spec fn is_notification_type(event_type: Seq<char>) -> bool {
    event_type == "m.rtc.notification"@ || event_type == "org.matrix.msc4075.rtc.notification"@
}

/// A content with the member `name` of its `application` lifted to the top.
pub open spec fn lifted(content: JsonView, name: Seq<char>) -> JsonView {
    match content.get_in("application"@, name) {
        Some(value) => content.with(name, value),
        None => content,
    }
}

/// A notification content with the call's members at the top level, which is
/// where legacy receivers read them.
pub open spec fn flattened(content: JsonView) -> JsonView {
    lifted(
        lifted(lifted(lifted(content, "notification_type"@), "sender_ts"@), "lifetime"@),
        "m.call.intent"@,
    )
}

fn lift(content: Json, name: &str) -> (result: Json)
    ensures
        result@ == lifted(content@, name@),
{
    let value: Json = match content.get_in("application", name) {
        Some(value) => value.clone(),
        None => {
            return content;
        },
    };
    content.with(name, value)
}

/// Renders a notification in the flat legacy shape; `None` for any other event.
pub fn flatten_notification_content(event_type: &str, content: &Json) -> (flat: Option<Json>)
    ensures
        match flat {
            Some(flat) => is_notification_type(event_type@) && flat@ == flattened(content@),
            None => !is_notification_type(event_type@),
        },
{
    if !same_text(event_type, "m.rtc.notification") && !same_text(
        event_type,
        "org.matrix.msc4075.rtc.notification",
    ) {
        return None;
    }
    let flat: Json = lift(content.clone(), "notification_type");
    let flat: Json = lift(flat, "sender_ts");
    let flat: Json = lift(flat, "lifetime");
    Some(lift(flat, "m.call.intent"))
}

impl ElementCallDialect {
    /// The user whose events this renders.
    pub closed spec fn user(self) -> Seq<char> {
        self.own_user_id@
    }

    /// The device whose events this renders.
    pub closed spec fn device(self) -> Seq<char> {
        self.own_device_id@
    }

    /// The slot we are in.
    pub closed spec fn slot(self) -> Seq<char> {
        self.slot_id@
    }

    /// Builds the dialect for our own membership in `slot_id`.
    pub fn new(own_user_id: &str, own_device_id: &str, slot_id: &str) -> (dialect:
        ElementCallDialect)
        ensures
            dialect.user() == own_user_id@,
            dialect.device() == own_device_id@,
            dialect.slot() == slot_id@,
    {
        ElementCallDialect {
            own_user_id: own_user_id.to_owned(),
            own_device_id: own_device_id.to_owned(),
            slot_id: slot_id.to_owned(),
        }
    }

    /// Whether an event is a membership.
    pub fn is_member_event(event_type: &str) -> (yes: bool)
        ensures
            yes == is_member_type(event_type@),
    {
        is_member_event_type(event_type)
    }

    /// Renders a member content in this dialect. A join keeps everything it said
    /// and gains the legacy members; a leave becomes its bare sticky key.
    pub fn rewrite_member_content(&self, content: &mut Json)
        ensures
            final(content)@ == legacy_member_content(old(content)@, self.user(), self.device()),
    {
        let mut taken: Json = Json::Null;
        std::mem::swap(&mut taken, content);
        if is_leave(&taken) {
            *content = match (taken.get("msc4354_sticky_key"), taken.get("sticky_key")) {
                (Some(key), _) => Json::object().with("msc4354_sticky_key", key.clone()),
                (None, Some(key)) => Json::object().with("msc4354_sticky_key", key.clone()),
                (None, None) => Json::object(),
            };
            return;
        }
        let published: Option<Json> = match taken.get_in("transports", "published") {
            Some(published) => Some(published.clone()),
            None => None,
        };
        let member: Option<Json> = match taken.get("member") {
            Some(member) => Some(
                member.clone().with("user_id", Json::text(self.own_user_id.as_str())).with(
                    "device_id",
                    Json::text(self.own_device_id.as_str()),
                ),
            ),
            None => None,
        };
        let named: Json = match member {
            Some(member) => taken.with("member", member),
            None => taken,
        };
        *content = match published {
            Some(published) => named.with("rtc_transports", published),
            None => named,
        };
    }

    /// Renders a key message in the legacy type and shape; `None` where it is no
    /// key message.
    pub fn rewrite_key_message(&self, message_type: &str, content: &Json) -> (rewritten: Option<
        (String, Json),
    >)
        ensures
            match rewritten {
                Some((legacy_type, legacy)) => {
                    &&& message_type@ == KEY_MESSAGE_TYPE@
                    &&& legacy_type@ == LEGACY_KEY_EVENT_TYPE@
                    &&& legacy_key_content(self.device(), self.slot(), content@) == Some(legacy@)
                },
                None => message_type@ != KEY_MESSAGE_TYPE@ || legacy_key_content(
                    self.device(),
                    self.slot(),
                    content@,
                ) is None,
            },
    {
        rewrite_key_message(
            self.own_device_id.as_str(),
            self.slot_id.as_str(),
            message_type,
            content,
        )
    }
}

proof fn lemma_names()
    ensures
        "member"@ != "rtc_transports"@,
        "member"@ != "transports"@,
        "member"@ != "slot_id"@,
        "member"@ != "msc4354_sticky_key"@,
        "member"@ != "sticky_key"@,
        "member"@ != "application"@,
        "member"@ != "leave_reason"@,
        "member"@ != "created_ts"@,
        "rtc_transports"@ != "transports"@,
        "rtc_transports"@ != "slot_id"@,
        "rtc_transports"@ != "msc4354_sticky_key"@,
        "rtc_transports"@ != "sticky_key"@,
        "rtc_transports"@ != "application"@,
        "rtc_transports"@ != "leave_reason"@,
        "rtc_transports"@ != "created_ts"@,
        "user_id"@ != "id"@,
        "user_id"@ != "membership"@,
        "device_id"@ != "id"@,
        "device_id"@ != "membership"@,
{
    reveal_strlit("member");
    reveal_strlit("rtc_transports");
    reveal_strlit("transports");
    reveal_strlit("slot_id");
    reveal_strlit("msc4354_sticky_key");
    reveal_strlit("sticky_key");
    reveal_strlit("application");
    reveal_strlit("leave_reason");
    reveal_strlit("created_ts");
    reveal_strlit("user_id");
    reveal_strlit("device_id");
    reveal_strlit("id");
    reveal_strlit("membership");
    assert("member"@.len() == 6 && "rtc_transports"@.len() == 14 && "transports"@.len() == 10);
    assert("slot_id"@.len() == 7 && "msc4354_sticky_key"@.len() == 18);
    assert("sticky_key"@.len() == 10 && "application"@.len() == 11 && "leave_reason"@.len() == 12);
    assert("created_ts"@.len() == 10 && "user_id"@.len() == 7 && "device_id"@.len() == 9);
    assert("id"@.len() == 2 && "membership"@.len() == 10);
}

/// A join rendered in this dialect is still read as the join it was: the legacy
/// members ride beside the current ones and disturb none of them.
pub proof fn law_rewritten_join_reads_the_same(
    content: JsonView,
    user_id: Seq<char>,
    device_id: Seq<char>,
)
    requires
        !states_leave(content),
    ensures
        read_content(legacy_member_content(content, user_id, device_id)) == read_content(content),
{
    lemma_names();
    let rewritten = legacy_member_content(content, user_id, device_id);
    assert(rewritten.get("slot_id"@) == content.get("slot_id"@));
    assert(rewritten.get("msc4354_sticky_key"@) == content.get("msc4354_sticky_key"@));
    assert(rewritten.get("sticky_key"@) == content.get("sticky_key"@));
    assert(rewritten.get("application"@) == content.get("application"@));
    assert(rewritten.get("transports"@) == content.get("transports"@));
    assert(rewritten.get("leave_reason"@) == content.get("leave_reason"@));
    assert(rewritten.get("created_ts"@) == content.get("created_ts"@));
    match content.get("member"@) {
        Some(member) => {
            let named = member.with("user_id"@, JsonView::Text(user_id)).with(
                "device_id"@,
                JsonView::Text(device_id),
            );
            assert(rewritten.get("member"@) == Some(named));
            assert(named.get("id"@) == member.get("id"@));
            assert(named.get("membership"@) == member.get("membership"@));
            assert(read_member(named) == read_member(member));
        },
        None => {
            assert(rewritten.get("member"@) is None);
        },
    }
}

/// A content that already names its membership and its transports passes through
/// normalisation as it is.
pub proof fn law_current_contents_pass_through(content: JsonView)
    requires
        content.get_in("member"@, "membership"@) is Some,
        content.get("transports"@) is Some,
    ensures
        normalized(content) == content,
        content_kind(content) is Membership,
{
    lemma_names();
    assert(content.get("member"@) is Some);
    assert(content->Object_0.contains_key("member"@));
    assert(!names_sticky_key("member"@));
}

/// The leave this dialect sends is the leave it reads: once rendered, a leave
/// that has a sticky key is a bare one.
pub proof fn law_sent_leave_is_read_as_a_leave(
    content: JsonView,
    user_id: Seq<char>,
    device_id: Seq<char>,
)
    requires
        states_leave(content),
        content.get("msc4354_sticky_key"@) is Some || content.get("sticky_key"@) is Some,
    ensures
        content_kind(legacy_member_content(content, user_id, device_id)) is BareLeave,
{
    let sent = legacy_member_content(content, user_id, device_id);
    assert(sent->Object_0.contains_key("msc4354_sticky_key"@));
    assert(!Map::<Seq<char>, JsonView>::empty().contains_key("msc4354_sticky_key"@));
}

/// A key message rendered in the legacy shape is read back as the key it carried.
pub proof fn law_sent_key_is_read_back(
    sender: Seq<char>,
    own_device_id: Seq<char>,
    slot_id: Seq<char>,
    room_id: Seq<char>,
    member_id: Seq<char>,
    key_index: u8,
    key_b64: Seq<char>,
)
    requires
        room_id.len() > 0,
        member_id.len() > 0,
        key_b64.len() > 0,
    ensures
        legacy_key_content(
            own_device_id,
            slot_id,
            key_content(room_id, member_id, key_index, key_b64),
        ) matches Some(legacy) && key_message(sender, legacy) == Some(
            LegacyKeyView { room_id, member_id, key_index, key_b64 },
        ),
{
    reveal_strlit("room_id");
    reveal_strlit("member_id");
    reveal_strlit("media_key");
    reveal_strlit("format");
    reveal_strlit("index");
    reveal_strlit("key");
    reveal_strlit("device_id");
    reveal_strlit("member");
    reveal_strlit("keys");
    reveal_strlit("session");
    reveal_strlit("id");
    reveal_strlit("claimed_device_id");
    assert("room_id"@.len() == 7 && "member_id"@.len() == 9 && "media_key"@.len() == 9);
    assert("format"@.len() == 6 && "index"@.len() == 5 && "key"@.len() == 3);
    assert("device_id"@.len() == 9 && "member"@.len() == 6 && "keys"@.len() == 4);
    assert("session"@.len() == 7 && "id"@.len() == 2 && "claimed_device_id"@.len() == 17);
    assert("member_id"@[2] == 'm' && "media_key"@[2] == 'd');
    assert("room_id"@[0] == 'r' && "session"@[0] == 's');
    let content = key_content(room_id, member_id, key_index, key_b64);
    assert(content.get("room_id"@) == Some(JsonView::Text(room_id)));
    assert(content.get("member_id"@) == Some(JsonView::Text(member_id)));
    assert(content.get_in("media_key"@, "index"@) == Some(JsonView::number(key_index as u64)));
    assert(content.get_in("media_key"@, "key"@) == Some(JsonView::Text(key_b64)));
    let legacy = legacy_key_content(own_device_id, slot_id, content)->0;
    assert(legacy.nonempty_text_at("room_id"@) == Some(room_id));
    assert(key_member(sender, legacy) == Some(member_id));
    assert(key_index_of(legacy) == Some(key_index));
    assert(key_text_of(legacy) == Some(key_b64));
}

} // verus!
