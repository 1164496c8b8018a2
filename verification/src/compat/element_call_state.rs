//! The Element Call dialect from before sticky events: a membership is an
//! `org.matrix.msc3401.call.member` state event.
//!
//! Two things are settled here because nothing further on could settle them. A
//! membership states its own deadline, so an expired one is dropped. And a member
//! that selects the oldest membership's focus publishes where that one does,
//! which only the room's whole membership shows, so every translated membership
//! names the one transport it publishes on.

use vstd::prelude::*;
use vstd::string::StringExecFns;
use crate::clock::now_ms;
use crate::compat::element_call::{
    identity_of, is_leave, legacy_session, session_application, session_call_id, states_leave,
    ROOM_CALL_ID,
};
use crate::json::{models, Json, JsonView};
use crate::text::{
    comes_before, joined_with, lemma_precedes_irreflexive, lemma_precedes_total,
    lemma_precedes_transitive, precedes, same_text, text_of,
};

verus! {

/// The type of the state event that carries a membership.
pub const STATE_MEMBER_EVENT_TYPE: &'static str = "org.matrix.msc3401.call.member";

/// The lifetime of a membership that states none (4 hours).
pub const DEFAULT_EXPIRES_MS: u64 = 14_400_000;

/// The call intent to publish where none is known.
pub const DEFAULT_CALL_INTENT: &'static str = "video";

/// The id a participant goes by in this dialect, at the SFU and as a member:
/// `user:device`.
pub fn participant_identity(user_id: &str, device_id: &str) -> (identity: String)
    ensures
        identity@ == identity_of(user_id@, device_id@),
{
    joined_with(user_id, ":", device_id)
}

/// One membership state event: its content, and what the translation needs that
/// the content does not carry.
#[derive(Debug)]
pub struct StateMemberEvent {
    /// The event's id, when known.
    pub event_id: Option<String>,
    /// The user that sent it, as the homeserver vouches.
    pub sender: String,
    /// The event's state key; it breaks ties and is not read otherwise.
    pub state_key: String,
    /// When the sender's homeserver received the event.
    pub origin_server_ts: u64,
    /// The event's content.
    pub content: Json,
}

/// A membership rendered in the current member format.
#[derive(Debug, PartialEq)]
pub struct StateMembership {
    /// The state event's id.
    pub event_id: Option<String>,
    /// The state event's sender.
    pub sender: String,
    /// The device the content names, which nothing vouches for.
    pub claimed_device_id: String,
    /// The member content.
    pub content: Json,
}

/// Model of a [`StateMemberEvent`].
#[verifier::ext_equal]
pub struct StateEventView {
    /// The event's id, when known.
    pub event_id: Option<Seq<char>>,
    /// The user that sent it.
    pub sender: Seq<char>,
    /// The event's state key.
    pub state_key: Seq<char>,
    /// When the sender's homeserver received the event.
    pub origin_server_ts: u64,
    /// The event's content.
    pub content: JsonView,
}

impl View for StateMemberEvent {
    type V = StateEventView;

    open spec fn view(&self) -> StateEventView {
        StateEventView {
            event_id: text_of(self.event_id),
            sender: self.sender@,
            state_key: self.state_key@,
            origin_server_ts: self.origin_server_ts,
            content: self.content@,
        }
    }
}

/// Model of a [`StateMembership`].
#[verifier::ext_equal]
pub struct StateMembershipView {
    /// The state event's id.
    pub event_id: Option<Seq<char>>,
    /// The state event's sender.
    pub sender: Seq<char>,
    /// The device the content names.
    pub claimed_device_id: Seq<char>,
    /// The member content.
    pub content: JsonView,
}

impl View for StateMembership {
    type V = StateMembershipView;

    open spec fn view(&self) -> StateMembershipView {
        StateMembershipView {
            event_id: text_of(self.event_id),
            sender: self.sender@,
            claimed_device_id: self.claimed_device_id@,
            content: self.content@,
        }
    }
}

/// The models of a list of state events.
pub open spec fn state_events(events: Seq<StateMemberEvent>) -> Seq<StateEventView> {
    events.map_values(|event: StateMemberEvent| event@)
}

/// The models of a list of translated memberships.
pub open spec fn state_memberships(memberships: Seq<StateMembership>) -> Seq<StateMembershipView> {
    memberships.map_values(|membership: StateMembership| membership@)
}

/// A live membership, before its focus is resolved.
#[verifier::ext_equal]
pub struct LiveView {
    /// The state event.
    pub event: StateEventView,
    /// The device it names.
    pub device_id: Seq<char>,
    /// The member id.
    pub member_id: Seq<char>,
    /// The slot it is in.
    pub slot_id: Seq<char>,
    /// Its application's type.
    pub application: Seq<char>,
    /// When it joined.
    pub joined_at: u64,
    /// The call intent, where stated.
    pub intent: Option<JsonView>,
    /// The first focus it prefers, where it prefers one.
    pub own_focus: Option<JsonView>,
    /// Whether it publishes on its own focus rather than the oldest member's.
    pub prefers_own_focus: bool,
}

/// When a membership began: the time it states, but no later than its event.
///
/// A membership that is sent again to extend it keeps the time it states, and a
/// first join states none, so this does not move for the life of a join.
pub open spec fn joined_at(event: StateEventView) -> u64 {
    match event.content.number_at("created_ts"@) {
        Some(created) => if created < event.origin_server_ts {
            created
        } else {
            event.origin_server_ts
        },
        None => event.origin_server_ts,
    }
}

/// How long a membership lasts from when it began.
pub open spec fn lifetime_of(event: StateEventView) -> u64 {
    match event.content.number_at("expires"@) {
        Some(expires) => expires,
        None => DEFAULT_EXPIRES_MS,
    }
}

/// Whether a membership's deadline has passed. A deadline beyond what the clock
/// can show counts as the last instant it can.
pub open spec fn is_expired(event: StateEventView, now: u64) -> bool {
    let deadline = joined_at(event) + lifetime_of(event);
    deadline <= now || now == u64::MAX
}

/// The slot a membership is in.
pub open spec fn slot_of(application: Seq<char>, content: JsonView) -> Seq<char> {
    application + "#"@ + (match content.nonempty_text_at("call_id"@) {
        Some(call_id) => call_id,
        None => ROOM_CALL_ID@,
    })
}

/// The member id a membership states, or else its user and device.
pub open spec fn member_of(event: StateEventView, device_id: Seq<char>) -> Seq<char> {
    match event.content.nonempty_text_at("membershipID"@) {
        Some(member_id) => member_id,
        None => identity_of(event.sender, device_id),
    }
}

/// The first focus a membership prefers.
pub open spec fn preferred_focus(content: JsonView) -> Option<JsonView> {
    match content.get("foci_preferred"@) {
        Some(JsonView::Array(foci)) => if foci.len() > 0 {
            Some(foci[0])
        } else {
            None
        },
        _ => None,
    }
}

/// The membership that an event stands for at `now`. There is none in a content
/// that is no object, is empty (a leave), holds a `memberships` array, names no
/// application or no device, or is past its deadline.
pub open spec fn live(event: StateEventView, now: u64) -> Option<LiveView> {
    let content = event.content;
    if content !is Object || content == JsonView::object() || content.get("memberships"@) is Some
        || is_expired(event, now) {
        None
    } else {
        match (
            content.nonempty_text_at("application"@),
            content.nonempty_text_at("device_id"@),
        ) {
            (Some(application), Some(device_id)) => Some(
                LiveView {
                    event,
                    device_id,
                    member_id: member_of(event, device_id),
                    slot_id: slot_of(application, content),
                    application,
                    joined_at: joined_at(event),
                    intent: content.get("m.call.intent"@),
                    own_focus: preferred_focus(content),
                    prefers_own_focus: content.get_in("focus_active"@, "focus_selection"@) == Some(
                        JsonView::Text("multi_sfu"@),
                    ),
                },
            ),
            _ => None,
        }
    }
}

/// The live memberships among events, in order.
pub open spec fn live_members(events: Seq<StateEventView>, now: u64) -> Seq<LiveView> {
    events.filter_map(|event: StateEventView| live(event, now))
}

/// Whether `a` is the older of two memberships: it began earlier, or at the same
/// time under a state key that comes first.
pub open spec fn is_older(a: LiveView, b: LiveView) -> bool {
    a.joined_at < b.joined_at || (a.joined_at == b.joined_at && precedes(
        a.event.state_key,
        b.event.state_key,
    ))
}

/// Whether `all[i]` is the oldest membership of a slot, the first of them if
/// there are several.
pub open spec fn is_oldest(all: Seq<LiveView>, slot_id: Seq<char>, i: int) -> bool {
    &&& 0 <= i < all.len()
    &&& all[i].slot_id == slot_id
    &&& forall|j: int|
        0 <= j < i && (#[trigger] all[j]).slot_id == slot_id ==> is_older(all[i], all[j])
    &&& forall|j: int|
        i < j < all.len() && (#[trigger] all[j]).slot_id == slot_id ==> !is_older(all[j], all[i])
}

/// The focus the oldest membership of a slot prefers.
pub open spec fn oldest_focus(all: Seq<LiveView>, slot_id: Seq<char>) -> Option<JsonView> {
    if exists|i: int| is_oldest(all, slot_id, i) {
        all[choose|i: int| is_oldest(all, slot_id, i)].own_focus
    } else {
        None
    }
}

/// The focus a member publishes on: its own where it selects that and has one,
/// and otherwise the oldest member's, falling back to its own.
pub open spec fn focus_of(member: LiveView, all: Seq<LiveView>) -> Option<JsonView> {
    if member.prefers_own_focus && member.own_focus is Some {
        member.own_focus
    } else {
        match oldest_focus(all, member.slot_id) {
            Some(focus) => Some(focus),
            None => member.own_focus,
        }
    }
}

/// The `application` object of a translated membership.
pub open spec fn translated_application(member: LiveView) -> JsonView {
    let named = JsonView::object().with("type"@, JsonView::Text(member.application));
    match member.intent {
        Some(intent) => named.with("m.call.intent"@, intent),
        None => named,
    }
}

/// The `transports` object for a focus, which is published as it is.
pub open spec fn translated_transports(focus: JsonView) -> JsonView {
    JsonView::object().with("published"@, JsonView::Array(seq![focus])).with(
        "can_subscribe"@,
        JsonView::Array(
            match focus.text_at("type"@) {
                Some(text) => seq![JsonView::Text(text)],
                None => Seq::empty(),
            },
        ),
    )
}

/// The member content of a membership that publishes on `focus`.
pub open spec fn translated_content(member: LiveView, focus: Option<JsonView>) -> JsonView {
    let content = JsonView::object().with("slot_id"@, JsonView::Text(member.slot_id)).with(
        "msc4354_sticky_key"@,
        JsonView::Text(member.member_id),
    ).with(
        "member"@,
        JsonView::object().with("id"@, JsonView::Text(member.member_id)).with(
            "membership"@,
            JsonView::Text("join"@),
        ),
    ).with("application"@, translated_application(member)).with(
        "created_ts"@,
        JsonView::number(member.joined_at),
    );
    match focus {
        Some(focus) => content.with("transports"@, translated_transports(focus)),
        None => content,
    }
}

/// A live membership in the current member format.
pub open spec fn translated(member: LiveView, all: Seq<LiveView>) -> StateMembershipView {
    StateMembershipView {
        event_id: member.event.event_id,
        sender: member.event.sender,
        claimed_device_id: member.device_id,
        content: translated_content(member, focus_of(member, all)),
    }
}

/// The memberships of a room at `now`, in the order of its events.
pub open spec fn translation(events: Seq<StateEventView>, now: u64) -> Seq<StateMembershipView> {
    let all = live_members(events, now);
    all.map_values(|member: LiveView| translated(member, all))
}

/// A live membership, while the room's are translated.
struct LiveMember<'a> {
    event: &'a StateMemberEvent,
    device_id: &'a str,
    member_id: String,
    slot_id: String,
    application: &'a str,
    joined_at: u64,
    intent: Option<&'a Json>,
    own_focus: Option<&'a Json>,
    prefers_own_focus: bool,
}

spec fn seen(value: Option<&Json>) -> Option<JsonView> {
    match value {
        Some(value) => Some(value@),
        None => None,
    }
}

impl<'a> LiveMember<'a> {
    spec fn model(self) -> LiveView {
        LiveView {
            event: self.event@,
            device_id: self.device_id@,
            member_id: self.member_id@,
            slot_id: self.slot_id@,
            application: self.application@,
            joined_at: self.joined_at,
            intent: seen(self.intent),
            own_focus: seen(self.own_focus),
            prefers_own_focus: self.prefers_own_focus,
        }
    }
}

spec fn live_models(members: Seq<LiveMember>) -> Seq<LiveView> {
    members.map_values(|member: LiveMember| member.model())
}

fn began_at(event: &StateMemberEvent) -> (time: u64)
    ensures
        time == joined_at(event@),
{
    match event.content.number_at("created_ts") {
        Some(created) => if created < event.origin_server_ts {
            created
        } else {
            event.origin_server_ts
        },
        None => event.origin_server_ts,
    }
}

fn expired(event: &StateMemberEvent, now: u64) -> (yes: bool)
    ensures
        yes == is_expired(event@, now),
{
    let lifetime: u64 = match event.content.number_at("expires") {
        Some(expires) => expires,
        None => DEFAULT_EXPIRES_MS,
    };
    began_at(event).saturating_add(lifetime) <= now
}

fn first_focus(content: &Json) -> (focus: Option<&Json>)
    ensures
        seen(focus) == preferred_focus(content@),
{
    match content.get("foci_preferred") {
        Some(listed) => match listed.items() {
            Some(foci) => if foci.len() > 0 {
                Some(&foci[0])
            } else {
                None
            },
            None => None,
        },
        None => None,
    }
}

/// Applies the rules that concern one event alone.
fn parse(event: &StateMemberEvent, now: u64) -> (member: Option<LiveMember<'_>>)
    ensures
        match member {
            Some(member) => live(event@, now) == Some(member.model()),
            None => live(event@, now) is None,
        },
{
    let content: &Json = &event.content;
    if !content.is_object() || content.is_empty_object() {
        return None;
    }
    if content.get("memberships").is_some() {
        return None;
    }
    let application: &str = match content.nonempty_text_at("application") {
        Some(application) => application,
        None => {
            return None;
        },
    };
    let device_id: &str = match content.nonempty_text_at("device_id") {
        Some(device_id) => device_id,
        None => {
            return None;
        },
    };
    if expired(event, now) {
        return None;
    }
    let call_id: &str = match content.nonempty_text_at("call_id") {
        Some(call_id) => call_id,
        None => ROOM_CALL_ID,
    };
    let slot_id: String = joined_with(application, "#", call_id);
    let member_id: String = match content.nonempty_text_at("membershipID") {
        Some(member_id) => member_id.to_owned(),
        None => participant_identity(event.sender.as_str(), device_id),
    };
    let prefers_own_focus: bool = match content.get_in("focus_active", "focus_selection") {
        Some(Json::Text(selection)) => same_text(selection.as_str(), "multi_sfu"),
        _ => false,
    };
    Some(
        LiveMember {
            event,
            device_id,
            member_id,
            slot_id,
            application,
            joined_at: began_at(event),
            intent: content.get("m.call.intent"),
            own_focus: first_focus(content),
            prefers_own_focus,
        },
    )
}

fn older(a: &LiveMember<'_>, b: &LiveMember<'_>) -> (yes: bool)
    ensures
        yes == is_older(a.model(), b.model()),
{
    a.joined_at < b.joined_at || (a.joined_at == b.joined_at && comes_before(
        a.event.state_key.as_str(),
        b.event.state_key.as_str(),
    ))
}

/// Being older is transitive, also where the second step only says "not younger".
proof fn lemma_older_transitive(a: LiveView, b: LiveView, c: LiveView)
    requires
        is_older(a, b),
        !is_older(c, b),
    ensures
        is_older(a, c),
{
    let (x, y, z) = (a.event.state_key, b.event.state_key, c.event.state_key);
    lemma_precedes_total(y, z);
    if a.joined_at == b.joined_at && b.joined_at == c.joined_at {
        if precedes(y, z) {
            lemma_precedes_transitive(x, y, z);
        }
    }
}

/// Of two memberships at most one is the older.
proof fn lemma_older_one_way(a: LiveView, b: LiveView)
    requires
        is_older(a, b),
    ensures
        !is_older(b, a),
{
    if is_older(b, a) {
        lemma_precedes_transitive(a.event.state_key, b.event.state_key, a.event.state_key);
        lemma_precedes_irreflexive(a.event.state_key);
    }
}

/// Of two memberships with different state keys one is the older.
pub proof fn lemma_older_settles(a: LiveView, b: LiveView)
    requires
        a.event.state_key != b.event.state_key,
    ensures
        is_older(a, b) == !is_older(b, a),
{
    lemma_precedes_total(a.event.state_key, b.event.state_key);
    if is_older(a, b) {
        lemma_older_one_way(a, b);
    }
}

/// A slot has at most one oldest membership.
pub proof fn lemma_oldest_unique(all: Seq<LiveView>, slot_id: Seq<char>, i: int, k: int)
    requires
        is_oldest(all, slot_id, i),
        is_oldest(all, slot_id, k),
    ensures
        i == k,
{
    if i < k {
        assert(is_older(all[k], all[i]));
    }
    if k < i {
        assert(is_older(all[i], all[k]));
    }
}

/// A slot with a membership has an oldest one.
pub proof fn lemma_oldest_exists(all: Seq<LiveView>, slot_id: Seq<char>, at: int) -> (i: int)
    requires
        0 <= at < all.len(),
        all[at].slot_id == slot_id,
    ensures
        is_oldest(all, slot_id, i),
    decreases all.len(),
{
    let held = all.drop_last();
    let last: int = all.len() - 1;
    assert forall|j: int| 0 <= j < last implies #[trigger] all[j] == held[j] by {}
    if forall|j: int| 0 <= j < last ==> (#[trigger] all[j]).slot_id != slot_id {
        last
    } else {
        let earlier = choose|j: int| 0 <= j < last && (#[trigger] all[j]).slot_id == slot_id;
        let best = lemma_oldest_exists(held, slot_id, earlier);
        if all[last].slot_id == slot_id && is_older(all[last], all[best]) {
            assert forall|j: int| 0 <= j < last && (#[trigger] all[j]).slot_id
                == slot_id implies is_older(all[last], all[j]) by {
                if j < best {
                    assert(is_older(held[best], held[j]));
                    lemma_older_one_way(held[best], held[j]);
                    lemma_older_transitive(all[last], held[best], held[j]);
                } else if j > best {
                    assert(!is_older(held[j], held[best]));
                    lemma_older_transitive(all[last], held[best], held[j]);
                }
            }
            last
        } else {
            best
        }
    }
}

/// Finds the focus that the oldest membership of a slot prefers.
fn find_oldest_focus<'a>(all: &Vec<LiveMember<'a>>, slot_id: &String) -> (focus: Option<&'a Json>)
    ensures
        seen(focus) == oldest_focus(live_models(all@), slot_id@),
{
    let ghost views = live_models(all@);
    let mut best: Option<usize> = None;
    let mut i: usize = 0;
    while i < all.len()
        invariant
            i <= all@.len(),
            views == live_models(all@),
            match best {
                Some(b) => b < i && is_oldest(views.take(i as int), slot_id@, b as int),
                None => forall|j: int| 0 <= j < i ==> (#[trigger] views[j]).slot_id != slot_id@,
            },
        decreases all@.len() - i,
    {
        let ghost next = views.take(i + 1);
        if all[i].slot_id == *slot_id {
            match best {
                None => {
                    best = Some(i);
                    assert(is_oldest(next, slot_id@, i as int));
                },
                Some(b) => {
                    let ghost held = views.take(i as int);
                    if older(&all[i], &all[b]) {
                        proof {
                            assert forall|j: int|
                                0 <= j < i && (#[trigger] next[j]).slot_id == slot_id@ implies
                                is_older(next[i as int], next[j]) by {
                                assert(held[j] == next[j]);
                                if j < b {
                                    assert(is_older(held[b as int], held[j]));
                                    lemma_older_one_way(held[b as int], held[j]);
                                    lemma_older_transitive(
                                        next[i as int],
                                        held[b as int],
                                        held[j],
                                    );
                                } else if j > b {
                                    assert(!is_older(held[j], held[b as int]));
                                    lemma_older_transitive(
                                        next[i as int],
                                        held[b as int],
                                        held[j],
                                    );
                                }
                            }
                        }
                        best = Some(i);
                        assert(is_oldest(next, slot_id@, i as int));
                    } else {
                        proof {
                            assert forall|j: int| 0 <= j < i implies #[trigger] next[j]
                                == held[j] by {}
                            assert(is_oldest(next, slot_id@, b as int));
                        }
                    }
                },
            }
        } else {
            match best {
                Some(b) => {
                    proof {
                        let held = views.take(i as int);
                        assert forall|j: int| 0 <= j < i implies #[trigger] next[j] == held[j] by {}
                        assert(is_oldest(next, slot_id@, b as int));
                    }
                },
                None => {},
            }
        }
        i = i + 1;
    }
    assert(views.take(views.len() as int) =~= views);
    match best {
        Some(b) => {
            proof {
                lemma_oldest_unique(
                    views,
                    slot_id@,
                    b as int,
                    choose|k: int| is_oldest(views, slot_id@, k),
                );
            }
            all[b].own_focus
        },
        None => {
            assert(forall|k: int| !is_oldest(views, slot_id@, k));
            None
        },
    }
}

/// Finds the focus a member publishes on.
fn resolve_focus<'a>(member: &LiveMember<'a>, all: &Vec<LiveMember<'a>>) -> (focus: Option<
    &'a Json,
>)
    ensures
        seen(focus) == focus_of(member.model(), live_models(all@)),
{
    if member.prefers_own_focus && member.own_focus.is_some() {
        return member.own_focus;
    }
    match find_oldest_focus(all, &member.slot_id) {
        Some(focus) => Some(focus),
        None => member.own_focus,
    }
}

fn transports_for(focus: &Json) -> (transports: Json)
    ensures
        transports@ == translated_transports(focus@),
{
    let mut published: Vec<Json> = Vec::new();
    published.push(focus.clone());
    assert(models(published@) =~= seq![focus@]);
    let mut can_subscribe: Vec<Json> = Vec::new();
    match focus.text_at("type") {
        Some(text) => {
            can_subscribe.push(Json::text(text));
            assert(models(can_subscribe@) =~= seq![JsonView::Text(text@)]);
        },
        None => {
            assert(models(can_subscribe@) =~= Seq::empty());
        },
    }
    Json::object().with("published", Json::array(published)).with(
        "can_subscribe",
        Json::array(can_subscribe),
    )
}

fn translate(member: &LiveMember<'_>, all: &Vec<LiveMember<'_>>) -> (membership: StateMembership)
    ensures
        membership@ == translated(member.model(), live_models(all@)),
{
    let named: Json = Json::object().with("type", Json::text(member.application));
    let application: Json = match member.intent {
        Some(intent) => named.with("m.call.intent", intent.clone()),
        None => named,
    };
    let stated: Json = Json::object().with("id", Json::text(member.member_id.as_str())).with(
        "membership",
        Json::text("join"),
    );
    let content: Json = Json::object().with("slot_id", Json::text(member.slot_id.as_str())).with(
        "msc4354_sticky_key",
        Json::text(member.member_id.as_str()),
    ).with("member", stated).with("application", application).with(
        "created_ts",
        Json::number(member.joined_at),
    );
    let content: Json = match resolve_focus(member, all) {
        Some(focus) => content.with("transports", transports_for(focus)),
        None => content,
    };
    let event_id: Option<String> = match &member.event.event_id {
        Some(event_id) => Some(event_id.clone()),
        None => None,
    };
    StateMembership {
        event_id,
        sender: member.event.sender.clone(),
        claimed_device_id: member.device_id.to_owned(),
        content,
    }
}

/// Translates a room's whole membership state into the current member format,
/// dropping every event that is not a live membership at `now_ms`.
///
/// It takes the whole state because two of its rules are not about one event: the
/// oldest membership is one of a slot, and expiry is judged by one reading of the
/// clock.
pub fn translate_state_memberships(events: &Vec<StateMemberEvent>, now_ms: u64) -> (memberships:
    Vec<StateMembership>)
    ensures
        state_memberships(memberships@) == translation(state_events(events@), now_ms),
{
    let mut parsed: Vec<LiveMember<'_>> = Vec::new();
    let ghost whole = state_events(events@);
    let ghost choose_live = |event: StateEventView| live(event, now_ms);
    proof {
        reveal(Seq::filter_map);
    }
    assert(live_models(parsed@) =~= whole.take(0).filter_map(choose_live));
    let mut i: usize = 0;
    while i < events.len()
        invariant
            i <= events@.len(),
            whole == state_events(events@),
            choose_live == (|event: StateEventView| live(event, now_ms)),
            live_models(parsed@) == whole.take(i as int).filter_map(choose_live),
        decreases events@.len() - i,
    {
        proof {
            whole.lemma_filter_map_take_succ(choose_live, i as int);
        }
        let ghost before = parsed@;
        match parse(&events[i], now_ms) {
            Some(member) => {
                parsed.push(member);
                assert(live_models(parsed@) =~= live_models(before).push(parsed@.last().model()));
            },
            None => {},
        }
        assert(live_models(parsed@) =~= whole.take(i + 1).filter_map(choose_live));
        i = i + 1;
    }
    assert(whole.take(whole.len() as int) =~= whole);
    let ghost all = live_members(whole, now_ms);
    let mut memberships: Vec<StateMembership> = Vec::new();
    let mut k: usize = 0;
    while k < parsed.len()
        invariant
            k <= parsed@.len(),
            all == live_models(parsed@),
            memberships@.len() == k,
            forall|j: int|
                0 <= j < k ==> (#[trigger] memberships@[j])@ == translated(all[j], all),
        decreases parsed@.len() - k,
    {
        memberships.push(translate(&parsed[k], &parsed));
        k = k + 1;
    }
    assert(state_memberships(memberships@) =~= translation(whole, now_ms));
    memberships
}

/// Renders our own membership as a state event.
///
/// Unlike the sticky dialect this adds nothing to a current event: the membership
/// is another event altogether.
///
/// When the membership began is not kept here but handed to every rendering, so
/// that all copies of a dialect that share it state one beginning.
#[derive(Debug)]
pub struct ElementCallStateDialect {
    own_user_id: String,
    own_device_id: String,
    room_id: String,
    slot_id: String,
}

impl Clone for ElementCallStateDialect {
    fn clone(&self) -> (copy: ElementCallStateDialect)
        ensures
            copy == *self,
    {
        ElementCallStateDialect {
            own_user_id: self.own_user_id.clone(),
            own_device_id: self.own_device_id.clone(),
            room_id: self.room_id.clone(),
            slot_id: self.slot_id.clone(),
        }
    }
}

/// The transports a content publishes on.
pub open spec fn published_in(content: JsonView) -> Seq<JsonView> {
    match content.get_in("transports"@, "published"@) {
        Some(JsonView::Array(published)) => published,
        _ => Seq::empty(),
    }
}

/// A transport as a focus, which has to name the room it is for.
pub open spec fn as_focus(transport: JsonView, room_id: Seq<char>) -> JsonView {
    if transport.get("livekit_alias"@) is Some {
        transport
    } else {
        transport.with("livekit_alias"@, JsonView::Text(room_id))
    }
}

/// The foci for a content's published transports. Only LiveKit ones can be foci.
pub open spec fn foci_for(content: JsonView, room_id: Seq<char>) -> Seq<JsonView> {
    published_in(content).filter_map(
        |transport: JsonView|
            if transport.text_at("type"@) == Some("livekit"@) {
                Some(as_focus(transport, room_id))
            } else {
                None
            },
    )
}

/// The call intent a content states, or the default.
pub open spec fn intent_for(content: JsonView) -> JsonView {
    match content.get_in("application"@, "m.call.intent"@) {
        Some(intent) => intent,
        None => JsonView::Text(DEFAULT_CALL_INTENT@),
    }
}

/// How long after `created` a membership ends that is to last for `lifetime` from
/// `now`, as far as the number goes.
pub open spec fn expires_after(created: u64, lifetime: Option<u64>, now: u64) -> u64 {
    let elapsed: int = if now > created {
        now - created
    } else {
        0
    };
    let wanted: u64 = match lifetime {
        Some(lifetime) => lifetime,
        None => DEFAULT_EXPIRES_MS,
    };
    if elapsed + wanted > u64::MAX {
        u64::MAX
    } else {
        (elapsed + wanted) as u64
    }
}

impl ElementCallStateDialect {
    /// The user whose membership this renders.
    pub closed spec fn user(self) -> Seq<char> {
        self.own_user_id@
    }

    /// The device whose membership this renders.
    pub closed spec fn device(self) -> Seq<char> {
        self.own_device_id@
    }

    /// The room we are in.
    pub closed spec fn room(self) -> Seq<char> {
        self.room_id@
    }

    /// The slot we are in.
    pub closed spec fn slot(self) -> Seq<char> {
        self.slot_id@
    }

    /// Whether a content is a membership this dialect can render. Anything else
    /// becomes an empty content, which is how this dialect leaves.
    pub open spec fn renders(content: JsonView) -> bool {
        !states_leave(content) && content.get("slot_id"@) is Some
    }

    /// When a membership that began at `began`, if it has, began once a content was
    /// rendered at `now`: the first membership rendered pins it, and it does not
    /// move.
    pub open spec fn began_by(began: Option<u64>, content: JsonView, now: u64) -> Option<u64> {
        if began is None && Self::renders(content) {
            Some(now)
        } else {
            began
        }
    }

    /// A membership of ours that began at `created`, rendered at `now`.
    pub open spec fn own_content(
        self,
        content: JsonView,
        created: u64,
        lifetime: Option<u64>,
        now: u64,
    ) -> JsonView {
        JsonView::object().with(
            "application"@,
            JsonView::Text(session_application(self.slot())),
        ).with("call_id"@, JsonView::Text(session_call_id(self.slot()))).with(
            "scope"@,
            JsonView::Text("m.room"@),
        ).with("device_id"@, JsonView::Text(self.device())).with(
            "membershipID"@,
            JsonView::Text(identity_of(self.user(), self.device())),
        ).with("created_ts"@, JsonView::number(created)).with(
            "expires"@,
            JsonView::number(expires_after(created, lifetime, now)),
        ).with(
            "focus_active"@,
            JsonView::object().with("type"@, JsonView::Text("livekit"@)).with(
                "focus_selection"@,
                JsonView::Text("multi_sfu"@),
            ),
        ).with("foci_preferred"@, JsonView::Array(foci_for(content, self.room()))).with(
            "m.call.intent"@,
            intent_for(content),
        )
    }

    /// A member content as this dialect sends it at `now`, for a membership that
    /// began at `began`, if it has.
    pub open spec fn rendered(
        self,
        began: Option<u64>,
        content: JsonView,
        lifetime: Option<u64>,
        now: u64,
    ) -> JsonView {
        match Self::began_by(began, content, now) {
            Some(created) => if Self::renders(content) {
                self.own_content(content, created, lifetime, now)
            } else {
                JsonView::object()
            },
            None => JsonView::object(),
        }
    }

    /// Builds the dialect for our own membership in `slot_id`.
    pub fn new(own_user_id: &str, own_device_id: &str, room_id: &str, slot_id: &str) -> (dialect:
        ElementCallStateDialect)
        ensures
            dialect.user() == own_user_id@,
            dialect.device() == own_device_id@,
            dialect.room() == room_id@,
            dialect.slot() == slot_id@,
    {
        ElementCallStateDialect {
            own_user_id: own_user_id.to_owned(),
            own_device_id: own_device_id.to_owned(),
            room_id: room_id.to_owned(),
            slot_id: slot_id.to_owned(),
        }
    }

    /// The state key our membership goes under.
    ///
    /// The leading underscore matters: homeservers refuse a state key that looks
    /// like a user id from anyone but that user.
    pub fn state_key(&self) -> (key: String)
        ensures
            key@ == "_"@ + self.user() + "_"@ + self.device() + "_"@ + session_application(
                self.slot(),
            ) + session_call_id(self.slot()),
    {
        let (application, call_id) = legacy_session(self.slot_id.as_str());
        let mut key: String = "_".to_owned();
        key.append(self.own_user_id.as_str());
        key.append("_");
        key.append(self.own_device_id.as_str());
        key.append("_");
        key.append(application);
        key.append(call_id);
        key
    }

    /// Our member id, which in this dialect is also our identity at the SFU.
    pub fn membership_id(&self) -> (id: String)
        ensures
            id@ == identity_of(self.user(), self.device()),
    {
        participant_identity(self.own_user_id.as_str(), self.own_device_id.as_str())
    }

    /// Our device.
    pub fn own_device_id(&self) -> (device: &str)
        ensures
            device@ == self.device(),
    {
        self.own_device_id.as_str()
    }

    /// The slot we are in.
    pub fn slot_id(&self) -> (slot: &str)
        ensures
            slot@ == self.slot(),
    {
        self.slot_id.as_str()
    }

    /// Renders a member content at the time the clock shows.
    ///
    /// `began` is when the membership began, shared by everyone who renders it; the
    /// first rendering settles it. `lifetime_ms` is how much longer the membership
    /// should be valid.
    pub fn member_content(
        &self,
        began: &mut Option<u64>,
        spec_content: &Json,
        lifetime_ms: Option<u64>,
    ) -> (content: Json)
        ensures
            exists|now: u64|
                content@ == #[trigger] self.rendered(*old(began), spec_content@, lifetime_ms, now)
                    && *final(began) == Self::began_by(*old(began), spec_content@, now),
    {
        let now: u64 = now_ms();
        self.member_content_at(began, spec_content, lifetime_ms, now)
    }

    /// Renders a member content at `now`.
    ///
    /// Peers measure the lifetime from when the membership began, which does not
    /// move, so it is the stated lifetime that grows: the deadline becomes `now`
    /// plus `lifetime_ms`.
    pub fn member_content_at(
        &self,
        began: &mut Option<u64>,
        spec_content: &Json,
        lifetime_ms: Option<u64>,
        now: u64,
    ) -> (content: Json)
        ensures
            *final(began) == Self::began_by(*old(began), spec_content@, now),
            content@ == self.rendered(*old(began), spec_content@, lifetime_ms, now),
    {
        if is_leave(spec_content) || spec_content.get("slot_id").is_none() {
            return Json::object();
        }
        let created: u64 = match *began {
            Some(created) => created,
            None => now,
        };
        *began = Some(created);
        let wanted: u64 = match lifetime_ms {
            Some(lifetime) => lifetime,
            None => DEFAULT_EXPIRES_MS,
        };
        let expires: u64 = now.saturating_sub(created).saturating_add(wanted);
        let (application, call_id) = legacy_session(self.slot_id.as_str());
        let membership_id: String = self.membership_id();
        let focus_active: Json = Json::object().with("type", Json::text("livekit")).with(
            "focus_selection",
            Json::text("multi_sfu"),
        );
        let intent: Json = match spec_content.get_in("application", "m.call.intent") {
            Some(intent) => intent.clone(),
            None => Json::text(DEFAULT_CALL_INTENT),
        };
        Json::object().with("application", Json::text(application)).with(
            "call_id",
            Json::text(call_id),
        ).with("scope", Json::text("m.room")).with(
            "device_id",
            Json::text(self.own_device_id.as_str()),
        ).with("membershipID", Json::text(membership_id.as_str())).with(
            "created_ts",
            Json::number(created),
        ).with("expires", Json::number(expires)).with("focus_active", focus_active).with(
            "foci_preferred",
            self.foci_preferred(spec_content),
        ).with("m.call.intent", intent)
    }

    fn foci_preferred(&self, spec_content: &Json) -> (foci: Json)
        ensures
            foci@ == JsonView::Array(foci_for(spec_content@, self.room())),
    {
        let mut foci: Vec<Json> = Vec::new();
        let ghost room_id = self.room();
        let ghost choose_focus = |transport: JsonView|
            if transport.text_at("type"@) == Some("livekit"@) {
                Some(as_focus(transport, room_id))
            } else {
                None
            };
        proof {
            reveal(Seq::filter_map);
        }
        assert(models(foci@) =~= Seq::<JsonView>::empty().filter_map(choose_focus));
        let published: &Vec<Json> = match spec_content.get_in("transports", "published") {
            Some(listed) => match listed.items() {
                Some(published) => published,
                None => {
                    return Json::array(foci);
                },
            },
            None => {
                return Json::array(foci);
            },
        };
        let ghost all = models(published@);
        assert(all.take(0) =~= Seq::empty());
        let mut i: usize = 0;
        while i < published.len()
            invariant
                i <= published@.len(),
                all == models(published@),
                room_id == self.room(),
                choose_focus == (|transport: JsonView|
                    if transport.text_at("type"@) == Some("livekit"@) {
                        Some(as_focus(transport, room_id))
                    } else {
                        None
                    }),
                models(foci@) == all.take(i as int).filter_map(choose_focus),
            decreases published@.len() - i,
        {
            proof {
                all.lemma_filter_map_take_succ(choose_focus, i as int);
            }
            let ghost before = foci@;
            let transport: &Json = &published[i];
            let is_livekit: bool = match transport.text_at("type") {
                Some(text) => same_text(text, "livekit"),
                None => false,
            };
            if is_livekit {
                let focus: Json = if transport.get("livekit_alias").is_some() {
                    transport.clone()
                } else {
                    transport.clone().with("livekit_alias", Json::text(self.room_id.as_str()))
                };
                foci.push(focus);
                assert(models(foci@) =~= models(before).push(foci@.last()@));
            }
            assert(models(foci@) =~= all.take(i + 1).filter_map(choose_focus));
            i = i + 1;
        }
        assert(all.take(all.len() as int) =~= all);
        Json::array(foci)
    }
}

} // verus!
