//! The wire form of a member event's content.
//!
//! One description governs both directions, so what is sent is what can be read
//! back. Reading tolerates members it does not know, takes `null` for an optional
//! member as its absence, and refuses a member of the wrong shape.

use vstd::prelude::*;
use crate::event::RawStickyEventContent;
use crate::json::{
    clone_members, lemma_model, members_model, models, without, Json, JsonMember, JsonNumber,
    JsonView, NumberView,
};
use crate::session::{
    ApplicationInfo, ApplicationView, LeaveCode, LeaveCodeView, LeaveReason, LeaveReasonView,
    MemberInfo, MemberView, Membership, MembershipView,
};
use crate::text::{text_of, texts};
use crate::transport::{MemberTransports, RawRtcTransport, RawTransportView, TransportsView};

verus! {

/// Model of a [`RawStickyEventContent`].
#[verifier::ext_equal]
pub struct ContentView {
    /// The slot the member is in.
    pub slot_id: Seq<char>,
    /// The key the event is filed under in the sticky map.
    pub sticky_key: Seq<char>,
    /// The `member` object.
    pub member: MemberView,
    /// The `application` object.
    pub application: ApplicationView,
    /// The `transports` object, where stated.
    pub transports: Option<TransportsView>,
    /// The `leave_reason` object, where stated.
    pub leave_reason: Option<LeaveReasonView>,
    /// When this participation began.
    pub created_ts: Option<u64>,
}

impl View for RawStickyEventContent {
    type V = ContentView;

    open spec fn view(&self) -> ContentView {
        ContentView {
            slot_id: self.slot_id@,
            sticky_key: self.sticky_key@,
            member: self.member@,
            application: self.application@,
            transports: match self.transports {
                Some(transports) => Some(transports@),
                None => None,
            },
            leave_reason: match self.leave_reason {
                Some(reason) => Some(reason@),
                None => None,
            },
            created_ts: self.created_ts,
        }
    }
}

/// `json` with `key` set to `value` where there is one.
pub open spec fn with_some(json: JsonView, key: Seq<char>, value: Option<JsonView>) -> JsonView {
    match value {
        Some(value) => json.with(key, value),
        None => json,
    }
}

/// A string, where there is one.
pub open spec fn some_text(text: Option<Seq<char>>) -> Option<JsonView> {
    match text {
        Some(text) => Some(JsonView::Text(text)),
        None => None,
    }
}

/// The `member` object.
pub open spec fn member_json(member: MemberView) -> JsonView {
    with_some(
        with_some(JsonView::object(), "id"@, some_text(member.id)),
        "membership"@,
        match member.membership {
            Some(membership) => Some(JsonView::Text(membership.wire())),
            None => None,
        },
    )
}

/// The `application` object.
pub open spec fn application_json(application: ApplicationView) -> JsonView {
    with_some(
        JsonView::Object(application.extra),
        "type"@,
        some_text(application.application_type),
    )
}

/// One transport.
pub open spec fn raw_transport_json(transport: RawTransportView) -> JsonView {
    JsonView::Object(transport.extra).with("type"@, JsonView::Text(transport.transport_type))
}

/// The `transports` object.
pub open spec fn transports_json(transports: TransportsView) -> JsonView {
    JsonView::object().with(
        "published"@,
        JsonView::Array(
            transports.published.map_values(
                |transport: RawTransportView| raw_transport_json(transport),
            ),
        ),
    ).with(
        "can_subscribe"@,
        JsonView::Array(
            transports.can_subscribe.map_values(|text: Seq<char>| JsonView::Text(text)),
        ),
    )
}

/// The `leave_reason` object.
pub open spec fn leave_reason_json(reason: LeaveReasonView) -> JsonView {
    with_some(
        JsonView::object().with("code"@, JsonView::Text(reason.code.wire())),
        "reason"@,
        some_text(reason.reason),
    )
}

/// The content as a JSON object. Members that say nothing are left out.
pub open spec fn content_json(content: ContentView) -> JsonView {
    let named = JsonView::object().with("slot_id"@, JsonView::Text(content.slot_id)).with(
        "msc4354_sticky_key"@,
        JsonView::Text(content.sticky_key),
    );
    let membered = with_some(
        named,
        "member"@,
        if content.member.says_nothing() {
            None
        } else {
            Some(member_json(content.member))
        },
    );
    let applied = with_some(
        membered,
        "application"@,
        if content.application == ApplicationView::none() {
            None
        } else {
            Some(application_json(content.application))
        },
    );
    let transported = with_some(
        applied,
        "transports"@,
        match content.transports {
            Some(transports) => Some(transports_json(transports)),
            None => None,
        },
    );
    let reasoned = with_some(
        transported,
        "leave_reason"@,
        match content.leave_reason {
            Some(reason) => Some(leave_reason_json(reason)),
            None => None,
        },
    );
    with_some(
        reasoned,
        "created_ts"@,
        match content.created_ts {
            Some(ts) => Some(JsonView::number(ts)),
            None => None,
        },
    )
}

fn put_some(json: Json, key: &str, value: Option<Json>) -> (result: Json)
    ensures
        result@ == with_some(
            json@,
            key@,
            match value {
                Some(value) => Some(value@),
                None => None,
            },
        ),
{
    match value {
        Some(value) => json.with(key, value),
        None => json,
    }
}

fn optional_text(text: &Option<String>) -> (json: Option<Json>)
    ensures
        match json {
            Some(json) => some_text(text_of(*text)) == Some(json@),
            None => some_text(text_of(*text)) is None,
        },
{
    match text {
        Some(text) => Some(Json::text(text.as_str())),
        None => None,
    }
}

fn clone_object(members: &Vec<JsonMember>) -> (object: Json)
    ensures
        object@ == JsonView::Object(members_model(members@)),
{
    let rest: Vec<JsonMember> = clone_members(members);
    let object = Json::Object(rest);
    proof {
        lemma_model(object);
    }
    object
}

impl MemberInfo {
    /// The `member` object.
    pub fn to_json(&self) -> (json: Json)
        ensures
            json@ == member_json(self@),
    {
        let json: Json = put_some(Json::object(), "id", optional_text(&self.id));
        let membership: Option<Json> = match &self.membership {
            Some(membership) => Some(Json::text(membership.as_wire())),
            None => None,
        };
        put_some(json, "membership", membership)
    }
}

impl ApplicationInfo {
    /// The `application` object.
    pub fn to_json(&self) -> (json: Json)
        ensures
            json@ == application_json(self@),
    {
        put_some(clone_object(&self.extra), "type", optional_text(&self.application_type))
    }
}

impl RawRtcTransport {
    /// One transport.
    pub fn to_json(&self) -> (json: Json)
        ensures
            json@ == raw_transport_json(self@),
    {
        clone_object(&self.extra_fields).with("type", Json::text(self.transport_type.as_str()))
    }
}

impl MemberTransports {
    /// The `transports` object.
    pub fn to_json(&self) -> (json: Json)
        ensures
            json@ == transports_json(self@),
    {
        let mut published: Vec<Json> = Vec::new();
        let mut i: usize = 0;
        while i < self.published.len()
            invariant
                i <= self.published@.len(),
                published@.len() == i,
                forall|j: int|
                    0 <= j < i ==> (#[trigger] published@[j])@ == raw_transport_json(
                        self.published@[j]@,
                    ),
            decreases self.published@.len() - i,
        {
            published.push(self.published[i].to_json());
            i = i + 1;
        }
        let mut can_subscribe: Vec<Json> = Vec::new();
        let mut k: usize = 0;
        while k < self.can_subscribe.len()
            invariant
                k <= self.can_subscribe@.len(),
                can_subscribe@.len() == k,
                forall|j: int|
                    0 <= j < k ==> (#[trigger] can_subscribe@[j])@ == JsonView::Text(
                        self.can_subscribe@[j]@,
                    ),
            decreases self.can_subscribe@.len() - k,
        {
            can_subscribe.push(Json::text(self.can_subscribe[k].as_str()));
            k = k + 1;
        }
        proof {
            assert(models(published@) =~= self@.published.map_values(
                |transport: RawTransportView| raw_transport_json(transport),
            ));
            assert(models(can_subscribe@) =~= self@.can_subscribe.map_values(
                |text: Seq<char>| JsonView::Text(text),
            ));
        }
        Json::object().with("published", Json::array(published)).with(
            "can_subscribe",
            Json::array(can_subscribe),
        )
    }
}

impl LeaveReason {
    /// The `leave_reason` object.
    pub fn to_json(&self) -> (json: Json)
        ensures
            json@ == leave_reason_json(self@),
    {
        put_some(
            Json::object().with("code", Json::text(self.code.as_wire())),
            "reason",
            optional_text(&self.reason),
        )
    }
}

impl RawStickyEventContent {
    /// The content as a JSON object. Members that say nothing are left out.
    pub fn to_json(&self) -> (json: Json)
        ensures
            json@ == content_json(self@),
    {
        let json: Json = Json::object().with("slot_id", Json::text(self.slot_id.as_str())).with(
            "msc4354_sticky_key",
            Json::text(self.sticky_key.as_str()),
        );
        let member: Option<Json> = if self.member.is_empty() {
            None
        } else {
            Some(self.member.to_json())
        };
        let json: Json = put_some(json, "member", member);
        let application: Option<Json> = if self.application.is_empty() {
            None
        } else {
            Some(self.application.to_json())
        };
        let json: Json = put_some(json, "application", application);
        let transports: Option<Json> = match &self.transports {
            Some(transports) => Some(transports.to_json()),
            None => None,
        };
        let json: Json = put_some(json, "transports", transports);
        let leave_reason: Option<Json> = match &self.leave_reason {
            Some(reason) => Some(reason.to_json()),
            None => None,
        };
        let json: Json = put_some(json, "leave_reason", leave_reason);
        let created_ts: Option<Json> = match self.created_ts {
            Some(ts) => Some(Json::number(ts)),
            None => None,
        };
        put_some(json, "created_ts", created_ts)
    }
}

/// What an optional member reads as: nothing stated, stated, or of the wrong
/// shape.
pub enum Reading<T> {
    /// Absent, or `null`.
    Absent,
    /// Stated.
    Stated(T),
    /// Of the wrong shape.
    Malformed,
}

/// Reads an optional string.
pub open spec fn read_text(value: Option<JsonView>) -> Reading<Seq<char>> {
    match value {
        None => Reading::Absent,
        Some(JsonView::Null) => Reading::Absent,
        Some(JsonView::Text(text)) => Reading::Stated(text),
        Some(_) => Reading::Malformed,
    }
}

/// Reads the `member` object.
pub open spec fn read_member(json: JsonView) -> Option<MemberView> {
    if json is Object {
        match (read_text(json.get("id"@)), read_text(json.get("membership"@))) {
            (Reading::Malformed, _) => None,
            (_, Reading::Malformed) => None,
            (id, membership) => Some(
                MemberView {
                    id: match id {
                        Reading::Stated(id) => Some(id),
                        _ => None,
                    },
                    membership: match membership {
                        Reading::Stated(text) => Some(MembershipView::read(text)),
                        _ => None,
                    },
                },
            ),
        }
    } else {
        None
    }
}

/// Reads the `application` object.
pub open spec fn read_application(json: JsonView) -> Option<ApplicationView> {
    match json {
        JsonView::Object(members) => match read_text(json.get("type"@)) {
            Reading::Malformed => None,
            Reading::Absent => Some(
                ApplicationView { application_type: None, extra: members.remove("type"@) },
            ),
            Reading::Stated(text) => Some(
                ApplicationView { application_type: Some(text), extra: members.remove("type"@) },
            ),
        },
        _ => None,
    }
}

/// Reads one transport.
pub open spec fn read_transport(json: JsonView) -> Option<RawTransportView> {
    match json {
        JsonView::Object(members) => match json.get("type"@) {
            Some(JsonView::Text(text)) => Some(
                RawTransportView { transport_type: text, extra: members.remove("type"@) },
            ),
            _ => None,
        },
        _ => None,
    }
}

/// Reads every transport of a list; one that cannot be read spoils the list.
pub open spec fn read_transport_list(items: Seq<JsonView>) -> Option<Seq<RawTransportView>>
    decreases items.len(),
{
    if items.len() == 0 {
        Some(Seq::empty())
    } else {
        match (read_transport_list(items.drop_last()), read_transport(items.last())) {
            (Some(earlier), Some(last)) => Some(earlier.push(last)),
            _ => None,
        }
    }
}

/// Reads a list of strings; anything else in it spoils the list.
pub open spec fn read_text_list(items: Seq<JsonView>) -> Option<Seq<Seq<char>>>
    decreases items.len(),
{
    if items.len() == 0 {
        Some(Seq::empty())
    } else {
        match (read_text_list(items.drop_last()), items.last().as_text()) {
            (Some(earlier), Some(last)) => Some(earlier.push(last)),
            _ => None,
        }
    }
}

/// The items of an optional array; an absent one has none.
pub open spec fn read_items(value: Option<JsonView>) -> Option<Seq<JsonView>> {
    match value {
        None => Some(Seq::empty()),
        Some(value) => value.items(),
    }
}

/// Reads the `transports` object.
pub open spec fn read_transports(json: JsonView) -> Option<TransportsView> {
    if json is Object {
        match (read_items(json.get("published"@)), read_items(json.get("can_subscribe"@))) {
            (Some(published), Some(can_subscribe)) => match (
                read_transport_list(published),
                read_text_list(can_subscribe),
            ) {
                (Some(published), Some(can_subscribe)) => Some(
                    TransportsView { published, can_subscribe },
                ),
                _ => None,
            },
            _ => None,
        }
    } else {
        None
    }
}

/// Reads the `leave_reason` object.
pub open spec fn read_leave_reason(json: JsonView) -> Option<LeaveReasonView> {
    match (json.get("code"@), read_text(json.get("reason"@))) {
        (Some(JsonView::Text(code)), Reading::Absent) => Some(
            LeaveReasonView { code: LeaveCodeView::read(code), reason: None },
        ),
        (Some(JsonView::Text(code)), Reading::Stated(reason)) => Some(
            LeaveReasonView { code: LeaveCodeView::read(code), reason: Some(reason) },
        ),
        _ => None,
    }
}

/// How many members a content has.
pub const CONTENT_MEMBERS: usize = 7;

/// A member of a content. A content is an object that names its members, but may
/// also be an array that lists them in order and leaves out the last ones.
pub open spec fn part(json: JsonView, position: int, name: Seq<char>) -> Option<JsonView> {
    match json {
        JsonView::Array(items) => if 0 <= position < items.len() {
            Some(items[position])
        } else {
            None
        },
        _ => json.get(name),
    }
}

/// Whether a content is an array with more items than a content has members.
pub open spec fn is_overlong(json: JsonView) -> bool {
    json matches JsonView::Array(items) && items.len() > CONTENT_MEMBERS
}

/// Reads the slot id.
pub open spec fn read_slot_id(json: JsonView) -> Option<Seq<char>> {
    match part(json, 0, "slot_id"@) {
        Some(JsonView::Text(slot_id)) => Some(slot_id),
        _ => None,
    }
}

/// The sticky key, which is accepted under its unstable and its stable name, but
/// not under both at once.
pub open spec fn read_sticky_key(json: JsonView) -> Option<Seq<char>> {
    match (part(json, 1, "msc4354_sticky_key"@), json.get("sticky_key"@)) {
        (Some(JsonView::Text(key)), None) => Some(key),
        (None, Some(JsonView::Text(key))) => Some(key),
        _ => None,
    }
}

/// Reads the `member` member.
pub open spec fn read_member_at(json: JsonView) -> Option<MemberView> {
    match part(json, 2, "member"@) {
        None => Some(MemberView { id: None, membership: None }),
        Some(value) => read_member(value),
    }
}

/// Reads the `application` member.
pub open spec fn read_application_at(json: JsonView) -> Option<ApplicationView> {
    match part(json, 3, "application"@) {
        None => Some(ApplicationView::none()),
        Some(value) => read_application(value),
    }
}

/// Reads the `transports` member.
pub open spec fn read_transports_at(json: JsonView) -> Option<Option<TransportsView>> {
    match part(json, 4, "transports"@) {
        None => Some(None),
        Some(JsonView::Null) => Some(None),
        Some(value) => match read_transports(value) {
            Some(transports) => Some(Some(transports)),
            None => None,
        },
    }
}

/// Reads the `leave_reason` member.
pub open spec fn read_leave_reason_at(json: JsonView) -> Option<Option<LeaveReasonView>> {
    match part(json, 5, "leave_reason"@) {
        None => Some(None),
        Some(JsonView::Null) => Some(None),
        Some(value) => match read_leave_reason(value) {
            Some(reason) => Some(Some(reason)),
            None => None,
        },
    }
}

/// Reads the `created_ts` member.
pub open spec fn read_created_ts_at(json: JsonView) -> Option<Option<u64>> {
    match part(json, 6, "created_ts"@) {
        None => Some(None),
        Some(JsonView::Null) => Some(None),
        Some(JsonView::Number(NumberView::Unsigned(ts))) => Some(Some(ts)),
        Some(_) => None,
    }
}

/// Reads a content; `None` where a required member is missing, any known member is
/// of the wrong shape, or an array has items to spare.
pub open spec fn read_content(json: JsonView) -> Option<ContentView> {
    match (
        if is_overlong(json) {
            None
        } else {
            read_slot_id(json)
        },
        read_sticky_key(json),
        read_member_at(json),
        read_application_at(json),
        read_transports_at(json),
        read_leave_reason_at(json),
        read_created_ts_at(json),
    ) {
        (
            Some(slot_id),
            Some(sticky_key),
            Some(member),
            Some(application),
            Some(transports),
            Some(leave_reason),
            Some(created_ts),
        ) => Some(
            ContentView {
                slot_id,
                sticky_key,
                member,
                application,
                transports,
                leave_reason,
                created_ts,
            },
        ),
        _ => None,
    }
}

fn text_reading(value: Option<&Json>) -> (reading: Reading<String>)
    ensures
        match reading {
            Reading::Absent => read_text(view_of(value)) is Absent,
            Reading::Stated(text) => read_text(view_of(value)) == Reading::Stated(text@),
            Reading::Malformed => read_text(view_of(value)) is Malformed,
        },
{
    match value {
        None => Reading::Absent,
        Some(Json::Null) => Reading::Absent,
        Some(Json::Text(text)) => Reading::Stated(text.clone()),
        Some(_) => Reading::Malformed,
    }
}

/// What an optional value is.
pub open spec fn view_of(value: Option<&Json>) -> Option<JsonView> {
    match value {
        Some(value) => Some(value@),
        None => None,
    }
}

fn part_of<'a>(json: &'a Json, position: usize, name: &str) -> (found: Option<&'a Json>)
    ensures
        view_of(found) == part(json@, position as int, name@),
{
    match json.items() {
        Some(items) => {
            assert(models(items@).len() == items@.len());
            if position < items.len() {
                Some(&items[position])
            } else {
                None
            }
        },
        None => json.get(name),
    }
}

impl MemberInfo {
    /// Reads the `member` object.
    pub fn from_json(json: &Json) -> (member: Option<MemberInfo>)
        ensures
            match member {
                Some(member) => read_member(json@) == Some(member@),
                None => read_member(json@) is None,
            },
    {
        if !json.is_object() {
            return None;
        }
        let id: Option<String> = match text_reading(json.get("id")) {
            Reading::Absent => None,
            Reading::Stated(id) => Some(id),
            Reading::Malformed => {
                return None;
            },
        };
        let membership: Option<Membership> = match text_reading(json.get("membership")) {
            Reading::Absent => None,
            Reading::Stated(text) => Some(Membership::from_wire(text.as_str())),
            Reading::Malformed => {
                return None;
            },
        };
        Some(MemberInfo { id, membership })
    }
}

impl ApplicationInfo {
    /// Reads the `application` object.
    pub fn from_json(json: &Json) -> (application: Option<ApplicationInfo>)
        ensures
            match application {
                Some(application) => read_application(json@) == Some(application@),
                None => read_application(json@) is None,
            },
    {
        proof {
            lemma_model(*json);
        }
        match json {
            Json::Object(members) => {
                let application_type: Option<String> = match text_reading(json.get("type")) {
                    Reading::Absent => None,
                    Reading::Stated(text) => Some(text),
                    Reading::Malformed => {
                        return None;
                    },
                };
                Some(ApplicationInfo { application_type, extra: without(members, "type") })
            },
            _ => None,
        }
    }
}

impl RawRtcTransport {
    /// Reads one transport.
    pub fn from_json(json: &Json) -> (transport: Option<RawRtcTransport>)
        ensures
            match transport {
                Some(transport) => read_transport(json@) == Some(transport@),
                None => read_transport(json@) is None,
            },
    {
        proof {
            lemma_model(*json);
        }
        match json {
            Json::Object(members) => match json.get("type") {
                Some(Json::Text(text)) => Some(
                    RawRtcTransport {
                        transport_type: text.clone(),
                        extra_fields: without(members, "type"),
                    },
                ),
                _ => None,
            },
            _ => None,
        }
    }
}

fn transport_list(items: &Vec<Json>) -> (list: Option<Vec<RawRtcTransport>>)
    ensures
        match list {
            Some(list) => read_transport_list(models(items@)) == Some(
                list@.map_values(|transport: RawRtcTransport| transport@),
            ),
            None => read_transport_list(models(items@)) is None,
        },
{
    let ghost whole = models(items@);
    let mut list: Vec<RawRtcTransport> = Vec::new();
    let mut i: usize = 0;
    proof {
        assert(whole.take(0) =~= Seq::<JsonView>::empty());
        assert(list@.map_values(|transport: RawRtcTransport| transport@) =~= Seq::<
            RawTransportView,
        >::empty());
    }
    while i < items.len()
        invariant
            i <= items@.len(),
            whole == models(items@),
            read_transport_list(whole.take(i as int)) == Some(
                list@.map_values(|transport: RawRtcTransport| transport@),
            ),
        decreases items@.len() - i,
    {
        proof {
            assert(whole.take(i + 1).drop_last() =~= whole.take(i as int));
            assert(whole.take(i + 1).last() == items@[i as int]@);
        }
        match RawRtcTransport::from_json(&items[i]) {
            Some(transport) => {
                let ghost before = list@;
                list.push(transport);
                assert(list@.map_values(|transport: RawRtcTransport| transport@)
                    =~= before.map_values(|transport: RawRtcTransport| transport@).push(
                    transport@,
                ));
            },
            None => {
                proof {
                    lemma_spoiled_transports(whole, i + 1);
                }
                return None;
            },
        }
        i = i + 1;
    }
    assert(whole.take(whole.len() as int) =~= whole);
    Some(list)
}

proof fn lemma_spoiled_transports(items: Seq<JsonView>, i: int)
    requires
        0 <= i <= items.len(),
        read_transport_list(items.take(i)) is None,
    ensures
        read_transport_list(items) is None,
    decreases items.len() - i,
{
    if i < items.len() {
        assert(items.take(i + 1).drop_last() =~= items.take(i));
        lemma_spoiled_transports(items, i + 1);
    } else {
        assert(items.take(i) =~= items);
    }
}

proof fn lemma_spoiled_texts(items: Seq<JsonView>, i: int)
    requires
        0 <= i <= items.len(),
        read_text_list(items.take(i)) is None,
    ensures
        read_text_list(items) is None,
    decreases items.len() - i,
{
    if i < items.len() {
        assert(items.take(i + 1).drop_last() =~= items.take(i));
        lemma_spoiled_texts(items, i + 1);
    } else {
        assert(items.take(i) =~= items);
    }
}

fn text_list(items: &Vec<Json>) -> (list: Option<Vec<String>>)
    ensures
        match list {
            Some(list) => read_text_list(models(items@)) == Some(texts(list@)),
            None => read_text_list(models(items@)) is None,
        },
{
    let ghost whole = models(items@);
    let mut list: Vec<String> = Vec::new();
    let mut i: usize = 0;
    proof {
        assert(whole.take(0) =~= Seq::<JsonView>::empty());
        assert(texts(list@) =~= Seq::<Seq<char>>::empty());
    }
    while i < items.len()
        invariant
            i <= items@.len(),
            whole == models(items@),
            read_text_list(whole.take(i as int)) == Some(texts(list@)),
        decreases items@.len() - i,
    {
        proof {
            assert(whole.take(i + 1).drop_last() =~= whole.take(i as int));
            assert(whole.take(i + 1).last() == items@[i as int]@);
        }
        match items[i].as_text() {
            Some(text) => {
                let ghost before = list@;
                list.push(text.to_owned());
                assert(texts(list@) =~= texts(before).push(text@));
            },
            None => {
                proof {
                    lemma_spoiled_texts(whole, i + 1);
                }
                return None;
            },
        }
        i = i + 1;
    }
    assert(whole.take(whole.len() as int) =~= whole);
    Some(list)
}

impl MemberTransports {
    /// Reads the `transports` object.
    pub fn from_json(json: &Json) -> (transports: Option<MemberTransports>)
        ensures
            match transports {
                Some(transports) => read_transports(json@) == Some(transports@),
                None => read_transports(json@) is None,
            },
    {
        if !json.is_object() {
            return None;
        }
        let nothing: Vec<Json> = Vec::new();
        proof {
            assert(models(nothing@) =~= Seq::<JsonView>::empty());
        }
        let published_items: &Vec<Json> = match json.get("published") {
            Some(value) => match value.items() {
                Some(items) => items,
                None => {
                    return None;
                },
            },
            None => &nothing,
        };
        let subscribe_items: &Vec<Json> = match json.get("can_subscribe") {
            Some(value) => match value.items() {
                Some(items) => items,
                None => {
                    return None;
                },
            },
            None => &nothing,
        };
        match (transport_list(published_items), text_list(subscribe_items)) {
            (Some(published), Some(can_subscribe)) => Some(
                MemberTransports { published, can_subscribe },
            ),
            (_, _) => None,
        }
    }
}

impl LeaveReason {
    /// Reads the `leave_reason` object.
    pub fn from_json(json: &Json) -> (reason: Option<LeaveReason>)
        ensures
            match reason {
                Some(reason) => read_leave_reason(json@) == Some(reason@),
                None => read_leave_reason(json@) is None,
            },
    {
        match (json.get("code"), text_reading(json.get("reason"))) {
            (Some(Json::Text(code)), Reading::Absent) => Some(
                LeaveReason { code: LeaveCode::from_wire(code.as_str()), reason: None },
            ),
            (Some(Json::Text(code)), Reading::Stated(reason)) => Some(
                LeaveReason { code: LeaveCode::from_wire(code.as_str()), reason: Some(reason) },
            ),
            (_, _) => None,
        }
    }
}

impl RawStickyEventContent {
    /// Reads a content; `None` where a required member is missing, any known member
    /// is of the wrong shape, or an array has items to spare.
    pub fn from_json(json: &Json) -> (content: Option<RawStickyEventContent>)
        ensures
            match content {
                Some(content) => read_content(json@) == Some(content@),
                None => read_content(json@) is None,
            },
    {
        match json.items() {
            Some(items) => {
                assert(models(items@).len() == items@.len());
                if items.len() > CONTENT_MEMBERS {
                    return None;
                }
            },
            None => {},
        }
        let slot_id: String = match part_of(json, 0, "slot_id") {
            Some(Json::Text(text)) => text.clone(),
            _ => {
                return None;
            },
        };
        let sticky_key: String = match (
            part_of(json, 1, "msc4354_sticky_key"),
            json.get("sticky_key"),
        ) {
            (Some(Json::Text(key)), None) => key.clone(),
            (None, Some(Json::Text(key))) => key.clone(),
            (_, _) => {
                return None;
            },
        };
        let member: MemberInfo = match part_of(json, 2, "member") {
            None => MemberInfo { id: None, membership: None },
            Some(value) => match MemberInfo::from_json(value) {
                Some(member) => member,
                None => {
                    return None;
                },
            },
        };
        let application: ApplicationInfo = match part_of(json, 3, "application") {
            None => ApplicationInfo::none(),
            Some(value) => match ApplicationInfo::from_json(value) {
                Some(application) => application,
                None => {
                    return None;
                },
            },
        };
        let transports: Option<MemberTransports> = match part_of(json, 4, "transports") {
            None => None,
            Some(Json::Null) => None,
            Some(value) => match MemberTransports::from_json(value) {
                Some(transports) => Some(transports),
                None => {
                    return None;
                },
            },
        };
        let leave_reason: Option<LeaveReason> = match part_of(json, 5, "leave_reason") {
            None => None,
            Some(Json::Null) => None,
            Some(value) => match LeaveReason::from_json(value) {
                Some(reason) => Some(reason),
                None => {
                    return None;
                },
            },
        };
        let created_ts: Option<u64> = match part_of(json, 6, "created_ts") {
            None => None,
            Some(Json::Null) => None,
            Some(Json::Number(JsonNumber::Unsigned(ts))) => Some(*ts),
            Some(_) => {
                return None;
            },
        };
        Some(
            RawStickyEventContent {
                slot_id,
                sticky_key,
                member,
                application,
                transports,
                leave_reason,
                created_ts,
            },
        )
    }
}

/// The names of a content's members are all different.
pub proof fn lemma_content_names()
    ensures
        "slot_id"@ != "msc4354_sticky_key"@,
        "slot_id"@ != "sticky_key"@,
        "slot_id"@ != "member"@,
        "slot_id"@ != "application"@,
        "slot_id"@ != "transports"@,
        "slot_id"@ != "leave_reason"@,
        "slot_id"@ != "created_ts"@,
        "msc4354_sticky_key"@ != "sticky_key"@,
        "msc4354_sticky_key"@ != "member"@,
        "msc4354_sticky_key"@ != "application"@,
        "msc4354_sticky_key"@ != "transports"@,
        "msc4354_sticky_key"@ != "leave_reason"@,
        "msc4354_sticky_key"@ != "created_ts"@,
        "sticky_key"@ != "member"@,
        "sticky_key"@ != "application"@,
        "sticky_key"@ != "transports"@,
        "sticky_key"@ != "leave_reason"@,
        "sticky_key"@ != "created_ts"@,
        "member"@ != "application"@,
        "member"@ != "transports"@,
        "member"@ != "leave_reason"@,
        "member"@ != "created_ts"@,
        "application"@ != "transports"@,
        "application"@ != "leave_reason"@,
        "application"@ != "created_ts"@,
        "transports"@ != "leave_reason"@,
        "transports"@ != "created_ts"@,
        "leave_reason"@ != "created_ts"@,
{
    reveal_strlit("slot_id");
    reveal_strlit("msc4354_sticky_key");
    reveal_strlit("sticky_key");
    reveal_strlit("member");
    reveal_strlit("application");
    reveal_strlit("transports");
    reveal_strlit("leave_reason");
    reveal_strlit("created_ts");
    assert("slot_id"@.len() != "msc4354_sticky_key"@.len());
    assert("slot_id"@.len() != "sticky_key"@.len());
    assert("slot_id"@.len() != "member"@.len());
    assert("slot_id"@.len() != "application"@.len());
    assert("slot_id"@.len() != "transports"@.len());
    assert("slot_id"@.len() != "leave_reason"@.len());
    assert("slot_id"@.len() != "created_ts"@.len());
    assert("msc4354_sticky_key"@.len() != "sticky_key"@.len());
    assert("msc4354_sticky_key"@.len() != "member"@.len());
    assert("msc4354_sticky_key"@.len() != "application"@.len());
    assert("msc4354_sticky_key"@.len() != "transports"@.len());
    assert("msc4354_sticky_key"@.len() != "leave_reason"@.len());
    assert("msc4354_sticky_key"@.len() != "created_ts"@.len());
    assert("sticky_key"@.len() != "member"@.len());
    assert("sticky_key"@.len() != "application"@.len());
    assert("sticky_key"@[0] != "transports"@[0]);
    assert("sticky_key"@.len() != "leave_reason"@.len());
    assert("sticky_key"@[0] != "created_ts"@[0]);
    assert("member"@.len() != "application"@.len());
    assert("member"@.len() != "transports"@.len());
    assert("member"@.len() != "leave_reason"@.len());
    assert("member"@.len() != "created_ts"@.len());
    assert("application"@.len() != "transports"@.len());
    assert("application"@.len() != "leave_reason"@.len());
    assert("application"@.len() != "created_ts"@.len());
    assert("transports"@.len() != "leave_reason"@.len());
    assert("transports"@[0] != "created_ts"@[0]);
    assert("leave_reason"@.len() != "created_ts"@.len());
}

/// The names of the members of the inner objects are all different, and so are
/// the known values.
pub proof fn lemma_inner_names()
    ensures
        "id"@ != "membership"@,
        "published"@ != "can_subscribe"@,
        "code"@ != "reason"@,
        "join"@ != "leave"@,
        "join"@ != "slot_closed"@,
        "join"@ != "delayed_leave"@,
        "leave"@ != "slot_closed"@,
        "leave"@ != "delayed_leave"@,
        "slot_closed"@ != "delayed_leave"@,
{
    reveal_strlit("id");
    reveal_strlit("membership");
    reveal_strlit("published");
    reveal_strlit("can_subscribe");
    reveal_strlit("code");
    reveal_strlit("reason");
    reveal_strlit("join");
    reveal_strlit("leave");
    reveal_strlit("slot_closed");
    reveal_strlit("delayed_leave");
    assert("id"@.len() != "membership"@.len());
    assert("published"@.len() != "can_subscribe"@.len());
    assert("code"@.len() != "reason"@.len());
    assert("join"@.len() != "leave"@.len());
    assert("join"@.len() != "slot_closed"@.len());
    assert("join"@.len() != "delayed_leave"@.len());
    assert("leave"@.len() != "slot_closed"@.len());
    assert("leave"@.len() != "delayed_leave"@.len());
    assert("slot_closed"@.len() != "delayed_leave"@.len());
}

/// Whether a content says everything in the one way it can be said: no unknown
/// value that spells a known one, and no extra member in a known member's place.
pub open spec fn is_canonical(content: ContentView) -> bool {
    &&& content.member.membership matches Some(membership) ==> MembershipView::read(
        membership.wire(),
    ) == membership
    &&& !content.application.extra.contains_key("type"@)
    &&& content.transports matches Some(transports) ==> forall|i: int|
        0 <= i < transports.published.len() ==> !(
        #[trigger] transports.published[i]).extra.contains_key("type"@)
    &&& content.leave_reason matches Some(reason) ==> LeaveCodeView::read(reason.code.wire())
        == reason.code
}

proof fn lemma_transport_list_round_trip(list: Seq<RawTransportView>)
    requires
        forall|i: int|
            0 <= i < list.len() ==> !(#[trigger] list[i]).extra.contains_key("type"@),
    ensures
        read_transport_list(
            list.map_values(|transport: RawTransportView| raw_transport_json(transport)),
        ) == Some(list),
    decreases list.len(),
{
    let items = list.map_values(|transport: RawTransportView| raw_transport_json(transport));
    if list.len() > 0 {
        let earlier = list.drop_last();
        assert forall|i: int| 0 <= i < earlier.len() implies !(
        #[trigger] earlier[i]).extra.contains_key("type"@) by {
            assert(earlier[i] == list[i]);
        }
        lemma_transport_list_round_trip(earlier);
        assert(items.drop_last() =~= earlier.map_values(
            |transport: RawTransportView| raw_transport_json(transport),
        ));
        let last = list.last();
        assert(!list[list.len() - 1].extra.contains_key("type"@));
        assert(last.extra.insert("type"@, JsonView::Text(last.transport_type)).remove("type"@)
            =~= last.extra);
        assert(earlier.push(last) =~= list);
    } else {
        assert(list =~= Seq::empty());
    }
}

proof fn lemma_text_list_round_trip(list: Seq<Seq<char>>)
    ensures
        read_text_list(list.map_values(|text: Seq<char>| JsonView::Text(text))) == Some(list),
    decreases list.len(),
{
    let items = list.map_values(|text: Seq<char>| JsonView::Text(text));
    if list.len() > 0 {
        let earlier = list.drop_last();
        lemma_text_list_round_trip(earlier);
        assert(items.drop_last() =~= earlier.map_values(|text: Seq<char>| JsonView::Text(text)));
        assert(earlier.push(list.last()) =~= list);
    } else {
        assert(list =~= Seq::empty());
    }
}

/// What is sent is what can be read back: a canonical content, written out and
/// read again, is itself.
pub proof fn law_content_round_trips(content: ContentView)
    requires
        is_canonical(content),
    ensures
        read_content(content_json(content)) == Some(content),
{
    lemma_content_names();
    lemma_inner_names();
    let json = content_json(content);
    assert(read_member_at(json) == Some(content.member));
    assert(read_application_at(json) == Some(content.application)) by {
        let application = content.application;
        match application.application_type {
            Some(text) => {
                assert(application.extra.insert("type"@, JsonView::Text(text)).remove("type"@)
                    =~= application.extra);
            },
            None => {
                assert(application.extra.remove("type"@) =~= application.extra);
            },
        }
    }
    assert(read_transports_at(json) == Some(content.transports)) by {
        match content.transports {
            Some(transports) => {
                lemma_transport_list_round_trip(transports.published);
                lemma_text_list_round_trip(transports.can_subscribe);
            },
            None => {},
        }
    }
    assert(read_leave_reason_at(json) == Some(content.leave_reason));
    assert(read_created_ts_at(json) == Some(content.created_ts));
    assert(read_sticky_key(json) == Some(content.sticky_key));
    assert(read_slot_id(json) == Some(content.slot_id));
}

/// A join content that [`RawStickyEventContent::for_join`] builds is canonical,
/// so peers read exactly what was built, and it states a join. Transports with a
/// second `type` among their other members are left out.
pub proof fn law_built_join_is_read_as_a_join(content: RawStickyEventContent)
    requires
        content.member == (MemberInfo {
            id: content.member.id,
            membership: Some(Membership::Join),
        }),
        content.application.extra@.len() == 0,
        content.leave_reason is None,
        content.transports matches Some(transports) ==> forall|i: int|
            0 <= i < transports@.published.len() ==> !(
            #[trigger] transports@.published[i]).extra.contains_key("type"@),
    ensures
        read_content(content_json(content@)) == Some(content@),
        content@.member.membership == Some(MembershipView::Join),
{
    lemma_inner_names();
    assert(members_model(content.application.extra@) =~= Map::empty());
    law_content_round_trips(content@);
}

} // verus!
