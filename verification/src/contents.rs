//! What a member content says, member by member.

use vstd::prelude::*;
use crate::json::{JsonView, NumberView};
use crate::session::{LeaveCodeView, MembershipView};
use crate::transport::RawTransportView;
use crate::wire::{
    lemma_content_names, lemma_inner_names, part, read_content, read_text_list, read_transport,
    read_transport_list, read_transports, ContentView,
};

verus! {

/// Whether a member is absent, `null`, or a string.
pub open spec fn is_optional_text(value: Option<JsonView>) -> bool {
    value is None || value->0 is Null || value->0 is Text
}

/// The text of an optional string.
pub open spec fn stated_text(value: Option<JsonView>) -> Option<Seq<char>> {
    match value {
        Some(JsonView::Text(text)) => Some(text),
        _ => None,
    }
}

/// Whether a value is absent or a list of which every item is an object of a type.
pub open spec fn lists_transports(value: Option<JsonView>) -> bool {
    value matches Some(value) ==> value is Array && forall|i: int|
        0 <= i < value->Array_0.len() ==> (#[trigger] value->Array_0[i]) is Object && (
        value->Array_0[i].get("type"@) is Some && value->Array_0[i].get("type"@)->0 is Text)
}

/// Whether a value is absent or a list of strings.
pub open spec fn lists_texts(value: Option<JsonView>) -> bool {
    value matches Some(value) ==> value is Array && forall|i: int|
        0 <= i < value->Array_0.len() ==> (#[trigger] value->Array_0[i]) is Text
}

/// Whether every member of a content that is an object has the shape it must have:
/// the slot is a string, so is the sticky key, under exactly one of its names, and
/// everything else is absent or of its own shape.
pub open spec fn is_well_shaped(json: JsonView) -> bool {
    &&& json.get("slot_id"@) is Some && json.get("slot_id"@)->0 is Text
    &&& json.get("msc4354_sticky_key"@) is Some <==> json.get("sticky_key"@) is None
    &&& json.get("msc4354_sticky_key"@) matches Some(key) ==> key is Text
    &&& json.get("sticky_key"@) matches Some(key) ==> key is Text
    &&& json.get("member"@) matches Some(member) ==> member is Object && is_optional_text(
        member.get("id"@),
    ) && is_optional_text(member.get("membership"@))
    &&& json.get("application"@) matches Some(application) ==> application is Object
        && is_optional_text(application.get("type"@))
    &&& json.get("transports"@) matches Some(transports) ==> transports is Null || (
    transports is Object && lists_transports(transports.get("published"@)) && lists_texts(
        transports.get("can_subscribe"@),
    ))
    &&& json.get("leave_reason"@) matches Some(reason) ==> reason is Null || (reason.get(
        "code"@,
    ) is Some && reason.get("code"@)->0 is Text && is_optional_text(reason.get("reason"@)))
    &&& json.get("created_ts"@) matches Some(ts) ==> ts is Null || (ts is Number
        && ts->Number_0 is Unsigned)
}

proof fn lemma_transport_list(items: Seq<JsonView>)
    ensures
        read_transport_list(items) is Some <==> forall|i: int|
            0 <= i < items.len() ==> (#[trigger] items[i]) is Object && items[i].get(
                "type"@,
            ) is Some && items[i].get("type"@)->0 is Text,
        read_transport_list(items) matches Some(list) ==> list.len() == items.len() && forall|
            i: int,
        |
            0 <= i < items.len() ==> read_transport(items[i]) == Some(#[trigger] list[i]),
    decreases items.len(),
{
    if items.len() > 0 {
        let rest = items.drop_last();
        lemma_transport_list(rest);
        let shaped = |item: JsonView|
            item is Object && item.get("type"@) is Some && item.get("type"@)->0 is Text;
        assert(read_transport(items.last()) is Some <==> shaped(items.last()));
        if forall|i: int|
            0 <= i < items.len() ==> (#[trigger] items[i]) is Object && items[i].get(
                "type"@,
            ) is Some && items[i].get("type"@)->0 is Text {
            assert forall|i: int| 0 <= i < rest.len() implies (#[trigger] rest[i]) is Object
                && rest[i].get("type"@) is Some && rest[i].get("type"@)->0 is Text by {
                assert(rest[i] == items[i]);
            }
            assert(items[items.len() - 1] is Object);
        }
        if read_transport_list(items) is Some {
            let list = read_transport_list(items)->0;
            let fewer = read_transport_list(rest)->0;
            assert forall|i: int| 0 <= i < items.len() implies read_transport(items[i]) == Some(
                #[trigger] list[i],
            ) by {
                if i < rest.len() {
                    assert(rest[i] == items[i] && fewer[i] == list[i]);
                }
            }
            assert forall|i: int| 0 <= i < items.len() implies (#[trigger] items[i]) is Object
                && items[i].get("type"@) is Some && items[i].get("type"@)->0 is Text by {
                assert(read_transport(items[i]) == Some(list[i]));
            }
        }
    }
}

proof fn lemma_text_list(items: Seq<JsonView>)
    ensures
        read_text_list(items) is Some <==> forall|i: int|
            0 <= i < items.len() ==> (#[trigger] items[i]) is Text,
        read_text_list(items) matches Some(list) ==> list.len() == items.len() && forall|i: int|
            0 <= i < items.len() ==> items[i] == JsonView::Text(#[trigger] list[i]),
    decreases items.len(),
{
    if items.len() > 0 {
        let rest = items.drop_last();
        lemma_text_list(rest);
        if forall|i: int| 0 <= i < items.len() ==> (#[trigger] items[i]) is Text {
            assert forall|i: int| 0 <= i < rest.len() implies (#[trigger] rest[i]) is Text by {
                assert(rest[i] == items[i]);
            }
            assert(items[items.len() - 1] is Text);
        }
        if read_text_list(items) is Some {
            let list = read_text_list(items)->0;
            let fewer = read_text_list(rest)->0;
            assert forall|i: int| 0 <= i < items.len() implies items[i] == JsonView::Text(
                #[trigger] list[i],
            ) by {
                if i < rest.len() {
                    assert(rest[i] == items[i] && fewer[i] == list[i]);
                }
            }
            assert forall|i: int| 0 <= i < items.len() implies (#[trigger] items[i]) is Text by {
                assert(items[i] == JsonView::Text(list[i]));
            }
        }
    }
}

/// A content that is an object can be read exactly if every member has the shape it
/// must have.
pub proof fn law_content_is_read_exactly_if_well_shaped(json: JsonView)
    requires
        json is Object,
    ensures
        read_content(json) is Some <==> is_well_shaped(json),
{
    match json.get("transports"@) {
        Some(transports) => {
            match transports.get("published"@) {
                Some(JsonView::Array(items)) => {
                    lemma_transport_list(items);
                },
                _ => {
                    lemma_transport_list(Seq::empty());
                },
            }
            match transports.get("can_subscribe"@) {
                Some(JsonView::Array(items)) => {
                    lemma_text_list(items);
                },
                _ => {
                    lemma_text_list(Seq::empty());
                },
            }
        },
        None => {},
    }
}

/// Whether what was read of a content is what its members say.
pub open spec fn says(json: JsonView, content: ContentView) -> bool {
    &&& json.get("slot_id"@) == Some(JsonView::Text(content.slot_id))
    &&& json.get("msc4354_sticky_key"@) == Some(JsonView::Text(content.sticky_key)) || json.get(
        "sticky_key"@,
    ) == Some(JsonView::Text(content.sticky_key))
    &&& content.member.id == stated_text(json.get_in("member"@, "id"@))
    &&& content.member.membership == Some(MembershipView::Join) <==> json.get_in(
        "member"@,
        "membership"@,
    ) == Some(JsonView::Text("join"@))
    &&& content.member.membership == Some(MembershipView::Leave) <==> json.get_in(
        "member"@,
        "membership"@,
    ) == Some(JsonView::Text("leave"@))
    &&& content.member.membership is Some <==> stated_text(
        json.get_in("member"@, "membership"@),
    ) is Some
    &&& content.application.application_type == stated_text(json.get_in("application"@, "type"@))
    &&& forall|name: Seq<char>|
        name != "type"@ ==> (#[trigger] content.application.extra.contains_key(name)
            <==> json.get_in("application"@, name) is Some) && (
        content.application.extra.contains_key(name) ==> Some(content.application.extra[name])
            == json.get_in("application"@, name))
    &&& content.created_ts == (match json.get("created_ts"@) {
        Some(JsonView::Number(NumberView::Unsigned(ts))) => Some(ts),
        _ => None,
    })
    &&& content.transports is Some <==> json.get("transports"@) is Some && !(json.get(
        "transports"@,
    )->0 is Null)
    &&& content.leave_reason is Some <==> json.get("leave_reason"@) is Some && !(json.get(
        "leave_reason"@,
    )->0 is Null)
    &&& content.leave_reason matches Some(reason) ==> {
        &&& json.get_in("leave_reason"@, "code"@) == Some(JsonView::Text(reason.code.wire()))
        &&& reason.reason == stated_text(json.get_in("leave_reason"@, "reason"@))
        &&& reason.code == LeaveCodeView::SlotClosed <==> json.get_in("leave_reason"@, "code"@)
            == Some(JsonView::Text("slot_closed"@))
        &&& reason.code == LeaveCodeView::DelayedLeave <==> json.get_in("leave_reason"@, "code"@)
            == Some(JsonView::Text("delayed_leave"@))
        &&& reason.code == LeaveCodeView::Leave <==> json.get_in("leave_reason"@, "code"@)
            == Some(JsonView::Text("leave"@))
    }
}

/// What is read of a content is what its members say, each of its own.
pub proof fn law_content_is_read_as_it_says(json: JsonView, content: ContentView)
    requires
        json is Object,
        read_content(json) == Some(content),
    ensures
        says(json, content),
{
    lemma_inner_names();
}

/// The transports that are read of a content are those it lists, one for one and in
/// order: each of the type it names with whatever else it says, and each type it can
/// receive on.
pub proof fn law_transports_are_read_one_for_one(json: JsonView, content: ContentView)
    requires
        json is Object,
        read_content(json) == Some(content),
        content.transports is Some,
    ensures
        ({
            let published = json.get_in("transports"@, "published"@);
            let can_subscribe = json.get_in("transports"@, "can_subscribe"@);
            let read = content.transports->0;
            &&& published is None ==> read.published.len() == 0
            &&& published is Some ==> published->0 is Array && {
                let items = published->0->Array_0;
                &&& read.published.len() == items.len()
                &&& forall|i: int|
                    0 <= i < items.len() ==> is_read_as(items[i], #[trigger] read.published[i])
            }
            &&& can_subscribe is None ==> read.can_subscribe.len() == 0
            &&& can_subscribe is Some ==> can_subscribe->0 is Array && {
                let items = can_subscribe->0->Array_0;
                &&& read.can_subscribe.len() == items.len()
                &&& forall|i: int|
                    0 <= i < items.len() ==> items[i] == JsonView::Text(
                        #[trigger] read.can_subscribe[i],
                    )
            }
        }),
{
    let transports = json.get("transports"@)->0;
    assert(read_transports(transports) == content.transports);
    match transports.get("published"@) {
        Some(JsonView::Array(items)) => {
            lemma_transport_list(items);
            let list = read_transport_list(items)->0;
            assert forall|i: int| 0 <= i < items.len() implies is_read_as(
                items[i],
                #[trigger] list[i],
            ) by {
                assert(read_transport(items[i]) == Some(list[i]));
            }
        },
        _ => {},
    }
    match transports.get("can_subscribe"@) {
        Some(JsonView::Array(items)) => {
            lemma_text_list(items);
        },
        _ => {},
    }
}

/// Whether a transport is what an item of a list says.
pub open spec fn is_read_as(item: JsonView, transport: RawTransportView) -> bool {
    &&& item.get("type"@) == Some(JsonView::Text(transport.transport_type))
    &&& forall|name: Seq<char>|
        name != "type"@ ==> (#[trigger] transport.extra.contains_key(name) <==> item.get(
            name,
        ) is Some) && (transport.extra.contains_key(name) ==> Some(transport.extra[name])
            == item.get(name))
}

/// The name that stands at a place of a content that is a list.
pub open spec fn name_at(i: int) -> Seq<char> {
    if i == 0 {
        "slot_id"@
    } else if i == 1 {
        "msc4354_sticky_key"@
    } else if i == 2 {
        "member"@
    } else if i == 3 {
        "application"@
    } else if i == 4 {
        "transports"@
    } else if i == 5 {
        "leave_reason"@
    } else {
        "created_ts"@
    }
}

/// A content may also list its members in order and leave out the last ones: it is
/// read as the object that has each under its name. One that lists more than there are
/// cannot be read.
pub proof fn law_list_is_read_as_its_object(items: Seq<JsonView>, object: JsonView)
    requires
        object is Object,
        object.get("sticky_key"@) is None,
        forall|i: int|
            0 <= i < 7 ==> object.get(#[trigger] name_at(i)) == (if i < items.len() {
                Some(items[i])
            } else {
                None
            }),
    ensures
        items.len() <= 7 ==> read_content(JsonView::Array(items)) == read_content(object),
        items.len() > 7 ==> read_content(JsonView::Array(items)) is None,
{
    let json = JsonView::Array(items);
    lemma_content_names();
    assert(name_at(0) == "slot_id"@ && name_at(1) == "msc4354_sticky_key"@);
    assert(name_at(2) == "member"@ && name_at(3) == "application"@);
    assert(name_at(4) == "transports"@ && name_at(5) == "leave_reason"@);
    assert(name_at(6) == "created_ts"@);
    assert(part(json, 0, "slot_id"@) == part(object, 0, "slot_id"@));
    assert(part(json, 1, "msc4354_sticky_key"@) == part(object, 1, "msc4354_sticky_key"@));
    assert(part(json, 2, "member"@) == part(object, 2, "member"@));
    assert(part(json, 3, "application"@) == part(object, 3, "application"@));
    assert(part(json, 4, "transports"@) == part(object, 4, "transports"@));
    assert(part(json, 5, "leave_reason"@) == part(object, 5, "leave_reason"@));
    assert(part(json, 6, "created_ts"@) == part(object, 6, "created_ts"@));
}

} // verus!
