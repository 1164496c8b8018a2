//! What holds of the older dialects as a whole.

use vstd::prelude::*;
use crate::compat::element_call::{
    identity_of, session_application, session_call_id, ROOM_CALL_ID,
};
use crate::compat::element_call_state::{
    expires_after, focus_of, foci_for, is_expired, is_older, is_oldest, joined_at, live,
    live_members, oldest_focus, translated, translated_application, translated_content,
    translated_transports, translation, ElementCallStateDialect, LiveView, StateEventView,
    StateMembershipView, DEFAULT_EXPIRES_MS,
};
use crate::json::JsonView;
use crate::seqs::{
    lemma_filter_map_concat, lemma_filter_map_holds, lemma_map_reordered,
    lemma_same_items_reordered,
};
use crate::session::MembershipView;
use crate::text::{first_mark, precedes};
use crate::wire::{
    read_application, read_content, read_member, read_text_list, read_transport,
    read_transport_list, read_transports, ContentView,
};

verus! {

/// An event that stands for no live membership (a leave, an expired membership, a
/// content that cannot be read) changes nothing for anybody else: not the roster
/// and not the focus anyone is taken to publish on.
pub proof fn law_dead_events_change_nothing(
    before: Seq<StateEventView>,
    dead: StateEventView,
    after: Seq<StateEventView>,
    now: u64,
)
    requires
        live(dead, now) is None,
    ensures
        translation(before + seq![dead] + after, now) == translation(before + after, now),
{
    let choose_live = |event: StateEventView| live(event, now);
    lemma_filter_map_concat(before + seq![dead], after, choose_live);
    lemma_filter_map_concat(before, seq![dead], choose_live);
    lemma_filter_map_concat(before, after, choose_live);
    Seq::lemma_filter_map_singleton(dead, choose_live);
    assert(live_members(before + seq![dead] + after, now) =~= live_members(before + after, now));
}

/// A membership past its deadline is gone: the deadline itself no longer counts.
pub proof fn law_expired_membership_is_gone(event: StateEventView, now: u64)
    requires
        is_expired(event, now),
    ensures
        live(event, now) is None,
{
}

/// Whether two lists hold the same events.
pub open spec fn same_events(a: Seq<StateEventView>, b: Seq<StateEventView>) -> bool {
    forall|event: StateEventView| a.contains(event) <==> #[trigger] b.contains(event)
}

/// Whether every event has a state key of its own, as in a room's state.
pub open spec fn distinct_keys(events: Seq<StateEventView>) -> bool {
    forall|i: int, j: int|
        0 <= i < j < events.len() ==> (#[trigger] events[i]).state_key != (
        #[trigger] events[j]).state_key
}

proof fn lemma_live_keys_distinct(events: Seq<StateEventView>, now: u64)
    requires
        distinct_keys(events),
    ensures
        forall|i: int, j: int|
            0 <= i < j < live_members(events, now).len() ==> (#[trigger] live_members(
                events,
                now,
            )[i]).event.state_key != (#[trigger] live_members(events, now)[j]).event.state_key,
    decreases events.len(),
{
    let choose_live = |event: StateEventView| live(event, now);
    let all = live_members(events, now);
    if events.len() > 0 {
        let rest = events.drop_last();
        assert(distinct_keys(rest)) by {
            assert forall|i: int, j: int| 0 <= i < j < rest.len() implies (
            #[trigger] rest[i]).state_key != (#[trigger] rest[j]).state_key by {
                assert(rest[i] == events[i] && rest[j] == events[j]);
            }
        }
        lemma_live_keys_distinct(rest, now);
        let earlier = live_members(rest, now);
        assert forall|i: int, j: int| 0 <= i < j < all.len() implies (
        #[trigger] all[i]).event.state_key != (#[trigger] all[j]).event.state_key by {
            assert(all[i] == earlier[i]);
            if j < earlier.len() {
                assert(all[j] == earlier[j]);
            } else {
                assert(rest.filter_map(choose_live).contains(earlier[i]));
                rest.lemma_filter_map_contains(choose_live, earlier[i]);
                let event = choose|event: StateEventView| #[trigger]
                    rest.contains(event) && choose_live(event) == Some(earlier[i]);
                let at = choose|k: int| 0 <= k < rest.len() && rest[k] == event;
                assert(events[at] == event);
                assert(events[events.len() - 1] == events.last());
                assert(all[j].event == events.last());
            }
        }
    }
}

proof fn lemma_same_live(
    a: Seq<StateEventView>,
    b: Seq<StateEventView>,
    now: u64,
    member: LiveView,
)
    requires
        same_events(a, b),
        live_members(a, now).contains(member),
    ensures
        live_members(b, now).contains(member),
{
    let choose_live = |event: StateEventView| live(event, now);
    a.lemma_filter_map_contains(choose_live, member);
    let event = choose|event: StateEventView| #[trigger]
        a.contains(event) && choose_live(event) == Some(member);
    assert(b.contains(event));
    lemma_filter_map_holds(b, choose_live, event);
}

proof fn lemma_oldest_carries_over(
    a: Seq<StateEventView>,
    b: Seq<StateEventView>,
    now: u64,
    slot_id: Seq<char>,
    i: int,
) -> (k: int)
    requires
        same_events(a, b),
        distinct_keys(a),
        distinct_keys(b),
        is_oldest(live_members(a, now), slot_id, i),
    ensures
        is_oldest(live_members(b, now), slot_id, k),
        live_members(b, now)[k] == live_members(a, now)[i],
{
    let left = live_members(a, now);
    let right = live_members(b, now);
    assert(left.contains(left[i]));
    lemma_same_live(a, b, now, left[i]);
    lemma_live_keys_distinct(a, now);
    lemma_live_keys_distinct(b, now);
    let k = choose|k: int| 0 <= k < right.len() && right[k] == left[i];
    assert forall|j: int| 0 <= j < right.len() && j != k && (#[trigger] right[j]).slot_id
        == slot_id implies is_older(right[k], right[j]) && !is_older(right[j], right[k]) by {
        assert(right.contains(right[j]));
        lemma_same_live(b, a, now, right[j]);
        let m = choose|m: int| 0 <= m < left.len() && left[m] == right[j];
        assert(right[j].event.state_key != right[k].event.state_key) by {
            if j < k {
                assert(right[j].event.state_key != right[k].event.state_key);
            } else {
                assert(right[k].event.state_key != right[j].event.state_key);
            }
        }
        assert(m != i);
        crate::compat::element_call_state::lemma_older_settles(left[i], left[m]);
        if m < i {
            assert(is_older(left[i], left[m]));
        } else {
            assert(!is_older(left[m], left[i]));
        }
    }
    assert(is_oldest(right, slot_id, k));
    k
}

/// The focus of the oldest membership does not depend on the order in which a
/// room's state is read.
proof fn lemma_oldest_focus_is_settled(
    a: Seq<StateEventView>,
    b: Seq<StateEventView>,
    now: u64,
    slot_id: Seq<char>,
)
    requires
        same_events(a, b),
        distinct_keys(a),
        distinct_keys(b),
    ensures
        oldest_focus(live_members(a, now), slot_id) == oldest_focus(live_members(b, now), slot_id),
{
    let left = live_members(a, now);
    let right = live_members(b, now);
    assert(same_events(b, a));
    if exists|i: int| is_oldest(left, slot_id, i) {
        let i = choose|i: int| is_oldest(left, slot_id, i);
        let k = lemma_oldest_carries_over(a, b, now, slot_id, i);
        crate::compat::element_call_state::lemma_oldest_unique(
            right,
            slot_id,
            k,
            choose|k: int| is_oldest(right, slot_id, k),
        );
    } else if exists|k: int| is_oldest(right, slot_id, k) {
        let k = choose|k: int| is_oldest(right, slot_id, k);
        let i = lemma_oldest_carries_over(b, a, now, slot_id, k);
        assert(is_oldest(left, slot_id, i));
    }
}

/// Whether `oldest` is the member of a slot that comes before all its others by
/// when it joined and, where that is the same, by state key.
pub open spec fn is_least(all: Seq<LiveView>, slot_id: Seq<char>, oldest: LiveView) -> bool {
    &&& all.contains(oldest)
    &&& oldest.slot_id == slot_id
    &&& forall|j: int|
        0 <= j < all.len() && (#[trigger] all[j]).slot_id == slot_id && all[j] != oldest
            ==> oldest.joined_at < all[j].joined_at || (oldest.joined_at == all[j].joined_at
            && precedes(oldest.event.state_key, all[j].event.state_key))
}

/// The focus a member publishes on in a slot with a given oldest member: its own
/// where it selects that and has one, otherwise the oldest member's, and its own
/// where that member names none.
pub open spec fn settled_focus(member: LiveView, oldest: LiveView) -> Option<JsonView> {
    if member.prefers_own_focus && member.own_focus is Some {
        member.own_focus
    } else if oldest.own_focus is Some {
        oldest.own_focus
    } else {
        member.own_focus
    }
}

/// Whether a membership publishes on the focus that its member's slot settles, and
/// states no transports if there is none.
pub open spec fn follows_oldest(
    all: Seq<LiveView>,
    member: LiveView,
    membership: StateMembershipView,
) -> bool {
    exists|oldest: LiveView|
        {
            &&& #[trigger] is_least(all, member.slot_id, oldest)
            &&& membership.content == translated_content(member, settled_focus(member, oldest))
            &&& membership.content.get("transports"@) == (match settled_focus(member, oldest) {
                Some(focus) => Some(translated_transports(focus)),
                None => None,
            })
        }
}

proof fn lemma_follows_oldest(events: Seq<StateEventView>, now: u64, i: int)
    requires
        distinct_keys(events),
        0 <= i < live_members(events, now).len(),
    ensures
        follows_oldest(
            live_members(events, now),
            live_members(events, now)[i],
            translation(events, now)[i],
        ),
{
    let all = live_members(events, now);
    let member = all[i];
    let at = crate::compat::element_call_state::lemma_oldest_exists(all, member.slot_id, i);
    crate::compat::element_call_state::lemma_oldest_unique(
        all,
        member.slot_id,
        at,
        choose|k: int| is_oldest(all, member.slot_id, k),
    );
    let oldest = all[at];
    lemma_live_keys_distinct(events, now);
    assert forall|j: int|
        0 <= j < all.len() && (#[trigger] all[j]).slot_id == member.slot_id && all[j]
            != oldest implies is_older(oldest, all[j]) by {
        if j > at {
            assert(oldest.event.state_key != all[j].event.state_key);
            crate::compat::element_call_state::lemma_older_settles(oldest, all[j]);
        }
    }
    assert(is_least(all, member.slot_id, oldest));
    assert(focus_of(member, all) == settled_focus(member, oldest));
    lemma_content_names();
}

proof fn lemma_reordered_events(a: Seq<StateEventView>, b: Seq<StateEventView>)
    requires
        a.to_multiset() == b.to_multiset(),
        distinct_keys(a),
    ensures
        same_events(a, b),
        distinct_keys(b),
{
    broadcast use vstd::seq_lib::group_to_multiset_ensures;

    assert forall|event: StateEventView| a.contains(event) <==> #[trigger] b.contains(event) by {
        assert(a.contains(event) <==> a.to_multiset().count(event) > 0);
        assert(b.contains(event) <==> b.to_multiset().count(event) > 0);
    }
    assert(a.no_duplicates());
    a.lemma_multiset_has_no_duplicates();
    b.lemma_multiset_has_no_duplicates_conv();
    assert forall|i: int, j: int| 0 <= i < j < b.len() implies (#[trigger] b[i]).state_key != (
    #[trigger] b[j]).state_key by {
        assert(b.contains(b[i]) && b.contains(b[j]));
        assert(a.contains(b[i]) && a.contains(b[j]));
        let k = choose|k: int| 0 <= k < a.len() && a[k] == b[i];
        let m = choose|m: int| 0 <= m < a.len() && a[m] == b[j];
        assert(k != m);
        if k < m {
            assert(a[k].state_key != a[m].state_key);
        } else {
            assert(a[m].state_key != a[k].state_key);
        }
    }
}

/// Two clients that read the same room state at the same time reach the same
/// memberships, each as often, whatever order they read it in: reordering events
/// with state keys of their own only reorders the memberships. Each live member
/// has one membership, which publishes on its own focus where it selects that and
/// has one, and otherwise on the focus of the member of its slot that is least by
/// when it joined and by state key, falling back to its own; with neither it
/// states no transports.
pub proof fn law_translation_ignores_order(
    a: Seq<StateEventView>,
    b: Seq<StateEventView>,
    now: u64,
)
    requires
        a.to_multiset() == b.to_multiset(),
        distinct_keys(a),
    ensures
        translation(a, now).to_multiset() == translation(b, now).to_multiset(),
        translation(a, now).len() == live_members(a, now).len(),
        forall|i: int|
            0 <= i < live_members(a, now).len() ==> follows_oldest(
                live_members(a, now),
                #[trigger] live_members(a, now)[i],
                translation(a, now)[i],
            ),
{
    lemma_reordered_events(a, b);
    assert(same_events(b, a));
    let left = live_members(a, now);
    let right = live_members(b, now);
    assert forall|member: LiveView| left.contains(member) <==> #[trigger] right.contains(
        member,
    ) by {
        if left.contains(member) {
            lemma_same_live(a, b, now, member);
        }
        if right.contains(member) {
            lemma_same_live(b, a, now, member);
        }
    }
    lemma_live_keys_distinct(a, now);
    lemma_live_keys_distinct(b, now);
    lemma_same_items_reordered(left, right);
    let to_membership = |member: LiveView| translated(member, left);
    lemma_map_reordered(left, right, to_membership);
    assert forall|k: int| 0 <= k < right.len() implies #[trigger] translated(right[k], right)
        == translated(right[k], left) by {
        lemma_oldest_focus_is_settled(a, b, now, right[k].slot_id);
    }
    assert(translation(b, now) =~= right.map_values(to_membership));
    assert(translation(a, now) =~= left.map_values(to_membership));
    assert forall|i: int| 0 <= i < left.len() implies follows_oldest(
        left,
        #[trigger] left[i],
        translation(a, now)[i],
    ) by {
        lemma_follows_oldest(a, now, i);
    }
}

/// The names of the members of a translated content are all different.
pub proof fn lemma_content_names()
    ensures
        "slot_id"@.len() == 7,
        "msc4354_sticky_key"@.len() == 18,
        "sticky_key"@.len() == 10 && "sticky_key"@[0] == 's',
        "member"@.len() == 6,
        "application"@.len() == 11,
        "created_ts"@.len() == 10 && "created_ts"@[0] == 'c',
        "transports"@.len() == 10 && "transports"@[0] == 't',
        "leave_reason"@.len() == 12,
        "id"@.len() == 2,
        "membership"@.len() == 10,
        "type"@.len() == 4,
        "m.call.intent"@.len() == 13,
        "published"@.len() == 9,
        "can_subscribe"@.len() == 13,
        ":"@.len() == 1,
{
    reveal_strlit("slot_id");
    reveal_strlit("msc4354_sticky_key");
    reveal_strlit("sticky_key");
    reveal_strlit("member");
    reveal_strlit("application");
    reveal_strlit("created_ts");
    reveal_strlit("transports");
    reveal_strlit("leave_reason");
    reveal_strlit("id");
    reveal_strlit("membership");
    reveal_strlit("type");
    reveal_strlit("m.call.intent");
    reveal_strlit("published");
    reveal_strlit("can_subscribe");
    reveal_strlit(":");
}

/// Whether a translated membership is what `content` says: a join of the live
/// membership, in its slot and under its member id, since it began.
pub open spec fn says_joined(content: ContentView, member: LiveView) -> bool {
    &&& content.slot_id == member.slot_id
    &&& content.sticky_key == member.member_id
    &&& content.member.is_join()
    &&& content.member.id == Some(member.member_id)
    &&& content.application.application_type == Some(member.application)
    &&& content.application.application_type->0.len() > 0
    &&& content.created_ts == Some(member.joined_at)
    &&& content.leave_reason is None
}

/// Every live membership is read as a join once it is translated. A focus that is
/// no object, or has no type, is left out: the member content cannot carry it.
pub proof fn law_translated_membership_is_a_join(
    event: StateEventView,
    now: u64,
    member: LiveView,
    focus: Option<JsonView>,
)
    requires
        live(event, now) == Some(member),
        focus matches Some(focus) ==> read_transport(focus) is Some,
    ensures
        read_content(translated_content(member, focus)) matches Some(content) && says_joined(
            content,
            member,
        ),
        focus matches Some(focus) ==> read_content(
            translated_content(member, Some(focus)),
        )->0.transports->0.published == seq![read_transport(focus)->0],
        focus is None ==> read_content(translated_content(member, focus))->0.transports is None,
{
    lemma_content_names();
    reveal_strlit("join");
    reveal_strlit("leave");
    assert("join"@.len() != "leave"@.len());
    let content = translated_content(member, focus);
    let stated = JsonView::object().with("id"@, JsonView::Text(member.member_id)).with(
        "membership"@,
        JsonView::Text("join"@),
    );
    assert(content.get("member"@) == Some(stated));
    assert(read_member(stated) is Some);
    assert(read_member(stated)->0.membership == Some(MembershipView::Join));
    assert(read_member(stated)->0.id == Some(member.member_id));
    let application = translated_application(member);
    assert(content.get("application"@) == Some(application));
    assert(application.get("type"@) == Some(JsonView::Text(member.application)));
    assert(read_application(application) is Some);
    assert(content.get("slot_id"@) == Some(JsonView::Text(member.slot_id)));
    assert(content.get("msc4354_sticky_key"@) == Some(JsonView::Text(member.member_id)));
    assert(content.get("sticky_key"@) is None);
    assert(content.get("leave_reason"@) is None);
    assert(content.get("created_ts"@) == Some(JsonView::number(member.joined_at)));
    assert(member.member_id.len() > 0);
    match focus {
        Some(focus) => {
            let transports = translated_transports(focus);
            assert(content.get("transports"@) == Some(transports));
            assert(transports.get("published"@) == Some(JsonView::Array(seq![focus])));
            reveal_with_fuel(read_transport_list, 2);
            reveal_with_fuel(read_text_list, 2);
            let text = focus.text_at("type"@)->0;
            assert(seq![focus].drop_last() =~= Seq::<JsonView>::empty());
            assert(seq![JsonView::Text(text)].drop_last() =~= Seq::<JsonView>::empty());
            assert(read_transport_list(seq![focus])->0 =~= seq![read_transport(focus)->0]);
            assert(read_text_list(seq![JsonView::Text(text)]) is Some);
            assert(read_transports(transports) is Some);
        },
        None => {
            assert(content.get("transports"@) is None);
        },
    }
}

/// When our membership began never moves: once it is pinned, rendering anything
/// leaves it where it is.
pub proof fn law_beginning_is_pinned(began: u64, content: JsonView, now: u64)
    ensures
        ElementCallStateDialect::began_by(Some(began), content, now) == Some(began),
{
}

/// A member content that was rendered, and when.
pub struct Rendering {
    /// The content, in the current format.
    pub content: JsonView,
    /// When it was rendered, in epoch milliseconds.
    pub now: u64,
}

/// When a membership that had not begun began in the course of several renderings,
/// by whichever copies of its dialect.
pub open spec fn began_in(renderings: Seq<Rendering>) -> Option<u64>
    decreases renderings.len(),
{
    if renderings.len() == 0 {
        None
    } else {
        ElementCallStateDialect::began_by(
            began_in(renderings.drop_last()),
            renderings.last().content,
            renderings.last().now,
        )
    }
}

/// Whether `renderings[first]` is the first of several renderings that is of a
/// membership.
pub open spec fn is_first_membership(renderings: Seq<Rendering>, first: int) -> bool {
    &&& 0 <= first < renderings.len()
    &&& ElementCallStateDialect::renders(renderings[first].content)
    &&& forall|i: int|
        0 <= i < first ==> !ElementCallStateDialect::renders((#[trigger] renderings[i]).content)
}

proof fn lemma_began_in(renderings: Seq<Rendering>, first: int)
    requires
        is_first_membership(renderings, first),
    ensures
        began_in(renderings) == Some(renderings[first].now),
    decreases renderings.len(),
{
    let earlier = renderings.drop_last();
    if first < earlier.len() {
        assert forall|i: int| 0 <= i < first implies !ElementCallStateDialect::renders(
            (#[trigger] earlier[i]).content,
        ) by {
            assert(earlier[i] == renderings[i]);
        }
        lemma_began_in(earlier, first);
    } else {
        lemma_not_begun(earlier);
    }
}

proof fn lemma_not_begun(renderings: Seq<Rendering>)
    requires
        forall|i: int|
            0 <= i < renderings.len() ==> !ElementCallStateDialect::renders(
                (#[trigger] renderings[i]).content,
            ),
    ensures
        began_in(renderings) is None,
    decreases renderings.len(),
{
    if renderings.len() > 0 {
        assert(renderings[renderings.len() - 1] == renderings.last());
        lemma_not_begun(renderings.drop_last());
    }
}

/// Every rendering of a membership states one beginning, the time of the first:
/// whatever was rendered before, by the dialect itself or by copies of it made
/// before or after the first, the rendering `renderings[k]` states it, and a
/// deadline of one lifetime from when it is rendered; four hours, where no
/// lifetime is given. Nothing of the current format remains in it. Only a clock
/// that went back behind the beginning and a deadline that no number can hold are
/// left out.
pub proof fn law_every_rendering_states_the_beginning(
    dialect: ElementCallStateDialect,
    renderings: Seq<Rendering>,
    first: int,
    k: int,
    lifetime: Option<u64>,
)
    requires
        is_first_membership(renderings, first),
        first <= k < renderings.len(),
        ElementCallStateDialect::renders(renderings[k].content),
        renderings[first].now <= renderings[k].now,
        renderings[k].now - renderings[first].now + lifetime_or_default(lifetime) <= u64::MAX,
    ensures
        ({
            let began = renderings[first].now;
            let now = renderings[k].now;
            let sent = dialect.rendered(
                began_in(renderings.take(k)),
                renderings[k].content,
                lifetime,
                now,
            );
            let expires = (now - began + lifetime_or_default(lifetime)) as u64;
            &&& sent.get("created_ts"@) == Some(JsonView::number(began))
            &&& sent.get("expires"@) == Some(JsonView::number(expires))
            &&& began + expires == now + lifetime_or_default(lifetime)
            &&& sent.get("slot_id"@) is None
            &&& sent.get("member"@) is None
            &&& sent.get("transports"@) is None
        }),
        began_in(renderings.take(k + 1)) == Some(renderings[first].now),
{
    let so_far = renderings.take(k + 1);
    assert forall|i: int| 0 <= i < first implies !ElementCallStateDialect::renders(
        (#[trigger] so_far[i]).content,
    ) by {
        assert(so_far[i] == renderings[i]);
    }
    lemma_began_in(so_far, first);
    assert(so_far.drop_last() =~= renderings.take(k));
    assert(so_far.last() == renderings[k]);
    lemma_state_names();
    lemma_content_names();
    reveal_strlit("scope");
    reveal_strlit("slot_id");
    reveal_strlit("call_id");
    reveal_strlit("expires");
    reveal_strlit("created_ts");
    reveal_strlit("transports");
    assert("slot_id"@[0] == 's' && "call_id"@[0] == 'c' && "expires"@[0] == 'e');
    assert("created_ts"@[0] == 'c' && "transports"@[0] == 't');
    let (content, now) = (renderings[k].content, renderings[k].now);
    let sent = dialect.rendered(began_in(renderings.take(k)), content, lifetime, now);
    assert(sent == dialect.own_content(content, renderings[first].now, lifetime, now));
    assert(sent.get("created_ts"@) == Some(JsonView::number(renderings[first].now)));
}

/// The lifetime a membership is to have, the default where none is stated.
pub open spec fn lifetime_or_default(lifetime: Option<u64>) -> u64 {
    match lifetime {
        Some(lifetime) => lifetime,
        None => DEFAULT_EXPIRES_MS,
    }
}

/// Sending our membership again moves its deadline: whenever it is sent, peers
/// see it end `lifetime` after that. Only a deadline that no number can hold is
/// left out.
pub proof fn law_refresh_moves_the_deadline(created: u64, lifetime: u64, now: u64)
    requires
        created <= now,
        now - created + lifetime <= u64::MAX,
    ensures
        created + expires_after(created, Some(lifetime), now) == now + lifetime,
{
}

proof fn lemma_first_mark_bounds(text: Seq<char>, mark: char)
    ensures
        0 <= first_mark(text, mark) <= text.len(),
        first_mark(text, mark) < text.len() ==> text[first_mark(text, mark)] == mark,
    decreases text.len(),
{
    if text.len() > 0 && text[0] != mark {
        lemma_first_mark_bounds(text.drop_first(), mark);
    }
}

/// A slot id that names an application and a call is put together again from the
/// session it was split into.
proof fn lemma_slot_restored(slot_id: Seq<char>)
    requires
        first_mark(slot_id, '#') + 1 < slot_id.len(),
    ensures
        slot_id == session_application(slot_id) + "#"@ + (if session_call_id(slot_id).len() > 0 {
            session_call_id(slot_id)
        } else {
            ROOM_CALL_ID@
        }),
{
    lemma_first_mark_bounds(slot_id, '#');
    reveal_strlit("#");
    let at = first_mark(slot_id, '#');
    let rest = slot_id.skip(at + 1);
    assert(rest.len() > 0);
    assert(slot_id =~= slot_id.take(at) + "#"@ + rest);
}

/// The names of the members of a state membership are all different.
pub proof fn lemma_state_names()
    ensures
        "application"@.len() == 11 && "application"@[0] == 'a',
        "call_id"@.len() == 7 && "call_id"@[0] == 'c',
        "scope"@.len() == 5,
        "device_id"@.len() == 9,
        "membershipID"@.len() == 12 && "membershipID"@[0] == 'm',
        "created_ts"@.len() == 10,
        "expires"@.len() == 7 && "expires"@[0] == 'e',
        "focus_active"@.len() == 12 && "focus_active"@[0] == 'f',
        "foci_preferred"@.len() == 14,
        "m.call.intent"@.len() == 13,
        "memberships"@.len() == 11 && "memberships"@[0] == 'm',
        "type"@.len() == 4,
        "focus_selection"@.len() == 15,
        ":"@.len() == 1,
{
    reveal_strlit("application");
    reveal_strlit("call_id");
    reveal_strlit("scope");
    reveal_strlit("device_id");
    reveal_strlit("membershipID");
    reveal_strlit("created_ts");
    reveal_strlit("expires");
    reveal_strlit("focus_active");
    reveal_strlit("foci_preferred");
    reveal_strlit("m.call.intent");
    reveal_strlit("memberships");
    reveal_strlit("type");
    reveal_strlit("focus_selection");
    reveal_strlit(":");
}

/// What we send is what peers read: a membership we render is live for them until
/// its deadline and not a moment longer, in the slot we are in, under our member
/// id and device, on the first focus we offer, whoever else is there.
///
/// A slot id that names no application or no call is left out, for it cannot be
/// put together again; so is an event that its homeserver dates before our
/// membership began.
pub proof fn law_sent_membership_is_read_back(
    dialect: ElementCallStateDialect,
    began: Option<u64>,
    content: JsonView,
    lifetime: Option<u64>,
    sent_at: u64,
    event: StateEventView,
    now: u64,
    all: Seq<LiveView>,
)
    requires
        ElementCallStateDialect::renders(content),
        dialect.device().len() > 0,
        0 < first_mark(dialect.slot(), '#'),
        first_mark(dialect.slot(), '#') + 1 < dialect.slot().len(),
        event.sender == dialect.user(),
        event.content == dialect.rendered(began, content, lifetime, sent_at),
        event.origin_server_ts >= ElementCallStateDialect::began_by(began, content, sent_at)->0,
    ensures
        ({
            let created = ElementCallStateDialect::began_by(began, content, sent_at)->0;
            let deadline = created + expires_after(created, lifetime, sent_at);
            match live(event, now) {
                Some(member) => {
                    &&& now < deadline
                    &&& member.joined_at == created
                    &&& member.slot_id == dialect.slot()
                    &&& member.member_id == identity_of(dialect.user(), dialect.device())
                    &&& member.device_id == dialect.device()
                    &&& foci_for(content, dialect.room()).len() > 0 ==> focus_of(member, all)
                        == Some(foci_for(content, dialect.room())[0])
                },
                None => now >= deadline || now == u64::MAX,
            }
        }),
{
    lemma_state_names();
    lemma_slot_restored(dialect.slot());
    let created = ElementCallStateDialect::began_by(began, content, sent_at)->0;
    let sent = event.content;
    assert(sent == dialect.own_content(content, created, lifetime, sent_at));
    assert(sent.get("created_ts"@) == Some(JsonView::number(created)));
    assert(sent.get("expires"@) == Some(
        JsonView::number(expires_after(created, lifetime, sent_at)),
    ));
    assert(joined_at(event) == created);
    assert(sent.get("memberships"@) is None);
    assert(sent.get("application"@) == Some(
        JsonView::Text(session_application(dialect.slot())),
    ));
    assert(session_application(dialect.slot()).len() > 0);
    assert(sent.get("device_id"@) == Some(JsonView::Text(dialect.device())));
    assert(sent.get("call_id"@) == Some(JsonView::Text(session_call_id(dialect.slot()))));
    assert(sent.get("membershipID"@) == Some(
        JsonView::Text(identity_of(dialect.user(), dialect.device())),
    ));
    assert(sent.get("foci_preferred"@) == Some(
        JsonView::Array(foci_for(content, dialect.room())),
    ));
    assert(sent.get_in("focus_active"@, "focus_selection"@) == Some(
        JsonView::Text("multi_sfu"@),
    ));
    assert(sent->Object_0.contains_key("application"@));
    assert(sent != JsonView::object()) by {
        assert(!Map::<Seq<char>, JsonView>::empty().contains_key("application"@));
    }
}

/// Where memberships are room state, the member id to join with is the user and
/// device, and the id that the dialect of that user and device states, in whatever
/// room and slot.
pub proof fn law_state_member_id_is_the_dialects(
    user_id: Seq<char>,
    device_id: Seq<char>,
    dialect: ElementCallStateDialect,
    began: Option<u64>,
    content: JsonView,
    lifetime: Option<u64>,
    now: u64,
)
    requires
        dialect.user() == user_id,
        dialect.device() == device_id,
        ElementCallStateDialect::renders(content),
    ensures
        identity_of(user_id, device_id) == user_id + ":"@ + device_id,
        dialect.rendered(began, content, lifetime, now).get("membershipID"@) == Some(
            JsonView::Text(identity_of(user_id, device_id)),
        ),
{
    lemma_state_names();
    let created = ElementCallStateDialect::began_by(began, content, now)->0;
    let sent = dialect.rendered(began, content, lifetime, now);
    assert(sent == dialect.own_content(content, created, lifetime, now));
    assert(sent.get("membershipID"@) == Some(JsonView::Text(identity_of(user_id, device_id))));
}

} // verus!
