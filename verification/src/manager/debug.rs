//! Everything the manager believes, for a bug report. Holds no key material.

use vstd::prelude::*;
use crate::json::{models, Json, JsonView};
use crate::manager::attendance::{lemma_counts, may_take_part};
use crate::manager::{RtcSessionManager, SessionEntry, SessionKey};
use crate::roster::{holds_text, RtcSession};
use crate::session::JoinedMembership;
use crate::slot::{RawSlotEvent, RoomEncryption, SlotState};
use crate::table::TextMap;
use crate::text::texts;

verus! {

/// The name of what is known of a room's encryption.
pub open spec fn encryption_name(encryption: RoomEncryption) -> Seq<char> {
    match encryption {
        RoomEncryption::Unknown => "Unknown"@,
        RoomEncryption::Encrypted => "Encrypted"@,
        RoomEncryption::Unencrypted => "Unencrypted"@,
    }
}

/// Whether each room is encrypted.
pub open spec fn room_encryption_json(rooms: Map<Seq<char>, RoomEncryption>) -> JsonView {
    JsonView::Object(
        rooms.map_values(
            |encryption: RoomEncryption| JsonView::Text(encryption_name(encryption)),
        ),
    )
}

/// How many users are in each room.
pub open spec fn room_members_json(rooms: Map<Seq<char>, Vec<String>>) -> JsonView {
    JsonView::Object(
        rooms.map_values(|users: Vec<String>| JsonView::number(users@.len() as u64)),
    )
}

/// The texts of a list, as an array.
pub open spec fn texts_json(list: Seq<Seq<char>>) -> JsonView {
    JsonView::Array(list.map_values(|text: Seq<char>| JsonView::Text(text)))
}

/// Of several equal texts, only the first.
pub open spec fn distinct_texts(list: Seq<Seq<char>>) -> Seq<Seq<char>>
    decreases list.len(),
{
    if list.len() == 0 {
        Seq::empty()
    } else {
        let earlier = distinct_texts(list.drop_last());
        if earlier.contains(list.last()) {
            earlier
        } else {
            earlier.push(list.last())
        }
    }
}

/// A session in words: `room/slot`.
pub open spec fn session_words(room_id: Seq<char>, slot_id: Seq<char>) -> Seq<char> {
    room_id + "/"@ + slot_id
}

/// The slots that slot events are about, in words.
pub open spec fn slot_words(slots: Seq<RawSlotEvent>) -> Seq<Seq<char>> {
    slots.map_values(|slot: RawSlotEvent| session_words(slot.room_id@, slot.slot_id@))
}

/// A candidate of a session, and whether it counts as joined.
pub open spec fn candidate_json(session: RtcSession, candidate: JoinedMembership) -> JsonView {
    JsonView::object().with("sender"@, JsonView::Text(candidate.sender@)).with(
        "member_id"@,
        JsonView::Text(candidate.member_id@),
    ).with("joined"@, JsonView::Bool(session.counts(candidate)))
}

/// What is believed of a session.
pub open spec fn session_json(session: RtcSession) -> JsonView {
    JsonView::object().with(
        "candidates"@,
        JsonView::Array(
            session.candidates@.map_values(
                |candidate: JoinedMembership| candidate_json(session, candidate),
            ),
        ),
    ).with("members"@, JsonView::number(session.roster().len() as u64)).with(
        "slot_open"@,
        match session.slot {
            Some(slot) => JsonView::Bool(slot is Open),
            None => JsonView::Null,
        },
    ).with(
        "own_member_id"@,
        match session.own {
            Some(own) => JsonView::Text(own.member_id()),
            None => JsonView::Null,
        },
    )
}

/// What is believed of every session, under its name.
pub open spec fn sessions_json(sessions: Seq<SessionEntry>) -> JsonView
    decreases sessions.len(),
{
    if sessions.len() == 0 {
        JsonView::object()
    } else {
        let last = sessions.last();
        sessions_json(sessions.drop_last()).with(
            session_words(last.key.room_id@, last.key.slot_id@),
            session_json(last.session),
        )
    }
}

/// Everything the manager believes.
pub open spec fn snapshot_json(manager: RtcSessionManager) -> JsonView {
    JsonView::object().with("has_command_sender"@, JsonView::Bool(manager.has_sender)).with(
        "session_count"@,
        JsonView::number(manager.sessions@.len() as u64),
    ).with("rooms_with_slot_state"@, texts_json(texts(manager.rooms_with_slot_state@))).with(
        "known_slots"@,
        texts_json(distinct_texts(slot_words(manager.slots@))),
    ).with("room_encryption"@, room_encryption_json(manager.room_encryption@)).with(
        "room_members"@,
        room_members_json(manager.room_members@),
    ).with("sessions"@, sessions_json(manager.sessions@))
}

fn list_texts(list: &Vec<String>) -> (json: Json)
    ensures
        json@ == texts_json(texts(list@)),
{
    let mut items: Vec<Json> = Vec::new();
    let mut i: usize = 0;
    while i < list.len()
        invariant
            i <= list@.len(),
            items@.len() == i,
            forall|j: int| 0 <= j < i ==> (#[trigger] items@[j])@ == JsonView::Text(list@[j]@),
        decreases list@.len() - i,
    {
        items.push(Json::text(list[i].as_str()));
        i = i + 1;
    }
    assert(models(items@) =~= texts(list@).map_values(|text: Seq<char>| JsonView::Text(text)));
    Json::array(items)
}

fn list_slots(slots: &Vec<RawSlotEvent>) -> (json: Json)
    ensures
        json@ == texts_json(distinct_texts(slot_words(slots@))),
{
    let ghost words = slot_words(slots@);
    let mut distinct: Vec<String> = Vec::new();
    let mut i: usize = 0;
    assert(texts(distinct@) =~= distinct_texts(words.take(0)));
    while i < slots.len()
        invariant
            i <= slots@.len(),
            words == slot_words(slots@),
            texts(distinct@) == distinct_texts(words.take(i as int)),
        decreases slots@.len() - i,
    {
        let key = SessionKey::new(slots[i].room_id.clone(), slots[i].slot_id.clone());
        let name: String = key.describe();
        let ghost before = distinct@;
        proof {
            assert(words.take(i + 1).drop_last() =~= words.take(i as int));
            assert(words.take(i + 1).last() == name@);
        }
        if !holds_text(&distinct, name.as_str()) {
            distinct.push(name);
            assert(texts(distinct@) =~= texts(before).push(name@));
        }
        i = i + 1;
    }
    assert(words.take(words.len() as int) =~= words);
    list_texts(&distinct)
}

fn name_of(encryption: &RoomEncryption) -> (name: &'static str)
    ensures
        name@ == encryption_name(*encryption),
{
    match encryption {
        RoomEncryption::Unknown => "Unknown",
        RoomEncryption::Encrypted => "Encrypted",
        RoomEncryption::Unencrypted => "Unencrypted",
    }
}

/// Whether an object says `f` of the values under the first `count` keys of a map,
/// and nothing else.
spec fn says_of_first<V>(
    json: JsonView,
    map: TextMap<V>,
    f: spec_fn(V) -> JsonView,
    count: int,
) -> bool {
    &&& json is Object
    &&& forall|key: Seq<char>|
        #![trigger json->Object_0.contains_key(key)]
        json->Object_0.contains_key(key) <==> map.order().take(count).contains(key)
    &&& forall|key: Seq<char>|
        #![trigger json->Object_0[key]]
        map.order().take(count).contains(key) ==> json->Object_0[key] == f(map@[key])
}

proof fn lemma_says_next<V>(
    json: JsonView,
    map: TextMap<V>,
    f: spec_fn(V) -> JsonView,
    count: int,
)
    requires
        says_of_first(json, map, f, count),
        0 <= count < map.order().len(),
    ensures
        says_of_first(
            json.with(map.order()[count], f(map@[map.order()[count]])),
            map,
            f,
            count + 1,
        ),
{
    let order = map.order();
    let (so_far, next) = (order.take(count), order.take(count + 1));
    assert(next =~= so_far.push(order[count]));
    assert forall|key: Seq<char>| next.contains(key) <==> so_far.contains(key) || key
        == order[count] by {
        if so_far.contains(key) {
            let i = choose|i: int| 0 <= i < so_far.len() && so_far[i] == key;
            assert(next[i] == key);
        }
        if key == order[count] {
            assert(next[count] == key);
        }
        if next.contains(key) && key != order[count] {
            let i = choose|i: int| 0 <= i < next.len() && next[i] == key;
            assert(so_far[i] == key);
        }
    }
}

proof fn lemma_says_all<V>(json: JsonView, map: TextMap<V>, f: spec_fn(V) -> JsonView)
    requires
        says_of_first(json, map, f, map.order().len() as int),
        map.lists_its_keys(),
    ensures
        json == JsonView::Object(map@.map_values(f)),
{
    assert(map.order().take(map.order().len() as int) =~= map.order());
    assert(json->Object_0 =~= map@.map_values(f));
}

fn describe_encryption(rooms: &TextMap<RoomEncryption>) -> (json: Json)
    ensures
        json@ == room_encryption_json(rooms@),
{
    let ghost f = |encryption: RoomEncryption| JsonView::Text(encryption_name(encryption));
    let mut json: Json = Json::object();
    let count: usize = rooms.len();
    let mut i: usize = 0;
    assert(rooms.order().take(0) =~= Seq::<Seq<char>>::empty());
    while i < count
        invariant
            count == rooms.order().len(),
            i <= count,
            f == (|encryption: RoomEncryption| JsonView::Text(encryption_name(encryption))),
            says_of_first(json@, *rooms, f, i as int),
        decreases count - i,
    {
        proof {
            lemma_says_next(json@, *rooms, f, i as int);
        }
        json = json.with(rooms.key_at(i), Json::text(name_of(rooms.value_at(i))));
        i = i + 1;
    }
    proof {
        lemma_says_all(json@, *rooms, f);
    }
    json
}

fn describe_members(rooms: &TextMap<Vec<String>>) -> (json: Json)
    ensures
        json@ == room_members_json(rooms@),
{
    let ghost f = |users: Vec<String>| JsonView::number(users@.len() as u64);
    let mut json: Json = Json::object();
    let count: usize = rooms.len();
    let mut i: usize = 0;
    assert(rooms.order().take(0) =~= Seq::<Seq<char>>::empty());
    while i < count
        invariant
            count == rooms.order().len(),
            i <= count,
            f == (|users: Vec<String>| JsonView::number(users@.len() as u64)),
            says_of_first(json@, *rooms, f, i as int),
        decreases count - i,
    {
        proof {
            lemma_says_next(json@, *rooms, f, i as int);
        }
        json = json.with(rooms.key_at(i), Json::number(rooms.value_at(i).len() as u64));
        i = i + 1;
    }
    proof {
        lemma_says_all(json@, *rooms, f);
    }
    json
}

impl RtcSession {
    /// Everything believed of the session, as JSON.
    pub fn debug_snapshot(&self) -> (json: Json)
        ensures
            json@ == session_json(*self),
    {
        let mut candidates: Vec<Json> = Vec::new();
        let mut i: usize = 0;
        while i < self.candidates.len()
            invariant
                i <= self.candidates@.len(),
                candidates@.len() == i,
                forall|j: int|
                    0 <= j < i ==> (#[trigger] candidates@[j])@ == candidate_json(
                        *self,
                        self.candidates@[j],
                    ),
            decreases self.candidates@.len() - i,
        {
            let candidate: &JoinedMembership = &self.candidates[i];
            candidates.push(
                Json::object().with("sender", Json::text(candidate.sender.as_str())).with(
                    "member_id",
                    Json::text(candidate.member_id.as_str()),
                ).with("joined", Json::Bool(self.is_joined(candidate))),
            );
            i = i + 1;
        }
        assert(models(candidates@) =~= self.candidates@.map_values(
            |candidate: JoinedMembership| candidate_json(*self, candidate),
        ));
        let slot: Json = match &self.slot {
            Some(slot) => Json::Bool(slot.is_open()),
            None => Json::Null,
        };
        let own: Json = match self.own_member_id() {
            Some(id) => Json::text(id),
            None => Json::Null,
        };
        Json::object().with("candidates", Json::array(candidates)).with(
            "members",
            Json::number(self.member_count() as u64),
        ).with("slot_open", slot).with("own_member_id", own)
    }
}

impl RtcSessionManager {
    /// Everything the manager and its sessions believe, as JSON: which sessions
    /// there are, what is known of their rooms, and which candidates are in. Meant
    /// for a bug report; it holds no key material.
    pub fn debug_snapshot(&self) -> (json: Json)
        ensures
            json@ == snapshot_json(*self),
    {
        let mut sessions: Json = Json::object();
        let mut i: usize = 0;
        assert(self.sessions@.take(0) =~= Seq::<SessionEntry>::empty());
        while i < self.sessions.len()
            invariant
                i <= self.sessions@.len(),
                sessions@ == sessions_json(self.sessions@.take(i as int)),
            decreases self.sessions@.len() - i,
        {
            proof {
                let next = self.sessions@.take(i + 1);
                assert(next.drop_last() =~= self.sessions@.take(i as int));
                assert(next.last() == self.sessions@[i as int]);
            }
            let entry: &SessionEntry = &self.sessions[i];
            let name: String = entry.key.describe();
            sessions = sessions.with(name.as_str(), entry.session.debug_snapshot());
            i = i + 1;
        }
        assert(self.sessions@.take(self.sessions@.len() as int) =~= self.sessions@);
        Json::object().with("has_command_sender", Json::Bool(self.has_sender)).with(
            "session_count",
            Json::number(self.sessions.len() as u64),
        ).with("rooms_with_slot_state", list_texts(&self.rooms_with_slot_state)).with(
            "known_slots",
            list_slots(&self.slots),
        ).with("room_encryption", describe_encryption(&self.room_encryption)).with(
            "room_members",
            describe_members(&self.room_members),
        ).with("sessions", sessions)
    }
}

/// What is told of a session: everybody who says they are in it, by user and member id
/// and with whether they are; how many are; whether the slot is open, where that is
/// known; and our own member id, while we are in it.
pub proof fn law_session_is_told_as_it_is(session: RtcSession)
    ensures
        ({
            let told = session_json(session);
            &&& told.get("members"@) == Some(JsonView::number(session.roster().len() as u64))
            &&& told.get("slot_open"@) == Some(
                match session.slot {
                    Some(SlotState::Open(_)) => JsonView::Bool(true),
                    Some(SlotState::Closed) => JsonView::Bool(false),
                    None => JsonView::Null,
                },
            )
            &&& told.get("own_member_id"@) == Some(
                match session.own {
                    Some(own) => JsonView::Text(own.membership.sticky_key@),
                    None => JsonView::Null,
                },
            )
            &&& told.get("candidates"@) matches Some(JsonView::Array(candidates))
                && candidates.len() == session.candidates@.len() && forall|i: int|
                0 <= i < candidates.len() ==> {
                    let candidate = session.candidates@[i];
                    &&& (#[trigger] candidates[i]).get("sender"@) == Some(
                        JsonView::Text(candidate.sender@),
                    )
                    &&& candidates[i].get("member_id"@) == Some(
                        JsonView::Text(candidate.member_id@),
                    )
                    &&& candidates[i].get("joined"@) == Some(
                        JsonView::Bool(may_take_part(session, candidate)),
                    )
                }
        }),
{
    reveal_strlit("candidates");
    reveal_strlit("members");
    reveal_strlit("slot_open");
    reveal_strlit("own_member_id");
    reveal_strlit("sender");
    reveal_strlit("member_id");
    reveal_strlit("joined");
    assert("candidates"@.len() == 10 && "members"@.len() == 7 && "slot_open"@.len() == 9);
    assert("own_member_id"@.len() == 13 && "sender"@.len() == 6 && "member_id"@.len() == 9);
    assert("joined"@.len() == 6 && "joined"@[0] == 'j' && "sender"@[0] == 's');
    let told = session_json(session);
    let candidates = told.get("candidates"@)->0->Array_0;
    assert forall|i: int| 0 <= i < candidates.len() implies {
        let candidate = session.candidates@[i];
        &&& (#[trigger] candidates[i]).get("sender"@) == Some(JsonView::Text(candidate.sender@))
        &&& candidates[i].get("member_id"@) == Some(JsonView::Text(candidate.member_id@))
        &&& candidates[i].get("joined"@) == Some(
            JsonView::Bool(may_take_part(session, candidate)),
        )
    } by {
        lemma_counts(session, session.candidates@[i]);
    }
}

/// What is told of the manager: whether it can send, how many sessions there are, every
/// session under its name, the rooms whose slots are known, and of every room that is
/// known how many users are in it and whether it is encrypted.
pub proof fn law_manager_is_told_as_it_is(
    manager: RtcSessionManager,
    room_id: Seq<char>,
    i: int,
)
    requires
        0 <= i < manager.sessions@.len(),
        forall|j: int|
            i < j < manager.sessions@.len() ==> (#[trigger] manager.sessions@[j]).key.room_id@
                + "/"@ + manager.sessions@[j].key.slot_id@ != manager.sessions@[i].key.room_id@
                + "/"@ + manager.sessions@[i].key.slot_id@,
    ensures
        ({
            let told = snapshot_json(manager);
            let key = manager.sessions@[i].key;
            &&& told.get("has_command_sender"@) == Some(JsonView::Bool(manager.has_sender))
            &&& told.get("session_count"@) == Some(
                JsonView::number(manager.sessions@.len() as u64),
            )
            &&& told.get_in("sessions"@, key.room_id@ + "/"@ + key.slot_id@) == Some(
                session_json(manager.sessions@[i].session),
            )
            &&& told.get_in("room_members"@, room_id) == (if manager.room_members@.contains_key(
                room_id,
            ) {
                Some(JsonView::number(manager.room_members@[room_id]@.len() as u64))
            } else {
                None
            })
            &&& told.get_in("room_encryption"@, room_id) == (
            if manager.room_encryption@.contains_key(room_id) {
                Some(
                    JsonView::Text(
                        match manager.room_encryption@[room_id] {
                            RoomEncryption::Unknown => "Unknown"@,
                            RoomEncryption::Encrypted => "Encrypted"@,
                            RoomEncryption::Unencrypted => "Unencrypted"@,
                        },
                    ),
                )
            } else {
                None
            })
            &&& told.get("rooms_with_slot_state"@) matches Some(JsonView::Array(rooms))
                && rooms.len() == manager.rooms_with_slot_state@.len() && forall|r: int|
                0 <= r < rooms.len() ==> #[trigger] rooms[r] == JsonView::Text(
                    manager.rooms_with_slot_state@[r]@,
                )
        }),
{
    reveal_strlit("has_command_sender");
    reveal_strlit("session_count");
    reveal_strlit("rooms_with_slot_state");
    reveal_strlit("known_slots");
    reveal_strlit("room_encryption");
    reveal_strlit("room_members");
    reveal_strlit("sessions");
    assert("has_command_sender"@.len() == 18 && "session_count"@.len() == 13);
    assert("rooms_with_slot_state"@.len() == 21 && "known_slots"@.len() == 11);
    assert("room_encryption"@.len() == 15 && "room_members"@.len() == 12);
    assert("sessions"@.len() == 8);
    lemma_session_is_told(manager.sessions@, i);
}

proof fn lemma_session_is_told(sessions: Seq<SessionEntry>, i: int)
    requires
        0 <= i < sessions.len(),
        forall|j: int|
            i < j < sessions.len() ==> (#[trigger] sessions[j]).key.room_id@ + "/"@
                + sessions[j].key.slot_id@ != sessions[i].key.room_id@ + "/"@
                + sessions[i].key.slot_id@,
    ensures
        sessions_json(sessions) is Object,
        sessions_json(sessions).get(
            sessions[i].key.room_id@ + "/"@ + sessions[i].key.slot_id@,
        ) == Some(session_json(sessions[i].session)),
    decreases sessions.len(),
{
    let rest = sessions.drop_last();
    lemma_sessions_are_an_object(rest);
    if i < rest.len() {
        assert forall|j: int| i < j < rest.len() implies (#[trigger] rest[j]).key.room_id@ + "/"@
            + rest[j].key.slot_id@ != rest[i].key.room_id@ + "/"@ + rest[i].key.slot_id@ by {
            assert(rest[j] == sessions[j]);
        }
        lemma_session_is_told(rest, i);
        assert(sessions[sessions.len() - 1].key.room_id@ + "/"@ + sessions[sessions.len()
            - 1].key.slot_id@ != sessions[i].key.room_id@ + "/"@ + sessions[i].key.slot_id@);
    }
}

proof fn lemma_sessions_are_an_object(sessions: Seq<SessionEntry>)
    ensures
        sessions_json(sessions) is Object,
    decreases sessions.len(),
{
    if sessions.len() > 0 {
        lemma_sessions_are_an_object(sessions.drop_last());
    }
}

/// The slots that are told of are those of the slot events that are known, each once.
pub proof fn law_known_slots_are_told_once(
    manager: RtcSessionManager,
    room_id: Seq<char>,
    slot_id: Seq<char>,
)
    ensures
        ({
            let told = snapshot_json(manager).get("known_slots"@);
            &&& told is Some && told->0 is Array
            &&& told->0->Array_0.contains(JsonView::Text(room_id + "/"@ + slot_id)) <==> exists|
                k: int,
            |
                0 <= k < manager.slots@.len() && (#[trigger] manager.slots@[k]).room_id@ + "/"@
                    + manager.slots@[k].slot_id@ == room_id + "/"@ + slot_id
            &&& told->0->Array_0.no_duplicates()
        }),
{
    reveal_strlit("has_command_sender");
    reveal_strlit("session_count");
    reveal_strlit("rooms_with_slot_state");
    reveal_strlit("known_slots");
    reveal_strlit("room_encryption");
    reveal_strlit("room_members");
    reveal_strlit("sessions");
    assert("has_command_sender"@.len() == 18 && "session_count"@.len() == 13);
    assert("rooms_with_slot_state"@.len() == 21 && "known_slots"@.len() == 11);
    assert("room_encryption"@.len() == 15 && "room_members"@.len() == 12);
    assert("sessions"@.len() == 8);
    let words = slot_words(manager.slots@);
    let distinct = distinct_texts(words);
    let items = snapshot_json(manager).get("known_slots"@)->0->Array_0;
    let name = room_id + "/"@ + slot_id;
    assert(items == distinct.map_values(|text: Seq<char>| JsonView::Text(text)));
    lemma_distinct_texts(words);
    if items.contains(JsonView::Text(name)) {
        let i = choose|i: int| 0 <= i < items.len() && items[i] == JsonView::Text(name);
        assert(distinct[i] == name);
        assert(distinct.contains(name));
        assert(words.contains(name));
        let k = choose|k: int| 0 <= k < words.len() && words[k] == name;
        assert(manager.slots@[k].room_id@ + "/"@ + manager.slots@[k].slot_id@ == name);
    }
    if exists|k: int|
        0 <= k < manager.slots@.len() && (#[trigger] manager.slots@[k]).room_id@ + "/"@
            + manager.slots@[k].slot_id@ == name {
        let k = choose|k: int|
            0 <= k < manager.slots@.len() && (#[trigger] manager.slots@[k]).room_id@ + "/"@
                + manager.slots@[k].slot_id@ == name;
        assert(words[k] == name);
        assert(words.contains(name));
        assert(distinct.contains(name));
        let i = choose|i: int| 0 <= i < distinct.len() && distinct[i] == name;
        assert(items[i] == JsonView::Text(name));
    }
    assert forall|i: int, j: int|
        0 <= i < items.len() && 0 <= j < items.len() && i != j implies items[i] != items[j] by {
        assert(items[i] == JsonView::Text(distinct[i]) && items[j] == JsonView::Text(distinct[j]));
    }
}

proof fn lemma_distinct_texts(list: Seq<Seq<char>>)
    ensures
        distinct_texts(list).no_duplicates(),
        forall|text: Seq<char>| #[trigger]
            distinct_texts(list).contains(text) <==> list.contains(text),
    decreases list.len(),
{
    if list.len() > 0 {
        let rest = list.drop_last();
        let fewer = distinct_texts(rest);
        let all = distinct_texts(list);
        lemma_distinct_texts(rest);
        assert forall|text: Seq<char>| #[trigger] all.contains(text) <==> list.contains(text) by {
            assert(fewer.contains(text) <==> rest.contains(text));
            if all.contains(text) {
                let i = choose|i: int| 0 <= i < all.len() && all[i] == text;
                if i < fewer.len() {
                    assert(fewer[i] == text);
                    let k = choose|k: int| 0 <= k < rest.len() && rest[k] == text;
                    assert(list[k] == text);
                } else {
                    assert(list[list.len() - 1] == text);
                }
            }
            if list.contains(text) {
                let k = choose|k: int| 0 <= k < list.len() && list[k] == text;
                if k < rest.len() {
                    assert(rest[k] == text);
                    let i = choose|i: int| 0 <= i < fewer.len() && fewer[i] == text;
                    assert(all[i] == text);
                } else if fewer.contains(text) {
                    let i = choose|i: int| 0 <= i < fewer.len() && fewer[i] == text;
                    assert(all[i] == text);
                } else {
                    assert(all[fewer.len() as int] == text);
                }
            }
        }
    }
}

} // verus!
