//! JSON values and the handful of operations the wire formats need.
//!
//! A value is modelled by [`JsonView`]: an array is a sequence of models, an
//! object a map from key to model. Member order is therefore not part of what a
//! value *is*; where a member list repeats a key, its first occurrence counts.

use vstd::prelude::*;
use crate::text::same_text;

verus! {

/// A JSON number: a non-negative integer that fits 64 bits, or any other number
/// by its literal text.
#[derive(Debug)]
pub enum JsonNumber {
    /// A non-negative integer of at most 64 bits.
    Unsigned(u64),
    /// Anything else (negative, fractional, larger), as it was written.
    Other(String),
}

/// A JSON value.
#[derive(Debug)]
pub enum Json {
    /// `null`
    Null,
    /// `true` or `false`
    Bool(bool),
    /// A number.
    Number(JsonNumber),
    /// A string.
    Text(String),
    /// An array.
    Array(Vec<Json>),
    /// An object.
    Object(Vec<JsonMember>),
}

/// One `key: value` pair of a JSON object.
#[derive(Debug)]
pub struct JsonMember {
    /// The member's name.
    pub key: String,
    /// The member's value.
    pub value: Json,
}

/// Model of a [`JsonNumber`].
#[verifier::ext_equal]
pub enum NumberView {
    /// See [`JsonNumber::Unsigned`].
    Unsigned(u64),
    /// See [`JsonNumber::Other`].
    Other(Seq<char>),
}

/// Model of a [`Json`] value.
#[verifier::ext_equal]
pub enum JsonView {
    /// `null`
    Null,
    /// `true` or `false`
    Bool(bool),
    /// A number.
    Number(NumberView),
    /// A string.
    Text(Seq<char>),
    /// An array.
    Array(Seq<JsonView>),
    /// An object.
    Object(Map<Seq<char>, JsonView>),
}

impl JsonView {
    /// The object with no members.
    pub open spec fn object() -> JsonView {
        JsonView::Object(Map::empty())
    }

    /// A non-negative integer.
    pub open spec fn number(n: u64) -> JsonView {
        JsonView::Number(NumberView::Unsigned(n))
    }

    /// This object with `key` set to `value`; anything but an object is itself.
    pub open spec fn with(self, key: Seq<char>, value: JsonView) -> JsonView {
        match self {
            JsonView::Object(members) => JsonView::Object(members.insert(key, value)),
            other => other,
        }
    }

    /// The member under `key`, where this is an object that has one.
    pub open spec fn get(self, key: Seq<char>) -> Option<JsonView> {
        match self {
            JsonView::Object(members) => if members.contains_key(key) {
                Some(members[key])
            } else {
                None
            },
            _ => None,
        }
    }

    /// The member under `inner` of the member under `outer`.
    pub open spec fn get_in(self, outer: Seq<char>, inner: Seq<char>) -> Option<JsonView> {
        match self.get(outer) {
            Some(value) => value.get(inner),
            None => None,
        }
    }

    /// The text, where this is a string.
    pub open spec fn as_text(self) -> Option<Seq<char>> {
        match self {
            JsonView::Text(text) => Some(text),
            _ => None,
        }
    }

    /// The string under `key`, where there is one.
    pub open spec fn text_at(self, key: Seq<char>) -> Option<Seq<char>> {
        match self.get(key) {
            Some(JsonView::Text(text)) => Some(text),
            _ => None,
        }
    }

    /// The non-empty string under `key`, where there is one.
    pub open spec fn nonempty_text_at(self, key: Seq<char>) -> Option<Seq<char>> {
        match self.get(key) {
            Some(JsonView::Text(text)) => if text.len() > 0 {
                Some(text)
            } else {
                None
            },
            _ => None,
        }
    }

    /// The 64-bit non-negative integer under `key`, where there is one.
    pub open spec fn number_at(self, key: Seq<char>) -> Option<u64> {
        match self.get(key) {
            Some(JsonView::Number(NumberView::Unsigned(n))) => Some(n),
            _ => None,
        }
    }

    /// The items, where this is an array.
    pub open spec fn items(self) -> Option<Seq<JsonView>> {
        match self {
            JsonView::Array(items) => Some(items),
            _ => None,
        }
    }
}

/// Whether `members[i]` is the first member named `key`.
pub open spec fn is_first(members: Seq<JsonMember>, key: Seq<char>, i: int) -> bool {
    &&& 0 <= i < members.len()
    &&& members[i].key@ == key
    &&& forall|j: int| 0 <= j < i ==> (#[trigger] members[j]).key@ != key
}

/// Whether some member is named `key`.
pub open spec fn has_member(members: Seq<JsonMember>, key: Seq<char>) -> bool {
    exists|i: int| is_first(members, key, i)
}

/// The position of the first member named `key`, where there is one.
pub open spec fn first_at(members: Seq<JsonMember>, key: Seq<char>) -> int {
    choose|i: int| is_first(members, key, i)
}

impl View for JsonNumber {
    type V = NumberView;

    open spec fn view(&self) -> NumberView {
        match self {
            JsonNumber::Unsigned(n) => NumberView::Unsigned(*n),
            JsonNumber::Other(text) => NumberView::Other(text@),
        }
    }
}

impl Json {
    /// What this value is, with member order and representation set aside.
    pub open spec fn model(self) -> JsonView
        decreases self,
    {
        match self {
            Json::Null => JsonView::Null,
            Json::Bool(b) => JsonView::Bool(b),
            Json::Number(n) => JsonView::Number(n@),
            Json::Text(text) => JsonView::Text(text@),
            Json::Array(items) => JsonView::Array(
                Seq::new(
                    items@.len(),
                    |i: int|
                        if 0 <= i < items@.len() {
                            items@[i].model()
                        } else {
                            arbitrary()
                        },
                ),
            ),
            Json::Object(members) => JsonView::Object(
                Map::new(
                    |key: Seq<char>| has_member(members@, key),
                    |key: Seq<char>|
                        {
                            let i = first_at(members@, key);
                            if 0 <= i < members@.len() {
                                members@[i].value.model()
                            } else {
                                arbitrary()
                            }
                        },
                ),
            ),
        }
    }
}

impl View for Json {
    type V = JsonView;

    open spec fn view(&self) -> JsonView {
        self.model()
    }
}

/// The models of a list of values.
pub open spec fn models(items: Seq<Json>) -> Seq<JsonView> {
    items.map_values(|item: Json| item@)
}

/// The map that a member list stands for.
pub open spec fn members_model(members: Seq<JsonMember>) -> Map<Seq<char>, JsonView> {
    Map::new(
        |key: Seq<char>| has_member(members, key),
        |key: Seq<char>| members[first_at(members, key)].value@,
    )
}

/// An array is modelled by the models of its items, an object by its member map.
pub broadcast proof fn lemma_model(json: Json)
    ensures
        json matches Json::Array(items) ==> #[trigger] json.model() == JsonView::Array(
            models(items@),
        ),
        json matches Json::Object(members) ==> json.model() == JsonView::Object(
            members_model(members@),
        ),
{
    match json {
        Json::Array(items) => {
            assert(json.model()->Array_0 =~= models(items@));
        },
        Json::Object(members) => {
            let whole = json.model()->Object_0;
            assert forall|key: Seq<char>| whole.contains_key(key) implies whole[key]
                == #[trigger] members_model(members@)[key] by {
                assert(is_first(members@, key, first_at(members@, key)));
            }
            assert(whole =~= members_model(members@));
        },
        _ => {},
    }
}

pub proof fn lemma_first_unique(members: Seq<JsonMember>, key: Seq<char>, i: int)
    requires
        is_first(members, key, i),
    ensures
        has_member(members, key),
        first_at(members, key) == i,
{
    let chosen = first_at(members, key);
    assert(is_first(members, key, chosen));
    if chosen < i {
        assert(members[chosen].key@ != key);
    }
    if i < chosen {
        assert(members[i].key@ != key);
    }
}

/// Where the first member named `key` stands.
pub fn position(members: &Vec<JsonMember>, key: &str) -> (found: Option<usize>)
    ensures
        match found {
            Some(i) => i < members@.len() && has_member(members@, key@) && first_at(members@, key@)
                == i && members@[i as int].key@ == key@,
            None => !has_member(members@, key@) && forall|j: int|
                0 <= j < members@.len() ==> (#[trigger] members@[j]).key@ != key@,
        },
{
    let mut i: usize = 0;
    while i < members.len()
        invariant
            i <= members@.len(),
            forall|j: int| 0 <= j < i ==> (#[trigger] members@[j]).key@ != key@,
        decreases members@.len() - i,
    {
        if same_text(members[i].key.as_str(), key) {
            proof {
                assert(is_first(members@, key@, i as int));
                lemma_first_unique(members@, key@, i as int);
            }
            return Some(i);
        }
        i = i + 1;
    }
    None
}

pub proof fn lemma_push_member(members: Seq<JsonMember>, added: JsonMember)
    requires
        !has_member(members, added.key@),
        forall|j: int| 0 <= j < members.len() ==> (#[trigger] members[j]).key@ != added.key@,
    ensures
        members_model(members.push(added)) == members_model(members).insert(
            added.key@,
            added.value@,
        ),
{
    let after = members.push(added);
    assert(is_first(after, added.key@, members.len() as int));
    lemma_first_unique(after, added.key@, members.len() as int);
    assert forall|key: Seq<char>| key != added.key@ implies has_member(after, key) == has_member(
        members,
        key,
    ) && (has_member(members, key) ==> first_at(after, key) == first_at(members, key)) by {
        if has_member(members, key) {
            let i = first_at(members, key);
            assert(is_first(members, key, i));
            assert(is_first(after, key, i));
            lemma_first_unique(after, key, i);
        }
        if has_member(after, key) {
            let i = first_at(after, key);
            assert(is_first(after, key, i));
            assert(after[i].key@ == key);
            assert forall|j: int| 0 <= j < i implies (#[trigger] members[j]).key@ != key by {
                assert(after[j].key@ != key);
            }
            assert(is_first(members, key, i));
        }
    }
    let model = members_model(members).insert(added.key@, added.value@);
    assert forall|key: Seq<char>|
        members_model(after).contains_key(key) == #[trigger] model.contains_key(key) by {}
    assert forall|key: Seq<char>| model.contains_key(key) implies members_model(after)[key]
        == #[trigger] model[key] by {
        if key != added.key@ {
            let i = first_at(members, key);
            assert(is_first(members, key, i));
            assert(after[i] == members[i]);
        }
    }
    assert(members_model(after) =~= model);
}

proof fn lemma_replace_member(members: Seq<JsonMember>, i: int, replaced: JsonMember)
    requires
        is_first(members, replaced.key@, i),
    ensures
        members_model(members.update(i, replaced)) == members_model(members).insert(
            replaced.key@,
            replaced.value@,
        ),
{
    let after = members.update(i, replaced);
    assert forall|key: Seq<char>, j: int| #[trigger] is_first(after, key, j) == is_first(
        members,
        key,
        j,
    ) by {
        assert forall|k: int| 0 <= k < members.len() implies after[k].key@ == (
        #[trigger] members[k]).key@ by {}
        if is_first(after, key, j) {
            assert forall|k: int| 0 <= k < j implies (#[trigger] members[k]).key@ != key by {
                assert(after[k].key@ != key);
            }
        }
    }
    assert forall|key: Seq<char>| #[trigger] has_member(after, key) == has_member(members, key) by {
        if has_member(after, key) {
            assert(is_first(members, key, first_at(after, key)));
        }
        if has_member(members, key) {
            assert(is_first(after, key, first_at(members, key)));
        }
    }
    assert forall|key: Seq<char>| has_member(members, key) implies #[trigger] first_at(after, key)
        == first_at(members, key) by {
        assert(is_first(members, key, first_at(members, key)));
        assert(is_first(after, key, first_at(members, key)));
        lemma_first_unique(after, key, first_at(members, key));
    }
    lemma_first_unique(members, replaced.key@, i);
    let model = members_model(members).insert(replaced.key@, replaced.value@);
    assert forall|key: Seq<char>| model.contains_key(key) implies members_model(after)[key]
        == #[trigger] model[key] by {
        if key != replaced.key@ {
            let at = first_at(members, key);
            assert(is_first(members, key, at));
            assert(at != i);
        }
    }
    assert(members_model(after) =~= model);
}

impl Json {
    /// The object with no members.
    pub fn object() -> (json: Json)
        ensures
            json@ == JsonView::object(),
    {
        let members: Vec<JsonMember> = Vec::new();
        let json = Json::Object(members);
        proof {
            lemma_model(json);
            assert(members_model(members@) =~= Map::empty());
        }
        json
    }

    /// A string value.
    pub fn text(text: &str) -> (json: Json)
        ensures
            json@ == JsonView::Text(text@),
    {
        Json::Text(text.to_owned())
    }

    /// A non-negative integer value.
    pub fn number(n: u64) -> (json: Json)
        ensures
            json@ == JsonView::number(n),
    {
        Json::Number(JsonNumber::Unsigned(n))
    }

    /// An array of the given items.
    pub fn array(items: Vec<Json>) -> (json: Json)
        ensures
            json@ == JsonView::Array(models(items@)),
    {
        let json = Json::Array(items);
        proof {
            lemma_model(json);
        }
        json
    }

    /// This object with `key` set to `value`; anything but an object is returned
    /// unchanged.
    pub fn with(self, key: &str, value: Json) -> (json: Json)
        ensures
            json@ == self@.with(key@, value@),
    {
        proof {
            lemma_model(self);
        }
        match self {
            Json::Object(members) => {
                let mut members: Vec<JsonMember> = members;
                let ghost before = members@;
                match position(&members, key) {
                    Some(i) => {
                        let name: String = members[i].key.clone();
                        let member = JsonMember { key: name, value };
                        proof {
                            lemma_replace_member(before, i as int, member);
                        }
                        members.set(i, member);
                        let json = Json::Object(members);
                        proof {
                            lemma_model(json);
                        }
                        json
                    },
                    None => {
                        let member = JsonMember { key: key.to_owned(), value };
                        proof {
                            lemma_push_member(before, member);
                        }
                        members.push(member);
                        let json = Json::Object(members);
                        proof {
                            lemma_model(json);
                        }
                        json
                    },
                }
            },
            other => other,
        }
    }

    /// The member under `key`, where this is an object that has one.
    pub fn get(&self, key: &str) -> (found: Option<&Json>)
        ensures
            match found {
                Some(value) => self@.get(key@) == Some(value@),
                None => self@.get(key@) is None,
            },
    {
        proof {
            lemma_model(*self);
        }
        match self {
            Json::Object(members) => match position(members, key) {
                Some(i) => Some(&members[i].value),
                None => None,
            },
            _ => None,
        }
    }

    /// The member under `inner` of the member under `outer`.
    pub fn get_in(&self, outer: &str, inner: &str) -> (found: Option<&Json>)
        ensures
            match found {
                Some(value) => self@.get_in(outer@, inner@) == Some(value@),
                None => self@.get_in(outer@, inner@) is None,
            },
    {
        match self.get(outer) {
            Some(value) => value.get(inner),
            None => None,
        }
    }

    /// The text, where this is a string.
    pub fn as_text(&self) -> (found: Option<&str>)
        ensures
            match found {
                Some(text) => self@.as_text() == Some(text@),
                None => self@.as_text() is None,
            },
    {
        match self {
            Json::Text(text) => Some(text.as_str()),
            _ => None,
        }
    }

    /// The string under `key`, where there is one.
    pub fn text_at(&self, key: &str) -> (found: Option<&str>)
        ensures
            match found {
                Some(text) => self@.text_at(key@) == Some(text@),
                None => self@.text_at(key@) is None,
            },
    {
        match self.get(key) {
            Some(value) => value.as_text(),
            None => None,
        }
    }

    /// The non-empty string under `key`, where there is one.
    pub fn nonempty_text_at(&self, key: &str) -> (found: Option<&str>)
        ensures
            match found {
                Some(text) => self@.nonempty_text_at(key@) == Some(text@),
                None => self@.nonempty_text_at(key@) is None,
            },
    {
        match self.text_at(key) {
            Some(text) => if text.is_empty() {
                None
            } else {
                Some(text)
            },
            None => None,
        }
    }

    /// The 64-bit non-negative integer under `key`, where there is one.
    pub fn number_at(&self, key: &str) -> (found: Option<u64>)
        ensures
            found == self@.number_at(key@),
    {
        match self.get(key) {
            Some(Json::Number(JsonNumber::Unsigned(n))) => Some(*n),
            _ => None,
        }
    }

    /// The items, where this is an array.
    pub fn items(&self) -> (found: Option<&Vec<Json>>)
        ensures
            match found {
                Some(items) => self@.items() == Some(models(items@)),
                None => self@.items() is None,
            },
    {
        proof {
            lemma_model(*self);
        }
        match self {
            Json::Array(items) => Some(items),
            _ => None,
        }
    }

    /// Whether this is an object.
    pub fn is_object(&self) -> (yes: bool)
        ensures
            yes == (self@ is Object),
    {
        match self {
            Json::Object(_) => true,
            _ => false,
        }
    }

    /// Whether this is an object with no members.
    pub fn is_empty_object(&self) -> (yes: bool)
        ensures
            yes == (self@ == JsonView::object()),
    {
        proof {
            lemma_model(*self);
        }
        match self {
            Json::Object(members) => {
                proof {
                    if members@.len() == 0 {
                        assert(members_model(members@) =~= Map::empty());
                    } else {
                        assert(is_first(members@, members@[0].key@, 0));
                        assert(members_model(members@).contains_key(members@[0].key@));
                    }
                }
                members.is_empty()
            },
            _ => false,
        }
    }
}

impl Clone for JsonNumber {
    fn clone(&self) -> (copy: JsonNumber)
        ensures
            copy == *self,
    {
        match self {
            JsonNumber::Unsigned(n) => JsonNumber::Unsigned(*n),
            JsonNumber::Other(text) => JsonNumber::Other(text.clone()),
        }
    }
}

impl Clone for Json {
    fn clone(&self) -> (copy: Json)
        ensures
            copy@ == self@,
        decreases self,
    {
        proof {
            lemma_model(*self);
        }
        match self {
            Json::Null => Json::Null,
            Json::Bool(b) => Json::Bool(*b),
            Json::Number(n) => Json::Number(n.clone()),
            Json::Text(text) => Json::Text(text.clone()),
            Json::Array(items) => {
                let mut copies: Vec<Json> = Vec::new();
                let mut i: usize = 0;
                while i < items.len()
                    invariant
                        i <= items@.len(),
                        *self == Json::Array(*items),
                        models(copies@) =~= models(items@).take(i as int),
                    decreases items@.len() - i,
                {
                    assert(decreases_to!(*self => self->Array_0));
                    assert(decreases_to!(items@ => items@[i as int]));
                    let copy: Json = items[i].clone();
                    let ghost before = copies@;
                    copies.push(copy);
                    assert(models(copies@) =~= models(before).push(copy@));
                    i = i + 1;
                }
                let json = Json::Array(copies);
                proof {
                    lemma_model(json);
                    assert(models(items@).take(items@.len() as int) =~= models(items@));
                }
                json
            },
            Json::Object(members) => {
                let mut copies: Vec<JsonMember> = Vec::new();
                let mut i: usize = 0;
                while i < members.len()
                    invariant
                        i <= members@.len(),
                        *self == Json::Object(*members),
                        copies@.len() == i,
                        forall|j: int|
                            0 <= j < i ==> (#[trigger] copies@[j]).key@ == members@[j].key@
                                && copies@[j].value@ == members@[j].value@,
                    decreases members@.len() - i,
                {
                    let key: String = members[i].key.clone();
                    assert(decreases_to!(*self => self->Object_0));
                    assert(decreases_to!(members@ => members@[i as int]));
                    assert(decreases_to!(members@[i as int] => members@[i as int].value));
                    let value: Json = members[i].value.clone();
                    copies.push(JsonMember { key, value });
                    i = i + 1;
                }
                let json = Json::Object(copies);
                proof {
                    lemma_model(json);
                    lemma_same_members(copies@, members@);
                }
                json
            },
        }
    }
}

proof fn lemma_same_members(a: Seq<JsonMember>, b: Seq<JsonMember>)
    requires
        a.len() == b.len(),
        forall|j: int|
            0 <= j < a.len() ==> (#[trigger] a[j]).key@ == b[j].key@ && a[j].value@ == b[j].value@,
    ensures
        members_model(a) == members_model(b),
{
    assert forall|key: Seq<char>, j: int| #[trigger] is_first(a, key, j) == is_first(
        b,
        key,
        j,
    ) by {
        if is_first(b, key, j) {
            assert forall|k: int| 0 <= k < j implies (#[trigger] a[k]).key@ != key by {
                assert(b[k].key@ != key);
            }
            assert(a[j].key@ == key);
        }
        if is_first(a, key, j) {
            assert forall|k: int| 0 <= k < j implies (#[trigger] b[k]).key@ != key by {
                assert(a[k].key@ != key);
            }
        }
    }
    assert forall|key: Seq<char>| #[trigger] has_member(a, key) == has_member(b, key) by {
        if has_member(a, key) {
            assert(is_first(b, key, first_at(a, key)));
        }
        if has_member(b, key) {
            assert(is_first(a, key, first_at(b, key)));
        }
    }
    assert forall|key: Seq<char>| has_member(a, key) implies #[trigger] members_model(a)[key]
        == members_model(b)[key] by {
        let i = first_at(a, key);
        assert(is_first(a, key, i));
        assert(is_first(b, key, i));
        lemma_first_unique(b, key, i);
    }
    assert(members_model(a) =~= members_model(b));
}

impl JsonNumber {
    /// Whether two numbers are written the same way.
    pub fn same(&self, other: &JsonNumber) -> (yes: bool)
        ensures
            yes == (self@ == other@),
    {
        match (self, other) {
            (JsonNumber::Unsigned(a), JsonNumber::Unsigned(b)) => *a == *b,
            (JsonNumber::Other(a), JsonNumber::Other(b)) => *a == *b,
            (_, _) => false,
        }
    }
}

impl Json {
    /// Whether two values have the same model.
    pub fn same(&self, other: &Json) -> (yes: bool)
        ensures
            yes == (self@ == other@),
        decreases self,
    {
        proof {
            lemma_model(*self);
            lemma_model(*other);
        }
        match (self, other) {
            (Json::Null, Json::Null) => true,
            (Json::Bool(a), Json::Bool(b)) => *a == *b,
            (Json::Number(a), Json::Number(b)) => a.same(b),
            (Json::Text(a), Json::Text(b)) => *a == *b,
            (Json::Array(a), Json::Array(b)) => {
                if a.len() != b.len() {
                    assert(models(a@).len() != models(b@).len());
                    return false;
                }
                let mut i: usize = 0;
                while i < a.len()
                    invariant
                        i <= a@.len() == b@.len(),
                        *self == Json::Array(*a),
                        self@ == JsonView::Array(models(a@)),
                        other@ == JsonView::Array(models(b@)),
                        forall|j: int| 0 <= j < i ==> (#[trigger] a@[j])@ == b@[j]@,
                    decreases a@.len() - i,
                {
                    assert(decreases_to!(*self => self->Array_0));
                    assert(decreases_to!(a@ => a@[i as int]));
                    if !a[i].same(&b[i]) {
                        assert(models(a@)[i as int] != models(b@)[i as int]);
                        return false;
                    }
                    i = i + 1;
                }
                assert(models(a@) =~= models(b@));
                true
            },
            (Json::Object(a), Json::Object(b)) => {
                let mut i: usize = 0;
                while i < a.len()
                    invariant
                        i <= a@.len(),
                        *self == Json::Object(*a),
                        self@ == JsonView::Object(members_model(a@)),
                        other@ == JsonView::Object(members_model(b@)),
                        forall|j: int|
                            0 <= j < i && first_at(a@, (#[trigger] a@[j]).key@) == j ==> has_member(
                                b@,
                                a@[j].key@,
                            ) && a@[j].value@ == b@[first_at(b@, a@[j].key@)].value@,
                    decreases a@.len() - i,
                {
                    let key: &str = a[i].key.as_str();
                    match position(a, key) {
                        Some(first) => {
                            if first == i {
                                match position(b, key) {
                                    Some(there) => {
                                        assert(decreases_to!(*self => self->Object_0));
                                        assert(decreases_to!(a@ => a@[i as int]));
                                        assert(decreases_to!(a@[i as int] => a@[i as int].value));
                                        if !a[i].value.same(&b[there].value) {
                                            assert(members_model(a@)[key@] != members_model(
                                                b@,
                                            )[key@]);
                                            return false;
                                        }
                                    },
                                    None => {
                                        assert(members_model(a@).contains_key(key@));
                                        assert(!members_model(b@).contains_key(key@));
                                        return false;
                                    },
                                }
                            }
                        },
                        None => {},
                    }
                    i = i + 1;
                }
                let mut k: usize = 0;
                while k < b.len()
                    invariant
                        k <= b@.len(),
                        self@ == JsonView::Object(members_model(a@)),
                        other@ == JsonView::Object(members_model(b@)),
                        forall|j: int| 0 <= j < k ==> has_member(a@, (#[trigger] b@[j]).key@),
                    decreases b@.len() - k,
                {
                    let key: &str = b[k].key.as_str();
                    let there = position(b, key);
                    if position(a, key).is_none() {
                        assert(members_model(b@).contains_key(key@));
                        assert(!members_model(a@).contains_key(key@));
                        return false;
                    }
                    k = k + 1;
                }
                proof {
                    assert forall|key: Seq<char>| #[trigger]
                        members_model(a@).contains_key(key) implies members_model(b@).contains_key(
                        key,
                    ) && members_model(a@)[key] == members_model(b@)[key] by {
                        let at = first_at(a@, key);
                        assert(is_first(a@, key, at));
                        assert(a@[at].key@ == key);
                    }
                    assert forall|key: Seq<char>| #[trigger]
                        members_model(b@).contains_key(key) implies members_model(a@).contains_key(
                        key,
                    ) by {
                        let at = first_at(b@, key);
                        assert(is_first(b@, key, at));
                        assert(b@[at].key@ == key);
                    }
                    assert(members_model(a@) =~= members_model(b@));
                }
                true
            },
            (_, _) => false,
        }
    }
}

impl PartialEq for Json {
    fn eq(&self, other: &Json) -> (r: bool) {
        self.same(other)
    }
}

impl vstd::std_specs::cmp::PartialEqSpecImpl for Json {
    open spec fn obeys_eq_spec() -> bool {
        true
    }

    open spec fn eq_spec(&self, other: &Json) -> bool {
        self@ == other@
    }
}

/// The members of an object, without the one named `key`.
pub fn without(members: &Vec<JsonMember>, key: &str) -> (rest: Vec<JsonMember>)
    ensures
        members_model(rest@) == members_model(members@).remove(key@),
{
    let mut rest: Vec<JsonMember> = Vec::new();
    let ghost model = members_model(members@);
    assert(members_model(rest@) =~= Map::empty());
    let mut i: usize = 0;
    while i < members.len()
        invariant
            i <= members@.len(),
            model == members_model(members@),
            forall|k: Seq<char>|
                #![trigger members_model(rest@).contains_key(k)]
                members_model(rest@).contains_key(k) <==> k != key@ && model.contains_key(k)
                    && first_at(members@, k) < i,
            forall|k: Seq<char>|
                #![trigger members_model(rest@)[k]]
                members_model(rest@).contains_key(k) ==> members_model(rest@)[k] == model[k],
        decreases members@.len() - i,
    {
        let name: &str = members[i].key.as_str();
        let ghost earlier = rest@;
        let is_new: bool = match position(members, name) {
            Some(first) => first == i,
            None => false,
        };
        if is_new && !same_text(name, key) {
            let member = JsonMember {
                key: members[i].key.clone(),
                value: members[i].value.clone(),
            };
            proof {
                assert(!members_model(earlier).contains_key(name@));
                assert forall|j: int| 0 <= j < earlier.len() implies (#[trigger] earlier[j]).key@
                    != name@ by {
                    if earlier[j].key@ == name@ {
                        lemma_some_first(earlier, j);
                    }
                }
                lemma_push_member(earlier, member);
            }
            rest.push(member);
        }
        proof {
            assert forall|k: Seq<char>|
                #![trigger members_model(rest@).contains_key(k)]
                members_model(rest@).contains_key(k) <==> k != key@ && model.contains_key(k)
                    && first_at(members@, k) < i + 1 by {
                if model.contains_key(k) && first_at(members@, k) == i {
                    assert(is_first(members@, k, first_at(members@, k)));
                    assert(k == name@);
                }
            }
        }
        i = i + 1;
    }
    proof {
        assert forall|k: Seq<char>|
            #![trigger members_model(rest@).contains_key(k)]
            members_model(rest@).contains_key(k) <==> model.remove(key@).contains_key(k) by {
            if model.contains_key(k) {
                assert(is_first(members@, k, first_at(members@, k)));
            }
        }
        assert(members_model(rest@) =~= model.remove(key@));
    }
    rest
}

/// A member list that names a key somewhere has a first member of that name.
pub proof fn lemma_some_first(members: Seq<JsonMember>, i: int)
    requires
        0 <= i < members.len(),
    ensures
        has_member(members, members[i].key@),
    decreases i,
{
    let key = members[i].key@;
    if is_first(members, key, i) {
    } else {
        let j = choose|j: int| 0 <= j < i && (#[trigger] members[j]).key@ == key;
        lemma_some_first(members, j);
    }
}

/// A copy of a member list.
pub fn clone_members(members: &Vec<JsonMember>) -> (copies: Vec<JsonMember>)
    ensures
        members_model(copies@) == members_model(members@),
{
    let mut copies: Vec<JsonMember> = Vec::new();
    let mut i: usize = 0;
    while i < members.len()
        invariant
            i <= members@.len(),
            copies@.len() == i,
            forall|j: int|
                0 <= j < i ==> (#[trigger] copies@[j]).key@ == members@[j].key@
                    && copies@[j].value@ == members@[j].value@,
        decreases members@.len() - i,
    {
        copies.push(
            JsonMember { key: members[i].key.clone(), value: members[i].value.clone() },
        );
        i = i + 1;
    }
    proof {
        lemma_same_members(copies@, members@);
    }
    copies
}

} // verus!
