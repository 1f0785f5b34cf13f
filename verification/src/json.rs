//! JSON documents as plain data, with their mathematical value.
//!
//! A [`Json`] tree stores an object as a list of members. Its value, a
//! [`JsonValue`], is a finite map from keys to values: when a key occurs more
//! than once in the list, the last occurrence is the one that counts.

use crate::error::PulseError;
use vstd::prelude::*;

verus! {

#[verifier::external_type_specification]
#[verifier::external_body]
pub struct ExNumber(serde_json::Number);

#[verifier::external_type_specification]
#[verifier::external_body]
pub struct ExValue(serde_json::Value);

/// The mathematical value of a JSON document.
pub enum JsonValue {
    Null,
    Bool(bool),
    Number(serde_json::Number),
    Text(Seq<char>),
    Array(Seq<JsonValue>),
    Object(Map<Seq<char>, JsonValue>),
}

impl JsonValue {
    /// The value stored under `key`, when `self` is an object that has it.
    pub open spec fn member(self, key: Seq<char>) -> Option<JsonValue> {
        match self {
            JsonValue::Object(m) => if m.contains_key(key) {
                Some(m[key])
            } else {
                None
            },
            _ => None,
        }
    }

    /// The non-empty text stored under `key`, if there is one.
    pub open spec fn text_member(self, key: Seq<char>) -> Option<Seq<char>> {
        match self.member(key) {
            Some(JsonValue::Text(s)) => if s.len() > 0 {
                Some(s)
            } else {
                None
            },
            _ => None,
        }
    }
}

/// One member of a JSON object.
#[derive(Debug, PartialEq)]
pub struct Member {
    pub key: String,
    pub value: Json,
}

/// A JSON object: its members in the order in which they were added.
#[derive(Debug, PartialEq)]
pub struct JsonObject {
    pub members: Vec<Member>,
}

/// A JSON document held as plain data.
#[derive(Debug, PartialEq)]
pub enum Json {
    Null,
    Bool(bool),
    Number(serde_json::Number),
    Text(String),
    Array(Vec<Json>),
    Object(JsonObject),
}

/// `i` is the position of the last member of `members` whose key is `key`.
pub open spec fn is_last_index(members: Seq<Member>, key: Seq<char>, i: int) -> bool {
    &&& 0 <= i < members.len()
    &&& members[i].key@ == key
    &&& forall|j: int| i < j < members.len() ==> (#[trigger] members[j]).key@ != key
}

/// Some member of `members` has the key `key`.
pub open spec fn has_key(members: Seq<Member>, key: Seq<char>) -> bool {
    exists|i: int| is_last_index(members, key, i)
}

/// The position of the member that decides the value under `key`.
pub open spec fn last_index(members: Seq<Member>, key: Seq<char>) -> int {
    choose|i: int| is_last_index(members, key, i)
}

impl View for Json {
    type V = JsonValue;

    open spec fn view(&self) -> JsonValue
        decreases self,
    {
        match self {
            Json::Null => JsonValue::Null,
            Json::Bool(b) => JsonValue::Bool(*b),
            Json::Number(n) => JsonValue::Number(*n),
            Json::Text(s) => JsonValue::Text(s@),
            Json::Array(items) => JsonValue::Array(
                Seq::new(
                    items@.len(),
                    |i: int|
                        if 0 <= i < items@.len() {
                            items@[i]@
                        } else {
                            JsonValue::Null
                        },
                ),
            ),
            Json::Object(object) => JsonValue::Object(
                Map::new(
                    |k: Seq<char>| has_key(object.members@, k),
                    |k: Seq<char>|
                        {
                            let i = last_index(object.members@, k);
                            if 0 <= i < object.members@.len() {
                                object.members@[i].value@
                            } else {
                                JsonValue::Null
                            }
                        },
                ),
            ),
        }
    }
}

/// The values of a list of documents.
pub open spec fn values_of(items: Seq<Json>) -> Seq<JsonValue> {
    Seq::new(items.len(), |i: int| items[i]@)
}

/// The object value of a list of members.
pub open spec fn members_of(members: Seq<Member>) -> Map<Seq<char>, JsonValue> {
    Map::new(|k: Seq<char>| has_key(members, k), |k: Seq<char>| members[last_index(members, k)].value@)
}

impl View for JsonObject {
    type V = Map<Seq<char>, JsonValue>;

    open spec fn view(&self) -> Map<Seq<char>, JsonValue> {
        members_of(self.members@)
    }
}

/// What the view of an array and of an object are, over `values_of` and `members_of`.
pub proof fn lemma_view_unfold(doc: Json)
    ensures
        doc matches Json::Array(items) ==> doc@ == JsonValue::Array(values_of(items@)),
        doc matches Json::Object(object) ==> doc@ == JsonValue::Object(object@),
{
    match doc {
        Json::Array(items) => {
            assert(doc@->Array_0 =~= values_of(items@));
        },
        Json::Object(object) => {
            assert(doc@->Object_0 =~= object@);
        },
        _ => {},
    }
}

/// A position that is the last one for `key` is the one that `last_index` names.
pub proof fn lemma_last_index(members: Seq<Member>, key: Seq<char>, i: int)
    requires
        is_last_index(members, key, i),
    ensures
        has_key(members, key),
        last_index(members, key) == i,
        members_of(members).contains_key(key),
        members_of(members)[key] == members[i].value@,
{
    let chosen = last_index(members, key);
    assert(is_last_index(members, key, chosen));
    if chosen < i {
        assert(members[i].key@ != key);
    }
    if i < chosen {
        assert(members[chosen].key@ != key);
    }
}

/// Adding a member at the end sets its key to its value and leaves the other keys alone.
pub proof fn lemma_members_push(members: Seq<Member>, added: Member)
    ensures
        members_of(members.push(added)) == members_of(members).insert(added.key@, added.value@),
{
    let after = members.push(added);
    let n = members.len() as int;
    assert(is_last_index(after, added.key@, n));
    lemma_last_index(after, added.key@, n);
    assert forall|k: Seq<char>| k != added.key@ implies (has_key(after, k) <==> has_key(
        members,
        k,
    )) && (has_key(members, k) ==> members_of(after)[k] == members_of(members)[k]) by {
        if has_key(members, k) {
            let i = last_index(members, k);
            assert(is_last_index(members, k, i));
            assert forall|j: int| i < j < after.len() implies (#[trigger] after[j]).key@ != k by {
                if j < n {
                    assert(members[j].key@ != k);
                }
            }
            assert(is_last_index(after, k, i));
            lemma_last_index(after, k, i);
            lemma_last_index(members, k, i);
        }
        if has_key(after, k) {
            let i = last_index(after, k);
            assert(is_last_index(after, k, i));
            assert(i < n);
            assert forall|j: int| i < j < members.len() implies (#[trigger] members[j]).key@
                != k by {
                assert(after[j].key@ != k);
            }
            assert(is_last_index(members, k, i));
        }
    }
    assert(members_of(after) =~= members_of(members).insert(added.key@, added.value@));
}

/// Taking out one member with the key `key` changes nothing for the other keys.
pub proof fn lemma_members_remove(members: Seq<Member>, at: int, key: Seq<char>)
    requires
        0 <= at < members.len(),
        members[at].key@ == key,
    ensures
        members_of(members.remove(at)).remove(key) == members_of(members).remove(key),
{
    let after = members.remove(at);
    assert forall|k: Seq<char>| k != key implies (has_key(after, k) <==> has_key(members, k)) && (
    has_key(members, k) ==> members_of(after)[k] == members_of(members)[k]) by {
        if has_key(members, k) {
            let i = last_index(members, k);
            assert(is_last_index(members, k, i));
            let moved = if i < at {
                i
            } else {
                i - 1
            };
            assert forall|j: int| moved < j < after.len() implies (#[trigger] after[j]).key@
                != k by {
                if j < at {
                    assert(members[j].key@ != k);
                } else {
                    assert(members[j + 1].key@ != k);
                }
            }
            assert(is_last_index(after, k, moved));
            lemma_last_index(after, k, moved);
            lemma_last_index(members, k, i);
        }
        if has_key(after, k) {
            let i = last_index(after, k);
            assert(is_last_index(after, k, i));
            let back = if i < at {
                i
            } else {
                i + 1
            };
            assert forall|j: int| back < j < members.len() implies (#[trigger] members[j]).key@
                != k by {
                if j < at {
                    assert(after[j].key@ != k);
                } else if j > at {
                    assert(after[j - 1].key@ != k);
                }
            }
            assert(is_last_index(members, k, back));
        }
    }
    assert(members_of(after).remove(key) =~= members_of(members).remove(key));
}

/// The position of the last member of `members` with the key `key`.
fn find_member(members: &Vec<Member>, key: &str) -> (found: Option<usize>)
    ensures
        match found {
            Some(i) => is_last_index(members@, key@, i as int),
            None => !has_key(members@, key@),
        },
{
    let mut i: usize = members.len();
    while i > 0
        invariant
            i <= members.len(),
            forall|j: int| i <= j < members@.len() ==> (#[trigger] members@[j]).key@ != key@,
        decreases i,
    {
        i = i - 1;
        if str_equal(members[i].key.as_str(), key) {
            return Some(i);
        }
    }
    None
}

impl JsonObject {
    /// An object without members.
    pub fn new() -> (object: JsonObject)
        ensures
            object@ == Map::<Seq<char>, JsonValue>::empty(),
    {
        let object = JsonObject { members: Vec::new() };
        assert(object@ =~= Map::<Seq<char>, JsonValue>::empty());
        object
    }

    /// Whether the object has no member at all.
    pub fn is_empty(&self) -> (empty: bool)
        ensures
            empty == (self@ == Map::<Seq<char>, JsonValue>::empty()),
    {
        let empty = self.members.len() == 0;
        proof {
            if empty {
                assert(self@ =~= Map::<Seq<char>, JsonValue>::empty());
            } else {
                let last = self.members@.len() - 1;
                assert(is_last_index(self.members@, self.members@[last].key@, last));
                lemma_last_index(self.members@, self.members@[last].key@, last);
            }
        }
        empty
    }

    /// The value under `key`, if the object has that key.
    pub fn get(&self, key: &str) -> (found: Option<&Json>)
        ensures
            match found {
                Some(value) => self@.contains_key(key@) && self@[key@] == value@,
                None => !self@.contains_key(key@),
            },
    {
        match find_member(&self.members, key) {
            Some(i) => {
                proof {
                    lemma_last_index(self.members@, key@, i as int);
                }
                Some(&self.members[i].value)
            },
            None => None,
        }
    }

    /// Whether the object has the key `key`.
    pub fn contains_key(&self, key: &str) -> (present: bool)
        ensures
            present == self@.contains_key(key@),
    {
        find_member(&self.members, key).is_some()
    }

    /// Sets the value under `key`, whether or not the key was there before.
    pub fn insert(&mut self, key: String, value: Json)
        ensures
            final(self)@ == old(self)@.insert(key@, value@),
    {
        proof {
            lemma_members_push(self.members@, Member { key, value });
        }
        self.members.push(Member { key, value });
    }

    /// Takes the key `key` out of the object and hands back the value it had.
    pub fn remove(&mut self, key: &str) -> (removed: Option<Json>)
        ensures
            final(self)@ == old(self)@.remove(key@),
            match removed {
                Some(value) => old(self)@.contains_key(key@) && old(self)@[key@] == value@,
                None => !old(self)@.contains_key(key@),
            },
    {
        let mut removed: Option<Json> = None;
        loop
            invariant
                self@.remove(key@) == old(self)@.remove(key@),
                match removed {
                    Some(value) => old(self)@.contains_key(key@) && old(self)@[key@] == value@,
                    None => self@ == old(self)@,
                },
            ensures
                !self@.contains_key(key@),
            decreases self.members.len(),
        {
            match find_member(&self.members, key) {
                None => {
                    break ;
                },
                Some(i) => {
                    proof {
                        lemma_last_index(self.members@, key@, i as int);
                        lemma_members_remove(self.members@, i as int, key@);
                    }
                    let member = self.members.remove(i);
                    if removed.is_none() {
                        removed = Some(member.value);
                    }
                },
            }
        }
        assert(self@ =~= self@.remove(key@));
        removed
    }
}

impl Json {
    /// The value under `key`, when `self` is an object that has that key.
    pub fn get(&self, key: &str) -> (found: Option<&Json>)
        ensures
            match found {
                Some(value) => self@.member(key@) == Some(value@),
                None => self@.member(key@) is None,
            },
    {
        proof {
            lemma_view_unfold(*self);
        }
        match self {
            Json::Object(object) => object.get(key),
            _ => None,
        }
    }

    /// The characters of a string value.
    pub fn as_str(&self) -> (text: Option<&str>)
        ensures
            match text {
                Some(s) => self@ == JsonValue::Text(s@),
                None => !(self@ is Text),
            },
    {
        match self {
            Json::Text(s) => Some(s.as_str()),
            _ => None,
        }
    }

    /// The truth value of a boolean.
    pub fn as_bool(&self) -> (flag: Option<bool>)
        ensures
            match flag {
                Some(b) => self@ == JsonValue::Bool(b),
                None => !(self@ is Bool),
            },
    {
        match self {
            Json::Bool(b) => Some(*b),
            _ => None,
        }
    }

    /// The items of an array.
    pub fn as_array(&self) -> (items: Option<&Vec<Json>>)
        ensures
            match items {
                Some(list) => self@ == JsonValue::Array(values_of(list@)),
                None => !(self@ is Array),
            },
    {
        proof {
            lemma_view_unfold(*self);
        }
        match self {
            Json::Array(list) => Some(list),
            _ => None,
        }
    }

    /// The members of an object.
    pub fn as_object(&self) -> (object: Option<&JsonObject>)
        ensures
            match object {
                Some(o) => self@ == JsonValue::Object(o@),
                None => !(self@ is Object),
            },
    {
        proof {
            lemma_view_unfold(*self);
        }
        match self {
            Json::Object(o) => Some(o),
            _ => None,
        }
    }

    /// A string value with the characters of `text`.
    pub fn text(text: &str) -> (doc: Json)
        ensures
            doc@ == JsonValue::Text(text@),
    {
        Json::Text(text.to_owned())
    }
}

/// Two member lists with the same keys and the same values, position by
/// position, are the same object.
pub proof fn lemma_members_same(a: Seq<Member>, b: Seq<Member>)
    requires
        a.len() == b.len(),
        forall|i: int| 0 <= i < a.len() ==> (#[trigger] a[i]).key@ == b[i].key@,
        forall|i: int| 0 <= i < a.len() ==> (#[trigger] a[i]).value@ == b[i].value@,
    ensures
        members_of(a) == members_of(b),
{
    assert forall|k: Seq<char>| has_key(a, k) implies has_key(b, k) && members_of(a)[k]
        == members_of(b)[k] by {
        let i = last_index(a, k);
        assert(is_last_index(a, k, i));
        assert forall|j: int| i < j < b.len() implies (#[trigger] b[j]).key@ != k by {
            assert(a[j].key@ != k);
        }
        assert(is_last_index(b, k, i));
        lemma_last_index(a, k, i);
        lemma_last_index(b, k, i);
    }
    assert forall|k: Seq<char>| has_key(b, k) implies has_key(a, k) by {
        let i = last_index(b, k);
        assert(is_last_index(b, k, i));
        assert(a[i].key@ == k);
        assert forall|j: int| i < j < a.len() implies (#[trigger] a[j]).key@ != k by {
            assert(b[j].key@ != k);
        }
        assert(is_last_index(a, k, i));
    }
    assert(members_of(a) =~= members_of(b));
}

impl Clone for Json {
    fn clone(&self) -> (copy: Json)
        ensures
            copy@ == self@,
        decreases self,
    {
        match self {
            Json::Null => Json::Null,
            Json::Bool(b) => Json::Bool(*b),
            Json::Number(n) => Json::Number(clone_number(n)),
            Json::Text(s) => Json::Text(s.clone()),
            Json::Array(items) => {
                let mut copies: Vec<Json> = Vec::new();
                let mut i: usize = 0;
                while i < items.len()
                    invariant
                        i <= items.len(),
                        copies.len() == i,
                        forall|j: int| 0 <= j < i ==> (#[trigger] copies@[j])@ == items@[j]@,
                        *self == Json::Array(*items),
                    decreases items.len() - i,
                {
                    assert(decreases_to!(*self => self->Array_0));
                    assert(decreases_to!(*items => items[i as int]));
                    let item = items[i].clone();
                    copies.push(item);
                    i = i + 1;
                }
                let copy = Json::Array(copies);
                proof {
                    lemma_view_unfold(copy);
                    lemma_view_unfold(*self);
                    assert(values_of(copies@) =~= values_of(items@));
                }
                copy
            },
            Json::Object(object) => {
                let mut copies: Vec<Member> = Vec::new();
                let mut i: usize = 0;
                while i < object.members.len()
                    invariant
                        i <= object.members.len(),
                        copies.len() == i,
                        forall|j: int|
                            0 <= j < i ==> (#[trigger] copies@[j]).key@ == object.members@[j].key@,
                        forall|j: int|
                            0 <= j < i ==> (#[trigger] copies@[j]).value@
                                == object.members@[j].value@,
                        *self == Json::Object(*object),
                    decreases object.members.len() - i,
                {
                    let key = object.members[i].key.clone();
                    assert(decreases_to!(*self => self->Object_0));
                    assert(decreases_to!(*self => self->Object_0.members));
                    assert(decreases_to!(object.members => object.members[i as int]));
                    let value = object.members[i].value.clone();
                    copies.push(Member { key, value });
                    i = i + 1;
                }
                let copy = Json::Object(JsonObject { members: copies });
                proof {
                    lemma_view_unfold(copy);
                    lemma_view_unfold(*self);
                    lemma_members_same(copies@, object.members@);
                }
                copy
            },
        }
    }
}

/// `std`'s equality of string slices: `true` exactly when both hold the same
/// characters.
#[verifier::external_body]
pub(crate) fn str_equal(a: &str, b: &str) -> (same: bool)
    ensures
        same == (a@ == b@),
{
    a == b
}

/// `serde_json::Number::clone`: the copy is the same number.
#[verifier::external_body]
pub(crate) fn clone_number(n: &serde_json::Number) -> (copy: serde_json::Number)
    ensures
        copy == *n,
{
    n.clone()
}

/// What a `serde_json::Value` holds, read as a document: a string as its
/// characters, an array as its items in order, an object as the map from its
/// keys to their values.
pub uninterp spec fn json_of(value: serde_json::Value) -> JsonValue;

/// The document that a text is read as, or `None` for a text that is not JSON.
pub uninterp spec fn parsed(text: Seq<char>) -> Option<JsonValue>;

/// The indented text of a document. It is `Some` for every document that a
/// `serde_json::Value` can hold.
pub uninterp spec fn pretty_text(doc: JsonValue) -> Option<Seq<char>>;

/// The one-line text of a document. It is `Some` for every document that a
/// `serde_json::Value` can hold.
pub uninterp spec fn compact_text(doc: JsonValue) -> Option<Seq<char>>;

/// `serde_json::from_str` at the type `Value`: the value read from `text`, or
/// the parser's error. The outcome depends on the text alone.
#[verifier::external_body]
fn parse_value(text: &str) -> (outcome: Result<serde_json::Value, serde_json::Error>)
    ensures
        match outcome {
            Ok(value) => parsed(text@) == Some(json_of(value)),
            Err(_) => parsed(text@) is None,
        },
{
    serde_json::from_str::<serde_json::Value>(text)
}

/// `serde_json::to_string_pretty` on a `Value`: its indented text, which
/// depends on what the value holds alone. Writing a `Value` does not fail:
/// the serialiser fails only where its writer does or where a key is no
/// string, and here the writer is a byte vector and every key is a string.
#[verifier::external_body]
fn render_pretty(value: &serde_json::Value) -> (outcome: Result<String, serde_json::Error>)
    ensures
        match outcome {
            Ok(text) => pretty_text(json_of(*value)) == Some(text@),
            Err(_) => false,
        },
{
    serde_json::to_string_pretty(value)
}

/// `serde_json::to_string` on a `Value`: its text on one line, which depends
/// on what the value holds alone. Writing a `Value` does not fail, for the
/// reasons given at `render_pretty`.
#[verifier::external_body]
fn render_compact(value: &serde_json::Value) -> (outcome: Result<String, serde_json::Error>)
    ensures
        match outcome {
            Ok(text) => compact_text(json_of(*value)) == Some(text@),
            Err(_) => false,
        },
{
    serde_json::to_string(value)
}

/// Takes a `serde_json::Value` apart, variant by variant, into the document
/// that holds the same data.
#[verifier::external_body]
fn from_value(value: serde_json::Value) -> (doc: Json)
    ensures
        doc@ == json_of(value),
{
    match value {
        serde_json::Value::Null => Json::Null,
        serde_json::Value::Bool(b) => Json::Bool(b),
        serde_json::Value::Number(n) => Json::Number(n),
        serde_json::Value::String(s) => Json::Text(s),
        serde_json::Value::Array(items) => Json::Array(items.into_iter().map(from_value).collect()),
        serde_json::Value::Object(map) => Json::Object(
            JsonObject {
                members: map.into_iter().map(|(key, v)| Member { key, value: from_value(v) }).collect(),
            },
        ),
    }
}

/// Builds the `serde_json::Value` that holds the same data as `doc`. Members
/// go into the value's map one by one with `Map::insert`, which replaces what
/// a key held, so of two members with one key the later one stays.
#[verifier::external_body]
fn to_value(doc: &Json) -> (value: serde_json::Value)
    ensures
        json_of(value) == doc@,
{
    match doc {
        Json::Null => serde_json::Value::Null,
        Json::Bool(b) => serde_json::Value::Bool(*b),
        Json::Number(n) => serde_json::Value::Number(n.clone()),
        Json::Text(s) => serde_json::Value::String(s.clone()),
        Json::Array(items) => serde_json::Value::Array(items.iter().map(to_value).collect()),
        Json::Object(object) => {
            let mut map = serde_json::Map::new();
            for member in object.members.iter() {
                map.insert(member.key.clone(), to_value(&member.value));
            }
            serde_json::Value::Object(map)
        },
    }
}

impl Json {
    /// Reads a document from JSON text.
    pub fn from_text(text: &str) -> (outcome: Result<Json, PulseError>)
        ensures
            match outcome {
                Ok(doc) => parsed(text@) == Some(doc@),
                Err(error) => parsed(text@) is None && error is Json,
            },
    {
        match parse_value(text) {
            Ok(value) => Ok(from_value(value)),
            Err(error) => Err(PulseError::Json(error)),
        }
    }

    /// Writes the document as indented JSON text. This always succeeds.
    pub fn to_pretty_text(&self) -> (outcome: Result<String, PulseError>)
        ensures
            outcome matches Ok(text) && pretty_text(self@) == Some(text@),
    {
        let value = to_value(self);
        match render_pretty(&value) {
            Ok(text) => Ok(text),
            Err(error) => Err(PulseError::Json(error)),
        }
    }

    /// Writes the document as JSON text on one line. This always succeeds.
    pub fn to_text(&self) -> (outcome: Result<String, PulseError>)
        ensures
            outcome matches Ok(text) && compact_text(self@) == Some(text@),
    {
        let value = to_value(self);
        match render_compact(&value) {
            Ok(text) => Ok(text),
            Err(error) => Err(PulseError::Json(error)),
        }
    }
}

} // verus!
