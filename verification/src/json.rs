//! JSON values: the tree that envelopes, directory entries and audit details
//! are made of, its mathematical model, and the way to and from JSON text.

use vstd::prelude::*;

use crate::text::same_text;
use crate::text::decimal;

verus! {

/// A JSON value with whole, non-negative numbers. An object lists its members;
/// where a name stands twice the later member counts.
#[derive(Debug, PartialEq, Eq)]
pub enum Json {
    Null,
    Bool(bool),
    Number(u64),
    Text(String),
    Array(Vec<Json>),
    Object(Vec<(String, Json)>),
}

/// The value that a [`Json`] tree stands for.
pub enum JsonView {
    Null,
    Bool(bool),
    Number(nat),
    Text(Seq<char>),
    Array(Seq<JsonView>),
    Object(Map<Seq<char>, JsonView>),
}

/// The values that a list of trees stands for.
pub open spec fn items_view(items: Seq<Json>) -> Seq<JsonView>
    decreases items,
{
    if items.len() == 0 {
        Seq::empty()
    } else {
        items_view(items.drop_last()).push(json_view(items.last()))
    }
}

/// The members that a list of members stands for.
pub open spec fn members_view(members: Seq<(String, Json)>) -> Map<Seq<char>, JsonView>
    decreases members,
{
    if members.len() == 0 {
        Map::empty()
    } else {
        members_view(members.drop_last()).insert(members.last().0@, json_view(members.last().1))
    }
}

/// The value that a tree stands for.
pub open spec fn json_view(json: Json) -> JsonView
    decreases json,
{
    match json {
        Json::Null => JsonView::Null,
        Json::Bool(b) => JsonView::Bool(b),
        Json::Number(n) => JsonView::Number(n as nat),
        Json::Text(s) => JsonView::Text(s@),
        Json::Array(items) => JsonView::Array(items_view(items@)),
        Json::Object(members) => JsonView::Object(members_view(members@)),
    }
}

impl View for Json {
    type V = JsonView;

    open spec fn view(&self) -> JsonView {
        json_view(*self)
    }
}

impl JsonView {
    /// The member `key` of an object; none of anything else.
    pub open spec fn member(self, key: Seq<char>) -> Option<JsonView> {
        match self {
            JsonView::Object(members) => if members.contains_key(key) {
                Some(members[key])
            } else {
                None
            },
            _ => None,
        }
    }

    /// The characters of a text; none of anything else.
    pub open spec fn text(self) -> Option<Seq<char>> {
        match self {
            JsonView::Text(s) => Some(s),
            _ => None,
        }
    }

    /// The number; none of anything else.
    pub open spec fn number(self) -> Option<nat> {
        match self {
            JsonView::Number(n) => Some(n),
            _ => None,
        }
    }

    /// The text that stands under `key`.
    pub open spec fn text_member(self, key: Seq<char>) -> Option<Seq<char>> {
        match self.member(key) {
            Some(value) => value.text(),
            None => None,
        }
    }

    /// The number that stands under `key`.
    pub open spec fn number_member(self, key: Seq<char>) -> Option<nat> {
        match self.member(key) {
            Some(value) => value.number(),
            None => None,
        }
    }
}

/// The view of an optional string.
pub open spec fn opt_text(s: Option<String>) -> Option<Seq<char>> {
    match s {
        Some(s) => Some(s@),
        None => None,
    }
}

/// An optional text as a JSON value: `null` where there is none.
pub open spec fn text_or_null(s: Option<Seq<char>>) -> JsonView {
    match s {
        Some(s) => JsonView::Text(s),
        None => JsonView::Null,
    }
}

/// An optional number as a JSON value: `null` where there is none.
pub open spec fn number_or_null(n: Option<nat>) -> JsonView {
    match n {
        Some(n) => JsonView::Number(n),
        None => JsonView::Null,
    }
}

// ------------------------------------------------------------ tree lemmas

/// One more item adds one more value.
pub proof fn lemma_items_push(items: Seq<Json>, item: Json)
    ensures
        items_view(items.push(item)) == items_view(items).push(item@),
{
    assert(items.push(item).drop_last() =~= items);
}

/// Each item stands for the value at its place.
pub proof fn lemma_items_index(items: Seq<Json>)
    ensures
        items_view(items).len() == items.len(),
        forall|i: int| 0 <= i < items.len() ==> #[trigger] items_view(items)[i] == items[i]@,
    decreases items.len(),
{
    if items.len() > 0 {
        lemma_items_index(items.drop_last());
        assert forall|i: int| 0 <= i < items.len() implies #[trigger] items_view(items)[i]
            == items[i]@ by {
            if i < items.len() - 1 {
                assert(items_view(items.drop_last())[i] == items.drop_last()[i]@);
            }
        }
    }
}

/// One more member is one more insertion.
pub proof fn lemma_members_push(members: Seq<(String, Json)>, member: (String, Json))
    ensures
        members_view(members.push(member)) == members_view(members).insert(
            member.0@,
            member.1@,
        ),
{
    assert(members.push(member).drop_last() =~= members);
}

// ---------------------------------------------------------------- reading

impl Clone for Json {
    fn clone(&self) -> (r: Self)
        ensures
            r@ == self@,
        decreases self,
    {
        match self {
            Json::Null => Json::Null,
            Json::Bool(b) => Json::Bool(*b),
            Json::Number(n) => Json::Number(*n),
            Json::Text(s) => Json::Text(s.clone()),
            Json::Array(items) => {
                let mut copy: Vec<Json> = Vec::new();
                let mut i: usize = 0;
                while i < items.len()
                    invariant
                        i <= items@.len(),
                        items_view(copy@) == items_view(items@.take(i as int)),
                        decreases_to!(self => items@),
                    decreases items@.len() - i,
                {
                    let item = items[i].clone();
                    proof {
                        lemma_items_push(copy@, item);
                        lemma_items_push(items@.take(i as int), items@[i as int]);
                        assert(items@.take(i + 1) =~= items@.take(i as int).push(items@[i as int]));
                    }
                    copy.push(item);
                    i = i + 1;
                }
                assert(items@.take(i as int) =~= items@);
                Json::Array(copy)
            },
            Json::Object(members) => {
                let mut copy: Vec<(String, Json)> = Vec::new();
                let mut i: usize = 0;
                while i < members.len()
                    invariant
                        i <= members@.len(),
                        members_view(copy@) == members_view(members@.take(i as int)),
                        decreases_to!(self => members@),
                    decreases members@.len() - i,
                {
                    let member = (members[i].0.clone(), members[i].1.clone());
                    proof {
                        lemma_members_push(copy@, member);
                        lemma_members_push(members@.take(i as int), members@[i as int]);
                        assert(members@.take(i + 1) =~= members@.take(i as int).push(
                            members@[i as int],
                        ));
                    }
                    copy.push(member);
                    i = i + 1;
                }
                assert(members@.take(i as int) =~= members@);
                Json::Object(copy)
            },
        }
    }
}

impl Json {
    /// The member `key` of an object.
    pub fn get(&self, key: &str) -> (r: Option<&Json>)
        ensures
            match r {
                Some(value) => self@.member(key@) == Some(value@),
                None => self@.member(key@) is None,
            },
    {
        match self {
            Json::Object(members) => {
                let mut n: usize = members.len();
                assert(members@.take(n as int) =~= members@);
                while n > 0
                    invariant
                        n <= members@.len(),
                        self@ == JsonView::Object(members_view(members@)),
                        members_view(members@).contains_key(key@) == members_view(
                            members@.take(n as int),
                        ).contains_key(key@),
                        members_view(members@).contains_key(key@) ==> members_view(members@)[key@]
                            == members_view(members@.take(n as int))[key@],
                    decreases n,
                {
                    assert(members@.take(n as int).drop_last() =~= members@.take(n - 1));
                    if same_text(members[n - 1].0.as_str(), key) {
                        return Some(&members[n - 1].1);
                    }
                    n = n - 1;
                }
                None
            },
            _ => None,
        }
    }

    /// The characters of a text.
    pub fn as_str(&self) -> (r: Option<&str>)
        ensures
            match r {
                Some(s) => self@ == JsonView::Text(s@),
                None => !(self@ is Text),
            },
    {
        match self {
            Json::Text(s) => Some(s.as_str()),
            _ => None,
        }
    }

    /// The number.
    pub fn as_u64(&self) -> (r: Option<u64>)
        ensures
            match r {
                Some(n) => self@ == JsonView::Number(n as nat),
                None => !(self@ is Number),
            },
    {
        match self {
            Json::Number(n) => Some(*n),
            _ => None,
        }
    }

    /// The text that stands under `key`.
    pub fn get_str(&self, key: &str) -> (r: Option<&str>)
        ensures
            match r {
                Some(s) => self@.text_member(key@) == Some(s@),
                None => self@.text_member(key@) is None,
            },
    {
        match self.get(key) {
            Some(value) => value.as_str(),
            None => None,
        }
    }

    /// The number that stands under `key`.
    pub fn get_u64(&self, key: &str) -> (r: Option<u64>)
        ensures
            match r {
                Some(n) => self@.number_member(key@) == Some(n as nat),
                None => self@.number_member(key@) is None,
            },
    {
        match self.get(key) {
            Some(value) => value.as_u64(),
            None => None,
        }
    }
}

// --------------------------------------------------------------- building

/// A text value.
pub fn text(s: &str) -> (r: Json)
    ensures
        r@ == JsonView::Text(s@),
{
    Json::Text(s.to_owned())
}

/// An optional text, `null` where there is none.
pub fn opt_text_json(s: Option<&str>) -> (r: Json)
    ensures
        r@ == text_or_null(
            match s {
                Some(s) => Some(s@),
                None => None,
            },
        ),
{
    match s {
        Some(s) => text(s),
        None => Json::Null,
    }
}

/// An optional number, `null` where there is none.
pub fn opt_number_json(n: Option<u64>) -> (r: Json)
    ensures
        r@ == number_or_null(
            match n {
                Some(n) => Some(n as nat),
                None => None,
            },
        ),
{
    match n {
        Some(n) => Json::Number(n),
        None => Json::Null,
    }
}

/// Adds the member `key`, which from now on holds `value`.
pub fn put(members: &mut Vec<(String, Json)>, key: &str, value: Json)
    ensures
        members_view(final(members)@) == members_view(old(members)@).insert(key@, value@),
{
    let member = (key.to_owned(), value);
    proof {
        lemma_members_push(members@, member);
    }
    members.push(member);
}

/// Copies a list of values.
pub fn clone_items(items: &Vec<Json>) -> (r: Vec<Json>)
    ensures
        items_view(r@) == items_view(items@),
{
    let mut copy: Vec<Json> = Vec::new();
    let mut i: usize = 0;
    while i < items.len()
        invariant
            i <= items@.len(),
            items_view(copy@) == items_view(items@.take(i as int)),
        decreases items@.len() - i,
    {
        let item = items[i].clone();
        proof {
            lemma_items_push(copy@, item);
            lemma_items_push(items@.take(i as int), items@[i as int]);
            assert(items@.take(i + 1) =~= items@.take(i as int).push(items@[i as int]));
        }
        copy.push(item);
        i = i + 1;
    }
    assert(items@.take(i as int) =~= items@);
    copy
}

// -------------------------------------------------------------- JSON text

/// A `serde_json::Value`, carried between the calls of that crate.
#[verifier::external_type_specification]
#[verifier::external_body]
pub struct ExValue(serde_json::Value);

/// What a `serde_json::Value` holds. Numbers other than whole non-negative
/// ones have no model of their own, and nothing is said of them.
pub uninterp spec fn value_contents(value: serde_json::Value) -> JsonView;

/// The value that a JSON text denotes; none where the text is not JSON.
pub uninterp spec fn json_parsing(text: Seq<u8>) -> Option<JsonView>;

/// The bytes of a value's compact JSON text.
pub uninterp spec fn json_encoding(value: JsonView) -> Seq<u8>;

/// The characters of a value's compact JSON text.
pub uninterp spec fn json_text(value: JsonView) -> Seq<char>;

/// `serde_json::Value::Null` holds nothing.
#[verifier::external_body]
fn null_value() -> (r: serde_json::Value)
    ensures
        value_contents(r) == JsonView::Null,
{
    serde_json::Value::Null
}

/// `serde_json::Value::Bool` holds the boolean it is given.
#[verifier::external_body]
fn bool_value(b: bool) -> (r: serde_json::Value)
    ensures
        value_contents(r) == JsonView::Bool(b),
{
    serde_json::Value::Bool(b)
}

/// `serde_json::Value::from` a `u64` holds that number.
#[verifier::external_body]
fn number_value(n: u64) -> (r: serde_json::Value)
    ensures
        value_contents(r) == JsonView::Number(n as nat),
{
    serde_json::Value::from(n)
}

/// `serde_json::Value::String` holds the text it is given.
#[verifier::external_body]
fn text_value(s: String) -> (r: serde_json::Value)
    ensures
        value_contents(r) == JsonView::Text(s@),
{
    serde_json::Value::String(s)
}

/// `serde_json::Value::Array` holds the values it is given, in their order.
#[verifier::external_body]
fn array_value(items: Vec<serde_json::Value>) -> (r: serde_json::Value)
    ensures
        value_contents(r) == JsonView::Array(
            items@.map_values(|item: serde_json::Value| value_contents(item)),
        ),
{
    serde_json::Value::Array(items)
}

/// `serde_json::Value::Object` of a new `serde_json::Map` has no member.
#[verifier::external_body]
fn empty_object_value() -> (r: serde_json::Value)
    ensures
        value_contents(r) == JsonView::Object(Map::empty()),
{
    serde_json::Value::Object(serde_json::Map::new())
}

/// Assigning through `serde_json::Value`'s index by a name gives an object that
/// member, whether or not it had one of the name, and leaves the others.
#[verifier::external_body]
fn set_member(object: &mut serde_json::Value, key: &str, value: serde_json::Value)
    requires
        value_contents(*old(object)) is Object,
    ensures
        value_contents(*final(object)) == JsonView::Object(
            value_contents(*old(object))->Object_0.insert(key@, value_contents(value)),
        ),
{
    object[key] = value;
}

/// `serde_json::Value::get` by a name gives the member of that name, and
/// nothing where there is none or the value is no object.
#[verifier::external_body]
fn value_member<'a>(value: &'a serde_json::Value, key: &str) -> (r: Option<&'a serde_json::Value>)
    ensures
        match r {
            Some(member) => value_contents(*value).member(key@) == Some(value_contents(*member)),
            None => value_contents(*value).member(key@) is None,
        },
{
    value.get(key)
}

/// `serde_json::Value::as_str` gives the characters of a text, and nothing of
/// any other value.
#[verifier::external_body]
fn value_str(value: &serde_json::Value) -> (r: Option<&str>)
    ensures
        match r {
            Some(s) => value_contents(*value).text() == Some(s@),
            None => value_contents(*value).text() is None,
        },
{
    value.as_str()
}

/// `serde_json::from_slice` reads one JSON value from the bytes, which
/// [`json_parsing`] names, and fails where they are not exactly one.
#[verifier::external_body]
fn parse_value(text: &[u8]) -> (r: Option<serde_json::Value>)
    ensures
        match r {
            Some(value) => json_parsing(text@) == Some(value_contents(value)),
            None => json_parsing(text@) is None,
        },
{
    serde_json::from_slice(text).ok()
}

/// `serde_json::to_vec` writes the value's compact JSON text, which
/// [`json_encoding`] names. It fails of a map whose names are no strings, and a
/// `serde_json::Value` has none.
#[verifier::external_body]
fn encode_value(value: &serde_json::Value) -> (r: Result<Vec<u8>, String>)
    ensures
        r is Ok && r->Ok_0@ == json_encoding(value_contents(*value)),
{
    serde_json::to_vec(value).map_err(|e| e.to_string())
}

/// `serde_json::Value`'s `to_string` gives the value's compact JSON text, which
/// [`json_text`] names; that of a whole number is its decimal form.
#[verifier::external_body]
fn value_text(value: &serde_json::Value) -> (r: String)
    ensures
        r@ == json_text(value_contents(*value)),
        value_contents(*value) is Number ==> r@ == decimal(value_contents(*value)->Number_0),
{
    value.to_string()
}

impl Json {
    /// The `serde_json::Value` of the same contents.
    fn to_value(&self) -> (r: serde_json::Value)
        ensures
            value_contents(r) == self@,
        decreases self,
    {
        match self {
            Json::Null => null_value(),
            Json::Bool(b) => bool_value(*b),
            Json::Number(n) => number_value(*n),
            Json::Text(s) => text_value(s.clone()),
            Json::Array(items) => {
                let mut values: Vec<serde_json::Value> = Vec::new();
                let mut i: usize = 0;
                while i < items.len()
                    invariant
                        i <= items@.len(),
                        values@.len() == i,
                        forall|j: int|
                            0 <= j < i ==> value_contents(#[trigger] values@[j]) == items@[j]@,
                        decreases_to!(self => items@),
                    decreases items@.len() - i,
                {
                    values.push(items[i].to_value());
                    i = i + 1;
                }
                proof {
                    lemma_items_index(items@);
                    assert(values@.map_values(|item: serde_json::Value| value_contents(item))
                        =~= items_view(items@));
                }
                array_value(values)
            },
            Json::Object(members) => {
                let mut object = empty_object_value();
                let mut i: usize = 0;
                while i < members.len()
                    invariant
                        i <= members@.len(),
                        value_contents(object) == JsonView::Object(
                            members_view(members@.take(i as int)),
                        ),
                        decreases_to!(self => members@),
                    decreases members@.len() - i,
                {
                    let value = members[i].1.to_value();
                    proof {
                        lemma_members_push(members@.take(i as int), members@[i as int]);
                        assert(members@.take(i + 1) =~= members@.take(i as int).push(
                            members@[i as int],
                        ));
                    }
                    set_member(&mut object, members[i].0.as_str(), value);
                    i = i + 1;
                }
                assert(members@.take(i as int) =~= members@);
                object
            },
        }
    }

    /// The bytes of the compact JSON text.
    pub fn encode(&self) -> (r: Result<Vec<u8>, String>)
        ensures
            r is Ok && r->Ok_0@ == json_encoding(self@),
    {
        encode_value(&self.to_value())
    }

    /// The characters of the compact JSON text.
    pub fn to_text(&self) -> (r: String)
        ensures
            r@ == json_text(self@),
            self@ is Number ==> r@ == decimal(self@->Number_0),
    {
        value_text(&self.to_value())
    }
}

/// The text that a JSON text holds under a name at its top level.
pub open spec fn parsed_text_member(text: Seq<u8>, key: Seq<char>) -> Option<Seq<char>> {
    match json_parsing(text) {
        Some(value) => value.text_member(key),
        None => None,
    }
}

/// What was read from a JSON text.
pub struct ParsedJson {
    value: Option<serde_json::Value>,
}

impl ParsedJson {
    /// The value that was read; none where the text was not JSON.
    pub closed spec fn contents(self) -> Option<JsonView> {
        match self.value {
            Some(value) => Some(value_contents(value)),
            None => None,
        }
    }

    /// Reads a JSON text.
    pub fn parse(text: &[u8]) -> (r: ParsedJson)
        ensures
            r.contents() == json_parsing(text@),
    {
        ParsedJson { value: parse_value(text) }
    }

    /// The text that stands under `key` at the top level.
    pub fn text_member(&self, key: &str) -> (r: Option<String>)
        ensures
            opt_text(r) == (match self.contents() {
                Some(value) => value.text_member(key@),
                None => None,
            }),
    {
        match &self.value {
            Some(value) => match value_member(value, key) {
                Some(member) => match value_str(member) {
                    Some(s) => Some(s.to_owned()),
                    None => None,
                },
                None => None,
            },
            None => None,
        }
    }
}

}
