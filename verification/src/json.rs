//! JSON values as plain data: reading members, building objects, and parsing text.

use crate::text::same;
use vstd::prelude::*;
use vstd::string::*;
use vstd::utf8::*;

verus! {

/// A JSON number. `Decimal` keeps the text of a number that is no 64-bit integer.
#[derive(Debug, PartialEq)]
pub enum JsonNumber {
    Unsigned(u64),
    Negative(i64),
    Decimal(String),
}

/// A JSON number with its text as a sequence of characters.
pub enum JsonNumberView {
    Unsigned(u64),
    Negative(i64),
    Decimal(Seq<char>),
}

impl View for JsonNumber {
    type V = JsonNumberView;

    open spec fn view(&self) -> JsonNumberView {
        match self {
            JsonNumber::Unsigned(n) => JsonNumberView::Unsigned(*n),
            JsonNumber::Negative(n) => JsonNumberView::Negative(*n),
            JsonNumber::Decimal(s) => JsonNumberView::Decimal(s@),
        }
    }
}

/// A JSON value. An object lists its members in order; where a key occurs twice, the first counts.
#[derive(Debug, PartialEq)]
pub enum Json {
    Null,
    Bool(bool),
    Number(JsonNumber),
    Text(String),
    Array(Vec<Json>),
    Object(Vec<(String, Json)>),
}

/// A JSON value with every text as a sequence of characters.
pub enum JsonView {
    Null,
    Bool(bool),
    Number(JsonNumberView),
    Text(Seq<char>),
    Array(Seq<JsonView>),
    Object(Seq<(Seq<char>, JsonView)>),
}

impl View for Json {
    type V = JsonView;

    open spec fn view(&self) -> JsonView
        decreases self,
    {
        match self {
            Json::Null => JsonView::Null,
            Json::Bool(b) => JsonView::Bool(*b),
            Json::Number(n) => JsonView::Number(n@),
            Json::Text(s) => JsonView::Text(s@),
            Json::Array(list) => JsonView::Array(
                Seq::new(
                    list@.len(),
                    |i: int|
                        if 0 <= i < list@.len() {
                            list@[i].view()
                        } else {
                            JsonView::Null
                        },
                ),
            ),
            Json::Object(list) => JsonView::Object(
                Seq::new(
                    list@.len(),
                    |i: int|
                        if 0 <= i < list@.len() {
                            (list@[i].0@, list@[i].1.view())
                        } else {
                            (Seq::empty(), JsonView::Null)
                        },
                ),
            ),
        }
    }
}

/// The contents of a list of values.
pub open spec fn items(list: Seq<Json>) -> Seq<JsonView> {
    Seq::new(list.len(), |i: int| list[i]@)
}

/// The contents of a list of members.
pub open spec fn pairs(list: Seq<(String, Json)>) -> Seq<(Seq<char>, JsonView)> {
    Seq::new(list.len(), |i: int| (list[i].0@, list[i].1@))
}

/// What an array holds, element by element.
pub proof fn lemma_array_view(list: Vec<Json>)
    ensures
        Json::Array(list)@ == JsonView::Array(items(list@)),
{
    reveal_with_fuel(<Json as View>::view, 2);
    assert(Json::Array(list)@->Array_0 =~= items(list@));
}

/// What an object holds, member by member.
pub proof fn lemma_object_view(list: Vec<(String, Json)>)
    ensures
        Json::Object(list)@ == JsonView::Object(pairs(list@)),
{
    reveal_with_fuel(<Json as View>::view, 2);
    assert(Json::Object(list)@->Object_0 =~= pairs(list@));
}

/// Position of the first member with the key, or the number of members when there is none.
pub open spec fn key_position(list: Seq<(Seq<char>, JsonView)>, key: Seq<char>) -> nat
    decreases list.len(),
{
    if list.len() == 0 || list[0].0 == key {
        0
    } else {
        1 + key_position(list.skip(1), key)
    }
}

proof fn lemma_key_position(list: Seq<(Seq<char>, JsonView)>, key: Seq<char>, n: nat)
    requires
        n <= list.len(),
        n < list.len() ==> list[n as int].0 == key,
        forall|i: int| 0 <= i < n ==> (#[trigger] list[i]).0 != key,
    ensures
        key_position(list, key) == n,
    decreases list.len(),
{
    if list.len() > 0 && list[0].0 != key {
        assert(n > 0);
        assert forall|i: int| 0 <= i < n - 1 implies (#[trigger] list.skip(1)[i]).0 != key by {
            assert(list.skip(1)[i] == list[i + 1]);
        }
        lemma_key_position(list.skip(1), key, (n - 1) as nat);
    }
}

impl JsonView {
    /// The member of an object with the given key.
    pub open spec fn get(self, key: Seq<char>) -> Option<JsonView> {
        match self {
            JsonView::Object(list) => if key_position(list, key) < list.len() {
                Some(list[key_position(list, key) as int].1)
            } else {
                None
            },
            _ => None,
        }
    }

    /// The member of an object with the given key; null when there is none.
    pub open spec fn field(self, key: Seq<char>) -> JsonView {
        match self.get(key) {
            Some(value) => value,
            None => JsonView::Null,
        }
    }

    /// The first element of an array; null when there is none.
    pub open spec fn first(self) -> JsonView {
        match self {
            JsonView::Array(list) => if list.len() > 0 {
                list[0]
            } else {
                JsonView::Null
            },
            _ => JsonView::Null,
        }
    }

    /// The text, when the value is one.
    pub open spec fn text(self) -> Option<Seq<char>> {
        match self {
            JsonView::Text(s) => Some(s),
            _ => None,
        }
    }

    /// The text, or `default` when the value is none.
    pub open spec fn text_or(self, default: Seq<char>) -> Seq<char> {
        match self {
            JsonView::Text(s) => s,
            _ => default,
        }
    }

    /// The boolean, when the value is one.
    pub open spec fn flag(self) -> Option<bool> {
        match self {
            JsonView::Bool(b) => Some(b),
            _ => None,
        }
    }

    /// The number, when the value is a non-negative integer below 2^64.
    pub open spec fn unsigned(self) -> Option<u64> {
        match self {
            JsonView::Number(JsonNumberView::Unsigned(n)) => Some(n),
            _ => None,
        }
    }

    /// The elements, when the value is an array.
    pub open spec fn array(self) -> Option<Seq<JsonView>> {
        match self {
            JsonView::Array(list) => Some(list),
            _ => None,
        }
    }

    /// The elements of an array; none for any other value.
    pub open spec fn elements(self) -> Seq<JsonView> {
        match self {
            JsonView::Array(list) => list,
            _ => Seq::empty(),
        }
    }
}

/// The content of an optional text.
pub open spec fn opt_text(s: Option<&str>) -> Option<Seq<char>> {
    match s {
        Some(t) => Some(t@),
        None => None,
    }
}

/// The content of an optional value.
pub open spec fn opt_json(v: Option<&Json>) -> Option<JsonView> {
    match v {
        Some(j) => Some(j@),
        None => None,
    }
}

impl Json {
    /// The member of an object with the given key.
    pub fn get(&self, key: &str) -> (r: Option<&Json>)
        ensures
            opt_json(r) == self@.get(key@),
    {
        match self {
            Json::Object(list) => {
                proof {
                    lemma_object_view(*list);
                }
                let mut i: usize = 0;
                while i < list.len()
                    invariant
                        i <= list@.len(),
                        self@ == JsonView::Object(pairs(list@)),
                        forall|k: int| 0 <= k < i ==> (#[trigger] pairs(list@)[k]).0 != key@,
                    decreases list@.len() - i,
                {
                    if same(list[i].0.as_str(), key) {
                        proof {
                            lemma_key_position(pairs(list@), key@, i as nat);
                        }
                        return Some(&list[i].1);
                    }
                    i = i + 1;
                }
                proof {
                    lemma_key_position(pairs(list@), key@, i as nat);
                }
                None
            },
            _ => None,
        }
    }

    /// The member of an object with the given key; null when there is none.
    pub fn field(&self, key: &str) -> (r: &Json)
        ensures
            r@ == self@.field(key@),
    {
        match self.get(key) {
            Some(value) => value,
            None => &Json::Null,
        }
    }

    /// The first element of an array; null when there is none.
    pub fn first(&self) -> (r: &Json)
        ensures
            r@ == self@.first(),
    {
        match self {
            Json::Array(list) => {
                proof {
                    lemma_array_view(*list);
                }
                if list.len() > 0 {
                    &list[0]
                } else {
                    &Json::Null
                }
            },
            _ => &Json::Null,
        }
    }

    /// The text, when the value is one.
    pub fn text(&self) -> (r: Option<&str>)
        ensures
            opt_text(r) == self@.text(),
    {
        match self {
            Json::Text(s) => Some(s.as_str()),
            _ => None,
        }
    }

    /// The text, or `default` when the value is none.
    pub fn text_or<'a>(&'a self, default: &'a str) -> (r: &'a str)
        ensures
            r@ == self@.text_or(default@),
    {
        match self {
            Json::Text(s) => s.as_str(),
            _ => default,
        }
    }

    /// The boolean, when the value is one.
    pub fn flag(&self) -> (r: Option<bool>)
        ensures
            r == self@.flag(),
    {
        match self {
            Json::Bool(b) => Some(*b),
            _ => None,
        }
    }

    /// The number, when the value is a non-negative integer below 2^64.
    pub fn unsigned(&self) -> (r: Option<u64>)
        ensures
            r == self@.unsigned(),
    {
        match self {
            Json::Number(JsonNumber::Unsigned(n)) => Some(*n),
            _ => None,
        }
    }

    /// The elements, when the value is an array.
    pub fn array(&self) -> (r: Option<&Vec<Json>>)
        ensures
            match r {
                Some(list) => self@.array() == Some(items(list@)),
                None => self@.array() is None,
            },
    {
        match self {
            Json::Array(list) => {
                proof {
                    lemma_array_view(*list);
                }
                Some(list)
            },
            _ => None,
        }
    }

    /// An array of the given values.
    pub fn from_items(list: Vec<Json>) -> (r: Json)
        ensures
            r@ == JsonView::Array(items(list@)),
    {
        let r = Json::Array(list);
        proof {
            lemma_array_view(list);
        }
        r
    }

    /// An object of the given members.
    pub fn from_members(list: Vec<(String, Json)>) -> (r: Json)
        ensures
            r@ == JsonView::Object(pairs(list@)),
    {
        let r = Json::Object(list);
        proof {
            lemma_object_view(list);
        }
        r
    }

    /// A text.
    pub fn from_text(s: &str) -> (r: Json)
        ensures
            r@ == JsonView::Text(s@),
    {
        Json::Text(s.to_string())
    }

    /// A non-negative integer.
    pub fn from_unsigned(n: u64) -> (r: Json)
        ensures
            r@ == JsonView::Number(JsonNumberView::Unsigned(n)),
    {
        Json::Number(JsonNumber::Unsigned(n))
    }

    /// The same value again.
    pub fn copy(&self) -> (r: Json)
        ensures
            r@ == self@,
        decreases self,
    {
        match self {
            Json::Null => Json::Null,
            Json::Bool(b) => Json::Bool(*b),
            Json::Number(JsonNumber::Unsigned(n)) => Json::Number(JsonNumber::Unsigned(*n)),
            Json::Number(JsonNumber::Negative(n)) => Json::Number(JsonNumber::Negative(*n)),
            Json::Number(JsonNumber::Decimal(s)) => Json::Number(JsonNumber::Decimal(s.clone())),
            Json::Text(s) => Json::Text(s.clone()),
            Json::Array(list) => {
                let mut out: Vec<Json> = Vec::new();
                let mut i: usize = 0;
                while i < list.len()
                    invariant
                        i <= list@.len(),
                        *self == Json::Array(*list),
                        items(out@) == items(list@).take(i as int),
                    decreases list@.len() - i,
                {
                    let ghost before = items(out@);
                    assert(decreases_to!(*self => self->Array_0));
                    assert(decreases_to!(*list => list@));
                    assert(decreases_to!(list@ => list@[i as int]));
                    let item = list[i].copy();
                    out.push(item);
                    i = i + 1;
                    assert(items(out@) == before.push(item@));
                    assert(items(list@).take(i as int) == items(list@).take(i - 1).push(item@));
                }
                assert(items(out@) == items(list@));
                proof {
                    lemma_array_view(*list);
                }
                Json::from_items(out)
            },
            Json::Object(list) => {
                let mut out: Vec<(String, Json)> = Vec::new();
                let mut i: usize = 0;
                while i < list.len()
                    invariant
                        i <= list@.len(),
                        *self == Json::Object(*list),
                        pairs(out@) == pairs(list@).take(i as int),
                    decreases list@.len() - i,
                {
                    let ghost before = pairs(out@);
                    assert(decreases_to!(*self => self->Object_0));
                    assert(decreases_to!(*list => list@));
                    assert(decreases_to!(list@ => list@[i as int]));
                    assert(decreases_to!(list@[i as int] => list@[i as int].1));
                    let key = list[i].0.clone();
                    let value = list[i].1.copy();
                    out.push((key, value));
                    i = i + 1;
                    assert(pairs(out@) == before.push((key@, value@)));
                    assert(pairs(list@).take(i as int) == pairs(list@).take(i - 1).push(
                        (key@, value@),
                    ));
                }
                assert(pairs(out@) == pairs(list@));
                proof {
                    lemma_object_view(*list);
                }
                Json::from_members(out)
            },
        }
    }
}

/// Appends a member.
pub fn put(list: &mut Vec<(String, Json)>, key: &str, value: Json)
    ensures
        pairs(final(list)@) == pairs(old(list)@).push((key@, value@)),
{
    list.push((key.to_string(), value));
    assert(pairs(list@) == pairs(old(list)@).push((key@, value@)));
}

// ---- Parsing and printing ----------------------------------------------------------------------

/// A parsed JSON document.
#[verifier::external_type_specification]
#[verifier::external_body]
pub struct ExJsonValue(serde_json::Value);

/// Why a text is no JSON document.
#[verifier::external_type_specification]
#[verifier::external_body]
pub struct ExJsonError(serde_json::Error);

/// What a parsed document holds.
pub uninterp spec fn value_tree(value: serde_json::Value) -> JsonView;

/// The value that bytes hold as a JSON document, if they are one: what `serde_json::from_slice`
/// makes of them.
pub uninterp spec fn parsed(bytes: Seq<u8>) -> Option<JsonView>;

/// The indented text of a value: what `serde_json::to_string_pretty` makes of it.
pub uninterp spec fn pretty(tree: JsonView) -> Option<Seq<char>>;

/// `serde_json::from_slice` into a `serde_json::Value`: whether it succeeds, and what the document
/// then holds, depends on the bytes alone.
#[verifier::external_body]
fn value_from_slice(bytes: &[u8]) -> (r: Result<serde_json::Value, serde_json::Error>)
    ensures
        match r {
            Ok(value) => parsed(bytes@) == Some(value_tree(value)),
            Err(_) => parsed(bytes@) is None,
        },
{
    serde_json::from_slice(bytes)
}

/// Hands out what a `serde_json::Value` holds, variant by variant and element by element, in the
/// order in which its arrays and maps are walked.
#[verifier::external_body]
fn json_from_value(value: serde_json::Value) -> (json: Json)
    ensures
        json@ == value_tree(value),
{
    match value {
        serde_json::Value::Null => Json::Null,
        serde_json::Value::Bool(b) => Json::Bool(b),
        serde_json::Value::Number(n) => Json::Number(match (n.as_u64(), n.as_i64()) {
            (Some(u), _) => JsonNumber::Unsigned(u),
            (None, Some(i)) => JsonNumber::Negative(i),
            (None, None) => JsonNumber::Decimal(n.to_string()),
        }),
        serde_json::Value::String(s) => Json::Text(s),
        serde_json::Value::Array(a) => Json::Array(a.into_iter().map(json_from_value).collect()),
        serde_json::Value::Object(m) =>
            Json::Object(m.into_iter().map(|(k, v)| (k, json_from_value(v))).collect()),
    }
}

/// `serde_json::to_string_pretty`: the text depends on what the document holds alone.
#[verifier::external_body]
fn value_to_string_pretty(value: &serde_json::Value) -> (r: Result<String, serde_json::Error>)
    ensures
        match r {
            Ok(text) => pretty(value_tree(*value)) == Some(text@),
            Err(_) => pretty(value_tree(*value)) is None,
        },
{
    serde_json::to_string_pretty(value)
}

/// The value that bytes hold as a JSON document, if they are one.
pub fn parse_bytes(bytes: &[u8]) -> (r: Option<Json>)
    ensures
        match r {
            Some(json) => parsed(bytes@) == Some(json@),
            None => parsed(bytes@) is None,
        },
{
    match value_from_slice(bytes) {
        Ok(value) => Some(json_from_value(value)),
        Err(_) => None,
    }
}

/// The value that a text holds as a JSON document, if it is one.
pub fn parse_text(text: &str) -> (r: Option<Json>)
    ensures
        match r {
            Some(json) => parsed(encode_utf8(text@)) == Some(json@),
            None => parsed(encode_utf8(text@)) is None,
        },
{
    parse_bytes(text.as_bytes())
}

/// A text that is a JSON document, indented; any other text as it is.
pub open spec fn prettified(text: Seq<char>) -> Seq<char> {
    match parsed(encode_utf8(text)) {
        Some(tree) => match pretty(tree) {
            Some(indented) => indented,
            None => text,
        },
        None => text,
    }
}

/// Indents a text that is a JSON document; hands any other text back.
pub fn prettify(text: &str) -> (r: String)
    ensures
        r@ == prettified(text@),
{
    match value_from_slice(text.as_bytes()) {
        Ok(value) => match value_to_string_pretty(&value) {
            Ok(indented) => indented,
            Err(_) => text.to_string(),
        },
        Err(_) => text.to_string(),
    }
}

// ---- Laws --------------------------------------------------------------------------------------

/// The member with a key is the first one of that name; what is no object has no members.
pub proof fn law_first_member_counts(list: Seq<(Seq<char>, JsonView)>, key: Seq<char>, i: int)
    ensures
        0 <= i < list.len() && list[i].0 == key && (forall|j: int|
            0 <= j < i ==> (#[trigger] list[j]).0 != key) ==> JsonView::Object(list).get(key)
            == Some(list[i].1) && JsonView::Object(list).field(key) == list[i].1,
        (forall|j: int| 0 <= j < list.len() ==> (#[trigger] list[j]).0 != key)
            ==> JsonView::Object(list).get(key) is None && JsonView::Object(list).field(key)
            == JsonView::Null,
{
    if 0 <= i < list.len() && list[i].0 == key && (forall|j: int|
        0 <= j < i ==> (#[trigger] list[j]).0 != key) {
        lemma_key_position(list, key, i as nat);
    }
    if forall|j: int| 0 <= j < list.len() ==> (#[trigger] list[j]).0 != key {
        lemma_key_position(list, key, list.len());
    }
}

/// Only an object has members.
pub proof fn law_only_objects_have_members(value: JsonView, key: Seq<char>)
    ensures
        value.get(key) is Some ==> value is Object,
        value.get(key) is None ==> value.field(key) == JsonView::Null,
        value.get(key) matches Some(member) ==> value.field(key) == member,
{
}

/// Every reader gives back what a value of its kind holds, and nothing of any other value.
pub proof fn law_readers_give_back(
    value: JsonView,
    s: Seq<char>,
    other: Seq<char>,
    b: bool,
    n: u64,
    list: Seq<JsonView>,
)
    ensures
        value.text() == Some(s) <==> value == JsonView::Text(s),
        JsonView::Text(s).text_or(other) == s,
        !(value is Text) ==> value.text_or(other) == other,
        value.flag() == Some(b) <==> value == JsonView::Bool(b),
        value.unsigned() == Some(n) <==> value == JsonView::Number(JsonNumberView::Unsigned(n)),
        value.array() == Some(list) <==> value == JsonView::Array(list),
        JsonView::Array(list).elements() == list,
        !(value is Array) ==> value.elements().len() == 0,
        list.len() > 0 ==> JsonView::Array(list).first() == list[0],
        list.len() == 0 ==> JsonView::Array(list).first() == JsonView::Null,
        !(value is Array) ==> value.first() == JsonView::Null,
{
}

/// A text that is no JSON document stays as it is, and so does one that cannot be indented; any
/// other is indented.
pub proof fn law_only_documents_are_indented(text: Seq<char>, indented: Seq<char>)
    ensures
        parsed(encode_utf8(text)) is None ==> prettified(text) == text,
        parsed(encode_utf8(text)) is Some && pretty(parsed(encode_utf8(text))->0) is None
            ==> prettified(text) == text,
        parsed(encode_utf8(text)) is Some && pretty(parsed(encode_utf8(text))->0) == Some(indented)
            ==> prettified(text) == indented,
{
}

/// A value is seen whole: every element of an array and every member of an object, in order.
pub proof fn law_values_are_seen_whole(
    list: Vec<Json>,
    members: Vec<(String, Json)>,
    i: int,
    s: String,
    b: bool,
    n: u64,
)
    ensures
        Json::Text(s)@ == JsonView::Text(s@),
        Json::Bool(b)@ == JsonView::Bool(b),
        Json::Null@ == JsonView::Null,
        Json::Number(JsonNumber::Unsigned(n))@ == JsonView::Number(JsonNumberView::Unsigned(n)),
        Json::Array(list)@ matches JsonView::Array(seen) && seen.len() == list@.len() && (0 <= i
            < list@.len() ==> seen[i] == list@[i]@),
        Json::Object(members)@ matches JsonView::Object(seen) && seen.len() == members@.len() && (0
            <= i < members@.len() ==> seen[i].0 == members@[i].0@ && seen[i].1 == members@[i].1@),
        items(list@).len() == list@.len(),
        0 <= i < list@.len() ==> items(list@)[i] == list@[i]@,
        pairs(members@).len() == members@.len(),
        0 <= i < members@.len() ==> pairs(members@)[i].0 == members@[i].0@ && pairs(members@)[i].1
            == members@[i].1@,
{
    lemma_array_view(list);
    lemma_object_view(members);
}

} // verus!
