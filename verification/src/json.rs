//! JSON values.
//!
//! [`Json`] holds what `serde_json::Value` holds. Reading and writing JSON texts is `serde_json`'s
//! work; what the library decides, it decides on the values. Object members stand in key order, as
//! `serde_json` hands them out.

use crate::text::{comes_before, join, joined, lemma_texts_push, precedes, same, texts};
use serde_json::Value;
use vstd::prelude::*;

verus! {

/// A number that is not an integer, with the shortest numeral that `serde_json` writes for it. The
/// number itself is kept to be written again, since a numeral is not always read back as the number
/// that it was written for.
#[derive(Debug, PartialEq)]
pub struct Decimal {
    numeral: String,
    number: serde_json::Number,
}

/// `serde_json::Number`: a JSON number as `serde_json` holds it. Nothing is said of what is inside.
#[verifier::external_type_specification]
#[verifier::external_body]
pub struct ExNumber(serde_json::Number);

/// The `clone` of a `serde_json::Number` is the number itself.
pub assume_specification[ <serde_json::Number as Clone>::clone ](n: &serde_json::Number) -> (r:
    serde_json::Number)
    ensures
        r == *n,
;

/// The value of a decimal is its numeral: no two numbers are written with the same one.
impl View for Decimal {
    type V = Seq<char>;

    closed spec fn view(&self) -> Seq<char> {
        self.numeral@
    }
}

impl Clone for Decimal {
    fn clone(&self) -> (r: Self)
        ensures
            r == *self,
    {
        Decimal { numeral: self.numeral.clone(), number: self.number.clone() }
    }
}

/// A JSON value.
#[derive(Debug, PartialEq)]
pub enum Json {
    Null,
    Bool(bool),
    Unsigned(u64),
    Negative(i64),
    Decimal(Decimal),
    Text(String),
    Array(Vec<Json>),
    Object(Vec<(String, Json)>),
}

/// The mathematical value of a [`Json`].
pub ghost enum JsonView {
    Null,
    Bool(bool),
    Integer(int),
    Decimal(Seq<char>),
    Text(Seq<char>),
    Array(Seq<JsonView>),
    Object(Seq<(Seq<char>, JsonView)>),
}

impl View for Json {
    type V = JsonView;

    open spec fn view(&self) -> JsonView {
        json_view(*self)
    }
}

/// What a value is, by recursion over its items and members.
pub open spec fn json_view(j: Json) -> JsonView
    decreases j,
{
    match j {
        Json::Null => JsonView::Null,
        Json::Bool(b) => JsonView::Bool(b),
        Json::Unsigned(n) => JsonView::Integer(n as int),
        Json::Negative(n) => JsonView::Integer(n as int),
        Json::Decimal(d) => JsonView::Decimal(d@),
        Json::Text(s) => JsonView::Text(s@),
        Json::Array(items) => JsonView::Array(
            Seq::new(
                items@.len(),
                |i: int|
                    if 0 <= i < items@.len() {
                        json_view(items@[i])
                    } else {
                        JsonView::Null
                    },
            ),
        ),
        Json::Object(members) => JsonView::Object(
            Seq::new(
                members@.len(),
                |i: int|
                    if 0 <= i < members@.len() {
                        (members@[i].0@, json_view(members@[i].1))
                    } else {
                        (Seq::empty(), JsonView::Null)
                    },
            ),
        ),
    }
}

/// The values of a list.
pub open spec fn views(items: Seq<Json>) -> Seq<JsonView> {
    items.map_values(|j: Json| j@)
}

/// The values of a list of members.
pub open spec fn member_views(members: Seq<(String, Json)>) -> Seq<(Seq<char>, JsonView)> {
    members.map_values(|m: (String, Json)| (m.0@, m.1@))
}

/// An array's value is the values of its items.
pub broadcast proof fn lemma_array_view(items: Vec<Json>)
    ensures
        #[trigger] json_view(Json::Array(items)) == JsonView::Array(views(items@)),
{
    let a = json_view(Json::Array(items));
    assert(a->Array_0 =~= views(items@));
}

/// An object's value is the values of its members.
pub broadcast proof fn lemma_object_view(members: Vec<(String, Json)>)
    ensures
        #[trigger] json_view(Json::Object(members)) == JsonView::Object(member_views(members@)),
{
    let a = json_view(Json::Object(members));
    assert(a->Object_0 =~= member_views(members@));
}

/// Appending an item appends its value.
pub broadcast proof fn lemma_views_push(items: Seq<Json>, item: Json)
    ensures
        #[trigger] views(items.push(item)) == views(items).push(item@),
{
    assert(views(items.push(item)) =~= views(items).push(item@));
}

/// Appending a member appends its value.
pub broadcast proof fn lemma_member_views_push(members: Seq<(String, Json)>, m: (String, Json))
    ensures
        #[trigger] member_views(members.push(m)) == member_views(members).push((m.0@, m.1@)),
{
    assert(member_views(members.push(m)) =~= member_views(members).push((m.0@, m.1@)));
}

pub broadcast group group_json {
    lemma_array_view,
    lemma_object_view,
    lemma_views_push,
    lemma_member_views_push,
}

/// The value under a key in a list of members.
pub open spec fn lookup(members: Seq<(Seq<char>, JsonView)>, key: Seq<char>) -> Option<JsonView>
    decreases members.len(),
{
    if members.len() == 0 {
        None
    } else if members[0].0 == key {
        Some(members[0].1)
    } else {
        lookup(members.drop_first(), key)
    }
}

/// The value under a key of an object; nothing under a key of anything else.
pub open spec fn field(j: JsonView, key: Seq<char>) -> Option<JsonView> {
    match j {
        JsonView::Object(members) => lookup(members, key),
        _ => None,
    }
}

/// The text that a value is.
pub open spec fn as_text(j: JsonView) -> Option<Seq<char>> {
    match j {
        JsonView::Text(s) => Some(s),
        _ => None,
    }
}

/// The items of the array that a value is.
pub open spec fn as_items(j: JsonView) -> Option<Seq<JsonView>> {
    match j {
        JsonView::Array(items) => Some(items),
        _ => None,
    }
}

/// The members of the object that a value is.
pub open spec fn as_members(j: JsonView) -> Option<Seq<(Seq<char>, JsonView)>> {
    match j {
        JsonView::Object(members) => Some(members),
        _ => None,
    }
}

/// The truth value that a value is.
pub open spec fn as_truth(j: JsonView) -> Option<bool> {
    match j {
        JsonView::Bool(b) => Some(b),
        _ => None,
    }
}

/// The unsigned 64-bit number that a value is.
pub open spec fn as_unsigned(j: JsonView) -> Option<u64> {
    match j {
        JsonView::Integer(n) => if 0 <= n <= u64::MAX {
            Some(n as u64)
        } else {
            None
        },
        _ => None,
    }
}

/// The text under a key.
pub open spec fn text_field(j: JsonView, key: Seq<char>) -> Option<Seq<char>> {
    match field(j, key) {
        Some(value) => as_text(value),
        None => None,
    }
}

/// The unsigned number under a key.
pub open spec fn unsigned_field(j: JsonView, key: Seq<char>) -> Option<u64> {
    match field(j, key) {
        Some(value) => as_unsigned(value),
        None => None,
    }
}

/// The items under a key.
pub open spec fn items_field(j: JsonView, key: Seq<char>) -> Option<Seq<JsonView>> {
    match field(j, key) {
        Some(value) => as_items(value),
        None => None,
    }
}

impl Clone for Json {
    fn clone(&self) -> (r: Self)
        ensures
            r@ == self@,
        decreases self,
    {
        broadcast use group_json;

        match self {
            Json::Null => Json::Null,
            Json::Bool(b) => Json::Bool(*b),
            Json::Unsigned(n) => Json::Unsigned(*n),
            Json::Negative(n) => Json::Negative(*n),
            Json::Decimal(d) => Json::Decimal(d.clone()),
            Json::Text(s) => Json::Text(s.clone()),
            Json::Array(items) => {
                let mut r: Vec<Json> = Vec::new();
                let mut i: usize = 0;
                while i < items.len()
                    invariant
                        i <= items.len(),
                        self is Array,
                        *items == self->Array_0,
                        views(r@) == views(items@).take(i as int),
                    decreases items.len() - i,
                {
                    assert(decreases_to!(self => self->Array_0));
                    assert(decreases_to!(self->Array_0@ => items@[i as int]));
                    let item = items[i].clone();
                    proof {
                        lemma_views_push(r@, item);
                    }
                    r.push(item);
                    assert(views(r@) =~= views(items@).take(i + 1));
                    i = i + 1;
                }
                assert(views(r@) =~= views(items@));
                Json::Array(r)
            },
            Json::Object(members) => {
                let mut r: Vec<(String, Json)> = Vec::new();
                let mut i: usize = 0;
                while i < members.len()
                    invariant
                        i <= members.len(),
                        self is Object,
                        *members == self->Object_0,
                        member_views(r@) == member_views(members@).take(i as int),
                    decreases members.len() - i,
                {
                    assert(decreases_to!(self => self->Object_0));
                    assert(decreases_to!(self->Object_0@ => members@[i as int]));
                    assert(decreases_to!(members@[i as int] => members@[i as int].1));
                    let key = members[i].0.clone();
                    let value = members[i].1.clone();
                    proof {
                        lemma_member_views_push(r@, (key, value));
                    }
                    r.push((key, value));
                    assert(member_views(r@) =~= member_views(members@).take(i + 1));
                    i = i + 1;
                }
                assert(member_views(r@) =~= member_views(members@));
                Json::Object(r)
            },
        }
    }
}

/// The numerals of the two floating-point zeros, which compare equal.
pub open spec fn zero_numeral(s: Seq<char>) -> bool {
    s == "0.0"@ || s == "-0.0"@
}

/// Whether two values are equal as JSON values: the same, but for the sign of a zero.
pub open spec fn alike(a: JsonView, b: JsonView) -> bool
    decreases a,
{
    match (a, b) {
        (JsonView::Decimal(x), JsonView::Decimal(y)) => x == y || (zero_numeral(x) && zero_numeral(
            y,
        )),
        (JsonView::Array(x), JsonView::Array(y)) => {
            &&& x.len() == y.len()
            &&& forall|i: int| 0 <= i < x.len() ==> alike(#[trigger] x[i], y[i])
        },
        (JsonView::Object(x), JsonView::Object(y)) => {
            &&& x.len() == y.len()
            &&& forall|i: int|
                0 <= i < x.len() ==> (#[trigger] x[i]).0 == y[i].0 && alike(x[i].1, y[i].1)
        },
        _ => a == b,
    }
}

/// Every value is equal to itself.
pub proof fn lemma_alike_reflexive(a: JsonView)
    ensures
        alike(a, a),
    decreases a,
{
    match a {
        JsonView::Array(x) => {
            assert forall|i: int| 0 <= i < x.len() implies alike(#[trigger] x[i], x[i]) by {
                lemma_alike_reflexive(x[i]);
            }
        },
        JsonView::Object(x) => {
            assert forall|i: int| 0 <= i < x.len() implies (#[trigger] x[i]).0 == x[i].0 && alike(
                x[i].1,
                x[i].1,
            ) by {
                lemma_alike_reflexive(x[i].1);
            }
        },
        _ => {},
    }
}

fn is_zero_numeral(s: &str) -> (r: bool)
    ensures
        r == zero_numeral(s@),
{
    same(s, "0.0") || same(s, "-0.0")
}

impl Json {
    /// Compares two values.
    pub fn alike(&self, other: &Json) -> (r: bool)
        ensures
            r == alike(self@, other@),
        decreases self,
    {
        broadcast use group_json;

        match (self, other) {
            (Json::Null, Json::Null) => true,
            (Json::Bool(a), Json::Bool(b)) => *a == *b,
            (Json::Unsigned(a), Json::Unsigned(b)) => *a == *b,
            (Json::Negative(a), Json::Negative(b)) => *a == *b,
            (Json::Unsigned(a), Json::Negative(b)) => *b >= 0 && *a == *b as u64,
            (Json::Negative(a), Json::Unsigned(b)) => *a >= 0 && *a as u64 == *b,
            (Json::Decimal(a), Json::Decimal(b)) => a.numeral == b.numeral || (is_zero_numeral(
                a.numeral.as_str(),
            ) && is_zero_numeral(b.numeral.as_str())),
            (Json::Text(a), Json::Text(b)) => *a == *b,
            (Json::Array(a), Json::Array(b)) => {
                if a.len() != b.len() {
                    return false;
                }
                let mut i: usize = 0;
                while i < a.len()
                    invariant
                        i <= a.len(),
                        a.len() == b.len(),
                        self is Array,
                        *a == self->Array_0,
                        other is Array,
                        *b == other->Array_0,
                        forall|k: int| 0 <= k < i ==> alike(#[trigger] views(a@)[k], views(b@)[k]),
                    decreases a.len() - i,
                {
                    assert(decreases_to!(self => self->Array_0));
                    assert(decreases_to!(self->Array_0@ => a@[i as int]));
                    assert(views(a@)[i as int] == a@[i as int]@);
                    assert(views(b@)[i as int] == b@[i as int]@);
                    if !a[i].alike(&b[i]) {
                        proof {
                            lemma_array_view(*a);
                            lemma_array_view(*b);
                        }
                        return false;
                    }
                    i = i + 1;
                }
                true
            },
            (Json::Object(a), Json::Object(b)) => {
                if a.len() != b.len() {
                    return false;
                }
                let mut i: usize = 0;
                while i < a.len()
                    invariant
                        i <= a.len(),
                        a.len() == b.len(),
                        self is Object,
                        *a == self->Object_0,
                        other is Object,
                        *b == other->Object_0,
                        forall|k: int|
                            0 <= k < i ==> (#[trigger] member_views(a@)[k]).0 == member_views(b@)[k].0
                                && alike(member_views(a@)[k].1, member_views(b@)[k].1),
                    decreases a.len() - i,
                {
                    assert(decreases_to!(self => self->Object_0));
                    assert(decreases_to!(self->Object_0@ => a@[i as int]));
                    assert(decreases_to!(a@[i as int] => a@[i as int].1));
                    assert(member_views(a@)[i as int] == (a@[i as int].0@, a@[i as int].1@));
                    assert(member_views(b@)[i as int] == (b@[i as int].0@, b@[i as int].1@));
                    if a[i].0 != b[i].0 || !a[i].1.alike(&b[i].1) {
                        proof {
                            lemma_object_view(*a);
                            lemma_object_view(*b);
                        }
                        return false;
                    }
                    i = i + 1;
                }
                true
            },
            _ => false,
        }
    }

    /// The value under a key, where this is an object that has the key.
    pub fn get(&self, key: &str) -> (r: Option<&Json>)
        ensures
            match r {
                Some(v) => field(self@, key@) == Some(v@),
                None => field(self@, key@) is None,
            },
    {
        broadcast use group_json;

        match self {
            Json::Object(members) => find_member(members, key),
            _ => None,
        }
    }

    /// The text that this is.
    pub fn as_str(&self) -> (r: Option<&str>)
        ensures
            match r {
                Some(v) => as_text(self@) == Some(v@),
                None => as_text(self@) is None,
            },
    {
        match self {
            Json::Text(s) => Some(s.as_str()),
            _ => None,
        }
    }

    /// The items of the array that this is.
    pub fn as_array(&self) -> (r: Option<&Vec<Json>>)
        ensures
            match r {
                Some(v) => as_items(self@) == Some(views(v@)) && *self == Json::Array(*v),
                None => as_items(self@) is None,
            },
    {
        broadcast use group_json;

        match self {
            Json::Array(items) => Some(items),
            _ => None,
        }
    }

    /// The members of the object that this is.
    pub fn as_object(&self) -> (r: Option<&Vec<(String, Json)>>)
        ensures
            match r {
                Some(v) => as_members(self@) == Some(member_views(v@)) && *self == Json::Object(*v),
                None => as_members(self@) is None,
            },
    {
        broadcast use group_json;

        match self {
            Json::Object(members) => Some(members),
            _ => None,
        }
    }

    /// The truth value that this is.
    pub fn as_bool(&self) -> (r: Option<bool>)
        ensures
            r == as_truth(self@),
    {
        match self {
            Json::Bool(b) => Some(*b),
            _ => None,
        }
    }

    /// The unsigned number that this is.
    pub fn as_u64(&self) -> (r: Option<u64>)
        ensures
            r == as_unsigned(self@),
    {
        match self {
            Json::Unsigned(n) => Some(*n),
            Json::Negative(n) => if *n >= 0 {
                Some(*n as u64)
            } else {
                None
            },
            _ => None,
        }
    }

    /// The text under a key.
    pub fn text_at(&self, key: &str) -> (r: Option<&str>)
        ensures
            match r {
                Some(v) => text_field(self@, key@) == Some(v@),
                None => text_field(self@, key@) is None,
            },
    {
        match self.get(key) {
            Some(v) => v.as_str(),
            None => None,
        }
    }

    /// The unsigned number under a key.
    pub fn unsigned_at(&self, key: &str) -> (r: Option<u64>)
        ensures
            r == unsigned_field(self@, key@),
    {
        match self.get(key) {
            Some(v) => v.as_u64(),
            None => None,
        }
    }

    /// The items under a key.
    pub fn items_at(&self, key: &str) -> (r: Option<&Vec<Json>>)
        ensures
            match r {
                Some(v) => items_field(self@, key@) == Some(views(v@)),
                None => items_field(self@, key@) is None,
            },
    {
        match self.get(key) {
            Some(v) => v.as_array(),
            None => None,
        }
    }

    /// A JSON text.
    pub fn text(s: &str) -> (r: Json)
        ensures
            r@ == JsonView::Text(s@),
    {
        Json::Text(s.to_owned())
    }

    /// Reads a JSON text.
    pub fn parse(text: &str) -> (r: Result<Json, String>)
        ensures
            match r {
                Ok(j) => json_parsed(text@) == Ok::<JsonView, Seq<char>>(j@),
                Err(e) => json_parsed(text@) == Err::<JsonView, Seq<char>>(e@),
            },
    {
        read_value(text)
    }

    /// Writes this value as a compact JSON text.
    pub fn render(&self) -> (r: String)
        ensures
            r@ == json_text(self@),
    {
        write_value(self)
    }
}

/// Finds a member by its key.
pub fn find_member<'a>(members: &'a Vec<(String, Json)>, key: &str) -> (r: Option<&'a Json>)
    ensures
        match r {
            Some(v) => lookup(member_views(members@), key@) == Some(v@),
            None => lookup(member_views(members@), key@) is None,
        },
{
    let ghost all = member_views(members@);
    let mut i: usize = 0;
    assert(all.skip(0) =~= all);
    while i < members.len()
        invariant
            i <= members.len(),
            all == member_views(members@),
            lookup(all, key@) == lookup(all.skip(i as int), key@),
        decreases members.len() - i,
    {
        assert(all.skip(i as int)[0] == (members@[i as int].0@, members@[i as int].1@));
        if same(members[i].0.as_str(), key) {
            return Some(&members[i].1);
        }
        assert(all.skip(i as int).drop_first() =~= all.skip(i + 1));
        i = i + 1;
    }
    None
}

/// Appends a member.
pub fn put(members: &mut Vec<(String, Json)>, key: &str, value: Json)
    ensures
        member_views(final(members)@) == member_views(old(members)@).push((key@, value@)),
{
    let m = (key.to_owned(), value);
    proof {
        lemma_member_views_push(members@, m);
    }
    members.push(m);
}

/// `serde_json::Value`: a JSON value as `serde_json` holds it. Nothing is said of what is inside.
#[verifier::external_type_specification]
#[verifier::external_body]
pub struct ExValue(serde_json::Value);

/// Turns a `serde_json::Value` into a [`Json`], field for field.
#[verifier::external_body]
fn json_of(value: Value) -> Json {
    match value {
        Value::Null => Json::Null,
        Value::Bool(b) => Json::Bool(b),
        Value::Number(n) => match (n.as_u64(), n.as_i64()) {
            (Some(u), _) => Json::Unsigned(u),
            (None, Some(i)) => Json::Negative(i),
            (None, None) => Json::Decimal(Decimal { numeral: n.to_string(), number: n }),
        },
        Value::String(s) => Json::Text(s),
        Value::Array(items) => Json::Array(items.into_iter().map(json_of).collect()),
        Value::Object(members) => Json::Object(
            members.into_iter().map(|m| (m.0, json_of(m.1))).collect(),
        ),
    }
}

/// Turns a [`Json`] into a `serde_json::Value`, field for field.
#[verifier::external_body]
fn value_of(json: &Json) -> Value {
    match json {
        Json::Null => Value::Null,
        Json::Bool(b) => (*b).into(),
        Json::Unsigned(n) => (*n).into(),
        Json::Negative(n) => (*n).into(),
        Json::Decimal(d) => Value::Number(d.number.clone()),
        Json::Text(s) => s.as_str().into(),
        Json::Array(items) => items.iter().map(value_of).collect(),
        Json::Object(members) => members.iter().map(|m| (m.0.clone(), value_of(&m.1))).collect(),
    }
}

/// What `serde_json` reads in a text: a value, or the message of its error.
pub uninterp spec fn json_parsed(text: Seq<char>) -> Result<JsonView, Seq<char>>;

/// `serde_json::from_str`: the value that a text denotes, or the error's message. What either is
/// depends on the text alone.
#[verifier::external_body]
fn read_value(text: &str) -> (r: Result<Json, String>)
    ensures
        match r {
            Ok(j) => json_parsed(text@) == Ok::<JsonView, Seq<char>>(j@),
            Err(e) => json_parsed(text@) == Err::<JsonView, Seq<char>>(e@),
        },
{
    serde_json::from_str::<Value>(text).map(json_of).map_err(|error| error.to_string())
}

/// The compact text that `serde_json` writes for a value.
pub uninterp spec fn json_text(value: JsonView) -> Seq<char>;

/// `serde_json::Value::to_string`: the compact text of a value, which depends on the value alone.
#[verifier::external_body]
fn write_value(json: &Json) -> (r: String)
    ensures
        r@ == json_text(json@),
{
    value_of(json).to_string()
}

/// The JSON texts of some texts.
pub open spec fn quoted_texts(items: Seq<Seq<char>>) -> Seq<Seq<char>> {
    items.map_values(|s: Seq<char>| json_text(JsonView::Text(s)))
}

/// The compact JSON array of some texts.
pub open spec fn text_list_document(items: Seq<Seq<char>>) -> Seq<char> {
    "["@ + joined(quoted_texts(items), ","@) + "]"@
}

/// Writes one JSON text.
pub fn json_quote(s: &str) -> (r: String)
    ensures
        r@ == json_text(JsonView::Text(s@)),
{
    Json::text(s).render()
}

/// Writes the compact JSON array of some texts.
pub fn write_text_list(items: &Vec<String>) -> (r: String)
    ensures
        r@ == text_list_document(texts(items@)),
{
    let mut list: Vec<String> = Vec::new();
    let mut i: usize = 0;
    while i < items.len()
        invariant
            i <= items.len(),
            texts(list@) == quoted_texts(texts(items@)).take(i as int),
        decreases items.len() - i,
    {
        let item = json_quote(items[i].as_str());
        proof {
            lemma_texts_push(list@, item);
        }
        list.push(item);
        assert(texts(list@) =~= quoted_texts(texts(items@)).take(i + 1));
        i = i + 1;
    }
    assert(texts(list@) =~= quoted_texts(texts(items@)));
    let mut r = "[".to_owned();
    let inner = join(&list, ",");
    r.append(inner.as_str());
    r.append("]");
    r
}

/// Members without those of a key.
pub open spec fn without(members: Seq<(Seq<char>, JsonView)>, key: Seq<char>) -> Seq<
    (Seq<char>, JsonView),
>
    decreases members.len(),
{
    if members.len() == 0 {
        Seq::empty()
    } else if members.last().0 == key {
        without(members.drop_last(), key)
    } else {
        without(members.drop_last(), key).push(members.last())
    }
}

/// Members with a value under a key, in its place in the order of keys.
pub open spec fn with(members: Seq<(Seq<char>, JsonView)>, key: Seq<char>, value: JsonView) -> Seq<
    (Seq<char>, JsonView),
>
    decreases members.len(),
{
    if members.len() == 0 {
        seq![(key, value)]
    } else if members[0].0 == key {
        seq![(key, value)] + members.drop_first()
    } else if precedes(key, members[0].0) {
        seq![(key, value)] + members
    } else {
        seq![members[0]] + with(members.drop_first(), key, value)
    }
}

/// Taking a key out of two lists takes it out of both together.
pub proof fn lemma_without_concat(
    a: Seq<(Seq<char>, JsonView)>,
    b: Seq<(Seq<char>, JsonView)>,
    key: Seq<char>,
)
    ensures
        without(a + b, key) == without(a, key) + without(b, key),
    decreases b.len(),
{
    if b.len() == 0 {
        assert(a + b =~= a);
        assert(without(a, key) + without(b, key) =~= without(a, key));
    } else {
        assert((a + b).drop_last() =~= a + b.drop_last());
        lemma_without_concat(a, b.drop_last(), key);
        if b.last().0 != key {
            assert(without(a, key) + without(b.drop_last(), key).push(b.last()) =~= (without(
                a,
                key,
            ) + without(b.drop_last(), key)).push(b.last()));
        }
    }
}

/// Takes a key out of some members.
pub fn remove_member(members: Vec<(String, Json)>, key: &str) -> (r: Vec<(String, Json)>)
    ensures
        member_views(r@) == without(member_views(members@), key@),
{
    let ghost all = member_views(members@);
    let mut members = members;
    let mut reversed: Vec<(String, Json)> = Vec::new();
    while members.len() > 0
        invariant
            members@.len() + reversed@.len() == all.len(),
            forall|k: int|
                0 <= k < members@.len() ==> ((#[trigger] members@[k]).0@, members@[k].1@) == all[k],
            forall|k: int|
                0 <= k < reversed@.len() ==> ((#[trigger] reversed@[k]).0@, reversed@[k].1@)
                    == all[all.len() - 1 - k],
        decreases members@.len(),
    {
        match members.pop() {
            Some(m) => {
                reversed.push(m);
            },
            None => {},
        }
    }
    let mut r: Vec<(String, Json)> = Vec::new();
    assert(member_views(r@) =~= without(all.take(0), key@));
    while reversed.len() > 0
        invariant
            reversed@.len() <= all.len(),
            forall|k: int|
                0 <= k < reversed@.len() ==> ((#[trigger] reversed@[k]).0@, reversed@[k].1@)
                    == all[all.len() - 1 - k],
            member_views(r@) == without(all.take(all.len() - reversed@.len()), key@),
        decreases reversed@.len(),
    {
        let ghost done = all.len() - reversed@.len();
        match reversed.pop() {
            Some(m) => {
                assert((m.0@, m.1@) == all[done]);
                assert(all.take(done + 1).drop_last() =~= all.take(done));
                if !same(m.0.as_str(), key) {
                    proof {
                        lemma_member_views_push(r@, m);
                    }
                    r.push(m);
                }
            },
            None => {},
        }
    }
    assert(all.take(all.len() as int) =~= all);
    r
}

/// Puts a value under a key, in its place in the order of keys.
pub fn insert_member(members: &mut Vec<(String, Json)>, key: &str, value: Json)
    ensures
        member_views(final(members)@) == with(member_views(old(members)@), key@, value@),
{
    let ghost all = member_views(members@);
    let ghost v = value@;
    let mut i: usize = 0;
    assert(all.take(0) + with(all.skip(0), key@, v) =~= with(all, key@, v)) by {
        assert(all.skip(0) =~= all);
    }
    while i < members.len()
        invariant
            i <= members.len(),
            all == member_views(members@),
            members@ == old(members)@,
            value@ == v,
            with(all, key@, v) == all.take(i as int) + with(all.skip(i as int), key@, v),
        decreases members.len() - i,
    {
        let ghost rest = all.skip(i as int);
        assert(rest[0] == (members@[i as int].0@, members@[i as int].1@));
        if same(members[i].0.as_str(), key) {
            let m = (key.to_owned(), value);
            members.set(i, m);
            assert(member_views(members@) =~= all.take(i as int) + (seq![(key@, v)]
                + rest.drop_first()));
            return;
        }
        if comes_before(key, members[i].0.as_str()) {
            let m = (key.to_owned(), value);
            members.insert(i, m);
            assert(member_views(members@) =~= all.take(i as int) + (seq![(key@, v)] + rest));
            return;
        }
        assert(rest.drop_first() =~= all.skip(i + 1));
        assert(all.take(i as int) + (seq![rest[0]] + with(all.skip(i + 1), key@, v)) =~= all.take(
            i + 1,
        ) + with(all.skip(i + 1), key@, v));
        i = i + 1;
    }
    assert(all.skip(all.len() as int) =~= Seq::<(Seq<char>, JsonView)>::empty());
    assert(with(all, key@, v) =~= all.push((key@, v)));
    put(members, key, value);
}

/// The value at the end of two keys.
pub open spec fn field2(j: JsonView, a: Seq<char>, b: Seq<char>) -> Option<JsonView> {
    match field(j, a) {
        Some(v) => field(v, b),
        None => None,
    }
}

/// The value at the end of three keys.
pub open spec fn field3(j: JsonView, a: Seq<char>, b: Seq<char>, c: Seq<char>) -> Option<JsonView> {
    match field2(j, a, b) {
        Some(v) => field(v, c),
        None => None,
    }
}

/// The text of a value that may be missing.
pub open spec fn text_in(j: Option<JsonView>) -> Option<Seq<char>> {
    match j {
        Some(v) => as_text(v),
        None => None,
    }
}

/// The number of a value that may be missing, zero where there is none.
pub open spec fn number_in(j: Option<JsonView>) -> u64 {
    match j {
        Some(v) => match as_unsigned(v) {
            Some(n) => n,
            None => 0,
        },
        None => 0,
    }
}

/// The value of a JSON value that may be missing.
pub open spec fn json_maybe(j: Option<&Json>) -> Option<JsonView> {
    match j {
        Some(v) => Some(v@),
        None => None,
    }
}

impl Json {
    /// The value at the end of two keys.
    pub fn get2(&self, a: &str, b: &str) -> (r: Option<&Json>)
        ensures
            json_maybe(r) == field2(self@, a@, b@),
    {
        match self.get(a) {
            Some(v) => v.get(b),
            None => None,
        }
    }

    /// The value at the end of three keys.
    pub fn get3(&self, a: &str, b: &str, c: &str) -> (r: Option<&Json>)
        ensures
            json_maybe(r) == field3(self@, a@, b@, c@),
    {
        match self.get2(a, b) {
            Some(v) => v.get(c),
            None => None,
        }
    }
}

/// Reads the text of a value that may be missing.
pub fn read_text<'a>(j: Option<&'a Json>) -> (r: Option<&'a str>)
    ensures
        crate::text::maybe_str(r) == text_in(json_maybe(j)),
{
    match j {
        Some(v) => v.as_str(),
        None => None,
    }
}

/// Reads the number of a value that may be missing.
pub fn read_number(j: Option<&Json>) -> (r: u64)
    ensures
        r == number_in(json_maybe(j)),
{
    match j {
        Some(v) => match v.as_u64() {
            Some(n) => n,
            None => 0,
        },
        None => 0,
    }
}

/// Taking a key out twice is taking it out once, and keys come out in any order.
pub proof fn lemma_without_settles(m: Seq<(Seq<char>, JsonView)>, a: Seq<char>, b: Seq<char>)
    ensures
        without(without(m, a), a) == without(m, a),
        without(without(m, a), b) == without(without(m, b), a),
    decreases m.len(),
{
    if m.len() > 0 {
        let rest = m.drop_last();
        lemma_without_settles(rest, a, b);
        assert(without(rest, a).push(m.last()).drop_last() =~= without(rest, a));
        assert(without(rest, b).push(m.last()).drop_last() =~= without(rest, b));
    }
}

} // verus!
