//! Values held against the schemas of workflow programs.

use crate::json::{
    alike, as_members, as_truth, field, find_member, group_json, items_field, lookup, member_views,
    text_field, views, Json, JsonView,
};
use crate::text::{decimal, number, same};
use vstd::prelude::*;

verus! {

broadcast use group_json;

/// What lies under a key is smaller than what holds the key.
pub proof fn lemma_lookup_is_smaller(members: Seq<(Seq<char>, JsonView)>, key: Seq<char>)
    ensures
        lookup(members, key) matches Some(v) ==> exists|i: int|
            0 <= i < members.len() && (#[trigger] members[i]).1 == v,
    decreases members.len(),
{
    if members.len() > 0 && members[0].0 != key {
        let rest = members.drop_first();
        lemma_lookup_is_smaller(rest, key);
        if let Some(v) = lookup(rest, key) {
            let i = choose|i: int| 0 <= i < rest.len() && (#[trigger] rest[i]).1 == v;
            assert(members[i + 1].1 == v);
        }
    } else if members.len() > 0 {
        assert(members[0].1 == lookup(members, key)->0);
    }
}

/// What lies under a key is smaller than what holds the key.
pub proof fn lemma_field_is_smaller(j: JsonView, key: Seq<char>)
    ensures
        field(j, key) matches Some(v) ==> decreases_to!(j => v),
{
    if let JsonView::Object(members) = j {
        lemma_lookup_is_smaller(members, key);
        if let Some(v) = lookup(members, key) {
            let i = choose|i: int| 0 <= i < members.len() && (#[trigger] members[i]).1 == v;
            assert(decreases_to!(j => members));
            assert(decreases_to!(members => members[i]));
            assert(decreases_to!(members[i] => members[i].1));
        }
    }
}

/// What lies under two keys is smaller than what holds the first.
pub proof fn lemma_field2_is_smaller(j: JsonView, a: Seq<char>, b: Seq<char>)
    ensures
        field(j, a) matches Some(v) ==> (field(v, b) matches Some(w) ==> decreases_to!(j => w)),
{
    lemma_field_is_smaller(j, a);
    if let Some(v) = field(j, a) {
        lemma_field_is_smaller(v, b);
    }
}

/// Whether a schema says anything.
pub open spec fn says_something(schema: JsonView) -> bool {
    as_members(schema) matches Some(members) && members.len() > 0
}

/// Whether a schema that lists the allowed values lists a value.
pub open spec fn is_listed(schema: JsonView, value: JsonView) -> bool {
    match items_field(schema, "enum"@) {
        Some(allowed) => is_among(allowed, value),
        None => true,
    }
}

/// Whether one of some values is alike a value.
pub open spec fn is_among(allowed: Seq<JsonView>, value: JsonView) -> bool {
    exists|i: int| 0 <= i < allowed.len() && alike(#[trigger] allowed[i], value)
}

/// What a schema says of the type of a value that has no parts.
pub open spec fn plain_fault(kind: Seq<char>, value: JsonView) -> Option<Seq<char>> {
    if kind == "string"@ && !(value is Text) {
        Some(" must be a string"@)
    } else if kind == "integer"@ && !(value is Integer) {
        Some(" must be an integer"@)
    } else if kind == "number"@ && !(value is Integer || value is Decimal) {
        Some(" must be a number"@)
    } else if kind == "boolean"@ && !(value is Bool) {
        Some(" must be a boolean"@)
    } else if kind == "null"@ && !(value is Null) {
        Some(" must be null"@)
    } else {
        None
    }
}

/// The path to a member.
pub open spec fn member_path(path: Seq<char>, key: Seq<char>) -> Seq<char> {
    path + "."@ + key
}

/// The path to an item.
pub open spec fn item_path(path: Seq<char>, index: int) -> Seq<char> {
    path + "["@ + decimal(index as nat) + "]"@
}

/// The first key of a list that is required and missing.
pub open spec fn missing_key(required: Seq<JsonView>, members: Seq<(Seq<char>, JsonView)>) -> Option<
    Seq<char>,
>
    decreases required.len(),
{
    if required.len() == 0 {
        None
    } else {
        match as_key(required[0]) {
            Some(key) => if lookup(members, key) is None {
                Some(key)
            } else {
                missing_key(required.drop_first(), members)
            },
            None => missing_key(required.drop_first(), members),
        }
    }
}

/// A value that names a key.
pub open spec fn as_key(j: JsonView) -> Option<Seq<char>> {
    match j {
        JsonView::Text(key) => Some(key),
        _ => None,
    }
}

/// The first key of members that is none of the properties.
pub open spec fn stray_key(
    members: Seq<(Seq<char>, JsonView)>,
    properties: Option<Seq<(Seq<char>, JsonView)>>,
) -> Option<Seq<char>>
    decreases members.len(),
{
    if members.len() == 0 {
        None
    } else if properties matches Some(p) && lookup(p, members[0].0) is Some {
        stray_key(members.drop_first(), properties)
    } else {
        Some(members[0].0)
    }
}

/// The properties that a schema describes.
pub open spec fn properties_of(schema: JsonView) -> Option<Seq<(Seq<char>, JsonView)>> {
    match field(schema, "properties"@) {
        Some(p) => as_members(p),
        None => None,
    }
}

/// What is wrong with the members of an object as a whole.
pub open spec fn shape_fault(
    schema: JsonView,
    members: Seq<(Seq<char>, JsonView)>,
    path: Seq<char>,
) -> Option<Seq<char>> {
    let missing = match items_field(schema, "required"@) {
        Some(required) => missing_key(required, members),
        None => None,
    };
    match missing {
        Some(key) => Some(member_path(path, key) + " is required"@),
        None => {
            let closed = match field(schema, "additionalProperties"@) {
                Some(v) => as_truth(v) == Some(false),
                None => false,
            };
            let stray = if closed {
                stray_key(members, properties_of(schema))
            } else {
                None
            };
            match stray {
                Some(key) => Some(member_path(path, key) + " is not an allowed field"@),
                None => None,
            }
        },
    }
}

/// What is wrong with a value, held against a schema.
pub open spec fn schema_fault(schema: JsonView, value: JsonView, path: Seq<char>) -> Option<Seq<char>>
    decreases schema, 1nat, 0nat,
{
    if !says_something(schema) {
        None
    } else if !is_listed(schema, value) {
        Some(path + " is not one of the allowed values"@)
    } else {
        match text_field(schema, "type"@) {
            None => None,
            Some(kind) => if kind == "object"@ {
                match value {
                    JsonView::Object(members) => match shape_fault(schema, members, path) {
                        Some(fault) => Some(fault),
                        None => members_fault(schema, members, path, members.len()),
                    },
                    _ => Some(path + " must be an object"@),
                }
            } else if kind == "array"@ {
                match value {
                    JsonView::Array(items) => items_fault(schema, items, path, items.len()),
                    _ => Some(path + " must be an array"@),
                }
            } else {
                match plain_fault(kind, value) {
                    Some(fault) => Some(path + fault),
                    None => None,
                }
            },
        }
    }
}

/// What is wrong with the first of some members that is not right, held against the properties of
/// a schema. A member that the schema does not describe may be anything.
pub open spec fn members_fault(
    schema: JsonView,
    members: Seq<(Seq<char>, JsonView)>,
    path: Seq<char>,
    n: nat,
) -> Option<Seq<char>>
    decreases schema, 0nat, n,
{
    if n == 0 {
        None
    } else {
        match members_fault(schema, members, path, (n - 1) as nat) {
            Some(fault) => Some(fault),
            None => {
                let (key, value) = members[n - 1];
                match field(schema, "properties"@) {
                    Some(properties) => match field(properties, key) {
                        Some(child) => {
                            proof {
                                lemma_field2_is_smaller(schema, "properties"@, key);
                            }
                            schema_fault(child, value, member_path(path, key))
                        },
                        None => None,
                    },
                    None => None,
                }
            },
        }
    }
}

/// What is wrong with the first of some items that is not right, held against what a schema says
/// of each.
pub open spec fn items_fault(schema: JsonView, items: Seq<JsonView>, path: Seq<char>, n: nat) -> Option<
    Seq<char>,
>
    decreases schema, 0nat, n,
{
    if n == 0 {
        None
    } else {
        match items_fault(schema, items, path, (n - 1) as nat) {
            Some(fault) => Some(fault),
            None => match field(schema, "items"@) {
                Some(child) => {
                    proof {
                        lemma_field_is_smaller(schema, "items"@);
                    }
                    schema_fault(child, items[n - 1], item_path(path, n - 1))
                },
                None => None,
            },
        }
    }
}

fn words(a: &str, b: &str) -> (r: String)
    ensures
        r@ == a@ + b@,
{
    let mut r = a.to_owned();
    r.append(b);
    r
}

fn write_member_path(path: &str, key: &str) -> (r: String)
    ensures
        r@ == member_path(path@, key@),
{
    let mut r = path.to_owned();
    r.append(".");
    r.append(key);
    r
}

fn write_item_path(path: &str, index: usize) -> (r: String)
    ensures
        r@ == item_path(path@, index as int),
{
    let mut r = path.to_owned();
    r.append("[");
    let n = number(index as u64);
    r.append(n.as_str());
    r.append("]");
    r
}

fn lists(allowed: &Vec<Json>, value: &Json) -> (r: bool)
    ensures
        r == is_among(views(allowed@), value@),
{
    let mut i: usize = 0;
    while i < allowed.len()
        invariant
            i <= allowed@.len(),
            forall|k: int| 0 <= k < i ==> !alike(#[trigger] views(allowed@)[k], value@),
        decreases allowed.len() - i,
    {
        assert(views(allowed@)[i as int] == allowed@[i as int]@);
        if allowed[i].alike(value) {
            return true;
        }
        i = i + 1;
    }
    false
}

fn find_missing(required: &Vec<Json>, members: &Vec<(String, Json)>) -> (r: Option<String>)
    ensures
        crate::text::maybe(r) == missing_key(views(required@), member_views(members@)),
{
    let ghost all = views(required@);
    let mut i: usize = 0;
    assert(all.skip(0) =~= all);
    while i < required.len()
        invariant
            i <= required@.len(),
            all == views(required@),
            missing_key(all, member_views(members@)) == missing_key(
                all.skip(i as int),
                member_views(members@),
            ),
        decreases required.len() - i,
    {
        assert(all.skip(i as int)[0] == required@[i as int]@);
        if let Some(key) = required[i].as_str() {
            if find_member(members, key).is_none() {
                return Some(key.to_owned());
            }
        }
        assert(all.skip(i as int).drop_first() =~= all.skip(i + 1));
        i = i + 1;
    }
    None
}

fn find_stray(members: &Vec<(String, Json)>, properties: Option<&Vec<(String, Json)>>) -> (r: Option<
    String,
>)
    ensures
        crate::text::maybe(r) == stray_key(
            member_views(members@),
            match properties {
                Some(p) => Some(member_views(p@)),
                None => None,
            },
        ),
{
    let ghost all = member_views(members@);
    let ghost props = match properties {
        Some(p) => Some(member_views(p@)),
        None => None,
    };
    let mut i: usize = 0;
    assert(all.skip(0) =~= all);
    while i < members.len()
        invariant
            i <= members@.len(),
            all == member_views(members@),
            props == (match properties {
                Some(p) => Some(member_views(p@)),
                None => None,
            }),
            stray_key(all, props) == stray_key(all.skip(i as int), props),
        decreases members.len() - i,
    {
        assert(all.skip(i as int)[0] == (members@[i as int].0@, members@[i as int].1@));
        let known = match properties {
            Some(p) => find_member(p, members[i].0.as_str()).is_some(),
            None => false,
        };
        if !known {
            return Some(members[i].0.clone());
        }
        assert(all.skip(i as int).drop_first() =~= all.skip(i + 1));
        i = i + 1;
    }
    None
}

fn check_shape(schema: &Json, members: &Vec<(String, Json)>, path: &str) -> (r: Result<(), String>)
    ensures
        match r {
            Ok(()) => shape_fault(schema@, member_views(members@), path@) is None,
            Err(e) => shape_fault(schema@, member_views(members@), path@) == Some(e@),
        },
{
    if let Some(required) = schema.items_at("required") {
        if let Some(key) = find_missing(required, members) {
            let at = write_member_path(path, key.as_str());
            return Err(words(at.as_str(), " is required"));
        }
    }
    let closed = match schema.get("additionalProperties") {
        Some(v) => match v.as_bool() {
            Some(open) => !open,
            None => false,
        },
        None => false,
    };
    if closed {
        let properties = match schema.get("properties") {
            Some(p) => p.as_object(),
            None => None,
        };
        if let Some(key) = find_stray(members, properties) {
            let at = write_member_path(path, key.as_str());
            return Err(words(at.as_str(), " is not an allowed field"));
        }
    }
    Ok(())
}

fn check_plain(kind: &str, value: &Json) -> (r: Option<&'static str>)
    ensures
        crate::text::maybe_str(r) == plain_fault(kind@, value@),
{
    if same(kind, "string") {
        match value {
            Json::Text(_) => {},
            _ => {
                return Some(" must be a string");
            },
        }
    }
    if same(kind, "integer") {
        match value {
            Json::Unsigned(_) | Json::Negative(_) => {},
            _ => {
                return Some(" must be an integer");
            },
        }
    }
    if same(kind, "number") {
        match value {
            Json::Unsigned(_) | Json::Negative(_) | Json::Decimal(_) => {},
            _ => {
                return Some(" must be a number");
            },
        }
    }
    if same(kind, "boolean") {
        match value {
            Json::Bool(_) => {},
            _ => {
                return Some(" must be a boolean");
            },
        }
    }
    if same(kind, "null") {
        match value {
            Json::Null => {},
            _ => {
                return Some(" must be null");
            },
        }
    }
    None
}

proof fn lemma_member_fault_stays(
    schema: JsonView,
    members: Seq<(Seq<char>, JsonView)>,
    path: Seq<char>,
    i: nat,
    n: nat,
)
    requires
        i <= n,
        members_fault(schema, members, path, i) is Some,
    ensures
        members_fault(schema, members, path, n) == members_fault(schema, members, path, i),
    decreases n - i,
{
    if i < n {
        lemma_member_fault_stays(schema, members, path, i, (n - 1) as nat);
    }
}

proof fn lemma_item_fault_stays(
    schema: JsonView,
    items: Seq<JsonView>,
    path: Seq<char>,
    i: nat,
    n: nat,
)
    requires
        i <= n,
        items_fault(schema, items, path, i) is Some,
    ensures
        items_fault(schema, items, path, n) == items_fault(schema, items, path, i),
    decreases n - i,
{
    if i < n {
        lemma_item_fault_stays(schema, items, path, i, (n - 1) as nat);
    }
}

proof fn lemma_no_items_described(schema: JsonView, items: Seq<JsonView>, path: Seq<char>, n: nat)
    requires
        field(schema, "items"@) is None,
    ensures
        items_fault(schema, items, path, n) is None,
    decreases n,
{
    if n > 0 {
        lemma_no_items_described(schema, items, path, (n - 1) as nat);
    }
}

fn check_members(schema: &Json, members: &Vec<(String, Json)>, path: &str) -> (r: Result<(), String>)
    ensures
        match r {
            Ok(()) => members_fault(
                schema@,
                member_views(members@),
                path@,
                members@.len(),
            ) is None,
            Err(e) => members_fault(schema@, member_views(members@), path@, members@.len())
                == Some(e@),
        },
    decreases schema@, 0nat,
{
    let ghost all = member_views(members@);
    let mut i: usize = 0;
    while i < members.len()
        invariant
            i <= members@.len(),
            all == member_views(members@),
            members_fault(schema@, all, path@, i as nat) is None,
        decreases members.len() - i,
    {
        let key = members[i].0.as_str();
        assert(all[i as int] == (members@[i as int].0@, members@[i as int].1@));
        let child = match schema.get("properties") {
            Some(properties) => properties.get(key),
            None => None,
        };
        if let Some(child) = child {
            proof {
                lemma_field2_is_smaller(schema@, "properties"@, key@);
            }
            let at = write_member_path(path, key);
            match validate_schema_value(child, &members[i].1, at.as_str()) {
                Ok(()) => {},
                Err(e) => {
                    proof {
                        lemma_member_fault_stays(
                            schema@,
                            all,
                            path@,
                            (i + 1) as nat,
                            members@.len(),
                        );
                    }
                    return Err(e);
                },
            }
        }
        i = i + 1;
    }
    Ok(())
}

fn check_items(schema: &Json, items: &Vec<Json>, path: &str) -> (r: Result<(), String>)
    ensures
        match r {
            Ok(()) => items_fault(schema@, views(items@), path@, items@.len()) is None,
            Err(e) => items_fault(schema@, views(items@), path@, items@.len()) == Some(e@),
        },
    decreases schema@, 0nat,
{
    let ghost all = views(items@);
    let child = match schema.get("items") {
        Some(child) => child,
        None => {
            proof {
                lemma_no_items_described(schema@, all, path@, items@.len());
            }
            return Ok(());
        },
    };
    proof {
        lemma_field_is_smaller(schema@, "items"@);
    }
    let mut i: usize = 0;
    while i < items.len()
        invariant
            i <= items@.len(),
            all == views(items@),
            field(schema@, "items"@) == Some(child@),
            decreases_to!(schema@ => child@),
            items_fault(schema@, all, path@, i as nat) is None,
        decreases items.len() - i,
    {
        assert(all[i as int] == items@[i as int]@);
        let at = write_item_path(path, i);
        match validate_schema_value(child, &items[i], at.as_str()) {
            Ok(()) => {},
            Err(e) => {
                proof {
                    lemma_item_fault_stays(schema@, all, path@, (i + 1) as nat, items@.len());
                }
                return Err(e);
            },
        }
        i = i + 1;
    }
    Ok(())
}

/// Holds a value against a schema, and says what is wrong with it.
pub fn validate_schema_value(schema: &Json, value: &Json, path: &str) -> (r: Result<(), String>)
    ensures
        match r {
            Ok(()) => schema_fault(schema@, value@, path@) is None,
            Err(e) => schema_fault(schema@, value@, path@) == Some(e@),
        },
    decreases schema@, 1nat,
{
    match schema.as_object() {
        Some(members) => {
            if members.len() == 0 {
                return Ok(());
            }
        },
        None => {
            return Ok(());
        },
    }
    if let Some(allowed) = schema.items_at("enum") {
        if !lists(allowed, value) {
            return Err(words(path, " is not one of the allowed values"));
        }
    }
    let kind = match schema.text_at("type") {
        Some(kind) => kind,
        None => {
            return Ok(());
        },
    };
    if same(kind, "object") {
        match value {
            Json::Object(members) => {
                check_shape(schema, members, path)?;
                check_members(schema, members, path)
            },
            _ => Err(words(path, " must be an object")),
        }
    } else if same(kind, "array") {
        match value {
            Json::Array(items) => check_items(schema, items, path),
            _ => Err(words(path, " must be an array")),
        }
    } else {
        match check_plain(kind, value) {
            Some(fault) => Err(words(path, fault)),
            None => Ok(()),
        }
    }
}

/// A schema that says nothing accepts everything.
pub proof fn law_silent_schemas_accept(schema: JsonView, value: JsonView, path: Seq<char>)
    requires
        !says_something(schema),
    ensures
        schema_fault(schema, value, path) is None,
{
}

/// Every fault names the path to what is wrong: it begins with the path to the whole.
pub proof fn law_faults_name_their_path(schema: JsonView, value: JsonView, path: Seq<char>)
    ensures
        schema_fault(schema, value, path) matches Some(fault) ==> path.len() <= fault.len()
            && fault.take(path.len() as int) == path,
    decreases schema, 1nat, 0nat,
{
    if let Some(fault) = schema_fault(schema, value, path) {
        if !is_listed(schema, value) {
            assert(fault.take(path.len() as int) =~= path);
        } else {
            let kind = text_field(schema, "type"@)->0;
            if kind == "object"@ {
                if let JsonView::Object(members) = value {
                    if shape_fault(schema, members, path) is Some {
                        assert(fault.take(path.len() as int) =~= path);
                    } else {
                        lemma_member_faults_name_their_path(schema, members, path, members.len());
                    }
                } else {
                    assert(fault.take(path.len() as int) =~= path);
                }
            } else if kind == "array"@ {
                if let JsonView::Array(items) = value {
                    lemma_item_faults_name_their_path(schema, items, path, items.len());
                } else {
                    assert(fault.take(path.len() as int) =~= path);
                }
            } else {
                assert(fault.take(path.len() as int) =~= path);
            }
        }
    }
}

proof fn lemma_begins_through(fault: Seq<char>, at: Seq<char>, path: Seq<char>)
    requires
        fault.take(at.len() as int) == at,
        at.len() <= fault.len(),
        path.len() <= at.len(),
        at.take(path.len() as int) == path,
    ensures
        fault.take(path.len() as int) == path,
{
    assert forall|i: int| 0 <= i < path.len() implies fault[i] == path[i] by {
        assert(fault.take(at.len() as int)[i] == at[i]);
        assert(at.take(path.len() as int)[i] == path[i]);
    }
    assert(fault.take(path.len() as int) =~= path);
}

proof fn lemma_member_faults_name_their_path(
    schema: JsonView,
    members: Seq<(Seq<char>, JsonView)>,
    path: Seq<char>,
    n: nat,
)
    ensures
        members_fault(schema, members, path, n) matches Some(fault) ==> path.len() <= fault.len()
            && fault.take(path.len() as int) == path,
    decreases schema, 0nat, n,
{
    if n > 0 {
        lemma_member_faults_name_their_path(schema, members, path, (n - 1) as nat);
        let (key, value) = members[n - 1];
        if let Some(properties) = field(schema, "properties"@) {
            if let Some(child) = field(properties, key) {
                lemma_field2_is_smaller(schema, "properties"@, key);
                let at = member_path(path, key);
                law_faults_name_their_path(child, value, at);
                assert(at.take(path.len() as int) =~= path);
                if let Some(fault) = schema_fault(child, value, at) {
                    lemma_begins_through(fault, at, path);
                }
            }
        }
    }
}

proof fn lemma_item_faults_name_their_path(
    schema: JsonView,
    items: Seq<JsonView>,
    path: Seq<char>,
    n: nat,
)
    ensures
        items_fault(schema, items, path, n) matches Some(fault) ==> path.len() <= fault.len()
            && fault.take(path.len() as int) == path,
    decreases schema, 0nat, n,
{
    if n > 0 {
        lemma_item_faults_name_their_path(schema, items, path, (n - 1) as nat);
        if let Some(child) = field(schema, "items"@) {
            lemma_field_is_smaller(schema, "items"@);
            let at = item_path(path, n - 1);
            law_faults_name_their_path(child, items[n - 1], at);
            assert(at.take(path.len() as int) =~= path);
            if let Some(fault) = schema_fault(child, items[n - 1], at) {
                lemma_begins_through(fault, at, path);
            }
        }
    }
}

} // verus!
