//! The models that a Session may name.

use crate::json::{
    as_items, as_members, field, find_member, group_json, lookup, member_views, text_field, views,
    Json, JsonView,
};
use crate::model::router::ModelProfile;
use crate::server::api::{ApiError, BAD_REQUEST};
use crate::server::schema::lemma_field_is_smaller;
use crate::text::{debug_text, holds, join, joined, quoted, same, texts, trim, trimmed};
use vstd::prelude::*;

verus! {

broadcast use {group_json, crate::text::lemma_texts_push};

/// The names of some profiles.
pub open spec fn profile_names(profiles: Seq<ModelProfile>) -> Seq<Seq<char>> {
    profiles.map_values(|p: ModelProfile| p.id@)
}

/// The models that can be named: the configured profiles, or the default alone where none is
/// configured.
pub open spec fn known(default_model: Seq<char>, profiles: Seq<ModelProfile>) -> Seq<Seq<char>> {
    if profiles.len() == 0 {
        seq![default_model]
    } else {
        profile_names(profiles)
    }
}

/// Lists the models that can be named.
pub fn known_models(default_model: &str, profiles: &Vec<ModelProfile>) -> (r: Vec<String>)
    ensures
        texts(r@) == known(default_model@, profiles@),
{
    let mut r: Vec<String> = Vec::new();
    if profiles.len() == 0 {
        r.push(default_model.to_owned());
        assert(texts(r@) =~= seq![default_model@]);
        return r;
    }
    let mut i: usize = 0;
    while i < profiles.len()
        invariant
            i <= profiles@.len(),
            texts(r@) == profile_names(profiles@).take(i as int),
        decreases profiles.len() - i,
    {
        r.push(profiles[i].id.clone());
        assert(profile_names(profiles@).take(i + 1) =~= profile_names(profiles@).take(
            i as int,
        ).push(profiles@[i as int].id@));
        i = i + 1;
    }
    assert(profile_names(profiles@).take(i as int) =~= profile_names(profiles@));
    r
}

/// What is said of a model that cannot be named.
pub open spec fn unknown_model(models: Seq<Seq<char>>, model: Seq<char>) -> Seq<char> {
    "unknown model profile "@ + debug_text(model) + "; choose one of: "@ + joined(models, ", "@)
}

/// Whether a model can be named.
pub fn validate_model_profile(models: &Vec<String>, model: &str) -> (r: Result<(), ApiError>)
    ensures
        match r {
            Ok(()) => texts(models@).contains(model@),
            Err(e) => !texts(models@).contains(model@) && e.says(
                BAD_REQUEST,
                unknown_model(texts(models@), model@),
            ),
        },
{
    if holds(models, model) {
        return Ok(());
    }
    let mut message = "unknown model profile ".to_owned();
    let name = quoted(model);
    message.append(name.as_str());
    message.append("; choose one of: ");
    let available = join(models, ", ");
    message.append(available.as_str());
    Err(ApiError::bad_request(message))
}

/// A member of what lies under a key is smaller than what holds the key.
pub proof fn lemma_inner_member_is_smaller(j: JsonView, key: Seq<char>, i: int)
    requires
        field(j, key) matches Some(v) && as_members(v) matches Some(members) && 0 <= i
            < members.len(),
    ensures
        decreases_to!(j => as_members(field(j, key)->0)->0[i].1),
{
    lemma_field_is_smaller(j, key);
    let v = field(j, key)->0;
    let members = as_members(v)->0;
    assert(decreases_to!(v => members));
    assert(decreases_to!(members => members[i]));
    assert(decreases_to!(members[i] => members[i].1));
}

/// The model that a value names where a schema asks for one.
pub open spec fn named_model(schema: JsonView, value: JsonView) -> Option<Seq<char>> {
    match value {
        JsonView::Text(t) => if text_field(schema, "format"@) == Some("model-profile"@) && trimmed(
            t,
        ).len() > 0 {
            Some(trimmed(t))
        } else {
            None
        },
        _ => None,
    }
}

/// What is wrong with the models that a value names, held against a schema.
pub open spec fn models_fault(models: Seq<Seq<char>>, schema: JsonView, value: JsonView) -> Option<
    Seq<char>,
>
    decreases schema, 1nat, 0nat,
{
    match named_model(schema, value) {
        Some(model) if !models.contains(model) => Some(unknown_model(models, model)),
        _ => match properties_fault(models, schema, value, property_count(schema)) {
            Some(fault) => Some(fault),
            None => match as_items(value) {
                Some(items) => items_fault(models, schema, items, items.len()),
                None => None,
            },
        },
    }
}

/// The number of properties that a schema describes.
pub open spec fn property_count(schema: JsonView) -> nat {
    match field(schema, "properties"@) {
        Some(p) => match as_members(p) {
            Some(members) => members.len(),
            None => 0,
        },
        None => 0,
    }
}

/// What is wrong with the models that the members of a value name, for the first properties of a
/// schema.
pub open spec fn properties_fault(
    models: Seq<Seq<char>>,
    schema: JsonView,
    value: JsonView,
    n: nat,
) -> Option<Seq<char>>
    decreases schema, 0nat, n,
{
    if n == 0 || n > property_count(schema) {
        None
    } else {
        match properties_fault(models, schema, value, (n - 1) as nat) {
            Some(fault) => Some(fault),
            None => {
                let (name, child) = as_members(field(schema, "properties"@)->0)->0[n - 1];
                match as_members(value) {
                    Some(values) => match lookup(values, name) {
                        Some(v) => {
                            proof {
                                lemma_inner_member_is_smaller(schema, "properties"@, n - 1);
                            }
                            models_fault(models, child, v)
                        },
                        None => None,
                    },
                    None => None,
                }
            },
        }
    }
}

/// What is wrong with the models that the first items of a value name.
pub open spec fn items_fault(
    models: Seq<Seq<char>>,
    schema: JsonView,
    items: Seq<JsonView>,
    n: nat,
) -> Option<Seq<char>>
    decreases schema, 0nat, n,
{
    if n == 0 {
        None
    } else {
        match items_fault(models, schema, items, (n - 1) as nat) {
            Some(fault) => Some(fault),
            None => match field(schema, "items"@) {
                Some(child) => {
                    proof {
                        lemma_field_is_smaller(schema, "items"@);
                    }
                    models_fault(models, child, items[n - 1])
                },
                None => None,
            },
        }
    }
}

proof fn lemma_property_fault_stays(
    models: Seq<Seq<char>>,
    schema: JsonView,
    value: JsonView,
    i: nat,
    n: nat,
)
    requires
        i <= n <= property_count(schema),
        properties_fault(models, schema, value, i) is Some,
    ensures
        properties_fault(models, schema, value, n) == properties_fault(models, schema, value, i),
    decreases n - i,
{
    if i < n {
        lemma_property_fault_stays(models, schema, value, i, (n - 1) as nat);
    }
}

proof fn lemma_no_members_no_fault(
    models: Seq<Seq<char>>,
    schema: JsonView,
    value: JsonView,
    n: nat,
)
    requires
        as_members(value) is None,
    ensures
        properties_fault(models, schema, value, n) is None,
    decreases n,
{
    if n > 0 {
        lemma_no_members_no_fault(models, schema, value, (n - 1) as nat);
    }
}

proof fn lemma_item_fault_stays(
    models: Seq<Seq<char>>,
    schema: JsonView,
    items: Seq<JsonView>,
    i: nat,
    n: nat,
)
    requires
        i <= n,
        items_fault(models, schema, items, i) is Some,
    ensures
        items_fault(models, schema, items, n) == items_fault(models, schema, items, i),
    decreases n - i,
{
    if i < n {
        lemma_item_fault_stays(models, schema, items, i, (n - 1) as nat);
    }
}

proof fn lemma_no_items_described(
    models: Seq<Seq<char>>,
    schema: JsonView,
    items: Seq<JsonView>,
    n: nat,
)
    requires
        field(schema, "items"@) is None,
    ensures
        items_fault(models, schema, items, n) is None,
    decreases n,
{
    if n > 0 {
        lemma_no_items_described(models, schema, items, (n - 1) as nat);
    }
}

/// What a check returns for what is wrong.
pub open spec fn refused(r: Result<(), ApiError>, fault: Option<Seq<char>>) -> bool {
    match r {
        Ok(()) => fault is None,
        Err(e) => fault matches Some(message) && e.says(BAD_REQUEST, message),
    }
}

fn check_properties(models: &Vec<String>, schema: &Json, value: &Json) -> (r: Result<(), ApiError>)
    ensures
        refused(
            r,
            properties_fault(texts(models@), schema@, value@, property_count(schema@)),
        ),
    decreases schema@, 0nat,
{
    let ghost all = texts(models@);
    let properties = match schema.get("properties") {
        Some(p) => match p.as_object() {
            Some(members) => members,
            None => {
                return Ok(());
            },
        },
        None => {
            return Ok(());
        },
    };
    let values = match value.as_object() {
        Some(values) => values,
        None => {
            proof {
                lemma_no_members_no_fault(all, schema@, value@, property_count(schema@));
            }
            return Ok(());
        },
    };
    let ghost members = member_views(properties@);
    let mut i: usize = 0;
    while i < properties.len()
        invariant
            i <= properties@.len(),
            all == texts(models@),
            members == member_views(properties@),
            field(schema@, "properties"@) matches Some(p) && as_members(p) == Some(members),
            as_members(value@) == Some(member_views(values@)),
            property_count(schema@) == members.len(),
            properties_fault(all, schema@, value@, i as nat) is None,
        decreases properties.len() - i,
    {
        assert(members[i as int] == (properties@[i as int].0@, properties@[i as int].1@));
        if let Some(v) = find_member(values, properties[i].0.as_str()) {
            proof {
                lemma_inner_member_is_smaller(schema@, "properties"@, i as int);
            }
            match validate_model_profile_params(models, &properties[i].1, v) {
                Ok(()) => {},
                Err(e) => {
                    proof {
                        lemma_property_fault_stays(
                            all,
                            schema@,
                            value@,
                            (i + 1) as nat,
                            members.len(),
                        );
                    }
                    return Err(e);
                },
            }
        }
        i = i + 1;
    }
    Ok(())
}

fn check_items(models: &Vec<String>, schema: &Json, items: &Vec<Json>) -> (r: Result<(), ApiError>)
    ensures
        refused(r, items_fault(texts(models@), schema@, views(items@), items@.len())),
    decreases schema@, 0nat,
{
    let ghost all = views(items@);
    let ghost names = texts(models@);
    let child = match schema.get("items") {
        Some(child) => child,
        None => {
            proof {
                lemma_no_items_described(names, schema@, all, items@.len());
            }
            return Ok(());
        },
    };
    proof {
        lemma_field_is_smaller(schema@, "items"@);
    }
    let mut i: usize = 0;
    while i < items.len()
        invariant
            i <= items@.len(),
            all == views(items@),
            names == texts(models@),
            field(schema@, "items"@) == Some(child@),
            decreases_to!(schema@ => child@),
            items_fault(names, schema@, all, i as nat) is None,
        decreases items.len() - i,
    {
        assert(all[i as int] == items@[i as int]@);
        match validate_model_profile_params(models, child, &items[i]) {
            Ok(()) => {},
            Err(e) => {
                proof {
                    lemma_item_fault_stays(names, schema@, all, (i + 1) as nat, items@.len());
                }
                return Err(e);
            },
        }
        i = i + 1;
    }
    Ok(())
}

fn check_named(models: &Vec<String>, schema: &Json, value: &Json) -> (r: Result<(), ApiError>)
    ensures
        match r {
            Ok(()) => named_model(schema@, value@) matches Some(m) ==> texts(models@).contains(m),
            Err(e) => named_model(schema@, value@) matches Some(m) && !texts(models@).contains(m)
                && e.says(BAD_REQUEST, unknown_model(texts(models@), m)),
        },
{
    if let Some(format) = schema.text_at("format") {
        if same(format, "model-profile") {
            if let Some(text) = value.as_str() {
                let model = trim(text);
                if !same(model.as_str(), "") {
                    proof {
                        reveal_strlit("");
                        assert(model@.len() > 0) by {
                            if model@.len() == 0 {
                                assert(model@ =~= ""@);
                            }
                        }
                    }
                    return validate_model_profile(models, model.as_str());
                }
                proof {
                    reveal_strlit("");
                    assert(model@.len() == 0);
                }
            }
        }
    }
    Ok(())
}

/// Whether the parameters of a Session name models that can be named, wherever their schema asks
/// for one.
pub fn validate_model_profile_params(models: &Vec<String>, schema: &Json, value: &Json) -> (r: Result<
    (),
    ApiError,
>)
    ensures
        refused(r, models_fault(texts(models@), schema@, value@)),
    decreases schema@, 1nat,
{
    check_named(models, schema, value)?;
    check_properties(models, schema, value)?;
    match value.as_array() {
        Some(items) => check_items(models, schema, items),
        None => Ok(()),
    }
}

/// A model that no schema asks for is not looked at.
pub proof fn law_plain_parameters_name_no_model(
    models: Seq<Seq<char>>,
    schema: JsonView,
    value: JsonView,
)
    requires
        text_field(schema, "format"@) != Some("model-profile"@),
        field(schema, "properties"@) is None,
        field(schema, "items"@) is None,
    ensures
        models_fault(models, schema, value) is None,
{
    if let Some(items) = as_items(value) {
        lemma_no_items_described(models, schema, items, items.len());
    }
}

} // verus!
