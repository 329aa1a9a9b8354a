//! The exact local tools of one Turn.
//!
//! Definitions are kept in the order of their names, so that one set of tools has one identity,
//! however it was gathered.

use crate::digest::{sha256_hex_of_text, sha256_text};
use crate::json::{alike, json_quote, json_text, lemma_alike_reflexive, JsonView};
use crate::protocol::model::{copy_tools, tool_views, ToolDefinition, ToolView};
use crate::protocol::permissions::truth_document;
use crate::text::{
    comes_before, is_blank, join, joined, lemma_precedes_irreflexive, lemma_precedes_total,
    lemma_precedes_transitive, lemma_texts_push, precedes, texts, trimmed,
};
use vstd::prelude::*;
use vstd::utf8::encode_utf8;

verus! {

broadcast use lemma_texts_push;

/// Where a tool goes in a list in the order of names: behind every tool that it does not precede.
pub open spec fn place_of(list: Seq<ToolView>, name: Seq<char>) -> int
    decreases list.len(),
{
    if list.len() > 0 && precedes(name, list.last().name) {
        place_of(list.drop_last(), name)
    } else {
        list.len() as int
    }
}

/// A list with one more tool in its place.
pub open spec fn inserted(list: Seq<ToolView>, tool: ToolView) -> Seq<ToolView> {
    list.insert(place_of(list, tool.name), tool)
}

/// Tools in the order of their names, tools of one name in the order they came.
pub open spec fn sorted(tools: Seq<ToolView>) -> Seq<ToolView>
    decreases tools.len(),
{
    if tools.len() == 0 {
        Seq::empty()
    } else {
        inserted(sorted(tools.drop_last()), tools.last())
    }
}

/// What is wrong with sorted tools, by the first that is wrong.
pub open spec fn sorted_fault(tools: Seq<ToolView>, from: int) -> Option<Seq<char>>
    decreases tools.len() - from,
{
    if from < 0 || from >= tools.len() {
        None
    } else if trimmed(tools[from].name).len() == 0 {
        Some("tool definition name must not be empty"@)
    } else if from > 0 && tools[from - 1].name == tools[from].name {
        Some("duplicate tool definition: "@ + tools[from].name)
    } else {
        sorted_fault(tools, from + 1)
    }
}

/// What is wrong with some tools, if anything is.
pub open spec fn tool_set_fault(tools: Seq<ToolView>) -> Option<Seq<char>> {
    sorted_fault(sorted(tools), 0)
}

/// The compact JSON document of a tool, its members in the order of the fields.
pub open spec fn tool_document(tool: ToolView) -> Seq<char> {
    "{\"name\":"@ + json_text(JsonView::Text(tool.name)) + ",\"description\":"@ + json_text(
        JsonView::Text(tool.description),
    ) + ",\"input_schema\":"@ + json_text(tool.input_schema) + ",\"supports_parallel\":"@
        + truth_document(tool.supports_parallel) + "}"@
}

/// The compact JSON document of a list of tools.
pub open spec fn tools_document(tools: Seq<ToolView>) -> Seq<char> {
    "["@ + joined(tools.map_values(|t: ToolView| tool_document(t)), ","@) + "]"@
}

/// The identity of a list of tools: the digest of its document.
pub open spec fn tools_identity(tools: Seq<ToolView>) -> Seq<char> {
    sha256_text(encode_utf8(tools_document(tools)))
}

/// Whether two tools are equal.
pub open spec fn tool_alike(a: ToolView, b: ToolView) -> bool {
    a.name == b.name && a.description == b.description && alike(a.input_schema, b.input_schema)
        && a.supports_parallel == b.supports_parallel
}

/// Whether two lists of tools are equal.
pub open spec fn tools_alike(a: Seq<ToolView>, b: Seq<ToolView>) -> bool {
    a.len() == b.len() && forall|i: int| 0 <= i < a.len() ==> tool_alike(#[trigger] a[i], b[i])
}

#[derive(Debug, PartialEq)]
pub struct ToolSetSnapshot {
    pub definitions: Vec<ToolDefinition>,
    pub sha256: String,
}

/// Why a snapshot is not valid, if it is not.
pub open spec fn snapshot_fault(tools: Seq<ToolView>, sha256: Seq<char>) -> Option<Seq<char>> {
    if tool_set_fault(tools) is Some {
        tool_set_fault(tools)
    } else if !tools_alike(sorted(tools), tools) || tools_identity(sorted(tools)) != sha256 {
        Some("Turn tool-set snapshot is not canonical or its hash is invalid"@)
    } else {
        None
    }
}

proof fn lemma_place_of_prefix(list: Seq<ToolView>, n: int, name: Seq<char>)
    requires
        0 <= n <= list.len(),
        forall|k: int| n <= k < list.len() ==> precedes(name, (#[trigger] list[k]).name),
    ensures
        place_of(list, name) == place_of(list.take(n), name),
    decreases list.len(),
{
    if n == list.len() {
        assert(list.take(n) =~= list);
    } else {
        let rest = list.drop_last();
        assert forall|k: int| n <= k < rest.len() implies precedes(name, (#[trigger] rest[k]).name) by {
            assert(rest[k] == list[k]);
        }
        lemma_place_of_prefix(rest, n, name);
        assert(rest.take(n) =~= list.take(n));
    }
}

/// Puts a tool in its place.
fn insert_tool(list: &mut Vec<ToolDefinition>, tool: ToolDefinition)
    ensures
        tool_views(final(list)@) == inserted(tool_views(old(list)@), tool@),
{
    let ghost before = tool_views(list@);
    let mut j: usize = list.len();
    while j > 0 && comes_before(tool.name.as_str(), list[j - 1].name.as_str())
        invariant
            j <= list.len(),
            before == tool_views(list@),
            forall|k: int| j <= k < list.len() ==> precedes(tool@.name, (#[trigger] before[k]).name),
        decreases j,
    {
        assert(before[j - 1] == list@[j - 1]@);
        j = j - 1;
    }
    proof {
        lemma_place_of_prefix(before, j as int, tool@.name);
        if j > 0 {
            assert(before.take(j as int).last() == list@[j - 1]@);
        }
        assert(place_of(before, tool@.name) == j);
    }
    list.insert(j, tool);
    assert(tool_views(list@) =~= before.insert(j as int, tool@));
}

/// Sorts tools by name.
fn sort_tools(tools: Vec<ToolDefinition>) -> (r: Vec<ToolDefinition>)
    ensures
        tool_views(r@) == sorted(tool_views(tools@)),
{
    let ghost all = tool_views(tools@);
    let mut tools = tools;
    let mut reversed: Vec<ToolDefinition> = Vec::new();
    while tools.len() > 0
        invariant
            tools@.len() + reversed@.len() == all.len(),
            forall|k: int| 0 <= k < tools@.len() ==> (#[trigger] tools@[k])@ == all[k],
            forall|k: int|
                0 <= k < reversed@.len() ==> (#[trigger] reversed@[k])@ == all[all.len() - 1 - k],
        decreases tools@.len(),
    {
        match tools.pop() {
            Some(tool) => {
                reversed.push(tool);
            },
            None => {},
        }
    }
    let mut list: Vec<ToolDefinition> = Vec::new();
    assert(tool_views(list@) =~= sorted(all.take(0)));
    while reversed.len() > 0
        invariant
            reversed@.len() <= all.len(),
            forall|k: int|
                0 <= k < reversed@.len() ==> (#[trigger] reversed@[k])@ == all[all.len() - 1 - k],
            tool_views(list@) == sorted(all.take(all.len() - reversed@.len())),
        decreases reversed@.len(),
    {
        let ghost done = all.len() - reversed@.len();
        match reversed.pop() {
            Some(tool) => {
                assert(tool@ == all[done]);
                assert(all.take(done + 1).drop_last() =~= all.take(done));
                assert(all.take(done + 1).last() == tool@);
                insert_tool(&mut list, tool);
            },
            None => {},
        }
    }
    assert(all.take(all.len() as int) =~= all);
    list
}

fn truth(b: bool) -> (r: &'static str)
    ensures
        r@ == truth_document(b),
{
    if b {
        "true"
    } else {
        "false"
    }
}

/// Digests a list of tools.
fn tool_definitions_sha256(definitions: &Vec<ToolDefinition>) -> (r: String)
    ensures
        r@ == tools_identity(tool_views(definitions@)),
{
    let ghost documents = tool_views(definitions@).map_values(|t: ToolView| tool_document(t));
    let mut parts: Vec<String> = Vec::new();
    let mut i: usize = 0;
    while i < definitions.len()
        invariant
            i <= definitions.len(),
            documents == tool_views(definitions@).map_values(|t: ToolView| tool_document(t)),
            texts(parts@) == documents.take(i as int),
        decreases definitions.len() - i,
    {
        let tool = &definitions[i];
        let mut d = "{\"name\":".to_owned();
        d.append(json_quote(tool.name.as_str()).as_str());
        d.append(",\"description\":");
        d.append(json_quote(tool.description.as_str()).as_str());
        d.append(",\"input_schema\":");
        d.append(tool.input_schema.render().as_str());
        d.append(",\"supports_parallel\":");
        d.append(truth(tool.supports_parallel));
        d.append("}");
        assert(d@ == tool_document(tool_views(definitions@)[i as int]));
        parts.push(d);
        assert(texts(parts@) =~= documents.take(i + 1));
        i = i + 1;
    }
    assert(texts(parts@) =~= documents);
    let mut document = "[".to_owned();
    document.append(join(&parts, ",").as_str());
    document.append("]");
    sha256_hex_of_text(document.as_str())
}

impl ToolSetSnapshot {
    /// Sorts tools and fixes their identity.
    pub fn materialize(definitions: Vec<ToolDefinition>) -> (r: Result<Self, String>)
        ensures
            match r {
                Ok(snapshot) => {
                    &&& tool_set_fault(tool_views(definitions@)) is None
                    &&& tool_views(snapshot.definitions@) == sorted(tool_views(definitions@))
                    &&& snapshot.sha256@ == tools_identity(sorted(tool_views(definitions@)))
                },
                Err(fault) => tool_set_fault(tool_views(definitions@)) == Some(fault@),
            },
    {
        let ghost all = tool_views(definitions@);
        let list = sort_tools(definitions);
        let mut i: usize = 0;
        while i < list.len()
            invariant
                i <= list.len(),
                all == tool_views(definitions@),
                tool_views(list@) == sorted(all),
                tool_set_fault(all) == sorted_fault(sorted(all), i as int),
            decreases list.len() - i,
        {
            assert(sorted(all)[i as int] == list@[i as int]@);
            if is_blank(list[i].name.as_str()) {
                return Err("tool definition name must not be empty".to_owned());
            }
            if i > 0 {
                assert(sorted(all)[i - 1] == list@[i - 1]@);
                if list[i - 1].name == list[i].name {
                    let mut fault = "duplicate tool definition: ".to_owned();
                    fault.append(list[i].name.as_str());
                    return Err(fault);
                }
            }
            i = i + 1;
        }
        let sha256 = tool_definitions_sha256(&list);
        Ok(ToolSetSnapshot { definitions: list, sha256 })
    }

    /// Accepts a snapshot that materializing its tools would make again.
    pub fn validate(&self) -> (r: Result<(), String>)
        ensures
            match r {
                Ok(()) => snapshot_fault(tool_views(self.definitions@), self.sha256@) is None,
                Err(fault) => snapshot_fault(tool_views(self.definitions@), self.sha256@) == Some(
                    fault@,
                ),
            },
    {
        let made = Self::materialize(copy_tools(&self.definitions))?;
        if !same_tools(&made.definitions, &self.definitions) || made.sha256 != self.sha256 {
            return Err("Turn tool-set snapshot is not canonical or its hash is invalid".to_owned());
        }
        Ok(())
    }

    /// The names of the tools, in order.
    pub fn names(&self) -> (r: Vec<&str>)
        ensures
            r@.len() == self.definitions@.len(),
            forall|i: int| 0 <= i < r@.len() ==> (#[trigger] r@[i])@ == self.definitions@[i].name@,
    {
        let mut r: Vec<&str> = Vec::new();
        let mut i: usize = 0;
        while i < self.definitions.len()
            invariant
                i <= self.definitions.len(),
                r@.len() == i,
                forall|k: int| 0 <= k < i ==> (#[trigger] r@[k])@ == self.definitions@[k].name@,
            decreases self.definitions.len() - i,
        {
            r.push(self.definitions[i].name.as_str());
            i = i + 1;
        }
        r
    }
}

fn same_tools(a: &Vec<ToolDefinition>, b: &Vec<ToolDefinition>) -> (r: bool)
    ensures
        r == tools_alike(tool_views(a@), tool_views(b@)),
{
    if a.len() != b.len() {
        return false;
    }
    let mut i: usize = 0;
    while i < a.len()
        invariant
            i <= a.len() == b.len(),
            forall|k: int|
                0 <= k < i ==> tool_alike(#[trigger] tool_views(a@)[k], tool_views(b@)[k]),
        decreases a.len() - i,
    {
        assert(tool_views(a@)[i as int] == a@[i as int]@);
        assert(tool_views(b@)[i as int] == b@[i as int]@);
        if !(a[i].name == b[i].name && a[i].description == b[i].description
            && a[i].input_schema.alike(&b[i].input_schema) && a[i].supports_parallel
            == b[i].supports_parallel) {
            return false;
        }
        i = i + 1;
    }
    true
}

/// Whether tools stand in the order of their names, each name once.
pub open spec fn strictly_ascending(tools: Seq<ToolView>) -> bool {
    forall|i: int, j: int|
        0 <= i < j < tools.len() ==> precedes((#[trigger] tools[i]).name, (#[trigger] tools[j]).name)
}

/// Whether tools stand in the order of their names.
pub open spec fn ascending(tools: Seq<ToolView>) -> bool {
    forall|i: int, j: int|
        0 <= i < j < tools.len() ==> !precedes((#[trigger] tools[j]).name, (#[trigger] tools[i]).name)
}

proof fn lemma_place_splits(list: Seq<ToolView>, name: Seq<char>)
    requires
        ascending(list),
    ensures
        0 <= place_of(list, name) <= list.len(),
        forall|k: int|
            0 <= k < place_of(list, name) ==> !precedes(name, (#[trigger] list[k]).name),
        forall|k: int|
            place_of(list, name) <= k < list.len() ==> precedes(name, (#[trigger] list[k]).name),
    decreases list.len(),
{
    if list.len() > 0 {
        if precedes(name, list.last().name) {
            let rest = list.drop_last();
            assert(ascending(rest));
            lemma_place_splits(rest, name);
            assert forall|k: int| place_of(list, name) <= k < list.len() implies precedes(
                name,
                (#[trigger] list[k]).name,
            ) by {
                if k < rest.len() {
                    assert(rest[k] == list[k]);
                }
            }
            assert forall|k: int| 0 <= k < place_of(list, name) implies !precedes(
                name,
                (#[trigger] list[k]).name,
            ) by {
                assert(rest[k] == list[k]);
            }
        } else {
            assert forall|k: int| 0 <= k < list.len() implies !precedes(
                name,
                (#[trigger] list[k]).name,
            ) by {
                if k < list.len() - 1 && precedes(name, list[k].name) {
                    let last = list.last().name;
                    lemma_precedes_total(name, last);
                    lemma_precedes_total(list[k].name, last);
                    assert(!precedes(list[list.len() - 1].name, list[k].name));
                    if list[k].name != last {
                        lemma_precedes_transitive(name, list[k].name, last);
                    }
                }
            }
        }
    }
}

proof fn lemma_sorted_is_ascending(tools: Seq<ToolView>)
    ensures
        ascending(sorted(tools)),
        sorted(tools).to_multiset() == tools.to_multiset(),
        sorted(tools).len() == tools.len(),
    decreases tools.len(),
{
    broadcast use vstd::seq_lib::group_to_multiset_ensures;

    if tools.len() == 0 {
        assert(tools =~= Seq::<ToolView>::empty());
    } else {
        let rest = sorted(tools.drop_last());
        let tool = tools.last();
        lemma_sorted_is_ascending(tools.drop_last());
        lemma_place_splits(rest, tool.name);
        let at = place_of(rest, tool.name);
        let list = inserted(rest, tool);
        assert forall|i: int, j: int| 0 <= i < j < list.len() implies !precedes(
            (#[trigger] list[j]).name,
            (#[trigger] list[i]).name,
        ) by {
            let a = if i < at { i } else { i - 1 };
            let b = if j < at { j } else { j - 1 };
            if i != at {
                assert(list[i] == rest[a]);
            }
            if j != at {
                assert(list[j] == rest[b]);
            }
            if i == at {
                lemma_precedes_total(tool.name, rest[b].name);
            }
        }
        assert(tools =~= tools.drop_last().push(tool));
    }
}

proof fn lemma_sorted_keeps_ascending(list: Seq<ToolView>)
    requires
        ascending(list),
    ensures
        sorted(list) == list,
    decreases list.len(),
{
    if list.len() > 0 {
        let rest = list.drop_last();
        assert(ascending(rest));
        lemma_sorted_keeps_ascending(rest);
        if rest.len() > 0 {
            assert(rest.last() == list[list.len() - 2]);
            assert(!precedes(list[list.len() - 1].name, list[list.len() - 2].name));
        }
        assert(place_of(rest, list.last().name) == rest.len());
        assert(inserted(rest, list.last()) =~= list);
    } else {
        assert(list =~= Seq::<ToolView>::empty());
    }
}

proof fn lemma_no_fault(list: Seq<ToolView>, from: int, i: int)
    requires
        0 <= from <= i < list.len(),
        sorted_fault(list, from) is None,
    ensures
        trimmed(list[i].name).len() > 0,
        i > 0 ==> list[i - 1].name != list[i].name,
    decreases i - from,
{
    if from < i {
        lemma_no_fault(list, from + 1, i);
    }
}

proof fn lemma_faultless_is_strict(list: Seq<ToolView>)
    requires
        ascending(list),
        sorted_fault(list, 0) is None,
    ensures
        strictly_ascending(list),
{
    assert forall|i: int, j: int| 0 <= i < j < list.len() implies precedes(
        (#[trigger] list[i]).name,
        (#[trigger] list[j]).name,
    ) by {
        lemma_strict_between(list, i, j);
    }
}

proof fn lemma_strict_between(list: Seq<ToolView>, i: int, j: int)
    requires
        ascending(list),
        sorted_fault(list, 0) is None,
        0 <= i < j < list.len(),
    ensures
        precedes(list[i].name, list[j].name),
    decreases j - i,
{
    lemma_no_fault(list, 0, j);
    let k = j - 1;
    assert(!precedes(list[j].name, list[k].name));
    lemma_precedes_total(list[k].name, list[j].name);
    if i < k {
        lemma_strict_between(list, i, k);
        lemma_precedes_transitive(list[i].name, list[k].name, list[j].name);
    }
}

proof fn lemma_order_is_unique(a: Seq<ToolView>, b: Seq<ToolView>)
    requires
        strictly_ascending(a),
        ascending(b),
        a.to_multiset() == b.to_multiset(),
    ensures
        a == b,
    decreases a.len(),
{
    broadcast use vstd::seq_lib::group_to_multiset_ensures;

    assert(a.len() == a.to_multiset().len());
    assert(b.len() == b.to_multiset().len());
    if a.len() == 0 {
        assert(a =~= b);
    } else {
        let x = a.last();
        let y = b.last();
        assert(a.contains(x) && b.contains(y));
        assert(a.to_multiset().count(y) > 0);
        assert(b.to_multiset().count(x) > 0);
        let k = choose|k: int| 0 <= k < a.len() && a[k] == y;
        let m = choose|m: int| 0 <= m < b.len() && b[m] == x;
        if k < a.len() - 1 {
            assert(precedes(a[k].name, a[a.len() - 1].name));
            if m < b.len() - 1 {
                assert(!precedes(b[b.len() - 1].name, b[m].name));
            } else {
                lemma_precedes_total(x.name, x.name);
            }
            assert(false);
        }
        assert(x == y);
        let c = a.drop_last();
        let d = b.drop_last();
        assert(c =~= a.remove(a.len() - 1));
        assert(d =~= b.remove(b.len() - 1));
        lemma_order_is_unique(c, d);
        assert(a =~= c.push(x));
        assert(b =~= d.push(y));
    }
}

/// A snapshot that was materialized is valid.
pub proof fn law_materialized_is_valid(tools: Seq<ToolView>)
    requires
        tool_set_fault(tools) is None,
    ensures
        snapshot_fault(sorted(tools), tools_identity(sorted(tools))) is None,
{
    let list = sorted(tools);
    lemma_sorted_is_ascending(tools);
    lemma_sorted_keeps_ascending(list);
    assert forall|i: int| 0 <= i < list.len() implies tool_alike(#[trigger] list[i], list[i]) by {
        lemma_alike_reflexive(list[i].input_schema);
    }
}

/// A set of tools has one identity, in whatever order its tools come.
pub proof fn law_identity_ignores_order(a: Seq<ToolView>, b: Seq<ToolView>)
    requires
        a.to_multiset() == b.to_multiset(),
        tool_set_fault(a) is None,
    ensures
        tool_set_fault(b) is None,
        sorted(a) == sorted(b),
        tools_identity(sorted(a)) == tools_identity(sorted(b)),
{
    lemma_sorted_is_ascending(a);
    lemma_sorted_is_ascending(b);
    lemma_faultless_is_strict(sorted(a));
    lemma_order_is_unique(sorted(a), sorted(b));
}

/// The tools of a snapshot are the given ones, each name once, in the order of names.
pub proof fn law_snapshot_is_sorted(tools: Seq<ToolView>)
    requires
        tool_set_fault(tools) is None,
    ensures
        strictly_ascending(sorted(tools)),
        sorted(tools).to_multiset() == tools.to_multiset(),
{
    lemma_sorted_is_ascending(tools);
    lemma_faultless_is_strict(sorted(tools));
}

/// Whether every tool has a name, and none has that of another.
pub open spec fn names_fit(tools: Seq<ToolView>) -> bool {
    &&& forall|i: int| 0 <= i < tools.len() ==> trimmed((#[trigger] tools[i]).name).len() > 0
    &&& forall|i: int, j: int|
        0 <= i < j < tools.len() ==> (#[trigger] tools[i]).name != (#[trigger] tools[j]).name
}

proof fn lemma_names_fit_in_any_order(tools: Seq<ToolView>)
    ensures
        names_fit(sorted(tools)) == names_fit(tools),
    decreases tools.len(),
{
    broadcast use vstd::seq_lib::group_to_multiset_ensures;

    if tools.len() > 0 {
        let rest = tools.drop_last();
        let tool = tools.last();
        let done = sorted(rest);
        let at = place_of(done, tool.name);
        let list = sorted(tools);
        lemma_names_fit_in_any_order(rest);
        lemma_sorted_is_ascending(rest);
        lemma_place_splits(done, tool.name);
        assert(list == done.insert(at, tool));
        if names_fit(list) {
            assert forall|i: int| 0 <= i < done.len() implies trimmed((#[trigger] done[i]).name).len()
                > 0 by {
                let a = if i < at { i } else { i + 1 };
                assert(list[a] == done[i]);
            }
            assert forall|i: int, j: int| 0 <= i < j < done.len() implies (#[trigger] done[i]).name
                != (#[trigger] done[j]).name by {
                let a = if i < at { i } else { i + 1 };
                let b = if j < at { j } else { j + 1 };
                assert(list[a] == done[i] && list[b] == done[j]);
            }
            assert(names_fit(rest));
            assert(list[at] == tool);
            assert forall|i: int| 0 <= i < tools.len() implies trimmed(
                (#[trigger] tools[i]).name,
            ).len() > 0 by {
                if i < rest.len() {
                    assert(rest[i] == tools[i]);
                }
            }
            assert forall|i: int, j: int| 0 <= i < j < tools.len() implies (
            #[trigger] tools[i]).name != (#[trigger] tools[j]).name by {
                assert(rest[i] == tools[i]);
                if j < rest.len() {
                    assert(rest[j] == tools[j]);
                } else {
                    assert(rest.contains(rest[i]));
                    assert(done.to_multiset().count(rest[i]) > 0);
                    assert(done.contains(rest[i]));
                    let k = choose|k: int| 0 <= k < done.len() && done[k] == rest[i];
                    let a = if k < at { k } else { k + 1 };
                    assert(list[a] == done[k]);
                }
            }
        }
        if names_fit(tools) {
            assert forall|i: int| 0 <= i < rest.len() implies trimmed((#[trigger] rest[i]).name).len()
                > 0 by {
                assert(rest[i] == tools[i]);
            }
            assert forall|i: int, j: int| 0 <= i < j < rest.len() implies (#[trigger] rest[i]).name
                != (#[trigger] rest[j]).name by {
                assert(rest[i] == tools[i] && rest[j] == tools[j]);
            }
            assert(names_fit(done));
            assert forall|k: int| 0 <= k < done.len() implies (#[trigger] done[k]).name
                != tool.name by {
                assert(done.contains(done[k]));
                assert(rest.to_multiset().count(done[k]) > 0);
                assert(rest.contains(done[k]));
                let i = choose|i: int| 0 <= i < rest.len() && rest[i] == done[k];
                assert(tools[i] == rest[i]);
                assert(tools[tools.len() - 1] == tool);
            }
            assert forall|i: int| 0 <= i < list.len() implies trimmed((#[trigger] list[i]).name).len()
                > 0 by {
                if i != at {
                    let a = if i < at { i } else { i - 1 };
                    assert(list[i] == done[a]);
                } else {
                    assert(list[i] == tools[tools.len() - 1]);
                }
            }
            assert forall|i: int, j: int| 0 <= i < j < list.len() implies (#[trigger] list[i]).name
                != (#[trigger] list[j]).name by {
                let a = if i < at { i } else { i - 1 };
                let b = if j < at { j } else { j - 1 };
                if i != at {
                    assert(list[i] == done[a]);
                }
                if j != at {
                    assert(list[j] == done[b]);
                }
            }
        }
    }
}

proof fn lemma_fit_names_are_no_fault(list: Seq<ToolView>, from: int)
    requires
        names_fit(list),
        0 <= from,
    ensures
        sorted_fault(list, from) is None,
    decreases list.len() - from,
{
    if from < list.len() {
        lemma_fit_names_are_no_fault(list, from + 1);
        if from > 0 {
            assert(list[from - 1].name != list[from].name);
        }
    }
}

/// Tools are refused exactly where one has a blank name or two have the same.
pub proof fn law_faults_are_of_the_names(tools: Seq<ToolView>)
    ensures
        tool_set_fault(tools) is None <==> names_fit(tools),
{
    let list = sorted(tools);
    lemma_names_fit_in_any_order(tools);
    lemma_sorted_is_ascending(tools);
    if names_fit(list) {
        lemma_fit_names_are_no_fault(list, 0);
    }
    if sorted_fault(list, 0) is None {
        lemma_faultless_is_strict(list);
        assert forall|i: int| 0 <= i < list.len() implies trimmed((#[trigger] list[i]).name).len()
            > 0 by {
            lemma_no_fault(list, 0, i);
        }
        assert forall|i: int, j: int| 0 <= i < j < list.len() implies (#[trigger] list[i]).name != (
        #[trigger] list[j]).name by {
            lemma_precedes_irreflexive(list[i].name);
        }
    }
}

/// Whether tools are refused does not depend on the order in which they come.
pub proof fn law_faults_ignore_order(a: Seq<ToolView>, b: Seq<ToolView>)
    requires
        a.to_multiset() == b.to_multiset(),
    ensures
        tool_set_fault(a) is Some <==> tool_set_fault(b) is Some,
{
    if tool_set_fault(a) is None {
        law_identity_ignores_order(a, b);
    }
    if tool_set_fault(b) is None {
        law_identity_ignores_order(b, a);
    }
}

/// A snapshot is valid exactly where its tools have names, stand in the order of their names, each
/// name once, and its digest is that of their document.
pub proof fn law_valid_snapshots_are_canonical(tools: Seq<ToolView>, sha256: Seq<char>)
    ensures
        snapshot_fault(tools, sha256) is None <==> strictly_ascending(tools) && (forall|i: int|
            0 <= i < tools.len() ==> trimmed((#[trigger] tools[i]).name).len() > 0) && sha256
            == tools_identity(tools),
{
    let list = sorted(tools);
    law_faults_are_of_the_names(tools);
    lemma_sorted_is_ascending(tools);
    if snapshot_fault(tools, sha256) is None {
        lemma_faultless_is_strict(list);
        assert forall|i: int, j: int| 0 <= i < j < tools.len() implies precedes(
            (#[trigger] tools[i]).name,
            (#[trigger] tools[j]).name,
        ) by {
            assert(tool_alike(list[i], tools[i]));
            assert(tool_alike(list[j], tools[j]));
        }
        lemma_strict_is_ascending(tools);
        lemma_sorted_keeps_ascending(tools);
    }
    if strictly_ascending(tools) {
        lemma_strict_is_ascending(tools);
        lemma_sorted_keeps_ascending(tools);
        assert forall|i: int, j: int| 0 <= i < j < tools.len() implies (#[trigger] tools[i]).name
            != (#[trigger] tools[j]).name by {
            lemma_precedes_irreflexive(tools[i].name);
        }
        assert forall|i: int| 0 <= i < list.len() implies tool_alike(
            #[trigger] list[i],
            tools[i],
        ) by {
            lemma_alike_reflexive(list[i].input_schema);
        }
    }
}

proof fn lemma_strict_is_ascending(list: Seq<ToolView>)
    requires
        strictly_ascending(list),
    ensures
        ascending(list),
{
    assert forall|i: int, j: int| 0 <= i < j < list.len() implies !precedes(
        (#[trigger] list[j]).name,
        (#[trigger] list[i]).name,
    ) by {
        if precedes(list[j].name, list[i].name) {
            lemma_precedes_transitive(list[i].name, list[j].name, list[i].name);
            lemma_precedes_irreflexive(list[i].name);
        }
    }
}

/// A valid snapshot is no longer valid with two of its tools in each other's place, or with another
/// digest.
pub proof fn law_altered_snapshots_are_refused(
    tools: Seq<ToolView>,
    sha256: Seq<char>,
    i: int,
    j: int,
    other: Seq<char>,
)
    requires
        snapshot_fault(tools, sha256) is None,
    ensures
        0 <= i < j < tools.len() ==> snapshot_fault(
            tools.update(i, tools[j]).update(j, tools[i]),
            other,
        ) is Some,
        other != sha256 ==> snapshot_fault(tools, other) is Some,
{
    let swapped = tools.update(i, tools[j]).update(j, tools[i]);
    law_valid_snapshots_are_canonical(tools, sha256);
    law_valid_snapshots_are_canonical(tools, other);
    law_valid_snapshots_are_canonical(swapped, other);
    if 0 <= i < j < tools.len() && strictly_ascending(swapped) {
        assert(precedes(swapped[i].name, swapped[j].name));
        assert(precedes(tools[i].name, tools[j].name));
        lemma_precedes_transitive(tools[i].name, tools[j].name, tools[i].name);
        lemma_precedes_irreflexive(tools[i].name);
    }
}

} // verus!
