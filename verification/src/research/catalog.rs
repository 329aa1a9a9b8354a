//! The workflow programs that are known.

use crate::digest::{sha256_hex_of_text, sha256_text};
use crate::execution::output::{lossy_text, read_lossy};
use crate::json::Json;
use crate::path::{
    find_first_text, find_text_behind, first_text, followed, is_file_name, is_under,
    law_a_name_leads_one_further, part_views, parts, path_join, path_parts, text_behind, under,
    PathStyle,
};
use crate::protocol::ids::{Timestamp, WorkflowId};
use crate::protocol::research::Budget;
use crate::text::{
    comes_before, lemma_precedes_irreflexive, lemma_precedes_total, lemma_precedes_transitive,
    lemma_texts_push, maybe, precedes, same, texts, trim, trimmed,
};
use vstd::prelude::*;
use vstd::utf8::encode_utf8;

verus! {

broadcast use lemma_texts_push;

/// What a workflow program says of itself.
#[derive(Debug, PartialEq)]
pub struct WorkflowManifest {
    pub id: WorkflowId,
    pub slug: String,
    pub name: String,
    pub version: String,
    pub description: String,
    pub entrypoint: String,
    pub input_schema: Json,
    pub output_schema: Json,
    pub default_budget: Budget,
}

/// Who a workflow program comes from.
#[derive(Clone, Copy, Debug, PartialEq, Eq, Structural)]
pub enum WorkflowSource {
    Builtin,
    User,
}

/// A workflow program as it is registered.
#[derive(Debug, PartialEq)]
pub struct WorkflowRegistration {
    pub manifest: WorkflowManifest,
    pub source: WorkflowSource,
    pub definition_path: String,
    pub sha256: String,
    pub updated_at: Timestamp,
}

/// A workflow program, with its source.
#[derive(Debug, PartialEq)]
pub struct LoadedWorkflow {
    pub registration: WorkflowRegistration,
    pub source_code: String,
    pub path: String,
}

/// What a validator found in a source.
#[derive(Debug, PartialEq)]
pub struct SourceValidation {
    pub valid: bool,
    pub manifest: Option<WorkflowManifest>,
    /// The findings, as they are shown.
    pub findings: String,
}

/// Why a workflow program is not known.
#[derive(Debug, PartialEq)]
pub enum WorkflowCatalogError {
    Store(String),
    Io(String),
    Validator(String),
    Invalid(SourceValidation),
    InvalidFile { path: String, validation: SourceValidation },
    Duplicate { slug: String, version: String },
    Immutable { slug: String, version: String },
    Path(String),
    UnknownOwner(String),
    PythonUnavailable(String),
}

impl WorkflowCatalogError {
    /// The error in words.
    pub open spec fn words(&self) -> Seq<char> {
        match *self {
            WorkflowCatalogError::Store(m) => m@,
            WorkflowCatalogError::Io(m) => m@,
            WorkflowCatalogError::Validator(m) => "workflow validator failed: "@ + m@,
            WorkflowCatalogError::Invalid(_) => "invalid workflow source"@,
            WorkflowCatalogError::InvalidFile { path, validation } => "invalid workflow file "@
                + path@ + ": "@ + validation.findings@,
            WorkflowCatalogError::Duplicate { slug, version } => "duplicate workflow "@ + slug@
                + "@"@ + version@,
            WorkflowCatalogError::Immutable { slug, version } => "workflow "@ + slug@ + "@"@
                + version@ + " is immutable; publish a new version"@,
            WorkflowCatalogError::Path(m) => "workflow path is invalid: "@ + m@,
            WorkflowCatalogError::UnknownOwner(m) => {
                "workflow must live under builtin/ or user/, found "@ + m@
            },
            WorkflowCatalogError::PythonUnavailable(m) => "Python runtime unavailable: "@ + m@,
        }
    }

    /// The error in words.
    pub fn message(&self) -> (r: String)
        ensures
            r@ == self.words(),
    {
        match self {
            WorkflowCatalogError::Store(m) => m.clone(),
            WorkflowCatalogError::Io(m) => m.clone(),
            WorkflowCatalogError::Validator(m) => said("workflow validator failed: ", m),
            WorkflowCatalogError::Invalid(_) => "invalid workflow source".to_owned(),
            WorkflowCatalogError::InvalidFile { path, validation } => {
                let mut r = said("invalid workflow file ", path);
                r.append(": ");
                r.append(validation.findings.as_str());
                r
            },
            WorkflowCatalogError::Duplicate { slug, version } => {
                let mut r = said("duplicate workflow ", slug);
                r.append("@");
                r.append(version.as_str());
                r
            },
            WorkflowCatalogError::Immutable { slug, version } => {
                let mut r = said("workflow ", slug);
                r.append("@");
                r.append(version.as_str());
                r.append(" is immutable; publish a new version");
                r
            },
            WorkflowCatalogError::Path(m) => said("workflow path is invalid: ", m),
            WorkflowCatalogError::UnknownOwner(m) => {
                said("workflow must live under builtin/ or user/, found ", m)
            },
            WorkflowCatalogError::PythonUnavailable(m) => said("Python runtime unavailable: ", m),
        }
    }
}

fn said(what: &str, of: &String) -> (r: String)
    ensures
        r@ == what@ + of@,
{
    let mut r = what.to_owned();
    r.append(of.as_str());
    r
}

/// What a program is found by: its slug and its version.
pub open spec fn key_of(entry: LoadedWorkflow) -> (Seq<char>, Seq<char>) {
    (entry.registration.manifest.slug@, entry.registration.manifest.version@)
}

/// The order of slugs and versions.
pub open spec fn key_before(a: (Seq<char>, Seq<char>), b: (Seq<char>, Seq<char>)) -> bool {
    precedes(a.0, b.0) || (a.0 == b.0 && precedes(a.1, b.1))
}

/// Whether programs stand in their order, each once.
pub open spec fn in_key_order(entries: Seq<LoadedWorkflow>) -> bool {
    forall|i: int, j: int|
        0 <= i < j < entries.len() ==> key_before(
            key_of(#[trigger] entries[i]),
            key_of(#[trigger] entries[j]),
        )
}

/// The programs that are known.
#[derive(Debug)]
pub struct WorkflowCatalog {
    /// How the host reads paths.
    pub style: PathStyle,
    pub workflows_root: String,
    pub python_runtime_root: String,
    pub python: String,
    /// The programs, in the order of their slugs and versions.
    pub entries: Vec<LoadedWorkflow>,
}

/// Whether a program is found by a key.
pub open spec fn has_key(entries: Seq<LoadedWorkflow>, key: (Seq<char>, Seq<char>)) -> bool {
    exists|i: int| 0 <= i < entries.len() && key_of(#[trigger] entries[i]) == key
}

fn is_key_before(a: &LoadedWorkflow, b: &LoadedWorkflow) -> (r: bool)
    ensures
        r == key_before(key_of(*a), key_of(*b)),
{
    let x = &a.registration.manifest;
    let y = &b.registration.manifest;
    if comes_before(x.slug.as_str(), y.slug.as_str()) {
        true
    } else if same(x.slug.as_str(), y.slug.as_str()) {
        comes_before(x.version.as_str(), y.version.as_str())
    } else {
        false
    }
}

proof fn lemma_key_transitive(
    a: (Seq<char>, Seq<char>),
    b: (Seq<char>, Seq<char>),
    c: (Seq<char>, Seq<char>),
)
    requires
        key_before(a, b),
        key_before(b, c),
    ensures
        key_before(a, c),
{
    if precedes(a.0, b.0) {
        if precedes(b.0, c.0) {
            lemma_precedes_transitive(a.0, b.0, c.0);
        }
    } else if !precedes(b.0, c.0) {
        lemma_precedes_transitive(a.1, b.1, c.1);
    }
}

proof fn lemma_key_total(a: (Seq<char>, Seq<char>), b: (Seq<char>, Seq<char>))
    ensures
        key_before(a, b) || key_before(b, a) || a == b,
{
    lemma_precedes_total(a.0, b.0);
    lemma_precedes_total(a.1, b.1);
}

proof fn lemma_key_irreflexive(a: (Seq<char>, Seq<char>))
    ensures
        !key_before(a, a),
{
    lemma_precedes_irreflexive(a.0);
    lemma_precedes_irreflexive(a.1);
}

/// A key leads to one program at most.
pub proof fn law_keys_are_unique(entries: Seq<LoadedWorkflow>, i: int, j: int)
    requires
        in_key_order(entries),
        0 <= i < entries.len(),
        0 <= j < entries.len(),
        key_of(entries[i]) == key_of(entries[j]),
    ensures
        i == j,
{
    lemma_key_irreflexive(key_of(entries[i]));
    if i < j {
        assert(key_before(key_of(entries[i]), key_of(entries[j])));
    } else if j < i {
        assert(key_before(key_of(entries[j]), key_of(entries[i])));
    }
}

/// What can be made of the findings of a validator.
pub open spec fn no_manifest() -> Seq<char> {
    "valid source did not return a manifest"@
}

/// The path of a program's definition below the root, as it stands, where it lies there.
pub open spec fn relative_path(style: PathStyle, root: Seq<char>, path: Seq<char>) -> Option<
    Seq<char>,
> {
    if under(parts(style, path), parts(style, root)) {
        Some(text_behind(style, path, parts(style, root).len() as int))
    } else {
        None
    }
}

fn find_relative(style: PathStyle, root: &str, path: &str) -> (r: Option<String>)
    ensures
        maybe(r) == relative_path(style, root@, path@),
{
    let base = path_parts(style, root);
    if !is_under(&path_parts(style, path), &base) {
        return None;
    }
    assert(part_views(base@).len() == base@.len());
    Some(find_text_behind(style, path, base.len()))
}

/// What came of saving a program.
#[derive(Debug)]
pub enum SavePlan {
    /// The program is known already, at a place of the catalog.
    Existing(usize),
    /// The program is new: its source is to be written to a file, and it is to be registered then,
    /// unless its file lies outside the catalog.
    Write { path: String, entry: Result<LoadedWorkflow, WorkflowCatalogError> },
}

/// The file that a user's program is kept in.
pub open spec fn user_path(
    style: PathStyle,
    root: Seq<char>,
    slug: Seq<char>,
    version: Seq<char>,
) -> Seq<char> {
    let users = followed(style, root, "user"@);
    followed(style, followed(style, followed(style, users, slug), version), "workflow.pm"@)
}

/// Who the first part of a path below the root says that a program comes from.
pub open spec fn owner_of(first: Seq<char>) -> Option<WorkflowSource> {
    if first == "builtin"@ {
        Some(WorkflowSource::Builtin)
    } else if first == "user"@ {
        Some(WorkflowSource::User)
    } else {
        None
    }
}

impl WorkflowCatalog {
    pub open spec fn wf(&self) -> bool {
        in_key_order(self.entries@)
    }

    pub fn new(
        style: PathStyle,
        workflows_root: String,
        python_runtime_root: String,
        python: String,
    ) -> (r: WorkflowCatalog)
        ensures
            r.wf(),
            r.style == style,
            r.workflows_root == workflows_root,
            r.python_runtime_root == python_runtime_root,
            r.python == python,
            r.entries@.len() == 0,
    {
        WorkflowCatalog { style, workflows_root, python_runtime_root, python, entries: Vec::new() }
    }

    /// The place of a program, the number of programs where there is none.
    fn find(&self, slug: &str, version: &str) -> (r: usize)
        ensures
            r <= self.entries@.len(),
            r < self.entries@.len() ==> key_of(self.entries@[r as int]) == (slug@, version@),
            r == self.entries@.len() ==> !has_key(self.entries@, (slug@, version@)),
    {
        let mut i: usize = 0;
        while i < self.entries.len()
            invariant
                i <= self.entries@.len(),
                forall|k: int|
                    0 <= k < i ==> key_of(#[trigger] self.entries@[k]) != (slug@, version@),
            decreases self.entries.len() - i,
        {
            let manifest = &self.entries[i].registration.manifest;
            if same(manifest.slug.as_str(), slug) && same(manifest.version.as_str(), version) {
                return i;
            }
            i = i + 1;
        }
        i
    }

    /// A program by its slug and version.
    pub fn get(&self, slug: &str, version: &str) -> (r: Option<&LoadedWorkflow>)
        ensures
            match r {
                Some(entry) => self.entries@.contains(*entry) && key_of(*entry) == (
                    slug@,
                    version@,
                ),
                None => !has_key(self.entries@, (slug@, version@)),
            },
    {
        let at = self.find(slug, version);
        if at < self.entries.len() {
            assert(self.entries@[at as int] == self.entries@[at as int]);
            Some(&self.entries[at])
        } else {
            None
        }
    }

    /// The programs, in the order of their slugs and versions.
    pub fn list(&self) -> (r: &Vec<LoadedWorkflow>)
        ensures
            r == self.entries,
    {
        &self.entries
    }

    /// Adds a program. One with the slug and version of another is refused.
    pub fn add(&mut self, entry: LoadedWorkflow) -> (r: Result<(), WorkflowCatalogError>)
        requires
            old(self).wf(),
        ensures
            final(self).wf(),
            final(self).workflows_root == old(self).workflows_root,
            final(self).python_runtime_root == old(self).python_runtime_root,
            final(self).python == old(self).python,
            final(self).style == old(self).style,
            match r {
                Ok(()) => !has_key(old(self).entries@, key_of(entry))
                    && final(self).entries@.to_multiset() == old(self).entries@.to_multiset().insert(
                    entry,
                ),
                Err(e) => has_key(old(self).entries@, key_of(entry)) && final(self).entries@
                    == old(self).entries@ && e is Duplicate && e->Duplicate_slug@ == key_of(
                    entry,
                ).0 && e->Duplicate_version@ == key_of(entry).1,
            },
    {
        let slug = entry.registration.manifest.slug.clone();
        let version = entry.registration.manifest.version.clone();
        if self.find(slug.as_str(), version.as_str()) < self.entries.len() {
            return Err(WorkflowCatalogError::Duplicate { slug, version });
        }
        let ghost all = self.entries@;
        let ghost key = key_of(entry);
        let mut i: usize = 0;
        while i < self.entries.len() && is_key_before(&self.entries[i], &entry)
            invariant
                i <= self.entries@.len(),
                self.entries@ == all,
                self.workflows_root == old(self).workflows_root,
                self.python_runtime_root == old(self).python_runtime_root,
                self.python == old(self).python,
                self.style == old(self).style,
                key == key_of(entry),
                forall|k: int| 0 <= k < i ==> key_before(key_of(#[trigger] all[k]), key),
            decreases self.entries.len() - i,
        {
            i = i + 1;
        }
        self.entries.insert(i, entry);
        proof {
            let done = self.entries@;
            assert(done =~= all.insert(i as int, entry));
            vstd::seq_lib::to_multiset_insert(all, i as int, entry);
            assert forall|k: int| i <= k < all.len() implies key_before(
                key,
                key_of(#[trigger] all[k]),
            ) by {
                lemma_key_total(key, key_of(all[i as int]));
                assert(key_of(all[i as int]) != key);
                if k > i {
                    lemma_key_transitive(key, key_of(all[i as int]), key_of(all[k]));
                }
            }
            assert forall|a: int, b: int| 0 <= a < b < done.len() implies key_before(
                key_of(#[trigger] done[a]),
                key_of(#[trigger] done[b]),
            ) by {
                if a == i {
                    assert(done[b] == all[b - 1]);
                } else if b == i {
                    assert(done[a] == all[a]);
                } else {
                    let x = if a < i { a } else { a - 1 };
                    let y = if b < i { b } else { b - 1 };
                    assert(done[a] == all[x] && done[b] == all[y]);
                }
            }
        }
        Ok(())
    }

    /// What saving a user's source comes to, given what a validator found in it: a source that is
    /// not valid is refused, one that is known is left as it is, and one under the slug and version
    /// of another is refused.
    pub open spec fn saves(
        &self,
        source: Seq<char>,
        validation: SourceValidation,
        now: Timestamp,
        r: Result<SavePlan, WorkflowCatalogError>,
    ) -> bool {
        if !validation.valid {
            r == Err::<SavePlan, _>(WorkflowCatalogError::Invalid(validation))
        } else {
            match validation.manifest {
                None => r matches Err(WorkflowCatalogError::Validator(m)) && m@ == no_manifest(),
                Some(manifest) => {
                    let key = (manifest.slug@, manifest.version@);
                    let sha256 = sha256_text(encode_utf8(source));
                    if has_key(self.entries@, key) {
                        self.keeps(key, sha256, r)
                    } else {
                        self.writes(manifest, source, now, r)
                    }
                },
            }
        }
    }

    /// What saving comes to where the slug and version are taken.
    pub open spec fn keeps(
        &self,
        key: (Seq<char>, Seq<char>),
        sha256: Seq<char>,
        r: Result<SavePlan, WorkflowCatalogError>,
    ) -> bool {
        match r {
            Ok(SavePlan::Existing(at)) => at < self.entries@.len() && key_of(
                self.entries@[at as int],
            ) == key && self.entries@[at as int].registration.sha256@ == sha256,
            Err(WorkflowCatalogError::Immutable { slug, version }) => (slug@, version@) == key
                && exists|at: int|
                0 <= at < self.entries@.len() && key_of(#[trigger] self.entries@[at]) == key
                    && self.entries@[at].registration.sha256@ != sha256,
            _ => false,
        }
    }

    /// What saving comes to where the slug and version are free.
    pub open spec fn writes(
        &self,
        manifest: WorkflowManifest,
        source: Seq<char>,
        now: Timestamp,
        r: Result<SavePlan, WorkflowCatalogError>,
    ) -> bool {
        let path = user_path(self.style, self.workflows_root@, manifest.slug@, manifest.version@);
        r matches Ok(SavePlan::Write { path: file, entry }) && file@ == path && (
        match relative_path(self.style, self.workflows_root@, path) {
            Some(definition) => entry matches Ok(loaded) && loaded.is_loaded(
                manifest,
                WorkflowSource::User,
                path,
                definition,
                source,
                now,
            ),
            None => entry matches Err(WorkflowCatalogError::Path(m)) && m@ == "prefix not found"@,
        })
    }

    /// What saving a user's source comes to, given what a validator found in it.
    pub fn save_user(&self, source: &str, validation: SourceValidation, now: Timestamp) -> (r: Result<
        SavePlan,
        WorkflowCatalogError,
    >)
        ensures
            self.saves(source@, validation, now, r),
    {
        if !validation.valid {
            return Err(WorkflowCatalogError::Invalid(validation));
        }
        let manifest = match validation.manifest {
            Some(manifest) => manifest,
            None => {
                return Err(
                    WorkflowCatalogError::Validator(
                        "valid source did not return a manifest".to_owned(),
                    ),
                );
            },
        };
        let sha256 = sha256_hex_of_text(source);
        let at = self.find(manifest.slug.as_str(), manifest.version.as_str());
        if at < self.entries.len() {
            assert(key_of(self.entries@[at as int]) == (manifest.slug@, manifest.version@));
            if same(self.entries[at].registration.sha256.as_str(), sha256.as_str()) {
                return Ok(SavePlan::Existing(at));
            }
            return Err(
                WorkflowCatalogError::Immutable {
                    slug: manifest.slug.clone(),
                    version: manifest.version.clone(),
                },
            );
        }
        let users = path_join(self.style, self.workflows_root.as_str(), "user");
        let directory = path_join(self.style, users.as_str(), manifest.slug.as_str());
        let directory = path_join(self.style, directory.as_str(), manifest.version.as_str());
        let path = path_join(self.style, directory.as_str(), "workflow.pm");
        let definition_path = match find_relative(
            self.style,
            self.workflows_root.as_str(),
            path.as_str(),
        ) {
            Some(definition_path) => definition_path,
            None => {
                let fault = WorkflowCatalogError::Path("prefix not found".to_owned());
                return Ok(SavePlan::Write { path, entry: Err(fault) });
            },
        };
        let registration = WorkflowRegistration {
            manifest,
            source: WorkflowSource::User,
            definition_path,
            sha256,
            updated_at: now,
        };
        let loaded = LoadedWorkflow {
            registration,
            source_code: source.to_owned(),
            path: path.clone(),
        };
        Ok(SavePlan::Write { path, entry: Ok(loaded) })
    }

    /// The interpreter that runs the programs.
    pub fn python(&self) -> (r: &str)
        ensures
            r@ == self.python@,
    {
        self.python.as_str()
    }

    /// Where the programs' runtime is.
    pub fn python_runtime_root(&self) -> (r: &str)
        ensures
            r@ == self.python_runtime_root@,
    {
        self.python_runtime_root.as_str()
    }

    /// The program in a file, given its source and what a validator found in it.
    pub fn load_file(
        &self,
        path: &str,
        source_code: String,
        validation: SourceValidation,
        updated_at: Timestamp,
    ) -> (r: Result<LoadedWorkflow, WorkflowCatalogError>)
        ensures
            !validation.valid ==> (r matches Err(
                WorkflowCatalogError::InvalidFile { path: p, validation: v },
            ) && p@ == path@ && v == validation),
            validation.valid && validation.manifest is None ==> (r matches Err(
                WorkflowCatalogError::Validator(m),
            ) && m@ == no_manifest()),
            validation.valid && validation.manifest is Some ==> (match relative_path(
                self.style,
                self.workflows_root@,
                path@,
            ) {
                None => r matches Err(WorkflowCatalogError::Path(m)) && m@ == "prefix not found"@,
                Some(definition) => match first_text(self.style, definition) {
                    None => r matches Err(WorkflowCatalogError::Path(m)) && m@ == path@,
                    Some(first) => match owner_of(first) {
                        None => r matches Err(WorkflowCatalogError::UnknownOwner(m)) && m@ == first,
                        Some(source) => r matches Ok(entry) && entry.is_loaded(
                            validation.manifest->0,
                            source,
                            path@,
                            definition,
                            source_code@,
                            updated_at,
                        ),
                    },
                },
            }),
    {
        if !validation.valid {
            return Err(WorkflowCatalogError::InvalidFile { path: path.to_owned(), validation });
        }
        let manifest = match validation.manifest {
            Some(manifest) => manifest,
            None => {
                return Err(
                    WorkflowCatalogError::Validator(
                        "valid source did not return a manifest".to_owned(),
                    ),
                );
            },
        };
        let definition_path = match find_relative(
            self.style,
            self.workflows_root.as_str(),
            path,
        ) {
            Some(found) => found,
            None => {
                return Err(WorkflowCatalogError::Path("prefix not found".to_owned()));
            },
        };
        let first = match find_first_text(self.style, definition_path.as_str()) {
            Some(first) => first,
            None => {
                return Err(WorkflowCatalogError::Path(path.to_owned()));
            },
        };
        let source = if same(first.as_str(), "builtin") {
            WorkflowSource::Builtin
        } else if same(first.as_str(), "user") {
            WorkflowSource::User
        } else {
            return Err(WorkflowCatalogError::UnknownOwner(first));
        };
        let registration = WorkflowRegistration {
            manifest,
            source,
            definition_path,
            sha256: sha256_hex_of_text(source_code.as_str()),
            updated_at,
        };
        Ok(LoadedWorkflow { registration, source_code, path: path.to_owned() })
    }
}

/// A workflow program as a run keeps it.
#[derive(Debug, PartialEq)]
pub struct WorkflowSnapshot {
    pub manifest: WorkflowManifest,
    pub source: WorkflowSource,
    pub definition_path: String,
    pub sha256: String,
    pub source_code: String,
}

/// Whether two budgets are the same.
pub open spec fn same_budget(a: Budget, b: Budget) -> bool {
    &&& a.max_agents == b.max_agents
    &&& a.max_concurrent_actions == b.max_concurrent_actions
    &&& a.max_action_steps == b.max_action_steps
    &&& a.max_total_tokens == b.max_total_tokens
    &&& a.max_uncached_tokens == b.max_uncached_tokens
    &&& a.max_hosted_search_calls == b.max_hosted_search_calls
    &&& a.max_wall_time_seconds == b.max_wall_time_seconds
    &&& match (a.max_cost_usd, b.max_cost_usd) {
        (Some(x), Some(y)) => x@ == y@,
        (None, None) => true,
        _ => false,
    }
}

/// Whether two manifests say the same.
pub open spec fn same_manifest(a: WorkflowManifest, b: WorkflowManifest) -> bool {
    &&& a.id == b.id
    &&& a.slug@ == b.slug@
    &&& a.name@ == b.name@
    &&& a.version@ == b.version@
    &&& a.description@ == b.description@
    &&& a.entrypoint@ == b.entrypoint@
    &&& a.input_schema@ == b.input_schema@
    &&& a.output_schema@ == b.output_schema@
    &&& same_budget(a.default_budget, b.default_budget)
}

/// A copy of a budget.
fn copy_budget(budget: &Budget) -> (r: Budget)
    ensures
        same_budget(r, *budget),
{
    Budget {
        max_agents: budget.max_agents,
        max_concurrent_actions: budget.max_concurrent_actions,
        max_action_steps: budget.max_action_steps,
        max_total_tokens: budget.max_total_tokens,
        max_uncached_tokens: budget.max_uncached_tokens,
        max_hosted_search_calls: budget.max_hosted_search_calls,
        max_wall_time_seconds: budget.max_wall_time_seconds,
        max_cost_usd: match &budget.max_cost_usd {
            Some(cost) => Some(cost.clone()),
            None => None,
        },
    }
}

impl LoadedWorkflow {
    /// The program as a run keeps it.
    pub fn snapshot(&self) -> (r: WorkflowSnapshot)
        ensures
            same_manifest(r.manifest, self.registration.manifest),
            r.source == self.registration.source,
            r.definition_path@ == self.registration.definition_path@,
            r.sha256@ == self.registration.sha256@,
            r.source_code@ == self.source_code@,
    {
        let manifest = &self.registration.manifest;
        WorkflowSnapshot {
            manifest: WorkflowManifest {
                id: manifest.id,
                slug: manifest.slug.clone(),
                name: manifest.name.clone(),
                version: manifest.version.clone(),
                description: manifest.description.clone(),
                entrypoint: manifest.entrypoint.clone(),
                input_schema: manifest.input_schema.clone(),
                output_schema: manifest.output_schema.clone(),
                default_budget: copy_budget(&manifest.default_budget),
            },
            source: self.registration.source,
            definition_path: self.registration.definition_path.clone(),
            sha256: self.registration.sha256.clone(),
            source_code: self.source_code.clone(),
        }
    }

    /// Whether a program is the one in a file.
    pub open spec fn is_loaded(
        &self,
        manifest: WorkflowManifest,
        source: WorkflowSource,
        path: Seq<char>,
        definition_path: Seq<char>,
        source_code: Seq<char>,
        updated_at: Timestamp,
    ) -> bool {
        &&& self.registration.manifest == manifest
        &&& self.registration.source == source
        &&& self.registration.definition_path@ == definition_path
        &&& self.registration.sha256@ == sha256_text(encode_utf8(source_code))
        &&& self.registration.updated_at == updated_at
        &&& self.source_code@ == source_code
        &&& self.path@ == path
    }
}

/// What was published stays as it is: a source under the slug and version of a program is the
/// source of that program, or is refused.
pub proof fn law_published_programs_stay(
    catalog: WorkflowCatalog,
    at: int,
    source: Seq<char>,
    validation: SourceValidation,
    now: Timestamp,
    r: Result<SavePlan, WorkflowCatalogError>,
)
    requires
        catalog.wf(),
        catalog.saves(source, validation, now, r),
        validation.valid,
        0 <= at < catalog.entries@.len(),
        validation.manifest matches Some(m) && key_of(catalog.entries@[at]) == (m.slug@, m.version@),
    ensures
        catalog.entries@[at].registration.sha256@ == sha256_text(encode_utf8(source)) ==> (
        r matches Ok(SavePlan::Existing(i)) && i == at),
        catalog.entries@[at].registration.sha256@ != sha256_text(encode_utf8(source)) ==> (
        r matches Err(e) && e is Immutable),
{
    let key = key_of(catalog.entries@[at]);
    assert(has_key(catalog.entries@, key));
    match r {
        Ok(SavePlan::Existing(i)) => {
            law_keys_are_unique(catalog.entries@, i as int, at);
        },
        _ => {
            let sha256 = sha256_text(encode_utf8(source));
            let i = choose|i: int|
                0 <= i < catalog.entries@.len() && key_of(#[trigger] catalog.entries@[i]) == key
                    && catalog.entries@[i].registration.sha256@ != sha256;
            law_keys_are_unique(catalog.entries@, i, at);
        },
    }
}

/// Adds programs, one after the other, to an empty catalog. The first that is there already ends
/// it.
pub fn scan(catalog: WorkflowCatalog, found: Vec<LoadedWorkflow>) -> (r: Result<
    WorkflowCatalog,
    WorkflowCatalogError,
>)
    requires
        catalog.wf(),
        catalog.entries@.len() == 0,
    ensures
        match r {
            Ok(c) => c.wf() && c.entries@.to_multiset() == found@.to_multiset() && keys_differ(
                found@,
            ) && c.style == catalog.style && c.workflows_root == catalog.workflows_root && c.python
                == catalog.python
                && c.python_runtime_root == catalog.python_runtime_root,
            Err(e) => !keys_differ(found@) && exists|j: int| #[trigger]
                first_repeat(found@, j) && (e matches WorkflowCatalogError::Duplicate {
                    slug,
                    version,
                } && (slug@, version@) == key_of(found@[j])),
        },
{
    let mut catalog = catalog;
    let mut rest = found;
    let ghost all = found@;
    let ghost root = catalog.workflows_root;
    let ghost python = catalog.python;
    let ghost style = catalog.style;
    let ghost runtime = catalog.python_runtime_root;
    let ghost mut done: Seq<LoadedWorkflow> = Seq::empty();
    proof {
        assert(catalog.entries@ =~= Seq::<LoadedWorkflow>::empty());
        assert(done + rest@ =~= all);
    }
    while rest.len() > 0
        invariant
            catalog.wf(),
            catalog.workflows_root == root,
            catalog.python == python,
            catalog.style == style,
            catalog.python_runtime_root == runtime,
            done + rest@ == all,
            all == found@,
            catalog.entries@.to_multiset() == done.to_multiset(),
            keys_differ(done),
        decreases rest.len(),
    {
        let ghost before = rest@;
        let entry = rest.remove(0);
        assert(before =~= seq![entry] + rest@);
        let ghost known = catalog.entries@;
        proof {
            lemma_same_keys(known, done, key_of(entry));
        }
        match catalog.add(entry) {
            Ok(()) => {
                proof {
                    let next = done.push(entry);
                    vstd::seq_lib::to_multiset_build(done, entry);
                    assert forall|i: int, j: int| 0 <= i < j < next.len() implies key_of(
                        #[trigger] next[i],
                    ) != key_of(#[trigger] next[j]) by {
                        if j == done.len() {
                            assert(next[i] == done[i]);
                        }
                    }
                    assert(next + rest@ =~= all);
                    done = next;
                }
            },
            Err(e) => {
                proof {
                    let i = choose|i: int|
                        0 <= i < done.len() && key_of(#[trigger] done[i]) == key_of(entry);
                    let j = done.len() as int;
                    assert(all[i] == done[i]);
                    assert(all[j] == before[0]);
                    assert(key_of(all[i]) == key_of(all[j]));
                    assert(all.take(j) =~= done);
                    assert(first_repeat(all, j));
                }
                return Err(e);
            },
        }
    }
    assert(done =~= all);
    Ok(catalog)
}

/// Whether a program is the first whose key occurs before it.
pub open spec fn first_repeat(entries: Seq<LoadedWorkflow>, j: int) -> bool {
    &&& 0 <= j < entries.len()
    &&& keys_differ(entries.take(j))
    &&& has_key(entries.take(j), key_of(entries[j]))
}

/// Whether programs have keys of their own.
pub open spec fn keys_differ(entries: Seq<LoadedWorkflow>) -> bool {
    forall|i: int, j: int|
        0 <= i < j < entries.len() ==> key_of(#[trigger] entries[i]) != key_of(#[trigger] entries[j])
}

proof fn lemma_same_keys(a: Seq<LoadedWorkflow>, b: Seq<LoadedWorkflow>, key: (Seq<char>, Seq<char>))
    requires
        a.to_multiset() == b.to_multiset(),
    ensures
        has_key(a, key) == has_key(b, key),
{
    broadcast use vstd::seq_lib::group_to_multiset_ensures;

    if has_key(a, key) {
        let i = choose|i: int| 0 <= i < a.len() && key_of(#[trigger] a[i]) == key;
        assert(a.contains(a[i]));
        assert(a.to_multiset().count(a[i]) > 0);
        assert(b.contains(a[i]));
        let j = choose|j: int| 0 <= j < b.len() && b[j] == a[i];
        assert(key_of(b[j]) == key);
    }
    if has_key(b, key) {
        let i = choose|i: int| 0 <= i < b.len() && key_of(#[trigger] b[i]) == key;
        assert(b.contains(b[i]));
        assert(b.to_multiset().count(b[i]) > 0);
        assert(a.contains(b[i]));
        let j = choose|j: int| 0 <= j < a.len() && a[j] == b[i];
        assert(key_of(a[j]) == key);
    }
}

/// Whether a file holds a workflow program.
pub fn is_workflow_file(name: &str) -> (r: bool)
    ensures
        r == (name@ == "workflow.pm"@),
{
    same(name, "workflow.pm")
}

/// The file of the validator.
pub fn validator_path(style: PathStyle, runtime_root: &str) -> (r: String)
    ensures
        r@ == followed(
            style,
            followed(style, runtime_root@, "papermachine"@),
            "_validate.py"@,
        ),
{
    let directory = path_join(style, runtime_root, "papermachine");
    path_join(style, directory.as_str(), "_validate.py")
}

/// What is said of a validator that is missing.
pub fn missing_validator(validator: &str) -> (r: WorkflowCatalogError)
    ensures
        r matches WorkflowCatalogError::Validator(m) && m@ == "validator is missing: "@ + validator@,
{
    let mut message = "validator is missing: ".to_owned();
    message.append(validator);
    WorkflowCatalogError::Validator(message)
}

/// What a validator that ended without success said.
pub fn failed_validator(stderr: &Vec<u8>) -> (r: WorkflowCatalogError)
    ensures
        r matches WorkflowCatalogError::Validator(m) && m@ == trimmed(lossy_text(stderr@)),
{
    let text = read_lossy(stderr);
    WorkflowCatalogError::Validator(trim(text.as_str()))
}

/// The interpreters that are looked for, in order.
pub open spec fn interpreters() -> Seq<Seq<char>> {
    seq!["/opt/homebrew/bin/python3"@, "/usr/local/bin/python3"@, "/usr/bin/python3"@]
}

/// The interpreters that are looked for, in order.
pub fn python_candidates() -> (r: Vec<String>)
    ensures
        texts(r@) == interpreters(),
{
    let mut r: Vec<String> = Vec::new();
    r.push("/opt/homebrew/bin/python3".to_owned());
    r.push("/usr/local/bin/python3".to_owned());
    r.push("/usr/bin/python3".to_owned());
    assert(texts(r@) =~= interpreters());
    r
}

/// What was found out about an interpreter: whether it is a file, and what it answered when it was
/// asked for its version.
#[derive(Debug)]
pub struct InterpreterFacts {
    pub is_file: bool,
    pub success: bool,
    pub stdout: Vec<u8>,
}

/// Whether bytes begin with the word that says that an interpreter is new enough.
pub open spec fn says_true(stdout: Seq<u8>) -> bool {
    stdout.len() >= 4 && stdout[0] == 84 && stdout[1] == 114 && stdout[2] == 117 && stdout[3] == 101
}

/// Whether an interpreter can be used.
pub open spec fn usable(facts: InterpreterFacts) -> bool {
    facts.is_file && facts.success && says_true(facts.stdout@)
}

/// The first interpreter that can be used.
pub open spec fn first_usable(facts: Seq<InterpreterFacts>) -> Option<int>
    decreases facts.len(),
{
    if facts.len() == 0 {
        None
    } else {
        match first_usable(facts.drop_last()) {
            Some(i) => Some(i),
            None => if usable(facts.last()) {
                Some(facts.len() - 1)
            } else {
                None
            },
        }
    }
}

/// The interpreter that is named, given whether it is a file.
pub fn named_python(path: String, is_file: bool) -> (r: Result<String, WorkflowCatalogError>)
    ensures
        r == (if is_file {
            Ok::<String, WorkflowCatalogError>(path)
        } else {
            Err(WorkflowCatalogError::PythonUnavailable(path))
        }),
{
    if is_file {
        Ok(path)
    } else {
        Err(WorkflowCatalogError::PythonUnavailable(path))
    }
}

/// What is said where there is no interpreter.
pub open spec fn no_python() -> Seq<char> {
    "Python 3.11 or newer was not found"@
}

/// The interpreter that is used, given what was found out about each of [`python_candidates`].
pub fn find_python(facts: &Vec<InterpreterFacts>) -> (r: Result<String, WorkflowCatalogError>)
    requires
        facts@.len() == 3,
    ensures
        match first_usable(facts@) {
            Some(i) => r matches Ok(path) && path@ == interpreters()[i],
            None => r matches Err(WorkflowCatalogError::PythonUnavailable(m)) && m@ == no_python(),
        },
{
    let candidates = python_candidates();
    let mut i: usize = 0;
    assert(facts@.take(0) =~= Seq::<InterpreterFacts>::empty());
    while i < facts.len()
        invariant
            i <= facts@.len(),
            facts@.len() == 3,
            texts(candidates@) == interpreters(),
            first_usable(facts@.take(i as int)) is None,
        decreases facts.len() - i,
    {
        let fact = &facts[i];
        assert(facts@.take(i + 1).drop_last() =~= facts@.take(i as int));
        assert(facts@.take(i + 1).last() == facts@[i as int]);
        let said = fact.stdout.len() >= 4 && fact.stdout[0] == 84 && fact.stdout[1] == 114
            && fact.stdout[2] == 117 && fact.stdout[3] == 101;
        if fact.is_file && fact.success && said {
            proof {
                lemma_first_usable_stays(facts@, i + 1);
            }
            assert(texts(candidates@).len() == 3);
            assert(texts(candidates@)[i as int] == candidates@[i as int]@);
            return Ok(candidates[i].clone());
        }
        i = i + 1;
    }
    assert(facts@.take(i as int) =~= facts@);
    Err(WorkflowCatalogError::PythonUnavailable("Python 3.11 or newer was not found".to_owned()))
}

proof fn lemma_first_usable_stays(facts: Seq<InterpreterFacts>, n: int)
    requires
        0 <= n <= facts.len(),
        first_usable(facts.take(n)) is Some,
    ensures
        first_usable(facts) == first_usable(facts.take(n)),
    decreases facts.len() - n,
{
    if n < facts.len() {
        assert(facts.take(n + 1).drop_last() =~= facts.take(n));
        lemma_first_usable_stays(facts, n + 1);
    } else {
        assert(facts.take(n) =~= facts);
    }
}

/// On a Unix host the file of a program whose slug and version are plain names lies below the root of
/// the catalog, so that a program that is written can be registered.
pub proof fn law_written_programs_lie_below_the_root(
    root: Seq<char>,
    slug: Seq<char>,
    version: Seq<char>,
)
    requires
        root.len() > 0,
        is_file_name(slug),
        is_file_name(version),
    ensures
        relative_path(
            PathStyle::Unix,
            root,
            user_path(PathStyle::Unix, root, slug, version),
        ) is Some,
{
    let style = PathStyle::Unix;
    reveal_strlit("user");
    reveal_strlit("workflow.pm");
    reveal_strlit(".");
    reveal_strlit("..");
    let a = followed(style, root, "user"@);
    let b = followed(style, a, slug);
    let c = followed(style, b, version);
    law_a_name_leads_one_further(root, "user"@);
    law_a_name_leads_one_further(a, slug);
    law_a_name_leads_one_further(b, version);
    law_a_name_leads_one_further(c, "workflow.pm"@);
    let n = parts(style, root).len() as int;
    assert(parts(style, user_path(style, root, slug, version)).take(n) =~= parts(style, root));
}

} // verus!
