//! Filesystem and child-process authorization.
//!
//! A person chooses an [`AccessPreset`]; each Turn is held to the [`AuthorizationContext`] made
//! from it. Managed state is denied before every other rule, whatever the preset.

use crate::digest::{digest_form, sha256_hex_of_text, sha256_text};
use crate::json::{json_quote, json_text, text_list_document, write_text_list, JsonView};
use crate::path::{
    absolute, followed, inside, is_absolute, is_inside, is_inside_any, normalize_absolute,
    normalized, part_views, parts, path_join, path_parts, Part, PartView, PathStyle,
};
use crate::protocol::project::{attachment_fault, WorkspaceAttachment};
use crate::text::{begins_with, has_prefix, holds, lemma_texts_push, maybe_str, same, texts};
use vstd::prelude::*;
use vstd::utf8::encode_utf8;

verus! {

broadcast use lemma_texts_push;

/// What a person lets a Session do, from the least to the most.
#[derive(Clone, Copy, Debug, PartialEq, Eq, Structural, PartialOrd, Ord, Hash)]
pub enum AccessPreset {
    ModelOnly,
    ReadOnly,
    Workspace,
    FullAccess,
}

impl AccessPreset {
    /// The name of a preset.
    pub open spec fn name(self) -> Seq<char> {
        match self {
            AccessPreset::ModelOnly => "model_only"@,
            AccessPreset::ReadOnly => "read_only"@,
            AccessPreset::Workspace => "workspace"@,
            AccessPreset::FullAccess => "full_access"@,
        }
    }

    /// The place of a preset in the order from the least to the most.
    pub open spec fn rank(self) -> int {
        match self {
            AccessPreset::ModelOnly => 0,
            AccessPreset::ReadOnly => 1,
            AccessPreset::Workspace => 2,
            AccessPreset::FullAccess => 3,
        }
    }

    pub fn as_str(self) -> (r: &'static str)
        ensures
            r@ == self.name(),
    {
        match self {
            AccessPreset::ModelOnly => "model_only",
            AccessPreset::ReadOnly => "read_only",
            AccessPreset::Workspace => "workspace",
            AccessPreset::FullAccess => "full_access",
        }
    }

    /// Whether the preset lets the local tool of that name be used.
    pub open spec fn grants_tool(self, name: Seq<char>) -> bool {
        match self {
            AccessPreset::ModelOnly => false,
            AccessPreset::ReadOnly => name == "exec_command"@ || name == "write_stdin"@,
            AccessPreset::Workspace | AccessPreset::FullAccess => name == "exec_command"@ || name
                == "write_stdin"@ || name == "apply_patch"@,
        }
    }

    pub fn allows_local_tool(self, name: &str) -> (r: bool)
        ensures
            r == self.grants_tool(name@),
    {
        match self {
            AccessPreset::ModelOnly => false,
            AccessPreset::ReadOnly => same(name, "exec_command") || same(name, "write_stdin"),
            AccessPreset::Workspace | AccessPreset::FullAccess => {
                same(name, "exec_command") || same(name, "write_stdin") || same(name, "apply_patch")
            },
        }
    }
}

/// How far an operation on files reaches.
#[derive(Clone, Copy, Debug, PartialEq, Eq, Structural)]
pub enum FilesystemScope {
    Nothing,
    Workspace,
    Host,
}

impl FilesystemScope {
    pub open spec fn name(self) -> Seq<char> {
        match self {
            FilesystemScope::Nothing => "none"@,
            FilesystemScope::Workspace => "workspace"@,
            FilesystemScope::Host => "host"@,
        }
    }

    fn as_str(self) -> (r: &'static str)
        ensures
            r@ == self.name(),
    {
        match self {
            FilesystemScope::Nothing => "none",
            FilesystemScope::Workspace => "workspace",
            FilesystemScope::Host => "host",
        }
    }
}

#[derive(Debug, PartialEq, Eq)]
pub struct FilesystemAuthorization {
    pub read: FilesystemScope,
    pub write: FilesystemScope,
    /// Absolute roots of managed state, denied before every other rule.
    pub managed_roots: Vec<String>,
    /// Directories at the top of the Workspace that stay read-only below full access.
    pub read_only_workspace_metadata: Vec<String>,
    /// Names of credential files, denied below full access anywhere in a path. The family of
    /// `.env` and `.env.*` is matched besides.
    pub sensitive_path_names: Vec<String>,
    /// Absolute roots of the user's credentials, denied below full access.
    pub sensitive_roots: Vec<String>,
}

#[derive(Clone, Copy, Debug, PartialEq, Eq, Structural)]
pub struct NetworkCapabilities {
    /// Whether an untrusted child process has network access.
    pub child_process: bool,
}

impl Default for NetworkCapabilities {
    fn default() -> (r: Self)
        ensures
            r.child_process == false,
    {
        NetworkCapabilities { child_process: false }
    }
}

/// Environment variables for untrusted child processes. Only the platform's core variables are
/// inherited, and none whose name holds a denied fragment, whatever its case.
#[derive(Debug, PartialEq, Eq)]
pub struct EnvironmentAuthorization {
    pub inherit_core: bool,
    pub deny_name_fragments: Vec<String>,
}

/// The concrete policy of one Turn.
#[derive(Debug, PartialEq, Eq)]
pub struct AuthorizationContext {
    pub preset: AccessPreset,
    pub workspace_root: String,
    pub cwd: String,
    pub filesystem: FilesystemAuthorization,
    pub network: NetworkCapabilities,
    pub environment: EnvironmentAuthorization,
}

#[derive(Clone, Copy, Debug, PartialEq, Eq, Structural)]
pub enum PathOperation {
    Read,
    Write,
}

#[derive(Clone, Copy, Debug, PartialEq, Eq, Structural)]
pub enum PathAuthorizationFailure {
    InvalidPath,
    ManagedState,
    OutsideWorkspace,
    ReadDenied,
    WriteDenied,
    SensitivePath,
    ProtectedWorkspaceMetadata,
}

/// The directories of version control and agent configuration.
pub open spec fn protected_workspace_metadata() -> Seq<Seq<char>> {
    seq![".git"@, ".agents"@, ".codex"@]
}

/// The names of credential files.
pub open spec fn sensitive_path_names() -> Seq<Seq<char>> {
    seq![
        ".git-credentials"@,
        ".netrc"@,
        ".npmrc"@,
        ".pypirc"@,
        "application_default_credentials.json"@,
        "credentials"@,
        "credentials.json"@,
    ]
}

/// Where credentials are kept below a user's home.
pub open spec fn user_credential_paths() -> Seq<Seq<char>> {
    seq![
        ".ssh"@,
        ".aws"@,
        ".azure"@,
        ".gnupg"@,
        ".kube"@,
        ".docker"@,
        ".config/gcloud"@,
        ".config/gh"@,
    ]
}

/// The fragments of names that environment variables with secrets have.
pub open spec fn secret_name_fragments() -> Seq<Seq<char>> {
    seq!["KEY"@, "SECRET"@, "TOKEN"@]
}

/// The credential roots of a user with the given home.
pub open spec fn credential_roots(style: PathStyle, home: Option<Seq<char>>) -> Seq<Seq<char>> {
    match home {
        Some(home) => if absolute(style, home) {
            user_credential_paths().map_values(|p: Seq<char>| followed(style, home, p))
        } else {
            Seq::empty()
        },
        None => Seq::empty(),
    }
}

/// How far a preset reads.
pub open spec fn read_scope(preset: AccessPreset) -> FilesystemScope {
    match preset {
        AccessPreset::ModelOnly => FilesystemScope::Nothing,
        _ => FilesystemScope::Host,
    }
}

/// How far a preset writes.
pub open spec fn write_scope(preset: AccessPreset) -> FilesystemScope {
    match preset {
        AccessPreset::ModelOnly | AccessPreset::ReadOnly => FilesystemScope::Nothing,
        AccessPreset::Workspace => FilesystemScope::Workspace,
        AccessPreset::FullAccess => FilesystemScope::Host,
    }
}

/// The first root that is not absolute.
pub open spec fn first_relative(style: PathStyle, roots: Seq<Seq<char>>) -> Option<Seq<char>>
    decreases roots.len(),
{
    if roots.len() == 0 {
        None
    } else if !absolute(style, roots[0]) {
        Some(roots[0])
    } else {
        first_relative(style, roots.drop_first())
    }
}

/// Why no policy can be made of some paths, if none can.
pub open spec fn policy_fault(
    style: PathStyle,
    workspace: Seq<char>,
    cwd: Seq<char>,
    managed_roots: Seq<Seq<char>>,
) -> Option<Seq<char>> {
    if !absolute(style, workspace) {
        Some("Workspace path must be absolute: "@ + workspace)
    } else if managed_roots.len() == 0 {
        Some("managed roots must not be empty"@)
    } else if first_relative(style, managed_roots) is Some {
        Some("managed root must be absolute: "@ + first_relative(style, managed_roots)->0)
    } else if !absolute(style, cwd) {
        Some("Turn cwd must be absolute"@)
    } else if !inside(style, parts(style, cwd), workspace) {
        Some("Turn cwd must stay inside the Workspace"@)
    } else {
        None
    }
}

/// Whether a context is the policy that a preset makes of some paths.
pub open spec fn is_policy(
    context: AuthorizationContext,
    style: PathStyle,
    preset: AccessPreset,
    workspace: Seq<char>,
    cwd: Seq<char>,
    managed_roots: Seq<Seq<char>>,
    home: Option<Seq<char>>,
) -> bool {
    let files = context.filesystem;
    &&& context.preset == preset
    &&& context.workspace_root@ == workspace
    &&& context.cwd@ == cwd
    &&& files.read == read_scope(preset)
    &&& files.write == write_scope(preset)
    &&& texts(files.managed_roots@) == managed_roots
    &&& texts(files.read_only_workspace_metadata@) == protected_workspace_metadata()
    &&& texts(files.sensitive_path_names@) == sensitive_path_names()
    &&& texts(files.sensitive_roots@) == (if preset == AccessPreset::FullAccess {
        Seq::empty()
    } else {
        credential_roots(style, home)
    })
    &&& context.network.child_process == (preset == AccessPreset::FullAccess)
    &&& context.environment.inherit_core
    &&& texts(context.environment.deny_name_fragments@) == secret_name_fragments()
}

/// Whether one of some roots holds a path.
pub open spec fn inside_any(style: PathStyle, path: Seq<PartView>, roots: Seq<String>) -> bool {
    exists|i: int| 0 <= i < roots.len() && inside(style, path, #[trigger] roots[i]@)
}

/// Whether a name marks a file as sensitive.
pub open spec fn sensitive_name(name: Seq<char>, exact: Seq<Seq<char>>) -> bool {
    name == ".env"@ || begins_with(name, ".env."@) || exact.contains(name)
}

/// Whether a path goes through a sensitive name.
pub open spec fn sensitive(path: Seq<PartView>, exact: Seq<Seq<char>>) -> bool {
    exists|i: int| 0 <= i < path.len() && sensitive_part(#[trigger] path[i], exact)
}

/// Whether a part of a path is a sensitive name.
pub open spec fn sensitive_part(part: PartView, exact: Seq<Seq<char>>) -> bool {
    part matches PartView::Name(name) && sensitive_name(name, exact)
}

/// The first name among some parts.
pub open spec fn first_name(path: Seq<PartView>) -> Option<Seq<char>>
    decreases path.len(),
{
    if path.len() == 0 {
        None
    } else {
        match path[0] {
            PartView::Name(name) => Some(name),
            _ => first_name(path.drop_first()),
        }
    }
}

fn find_first_name(path: &Vec<Part>, from: usize) -> (r: Option<&str>)
    requires
        from <= path@.len(),
    ensures
        maybe_str(r) == first_name(part_views(path@).skip(from as int)),
{
    let ghost all = part_views(path@);
    let mut i: usize = from;
    while i < path.len()
        invariant
            from <= i <= path@.len(),
            all == part_views(path@),
            first_name(all.skip(from as int)) == first_name(all.skip(i as int)),
        decreases path.len() - i,
    {
        assert(all.skip(i as int)[0] == path@[i as int]@);
        assert(all.skip(i as int).drop_first() =~= all.skip(i + 1));
        if let Part::Name(name) = &path[i] {
            return Some(name.as_str());
        }
        i = i + 1;
    }
    None
}

impl AuthorizationContext {
    /// How far an operation reaches.
    pub open spec fn scope(&self, operation: PathOperation) -> FilesystemScope {
        match operation {
            PathOperation::Read => self.filesystem.read,
            PathOperation::Write => self.filesystem.write,
        }
    }

    /// Whether a place is withheld for the credentials it may hold.
    pub open spec fn withholds(&self, style: PathStyle, place: Seq<PartView>) -> bool {
        self.preset != AccessPreset::FullAccess && (sensitive(
            place,
            texts(self.filesystem.sensitive_path_names@),
        ) || inside_any(style, place, self.filesystem.sensitive_roots@))
    }

    /// Whether a place lies in a directory of the Workspace that stays read-only.
    pub open spec fn is_metadata(&self, style: PathStyle, place: Seq<PartView>) -> bool {
        let depth = parts(style, self.workspace_root@).len() as int;
        first_name(place.skip(depth)) matches Some(name) && texts(
            self.filesystem.read_only_workspace_metadata@,
        ).contains(name)
    }

    /// What the policy says of an operation on a place.
    pub open spec fn verdict_at(
        &self,
        style: PathStyle,
        place: Seq<PartView>,
        operation: PathOperation,
    ) -> Result<(), PathAuthorizationFailure> {
        let scope = self.scope(operation);
        if inside_any(style, place, self.filesystem.managed_roots@) {
            Err(PathAuthorizationFailure::ManagedState)
        } else if scope == FilesystemScope::Nothing {
            match operation {
                PathOperation::Read => Err(PathAuthorizationFailure::ReadDenied),
                PathOperation::Write => Err(PathAuthorizationFailure::WriteDenied),
            }
        } else if self.withholds(style, place) {
            Err(PathAuthorizationFailure::SensitivePath)
        } else if scope == FilesystemScope::Host {
            Ok(())
        } else if !inside(style, place, self.workspace_root@) {
            Err(PathAuthorizationFailure::OutsideWorkspace)
        } else if operation == PathOperation::Write && self.is_metadata(style, place) {
            Err(PathAuthorizationFailure::ProtectedWorkspaceMetadata)
        } else {
            Ok(())
        }
    }

    /// What the policy says of an operation on a path.
    pub open spec fn verdict(
        &self,
        style: PathStyle,
        path: Seq<char>,
        operation: PathOperation,
    ) -> Result<(), PathAuthorizationFailure> {
        match normalized(style, path) {
            None => Err(PathAuthorizationFailure::InvalidPath),
            Some(place) => self.verdict_at(style, place, operation),
        }
    }

    /// Decides whether an operation on a path of the host is allowed.
    pub fn authorize_path(&self, style: PathStyle, path: &str, operation: PathOperation) -> (r:
        Result<(), PathAuthorizationFailure>)
        ensures
            r == self.verdict(style, path@, operation),
    {
        let place = match normalize_absolute(style, path) {
            Some(place) => place,
            None => {
                return Err(PathAuthorizationFailure::InvalidPath);
            },
        };
        if is_inside_any(style, &place, &self.filesystem.managed_roots) {
            return Err(PathAuthorizationFailure::ManagedState);
        }
        let scope = match operation {
            PathOperation::Read => self.filesystem.read,
            PathOperation::Write => self.filesystem.write,
        };
        match scope {
            FilesystemScope::Nothing => {
                return match operation {
                    PathOperation::Read => Err(PathAuthorizationFailure::ReadDenied),
                    PathOperation::Write => Err(PathAuthorizationFailure::WriteDenied),
                };
            },
            FilesystemScope::Host | FilesystemScope::Workspace => {},
        }
        if self.preset != AccessPreset::FullAccess && (is_sensitive_path(
            &place,
            &self.filesystem.sensitive_path_names,
        ) || is_inside_any(style, &place, &self.filesystem.sensitive_roots)) {
            return Err(PathAuthorizationFailure::SensitivePath);
        }
        if scope == FilesystemScope::Host {
            return Ok(());
        }
        if !is_inside(style, &place, self.workspace_root.as_str()) {
            return Err(PathAuthorizationFailure::OutsideWorkspace);
        }
        if operation == PathOperation::Write {
            let root = path_parts(style, self.workspace_root.as_str());
            assert(part_views(root@).len() == root@.len());
            if let Some(name) = find_first_name(&place, root.len()) {
                if holds(&self.filesystem.read_only_workspace_metadata, name) {
                    return Err(PathAuthorizationFailure::ProtectedWorkspaceMetadata);
                }
            }
        }
        Ok(())
    }
}

/// Whether a path goes through a sensitive name.
pub fn is_sensitive_path(path: &Vec<Part>, exact_names: &Vec<String>) -> (r: bool)
    ensures
        r == sensitive(part_views(path@), texts(exact_names@)),
{
    let ghost all = part_views(path@);
    let mut i: usize = 0;
    while i < path.len()
        invariant
            i <= path.len(),
            all == part_views(path@),
            forall|k: int|
                0 <= k < i ==> !sensitive_part(#[trigger] all[k], texts(exact_names@)),
        decreases path.len() - i,
    {
        assert(all[i as int] == path@[i as int]@);
        if let Part::Name(name) = &path[i] {
            let name = name.as_str();
            if same(name, ".env") || has_prefix(name, ".env.") || holds(exact_names, name) {
                return true;
            }
        }
        i = i + 1;
    }
    false
}

fn owned(items: &[&str]) -> (r: Vec<String>)
    ensures
        texts(r@) == items@.map_values(|s: &str| s@),
{
    let mut r: Vec<String> = Vec::new();
    let mut i: usize = 0;
    while i < items.len()
        invariant
            i <= items.len(),
            texts(r@) == items@.map_values(|s: &str| s@).take(i as int),
        decreases items.len() - i,
    {
        let item = items[i].to_owned();
        r.push(item);
        assert(texts(r@) =~= items@.map_values(|s: &str| s@).take(i + 1));
        i = i + 1;
    }
    assert(texts(r@) =~= items@.map_values(|s: &str| s@));
    r
}

/// The credential roots below a home directory.
fn user_credential_roots(style: PathStyle, home: Option<&str>) -> (r: Vec<String>)
    ensures
        texts(r@) == credential_roots(
            style,
            match home {
                Some(h) => Some(h@),
                None => None,
            },
        ),
{
    let home = match home {
        Some(home) => home,
        None => {
            let r: Vec<String> = Vec::new();
            assert(texts(r@) =~= Seq::<Seq<char>>::empty());
            return r;
        },
    };
    let mut r: Vec<String> = Vec::new();
    assert(texts(r@) =~= Seq::<Seq<char>>::empty());
    if !is_absolute(style, home) {
        return r;
    }
    let paths = owned(
        &[".ssh", ".aws", ".azure", ".gnupg", ".kube", ".docker", ".config/gcloud", ".config/gh"],
    );
    assert(texts(paths@) =~= user_credential_paths());
    let mut i: usize = 0;
    let ghost roots = user_credential_paths().map_values(|p: Seq<char>| followed(style, home@, p));
    while i < paths.len()
        invariant
            i <= paths.len(),
            texts(paths@) == user_credential_paths(),
            roots == user_credential_paths().map_values(|p: Seq<char>| followed(style, home@, p)),
            texts(r@) == roots.take(i as int),
        decreases paths.len() - i,
    {
        let root = path_join(style, home, paths[i].as_str());
        assert(texts(paths@)[i as int] == paths@[i as int]@);
        r.push(root);
        assert(texts(r@) =~= roots.take(i + 1));
        i = i + 1;
    }
    assert(texts(r@) =~= roots);
    r
}

/// Accepts a path that is absolute.
fn validate_absolute_path(style: PathStyle, label: &str, path: &str) -> (r: Result<(), String>)
    ensures
        match r {
            Ok(()) => absolute(style, path@),
            Err(fault) => !absolute(style, path@) && fault@ == label@ + " path must be absolute: "@
                + path@,
        },
{
    if is_absolute(style, path) {
        return Ok(());
    }
    let mut fault = label.to_owned();
    fault.append(" path must be absolute: ");
    fault.append(path);
    Err(fault)
}

/// Accepts some roots that are all absolute.
fn validate_absolute_roots(style: PathStyle, label: &str, roots: &Vec<String>) -> (r: Result<
    (),
    String,
>)
    ensures
        match r {
            Ok(()) => roots@.len() > 0 && first_relative(style, texts(roots@)) is None,
            Err(fault) => if roots@.len() == 0 {
                fault@ == label@ + " roots must not be empty"@
            } else {
                first_relative(style, texts(roots@)) is Some && fault@ == label@
                    + " root must be absolute: "@ + first_relative(style, texts(roots@))->0
            },
        },
{
    if roots.len() == 0 {
        let mut fault = label.to_owned();
        fault.append(" roots must not be empty");
        return Err(fault);
    }
    let ghost all = texts(roots@);
    let mut i: usize = 0;
    assert(all.skip(0) =~= all);
    while i < roots.len()
        invariant
            i <= roots.len(),
            roots@.len() > 0,
            all == texts(roots@),
            first_relative(style, all) == first_relative(style, all.skip(i as int)),
        decreases roots.len() - i,
    {
        assert(all.skip(i as int)[0] == roots@[i as int]@);
        if !is_absolute(style, roots[i].as_str()) {
            let mut fault = label.to_owned();
            fault.append(" root must be absolute: ");
            fault.append(roots[i].as_str());
            return Err(fault);
        }
        assert(all.skip(i as int).drop_first() =~= all.skip(i + 1));
        i = i + 1;
    }
    Ok(())
}

/// The text of a truth value.
pub open spec fn truth_document(b: bool) -> Seq<char> {
    if b {
        "true"@
    } else {
        "false"@
    }
}

fn write_truth(b: bool) -> (r: &'static str)
    ensures
        r@ == truth_document(b),
{
    if b {
        "true"
    } else {
        "false"
    }
}

impl AuthorizationContext {
    /// The compact JSON document of a policy, its members in the order of the fields.
    pub open spec fn document(&self) -> Seq<char> {
        "{\"preset\":\""@ + self.preset.name() + "\",\"workspace_root\":"@ + json_text(
            JsonView::Text(self.workspace_root@),
        ) + ",\"cwd\":"@ + json_text(JsonView::Text(self.cwd@)) + ",\"filesystem\":{\"read\":\""@
            + self.filesystem.read.name() + "\",\"write\":\""@ + self.filesystem.write.name()
            + "\",\"managed_roots\":"@ + text_list_document(texts(self.filesystem.managed_roots@))
            + ",\"read_only_workspace_metadata\":"@ + text_list_document(
            texts(self.filesystem.read_only_workspace_metadata@),
        ) + ",\"sensitive_path_names\":"@ + text_list_document(
            texts(self.filesystem.sensitive_path_names@),
        ) + ",\"sensitive_roots\":"@ + text_list_document(texts(self.filesystem.sensitive_roots@))
            + "},\"network\":{\"child_process\":"@ + truth_document(self.network.child_process)
            + "},\"environment\":{\"inherit_core\":"@ + truth_document(
            self.environment.inherit_core,
        ) + ",\"deny_name_fragments\":"@ + text_list_document(
            texts(self.environment.deny_name_fragments@),
        ) + "}}"@
    }

    /// The identity of a policy: the digest of its document.
    pub open spec fn identity(&self) -> Seq<char> {
        sha256_text(encode_utf8(self.document()))
    }

    /// Makes the policy of a Turn. `home` is the user's home directory, where one is set.
    pub fn materialize(
        style: PathStyle,
        preset: AccessPreset,
        workspace_root: String,
        cwd: String,
        managed_roots: Vec<String>,
        home: Option<&str>,
    ) -> (r: Result<Self, String>)
        ensures
            match r {
                Ok(context) => policy_fault(
                    style,
                    workspace_root@,
                    cwd@,
                    texts(managed_roots@),
                ) is None && is_policy(
                    context,
                    style,
                    preset,
                    workspace_root@,
                    cwd@,
                    texts(managed_roots@),
                    match home {
                        Some(h) => Some(h@),
                        None => None,
                    },
                ),
                Err(fault) => policy_fault(
                    style,
                    workspace_root@,
                    cwd@,
                    texts(managed_roots@),
                ) == Some(fault@),
            },
    {
        match validate_absolute_path(style, "Workspace", workspace_root.as_str()) {
            Ok(()) => {},
            Err(fault) => {
                proof {
                    reveal_strlit("Workspace");
                    reveal_strlit(" path must be absolute: ");
                    reveal_strlit("Workspace path must be absolute: ");
                    assert("Workspace"@ + " path must be absolute: "@
                        =~= "Workspace path must be absolute: "@);
                }
                return Err(fault);
            },
        }
        match validate_absolute_roots(style, "managed", &managed_roots) {
            Ok(()) => {},
            Err(fault) => {
                proof {
                    reveal_strlit("managed");
                    reveal_strlit(" roots must not be empty");
                    reveal_strlit("managed roots must not be empty");
                    reveal_strlit(" root must be absolute: ");
                    reveal_strlit("managed root must be absolute: ");
                    assert("managed"@ + " roots must not be empty"@
                        =~= "managed roots must not be empty"@);
                    assert("managed"@ + " root must be absolute: "@
                        =~= "managed root must be absolute: "@);
                }
                return Err(fault);
            },
        }
        if !is_absolute(style, cwd.as_str()) {
            return Err("Turn cwd must be absolute".to_owned());
        }
        if !is_inside(style, &path_parts(style, cwd.as_str()), workspace_root.as_str()) {
            return Err("Turn cwd must stay inside the Workspace".to_owned());
        }
        let (read, write, network) = match preset {
            AccessPreset::ModelOnly => (
                FilesystemScope::Nothing,
                FilesystemScope::Nothing,
                NetworkCapabilities::default(),
            ),
            AccessPreset::ReadOnly => (
                FilesystemScope::Host,
                FilesystemScope::Nothing,
                NetworkCapabilities::default(),
            ),
            AccessPreset::Workspace => (
                FilesystemScope::Host,
                FilesystemScope::Workspace,
                NetworkCapabilities::default(),
            ),
            AccessPreset::FullAccess => (
                FilesystemScope::Host,
                FilesystemScope::Host,
                NetworkCapabilities { child_process: true },
            ),
        };
        let metadata = owned(&[".git", ".agents", ".codex"]);
        let sensitive = owned(
            &[
                ".git-credentials",
                ".netrc",
                ".npmrc",
                ".pypirc",
                "application_default_credentials.json",
                "credentials",
                "credentials.json",
            ],
        );
        let fragments = owned(&["KEY", "SECRET", "TOKEN"]);
        let roots = match preset {
            AccessPreset::FullAccess => Vec::new(),
            _ => user_credential_roots(style, home),
        };
        assert(texts(metadata@) =~= protected_workspace_metadata());
        assert(texts(sensitive@) =~= sensitive_path_names());
        assert(texts(fragments@) =~= secret_name_fragments());
        assert(preset == AccessPreset::FullAccess ==> texts(roots@) =~= Seq::<Seq<char>>::empty());
        Ok(
            AuthorizationContext {
                preset,
                workspace_root,
                cwd,
                filesystem: FilesystemAuthorization {
                    read,
                    write,
                    managed_roots,
                    read_only_workspace_metadata: metadata,
                    sensitive_path_names: sensitive,
                    sensitive_roots: roots,
                },
                network,
                environment: EnvironmentAuthorization {
                    inherit_core: true,
                    deny_name_fragments: fragments,
                },
            },
        )
    }

    /// Digests the policy's document.
    pub fn policy_sha256(&self) -> (r: Result<String, String>)
        ensures
            r is Ok,
            r->Ok_0@ == self.identity(),
            digest_form(r->Ok_0@),
    {
        let mut d = "{\"preset\":\"".to_owned();
        d.append(self.preset.as_str());
        d.append("\",\"workspace_root\":");
        d.append(json_quote(self.workspace_root.as_str()).as_str());
        d.append(",\"cwd\":");
        d.append(json_quote(self.cwd.as_str()).as_str());
        d.append(",\"filesystem\":{\"read\":\"");
        d.append(self.filesystem.read.as_str());
        d.append("\",\"write\":\"");
        d.append(self.filesystem.write.as_str());
        d.append("\",\"managed_roots\":");
        d.append(write_text_list(&self.filesystem.managed_roots).as_str());
        d.append(",\"read_only_workspace_metadata\":");
        d.append(write_text_list(&self.filesystem.read_only_workspace_metadata).as_str());
        d.append(",\"sensitive_path_names\":");
        d.append(write_text_list(&self.filesystem.sensitive_path_names).as_str());
        d.append(",\"sensitive_roots\":");
        d.append(write_text_list(&self.filesystem.sensitive_roots).as_str());
        d.append("},\"network\":{\"child_process\":");
        d.append(write_truth(self.network.child_process));
        d.append("},\"environment\":{\"inherit_core\":");
        d.append(write_truth(self.environment.inherit_core));
        d.append(",\"deny_name_fragments\":");
        d.append(write_text_list(&self.environment.deny_name_fragments).as_str());
        d.append("}}");
        Ok(sha256_hex_of_text(d.as_str()))
    }
}

/// The environment that a Turn runs in, with the identity of its policy.
#[derive(Debug, PartialEq, Eq)]
pub struct TurnEnvironmentSnapshot {
    pub workspace: WorkspaceAttachment,
    pub cwd: String,
    pub authorization: AuthorizationContext,
    pub authorization_sha256: String,
}

/// Why no environment can be made of an attachment and a managed root, if none can.
pub open spec fn environment_fault(
    style: PathStyle,
    workspace: WorkspaceAttachment,
    managed_root: Seq<char>,
) -> Option<Seq<char>> {
    if attachment_fault(style, workspace.revision, workspace.path@) is Some {
        attachment_fault(style, workspace.revision, workspace.path@)
    } else {
        policy_fault(style, workspace.path@, workspace.path@, seq![managed_root])
    }
}

impl TurnEnvironmentSnapshot {
    /// Makes the environment of a Turn that runs at the top of its Workspace.
    pub fn materialize(
        style: PathStyle,
        workspace: WorkspaceAttachment,
        managed_root: String,
        preset: AccessPreset,
        home: Option<&str>,
    ) -> (r: Result<Self, String>)
        ensures
            match r {
                Ok(snapshot) => {
                    &&& environment_fault(style, workspace, managed_root@) is None
                    &&& snapshot.workspace == workspace
                    &&& snapshot.cwd@ == workspace.path@
                    &&& is_policy(
                        snapshot.authorization,
                        style,
                        preset,
                        workspace.path@,
                        workspace.path@,
                        seq![managed_root@],
                        match home {
                            Some(h) => Some(h@),
                            None => None,
                        },
                    )
                    &&& snapshot.authorization_sha256@ == snapshot.authorization.identity()
                },
                Err(fault) => environment_fault(style, workspace, managed_root@) == Some(fault@),
            },
    {
        workspace.validate(style)?;
        let cwd = workspace.path.clone();
        let mut roots: Vec<String> = Vec::new();
        roots.push(managed_root);
        assert(texts(roots@) =~= seq![managed_root@]);
        let authorization = AuthorizationContext::materialize(
            style,
            preset,
            workspace.path.clone(),
            cwd.clone(),
            roots,
            home,
        )?;
        let authorization_sha256 = authorization.policy_sha256()?;
        Ok(TurnEnvironmentSnapshot { workspace, cwd, authorization, authorization_sha256 })
    }
}

/// Managed state is denied to every operation under every policy, whatever else the policy says.
pub proof fn law_managed_state_is_denied(
    context: AuthorizationContext,
    style: PathStyle,
    path: Seq<char>,
    operation: PathOperation,
    root: int,
)
    requires
        0 <= root < context.filesystem.managed_roots@.len(),
        normalized(style, path) is Some,
        inside(style, normalized(style, path)->0, context.filesystem.managed_roots@[root]@),
    ensures
        context.verdict(style, path, operation) == Err::<(), _>(
            PathAuthorizationFailure::ManagedState,
        ),
{
}

/// Two paths that lead to one place are judged alike.
pub proof fn law_verdict_is_of_the_place(
    context: AuthorizationContext,
    style: PathStyle,
    a: Seq<char>,
    b: Seq<char>,
    operation: PathOperation,
)
    requires
        normalized(style, a) == normalized(style, b),
    ensures
        context.verdict(style, a, operation) == context.verdict(style, b, operation),
{
}

/// What a preset's policy lets a Turn write, it lets it read.
pub proof fn law_writable_is_readable(
    context: AuthorizationContext,
    style: PathStyle,
    preset: AccessPreset,
    workspace: Seq<char>,
    cwd: Seq<char>,
    managed_roots: Seq<Seq<char>>,
    home: Option<Seq<char>>,
    path: Seq<char>,
)
    requires
        is_policy(context, style, preset, workspace, cwd, managed_roots, home),
        context.verdict(style, path, PathOperation::Write) is Ok,
    ensures
        context.verdict(style, path, PathOperation::Read) is Ok,
{
}

/// A Turn below full access never reaches a credential, and writes only in its Workspace, outside
/// the protected metadata.
pub proof fn law_below_full_access(
    context: AuthorizationContext,
    style: PathStyle,
    preset: AccessPreset,
    workspace: Seq<char>,
    cwd: Seq<char>,
    managed_roots: Seq<Seq<char>>,
    home: Option<Seq<char>>,
    path: Seq<char>,
    operation: PathOperation,
)
    requires
        is_policy(context, style, preset, workspace, cwd, managed_roots, home),
        preset != AccessPreset::FullAccess,
        context.verdict(style, path, operation) is Ok,
    ensures
        !sensitive(normalized(style, path)->0, sensitive_path_names()),
        operation == PathOperation::Write ==> preset == AccessPreset::Workspace && inside(
            style,
            normalized(style, path)->0,
            workspace,
        ) && !context.is_metadata(style, normalized(style, path)->0),
{
}

proof fn lemma_inside_any_by_texts(
    style: PathStyle,
    place: Seq<PartView>,
    a: Seq<String>,
    b: Seq<String>,
)
    requires
        texts(a) == texts(b),
    ensures
        inside_any(style, place, a) == inside_any(style, place, b),
{
    assert(a.len() == texts(a).len());
    assert(b.len() == texts(b).len());
    if inside_any(style, place, a) {
        let i = choose|i: int| 0 <= i < a.len() && inside(style, place, #[trigger] a[i]@);
        assert(texts(a)[i] == a[i]@);
        assert(texts(b)[i] == b[i]@);
        assert(inside(style, place, b[i]@));
    }
    if inside_any(style, place, b) {
        let i = choose|i: int| 0 <= i < b.len() && inside(style, place, #[trigger] b[i]@);
        assert(texts(a)[i] == a[i]@);
        assert(texts(b)[i] == b[i]@);
        assert(inside(style, place, a[i]@));
    }
}

/// Of two policies over the same paths, the one of the greater preset allows whatever the other
/// allows.
pub proof fn law_greater_presets_allow_more(
    less: AuthorizationContext,
    more: AuthorizationContext,
    style: PathStyle,
    lower: AccessPreset,
    higher: AccessPreset,
    workspace: Seq<char>,
    cwd: Seq<char>,
    managed_roots: Seq<Seq<char>>,
    home: Option<Seq<char>>,
    path: Seq<char>,
    operation: PathOperation,
)
    requires
        lower.rank() <= higher.rank(),
        is_policy(less, style, lower, workspace, cwd, managed_roots, home),
        is_policy(more, style, higher, workspace, cwd, managed_roots, home),
        less.verdict(style, path, operation) is Ok,
    ensures
        more.verdict(style, path, operation) is Ok,
{
    let place = normalized(style, path)->0;
    lemma_inside_any_by_texts(
        style,
        place,
        less.filesystem.managed_roots@,
        more.filesystem.managed_roots@,
    );
    if higher != AccessPreset::FullAccess {
        lemma_inside_any_by_texts(
            style,
            place,
            less.filesystem.sensitive_roots@,
            more.filesystem.sensitive_roots@,
        );
    }
}

/// A policy's identity depends on what the policy says alone: policies made of the same preset and
/// paths have one identity.
pub proof fn law_identity_is_stable(
    a: AuthorizationContext,
    b: AuthorizationContext,
    style: PathStyle,
    preset: AccessPreset,
    workspace: Seq<char>,
    cwd: Seq<char>,
    managed_roots: Seq<Seq<char>>,
    home: Option<Seq<char>>,
)
    requires
        is_policy(a, style, preset, workspace, cwd, managed_roots, home),
        is_policy(b, style, preset, workspace, cwd, managed_roots, home),
    ensures
        a.identity() == b.identity(),
{
}

} // verus!
