//! What a child process may touch.

use crate::execution::error::{bad_path, ExecutionError, ExecutionErrorView};
use crate::path::{absolute, followed, is_absolute, path_join, PathStyle};
use crate::protocol::permissions::{
    AccessPreset, AuthorizationContext, EnvironmentAuthorization, FilesystemScope,
};
use crate::text::{append_texts, copy_texts, lemma_texts_push, texts};
use vstd::prelude::*;

verus! {

broadcast use lemma_texts_push;

/// How much of a command's output is kept.
pub const DEFAULT_MAX_OUTPUT_BYTES: usize = 262_144;

#[derive(Clone, Copy, Debug, PartialEq, Eq, Structural)]
pub enum NetworkPolicy {
    Deny,
    Allow,
}

#[derive(Clone, Copy, Debug, PartialEq, Eq, Structural)]
pub enum FilesystemPolicy {
    Scoped,
    Host,
}

#[derive(Debug)]
pub struct SandboxPolicy {
    pub filesystem_read: FilesystemPolicy,
    pub filesystem_write: FilesystemPolicy,
    pub read_roots: Vec<String>,
    pub write_roots: Vec<String>,
    pub workspace_roots: Vec<String>,
    pub unreadable_roots: Vec<String>,
    pub read_only_roots: Vec<String>,
    pub sensitive_path_names: Vec<String>,
    pub protected_workspace_metadata: Vec<String>,
    pub network: NetworkPolicy,
    pub environment: EnvironmentAuthorization,
    pub timeout_millis: u64,
    pub max_output_bytes: usize,
}

/// The mathematical value of a [`SandboxPolicy`].
pub ghost struct PolicyView {
    pub filesystem_read: FilesystemPolicy,
    pub filesystem_write: FilesystemPolicy,
    pub read_roots: Seq<Seq<char>>,
    pub write_roots: Seq<Seq<char>>,
    pub workspace_roots: Seq<Seq<char>>,
    pub unreadable_roots: Seq<Seq<char>>,
    pub read_only_roots: Seq<Seq<char>>,
    pub sensitive_path_names: Seq<Seq<char>>,
    pub protected_workspace_metadata: Seq<Seq<char>>,
    pub network: NetworkPolicy,
    pub inherit_core: bool,
    pub deny_name_fragments: Seq<Seq<char>>,
    pub timeout_millis: u64,
    pub max_output_bytes: usize,
}

impl View for SandboxPolicy {
    type V = PolicyView;

    open spec fn view(&self) -> PolicyView {
        PolicyView {
            filesystem_read: self.filesystem_read,
            filesystem_write: self.filesystem_write,
            read_roots: texts(self.read_roots@),
            write_roots: texts(self.write_roots@),
            workspace_roots: texts(self.workspace_roots@),
            unreadable_roots: texts(self.unreadable_roots@),
            read_only_roots: texts(self.read_only_roots@),
            sensitive_path_names: texts(self.sensitive_path_names@),
            protected_workspace_metadata: texts(self.protected_workspace_metadata@),
            network: self.network,
            inherit_core: self.environment.inherit_core,
            deny_name_fragments: texts(self.environment.deny_name_fragments@),
            timeout_millis: self.timeout_millis,
            max_output_bytes: self.max_output_bytes,
        }
    }
}

/// The reach of a scope.
pub open spec fn scope_policy(scope: FilesystemScope) -> FilesystemPolicy {
    match scope {
        FilesystemScope::Host => FilesystemPolicy::Host,
        _ => FilesystemPolicy::Scoped,
    }
}

/// The roots of a scope, where it has any of its own.
pub open spec fn scope_roots_of(scope: FilesystemScope, workspace: Seq<char>) -> Seq<Seq<char>> {
    match scope {
        FilesystemScope::Workspace => seq![workspace],
        _ => Seq::empty(),
    }
}

/// The first path of a list that is not absolute.
pub open spec fn first_relative(style: PathStyle, paths: Seq<Seq<char>>) -> Option<Seq<char>>
    decreases paths.len(),
{
    if paths.len() == 0 {
        None
    } else if !absolute(style, paths[0]) {
        Some(paths[0])
    } else {
        first_relative(style, paths.drop_first())
    }
}

/// The root of an authorization that is not absolute, if one is.
pub open spec fn relative_root(style: PathStyle, a: AuthorizationContext) -> Option<Seq<char>> {
    first_relative(
        style,
        seq![a.workspace_root@] + texts(a.filesystem.managed_roots@) + texts(
            a.filesystem.sensitive_roots@,
        ),
    )
}

/// The policy that enforces an authorization.
pub open spec fn enforcing(
    style: PathStyle,
    a: AuthorizationContext,
    timeout_millis: u64,
) -> PolicyView {
    let write = scope_policy(a.filesystem.write);
    let protects_workspace = write != FilesystemPolicy::Host;
    let metadata = texts(a.filesystem.read_only_workspace_metadata@);
    PolicyView {
        filesystem_read: scope_policy(a.filesystem.read),
        filesystem_write: write,
        read_roots: scope_roots_of(a.filesystem.read, a.workspace_root@),
        write_roots: scope_roots_of(a.filesystem.write, a.workspace_root@),
        workspace_roots: seq![a.workspace_root@],
        unreadable_roots: texts(a.filesystem.managed_roots@) + texts(
            a.filesystem.sensitive_roots@,
        ),
        read_only_roots: if protects_workspace {
            metadata.map_values(|name: Seq<char>| followed(style, a.workspace_root@, name))
        } else {
            Seq::empty()
        },
        sensitive_path_names: if a.preset != AccessPreset::FullAccess {
            texts(a.filesystem.sensitive_path_names@).push(".env"@)
        } else {
            Seq::empty()
        },
        protected_workspace_metadata: if protects_workspace {
            metadata
        } else {
            Seq::empty()
        },
        network: if a.network.child_process {
            NetworkPolicy::Allow
        } else {
            NetworkPolicy::Deny
        },
        inherit_core: a.environment.inherit_core,
        deny_name_fragments: texts(a.environment.deny_name_fragments@),
        timeout_millis,
        max_output_bytes: DEFAULT_MAX_OUTPUT_BYTES,
    }
}

proof fn lemma_first_relative(style: PathStyle, paths: Seq<Seq<char>>, i: int)
    requires
        0 <= i <= paths.len(),
        forall|k: int| 0 <= k < i ==> absolute(style, #[trigger] paths[k]),
        i < paths.len() ==> !absolute(style, paths[i]),
    ensures
        first_relative(style, paths) == (if i < paths.len() {
            Some(paths[i])
        } else {
            None
        }),
    decreases i,
{
    if i > 0 {
        let rest = paths.drop_first();
        assert(absolute(style, paths[0]));
        assert forall|k: int| 0 <= k < i - 1 implies absolute(style, #[trigger] rest[k]) by {
            assert(rest[k] == paths[k + 1]);
        }
        lemma_first_relative(style, rest, i - 1);
        if i < paths.len() {
            assert(rest[i - 1] == paths[i]);
        }
    }
}

fn check_roots(style: PathStyle, roots: &Vec<String>) -> (r: Result<(), ExecutionError>)
    ensures
        match r {
            Ok(()) => first_relative(style, texts(roots@)) is None,
            Err(e) => first_relative(style, texts(roots@)) matches Some(path) && e@
                == ExecutionErrorView::InvalidPolicy("sandbox root must be absolute: "@ + path),
        },
{
    let mut i: usize = 0;
    while i < roots.len()
        invariant
            i <= roots@.len(),
            forall|k: int| 0 <= k < i ==> absolute(style, #[trigger] texts(roots@)[k]),
        decreases roots.len() - i,
    {
        if !is_absolute(style, roots[i].as_str()) {
            proof {
                lemma_first_relative(style, texts(roots@), i as int);
            }
            return Err(bad_path("sandbox root must be absolute: ", roots[i].as_str()));
        }
        i = i + 1;
    }
    proof {
        lemma_first_relative(style, texts(roots@), i as int);
    }
    Ok(())
}

fn join_all(style: PathStyle, root: &str, names: &Vec<String>) -> (r: Vec<String>)
    ensures
        texts(r@) == texts(names@).map_values(|name: Seq<char>| followed(style, root@, name)),
{
    let ghost all = texts(names@).map_values(|name: Seq<char>| followed(style, root@, name));
    let mut r: Vec<String> = Vec::new();
    let mut i: usize = 0;
    assert(texts(r@) =~= all.take(0));
    while i < names.len()
        invariant
            i <= names@.len(),
            all == texts(names@).map_values(|name: Seq<char>| followed(style, root@, name)),
            texts(r@) == all.take(i as int),
        decreases names.len() - i,
    {
        r.push(path_join(style, root, names[i].as_str()));
        assert(texts(r@) =~= all.take(i + 1));
        i = i + 1;
    }
    assert(all.take(i as int) =~= all);
    r
}

fn single(s: &str) -> (r: Vec<String>)
    ensures
        texts(r@) == seq![s@],
{
    let mut r: Vec<String> = Vec::new();
    r.push(s.to_owned());
    assert(texts(r@) =~= seq![s@]);
    r
}

fn nothing() -> (r: Vec<String>)
    ensures
        texts(r@) == Seq::<Seq<char>>::empty(),
{
    let r: Vec<String> = Vec::new();
    assert(texts(r@) =~= Seq::<Seq<char>>::empty());
    r
}

fn scope_roots(scope: FilesystemScope, workspace: &str) -> (r: (FilesystemPolicy, Vec<String>))
    ensures
        r.0 == scope_policy(scope),
        texts(r.1@) == scope_roots_of(scope, workspace@),
{
    match scope {
        FilesystemScope::Nothing => (FilesystemPolicy::Scoped, nothing()),
        FilesystemScope::Workspace => (FilesystemPolicy::Scoped, single(workspace)),
        FilesystemScope::Host => (FilesystemPolicy::Host, nothing()),
    }
}

/// The fragments that no inherited variable's name may hold.
pub open spec fn secret_fragments() -> Seq<Seq<char>> {
    seq!["KEY"@, "SECRET"@, "TOKEN"@]
}

fn core_environment() -> (r: EnvironmentAuthorization)
    ensures
        r.inherit_core,
        texts(r.deny_name_fragments@) == secret_fragments(),
{
    let mut names: Vec<String> = Vec::new();
    names.push("KEY".to_owned());
    names.push("SECRET".to_owned());
    names.push("TOKEN".to_owned());
    assert(texts(names@) =~= secret_fragments());
    EnvironmentAuthorization { inherit_core: true, deny_name_fragments: names }
}

/// The policy of a workflow's own runtime: its directory and nothing else.
pub open spec fn runtime_policy(workspace: Seq<char>) -> PolicyView {
    PolicyView {
        filesystem_read: FilesystemPolicy::Scoped,
        filesystem_write: FilesystemPolicy::Scoped,
        read_roots: seq![workspace],
        write_roots: seq![workspace],
        workspace_roots: Seq::empty(),
        unreadable_roots: Seq::empty(),
        read_only_roots: Seq::empty(),
        sensitive_path_names: Seq::empty(),
        protected_workspace_metadata: Seq::empty(),
        network: NetworkPolicy::Deny,
        inherit_core: true,
        deny_name_fragments: secret_fragments(),
        timeout_millis: 60_000,
        max_output_bytes: DEFAULT_MAX_OUTPUT_BYTES,
    }
}

/// The policy that denies nothing.
pub open spec fn open_policy(timeout_millis: u64) -> PolicyView {
    PolicyView {
        filesystem_read: FilesystemPolicy::Host,
        filesystem_write: FilesystemPolicy::Host,
        read_roots: Seq::empty(),
        write_roots: Seq::empty(),
        workspace_roots: Seq::empty(),
        unreadable_roots: Seq::empty(),
        read_only_roots: Seq::empty(),
        sensitive_path_names: Seq::empty(),
        protected_workspace_metadata: Seq::empty(),
        network: NetworkPolicy::Allow,
        inherit_core: true,
        deny_name_fragments: secret_fragments(),
        timeout_millis,
        max_output_bytes: DEFAULT_MAX_OUTPUT_BYTES,
    }
}

/// Whether a policy denies something, so that the platform has to enforce it.
pub open spec fn denies_something(p: PolicyView) -> bool {
    ||| p.filesystem_read != FilesystemPolicy::Host
    ||| p.filesystem_write != FilesystemPolicy::Host
    ||| p.network == NetworkPolicy::Deny
    ||| p.unreadable_roots.len() > 0
    ||| p.read_only_roots.len() > 0
    ||| p.sensitive_path_names.len() > 0
}

impl SandboxPolicy {
    /// Makes the policy that enforces an authorization.
    pub fn from_authorization(
        style: PathStyle,
        authorization: &AuthorizationContext,
        timeout_millis: u64,
    ) -> (r: Result<Self, ExecutionError>)
        ensures
            match r {
                Ok(policy) => relative_root(style, *authorization) is None && policy@ == enforcing(
                    style,
                    *authorization,
                    timeout_millis,
                ),
                Err(e) => relative_root(style, *authorization) matches Some(path) && e@
                    == ExecutionErrorView::InvalidPolicy("sandbox root must be absolute: "@ + path),
            },
    {
        let workspace = authorization.workspace_root.as_str();
        let mut unreadable_roots = copy_texts(&authorization.filesystem.managed_roots);
        append_texts(&mut unreadable_roots, &authorization.filesystem.sensitive_roots);
        let mut roots = single(workspace);
        append_texts(&mut roots, &unreadable_roots);
        assert(texts(roots@) =~= seq![authorization.workspace_root@] + texts(
            authorization.filesystem.managed_roots@,
        ) + texts(authorization.filesystem.sensitive_roots@));
        check_roots(style, &roots)?;
        let (filesystem_read, read_roots) = scope_roots(authorization.filesystem.read, workspace);
        let (filesystem_write, write_roots) = scope_roots(
            authorization.filesystem.write,
            workspace,
        );
        let protects_workspace = filesystem_write != FilesystemPolicy::Host;
        let metadata = &authorization.filesystem.read_only_workspace_metadata;
        Ok(
            SandboxPolicy {
                filesystem_read,
                filesystem_write,
                read_roots,
                write_roots,
                workspace_roots: single(workspace),
                unreadable_roots,
                read_only_roots: if protects_workspace {
                    join_all(style, workspace, metadata)
                } else {
                    nothing()
                },
                sensitive_path_names: if authorization.preset != AccessPreset::FullAccess {
                    let mut names = copy_texts(&authorization.filesystem.sensitive_path_names);
                    names.push(".env".to_owned());
                    names
                } else {
                    nothing()
                },
                protected_workspace_metadata: if protects_workspace {
                    copy_texts(metadata)
                } else {
                    nothing()
                },
                network: if authorization.network.child_process {
                    NetworkPolicy::Allow
                } else {
                    NetworkPolicy::Deny
                },
                environment: EnvironmentAuthorization {
                    inherit_core: authorization.environment.inherit_core,
                    deny_name_fragments: copy_texts(
                        &authorization.environment.deny_name_fragments,
                    ),
                },
                timeout_millis,
                max_output_bytes: DEFAULT_MAX_OUTPUT_BYTES,
            },
        )
    }

    /// Makes the policy of a workflow's own runtime.
    pub fn workflow_runtime(style: PathStyle, workspace: &str) -> (r: Result<Self, ExecutionError>)
        ensures
            match r {
                Ok(policy) => absolute(style, workspace@) && policy@ == runtime_policy(workspace@),
                Err(e) => !absolute(style, workspace@) && e@ == ExecutionErrorView::InvalidPolicy(
                    "Workflow runtime root must be absolute: "@ + workspace@,
                ),
            },
    {
        if !is_absolute(style, workspace) {
            return Err(bad_path("Workflow runtime root must be absolute: ", workspace));
        }
        Ok(
            SandboxPolicy {
                filesystem_read: FilesystemPolicy::Scoped,
                filesystem_write: FilesystemPolicy::Scoped,
                read_roots: single(workspace),
                write_roots: single(workspace),
                workspace_roots: nothing(),
                unreadable_roots: nothing(),
                read_only_roots: nothing(),
                sensitive_path_names: nothing(),
                protected_workspace_metadata: nothing(),
                network: NetworkPolicy::Deny,
                environment: core_environment(),
                timeout_millis: 60_000,
                max_output_bytes: DEFAULT_MAX_OUTPUT_BYTES,
            },
        )
    }

    /// Makes the policy that denies nothing.
    pub fn unrestricted(timeout_millis: u64) -> (r: Self)
        ensures
            r@ == open_policy(timeout_millis),
    {
        SandboxPolicy {
            filesystem_read: FilesystemPolicy::Host,
            filesystem_write: FilesystemPolicy::Host,
            read_roots: nothing(),
            write_roots: nothing(),
            workspace_roots: nothing(),
            unreadable_roots: nothing(),
            read_only_roots: nothing(),
            sensitive_path_names: nothing(),
            protected_workspace_metadata: nothing(),
            network: NetworkPolicy::Allow,
            environment: core_environment(),
            timeout_millis,
            max_output_bytes: DEFAULT_MAX_OUTPUT_BYTES,
        }
    }

    /// Whether the platform has to enforce the policy.
    pub fn requires_platform_sandbox(&self) -> (r: bool)
        ensures
            r == denies_something(self@),
    {
        self.filesystem_read != FilesystemPolicy::Host || self.filesystem_write
            != FilesystemPolicy::Host || self.network == NetworkPolicy::Deny
            || self.unreadable_roots.len() > 0 || self.read_only_roots.len() > 0
            || self.sensitive_path_names.len() > 0
    }
}

/// Below full access every policy has to be enforced by the platform, and so it is wherever
/// managed state is to be hidden.
pub proof fn law_restricted_policies_are_enforced(
    style: PathStyle,
    a: AuthorizationContext,
    timeout_millis: u64,
)
    requires
        a.preset != AccessPreset::FullAccess || a.filesystem.managed_roots@.len() > 0,
    ensures
        denies_something(enforcing(style, a, timeout_millis)),
{
}

/// The policy that denies nothing needs no platform.
pub proof fn law_open_policy_needs_no_platform(timeout_millis: u64)
    ensures
        !denies_something(open_policy(timeout_millis)),
{
}

} // verus!
