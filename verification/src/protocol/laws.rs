//! What a Turn may do, and what it costs.

use crate::digest::{digest_form, is_hex};
use crate::json::{json_text, text_list_document, JsonView};
use crate::path::{absolute, followed, inside, normalized, parts, under, PartView, PathStyle};
use crate::protocol::model::{usage_sum, ModelRouteSnapshot, TokenUsage};
use crate::protocol::permissions::{
    credential_roots, environment_fault, first_name, first_relative, inside_any, is_policy,
    policy_fault, protected_workspace_metadata, sensitive, sensitive_name, sensitive_part,
    sensitive_path_names, AccessPreset, AuthorizationContext, PathAuthorizationFailure,
    PathOperation,
};
use crate::protocol::project::{attachment_fault, WorkspaceAttachment};
use crate::text::{begins_with, occurs, stands_at, texts, trimmed};
use vstd::prelude::*;

verus! {

/// Whether a name is that of a file that holds credentials.
pub open spec fn names_a_secret(name: Seq<char>) -> bool {
    ||| name == ".env"@
    ||| begins_with(name, ".env."@)
    ||| name == ".git-credentials"@
    ||| name == ".netrc"@
    ||| name == ".npmrc"@
    ||| name == ".pypirc"@
    ||| name == "application_default_credentials.json"@
    ||| name == "credentials"@
    ||| name == "credentials.json"@
}

/// Whether a place lies at or below a file that holds credentials.
pub open spec fn goes_through_a_secret(place: Seq<PartView>) -> bool {
    exists|i: int| 0 <= i < place.len() && is_secret_part(#[trigger] place[i])
}

/// Whether a part of a place is the name of a file that holds credentials.
pub open spec fn is_secret_part(part: PartView) -> bool {
    part matches PartView::Name(name) && names_a_secret(name)
}

/// Whether a place lies where a user keeps credentials.
pub open spec fn in_credentials(
    style: PathStyle,
    place: Seq<PartView>,
    home: Option<Seq<char>>,
) -> bool {
    home matches Some(h) && absolute(style, h) && {
        ||| inside(style, place, followed(style, h, ".ssh"@))
        ||| inside(style, place, followed(style, h, ".aws"@))
        ||| inside(style, place, followed(style, h, ".azure"@))
        ||| inside(style, place, followed(style, h, ".gnupg"@))
        ||| inside(style, place, followed(style, h, ".kube"@))
        ||| inside(style, place, followed(style, h, ".docker"@))
        ||| inside(style, place, followed(style, h, ".config/gcloud"@))
        ||| inside(style, place, followed(style, h, ".config/gh"@))
    }
}

/// Whether a place lies in managed state.
pub open spec fn in_managed(
    style: PathStyle,
    place: Seq<PartView>,
    managed_roots: Seq<Seq<char>>,
) -> bool {
    exists|i: int| 0 <= i < managed_roots.len() && inside(style, place, #[trigger] managed_roots[i])
}

/// Whether a place in a Workspace lies in a directory of version control or of an agent's settings: the
/// first name below the Workspace is that of one.
pub open spec fn in_metadata(style: PathStyle, place: Seq<PartView>, workspace: Seq<char>) -> bool {
    exists|k: int|
        {
            &&& parts(style, workspace).len() <= k < place.len()
            &&& (#[trigger] place[k]) is Name
            &&& forall|j: int|
                parts(style, workspace).len() <= j < k ==> !((#[trigger] place[j]) is Name)
            &&& place[k] == PartView::Name(".git"@) || place[k] == PartView::Name(".agents"@)
                || place[k] == PartView::Name(".codex"@)
        }
}

proof fn lemma_secrets(place: Seq<PartView>)
    ensures
        sensitive(place, sensitive_path_names()) <==> goes_through_a_secret(place),
{
    let exact = sensitive_path_names();
    assert(exact[0] == ".git-credentials"@);
    assert(exact[1] == ".netrc"@);
    assert(exact[2] == ".npmrc"@);
    assert(exact[3] == ".pypirc"@);
    assert(exact[4] == "application_default_credentials.json"@);
    assert(exact[5] == "credentials"@);
    assert(exact[6] == "credentials.json"@);
    assert forall|name: Seq<char>| sensitive_name(name, exact) <==> #[trigger] names_a_secret(
        name,
    ) by {
        if exact.contains(name) {
            let i = choose|i: int| 0 <= i < exact.len() && exact[i] == name;
            assert(exact.len() == 7);
        }
    }
    assert forall|part: PartView| sensitive_part(part, exact) <==> #[trigger] is_secret_part(
        part,
    ) by {
        if part is Name {
            assert(sensitive_name(part->Name_0, exact) <==> names_a_secret(part->Name_0));
        }
    }
    if sensitive(place, exact) {
        let i = choose|i: int| 0 <= i < place.len() && sensitive_part(#[trigger] place[i], exact);
        assert(is_secret_part(place[i]));
    }
    if goes_through_a_secret(place) {
        let i = choose|i: int| 0 <= i < place.len() && is_secret_part(#[trigger] place[i]);
        assert(sensitive_part(place[i], exact));
    }
}

proof fn lemma_by_texts(style: PathStyle, place: Seq<PartView>, roots: Seq<String>)
    ensures
        inside_any(style, place, roots) <==> in_managed(style, place, texts(roots)),
{
    let all = texts(roots);
    if inside_any(style, place, roots) {
        let i = choose|i: int| 0 <= i < roots.len() && inside(style, place, #[trigger] roots[i]@);
        assert(all[i] == roots[i]@);
    }
    if in_managed(style, place, all) {
        let i = choose|i: int| 0 <= i < all.len() && inside(style, place, #[trigger] all[i]);
        assert(all[i] == roots[i]@);
    }
}

proof fn lemma_credentials(style: PathStyle, place: Seq<PartView>, home: Option<Seq<char>>)
    ensures
        in_managed(style, place, credential_roots(style, home)) <==> in_credentials(
            style,
            place,
            home,
        ),
{
    let roots = credential_roots(style, home);
    if home is Some && absolute(style, home->0) {
        let h = home->0;
        assert(roots.len() == 8);
        assert(roots[0] == followed(style, h, ".ssh"@));
        assert(roots[1] == followed(style, h, ".aws"@));
        assert(roots[2] == followed(style, h, ".azure"@));
        assert(roots[3] == followed(style, h, ".gnupg"@));
        assert(roots[4] == followed(style, h, ".kube"@));
        assert(roots[5] == followed(style, h, ".docker"@));
        assert(roots[6] == followed(style, h, ".config/gcloud"@));
        assert(roots[7] == followed(style, h, ".config/gh"@));
        if in_managed(style, place, roots) {
            let i = choose|i: int| 0 <= i < roots.len() && inside(style, place, #[trigger] roots[i]);
            assert(0 <= i < 8);
        }
    }
}

proof fn lemma_metadata(
    context: AuthorizationContext,
    style: PathStyle,
    place: Seq<PartView>,
    workspace: Seq<char>,
)
    requires
        context.workspace_root@ == workspace,
        texts(context.filesystem.read_only_workspace_metadata@) == protected_workspace_metadata(),
        parts(style, workspace).len() <= place.len(),
    ensures
        context.is_metadata(style, place) <==> in_metadata(style, place, workspace),
{
    let depth = parts(style, workspace).len() as int;
    let all = protected_workspace_metadata();
    assert(all[0] == ".git"@ && all[1] == ".agents"@ && all[2] == ".codex"@);
    if depth <= place.len() {
        lemma_first_name(place.skip(depth), 0);
        let rest = place.skip(depth);
        if context.is_metadata(style, place) {
            let k = choose|k: int|
                0 <= k < rest.len() && #[trigger] rest[k] == PartView::Name(first_name(rest)->0)
                    && forall|j: int| 0 <= j < k ==> !((#[trigger] rest[j]) is Name);
            assert(place[depth + k] == rest[k]);
            assert forall|j: int| depth <= j < depth + k implies !((#[trigger] place[j]) is Name) by {
                assert(place[j] == rest[j - depth]);
            }
            let i = choose|i: int| 0 <= i < all.len() && all[i] == first_name(rest)->0;
            assert(0 <= i < 3);
        }
        if in_metadata(style, place, workspace) {
            let k = choose|k: int|
                {
                    &&& depth <= k < place.len()
                    &&& (#[trigger] place[k]) is Name
                    &&& forall|j: int| depth <= j < k ==> !((#[trigger] place[j]) is Name)
                    &&& place[k] == PartView::Name(".git"@) || place[k] == PartView::Name(
                        ".agents"@,
                    ) || place[k] == PartView::Name(".codex"@)
                };
            assert(rest[k - depth] == place[k]);
            assert forall|j: int| 0 <= j < k - depth implies !((#[trigger] rest[j]) is Name) by {
                assert(rest[j] == place[j + depth]);
            }
            lemma_first_name(rest, k - depth);
        }
    }
}

proof fn lemma_first_name(rest: Seq<PartView>, k: int)
    ensures
        first_name(rest) matches Some(name) ==> exists|k: int|
            0 <= k < rest.len() && #[trigger] rest[k] == PartView::Name(name) && forall|j: int|
                0 <= j < k ==> !((#[trigger] rest[j]) is Name),
        0 <= k < rest.len() && rest[k] is Name && (forall|j: int|
            0 <= j < k ==> !((#[trigger] rest[j]) is Name)) ==> first_name(rest) == Some(
            rest[k]->Name_0,
        ),
    decreases rest.len(),
{
    if rest.len() > 0 {
        let tail = rest.drop_first();
        lemma_first_name(tail, k - 1);
        if rest[0] is Name {
            assert(rest[0] == PartView::Name(first_name(rest)->0));
            if 0 < k < rest.len() {
                assert(rest[0] is Name);
            }
        } else {
            if first_name(tail) is Some {
                let n = choose|n: int|
                    0 <= n < tail.len() && #[trigger] tail[n] == PartView::Name(first_name(tail)->0)
                        && forall|j: int| 0 <= j < n ==> !((#[trigger] tail[j]) is Name);
                assert(rest[n + 1] == tail[n]);
                assert forall|j: int| 0 <= j < n + 1 implies !((#[trigger] rest[j]) is Name) by {
                    if j > 0 {
                        assert(rest[j] == tail[j - 1]);
                    }
                }
            }
            if 0 < k < rest.len() && rest[k] is Name && (forall|j: int|
                0 <= j < k ==> !((#[trigger] rest[j]) is Name)) {
                assert(tail[k - 1] == rest[k]);
                assert forall|j: int| 0 <= j < k - 1 implies !((#[trigger] tail[j]) is Name) by {
                    assert(tail[j] == rest[j + 1]);
                }
            }
        }
    }
}

/// What a policy lets a Turn do. It reads every place of the host outside managed state under every
/// preset that reads at all; below full access, none where credentials are. It writes everything
/// outside managed state with full access, and in its Workspace, outside credentials and metadata, where
/// it may write that. It does nothing else.
pub proof fn law_what_a_policy_allows(
    context: AuthorizationContext,
    style: PathStyle,
    preset: AccessPreset,
    workspace: Seq<char>,
    cwd: Seq<char>,
    managed_roots: Seq<Seq<char>>,
    home: Option<Seq<char>>,
    path: Seq<char>,
    place: Seq<PartView>,
)
    requires
        is_policy(context, style, preset, workspace, cwd, managed_roots, home),
        normalized(style, path) == Some(place),
    ensures
        ({
            let plain = !goes_through_a_secret(place) && !in_credentials(style, place, home);
            let managed = in_managed(style, place, managed_roots);
            &&& context.verdict(style, path, PathOperation::Read) is Ok <==> !managed && (match preset {
                AccessPreset::ModelOnly => false,
                AccessPreset::ReadOnly => plain,
                AccessPreset::Workspace => plain,
                AccessPreset::FullAccess => true,
            })
            &&& context.verdict(style, path, PathOperation::Write) is Ok <==> !managed && (
            match preset {
                AccessPreset::ModelOnly => false,
                AccessPreset::ReadOnly => false,
                AccessPreset::Workspace => plain && under(place, parts(style, workspace))
                    && !in_metadata(style, place, workspace),
                AccessPreset::FullAccess => true,
            })
        }),
{
    lemma_secrets(place);
    lemma_by_texts(style, place, context.filesystem.managed_roots@);
    lemma_by_texts(style, place, context.filesystem.sensitive_roots@);
    lemma_credentials(style, place, home);
    if under(place, parts(style, workspace)) {
        lemma_metadata(context, style, place, workspace);
    }
}

/// Why a policy denies an operation: managed state before everything else, then what the preset does not
/// do at all, then credentials, then what lies outside the Workspace, and last its metadata. A path that
/// leads to no place is denied for that.
pub proof fn law_why_a_policy_denies(
    context: AuthorizationContext,
    style: PathStyle,
    preset: AccessPreset,
    workspace: Seq<char>,
    cwd: Seq<char>,
    managed_roots: Seq<Seq<char>>,
    home: Option<Seq<char>>,
    path: Seq<char>,
    operation: PathOperation,
)
    requires
        is_policy(context, style, preset, workspace, cwd, managed_roots, home),
        context.verdict(style, path, operation) is Err,
    ensures
        match context.verdict(style, path, operation)->Err_0 {
            PathAuthorizationFailure::InvalidPath => normalized(style, path) is None,
            PathAuthorizationFailure::ManagedState => normalized(style, path) matches Some(place)
                && in_managed(style, place, managed_roots),
            PathAuthorizationFailure::ReadDenied => operation == PathOperation::Read && preset
                == AccessPreset::ModelOnly,
            PathAuthorizationFailure::WriteDenied => operation == PathOperation::Write && (preset
                == AccessPreset::ModelOnly || preset == AccessPreset::ReadOnly),
            PathAuthorizationFailure::SensitivePath => preset != AccessPreset::FullAccess && (
            normalized(style, path) matches Some(place) && (goes_through_a_secret(place)
                || in_credentials(style, place, home))),
            PathAuthorizationFailure::OutsideWorkspace => operation == PathOperation::Write && preset
                == AccessPreset::Workspace && (normalized(style, path) matches Some(place) && !under(
                place,
                parts(style, workspace),
            )),
            PathAuthorizationFailure::ProtectedWorkspaceMetadata => operation
                == PathOperation::Write && preset == AccessPreset::Workspace && (normalized(
                style,
                path,
            ) matches Some(place) && in_metadata(style, place, workspace)),
        },
        normalized(style, path) is None ==> context.verdict(style, path, operation) == Err::<(), _>(
            PathAuthorizationFailure::InvalidPath,
        ),
        normalized(style, path) matches Some(place) ==> in_managed(style, place, managed_roots)
            ==> context.verdict(style, path, operation) == Err::<(), _>(
            PathAuthorizationFailure::ManagedState,
        ),
{
    if let Some(place) = normalized(style, path) {
        lemma_secrets(place);
        lemma_by_texts(style, place, context.filesystem.managed_roots@);
        lemma_by_texts(style, place, context.filesystem.sensitive_roots@);
        lemma_credentials(style, place, home);
        if under(place, parts(style, workspace)) {
            lemma_metadata(context, style, place, workspace);
        }
    }
}

/// Only a Turn with full access hands its child processes the network, and no Turn hands them a variable
/// whose name is that of a secret.
pub proof fn law_what_children_get(
    context: AuthorizationContext,
    style: PathStyle,
    preset: AccessPreset,
    workspace: Seq<char>,
    cwd: Seq<char>,
    managed_roots: Seq<Seq<char>>,
    home: Option<Seq<char>>,
)
    requires
        is_policy(context, style, preset, workspace, cwd, managed_roots, home),
    ensures
        context.network.child_process <==> preset == AccessPreset::FullAccess,
        context.environment.inherit_core,
        texts(context.environment.deny_name_fragments@).contains("KEY"@),
        texts(context.environment.deny_name_fragments@).contains("SECRET"@),
        texts(context.environment.deny_name_fragments@).contains("TOKEN"@),
{
    let all = texts(context.environment.deny_name_fragments@);
    assert(all[0] == "KEY"@ && all[1] == "SECRET"@ && all[2] == "TOKEN"@);
}

proof fn lemma_first_relative(style: PathStyle, roots: Seq<Seq<char>>)
    ensures
        first_relative(style, roots) is None <==> forall|i: int|
            0 <= i < roots.len() ==> absolute(style, #[trigger] roots[i]),
        first_relative(style, roots) matches Some(root) ==> !absolute(style, root)
            && roots.contains(root),
    decreases roots.len(),
{
    if roots.len() > 0 {
        let rest = roots.drop_first();
        lemma_first_relative(style, rest);
        if first_relative(style, roots) is None {
            assert forall|i: int| 0 <= i < roots.len() implies absolute(
                style,
                #[trigger] roots[i],
            ) by {
                if i > 0 {
                    assert(roots[i] == rest[i - 1]);
                }
            }
        } else if absolute(style, roots[0]) {
            let i = choose|i: int| 0 <= i < rest.len() && rest[i] == first_relative(style, rest)->0;
            assert(roots[i + 1] == rest[i]);
        } else {
            assert(roots[0] == first_relative(style, roots)->0);
        }
    }
}

/// A policy can be made of some paths exactly if all are absolute, there is managed state to protect,
/// and the Turn starts inside its Workspace.
pub proof fn law_which_paths_make_a_policy(
    style: PathStyle,
    workspace: Seq<char>,
    cwd: Seq<char>,
    managed_roots: Seq<Seq<char>>,
)
    ensures
        policy_fault(style, workspace, cwd, managed_roots) is None <==> {
            &&& absolute(style, workspace)
            &&& absolute(style, cwd)
            &&& managed_roots.len() > 0
            &&& forall|i: int|
                0 <= i < managed_roots.len() ==> absolute(style, #[trigger] managed_roots[i])
            &&& under(parts(style, cwd), parts(style, workspace))
        },
{
    lemma_first_relative(style, managed_roots);
}

/// A Turn can run at the top of a Workspace exactly if the attachment has a revision and a path, and the
/// path and the managed root are absolute.
pub proof fn law_which_workspaces_can_be_run_in(
    style: PathStyle,
    workspace: WorkspaceAttachment,
    managed_root: Seq<char>,
)
    ensures
        environment_fault(style, workspace, managed_root) is None <==> {
            &&& workspace.revision > 0
            &&& trimmed(workspace.path@).len() > 0
            &&& absolute(style, workspace.path@)
            &&& absolute(style, managed_root)
        },
        attachment_fault(style, workspace.revision, workspace.path@) is None <==> {
            &&& workspace.revision > 0
            &&& trimmed(workspace.path@).len() > 0
            &&& absolute(style, workspace.path@)
        },
{
    let roots = seq![managed_root];
    law_which_paths_make_a_policy(style, workspace.path@, workspace.path@, roots);
    let place = parts(style, workspace.path@);
    assert(place.take(place.len() as int) =~= place);
    assert(roots[0] == managed_root);
}

/// A preset grants a tool exactly if it grants what the tool does: commands where it reads, and patches
/// where it writes as well. It grants no other.
pub proof fn law_tools_need_their_rights(preset: AccessPreset, name: Seq<char>)
    ensures
        preset.grants_tool("exec_command"@) <==> preset != AccessPreset::ModelOnly,
        preset.grants_tool("write_stdin"@) <==> preset != AccessPreset::ModelOnly,
        preset.grants_tool("apply_patch"@) <==> preset == AccessPreset::Workspace || preset
            == AccessPreset::FullAccess,
        preset.grants_tool(name) ==> name == "exec_command"@ || name == "write_stdin"@ || name
            == "apply_patch"@,
{
    reveal_strlit("write_stdin");
    reveal_strlit("exec_command");
    reveal_strlit("apply_patch");
    assert("write_stdin"@.len() == 11);
    assert("exec_command"@.len() == 12);
    assert("apply_patch"@.len() == 11);
    assert("apply_patch"@[0] != "write_stdin"@[0]);
}

/// The parts of a policy that its identity is made of.
pub open spec fn told_apart(context: AuthorizationContext) -> Seq<Seq<char>> {
    let files = context.filesystem;
    seq![
        "{\"preset\":\""@ + context.preset.name(),
        "\",\"workspace_root\":"@ + json_text(JsonView::Text(context.workspace_root@)),
        ",\"cwd\":"@ + json_text(JsonView::Text(context.cwd@)),
        ",\"filesystem\":{\"read\":\""@ + files.read.name(),
        "\",\"write\":\""@ + files.write.name(),
        "\",\"managed_roots\":"@ + text_list_document(texts(files.managed_roots@)),
        ",\"read_only_workspace_metadata\":"@ + text_list_document(texts(files.read_only_workspace_metadata@)),
        ",\"sensitive_path_names\":"@ + text_list_document(texts(files.sensitive_path_names@)),
        ",\"sensitive_roots\":"@ + text_list_document(texts(files.sensitive_roots@)),
        "},\"network\":{\"child_process\":"@ + truth(context.network.child_process),
        "},\"environment\":{\"inherit_core\":"@ + truth(context.environment.inherit_core),
        ",\"deny_name_fragments\":"@ + text_list_document(texts(context.environment.deny_name_fragments@)),
    ]
}

proof fn lemma_still_occurs(x: Seq<char>, y: Seq<char>, n: Seq<char>)
    requires
        occurs(x, n) || n == y,
    ensures
        occurs(x + y, n),
{
    if n == y {
        assert((x + y).subrange(x.len() as int, (x.len() + y.len()) as int) =~= y);
        assert(stands_at(x + y, y, x.len() as int));
    } else {
        let i = choose|i: int| stands_at(x, n, i);
        assert((x + y).subrange(i, i + n.len()) =~= x.subrange(i, i + n.len()));
        assert(stands_at(x + y, n, i));
    }
}

proof fn lemma_grouped(x: Seq<char>, y: Seq<char>, z: Seq<char>)
    ensures
        x + y + z == x + (y + z),
{
    assert(x + y + z =~= x + (y + z));
}

/// The identity of a policy is made of all of it: every part, under its own name, stands in the text
/// that is digested.
pub proof fn law_identity_is_of_the_whole_policy(context: AuthorizationContext, i: int)
    requires
        0 <= i < 12,
    ensures
        occurs(context.document(), told_apart(context)[i]),
{
    let files = context.filesystem;
    let made = told_apart(context);
    let piece = made[i];
    let x1 = "{\"preset\":\""@ + context.preset.name();
    if i == 0 {
        lemma_still_occurs(Seq::empty(), x1, piece);
        assert(Seq::<char>::empty() + x1 =~= x1);
    }
    let x2 = x1 + "\",\"workspace_root\":"@ + json_text(JsonView::Text(context.workspace_root@));
    lemma_grouped(x1, "\",\"workspace_root\":"@, json_text(JsonView::Text(context.workspace_root@)));
    if i <= 1 {
        lemma_still_occurs(x1, made[1], piece);
    }
    let x3 = x2 + ",\"cwd\":"@ + json_text(JsonView::Text(context.cwd@));
    lemma_grouped(x2, ",\"cwd\":"@, json_text(JsonView::Text(context.cwd@)));
    if i <= 2 {
        lemma_still_occurs(x2, made[2], piece);
    }
    let x4 = x3 + ",\"filesystem\":{\"read\":\""@ + files.read.name();
    lemma_grouped(x3, ",\"filesystem\":{\"read\":\""@, files.read.name());
    if i <= 3 {
        lemma_still_occurs(x3, made[3], piece);
    }
    let x5 = x4 + "\",\"write\":\""@ + files.write.name();
    lemma_grouped(x4, "\",\"write\":\""@, files.write.name());
    if i <= 4 {
        lemma_still_occurs(x4, made[4], piece);
    }
    let x6 = x5 + "\",\"managed_roots\":"@ + text_list_document(texts(files.managed_roots@));
    lemma_grouped(x5, "\",\"managed_roots\":"@, text_list_document(texts(files.managed_roots@)));
    if i <= 5 {
        lemma_still_occurs(x5, made[5], piece);
    }
    let x7 = x6 + ",\"read_only_workspace_metadata\":"@ + text_list_document(texts(files.read_only_workspace_metadata@));
    lemma_grouped(x6, ",\"read_only_workspace_metadata\":"@, text_list_document(texts(files.read_only_workspace_metadata@)));
    if i <= 6 {
        lemma_still_occurs(x6, made[6], piece);
    }
    let x8 = x7 + ",\"sensitive_path_names\":"@ + text_list_document(texts(files.sensitive_path_names@));
    lemma_grouped(x7, ",\"sensitive_path_names\":"@, text_list_document(texts(files.sensitive_path_names@)));
    if i <= 7 {
        lemma_still_occurs(x7, made[7], piece);
    }
    let x9 = x8 + ",\"sensitive_roots\":"@ + text_list_document(texts(files.sensitive_roots@));
    lemma_grouped(x8, ",\"sensitive_roots\":"@, text_list_document(texts(files.sensitive_roots@)));
    if i <= 8 {
        lemma_still_occurs(x8, made[8], piece);
    }
    let x10 = x9 + "},\"network\":{\"child_process\":"@ + truth(context.network.child_process);
    lemma_grouped(x9, "},\"network\":{\"child_process\":"@, truth(context.network.child_process));
    if i <= 9 {
        lemma_still_occurs(x9, made[9], piece);
    }
    let x11 = x10 + "},\"environment\":{\"inherit_core\":"@ + truth(context.environment.inherit_core);
    lemma_grouped(x10, "},\"environment\":{\"inherit_core\":"@, truth(context.environment.inherit_core));
    if i <= 10 {
        lemma_still_occurs(x10, made[10], piece);
    }
    let x12 = x11 + ",\"deny_name_fragments\":"@ + text_list_document(texts(context.environment.deny_name_fragments@));
    lemma_grouped(x11, ",\"deny_name_fragments\":"@, text_list_document(texts(context.environment.deny_name_fragments@)));
    if i <= 11 {
        lemma_still_occurs(x11, made[11], piece);
    }
    lemma_still_occurs(x12, "}}"@, piece);
    assert(context.document() == x12 + "}}"@);
}

/// A truth value, as JSON.
pub open spec fn truth(b: bool) -> Seq<char> {
    if b {
        "true"@
    } else {
        "false"@
    }
}

/// The usage of two requests together is the sum of each count, up to the greatest number.
pub proof fn law_usage_adds_every_count(a: TokenUsage, b: TokenUsage)
    ensures
        ({
            let sum = usage_sum(a, b);
            let top = u64::MAX as int;
            &&& sum.input_tokens == top || sum.input_tokens == a.input_tokens + b.input_tokens
            &&& sum.input_tokens == top ==> a.input_tokens + b.input_tokens >= top
            &&& sum.output_tokens == top || sum.output_tokens == a.output_tokens + b.output_tokens
            &&& sum.output_tokens == top ==> a.output_tokens + b.output_tokens >= top
            &&& sum.cached_input_tokens == top || sum.cached_input_tokens == a.cached_input_tokens
                + b.cached_input_tokens
            &&& sum.cached_input_tokens == top ==> a.cached_input_tokens + b.cached_input_tokens
                >= top
            &&& sum.cache_write_input_tokens == top || sum.cache_write_input_tokens
                == a.cache_write_input_tokens + b.cache_write_input_tokens
            &&& sum.cache_write_input_tokens == top ==> a.cache_write_input_tokens
                + b.cache_write_input_tokens >= top
        }),
{
}

/// A route can be taken exactly if its names are not blank, its context has room, and its configuration
/// has an identity.
pub proof fn law_which_routes_are_valid(route: ModelRouteSnapshot)
    ensures
        route.fault() is None <==> {
            &&& trimmed(route.profile@).len() > 0
            &&& trimmed(route.provider@).len() > 0
            &&& trimmed(route.upstream_model@).len() > 0
            &&& route.context_window >= 4096
            &&& route.config_sha256@.len() == 64
            &&& forall|i: int|
                0 <= i < 64 ==> (('0' <= #[trigger] route.config_sha256@[i]
                    && route.config_sha256@[i] <= '9') || ('a' <= route.config_sha256@[i]
                    && route.config_sha256@[i] <= 'f') || ('A' <= route.config_sha256@[i]
                    && route.config_sha256@[i] <= 'F'))
        },
{
    let s = route.config_sha256@;
    if digest_form(s) {
        assert forall|i: int| 0 <= i < 64 implies is_hex(#[trigger] s[i]) by {}
    }
}

} // verus!
