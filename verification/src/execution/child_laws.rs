//! What a child process gets, and what is kept of it.

use crate::execution::environment::{
    child_variables, core_names, denied, holds_ignoring_case, inherited, overridden, sandboxed,
    variable_place, with_language, with_variable, Variable,
};
use crate::execution::output::beginning;
use crate::execution::policy::{
    denies_something, enforcing, open_policy, runtime_policy, FilesystemPolicy, NetworkPolicy,
    PolicyView,
};
use crate::execution::resolve::{
    depth, distinct_paths, holds_path, inserted_path, installation, law_no_path_is_lost,
    resolved_policy, settled, ResolvedPaths, ResolvedView,
};
use crate::execution::scan::{after_entry, DirectoryEntry, ScanView};
use crate::execution::shell::Platform;
use crate::execution::windows::windows_plan_of;
use crate::path::{followed, is_step, parts, parts_precede, PartView, PathStyle};
use crate::protocol::permissions::{AccessPreset, AuthorizationContext, FilesystemScope};
use crate::text::{begins_with, lowered, texts};
use vstd::prelude::*;

verus! {

/// The value of a variable, whatever the case of its name: the last that was set.
pub open spec fn value_of(list: Seq<Variable>, name: Seq<char>) -> Option<Seq<char>>
    decreases list.len(),
{
    if list.len() == 0 {
        None
    } else if lowered(list.last().0) == lowered(name) {
        Some(list.last().1)
    } else {
        value_of(list.drop_last(), name)
    }
}

/// Whether two names are one, whatever their case.
pub open spec fn same_name(a: Seq<char>, b: Seq<char>) -> bool {
    lowered(a) == lowered(b)
}

proof fn lemma_value_without(list: Seq<Variable>, at: int, name: Seq<char>)
    requires
        0 <= at < list.len(),
        !same_name(list[at].0, name),
    ensures
        value_of(list.remove(at), name) == value_of(list, name),
    decreases list.len(),
{
    if at == list.len() - 1 {
        assert(list.remove(at) =~= list.drop_last());
    } else {
        assert(list.remove(at).last() == list.last());
        assert(list.remove(at).drop_last() =~= list.drop_last().remove(at));
        if !same_name(list.last().0, name) {
            lemma_value_without(list.drop_last(), at, name);
        }
    }
}

proof fn lemma_place_is_of_the_name(list: Seq<Variable>, name: Seq<char>)
    ensures
        0 <= variable_place(list, name) <= list.len(),
        variable_place(list, name) < list.len() ==> same_name(
            list[variable_place(list, name)].0,
            name,
        ),
        variable_place(list, name) == list.len() <==> value_of(list, name) is None,
    decreases list.len(),
{
    if list.len() > 0 {
        let rest = list.drop_first();
        lemma_place_is_of_the_name(rest, name);
        lemma_value_of_first(list, name);
    }
}

proof fn lemma_value_of_first(list: Seq<Variable>, name: Seq<char>)
    requires
        list.len() > 0,
    ensures
        value_of(list, name) is None <==> value_of(list.drop_first(), name) is None && !same_name(
            list[0].0,
            name,
        ),
    decreases list.len(),
{
    if list.len() == 1 {
        assert(list.drop_first() =~= Seq::<Variable>::empty());
        assert(list.drop_last() =~= Seq::<Variable>::empty());
        assert(list.last() == list[0]);
        assert(value_of(list.drop_last(), name) is None);
    } else {
        let rest = list.drop_last();
        lemma_value_of_first(rest, name);
        assert(rest[0] == list[0]);
        assert(list.drop_first().last() == list.last());
        assert(list.drop_first().drop_last() =~= rest.drop_first());
    }
}

proof fn lemma_value_with(list: Seq<Variable>, name: Seq<char>, value: Seq<char>, other: Seq<char>)
    ensures
        value_of(with_variable(list, name, value), other) == (if same_name(name, other) {
            Some(value)
        } else {
            value_of(list, other)
        }),
{
    let at = variable_place(list, name);
    lemma_place_is_of_the_name(list, name);
    let kept = if at < list.len() {
        list.remove(at)
    } else {
        list
    };
    assert(kept.push((name, value)).drop_last() =~= kept);
    assert(kept.push((name, value)).last() == (name, value));
    if !same_name(name, other) && at < list.len() {
        lemma_value_without(list, at, other);
    }
}

proof fn lemma_value_inherited(
    host: Seq<Variable>,
    windows: bool,
    fragments: Seq<Seq<char>>,
    name: Seq<char>,
)
    ensures
        value_of(inherited(host, windows, fragments), name) == (if holds_ignoring_case(
            core_names(windows),
            name,
        ) && !denied(name, fragments) {
            value_of(host, name)
        } else {
            None
        }),
    decreases host.len(),
{
    if host.len() > 0 {
        let (n, v) = host.last();
        lemma_value_inherited(host.drop_last(), windows, fragments, name);
        lemma_value_with(inherited(host.drop_last(), windows, fragments), n, v, name);
        if same_name(n, name) {
            lemma_one_name(n, name, windows, fragments);
        }
    }
}

proof fn lemma_one_name(a: Seq<char>, b: Seq<char>, windows: bool, fragments: Seq<Seq<char>>)
    requires
        same_name(a, b),
    ensures
        denied(a, fragments) == denied(b, fragments),
        holds_ignoring_case(core_names(windows), a) == holds_ignoring_case(core_names(windows), b),
{
    let core = core_names(windows);
    if holds_ignoring_case(core, a) {
        let i = choose|i: int|
            0 <= i < core.len() && lowered(#[trigger] core[i]) == lowered(a);
        assert(lowered(core[i]) == lowered(b));
    }
    if holds_ignoring_case(core, b) {
        let i = choose|i: int|
            0 <= i < core.len() && lowered(#[trigger] core[i]) == lowered(b);
        assert(lowered(core[i]) == lowered(a));
    }
}

proof fn lemma_value_overridden(
    list: Seq<Variable>,
    overrides: Seq<Variable>,
    fragments: Seq<Seq<char>>,
    name: Seq<char>,
)
    ensures
        value_of(overridden(list, overrides, fragments), name) == (if !denied(name, fragments)
            && value_of(overrides, name) is Some {
            value_of(overrides, name)
        } else {
            value_of(list, name)
        }),
    decreases overrides.len(),
{
    if overrides.len() > 0 {
        let (n, v) = overrides.last();
        lemma_value_overridden(list, overrides.drop_last(), fragments, name);
        lemma_value_with(overridden(list, overrides.drop_last(), fragments), n, v, name);
        if same_name(n, name) {
            lemma_one_name(n, name, true, fragments);
        }
    }
}

/// The value that the sandbox itself gives a variable.
pub open spec fn own_value(
    platform: Platform,
    home: Seq<char>,
    tmp: Seq<char>,
    name: Seq<char>,
) -> Option<Seq<char>> {
    if same_name("USERPROFILE"@, name) && platform == Platform::Windows {
        Some(home)
    } else if same_name("TMPPREFIX"@, name) && (platform == Platform::Linux || platform
        == Platform::MacOs || platform == Platform::OtherUnix) {
        Some(followed(PathStyle::Unix, tmp, "shell"@))
    } else if same_name("TEMP"@, name) || same_name("TMP"@, name) || same_name("TMPDIR"@, name) {
        Some(tmp)
    } else if same_name("HOME"@, name) {
        Some(home)
    } else {
        None
    }
}

/// The value of every variable of a child process. What is asked for comes first, unless the name is
/// that of a secret; then what the sandbox sets, which is its own home and its own directory of temporary
/// files; then a core variable of the host, where these are inherited and the name is not that of a
/// secret. A language is set where there is none. Nothing else is.
pub proof fn law_the_value_of_every_variable(
    platform: Platform,
    inherit_core: bool,
    fragments: Seq<Seq<char>>,
    host: Seq<Variable>,
    home: Seq<char>,
    tmp: Seq<char>,
    overrides: Seq<Variable>,
    name: Seq<char>,
)
    ensures
        value_of(
            child_variables(platform, inherit_core, fragments, host, home, tmp, overrides),
            name,
        ) == (if !denied(name, fragments) && value_of(overrides, name) is Some {
            value_of(overrides, name)
        } else if own_value(platform, home, tmp, name) is Some {
            own_value(platform, home, tmp, name)
        } else if inherit_core && !denied(name, fragments) && holds_ignoring_case(
            core_names(platform == Platform::Windows),
            name,
        ) && value_of(host, name) is Some {
            value_of(host, name)
        } else if same_name("LANG"@, name) {
            Some("C.UTF-8"@)
        } else {
            None
        }),
{
    let core = if inherit_core {
        inherited(host, platform == Platform::Windows, fragments)
    } else {
        Seq::empty()
    };
    lemma_value_inherited(host, platform == Platform::Windows, fragments, name);
    let a = with_variable(core, "HOME"@, home);
    let b = with_variable(a, "TMPDIR"@, tmp);
    let c = with_variable(b, "TMP"@, tmp);
    let d = with_variable(c, "TEMP"@, tmp);
    lemma_value_with(core, "HOME"@, home, name);
    lemma_value_with(a, "TMPDIR"@, tmp, name);
    lemma_value_with(b, "TMP"@, tmp, name);
    lemma_value_with(c, "TEMP"@, tmp, name);
    lemma_value_with(d, "USERPROFILE"@, home, name);
    lemma_value_with(d, "TMPPREFIX"@, followed(PathStyle::Unix, tmp, "shell"@), name);
    let own = sandboxed(core, platform, home, tmp);
    let full = with_language(own);
    lemma_place_is_of_the_name(own, "LANG"@);
    if full != own {
        assert(full.drop_last() =~= own);
        assert(full.last() == ("LANG"@, "C.UTF-8"@));
    }
    lemma_value_of_same(own, "LANG"@, name);
    lemma_value_overridden(full, overrides, fragments, name);
}

proof fn lemma_value_of_same(list: Seq<Variable>, a: Seq<char>, b: Seq<char>)
    ensures
        same_name(a, b) ==> value_of(list, a) == value_of(list, b),
    decreases list.len(),
{
    if list.len() > 0 {
        lemma_value_of_same(list.drop_last(), a, b);
    }
}

/// What is kept of an output is its beginning: as much as there is room for, byte for byte.
pub proof fn law_the_beginning_is_kept(all: Seq<u8>, limit: nat, i: int)
    ensures
        beginning(all, limit).len() == (if all.len() < limit {
            all.len()
        } else {
            limit
        }),
        0 <= i < beginning(all, limit).len() ==> beginning(all, limit)[i] == all[i],
{
}

/// Every plain directory that is come upon is searched: one that is no link and has not the name of a
/// credential file. Every entry counts.
pub proof fn law_directories_are_searched(s: ScanView, entry: DirectoryEntry)
    ensures
        after_entry(s, entry).visited == s.visited + 1,
        after_entry(s, entry).matches == s.matches,
        after_entry(s, entry).names == s.names,
        entry.is_dir && !entry.is_symlink && entry.name@ != ".env"@ && !begins_with(
            entry.name@,
            ".env."@,
        ) && !s.names.contains(entry.name@) ==> after_entry(s, entry).stack == s.stack.push(
            entry.path@,
        ),
        !entry.is_dir ==> after_entry(s, entry).stack == s.stack,
{
}

proof fn lemma_inserted_adds_nothing(
    style: PathStyle,
    list: Seq<Seq<char>>,
    path: Seq<char>,
    other: Seq<char>,
)
    ensures
        inserted_path(style, list, path).contains(other) ==> list.contains(other) || other == path,
        inserted_path(style, list, path).len() == list.len() + 1,
    decreases list.len(),
{
    let made = inserted_path(style, list, path);
    if list.len() > 0 {
        let rest = list.drop_first();
        lemma_inserted_adds_nothing(style, rest, path, other);
        if made.contains(other) {
            let i = choose|i: int| 0 <= i < made.len() && made[i] == other;
            if parts_precede(parts(style, path), parts(style, list[0])) {
                if i > 0 {
                    assert(list[i - 1] == other);
                }
            } else if i > 0 {
                let inner = inserted_path(style, rest, path);
                assert(inner[i - 1] == other);
                assert(inner.contains(other));
                if rest.contains(other) {
                    let k = choose|k: int| 0 <= k < rest.len() && rest[k] == other;
                    assert(list[k + 1] == other);
                }
            } else {
                assert(list[0] == other);
            }
        }
    } else if made.contains(other) {
        assert(made[0] == path);
    }
}

/// Putting paths in order, each once, adds none.
pub proof fn law_no_path_is_made_up(style: PathStyle, list: Seq<Seq<char>>, path: Seq<char>)
    requires
        distinct_paths(style, list).contains(path),
    ensures
        list.contains(path),
    decreases list.len(),
{
    if list.len() > 0 {
        let rest = list.drop_last();
        let before = distinct_paths(style, rest);
        lemma_inserted_adds_nothing(style, before, list.last(), path);
        if before.contains(path) {
            law_no_path_is_made_up(style, rest, path);
            let k = choose|k: int| 0 <= k < rest.len() && rest[k] == path;
            assert(list[k] == path);
        } else {
            assert(list[list.len() - 1] == path);
        }
    }
}

/// A policy that is made definite keeps every rule of it: what is denied stays denied, and every root
/// that may be read or written still may. Nothing may be read or written besides them but the sandbox's
/// own directory and, for reading, programs.
pub proof fn law_resolved_policies_keep_their_rules(
    style: PathStyle,
    p: PolicyView,
    at: ResolvedPaths,
    root: Seq<char>,
)
    ensures
        ({
            let made = resolved_policy(style, p, at);
            &&& made.network == p.network
            &&& made.filesystem_read == p.filesystem_read
            &&& made.filesystem_write == p.filesystem_write
            &&& made.sensitive_path_names == p.sensitive_path_names
            &&& made.inherit_core == p.inherit_core
            &&& made.deny_name_fragments == p.deny_name_fragments
            &&& made.unreadable_roots == texts(at.unreadable_roots@)
            &&& made.read_only_roots == texts(at.read_only_roots@)
            &&& made.sensitive_paths == texts(at.sensitive_paths@)
            &&& texts(at.read_roots@).contains(root) || texts(at.executable_roots@).contains(root)
                || texts(at.search_roots@).contains(root) || root == at.sandbox_root@
                ==> holds_path(style, made.read_roots, root)
            &&& texts(at.write_roots@).contains(root) || root == at.sandbox_root@ ==> holds_path(
                style,
                made.write_roots,
                root,
            )
            &&& made.read_roots.contains(root) ==> texts(at.read_roots@).contains(root) || texts(
                at.executable_roots@,
            ).contains(root) || texts(at.search_roots@).contains(root) || root == at.sandbox_root@
            &&& made.write_roots.contains(root) ==> texts(at.write_roots@).contains(root) || root
                == at.sandbox_root@
            &&& !made.requires_platform_sandbox ==> p.filesystem_read == FilesystemPolicy::Host
                && p.filesystem_write == FilesystemPolicy::Host && p.network == NetworkPolicy::Allow
                && p.unreadable_roots.len() == 0 && p.read_only_roots.len() == 0
                && p.sensitive_path_names.len() == 0
        }),
{
    let made = resolved_policy(style, p, at);
    let a = texts(at.read_roots@);
    let b = texts(at.executable_roots@);
    let c = texts(at.search_roots@);
    let w = texts(at.write_roots@);
    let reads = a.push(at.sandbox_root@) + b + c;
    let writes = w.push(at.sandbox_root@);
    if a.contains(root) {
        let i = choose|i: int| 0 <= i < a.len() && a[i] == root;
        assert(reads[i] == root);
    }
    if b.contains(root) {
        let i = choose|i: int| 0 <= i < b.len() && b[i] == root;
        assert(reads[a.len() + 1 + i] == root);
    }
    if c.contains(root) {
        let i = choose|i: int| 0 <= i < c.len() && c[i] == root;
        assert(reads[a.len() + 1 + b.len() + i] == root);
    }
    assert(reads[a.len() as int] == at.sandbox_root@);
    if reads.contains(root) {
        law_no_path_is_lost(style, reads, root);
        let i = choose|i: int| 0 <= i < reads.len() && reads[i] == root;
        if i < a.len() {
            assert(a[i] == root);
        } else if i > a.len() && i < a.len() + 1 + b.len() {
            assert(b[i - a.len() - 1] == root);
        } else if i >= a.len() + 1 + b.len() {
            assert(c[i - a.len() - 1 - b.len()] == root);
        }
    }
    if w.contains(root) {
        let i = choose|i: int| 0 <= i < w.len() && w[i] == root;
        assert(writes[i] == root);
    }
    assert(writes[w.len() as int] == at.sandbox_root@);
    if writes.contains(root) {
        law_no_path_is_lost(style, writes, root);
        let i = choose|i: int| 0 <= i < writes.len() && writes[i] == root;
        if i < w.len() {
            assert(w[i] == root);
        }
    }
    if made.read_roots.contains(root) {
        law_no_path_is_made_up(style, reads, root);
    }
    if made.write_roots.contains(root) {
        law_no_path_is_made_up(style, writes, root);
    }
}

/// A program's installation is the directory above the one that it lies in, or that one itself where
/// there is nothing above but the root: a beginning of the program's path.
pub proof fn law_installations_hold_their_program(canonical: Seq<PartView>)
    ensures
        installation(canonical) matches Some(place) ==> place.len() < canonical.len()
            && canonical.take(place.len() as int) == place && place.len() >= canonical.len() - 2,
        canonical.len() >= 3 && is_step(canonical[canonical.len() - 1]) && is_step(
            canonical[canonical.len() - 2],
        ) && is_step(canonical[canonical.len() - 3]) ==> installation(canonical) == Some(
            canonical.take(canonical.len() - 2),
        ),
        canonical.len() >= 1 && is_step(canonical.last()) ==> installation(canonical) is Some,
{
    if canonical.len() >= 1 {
        let one = canonical.drop_last();
        assert(one =~= canonical.take(canonical.len() - 1));
        if canonical.len() >= 2 {
            assert(one.last() == canonical[canonical.len() - 2]);
            let two = one.drop_last();
            assert(two =~= canonical.take(canonical.len() - 2));
            if canonical.len() >= 3 {
                assert(two.last() == canonical[canonical.len() - 3]);
            }
        }
    }
}

/// What a place lies in is looked for behind each of the names that it ends with, and no further.
pub proof fn law_places_lie_below_their_names(place: Seq<PartView>, k: int)
    ensures
        depth(place) <= place.len(),
        0 <= k < depth(place) ==> place[place.len() - 1 - k] is Name,
        depth(place) < place.len() ==> !(place[place.len() - 1 - depth(place)] is Name),
    decreases place.len(),
{
    if place.len() > 0 && place.last() is Name {
        law_places_lie_below_their_names(place.drop_last(), k - 1);
    }
}

/// The real path of what is not there yet is that of what it lies in, with the names below followed one
/// by one.
pub proof fn law_missing_names_are_followed(
    style: PathStyle,
    canonical: Seq<char>,
    below: Seq<PartView>,
    name: Seq<char>,
)
    ensures
        settled(style, canonical, Seq::empty()) == canonical,
        settled(style, canonical, below.push(PartView::Name(name))) == followed(
            style,
            settled(style, canonical, below),
            name,
        ),
{
    assert(below.push(PartView::Name(name)).drop_last() =~= below);
}

/// On Windows, what is hidden can be neither read nor written, what is read-only cannot be written, and
/// nothing else is denied. Where only some roots may be read or written, those are named. The network is
/// there exactly if the policy allows it.
pub proof fn law_what_windows_denies(p: ResolvedView, path: Seq<char>)
    ensures
        ({
            let plan = windows_plan_of(p);
            let hidden = p.unreadable_roots.contains(path) || p.sensitive_paths.contains(path);
            &&& plan.deny_read.contains(path) <==> hidden
            &&& plan.deny_write.contains(path) <==> hidden || p.read_only_roots.contains(path)
            &&& plan.network <==> p.network == NetworkPolicy::Allow
            &&& p.filesystem_read == FilesystemPolicy::Scoped ==> plan.read_roots == Some(
                p.read_roots,
            ) && !plan.unrestricted
            &&& p.filesystem_write == FilesystemPolicy::Scoped ==> plan.write_roots == Some(
                p.write_roots,
            ) && !plan.unrestricted
            &&& p.filesystem_read == FilesystemPolicy::Host ==> plan.read_roots is None
            &&& p.filesystem_write == FilesystemPolicy::Host ==> plan.write_roots is None
            &&& p.filesystem_read == FilesystemPolicy::Host && p.filesystem_write
                == FilesystemPolicy::Host ==> plan.unrestricted
        }),
{
    let u = p.unreadable_roots;
    let s = p.sensitive_paths;
    let o = p.read_only_roots;
    lemma_contains_both(u, s, path);
    lemma_contains_both(u, o, path);
    lemma_contains_both(u + o, s, path);
}

proof fn lemma_contains_both(a: Seq<Seq<char>>, b: Seq<Seq<char>>, x: Seq<char>)
    ensures
        (a + b).contains(x) <==> a.contains(x) || b.contains(x),
{
    let all = a + b;
    if a.contains(x) {
        let i = choose|i: int| 0 <= i < a.len() && a[i] == x;
        assert(all[i] == x);
    }
    if b.contains(x) {
        let i = choose|i: int| 0 <= i < b.len() && b[i] == x;
        assert(all[a.len() + i] == x);
    }
    if all.contains(x) {
        let i = choose|i: int| 0 <= i < all.len() && all[i] == x;
        if i < a.len() {
            assert(a[i] == x);
        } else {
            assert(b[i - a.len()] == x);
        }
    }
}

/// The policy of a child process enforces what its Turn may do. It reads and writes the host, the
/// Workspace or nothing, as the Turn does. Managed state and credentials are hidden from it; the names of
/// credential files too, below full access. The Workspace's metadata is read-only unless the whole host
/// may be written. It has the network exactly if the Turn hands that on.
pub proof fn law_policies_enforce_the_authorization(
    style: PathStyle,
    a: AuthorizationContext,
    timeout_millis: u64,
    root: Seq<char>,
)
    ensures
        ({
            let p = enforcing(style, a, timeout_millis);
            let files = a.filesystem;
            &&& p.filesystem_read == FilesystemPolicy::Host <==> files.read == FilesystemScope::Host
            &&& p.filesystem_write == FilesystemPolicy::Host <==> files.write
                == FilesystemScope::Host
            &&& p.read_roots.contains(root) <==> files.read == FilesystemScope::Workspace && root
                == a.workspace_root@
            &&& p.write_roots.contains(root) <==> files.write == FilesystemScope::Workspace && root
                == a.workspace_root@
            &&& p.unreadable_roots.contains(root) <==> texts(files.managed_roots@).contains(root)
                || texts(files.sensitive_roots@).contains(root)
            &&& files.write != FilesystemScope::Host && texts(
                files.read_only_workspace_metadata@,
            ).contains(root) ==> p.read_only_roots.contains(
                followed(style, a.workspace_root@, root),
            ) && p.protected_workspace_metadata.contains(root)
            &&& files.write == FilesystemScope::Host ==> p.read_only_roots.len() == 0
            &&& p.sensitive_path_names.contains(root) <==> a.preset != AccessPreset::FullAccess && (
            root == ".env"@ || texts(files.sensitive_path_names@).contains(root))
            &&& p.network == NetworkPolicy::Allow <==> a.network.child_process
            &&& p.inherit_core == a.environment.inherit_core
            &&& p.deny_name_fragments == texts(a.environment.deny_name_fragments@)
            &&& p.workspace_roots == seq![a.workspace_root@]
            &&& p.timeout_millis == timeout_millis
        }),
{
    let p = enforcing(style, a, timeout_millis);
    let files = a.filesystem;
    let one = seq![a.workspace_root@];
    assert(one.contains(root) <==> root == a.workspace_root@) by {
        assert(one[0] == a.workspace_root@);
    }
    lemma_contains_both(texts(files.managed_roots@), texts(files.sensitive_roots@), root);
    let names = texts(files.sensitive_path_names@);
    lemma_contains_both(names, seq![".env"@], root);
    assert(names + seq![".env"@] =~= names.push(".env"@));
    assert(seq![".env"@].contains(root) <==> root == ".env"@) by {
        assert(seq![".env"@][0] == ".env"@);
    }
    let metadata = texts(files.read_only_workspace_metadata@);
    if files.write != FilesystemScope::Host && metadata.contains(root) {
        let i = choose|i: int| 0 <= i < metadata.len() && metadata[i] == root;
        assert(p.read_only_roots[i] == followed(style, a.workspace_root@, root));
    }
}

/// A workflow's own runtime reads and writes its directory and nothing else, and has no network; the
/// policy that denies nothing hands on the host and the network. Both withhold secrets by name.
pub proof fn law_the_fixed_policies(workspace: Seq<char>, timeout_millis: u64, root: Seq<char>)
    ensures
        ({
            let p = runtime_policy(workspace);
            &&& denies_something(p)
            &&& p.network == NetworkPolicy::Deny
            &&& p.filesystem_read == FilesystemPolicy::Scoped
            &&& p.filesystem_write == FilesystemPolicy::Scoped
            &&& p.read_roots.contains(root) <==> root == workspace
            &&& p.write_roots.contains(root) <==> root == workspace
            &&& p.deny_name_fragments.contains("KEY"@)
            &&& p.deny_name_fragments.contains("SECRET"@)
            &&& p.deny_name_fragments.contains("TOKEN"@)
        }),
        ({
            let p = open_policy(timeout_millis);
            &&& p.network == NetworkPolicy::Allow
            &&& p.filesystem_read == FilesystemPolicy::Host
            &&& p.filesystem_write == FilesystemPolicy::Host
            &&& p.timeout_millis == timeout_millis
            &&& p.deny_name_fragments.contains("KEY"@)
            &&& p.deny_name_fragments.contains("SECRET"@)
            &&& p.deny_name_fragments.contains("TOKEN"@)
        }),
{
    let one = seq![workspace];
    assert(one[0] == workspace);
    let names = runtime_policy(workspace).deny_name_fragments;
    assert(names[0] == "KEY"@ && names[1] == "SECRET"@ && names[2] == "TOKEN"@);
}

} // verus!
