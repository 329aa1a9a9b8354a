//! Sandboxes made by bubblewrap.

use crate::execution::error::{ExecutionError, ExecutionErrorView};
use crate::execution::policy::{FilesystemPolicy, NetworkPolicy};
use crate::execution::resolve::{ResolvedSandboxPolicy, ResolvedView};
use crate::execution::shell::{CommandView, SandboxBackend, ShellCommand};
use crate::path::{
    followed, inside, is_inside_any, part_views, parts, path_join, path_parts, PathStyle,
};
use crate::text::{
    append_texts, contains, holds, lemma_texts_push, lowered, occurs, texts, to_lower,
};
use vstd::prelude::*;

verus! {

broadcast use lemma_texts_push;

/// Where a system keeps what every program reads.
pub open spec fn system_roots() -> Seq<Seq<char>> {
    seq![
        "/bin"@,
        "/sbin"@,
        "/usr"@,
        "/etc"@,
        "/lib"@,
        "/lib64"@,
        "/nix/store"@,
        "/run/current-system/sw"@,
    ]
}

/// Lists where a system keeps what every program reads.
pub fn platform_read_roots() -> (r: Vec<String>)
    ensures
        texts(r@) == system_roots(),
{
    let mut r: Vec<String> = Vec::new();
    r.push("/bin".to_owned());
    r.push("/sbin".to_owned());
    r.push("/usr".to_owned());
    r.push("/etc".to_owned());
    r.push("/lib".to_owned());
    r.push("/lib64".to_owned());
    r.push("/nix/store".to_owned());
    r.push("/run/current-system/sw".to_owned());
    assert(texts(r@) =~= system_roots());
    r
}

/// What is known of the paths of a policy on the host.
#[derive(Debug)]
pub struct HostPaths {
    /// The paths that exist.
    pub existing: Vec<String>,
    /// The paths at which there is a directory, no link being followed.
    pub directories: Vec<String>,
    /// The paths at which there is something else, no link being followed.
    pub others: Vec<String>,
}

/// The mathematical value of [`HostPaths`].
pub ghost struct HostView {
    pub existing: Seq<Seq<char>>,
    pub directories: Seq<Seq<char>>,
    pub others: Seq<Seq<char>>,
}

impl View for HostPaths {
    type V = HostView;

    open spec fn view(&self) -> HostView {
        HostView {
            existing: texts(self.existing@),
            directories: texts(self.directories@),
            others: texts(self.others@),
        }
    }
}

/// The arguments that make paths visible in a way, where they exist.
pub open spec fn binds(option: Seq<char>, paths: Seq<Seq<char>>, host: HostView) -> Seq<Seq<char>>
    decreases paths.len(),
{
    if paths.len() == 0 {
        Seq::empty()
    } else {
        let before = binds(option, paths.drop_last(), host);
        let path = paths.last();
        if host.existing.contains(path) {
            before + seq![option, path, path]
        } else {
            before
        }
    }
}

/// The arguments that hide paths: nothing is in the directories, and the files are empty.
pub open spec fn masks(paths: Seq<Seq<char>>, host: HostView) -> Seq<Seq<char>>
    decreases paths.len(),
{
    if paths.len() == 0 {
        Seq::empty()
    } else {
        let before = masks(paths.drop_last(), host);
        let path = paths.last();
        if host.directories.contains(path) {
            before + seq!["--tmpfs"@, path, "--remount-ro"@, path]
        } else if host.others.contains(path) {
            before + seq!["--ro-bind"@, "/dev/null"@, path]
        } else {
            before
        }
    }
}

/// The arguments that cut a process off.
pub open spec fn cut_off(p: ResolvedView) -> Seq<Seq<char>> {
    seq!["--new-session"@, "--die-with-parent"@, "--unshare-user"@, "--unshare-pid"@]
        + if p.network == NetworkPolicy::Deny {
        seq!["--unshare-net"@]
    } else {
        Seq::empty()
    }
}

/// The arguments that say what can be read.
pub open spec fn readable(p: ResolvedView, host: HostView) -> Seq<Seq<char>> {
    if p.filesystem_read == FilesystemPolicy::Host {
        seq![
            if p.filesystem_write == FilesystemPolicy::Host {
                "--bind"@
            } else {
                "--ro-bind"@
            },
            "/"@,
            "/"@,
        ]
    } else {
        seq!["--tmpfs"@, "/"@] + binds("--ro-bind"@, system_roots(), host) + binds(
            "--ro-bind"@,
            p.read_roots,
            host,
        )
    }
}

/// The arguments that say what can be written.
pub open spec fn writable(p: ResolvedView, host: HostView) -> Seq<Seq<char>> {
    if p.filesystem_write == FilesystemPolicy::Scoped {
        binds("--bind"@, p.write_roots, host)
    } else {
        Seq::empty()
    }
}

/// The arguments of bubblewrap. What comes later covers what comes before: nothing that is to be
/// hidden or read-only is uncovered again.
pub open spec fn bwrap_arguments(
    command: CommandView,
    cwd: Seq<char>,
    p: ResolvedView,
    host: HostView,
) -> Seq<Seq<char>> {
    cut_off(p) + readable(p, host) + seq!["--dev"@, "/dev"@, "--proc"@, "/proc"@] + writable(p, host)
        + binds("--ro-bind"@, p.read_only_roots, host) + masks(
        p.unreadable_roots + p.sensitive_paths,
        host,
    ) + seq!["--chdir"@, cwd, "--"@, command.program] + command.args
}

fn append_binds(args: &mut Vec<String>, option: &str, paths: &Vec<String>, host: &HostPaths)
    ensures
        texts(final(args)@) == texts(old(args)@) + binds(option@, texts(paths@), host@),
{
    let ghost before = texts(args@);
    let ghost all = texts(paths@);
    let mut i: usize = 0;
    assert(all.take(0) =~= Seq::<Seq<char>>::empty());
    assert(texts(args@) =~= before + binds(option@, all.take(0), host@));
    while i < paths.len()
        invariant
            i <= paths@.len(),
            all == texts(paths@),
            texts(args@) == before + binds(option@, all.take(i as int), host@),
        decreases paths.len() - i,
    {
        let ghost step = texts(args@);
        assert(all.take(i + 1).drop_last() =~= all.take(i as int));
        assert(all.take(i + 1).last() == paths@[i as int]@);
        if holds(&host.existing, paths[i].as_str()) {
            args.push(option.to_owned());
            args.push(paths[i].clone());
            args.push(paths[i].clone());
            assert(texts(args@) =~= step + seq![option@, all[i as int], all[i as int]]);
        }
        assert(texts(args@) =~= before + binds(option@, all.take(i + 1), host@));
        i = i + 1;
    }
    assert(all.take(i as int) =~= all);
}

fn append_masks(args: &mut Vec<String>, paths: &Vec<String>, host: &HostPaths)
    ensures
        texts(final(args)@) == texts(old(args)@) + masks(texts(paths@), host@),
{
    let ghost before = texts(args@);
    let ghost all = texts(paths@);
    let mut i: usize = 0;
    assert(all.take(0) =~= Seq::<Seq<char>>::empty());
    assert(texts(args@) =~= before + masks(all.take(0), host@));
    while i < paths.len()
        invariant
            i <= paths@.len(),
            all == texts(paths@),
            texts(args@) == before + masks(all.take(i as int), host@),
        decreases paths.len() - i,
    {
        let ghost step = texts(args@);
        assert(all.take(i + 1).drop_last() =~= all.take(i as int));
        assert(all.take(i + 1).last() == paths@[i as int]@);
        let path = &paths[i];
        if holds(&host.directories, path.as_str()) {
            args.push("--tmpfs".to_owned());
            args.push(path.clone());
            args.push("--remount-ro".to_owned());
            args.push(path.clone());
            assert(texts(args@) =~= step + seq!["--tmpfs"@, path@, "--remount-ro"@, path@]);
        } else if holds(&host.others, path.as_str()) {
            args.push("--ro-bind".to_owned());
            args.push("/dev/null".to_owned());
            args.push(path.clone());
            assert(texts(args@) =~= step + seq!["--ro-bind"@, "/dev/null"@, path@]);
        }
        assert(texts(args@) =~= before + masks(all.take(i + 1), host@));
        i = i + 1;
    }
    assert(all.take(i as int) =~= all);
}

fn append_readable(args: &mut Vec<String>, policy: &ResolvedSandboxPolicy, host: &HostPaths)
    ensures
        texts(final(args)@) == texts(old(args)@) + readable(policy@, host@),
{
    let ghost before = texts(args@);
    if policy.filesystem_read == FilesystemPolicy::Host {
        if policy.filesystem_write == FilesystemPolicy::Host {
            args.push("--bind".to_owned());
        } else {
            args.push("--ro-bind".to_owned());
        }
        args.push("/".to_owned());
        args.push("/".to_owned());
        assert(texts(args@) =~= before + readable(policy@, host@));
    } else {
        args.push("--tmpfs".to_owned());
        args.push("/".to_owned());
        let system = platform_read_roots();
        append_binds(args, "--ro-bind", &system, host);
        append_binds(args, "--ro-bind", &policy.read_roots, host);
        assert(texts(args@) =~= before + readable(policy@, host@));
    }
}

/// Writes the arguments of bubblewrap.
pub fn write_bwrap_arguments(
    command: &ShellCommand,
    cwd: &str,
    policy: &ResolvedSandboxPolicy,
    host: &HostPaths,
) -> (r: Vec<String>)
    ensures
        texts(r@) == bwrap_arguments(command@, cwd@, policy@, host@),
{
    let mut args: Vec<String> = Vec::new();
    args.push("--new-session".to_owned());
    args.push("--die-with-parent".to_owned());
    args.push("--unshare-user".to_owned());
    args.push("--unshare-pid".to_owned());
    if policy.network == NetworkPolicy::Deny {
        args.push("--unshare-net".to_owned());
    }
    assert(texts(args@) =~= cut_off(policy@));
    append_readable(&mut args, policy, host);
    let ghost a = texts(args@);
    args.push("--dev".to_owned());
    args.push("/dev".to_owned());
    args.push("--proc".to_owned());
    args.push("/proc".to_owned());
    assert(texts(args@) =~= a + seq!["--dev"@, "/dev"@, "--proc"@, "/proc"@]);
    let ghost b = texts(args@);
    if policy.filesystem_write == FilesystemPolicy::Scoped {
        append_binds(&mut args, "--bind", &policy.write_roots, host);
    }
    assert(texts(args@) =~= b + writable(policy@, host@));
    append_binds(&mut args, "--ro-bind", &policy.read_only_roots, host);
    let mut hidden: Vec<String> = Vec::new();
    append_texts(&mut hidden, &policy.unreadable_roots);
    append_texts(&mut hidden, &policy.sensitive_paths);
    assert(texts(hidden@) =~= policy@.unreadable_roots + policy@.sensitive_paths);
    append_masks(&mut args, &hidden, host);
    let ghost c = texts(args@);
    args.push("--chdir".to_owned());
    args.push(cwd.to_owned());
    args.push("--".to_owned());
    args.push(command.program.clone());
    assert(texts(args@) =~= c + seq!["--chdir"@, cwd@, "--"@, command@.program]);
    append_texts(&mut args, &command.args);
    args
}

/// Whether a system's own description is that of the first Windows subsystem, which cannot make
/// sandboxes.
pub open spec fn is_first_subsystem(version: Seq<char>) -> bool {
    occurs(lowered(version), "microsoft"@) && !occurs(lowered(version), "microsoft-standard"@)
}

/// Whether a system is the first Windows subsystem, by its description where that can be read.
pub fn is_wsl1(version: Option<&str>) -> (r: bool)
    ensures
        r == (match crate::text::maybe_str(version) {
            Some(v) => is_first_subsystem(v),
            None => false,
        }),
{
    match version {
        Some(version) => {
            let low = to_lower(version);
            contains(low.as_str(), "microsoft") && !contains(low.as_str(), "microsoft-standard")
        },
        None => false,
    }
}

/// A directory of the search path: its real path, and whether bubblewrap is in it.
#[derive(Debug)]
pub struct SearchDirectory {
    pub path: String,
    pub has_bwrap: bool,
}

/// Whether a directory lies in none of some roots.
pub open spec fn outside(path: Seq<char>, roots: Seq<Seq<char>>) -> bool {
    forall|i: int| 0 <= i < roots.len() ==> !inside(
        PathStyle::Unix,
        parts(PathStyle::Unix, path),
        #[trigger] roots[i],
    )
}

/// The place of the first directory that has bubblewrap and cannot be written from the sandbox.
pub open spec fn trusted_place(directories: Seq<SearchDirectory>, write_roots: Seq<Seq<char>>) -> int
    decreases directories.len(),
{
    if directories.len() == 0 {
        0
    } else if directories[0].has_bwrap && outside(directories[0].path@, write_roots) {
        0
    } else {
        1 + trusted_place(directories.drop_first(), write_roots)
    }
}

/// Finds bubblewrap, in no directory that the sandbox can write.
pub fn find_bwrap(directories: &Vec<SearchDirectory>, write_roots: &Vec<String>) -> (r: Option<
    String,
>)
    ensures
        ({
            let at = trusted_place(directories@, texts(write_roots@));
            match r {
                Some(path) => 0 <= at < directories@.len() && path@ == followed(
                    PathStyle::Unix,
                    directories@[at].path@,
                    "bwrap"@,
                ) && outside(directories@[at].path@, texts(write_roots@)),
                None => at >= directories@.len(),
            }
        }),
{
    let mut i: usize = 0;
    let ghost roots = texts(write_roots@);
    assert(directories@.skip(0) =~= directories@);
    while i < directories.len()
        invariant
            i <= directories@.len(),
            roots == texts(write_roots@),
            trusted_place(directories@, roots) == i + trusted_place(
                directories@.skip(i as int),
                roots,
            ),
        decreases directories.len() - i,
    {
        let ghost rest = directories@.skip(i as int);
        assert(rest[0] == directories@[i as int]);
        let place = path_parts(PathStyle::Unix, directories[i].path.as_str());
        let writable = is_inside_any(PathStyle::Unix, &place, write_roots);
        assert(writable == !outside(directories@[i as int].path@, roots)) by {
            if writable {
                let k = choose|k: int|
                    0 <= k < write_roots@.len() && inside(
                        PathStyle::Unix,
                        part_views(place@),
                        (#[trigger] write_roots@[k])@,
                    );
                assert(roots[k] == write_roots@[k]@);
            } else {
                assert forall|k: int| 0 <= k < roots.len() implies !inside(
                    PathStyle::Unix,
                    parts(PathStyle::Unix, directories@[i as int].path@),
                    #[trigger] roots[k],
                ) by {
                    assert(roots[k] == write_roots@[k]@);
                }
            }
        }
        if directories[i].has_bwrap && !writable {
            return Some(path_join(PathStyle::Unix, directories[i].path.as_str(), "bwrap"));
        }
        assert(rest.drop_first() =~= directories@.skip(i + 1));
        i = i + 1;
    }
    None
}

/// Makes the command that runs another in a sandbox.
pub fn prepare(
    command: &ShellCommand,
    cwd: &str,
    policy: &ResolvedSandboxPolicy,
    host: &HostPaths,
    version: Option<&str>,
    directories: &Vec<SearchDirectory>,
) -> (r: Result<(ShellCommand, SandboxBackend), ExecutionError>)
    ensures
        ({
            let at = trusted_place(directories@, policy@.write_roots);
            let old_subsystem = match crate::text::maybe_str(version) {
                Some(v) => is_first_subsystem(v),
                None => false,
            };
            match r {
                Ok((made, backend)) => {
                    &&& !old_subsystem
                    &&& 0 <= at < directories@.len()
                    &&& backend == SandboxBackend::LinuxBubblewrap
                    &&& made@ == (CommandView {
                        program: followed(PathStyle::Unix, directories@[at].path@, "bwrap"@),
                        args: bwrap_arguments(command@, cwd@, policy@, host@),
                    })
                },
                Err(e) => if old_subsystem {
                    e@ == ExecutionErrorView::SandboxUnavailable(
                        "bubblewrap requires WSL2; WSL1 cannot create user namespaces"@,
                    )
                } else {
                    at >= directories@.len() && e@ == ExecutionErrorView::SandboxUnavailable(
                        "bubblewrap was not found on a trusted PATH entry"@,
                    )
                },
            }
        }),
{
    if is_wsl1(version) {
        return Err(
            ExecutionError::SandboxUnavailable(
                "bubblewrap requires WSL2; WSL1 cannot create user namespaces".to_owned(),
            ),
        );
    }
    match find_bwrap(directories, &policy.write_roots) {
        Some(program) => {
            let args = write_bwrap_arguments(command, cwd, policy, host);
            Ok((ShellCommand { program, args }, SandboxBackend::LinuxBubblewrap))
        },
        None => Err(
            ExecutionError::SandboxUnavailable(
                "bubblewrap was not found on a trusted PATH entry".to_owned(),
            ),
        ),
    }
}

/// The last argument that names a hidden directory hides it: nothing that makes a path visible
/// stands behind the masks.
pub proof fn law_masks_come_last(
    command: CommandView,
    cwd: Seq<char>,
    p: ResolvedView,
    host: HostView,
)
    ensures
        ({
            let all = bwrap_arguments(command, cwd, p, host);
            let hidden = masks(p.unreadable_roots + p.sensitive_paths, host);
            let end = seq!["--chdir"@, cwd, "--"@, command.program] + command.args;
            let start = all.len() - end.len() - hidden.len();
            &&& start >= 0
            &&& all.skip(start) == hidden + end
        }),
{
    let all = bwrap_arguments(command, cwd, p, host);
    let hidden = masks(p.unreadable_roots + p.sensitive_paths, host);
    let end = seq!["--chdir"@, cwd, "--"@, command.program] + command.args;
    let start = all.len() - end.len() - hidden.len();
    assert(all.skip(start) =~= hidden + end);
}

} // verus!
