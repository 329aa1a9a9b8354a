//! What the restricted token of Windows is made of.

use crate::execution::error::{ExecutionError, ExecutionErrorView};
use crate::execution::policy::{FilesystemPolicy, NetworkPolicy};
use crate::execution::resolve::{ResolvedSandboxPolicy, ResolvedView};
use crate::execution::shell::{Platform, SandboxBackend};
use crate::text::{append_texts, copy_texts, lemma_texts_push, texts};
use vstd::prelude::*;

verus! {

broadcast use lemma_texts_push;

/// What a restricted token lets a process do.
#[derive(Debug)]
pub struct WindowsPlan {
    pub network: bool,
    /// Whether the filesystem is open but for what is denied.
    pub unrestricted: bool,
    pub read_roots: Option<Vec<String>>,
    pub write_roots: Option<Vec<String>>,
    pub deny_read: Vec<String>,
    pub deny_write: Vec<String>,
    pub state_root: String,
}

/// The mathematical value of a [`WindowsPlan`].
pub ghost struct WindowsView {
    pub network: bool,
    pub unrestricted: bool,
    pub read_roots: Option<Seq<Seq<char>>>,
    pub write_roots: Option<Seq<Seq<char>>>,
    pub deny_read: Seq<Seq<char>>,
    pub deny_write: Seq<Seq<char>>,
    pub state_root: Seq<char>,
}

/// The texts of a list that may be missing.
pub open spec fn maybe_texts(list: Option<Vec<String>>) -> Option<Seq<Seq<char>>> {
    match list {
        Some(list) => Some(texts(list@)),
        None => None,
    }
}

impl View for WindowsPlan {
    type V = WindowsView;

    open spec fn view(&self) -> WindowsView {
        WindowsView {
            network: self.network,
            unrestricted: self.unrestricted,
            read_roots: maybe_texts(self.read_roots),
            write_roots: maybe_texts(self.write_roots),
            deny_read: texts(self.deny_read@),
            deny_write: texts(self.deny_write@),
            state_root: self.state_root@,
        }
    }
}

/// What a policy lets a process do. What is hidden can be neither read nor written.
pub open spec fn windows_plan_of(p: ResolvedView) -> WindowsView {
    WindowsView {
        network: p.network == NetworkPolicy::Allow,
        unrestricted: p.filesystem_read == FilesystemPolicy::Host && p.filesystem_write
            == FilesystemPolicy::Host,
        read_roots: if p.filesystem_read == FilesystemPolicy::Scoped {
            Some(p.read_roots)
        } else {
            None
        },
        write_roots: if p.filesystem_write == FilesystemPolicy::Scoped {
            Some(p.write_roots)
        } else {
            None
        },
        deny_read: p.unreadable_roots + p.sensitive_paths,
        deny_write: p.unreadable_roots + p.read_only_roots + p.sensitive_paths,
        state_root: p.platform_state_root,
    }
}

/// Says what a policy lets a process do.
pub fn windows_plan(policy: &ResolvedSandboxPolicy) -> (r: WindowsPlan)
    ensures
        r@ == windows_plan_of(policy@),
{
    let mut deny_read = copy_texts(&policy.unreadable_roots);
    append_texts(&mut deny_read, &policy.sensitive_paths);
    let mut deny_write = copy_texts(&policy.unreadable_roots);
    append_texts(&mut deny_write, &policy.read_only_roots);
    append_texts(&mut deny_write, &policy.sensitive_paths);
    WindowsPlan {
        network: policy.network == NetworkPolicy::Allow,
        unrestricted: policy.filesystem_read == FilesystemPolicy::Host && policy.filesystem_write
            == FilesystemPolicy::Host,
        read_roots: if policy.filesystem_read == FilesystemPolicy::Scoped {
            Some(copy_texts(&policy.read_roots))
        } else {
            None
        },
        write_roots: if policy.filesystem_write == FilesystemPolicy::Scoped {
            Some(copy_texts(&policy.write_roots))
        } else {
            None
        },
        deny_read,
        deny_write,
        state_root: policy.platform_state_root.clone(),
    }
}

/// The backend that enforces a policy on a platform, or why there is none. What denies nothing is
/// not enforced.
pub fn choose_backend(platform: Platform, requires_platform_sandbox: bool) -> (r: Result<
    SandboxBackend,
    ExecutionError,
>)
    ensures
        match r {
            Ok(backend) => backend == (if !requires_platform_sandbox {
                SandboxBackend::Unrestricted
            } else {
                match platform {
                    Platform::Linux => SandboxBackend::LinuxBubblewrap,
                    Platform::MacOs => SandboxBackend::MacOsSeatbelt,
                    _ => SandboxBackend::WindowsRestrictedToken,
                }
            }) && (requires_platform_sandbox ==> platform == Platform::Linux || platform
                == Platform::MacOs || platform == Platform::Windows),
            Err(e) => requires_platform_sandbox && (platform == Platform::OtherUnix || platform
                == Platform::Other) && e@ == ExecutionErrorView::SandboxUnavailable(
                "no fail-closed sandbox backend is implemented for this platform"@,
            ),
        },
{
    if !requires_platform_sandbox {
        return Ok(SandboxBackend::Unrestricted);
    }
    match platform {
        Platform::Linux => Ok(SandboxBackend::LinuxBubblewrap),
        Platform::MacOs => Ok(SandboxBackend::MacOsSeatbelt),
        Platform::Windows => Ok(SandboxBackend::WindowsRestrictedToken),
        Platform::OtherUnix | Platform::Other => Err(
            ExecutionError::SandboxUnavailable(
                "no fail-closed sandbox backend is implemented for this platform".to_owned(),
            ),
        ),
    }
}

/// What cannot be read cannot be written either.
pub proof fn law_unreadable_is_unwritable(p: ResolvedView, path: Seq<char>)
    requires
        windows_plan_of(p).deny_read.contains(path),
    ensures
        windows_plan_of(p).deny_write.contains(path),
{
    let read = windows_plan_of(p).deny_read;
    let write = windows_plan_of(p).deny_write;
    let k = choose|k: int| 0 <= k < read.len() && read[k] == path;
    if k < p.unreadable_roots.len() {
        assert(write[k] == path);
    } else {
        assert(write[k + p.read_only_roots.len()] == path);
    }
}

} // verus!
