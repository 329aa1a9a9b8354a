//! What is asked of a sandbox, and what is run in it.

use crate::execution::error::{ExecutionError, ExecutionErrorView};
use crate::execution::policy::SandboxPolicy;
use crate::execution::shell::{SandboxBackend, ShellCommand};
use crate::path::{followed, path_join, PathStyle};
use vstd::prelude::*;

verus! {

/// A program that is to be run in a sandbox.
#[derive(Debug)]
pub struct SandboxRequest {
    pub program: String,
    pub args: Vec<String>,
    pub cwd: String,
    pub sandbox_root: String,
    pub policy: SandboxPolicy,
    pub environment_overrides: Vec<(String, String)>,
}

impl SandboxRequest {
    pub fn new(
        program: String,
        args: Vec<String>,
        cwd: String,
        sandbox_root: String,
        policy: SandboxPolicy,
    ) -> (r: SandboxRequest)
        ensures
            r.program == program,
            r.args == args,
            r.cwd == cwd,
            r.sandbox_root == sandbox_root,
            r.policy == policy,
            r.environment_overrides@ == Seq::<(String, String)>::empty(),
    {
        SandboxRequest {
            program,
            args,
            cwd,
            sandbox_root,
            policy,
            environment_overrides: Vec::new(),
        }
    }

    /// Sets a variable of the program's environment. A later one replaces an earlier one.
    pub fn with_environment_override(self, key: String, value: String) -> (r: SandboxRequest)
        ensures
            r.program == self.program,
            r.args == self.args,
            r.cwd == self.cwd,
            r.sandbox_root == self.sandbox_root,
            r.policy == self.policy,
            r.environment_overrides@ == self.environment_overrides@.push((key, value)),
    {
        let mut request = self;
        request.environment_overrides.push((key, value));
        request
    }
}

/// The directories that a sandbox makes for its program.
#[derive(Debug, PartialEq, Eq)]
pub struct SandboxDirectories {
    pub home: String,
    pub tmp: String,
}

/// The directories of a sandbox, given where its program is to run and whether that is a
/// directory.
pub fn sandbox_directories(
    style: PathStyle,
    cwd: &str,
    cwd_is_directory: bool,
    sandbox_root: &str,
) -> (r: Result<SandboxDirectories, ExecutionError>)
    ensures
        match r {
            Ok(made) => cwd_is_directory && made.home@ == followed(style, sandbox_root@, "home"@)
                && made.tmp@ == followed(style, sandbox_root@, "tmp"@),
            Err(e) => !cwd_is_directory && e@ == ExecutionErrorView::InvalidWorkspace(cwd@),
        },
{
    if !cwd_is_directory {
        return Err(ExecutionError::InvalidWorkspace(cwd.to_owned()));
    }
    Ok(
        SandboxDirectories {
            home: path_join(style, sandbox_root, "home"),
            tmp: path_join(style, sandbox_root, "tmp"),
        },
    )
}

/// A program that is ready to be run.
#[derive(Debug)]
pub struct PreparedSandboxCommand {
    pub command: ShellCommand,
    pub cwd: String,
    /// The whole environment: nothing is passed on besides.
    pub environment: Vec<(String, String)>,
    pub backend: SandboxBackend,
}

impl PreparedSandboxCommand {
    pub fn backend(&self) -> (r: SandboxBackend)
        ensures
            r == self.backend,
    {
        self.backend
    }

    pub fn into_command(self) -> (r: ShellCommand)
        ensures
            r == self.command,
    {
        self.command
    }
}

} // verus!
