//! The shell that runs a command.

use crate::execution::error::{ExecutionError, ExecutionErrorView};
use crate::text::{is_blank, lemma_texts_push, texts, trimmed};
use vstd::prelude::*;

verus! {

broadcast use lemma_texts_push;

/// The kind of operating system.
#[derive(Clone, Copy, Debug, PartialEq, Eq, Structural)]
pub enum Platform {
    Linux,
    MacOs,
    Windows,
    OtherUnix,
    Other,
}

/// How a sandbox is enforced.
#[derive(Clone, Copy, Debug, PartialEq, Eq, Structural)]
pub enum SandboxBackend {
    MacOsSeatbelt,
    LinuxBubblewrap,
    WindowsRestrictedToken,
    Unrestricted,
}

impl SandboxBackend {
    /// The name of the backend.
    pub open spec fn text(self) -> Seq<char> {
        match self {
            SandboxBackend::MacOsSeatbelt => "macos_seatbelt"@,
            SandboxBackend::LinuxBubblewrap => "linux_bubblewrap"@,
            SandboxBackend::WindowsRestrictedToken => "windows_restricted_token"@,
            SandboxBackend::Unrestricted => "unrestricted"@,
        }
    }

    /// The name of the backend.
    pub fn as_str(self) -> (r: &'static str)
        ensures
            r@ == self.text(),
    {
        match self {
            SandboxBackend::MacOsSeatbelt => "macos_seatbelt",
            SandboxBackend::LinuxBubblewrap => "linux_bubblewrap",
            SandboxBackend::WindowsRestrictedToken => "windows_restricted_token",
            SandboxBackend::Unrestricted => "unrestricted",
        }
    }
}

/// What a command left behind.
#[derive(Debug, PartialEq, Eq)]
pub struct CommandOutput {
    pub exit_code: Option<i32>,
    pub success: bool,
    pub stdout: String,
    pub stderr: String,
    pub stdout_truncated: bool,
    pub stderr_truncated: bool,
    pub backend: SandboxBackend,
}

/// A program and its arguments.
pub ghost struct CommandView {
    pub program: Seq<char>,
    pub args: Seq<Seq<char>>,
}

/// The shell that runs a command, and its arguments. A terminal is made by a program of its own,
/// where the platform has one.
pub open spec fn shell_of(
    platform: Platform,
    command: Seq<char>,
    tty: bool,
    comspec: Option<Seq<char>>,
) -> CommandView {
    match platform {
        Platform::Windows => CommandView {
            program: match comspec {
                Some(shell) => shell,
                None => "cmd.exe"@,
            },
            args: seq!["/D"@, "/S"@, "/C"@, command],
        },
        Platform::MacOs => if tty {
            CommandView {
                program: "/usr/bin/script"@,
                args: seq!["-q"@, "/dev/null"@, "/bin/zsh"@, "-lc"@, command],
            }
        } else {
            CommandView { program: "/bin/zsh"@, args: seq!["-lc"@, command] }
        },
        Platform::Linux | Platform::OtherUnix => if tty {
            CommandView {
                program: "/usr/bin/script"@,
                args: seq!["-qfec"@, command, "/dev/null"@],
            }
        } else {
            CommandView { program: "/bin/sh"@, args: seq!["-c"@, command] }
        },
        Platform::Other => CommandView { program: "sh"@, args: seq!["-c"@, command] },
    }
}

/// A program and its arguments.
#[derive(Debug, PartialEq, Eq)]
pub struct ShellCommand {
    pub program: String,
    pub args: Vec<String>,
}

impl View for ShellCommand {
    type V = CommandView;

    open spec fn view(&self) -> CommandView {
        CommandView { program: self.program@, args: texts(self.args@) }
    }
}

/// Finds the shell that runs a command, given the shell that the environment names.
pub fn shell_program(
    platform: Platform,
    shell_command: &str,
    tty: bool,
    comspec: Option<&str>,
) -> (r: ShellCommand)
    ensures
        r@ == shell_of(platform, shell_command@, tty, crate::text::maybe_str(comspec)),
{
    let mut args: Vec<String> = Vec::new();
    let program = match platform {
        Platform::Windows => {
            args.push("/D".to_owned());
            args.push("/S".to_owned());
            args.push("/C".to_owned());
            args.push(shell_command.to_owned());
            match comspec {
                Some(shell) => shell,
                None => "cmd.exe",
            }
        },
        Platform::MacOs => {
            if tty {
                args.push("-q".to_owned());
                args.push("/dev/null".to_owned());
                args.push("/bin/zsh".to_owned());
            }
            args.push("-lc".to_owned());
            args.push(shell_command.to_owned());
            if tty {
                "/usr/bin/script"
            } else {
                "/bin/zsh"
            }
        },
        Platform::Linux | Platform::OtherUnix => {
            if tty {
                args.push("-qfec".to_owned());
                args.push(shell_command.to_owned());
                args.push("/dev/null".to_owned());
                "/usr/bin/script"
            } else {
                args.push("-c".to_owned());
                args.push(shell_command.to_owned());
                "/bin/sh"
            }
        },
        Platform::Other => {
            args.push("-c".to_owned());
            args.push(shell_command.to_owned());
            "sh"
        },
    };
    assert(texts(args@) =~= shell_of(
        platform,
        shell_command@,
        tty,
        crate::text::maybe_str(comspec),
    ).args);
    ShellCommand { program: program.to_owned(), args }
}

/// Runs commands in a sandbox.
#[derive(Clone, Copy, Debug)]
pub struct SandboxExecutor;

impl Default for SandboxExecutor {
    fn default() -> (r: Self) {
        SandboxExecutor
    }
}

impl SandboxExecutor {
    /// Makes the command that a shell runs. A blank one is refused.
    pub fn prepare_shell(
        &self,
        platform: Platform,
        shell_command: &str,
        tty: bool,
        comspec: Option<&str>,
    ) -> (r: Result<ShellCommand, ExecutionError>)
        ensures
            match r {
                Ok(command) => trimmed(shell_command@).len() > 0 && command@ == shell_of(
                    platform,
                    shell_command@,
                    tty,
                    crate::text::maybe_str(comspec),
                ),
                Err(e) => trimmed(shell_command@).len() == 0 && e@
                    == ExecutionErrorView::InvalidCommand("command must not be empty"@),
            },
    {
        if is_blank(shell_command) {
            return Err(ExecutionError::InvalidCommand("command must not be empty".to_owned()));
        }
        Ok(shell_program(platform, shell_command, tty, comspec))
    }
}

} // verus!
