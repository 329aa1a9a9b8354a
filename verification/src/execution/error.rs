//! What goes wrong with a child process.

use crate::text::{decimal, digit, number};
use vstd::prelude::*;

verus! {

#[derive(Debug, PartialEq, Eq)]
pub enum ExecutionError {
    InvalidCommand(String),
    InvalidPolicy(String),
    InvalidWorkspace(String),
    SandboxUnavailable(String),
    /// After this many milliseconds.
    Timeout(u64),
    Cancelled,
    Spawn(String),
    MissingPipe(String),
    Output(String),
    Io(String),
}

/// The mathematical value of an [`ExecutionError`].
pub ghost enum ExecutionErrorView {
    InvalidCommand(Seq<char>),
    InvalidPolicy(Seq<char>),
    InvalidWorkspace(Seq<char>),
    SandboxUnavailable(Seq<char>),
    Timeout(u64),
    Cancelled,
    Spawn(Seq<char>),
    MissingPipe(Seq<char>),
    Output(Seq<char>),
    Io(Seq<char>),
}

impl View for ExecutionError {
    type V = ExecutionErrorView;

    open spec fn view(&self) -> ExecutionErrorView {
        match *self {
            ExecutionError::InvalidCommand(m) => ExecutionErrorView::InvalidCommand(m@),
            ExecutionError::InvalidPolicy(m) => ExecutionErrorView::InvalidPolicy(m@),
            ExecutionError::InvalidWorkspace(m) => ExecutionErrorView::InvalidWorkspace(m@),
            ExecutionError::SandboxUnavailable(m) => ExecutionErrorView::SandboxUnavailable(m@),
            ExecutionError::Timeout(millis) => ExecutionErrorView::Timeout(millis),
            ExecutionError::Cancelled => ExecutionErrorView::Cancelled,
            ExecutionError::Spawn(m) => ExecutionErrorView::Spawn(m@),
            ExecutionError::MissingPipe(m) => ExecutionErrorView::MissingPipe(m@),
            ExecutionError::Output(m) => ExecutionErrorView::Output(m@),
            ExecutionError::Io(m) => ExecutionErrorView::Io(m@),
        }
    }
}

/// Thousandths behind the point, without the zeros at their end.
pub open spec fn thousandths_text(n: u64) -> Seq<char> {
    if n == 0 {
        Seq::empty()
    } else if n % 100 == 0 {
        seq!['.', digit((n / 100) as nat)]
    } else if n % 10 == 0 {
        seq!['.', digit((n / 100) as nat), digit((n / 10 % 10) as nat)]
    } else {
        seq!['.', digit((n / 100) as nat), digit((n / 10 % 10) as nat), digit((n % 10) as nat)]
    }
}

/// A time of some milliseconds, in the largest unit that it fills.
pub open spec fn millis_text(millis: u64) -> Seq<char> {
    if millis == 0 {
        "0ns"@
    } else if millis < 1000 {
        decimal(millis as nat) + "ms"@
    } else {
        decimal((millis / 1000) as nat) + thousandths_text(millis % 1000) + "s"@
    }
}

fn digit_of(n: u64) -> (r: char)
    requires
        n < 10,
    ensures
        r == digit(n as nat),
{
    let low: u8 = n as u8;
    (48 + low) as char
}

fn show_millis(millis: u64) -> (r: String)
    ensures
        r@ == millis_text(millis),
{
    if millis == 0 {
        return "0ns".to_owned();
    }
    if millis < 1000 {
        let mut r = number(millis);
        r.append("ms");
        return r;
    }
    let mut r = number(millis / 1000);
    let ghost whole = r@;
    let n: u64 = millis % 1000;
    if n > 0 {
        r.push('.');
        r.push(digit_of(n / 100));
        if n % 100 > 0 {
            r.push(digit_of(n / 10 % 10));
            if n % 10 > 0 {
                r.push(digit_of(n % 10));
            }
        }
    }
    assert(r@ =~= whole + thousandths_text(n));
    r.append("s");
    r
}

impl ExecutionErrorView {
    /// What is said of the error.
    pub open spec fn message(self) -> Seq<char> {
        match self {
            ExecutionErrorView::InvalidCommand(m) => "invalid command: "@ + m,
            ExecutionErrorView::InvalidPolicy(m) => "invalid sandbox policy: "@ + m,
            ExecutionErrorView::InvalidWorkspace(m) => "sandbox cwd is not a directory: "@ + m,
            ExecutionErrorView::SandboxUnavailable(m) => "sandbox is unavailable: "@ + m,
            ExecutionErrorView::Timeout(millis) => "command timed out after "@ + millis_text(
                millis,
            ),
            ExecutionErrorView::Cancelled => "command was cancelled"@,
            ExecutionErrorView::Spawn(m) => "failed to spawn command: "@ + m,
            ExecutionErrorView::MissingPipe(m) => "command "@ + m + " pipe is missing"@,
            ExecutionErrorView::Output(m) => "failed to collect command output: "@ + m,
            ExecutionErrorView::Io(m) => "execution I/O failed: "@ + m,
        }
    }
}

fn told(prefix: &str, detail: &str) -> (r: String)
    ensures
        r@ == prefix@ + detail@,
{
    let mut r = prefix.to_owned();
    r.append(detail);
    r
}

impl ExecutionError {
    /// Says what is wrong.
    pub fn message(&self) -> (r: String)
        ensures
            r@ == self@.message(),
    {
        match self {
            ExecutionError::InvalidCommand(m) => told("invalid command: ", m.as_str()),
            ExecutionError::InvalidPolicy(m) => told("invalid sandbox policy: ", m.as_str()),
            ExecutionError::InvalidWorkspace(m) => {
                told("sandbox cwd is not a directory: ", m.as_str())
            },
            ExecutionError::SandboxUnavailable(m) => told("sandbox is unavailable: ", m.as_str()),
            ExecutionError::Timeout(millis) => {
                let shown = show_millis(*millis);
                told("command timed out after ", shown.as_str())
            },
            ExecutionError::Cancelled => "command was cancelled".to_owned(),
            ExecutionError::Spawn(m) => told("failed to spawn command: ", m.as_str()),
            ExecutionError::MissingPipe(m) => {
                let mut r = told("command ", m.as_str());
                r.append(" pipe is missing");
                r
            },
            ExecutionError::Output(m) => told("failed to collect command output: ", m.as_str()),
            ExecutionError::Io(m) => told("execution I/O failed: ", m.as_str()),
        }
    }
}

/// Says that a policy cannot be enforced because of a path.
pub(crate) fn bad_path(prefix: &str, path: &str) -> (r: ExecutionError)
    ensures
        r@ == ExecutionErrorView::InvalidPolicy(prefix@ + path@),
{
    ExecutionError::InvalidPolicy(told(prefix, path))
}

} // verus!
