//! Identifiers and points in time.

use crate::digest::hex_digit;
use vstd::prelude::*;

verus! {

/// Identifies a Project.
#[derive(Clone, Copy, Debug, PartialEq, Eq, Structural, PartialOrd, Ord, Hash)]
pub struct ProjectId(pub u128);

/// Identifies a Workspace attachment.
#[derive(Clone, Copy, Debug, PartialEq, Eq, Structural, PartialOrd, Ord, Hash)]
pub struct WorkspaceId(pub u128);

/// Identifies a Session.
#[derive(Clone, Copy, Debug, PartialEq, Eq, Structural, PartialOrd, Ord, Hash)]
pub struct SessionId(pub u128);

/// Identifies an Agent of a Session.
#[derive(Clone, Copy, Debug, PartialEq, Eq, Structural, PartialOrd, Ord, Hash)]
pub struct AgentId(pub u128);

/// Identifies an input queued for an Agent.
#[derive(Clone, Copy, Debug, PartialEq, Eq, Structural, PartialOrd, Ord, Hash)]
pub struct AgentInputId(pub u128);

/// Identifies a Turn of an Agent.
#[derive(Clone, Copy, Debug, PartialEq, Eq, Structural, PartialOrd, Ord, Hash)]
pub struct TurnId(pub u128);

/// Identifies a step of a Turn.
#[derive(Clone, Copy, Debug, PartialEq, Eq, Structural, PartialOrd, Ord, Hash)]
pub struct StepId(pub u128);

/// Identifies an event of a Session.
#[derive(Clone, Copy, Debug, PartialEq, Eq, Structural, PartialOrd, Ord, Hash)]
pub struct EventId(pub u128);

/// Identifies an Artifact.
#[derive(Clone, Copy, Debug, PartialEq, Eq, Structural, PartialOrd, Ord, Hash)]
pub struct ArtifactId(pub u128);

/// Identifies an Action invocation.
#[derive(Clone, Copy, Debug, PartialEq, Eq, Structural, PartialOrd, Ord, Hash)]
pub struct ActionInvocationId(pub u128);

/// Identifies an attempt at an Action.
#[derive(Clone, Copy, Debug, PartialEq, Eq, Structural, PartialOrd, Ord, Hash)]
pub struct ActionAttemptId(pub u128);

/// Identifies a question to a person.
#[derive(Clone, Copy, Debug, PartialEq, Eq, Structural, PartialOrd, Ord, Hash)]
pub struct HumanRequestId(pub u128);

/// Identifies a control message.
#[derive(Clone, Copy, Debug, PartialEq, Eq, Structural, PartialOrd, Ord, Hash)]
pub struct ControlMessageId(pub u128);

/// Identifies a Workflow.
#[derive(Clone, Copy, Debug, PartialEq, Eq, Structural, PartialOrd, Ord, Hash)]
pub struct WorkflowId(pub u128);

/// Identifies a WorkflowProgram.
#[derive(Clone, Copy, Debug, PartialEq, Eq, Structural, PartialOrd, Ord, Hash)]
pub struct WorkflowProgramId(pub u128);

/// Identifies a Workflow run.
#[derive(Clone, Copy, Debug, PartialEq, Eq, Structural, PartialOrd, Ord, Hash)]
pub struct WorkflowRunId(pub u128);

/// Identifies a Research.
#[derive(Clone, Copy, Debug, PartialEq, Eq, Structural, PartialOrd, Ord, Hash)]
pub struct ResearchId(pub u128);

/// Identifies a participant of a Workflow run.
#[derive(Clone, Copy, Debug, PartialEq, Eq, Structural, PartialOrd, Ord, Hash)]
pub struct AgentInstanceId(pub u128);

/// Identifies a task scope.
#[derive(Clone, Copy, Debug, PartialEq, Eq, Structural, PartialOrd, Ord, Hash)]
pub struct TaskScopeId(pub u128);

/// Identifies a team.
#[derive(Clone, Copy, Debug, PartialEq, Eq, Structural, PartialOrd, Ord, Hash)]
pub struct TeamId(pub u128);

/// Identifies a relation between Agents.
#[derive(Clone, Copy, Debug, PartialEq, Eq, Structural, PartialOrd, Ord, Hash)]
pub struct RelationId(pub u128);

/// Identifies a timer.
#[derive(Clone, Copy, Debug, PartialEq, Eq, Structural, PartialOrd, Ord, Hash)]
pub struct TimerId(pub u128);

/// Identifies a channel.
#[derive(Clone, Copy, Debug, PartialEq, Eq, Structural, PartialOrd, Ord, Hash)]
pub struct ChannelId(pub u128);

/// Identifies a signal.
#[derive(Clone, Copy, Debug, PartialEq, Eq, Structural, PartialOrd, Ord, Hash)]
pub struct SignalId(pub u128);

/// A point in time, counted from the Unix epoch in UTC.
#[derive(Clone, Copy, Debug, PartialEq, Eq, Structural, PartialOrd, Ord, Hash)]
pub struct Timestamp {
    pub seconds: i64,
    pub nanoseconds: u32,
}

/// The last hexadecimal digits of a number, as many as are asked for.
pub open spec fn hex_digits(n: u128, count: nat) -> Seq<char>
    decreases count,
{
    if count == 0 {
        Seq::empty()
    } else {
        hex_digits(n / 16, (count - 1) as nat).push(hex_digit((n % 16) as u8))
    }
}

/// The text of an identifier: thirty-two digits in five groups, with a hyphen between them.
pub open spec fn id_text(id: u128) -> Seq<char> {
    let all = hex_digits(id, 32);
    all.subrange(0, 8) + "-"@ + all.subrange(8, 12) + "-"@ + all.subrange(12, 16) + "-"@
        + all.subrange(16, 20) + "-"@ + all.subrange(20, 32)
}

fn write_digit(n: u8) -> (r: char)
    requires
        n < 16,
    ensures
        r == hex_digit(n),
{
    if n < 10 {
        (48 + n) as char
    } else {
        (87 + n) as char
    }
}

fn write_digits(n: u128, count: usize) -> (r: Vec<char>)
    ensures
        r@ == hex_digits(n, count as nat),
        r@.len() == count,
    decreases count,
{
    if count == 0 {
        let r: Vec<char> = Vec::new();
        assert(r@ =~= Seq::<char>::empty());
        return r;
    }
    let mut r = write_digits(n / 16, count - 1);
    r.push(write_digit((n % 16) as u8));
    r
}

fn add_group(r: &mut String, digits: &Vec<char>, from: usize, to: usize)
    requires
        from <= to <= digits@.len(),
    ensures
        final(r)@ == old(r)@ + digits@.subrange(from as int, to as int),
{
    let ghost before = r@;
    let mut i: usize = from;
    assert(r@ =~= before + digits@.subrange(from as int, from as int));
    while i < to
        invariant
            from <= i <= to <= digits@.len(),
            r@ == before + digits@.subrange(from as int, i as int),
        decreases to - i,
    {
        r.push(digits[i]);
        assert(r@ =~= before + digits@.subrange(from as int, i + 1));
        i = i + 1;
    }
}

/// Writes an identifier.
pub fn write_id(id: u128) -> (r: String)
    ensures
        r@ == id_text(id),
{
    let digits = write_digits(id, 32);
    let mut r = String::new();
    add_group(&mut r, &digits, 0, 8);
    r.append("-");
    add_group(&mut r, &digits, 8, 12);
    r.append("-");
    add_group(&mut r, &digits, 12, 16);
    r.append("-");
    add_group(&mut r, &digits, 16, 20);
    r.append("-");
    add_group(&mut r, &digits, 20, 32);
    assert(r@ =~= id_text(id));
    r
}

impl AgentId {
    /// The text of an Agent's identifier, under which its connection is kept.
    pub fn text(&self) -> (r: String)
        ensures
            r@ == id_text(self.0),
    {
        write_id(self.0)
    }
}

proof fn lemma_hex_digits(n: u128, count: nat)
    ensures
        hex_digits(n, count).len() == count,
    decreases count,
{
    if count > 0 {
        lemma_hex_digits(n / 16, (count - 1) as nat);
    }
}

/// The text of an identifier has thirty-six characters, of which the last is the last digit.
pub proof fn lemma_id_text(id: u128)
    ensures
        id_text(id).len() == 36,
        id_text(id).last() == hex_digit((id % 16) as u8),
{
    reveal_strlit("-");
    lemma_hex_digits(id, 32);
    lemma_hex_digits(id / 16, 31);
}

spec fn sixteens(count: nat) -> int
    decreases count,
{
    if count == 0 {
        1
    } else {
        16 * sixteens((count - 1) as nat)
    }
}

proof fn lemma_hex_digits_tell(a: u128, b: u128, count: nat)
    requires
        hex_digits(a, count) == hex_digits(b, count),
        a < sixteens(count),
        b < sixteens(count),
    ensures
        a == b,
    decreases count,
{
    if count > 0 {
        let less = (count - 1) as nat;
        let x = hex_digits(a / 16, less);
        let y = hex_digits(b / 16, less);
        let c = hex_digit((a % 16) as u8);
        let d = hex_digit((b % 16) as u8);
        assert(x.push(c).drop_last() =~= x);
        assert(y.push(d).drop_last() =~= y);
        assert(x.push(c).last() == c);
        assert(y.push(d).last() == d);
        lemma_hex_digits_tell(a / 16, b / 16, less);
    }
}

/// Identifiers that differ have texts that differ.
pub proof fn law_id_texts_differ(a: u128, b: u128)
    requires
        a != b,
    ensures
        id_text(a) != id_text(b),
{
    reveal_strlit("-");
    let x = hex_digits(a, 32);
    let y = hex_digits(b, 32);
    lemma_hex_digits(a, 32);
    lemma_hex_digits(b, 32);
    if id_text(a) == id_text(b) {
        let t = id_text(a);
        let u = id_text(b);
        assert forall|i: int| 0 <= i < 32 implies x[i] == y[i] by {
            let at = if i < 8 {
                i
            } else if i < 12 {
                i + 1
            } else if i < 16 {
                i + 2
            } else if i < 20 {
                i + 3
            } else {
                i + 4
            };
            assert(t[at] == x[i]);
            assert(u[at] == y[i]);
        }
        assert(x =~= y);
        assert(sixteens(32) == 0x1_0000_0000_0000_0000_0000_0000_0000_0000) by {
            reveal_with_fuel(sixteens, 33);
        }
        lemma_hex_digits_tell(a, b, 32);
    }
}

} // verus!
