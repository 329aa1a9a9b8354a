//! A command's output, of which the beginning is kept.

use crate::execution::shell::{CommandOutput, SandboxBackend};
use vstd::prelude::*;
use vstd::utf8::{decode_utf8, valid_utf8};

verus! {

/// The beginning of some bytes.
pub open spec fn beginning(all: Seq<u8>, limit: nat) -> Seq<u8> {
    if all.len() <= limit {
        all
    } else {
        all.take(limit as int)
    }
}

/// Bytes as text, with a mark in place of what is no text.
pub uninterp spec fn lossy_text(bytes: Seq<u8>) -> Seq<char>;

/// Reads bytes as text with `String::from_utf8_lossy`. Valid UTF-8 is read as it stands; what the
/// rest is read as is named, not stated.
#[verifier::external_body]
pub(crate) fn read_lossy(bytes: &Vec<u8>) -> (r: String)
    ensures
        r@ == lossy_text(bytes@),
        valid_utf8(bytes@) ==> r@ == decode_utf8(bytes@),
{
    String::from_utf8_lossy(bytes).into_owned()
}

/// Output that is being read: the beginning is kept, the rest is counted out.
#[derive(Debug)]
pub struct LimitedOutput {
    pub kept: Vec<u8>,
    pub limit: usize,
    pub truncated: bool,
}

/// Whether an output is what some bytes leave.
pub open spec fn is_left_of(o: LimitedOutput, all: Seq<u8>) -> bool {
    o.kept@ == beginning(all, o.limit as nat) && o.truncated == (all.len() > o.limit)
}

impl LimitedOutput {
    /// Output of which nothing came.
    pub fn new(limit: usize) -> (r: Self)
        ensures
            r.limit == limit,
            is_left_of(r, Seq::empty()),
    {
        let r = LimitedOutput { kept: Vec::new(), limit, truncated: false };
        assert(r.kept@ =~= Seq::<u8>::empty());
        r
    }

    /// Takes in some bytes.
    pub fn take_in(&mut self, bytes: &[u8])
        requires
            old(self).kept@.len() <= old(self).limit,
        ensures
            final(self).limit == old(self).limit,
            final(self).kept@ == beginning(old(self).kept@ + bytes@, old(self).limit as nat),
            final(self).truncated == (old(self).truncated || old(self).kept@.len() + bytes@.len()
                > old(self).limit),
    {
        let remaining = self.limit - self.kept.len();
        let take = if bytes.len() < remaining {
            bytes.len()
        } else {
            remaining
        };
        let ghost before = self.kept@;
        let mut i: usize = 0;
        while i < take
            invariant
                i <= take <= bytes@.len(),
                self.limit == old(self).limit,
                self.truncated == old(self).truncated,
                self.kept@ == before + bytes@.take(i as int),
            decreases take - i,
        {
            self.kept.push(bytes[i]);
            assert(self.kept@ =~= before + bytes@.take(i + 1));
            i = i + 1;
        }
        assert(self.kept@ =~= beginning(before + bytes@, self.limit as nat));
        if take < bytes.len() {
            self.truncated = true;
        }
    }

    /// The output as text.
    pub fn text(&self) -> (r: String)
        ensures
            r@ == lossy_text(self.kept@),
            valid_utf8(self.kept@) ==> r@ == decode_utf8(self.kept@),
    {
        read_lossy(&self.kept)
    }
}

/// What is kept does not depend on the parts in which the output came.
pub proof fn law_parts_do_not_matter(a: Seq<u8>, b: Seq<u8>, limit: nat)
    ensures
        beginning(beginning(a, limit) + b, limit) == beginning(a + b, limit),
        beginning(a, limit).len() + b.len() > limit || a.len() > limit <==> a.len() + b.len()
            > limit,
{
    if a.len() > limit {
        assert(beginning(beginning(a, limit) + b, limit) =~= beginning(a + b, limit));
    }
}

/// Puts together what a command left behind.
pub fn finish_output(
    exit_code: Option<i32>,
    success: bool,
    backend: SandboxBackend,
    stdout: &LimitedOutput,
    stderr: &LimitedOutput,
) -> (r: CommandOutput)
    ensures
        r.exit_code == exit_code,
        r.success == success,
        r.stdout@ == lossy_text(stdout.kept@),
        r.stderr@ == lossy_text(stderr.kept@),
        r.stdout_truncated == stdout.truncated,
        r.stderr_truncated == stderr.truncated,
        r.backend == backend,
{
    CommandOutput {
        exit_code,
        success,
        stdout: stdout.text(),
        stderr: stderr.text(),
        stdout_truncated: stdout.truncated,
        stderr_truncated: stderr.truncated,
        backend,
    }
}

} // verus!
