//! The search for credential files in a Workspace.
//!
//! The directories are read elsewhere. This decides which of them are read, what is found, and
//! when the search has gone too far.

use crate::execution::error::{ExecutionError, ExecutionErrorView};
use crate::execution::resolve::{add_path, added_path};
use crate::path::PathStyle;
use crate::text::{begins_with, copy_texts, has_prefix, holds, lemma_texts_push, same, texts};
use vstd::prelude::*;

verus! {

broadcast use lemma_texts_push;

/// How many entries of directories are looked at.
pub const MAX_SENSITIVE_SCAN_ENTRIES: usize = 250_000;

/// How many credential files are found.
pub const MAX_SENSITIVE_MATCHES: usize = 8_192;

/// Whether a name is that of a credential file.
pub open spec fn is_sensitive(name: Seq<char>, names: Seq<Seq<char>>) -> bool {
    name == ".env"@ || begins_with(name, ".env."@) || names.contains(name)
}

/// Whether a name is that of a credential file.
pub fn sensitive_name(name: &str, names: &Vec<String>) -> (r: bool)
    ensures
        r == is_sensitive(name@, texts(names@)),
{
    same(name, ".env") || has_prefix(name, ".env.") || holds(names, name)
}

/// An entry of a directory.
#[derive(Debug)]
pub struct DirectoryEntry {
    pub path: String,
    pub name: String,
    pub is_dir: bool,
    pub is_symlink: bool,
}

/// A search under way.
#[derive(Debug)]
pub struct SensitiveScan {
    pub names: Vec<String>,
    /// The directories that are still to be read, the next one last.
    pub stack: Vec<String>,
    pub matches: Vec<String>,
    pub visited: usize,
}

/// The mathematical value of a [`SensitiveScan`].
pub ghost struct ScanView {
    pub names: Seq<Seq<char>>,
    pub stack: Seq<Seq<char>>,
    pub matches: Seq<Seq<char>>,
    pub visited: nat,
}

impl View for SensitiveScan {
    type V = ScanView;

    open spec fn view(&self) -> ScanView {
        ScanView {
            names: texts(self.names@),
            stack: texts(self.stack@),
            matches: texts(self.matches@),
            visited: self.visited as nat,
        }
    }
}

impl ScanView {
    /// Whether the search has not gone too far.
    pub open spec fn within(self) -> bool {
        self.visited <= MAX_SENSITIVE_SCAN_ENTRIES && self.matches.len() <= MAX_SENSITIVE_MATCHES
    }
}

/// What is to be done about an entry.
#[derive(Clone, Copy, Debug, PartialEq, Eq, Structural)]
pub enum EntryStep {
    /// Nothing: it is passed over, or will be read later.
    Pass,
    /// It is a credential file: its real path is to be found.
    Resolve,
}

/// The search after an entry.
pub open spec fn after_entry(s: ScanView, entry: DirectoryEntry) -> ScanView {
    ScanView {
        visited: s.visited + 1,
        stack: if !is_sensitive(entry.name@, s.names) && entry.is_dir && !entry.is_symlink {
            s.stack.push(entry.path@)
        } else {
            s.stack
        },
        ..s
    }
}

impl SensitiveScan {
    /// A search of some directories. There is nothing to search where there is no directory or no
    /// name.
    pub fn new(roots: &Vec<String>, names: &Vec<String>) -> (r: Self)
        ensures
            r@.within(),
            r@ == (ScanView {
                names: texts(names@),
                stack: if names@.len() == 0 {
                    Seq::empty()
                } else {
                    texts(roots@)
                },
                matches: Seq::empty(),
                visited: 0,
            }),
    {
        let stack = if names.len() == 0 {
            let none: Vec<String> = Vec::new();
            assert(texts(none@) =~= Seq::<Seq<char>>::empty());
            none
        } else {
            copy_texts(roots)
        };
        let r = SensitiveScan {
            names: copy_texts(names),
            stack,
            matches: Vec::new(),
            visited: 0,
        };
        assert(r@.matches =~= Seq::<Seq<char>>::empty());
        r
    }

    /// The next directory to be read, if one is left.
    pub fn next_directory(&mut self) -> (r: Option<String>)
        ensures
            match r {
                Some(path) => {
                    &&& old(self)@.stack.len() > 0
                    &&& path@ == old(self)@.stack.last()
                    &&& final(self)@ == (ScanView {
                        stack: old(self)@.stack.drop_last(),
                        ..old(self)@
                    })
                },
                None => old(self)@.stack.len() == 0 && final(self)@ == old(self)@,
            },
    {
        let ghost before = self.stack@;
        let r = self.stack.pop();
        proof {
            if before.len() > 0 {
                assert(self.stack@ =~= before.drop_last());
                assert(texts(self.stack@) =~= texts(before).drop_last());
            }
        }
        r
    }

    /// Looks at an entry of a directory.
    pub fn visit(&mut self, entry: DirectoryEntry) -> (r: Result<EntryStep, ExecutionError>)
        requires
            old(self)@.within(),
        ensures
            match r {
                Ok(step) => {
                    &&& final(self)@ == after_entry(old(self)@, entry)
                    &&& final(self)@.within()
                    &&& step == (if is_sensitive(entry.name@, old(self)@.names) {
                        EntryStep::Resolve
                    } else {
                        EntryStep::Pass
                    })
                },
                Err(e) => {
                    &&& old(self)@.visited == MAX_SENSITIVE_SCAN_ENTRIES
                    &&& e@ == ExecutionErrorView::InvalidPolicy(
                        "credential-path scan exceeded 250000 entries"@,
                    )
                },
            },
    {
        self.visited = self.visited + 1;
        if self.visited > MAX_SENSITIVE_SCAN_ENTRIES {
            return Err(
                ExecutionError::InvalidPolicy(
                    "credential-path scan exceeded 250000 entries".to_owned(),
                ),
            );
        }
        if sensitive_name(entry.name.as_str(), &self.names) {
            return Ok(EntryStep::Resolve);
        }
        if entry.is_dir && !entry.is_symlink {
            self.stack.push(entry.path);
        }
        Ok(EntryStep::Pass)
    }

    /// Notes the real path of a credential file.
    pub fn note(&mut self, style: PathStyle, resolved: String) -> (r: Result<(), ExecutionError>)
        requires
            old(self)@.within(),
        ensures
            match r {
                Ok(()) => {
                    &&& final(self)@ == (ScanView {
                        matches: added_path(style, old(self)@.matches, resolved@),
                        ..old(self)@
                    })
                    &&& final(self)@.within()
                },
                Err(e) => {
                    &&& added_path(style, old(self)@.matches, resolved@).len() > MAX_SENSITIVE_MATCHES
                    &&& e@ == ExecutionErrorView::InvalidPolicy(
                        "credential-path scan matched more than 8192 paths"@,
                    )
                },
            },
    {
        add_path(style, &mut self.matches, resolved);
        if self.matches.len() > MAX_SENSITIVE_MATCHES {
            return Err(
                ExecutionError::InvalidPolicy(
                    "credential-path scan matched more than 8192 paths".to_owned(),
                ),
            );
        }
        Ok(())
    }
}

/// A symbolic link is never followed, and neither is a credential file looked into.
pub proof fn law_links_are_not_followed(s: ScanView, entry: DirectoryEntry)
    requires
        entry.is_symlink || is_sensitive(entry.name@, s.names),
    ensures
        after_entry(s, entry).stack == s.stack,
{
}

} // verus!
