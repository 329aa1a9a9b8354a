//! Sandboxes made by the seatbelt of macOS.

use crate::execution::error::{ExecutionError, ExecutionErrorView};
use crate::execution::policy::{FilesystemPolicy, NetworkPolicy};
use crate::execution::resolve::{ResolvedSandboxPolicy, ResolvedView};
use crate::execution::shell::{CommandView, SandboxBackend, ShellCommand};
use crate::text::{
    add_text, added_text, append_texts, join, joined, lemma_texts_push, maybe, maybe_str, same,
    set_of_texts, sort_set, texts,
};
use vstd::prelude::*;

verus! {

broadcast use lemma_texts_push;

/// Whether a character means something in a pattern.
pub open spec fn is_pattern_char(c: char) -> bool {
    c == '.' || c == '+' || c == '(' || c == ')' || c == '|' || c == '^' || c == '$' || c == '{' || c
        == '}' || c == '[' || c == ']' || c == '*' || c == '?' || c == '\\'
}

/// Whether a character is escaped: in a literal the quote and the backslash, in a pattern what
/// means something there too.
pub open spec fn is_escaped(c: char, pattern: bool) -> bool {
    c == '"' || c == '\\' || (pattern && is_pattern_char(c))
}

/// A text with a backslash before what is to be escaped.
pub open spec fn escaped(s: Seq<char>, pattern: bool) -> Seq<char>
    decreases s.len(),
{
    if s.len() == 0 {
        Seq::empty()
    } else {
        let before = escaped(s.drop_last(), pattern);
        if is_escaped(s.last(), pattern) {
            before.push('\\').push(s.last())
        } else {
            before.push(s.last())
        }
    }
}

fn escape(s: &str, pattern: bool) -> (r: String)
    ensures
        r@ == escaped(s@, pattern),
{
    let n = s.unicode_len();
    let mut r = String::new();
    let mut i: usize = 0;
    assert(s@.take(0) =~= Seq::<char>::empty());
    while i < n
        invariant
            i <= n,
            n == s@.len(),
            r@ == escaped(s@.take(i as int), pattern),
        decreases n - i,
    {
        assert(s@.take(i + 1).drop_last() =~= s@.take(i as int));
        let c = s.get_char(i);
        let special = c == '.' || c == '+' || c == '(' || c == ')' || c == '|' || c == '^' || c
            == '$' || c == '{' || c == '}' || c == '[' || c == ']' || c == '*' || c == '?' || c
            == '\\';
        if c == '"' || c == '\\' || (pattern && special) {
            r.push('\\');
        }
        r.push(c);
        i = i + 1;
    }
    assert(s@.take(i as int) =~= s@);
    r
}

/// Escapes what means something in a pattern.
pub fn regex_escape(value: &str) -> (r: String)
    ensures
        r@ == escaped(value@, true),
{
    escape(value, true)
}

/// Escapes a path for a literal.
pub fn seatbelt_literal(path: &str) -> (r: String)
    ensures
        r@ == escaped(path@, false),
{
    escape(path, false)
}

/// The pattern of a credential file's name. That of `.env` stands for its family.
pub open spec fn name_pattern(name: Seq<char>) -> Seq<char> {
    if name == ".env"@ {
        "\\.env(\\.[^/]*)?"@
    } else {
        escaped(name, true)
    }
}

/// The pattern of paths with a credential file in them.
pub open spec fn path_pattern(names: Seq<Seq<char>>) -> Option<Seq<char>> {
    if names.len() == 0 {
        None
    } else {
        Some(
            "^/(.*/)?("@ + joined(
                set_of_texts(names.map_values(|n: Seq<char>| name_pattern(n))),
                "|"@,
            ) + ")(/.*)?$"@,
        )
    }
}

/// Makes the pattern of paths with a credential file in them.
pub fn sensitive_path_regex(names: &Vec<String>) -> (r: Option<String>)
    ensures
        maybe(r) == path_pattern(texts(names@)),
{
    if names.len() == 0 {
        return None;
    }
    let ghost all = texts(names@).map_values(|n: Seq<char>| name_pattern(n));
    let mut patterns: Vec<String> = Vec::new();
    let mut i: usize = 0;
    assert(texts(patterns@) =~= all.take(0));
    while i < names.len()
        invariant
            i <= names@.len(),
            all == texts(names@).map_values(|n: Seq<char>| name_pattern(n)),
            texts(patterns@) == all.take(i as int),
        decreases names.len() - i,
    {
        let name = names[i].as_str();
        let pattern = if same(name, ".env") {
            "\\.env(\\.[^/]*)?".to_owned()
        } else {
            regex_escape(name)
        };
        patterns.push(pattern);
        assert(texts(patterns@) =~= all.take(i + 1));
        i = i + 1;
    }
    assert(all.take(i as int) =~= all);
    let alternatives = sort_set(&patterns);
    let mut r = "^/(.*/)?(".to_owned();
    let list = join(&alternatives, "|");
    r.append(list.as_str());
    r.append(")(/.*)?$");
    Some(r)
}

/// A rule on what lies below a path that is written as a literal.
pub open spec fn subpath_rule(verb: Seq<char>, literal: Seq<char>) -> Seq<char> {
    "("@ + verb + " (subpath \""@ + literal + "\"))"@
}

/// A rule on what lies below each of some paths.
pub open spec fn subpath_rules(verb: Seq<char>, paths: Seq<Seq<char>>) -> Seq<Seq<char>> {
    paths.map_values(|p: Seq<char>| subpath_rule(verb, escaped(p, false)))
}

/// The rules that hide what lies below each of some paths.
pub open spec fn hiding_rules(paths: Seq<Seq<char>>) -> Seq<Seq<char>>
    decreases paths.len(),
{
    if paths.len() == 0 {
        Seq::empty()
    } else {
        let literal = escaped(paths.last(), false);
        hiding_rules(paths.drop_last()) + seq![
            subpath_rule("deny file-read*"@, literal),
            subpath_rule("deny file-write*"@, literal),
        ]
    }
}

/// Where other people's files lie, besides the user's home.
pub open spec fn private_places() -> Seq<Seq<char>> {
    seq![
        "/Volumes"@,
        "/private/tmp"@,
        "/tmp"@,
        "/var/tmp"@,
        "/var/folders"@,
        "/private/var/folders"@,
    ]
}

/// The places that a scoped process cannot read.
pub open spec fn closed_places(home: Option<Seq<char>>) -> Seq<Seq<char>> {
    let fixed = set_of_texts(private_places());
    match home {
        Some(home) => added_text(fixed, escaped(home, false)),
        None => fixed,
    }
}

/// The rules on the network and on writing.
pub open spec fn opening_rules(p: ResolvedView) -> Seq<Seq<char>> {
    seq!["(version 1)"@, "(allow default)"@] + (if p.network == NetworkPolicy::Deny {
        seq!["(deny network*)"@]
    } else {
        Seq::empty()
    }) + if p.filesystem_write == FilesystemPolicy::Scoped {
        seq!["(deny file-write*)"@] + subpath_rules("allow file-write*"@, p.write_roots) + seq![
            "(allow file-write* (literal \"/dev/null\"))"@,
        ]
    } else {
        Seq::empty()
    }
}

/// The rules on reading.
pub open spec fn reading_rules(p: ResolvedView, home: Option<Seq<char>>) -> Seq<Seq<char>> {
    if p.filesystem_read == FilesystemPolicy::Scoped {
        closed_places(home).map_values(|l: Seq<char>| subpath_rule("deny file-read*"@, l))
            + subpath_rules("allow file-read*"@, p.read_roots)
    } else {
        Seq::empty()
    }
}

/// The rules that hide credential files by their names.
pub open spec fn pattern_rules(names: Seq<Seq<char>>) -> Seq<Seq<char>> {
    match path_pattern(names) {
        Some(pattern) => seq![
            "(deny file-read* (regex #\""@ + pattern + "\"))"@,
            "(deny file-write* (regex #\""@ + pattern + "\"))"@,
        ],
        None => Seq::empty(),
    }
}

/// The rules of a sandbox. A later rule overrules those before it, so what is denied by name or
/// path stays denied.
pub open spec fn rules(p: ResolvedView, home: Option<Seq<char>>) -> Seq<Seq<char>> {
    opening_rules(p) + reading_rules(p, home) + hiding_rules(p.unreadable_roots) + subpath_rules(
        "deny file-write*"@,
        p.read_only_roots,
    ) + hiding_rules(p.sensitive_paths) + pattern_rules(p.sensitive_path_names)
}

fn write_rule(verb: &str, literal: &str) -> (r: String)
    ensures
        r@ == subpath_rule(verb@, literal@),
{
    let mut r = "(".to_owned();
    r.append(verb);
    r.append(" (subpath \"");
    r.append(literal);
    r.append("\"))");
    r
}

fn append_subpaths(rules: &mut Vec<String>, verb: &str, paths: &Vec<String>)
    ensures
        texts(final(rules)@) == texts(old(rules)@) + subpath_rules(verb@, texts(paths@)),
{
    let ghost before = texts(rules@);
    let ghost all = subpath_rules(verb@, texts(paths@));
    let mut i: usize = 0;
    assert(texts(rules@) =~= before + all.take(0));
    while i < paths.len()
        invariant
            i <= paths@.len(),
            all == subpath_rules(verb@, texts(paths@)),
            texts(rules@) == before + all.take(i as int),
        decreases paths.len() - i,
    {
        let literal = seatbelt_literal(paths[i].as_str());
        rules.push(write_rule(verb, literal.as_str()));
        assert(texts(rules@) =~= before + all.take(i + 1));
        i = i + 1;
    }
    assert(all.take(i as int) =~= all);
}

fn append_hiding(rules: &mut Vec<String>, paths: &Vec<String>)
    ensures
        texts(final(rules)@) == texts(old(rules)@) + hiding_rules(texts(paths@)),
{
    let ghost before = texts(rules@);
    let ghost all = texts(paths@);
    let mut i: usize = 0;
    assert(all.take(0) =~= Seq::<Seq<char>>::empty());
    assert(texts(rules@) =~= before + hiding_rules(all.take(0)));
    while i < paths.len()
        invariant
            i <= paths@.len(),
            all == texts(paths@),
            texts(rules@) == before + hiding_rules(all.take(i as int)),
        decreases paths.len() - i,
    {
        assert(all.take(i + 1).drop_last() =~= all.take(i as int));
        assert(all.take(i + 1).last() == paths@[i as int]@);
        let literal = seatbelt_literal(paths[i].as_str());
        rules.push(write_rule("deny file-read*", literal.as_str()));
        rules.push(write_rule("deny file-write*", literal.as_str()));
        assert(texts(rules@) =~= before + hiding_rules(all.take(i + 1)));
        i = i + 1;
    }
    assert(all.take(i as int) =~= all);
}

fn list_closed_places(home: Option<&str>) -> (r: Vec<String>)
    ensures
        texts(r@) == closed_places(maybe_str(home)),
{
    let mut fixed: Vec<String> = Vec::new();
    fixed.push("/Volumes".to_owned());
    fixed.push("/private/tmp".to_owned());
    fixed.push("/tmp".to_owned());
    fixed.push("/var/tmp".to_owned());
    fixed.push("/var/folders".to_owned());
    fixed.push("/private/var/folders".to_owned());
    assert(texts(fixed@) =~= private_places());
    let mut r = sort_set(&fixed);
    if let Some(home) = home {
        add_text(&mut r, seatbelt_literal(home));
    }
    r
}

fn append_reading(rules: &mut Vec<String>, policy: &ResolvedSandboxPolicy, home: Option<&str>)
    ensures
        texts(final(rules)@) == texts(old(rules)@) + reading_rules(policy@, maybe_str(home)),
{
    let ghost before = texts(rules@);
    if policy.filesystem_read == FilesystemPolicy::Scoped {
        let places = list_closed_places(home);
        let ghost all = closed_places(maybe_str(home)).map_values(
            |l: Seq<char>| subpath_rule("deny file-read*"@, l),
        );
        let mut i: usize = 0;
        assert(texts(rules@) =~= before + all.take(0));
        while i < places.len()
            invariant
                i <= places@.len(),
                texts(places@) == closed_places(maybe_str(home)),
                all == closed_places(maybe_str(home)).map_values(
                    |l: Seq<char>| subpath_rule("deny file-read*"@, l),
                ),
                texts(rules@) == before + all.take(i as int),
            decreases places.len() - i,
        {
            assert(texts(places@)[i as int] == places@[i as int]@);
            rules.push(write_rule("deny file-read*", places[i].as_str()));
            assert(texts(rules@) =~= before + all.take(i + 1));
            i = i + 1;
        }
        assert(all.take(i as int) =~= all);
        append_subpaths(rules, "allow file-read*", &policy.read_roots);
        assert(texts(rules@) =~= before + reading_rules(policy@, maybe_str(home)));
    } else {
        assert(texts(rules@) =~= before + reading_rules(policy@, maybe_str(home)));
    }
}

/// Writes the rules of a sandbox, given the user's home where it is known.
pub fn seatbelt_profile(policy: &ResolvedSandboxPolicy, home: Option<&str>) -> (r: String)
    ensures
        r@ == joined(rules(policy@, maybe_str(home)), "\n"@),
{
    let mut list: Vec<String> = Vec::new();
    list.push("(version 1)".to_owned());
    list.push("(allow default)".to_owned());
    if policy.network == NetworkPolicy::Deny {
        list.push("(deny network*)".to_owned());
    }
    if policy.filesystem_write == FilesystemPolicy::Scoped {
        list.push("(deny file-write*)".to_owned());
        append_subpaths(&mut list, "allow file-write*", &policy.write_roots);
        list.push("(allow file-write* (literal \"/dev/null\"))".to_owned());
    }
    assert(texts(list@) =~= opening_rules(policy@));
    append_reading(&mut list, policy, home);
    append_hiding(&mut list, &policy.unreadable_roots);
    append_subpaths(&mut list, "deny file-write*", &policy.read_only_roots);
    append_hiding(&mut list, &policy.sensitive_paths);
    let ghost before = texts(list@);
    if let Some(pattern) = sensitive_path_regex(&policy.sensitive_path_names) {
        let mut read = "(deny file-read* (regex #\"".to_owned();
        read.append(pattern.as_str());
        read.append("\"))");
        list.push(read);
        let mut write = "(deny file-write* (regex #\"".to_owned();
        write.append(pattern.as_str());
        write.append("\"))");
        list.push(write);
    }
    assert(texts(list@) =~= before + pattern_rules(policy@.sensitive_path_names));
    join(&list, "\n")
}

/// Makes the command that runs another in a sandbox, given whether the seatbelt is installed.
pub fn prepare(
    command: &ShellCommand,
    policy: &ResolvedSandboxPolicy,
    home: Option<&str>,
    installed: bool,
) -> (r: Result<(ShellCommand, SandboxBackend), ExecutionError>)
    ensures
        match r {
            Ok((made, backend)) => {
                &&& installed
                &&& backend == SandboxBackend::MacOsSeatbelt
                &&& made@ == (CommandView {
                    program: "/usr/bin/sandbox-exec"@,
                    args: seq![
                        "-p"@,
                        joined(rules(policy@, maybe_str(home)), "\n"@),
                        command@.program,
                    ] + command@.args,
                })
            },
            Err(e) => !installed && e@ == ExecutionErrorView::SandboxUnavailable(
                "macOS sandbox-exec is not installed"@,
            ),
        },
{
    if !installed {
        return Err(
            ExecutionError::SandboxUnavailable("macOS sandbox-exec is not installed".to_owned()),
        );
    }
    let mut args: Vec<String> = Vec::new();
    args.push("-p".to_owned());
    args.push(seatbelt_profile(policy, home));
    args.push(command.program.clone());
    assert(texts(args@) =~= seq![
        "-p"@,
        joined(rules(policy@, maybe_str(home)), "\n"@),
        command@.program,
    ]);
    append_texts(&mut args, &command.args);
    Ok(
        (
            ShellCommand { program: "/usr/bin/sandbox-exec".to_owned(), args },
            SandboxBackend::MacOsSeatbelt,
        ),
    )
}

/// An escaped text has no quote that would end it: each stands behind a backslash.
pub proof fn law_literals_do_not_end(s: Seq<char>, pattern: bool, i: int)
    requires
        0 <= i < escaped(s, pattern).len(),
        escaped(s, pattern)[i] == '"',
    ensures
        i > 0,
        escaped(s, pattern)[i - 1] == '\\',
    decreases s.len(),
{
    let before = escaped(s.drop_last(), pattern);
    if i < before.len() {
        law_literals_do_not_end(s.drop_last(), pattern, i);
    }
}

} // verus!
