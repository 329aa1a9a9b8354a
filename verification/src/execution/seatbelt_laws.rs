//! What a child process in a sandbox of macOS sees.
//!
//! Of the rules that speak of a path the last decides. Here is said which rules stand in a profile, and
//! that none behind them takes back what they say.

use crate::execution::environment::core_names;
use crate::execution::macos::{
    closed_places, escaped, hiding_rules, is_escaped, opening_rules, path_pattern, pattern_rules,
    private_places, reading_rules, rules, subpath_rule, subpath_rules,
};
use crate::execution::policy::{FilesystemPolicy, NetworkPolicy};
use crate::execution::resolve::ResolvedView;
use crate::text::{added_text, inserted_text, precedes, set_of_texts};
use vstd::prelude::*;

verus! {

/// A rule on what lies below a path, with the path as it is.
pub open spec fn rule_on(verb: Seq<char>, path: Seq<char>) -> Seq<char> {
    "("@ + verb + " (subpath \""@ + escaped(path, false) + "\"))"@
}

/// Whether a rule allows something.
pub open spec fn allows(rule: Seq<char>) -> bool {
    rule.len() > 1 && rule[1] == 'a'
}

/// Whether a rule stands among others, and none behind it allows anything.
pub open spec fn has_the_last_word(all: Seq<Seq<char>>, rule: Seq<char>) -> bool {
    exists|i: int|
        {
            &&& 0 <= i < all.len()
            &&& #[trigger] all[i] == rule
            &&& forall|j: int| i < j < all.len() ==> !allows(#[trigger] all[j])
        }
}

/// Whether a rule stands among others, behind every place of another.
pub open spec fn stands_behind(all: Seq<Seq<char>>, rule: Seq<char>, other: Seq<char>) -> bool {
    exists|i: int|
        {
            &&& 0 <= i < all.len()
            &&& #[trigger] all[i] == rule
            &&& forall|j: int| i < j < all.len() ==> #[trigger] all[j] != other
        }
}

proof fn lemma_verbs(verb: Seq<char>, literal: Seq<char>)
    requires
        verb.len() > 0,
    ensures
        allows(subpath_rule(verb, literal)) <==> verb[0] == 'a',
        subpath_rule(verb, literal).len() > verb.len() + 1,
        subpath_rule(verb, literal)[1] == verb[0],
        subpath_rule(verb, literal)[verb.len() as int + 1] == ' ',
{
    reveal_strlit("(");
    reveal_strlit(" (subpath \"");
    reveal_strlit("\"))");
}

proof fn lemma_denials(paths: Seq<Seq<char>>, i: int)
    requires
        0 <= i < hiding_rules(paths).len(),
    ensures
        !allows(hiding_rules(paths)[i]),
    decreases paths.len(),
{
    reveal_strlit("deny file-read*");
    reveal_strlit("deny file-write*");
    let before = hiding_rules(paths.drop_last());
    let literal = escaped(paths.last(), false);
    lemma_verbs("deny file-read*"@, literal);
    lemma_verbs("deny file-write*"@, literal);
    if i < before.len() {
        lemma_denials(paths.drop_last(), i);
        assert(hiding_rules(paths)[i] == before[i]);
    }
}

proof fn lemma_hides(paths: Seq<Seq<char>>, path: Seq<char>)
    requires
        paths.contains(path),
    ensures
        hiding_rules(paths).contains(rule_on("deny file-read*"@, path)),
        hiding_rules(paths).contains(rule_on("deny file-write*"@, path)),
    decreases paths.len(),
{
    let before = hiding_rules(paths.drop_last());
    let all = hiding_rules(paths);
    if paths.last() == path {
        assert(all[before.len() as int] == rule_on("deny file-read*"@, path));
        assert(all[before.len() as int + 1] == rule_on("deny file-write*"@, path));
    } else {
        let k = choose|k: int| 0 <= k < paths.len() && paths[k] == path;
        assert(paths.drop_last()[k] == path);
        lemma_hides(paths.drop_last(), path);
        let i = choose|i: int|
            0 <= i < before.len() && before[i] == rule_on("deny file-read*"@, path);
        assert(all[i] == before[i]);
        let j = choose|j: int|
            0 <= j < before.len() && before[j] == rule_on("deny file-write*"@, path);
        assert(all[j] == before[j]);
    }
}

/// The rules that only deny: those behind the rules on reading.
spec fn denials(p: ResolvedView) -> Seq<Seq<char>> {
    hiding_rules(p.unreadable_roots) + subpath_rules("deny file-write*"@, p.read_only_roots)
        + hiding_rules(p.sensitive_paths) + pattern_rules(p.sensitive_path_names)
}

proof fn lemma_denials_deny(p: ResolvedView, i: int)
    requires
        0 <= i < denials(p).len(),
    ensures
        !allows(denials(p)[i]),
{
    let a = hiding_rules(p.unreadable_roots);
    let b = subpath_rules("deny file-write*"@, p.read_only_roots);
    let c = hiding_rules(p.sensitive_paths);
    let d = pattern_rules(p.sensitive_path_names);
    let all = a + b + c + d;
    if i < a.len() {
        lemma_denials(p.unreadable_roots, i);
        assert(all[i] == a[i]);
    } else if i < a.len() + b.len() {
        let k = i - a.len();
        reveal_strlit("deny file-write*");
        lemma_verbs("deny file-write*"@, escaped(p.read_only_roots[k], false));
        assert(all[i] == b[k]);
    } else if i < a.len() + b.len() + c.len() {
        let k = i - a.len() - b.len();
        lemma_denials(p.sensitive_paths, k);
        assert(all[i] == c[k]);
    } else {
        let k = i - a.len() - b.len() - c.len();
        assert(all[i] == d[k]);
        reveal_strlit("(deny file-read* (regex #\"");
        reveal_strlit("(deny file-write* (regex #\"");
        assert("(deny file-read* (regex #\""@[1] == 'd');
        assert("(deny file-write* (regex #\""@[1] == 'd');
    }
}

proof fn lemma_last_word(p: ResolvedView, home: Option<Seq<char>>, rule: Seq<char>)
    requires
        denials(p).contains(rule),
    ensures
        has_the_last_word(rules(p, home), rule),
{
    let head = opening_rules(p) + reading_rules(p, home);
    let tail = denials(p);
    let all = rules(p, home);
    assert(all =~= head + tail);
    let k = choose|k: int| 0 <= k < tail.len() && tail[k] == rule;
    let i = head.len() + k;
    assert(all[i] == rule);
    assert forall|j: int| i < j < all.len() implies !allows(#[trigger] all[j]) by {
        lemma_denials_deny(p, j - head.len());
        assert(all[j] == tail[j - head.len()]);
    }
}

/// What is hidden stays hidden, and what is read-only stays that: the rule that denies it stands in the
/// profile, and no rule behind it allows anything.
pub proof fn law_denials_have_the_last_word(p: ResolvedView, home: Option<Seq<char>>, path: Seq<char>)
    ensures
        p.unreadable_roots.contains(path) || p.sensitive_paths.contains(path) ==> has_the_last_word(
            rules(p, home),
            rule_on("deny file-read*"@, path),
        ) && has_the_last_word(rules(p, home), rule_on("deny file-write*"@, path)),
        p.read_only_roots.contains(path) ==> has_the_last_word(
            rules(p, home),
            rule_on("deny file-write*"@, path),
        ),
{
    let a = hiding_rules(p.unreadable_roots);
    let b = subpath_rules("deny file-write*"@, p.read_only_roots);
    let c = hiding_rules(p.sensitive_paths);
    let d = pattern_rules(p.sensitive_path_names);
    let all = a + b + c + d;
    let read = rule_on("deny file-read*"@, path);
    let write = rule_on("deny file-write*"@, path);
    if p.unreadable_roots.contains(path) {
        lemma_hides(p.unreadable_roots, path);
        let i = choose|i: int| 0 <= i < a.len() && a[i] == read;
        assert(all[i] == read);
        let j = choose|j: int| 0 <= j < a.len() && a[j] == write;
        assert(all[j] == write);
        lemma_last_word(p, home, read);
        lemma_last_word(p, home, write);
    }
    if p.sensitive_paths.contains(path) {
        lemma_hides(p.sensitive_paths, path);
        let n = a.len() + b.len();
        let i = choose|i: int| 0 <= i < c.len() && c[i] == read;
        assert(all[n + i] == read);
        let j = choose|j: int| 0 <= j < c.len() && c[j] == write;
        assert(all[n + j] == write);
        lemma_last_word(p, home, read);
        lemma_last_word(p, home, write);
    }
    if p.read_only_roots.contains(path) {
        let k = choose|k: int| 0 <= k < p.read_only_roots.len() && p.read_only_roots[k] == path;
        assert(b[k] == write);
        assert(all[a.len() + k] == write);
        lemma_last_word(p, home, write);
    }
}

/// Credential files are hidden by their names wherever they lie: where names are given, a pattern that
/// holds each of them is denied, and no rule behind it allows anything.
pub proof fn law_names_are_hidden(p: ResolvedView, home: Option<Seq<char>>)
    ensures
        p.sensitive_path_names.len() > 0 ==> (path_pattern(p.sensitive_path_names) matches Some(
            pattern,
        ) && has_the_last_word(
            rules(p, home),
            "(deny file-read* (regex #\""@ + pattern + "\"))"@,
        ) && has_the_last_word(
            rules(p, home),
            "(deny file-write* (regex #\""@ + pattern + "\"))"@,
        )),
{
    if p.sensitive_path_names.len() > 0 {
        let pattern = path_pattern(p.sensitive_path_names)->0;
        let d = pattern_rules(p.sensitive_path_names);
        let all = denials(p);
        let n = all.len() - d.len();
        assert(d.len() == 2);
        assert(all[n] == d[0] && all[n + 1] == d[1]);
        lemma_last_word(p, home, d[0]);
        lemma_last_word(p, home, d[1]);
    }
}

proof fn lemma_every_text(list: Seq<Seq<char>>, s: Seq<char>)
    requires
        list.contains(s),
    ensures
        set_of_texts(list).contains(s),
    decreases list.len(),
{
    let rest = list.drop_last();
    let before = set_of_texts(rest);
    if list.last() == s {
        lemma_added(before, s, s);
    } else {
        let k = choose|k: int| 0 <= k < list.len() && list[k] == s;
        assert(rest[k] == s);
        lemma_every_text(rest, s);
        lemma_added(before, list.last(), s);
    }
}

proof fn lemma_added(list: Seq<Seq<char>>, s: Seq<char>, t: Seq<char>)
    ensures
        added_text(list, s).contains(s),
        list.contains(t) ==> added_text(list, s).contains(t),
{
    if !list.contains(s) {
        lemma_inserted_text_holds(list, s, t);
    }
}

proof fn lemma_inserted_text_holds(list: Seq<Seq<char>>, s: Seq<char>, t: Seq<char>)
    ensures
        inserted_text(list, s).contains(s),
        list.contains(t) ==> inserted_text(list, s).contains(t),
    decreases list.len(),
{
    let made = inserted_text(list, s);
    if list.len() == 0 {
        assert(made[0] == s);
    } else if precedes(s, list[0]) {
        assert(made[0] == s);
        if list.contains(t) {
            let k = choose|k: int| 0 <= k < list.len() && list[k] == t;
            assert(made[k + 1] == t);
        }
    } else {
        let rest = list.drop_first();
        let inner = inserted_text(rest, s);
        lemma_inserted_text_holds(rest, s, t);
        let i = choose|i: int| 0 <= i < inner.len() && inner[i] == s;
        assert(made[i + 1] == s);
        if list.contains(t) {
            let k = choose|k: int| 0 <= k < list.len() && list[k] == t;
            if k == 0 {
                assert(made[0] == t);
            } else {
                assert(rest[k - 1] == t);
                let m = choose|m: int| 0 <= m < inner.len() && inner[m] == t;
                assert(made[m + 1] == t);
            }
        }
    }
}


/// Where only some roots may be written, writing is denied first, and each of them is allowed behind
/// that: no general denial takes it back. Where the network is denied, a rule says so; and where the
/// policy allows it, none does.
pub proof fn law_write_roots_are_allowed(p: ResolvedView, home: Option<Seq<char>>, root: Seq<char>)
    requires
        p.filesystem_write == FilesystemPolicy::Scoped,
        p.write_roots.contains(root),
    ensures
        rules(p, home).contains("(deny file-write*)"@),
        stands_behind(
            rules(p, home),
            rule_on("allow file-write*"@, root),
            "(deny file-write*)"@,
        ),
{
    let all = rules(p, home);
    let net = seq!["(version 1)"@, "(allow default)"@] + (if p.network == NetworkPolicy::Deny {
        seq!["(deny network*)"@]
    } else {
        Seq::empty()
    });
    let roots = subpath_rules("allow file-write*"@, p.write_roots);
    let n = net.len() as int;
    assert(all[n] == "(deny file-write*)"@);
    let k = choose|k: int| 0 <= k < p.write_roots.len() && p.write_roots[k] == root;
    let i = n + 1 + k;
    assert(all[i] == roots[k]);
    assert(all[i] == rule_on("allow file-write*"@, root));
    assert forall|j: int| i < j < all.len() implies #[trigger] all[j] != "(deny file-write*)"@ by {
        lemma_no_general_denial(p, home, j);
    }
}

proof fn lemma_no_general_denial(p: ResolvedView, home: Option<Seq<char>>, j: int)
    requires
        p.filesystem_write == FilesystemPolicy::Scoped,
        0 <= j < rules(p, home).len(),
        j > 2 + (if p.network == NetworkPolicy::Deny {
            1int
        } else {
            0
        }),
    ensures
        rules(p, home)[j] != "(deny file-write*)"@,
        rules(p, home)[j] != "(deny network*)"@,
{
    reveal_strlit("(deny file-write*)");
    reveal_strlit("(deny network*)");
    assert("(deny file-write*)"@.len() == 18);
    assert("(deny network*)"@.len() == 15);
    assert("(deny file-write*)"@[17] == ')');
    assert("(deny network*)"@[6] == 'n');
    let head = opening_rules(p);
    let reading = reading_rules(p, home);
    let tail = denials(p);
    let all = rules(p, home);
    assert(all =~= head + reading + tail);
    let net: int = 2 + (if p.network == NetworkPolicy::Deny {
        1int
    } else {
        0
    });
    let w = p.write_roots.len() as int;
    if j < head.len() {
        if j <= net + w {
            lemma_long_rule("allow file-write*"@, escaped(p.write_roots[j - net - 1], false));
            assert(all[j] == subpath_rule(
                "allow file-write*"@,
                escaped(p.write_roots[j - net - 1], false),
            ));
        } else {
            reveal_strlit("(allow file-write* (literal \"/dev/null\"))");
            assert("(allow file-write* (literal \"/dev/null\"))"@[1] == 'a');
            assert(all[j] == "(allow file-write* (literal \"/dev/null\"))"@);
        }
    } else if j < head.len() + reading.len() {
        let k = j - head.len();
        assert(all[j] == reading[k]);
        let closed = closed_places(home);
        if k < closed.len() {
            lemma_long_rule("deny file-read*"@, closed[k]);
            assert(all[j] == subpath_rule("deny file-read*"@, closed[k]));
        } else {
            lemma_long_rule("allow file-read*"@, escaped(p.read_roots[k - closed.len()], false));
            assert(all[j] == subpath_rule(
                "allow file-read*"@,
                escaped(p.read_roots[k - closed.len()], false),
            ));
        }
    } else {
        lemma_denials_are_narrow(p, j - head.len() - reading.len());
        assert(all[j] == tail[j - head.len() - reading.len()]);
    }
}

proof fn lemma_long_rule(verb: Seq<char>, literal: Seq<char>)
    requires
        verb == "deny file-read*"@ || verb == "deny file-write*"@ || verb == "allow file-read*"@
            || verb == "allow file-write*"@,
    ensures
        subpath_rule(verb, literal) != "(deny file-write*)"@,
        subpath_rule(verb, literal) != "(deny network*)"@,
{
    reveal_strlit("(");
    reveal_strlit(" (subpath \"");
    reveal_strlit("\"))");
    reveal_strlit("(deny file-write*)");
    reveal_strlit("(deny network*)");
    reveal_strlit("deny file-read*");
    reveal_strlit("deny file-write*");
    reveal_strlit("allow file-read*");
    reveal_strlit("allow file-write*");
    let rule = subpath_rule(verb, literal);
    assert(rule.len() == verb.len() + literal.len() + 15);
    assert("(deny file-write*)"@.len() == 18);
    assert("(deny network*)"@.len() == 15);
}

proof fn lemma_hiding_is_narrow(paths: Seq<Seq<char>>, i: int)
    requires
        0 <= i < hiding_rules(paths).len(),
    ensures
        hiding_rules(paths)[i] != "(deny file-write*)"@,
        hiding_rules(paths)[i] != "(deny network*)"@,
    decreases paths.len(),
{
    let before = hiding_rules(paths.drop_last());
    lemma_long_rule("deny file-read*"@, escaped(paths.last(), false));
    lemma_long_rule("deny file-write*"@, escaped(paths.last(), false));
    if i < before.len() {
        lemma_hiding_is_narrow(paths.drop_last(), i);
        assert(hiding_rules(paths)[i] == before[i]);
    }
}

proof fn lemma_denials_are_narrow(p: ResolvedView, i: int)
    requires
        0 <= i < denials(p).len(),
    ensures
        denials(p)[i] != "(deny file-write*)"@,
        denials(p)[i] != "(deny network*)"@,
{
    let a = hiding_rules(p.unreadable_roots);
    let b = subpath_rules("deny file-write*"@, p.read_only_roots);
    let c = hiding_rules(p.sensitive_paths);
    let d = pattern_rules(p.sensitive_path_names);
    let all = a + b + c + d;
    if i < a.len() {
        lemma_hiding_is_narrow(p.unreadable_roots, i);
        assert(all[i] == a[i]);
    } else if i < a.len() + b.len() {
        let k = i - a.len();
        lemma_long_rule("deny file-write*"@, escaped(p.read_only_roots[k], false));
        assert(all[i] == b[k]);
    } else if i < a.len() + b.len() + c.len() {
        let k = i - a.len() - b.len();
        lemma_hiding_is_narrow(p.sensitive_paths, k);
        assert(all[i] == c[k]);
    } else {
        let k = i - a.len() - b.len() - c.len();
        assert(all[i] == d[k]);
        reveal_strlit("(deny file-read* (regex #\"");
        reveal_strlit("(deny file-write* (regex #\"");
        reveal_strlit("(deny file-write*)");
        reveal_strlit("(deny network*)");
        assert("(deny file-read* (regex #\""@.len() == 26);
        assert("(deny file-write* (regex #\""@.len() == 27);
        assert("(deny file-write*)"@.len() == 18);
        assert("(deny network*)"@.len() == 15);
    }
}

/// The network is denied exactly if the policy says so, and where the whole host may be written nothing
/// denies writing as a whole.
pub proof fn law_the_network_is_denied_if_asked(p: ResolvedView, home: Option<Seq<char>>)
    ensures
        p.network == NetworkPolicy::Deny ==> rules(p, home).contains("(deny network*)"@),
        p.filesystem_write == FilesystemPolicy::Scoped && p.network == NetworkPolicy::Allow
            ==> !rules(p, home).contains("(deny network*)"@),
{
    let all = rules(p, home);
    if p.network == NetworkPolicy::Deny {
        assert(all[2] == "(deny network*)"@);
    } else if p.filesystem_write == FilesystemPolicy::Scoped && all.contains("(deny network*)"@) {
        let j = choose|j: int| 0 <= j < all.len() && all[j] == "(deny network*)"@;
        reveal_strlit("(version 1)");
        reveal_strlit("(allow default)");
        reveal_strlit("(deny file-write*)");
        reveal_strlit("(deny network*)");
        assert("(version 1)"@.len() == 11);
        assert("(allow default)"@[1] == 'a');
        assert("(deny network*)"@[1] == 'd');
        assert("(deny network*)"@.len() == 15);
        assert("(deny file-write*)"@.len() == 18);
        assert(all[0] == "(version 1)"@ && all[1] == "(allow default)"@ && all[2]
            == "(deny file-write*)"@);
        if j > 2 {
            lemma_no_general_denial(p, home, j);
        }
    }
}

/// Where only some roots may be read, other people's files and the user's home are closed first, and
/// each of the roots is opened behind them.
pub proof fn law_read_roots_are_allowed(
    p: ResolvedView,
    home: Option<Seq<char>>,
    root: Seq<char>,
    place: Seq<char>,
)
    requires
        p.filesystem_read == FilesystemPolicy::Scoped,
    ensures
        place == "/Volumes"@ || place == "/private/tmp"@ || place == "/tmp"@ || place == "/var/tmp"@
            || place == "/var/folders"@ || place == "/private/var/folders"@ ==> rules(
            p,
            home,
        ).contains("(deny file-read* (subpath \""@ + place + "\"))"@),
        home matches Some(h) ==> rules(p, home).contains(rule_on("deny file-read*"@, h)),
        p.read_roots.contains(root) ==> rules(p, home).contains(rule_on("allow file-read*"@, root)),
        p.read_roots.contains(root) ==> stands_behind_all(
            rules(p, home),
            rule_on("allow file-read*"@, root),
            closed_places(home),
        ),
{
    let all = rules(p, home);
    let n = opening_rules(p).len() as int;
    let closed = closed_places(home);
    let shut = closed.map_values(|l: Seq<char>| subpath_rule("deny file-read*"@, l));
    let open = subpath_rules("allow file-read*"@, p.read_roots);
    let fixed = private_places();
    assert(fixed[0] == "/Volumes"@ && fixed[1] == "/private/tmp"@ && fixed[2] == "/tmp"@ && fixed[3]
        == "/var/tmp"@ && fixed[4] == "/var/folders"@ && fixed[5] == "/private/var/folders"@);
    if fixed.contains(place) {
        lemma_every_text(fixed, place);
        if let Some(h) = home {
            lemma_added(set_of_texts(fixed), escaped(h, false), place);
        }
        let k = choose|k: int| 0 <= k < closed.len() && closed[k] == place;
        assert(shut[k] == subpath_rule("deny file-read*"@, place));
        assert(all[n + k] == shut[k]);
        lemma_spelled_out(place);
    }
    if let Some(h) = home {
        lemma_added(set_of_texts(fixed), escaped(h, false), place);
        let k = choose|k: int| 0 <= k < closed.len() && closed[k] == escaped(h, false);
        assert(all[n + k] == shut[k]);
    }
    if p.read_roots.contains(root) {
        let k = choose|k: int| 0 <= k < p.read_roots.len() && p.read_roots[k] == root;
        let i = n + shut.len() + k;
        assert(open[k] == rule_on("allow file-read*"@, root));
        assert(all[i] == open[k]);
        assert forall|c: int| 0 <= c < closed.len() implies closed_before(
            all,
            i,
            #[trigger] closed[c],
        ) by {
            assert(all[n + c] == shut[c]);
        }
    }
}

/// Whether a rule stands among others, behind those that close some places.
pub open spec fn stands_behind_all(
    all: Seq<Seq<char>>,
    rule: Seq<char>,
    closed: Seq<Seq<char>>,
) -> bool {
    exists|i: int|
        {
            &&& 0 <= i < all.len()
            &&& #[trigger] all[i] == rule
            &&& forall|c: int|
                0 <= c < closed.len() ==> closed_before(all, i, #[trigger] closed[c])
        }
}

/// Whether a rule that closes a place stands before another.
pub open spec fn closed_before(all: Seq<Seq<char>>, i: int, place: Seq<char>) -> bool {
    exists|j: int|
        0 <= j < i && #[trigger] all[j] == subpath_rule("deny file-read*"@, place)
}

proof fn lemma_spelled_out(place: Seq<char>)
    ensures
        subpath_rule("deny file-read*"@, place) == "(deny file-read* (subpath \""@ + place
            + "\"))"@,
{
    reveal_strlit("(");
    reveal_strlit("deny file-read*");
    reveal_strlit(" (subpath \"");
    reveal_strlit("(deny file-read* (subpath \"");
    assert("("@ + "deny file-read*"@ + " (subpath \""@ =~= "(deny file-read* (subpath \""@);
    assert(subpath_rule("deny file-read*"@, place) =~= "("@ + "deny file-read*"@ + " (subpath \""@
        + place + "\"))"@);
}

/// A text without the backslashes that escape.
pub open spec fn plain(s: Seq<char>) -> Seq<char>
    decreases s.len(),
{
    if s.len() == 0 {
        Seq::empty()
    } else if s[0] == '\\' && s.len() > 1 {
        seq![s[1]] + plain(s.skip(2))
    } else {
        seq![s[0]] + plain(s.skip(1))
    }
}

proof fn lemma_plain_add(a: Seq<char>, c: char, pattern: bool)
    ensures
        plain(escaped(a, pattern) + (if is_escaped(c, pattern) {
            seq!['\\', c]
        } else {
            seq![c]
        })) == plain(escaped(a, pattern)).push(c),
{
    lemma_plain_both(a, if is_escaped(c, pattern) {
        seq!['\\', c]
    } else {
        seq![c]
    }, pattern);
    let e = if is_escaped(c, pattern) {
        seq!['\\', c]
    } else {
        seq![c]
    };
    assert(plain(e) =~= seq![c]) by {
        assert(plain(Seq::<char>::empty()) =~= Seq::<char>::empty());
        if is_escaped(c, pattern) {
            assert(e.skip(2) =~= Seq::<char>::empty());
        } else {
            assert(e.skip(1) =~= Seq::<char>::empty());
        }
    }
    assert(plain(escaped(a, pattern)) + seq![c] =~= plain(escaped(a, pattern)).push(c));
}

proof fn lemma_plain_both(a: Seq<char>, b: Seq<char>, pattern: bool)
    ensures
        plain(escaped(a, pattern) + b) == plain(escaped(a, pattern)) + plain(b),
    decreases a.len(),
{
    let e = escaped(a, pattern);
    if a.len() == 0 {
        assert(e + b =~= b);
        assert(plain(e) + plain(b) =~= plain(b));
    } else {
        let before = escaped(a.drop_last(), pattern);
        let c = a.last();
        let tail = if is_escaped(c, pattern) {
            seq!['\\', c]
        } else {
            seq![c]
        };
        assert(e =~= before + tail);
        assert(e + b =~= before + (tail + b));
        lemma_plain_both(a.drop_last(), tail + b, pattern);
        lemma_plain_both(a.drop_last(), tail, pattern);
        if is_escaped(c, pattern) {
            assert((tail + b).skip(2) =~= b);
            assert(tail.skip(2) =~= Seq::<char>::empty());
        } else {
            assert((tail + b).skip(1) =~= b);
            assert(tail.skip(1) =~= Seq::<char>::empty());
        }
        assert(plain(Seq::<char>::empty()) =~= Seq::<char>::empty());
        assert(plain(tail) =~= seq![c]);
        assert(plain(tail + b) =~= seq![c] + plain(b));
        assert(plain(e + b) =~= plain(e) + plain(b));
    }
}

/// An escaped text says what it said: without the backslashes that escape it is as it was. So two paths
/// that are written alike are alike.
pub proof fn law_escaping_loses_nothing(s: Seq<char>, pattern: bool)
    ensures
        plain(escaped(s, pattern)) == s,
    decreases s.len(),
{
    if s.len() > 0 {
        let before = escaped(s.drop_last(), pattern);
        let c = s.last();
        law_escaping_loses_nothing(s.drop_last(), pattern);
        lemma_plain_add(s.drop_last(), c, pattern);
        assert(escaped(s, pattern) =~= before + (if is_escaped(c, pattern) {
            seq!['\\', c]
        } else {
            seq![c]
        }));
        assert(s.drop_last().push(c) =~= s);
    }
}

/// What means something in a pattern is escaped there: every dot, bracket, star and the like.
pub proof fn law_patterns_are_literal(c: char)
    ensures
        c == '.' || c == '*' || c == '+' || c == '?' || c == '(' || c == ')' || c == '[' || c == ']'
            || c == '{' || c == '}' || c == '|' || c == '^' || c == '$' || c == '\\' || c == '"'
            ==> is_escaped(c, true),
        is_escaped(c, false) <==> c == '"' || c == '\\',
{
}

/// The variables that are inherited from the host: where programs are found, the shell, the language and
/// the user; on Windows also where the system and its programs are.
pub proof fn law_which_variables_are_core()
    ensures
        core_names(false).contains("PATH"@),
        core_names(false).contains("SHELL"@),
        core_names(false).contains("LANG"@),
        core_names(false).contains("LC_ALL"@),
        core_names(false).contains("LC_CTYPE"@),
        core_names(false).contains("LOGNAME"@),
        core_names(false).contains("USER"@),
        core_names(false).len() == 7,
        core_names(true).contains("PATH"@),
        core_names(true).contains("PATHEXT"@),
        core_names(true).contains("SHELL"@),
        core_names(true).contains("COMSPEC"@),
        core_names(true).contains("SYSTEMROOT"@),
        core_names(true).contains("SYSTEMDRIVE"@),
        core_names(true).contains("USERNAME"@),
        core_names(true).contains("USERDOMAIN"@),
        core_names(true).contains("PROGRAMFILES"@),
        core_names(true).contains("PROGRAMFILES(X86)"@),
        core_names(true).contains("PROGRAMW6432"@),
        core_names(true).contains("PROGRAMDATA"@),
        core_names(true).contains("POWERSHELL"@),
        core_names(true).contains("PWSH"@),
        core_names(true).len() == 14,
{
    let u = core_names(false);
    let w = core_names(true);
    assert(u[0] == "PATH"@);
    assert(u[1] == "SHELL"@);
    assert(u[2] == "LANG"@);
    assert(u[3] == "LC_ALL"@);
    assert(u[4] == "LC_CTYPE"@);
    assert(u[5] == "LOGNAME"@);
    assert(u[6] == "USER"@);
    assert(w[0] == "PATH"@);
    assert(w[1] == "PATHEXT"@);
    assert(w[2] == "SHELL"@);
    assert(w[3] == "COMSPEC"@);
    assert(w[4] == "SYSTEMROOT"@);
    assert(w[5] == "SYSTEMDRIVE"@);
    assert(w[6] == "USERNAME"@);
    assert(w[7] == "USERDOMAIN"@);
    assert(w[8] == "PROGRAMFILES"@);
    assert(w[9] == "PROGRAMFILES(X86)"@);
    assert(w[10] == "PROGRAMW6432"@);
    assert(w[11] == "PROGRAMDATA"@);
    assert(w[12] == "POWERSHELL"@);
    assert(w[13] == "PWSH"@);
}

} // verus!
