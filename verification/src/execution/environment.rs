//! The environment of a child process: a core of the host's, and nothing secret.

use crate::execution::shell::Platform;
use crate::path::{followed, path_join, PathStyle};
use crate::protocol::permissions::EnvironmentAuthorization;
use crate::text::{contains, lemma_texts_push, lowered, occurs, same_ignoring_case, texts, to_lower};
use vstd::prelude::*;

verus! {

broadcast use lemma_texts_push;

/// The variables that are inherited.
pub open spec fn core_names(windows: bool) -> Seq<Seq<char>> {
    if windows {
        seq![
            "PATH"@,
            "PATHEXT"@,
            "SHELL"@,
            "COMSPEC"@,
            "SYSTEMROOT"@,
            "SYSTEMDRIVE"@,
            "USERNAME"@,
            "USERDOMAIN"@,
            "PROGRAMFILES"@,
            "PROGRAMFILES(X86)"@,
            "PROGRAMW6432"@,
            "PROGRAMDATA"@,
            "POWERSHELL"@,
            "PWSH"@,
        ]
    } else {
        seq!["PATH"@, "SHELL"@, "LANG"@, "LC_ALL"@, "LC_CTYPE"@, "LOGNAME"@, "USER"@]
    }
}

fn core_variables(windows: bool) -> (r: Vec<String>)
    ensures
        texts(r@) == core_names(windows),
{
    let mut r: Vec<String> = Vec::new();
    if windows {
        r.push("PATH".to_owned());
        r.push("PATHEXT".to_owned());
        r.push("SHELL".to_owned());
        r.push("COMSPEC".to_owned());
        r.push("SYSTEMROOT".to_owned());
        r.push("SYSTEMDRIVE".to_owned());
        r.push("USERNAME".to_owned());
        r.push("USERDOMAIN".to_owned());
        r.push("PROGRAMFILES".to_owned());
        r.push("PROGRAMFILES(X86)".to_owned());
        r.push("PROGRAMW6432".to_owned());
        r.push("PROGRAMDATA".to_owned());
        r.push("POWERSHELL".to_owned());
        r.push("PWSH".to_owned());
    } else {
        r.push("PATH".to_owned());
        r.push("SHELL".to_owned());
        r.push("LANG".to_owned());
        r.push("LC_ALL".to_owned());
        r.push("LC_CTYPE".to_owned());
        r.push("LOGNAME".to_owned());
        r.push("USER".to_owned());
    }
    assert(texts(r@) =~= core_names(windows));
    r
}

/// Whether a list holds a text, whatever its case.
pub open spec fn holds_ignoring_case(list: Seq<Seq<char>>, s: Seq<char>) -> bool {
    exists|i: int| 0 <= i < list.len() && lowered(#[trigger] list[i]) == lowered(s)
}

fn is_among(list: &Vec<String>, s: &str) -> (r: bool)
    ensures
        r == holds_ignoring_case(texts(list@), s@),
{
    let mut i: usize = 0;
    while i < list.len()
        invariant
            i <= list@.len(),
            forall|k: int| 0 <= k < i ==> lowered(#[trigger] texts(list@)[k]) != lowered(s@),
        decreases list.len() - i,
    {
        assert(texts(list@)[i as int] == list@[i as int]@);
        if same_ignoring_case(list[i].as_str(), s) {
            return true;
        }
        i = i + 1;
    }
    false
}

/// Whether a name holds a denied fragment, whatever the case of both.
pub open spec fn denied(name: Seq<char>, fragments: Seq<Seq<char>>) -> bool {
    exists|i: int| 0 <= i < fragments.len() && occurs(lowered(name), lowered(#[trigger] fragments[i]))
}

/// Whether a name holds a denied fragment.
pub fn denied_name(name: &str, deny_fragments: &Vec<String>) -> (r: bool)
    ensures
        r == denied(name@, texts(deny_fragments@)),
{
    let low = to_lower(name);
    let mut i: usize = 0;
    while i < deny_fragments.len()
        invariant
            i <= deny_fragments@.len(),
            low@ == lowered(name@),
            forall|k: int|
                0 <= k < i ==> !occurs(
                    lowered(name@),
                    lowered(#[trigger] texts(deny_fragments@)[k]),
                ),
        decreases deny_fragments.len() - i,
    {
        assert(texts(deny_fragments@)[i as int] == deny_fragments@[i as int]@);
        let fragment = to_lower(deny_fragments[i].as_str());
        if contains(low.as_str(), fragment.as_str()) {
            return true;
        }
        i = i + 1;
    }
    false
}

/// A variable: its name and its value.
pub type Variable = (Seq<char>, Seq<char>);

/// The values of variables.
pub open spec fn variables(list: Seq<(String, String)>) -> Seq<Variable> {
    Seq::new(list.len(), |i: int| (list[i].0@, list[i].1@))
}

/// The place of a name, whatever its case; the number of variables where it has none.
pub open spec fn variable_place(list: Seq<Variable>, name: Seq<char>) -> int
    decreases list.len(),
{
    if list.len() == 0 || lowered(list[0].0) == lowered(name) {
        0
    } else {
        1 + variable_place(list.drop_first(), name)
    }
}

proof fn lemma_variable_place(list: Seq<Variable>, name: Seq<char>, at: int)
    requires
        0 <= at <= list.len(),
        forall|i: int| 0 <= i < at ==> lowered((#[trigger] list[i]).0) != lowered(name),
        at < list.len() ==> lowered(list[at].0) == lowered(name),
    ensures
        variable_place(list, name) == at,
    decreases list.len(),
{
    if at > 0 {
        let rest = list.drop_first();
        assert(lowered(list[0].0) != lowered(name));
        assert forall|i: int| 0 <= i < at - 1 implies lowered((#[trigger] rest[i]).0) != lowered(
            name,
        ) by {
            assert(rest[i] == list[i + 1]);
        }
        lemma_variable_place(rest, name, at - 1);
    }
}

proof fn lemma_place_bounds(list: Seq<Variable>, name: Seq<char>)
    ensures
        0 <= variable_place(list, name) <= list.len(),
        forall|i: int|
            0 <= i < variable_place(list, name) ==> lowered((#[trigger] list[i]).0) != lowered(
                name,
            ),
        variable_place(list, name) < list.len() ==> lowered(list[variable_place(list, name)].0)
            == lowered(name),
    decreases list.len(),
{
    if list.len() > 0 && lowered(list[0].0) != lowered(name) {
        let rest = list.drop_first();
        lemma_place_bounds(rest, name);
        assert forall|i: int| 0 <= i < variable_place(list, name) implies lowered(
            (#[trigger] list[i]).0,
        ) != lowered(name) by {
            if i > 0 {
                assert(rest[i - 1] == list[i]);
            }
        }
    }
}

/// Variables with one set, in place of that of the same name in any case.
pub open spec fn with_variable(list: Seq<Variable>, name: Seq<char>, value: Seq<char>) -> Seq<
    Variable,
> {
    let at = variable_place(list, name);
    (if at < list.len() {
        list.remove(at)
    } else {
        list
    }).push((name, value))
}

fn find_variable(list: &Vec<(String, String)>, name: &str) -> (r: usize)
    ensures
        r == variable_place(variables(list@), name@),
        r <= list@.len(),
{
    let mut i: usize = 0;
    while i < list.len()
        invariant
            i <= list@.len(),
            forall|k: int|
                0 <= k < i ==> lowered((#[trigger] variables(list@)[k]).0) != lowered(name@),
        decreases list.len() - i,
    {
        assert(variables(list@)[i as int].0 == list@[i as int].0@);
        if same_ignoring_case(list[i].0.as_str(), name) {
            proof {
                lemma_variable_place(variables(list@), name@, i as int);
            }
            return i;
        }
        i = i + 1;
    }
    proof {
        lemma_variable_place(variables(list@), name@, i as int);
    }
    i
}

/// Sets a variable, in place of that of the same name in any case.
pub fn insert_case_insensitive(list: &mut Vec<(String, String)>, key: String, value: String)
    ensures
        variables(final(list)@) == with_variable(variables(old(list)@), key@, value@),
{
    let ghost before = variables(list@);
    let at = find_variable(list, key.as_str());
    if at < list.len() {
        list.remove(at);
        assert(variables(list@) =~= before.remove(at as int));
    }
    let ghost middle = variables(list@);
    list.push((key, value));
    assert(variables(list@) =~= middle.push((key@, value@)));
}

/// What is inherited of the host's variables.
pub open spec fn inherited(
    host: Seq<Variable>,
    windows: bool,
    fragments: Seq<Seq<char>>,
) -> Seq<Variable>
    decreases host.len(),
{
    if host.len() == 0 {
        Seq::empty()
    } else {
        let before = inherited(host.drop_last(), windows, fragments);
        let (name, value) = host.last();
        if holds_ignoring_case(core_names(windows), name) && !denied(name, fragments) {
            with_variable(before, name, value)
        } else {
            before
        }
    }
}

/// Variables with those of a list set, but for those with a denied name.
pub open spec fn overridden(
    list: Seq<Variable>,
    overrides: Seq<Variable>,
    fragments: Seq<Seq<char>>,
) -> Seq<Variable>
    decreases overrides.len(),
{
    if overrides.len() == 0 {
        list
    } else {
        let before = overridden(list, overrides.drop_last(), fragments);
        let (name, value) = overrides.last();
        if denied(name, fragments) {
            before
        } else {
            with_variable(before, name, value)
        }
    }
}

/// Variables with those of the sandbox set: its own home and directory of temporary files.
pub open spec fn sandboxed(
    list: Seq<Variable>,
    platform: Platform,
    home: Seq<char>,
    tmp: Seq<char>,
) -> Seq<Variable> {
    let base = with_variable(
        with_variable(
            with_variable(with_variable(list, "HOME"@, home), "TMPDIR"@, tmp),
            "TMP"@,
            tmp,
        ),
        "TEMP"@,
        tmp,
    );
    match platform {
        Platform::Windows => with_variable(base, "USERPROFILE"@, home),
        Platform::Other => base,
        _ => with_variable(base, "TMPPREFIX"@, followed(PathStyle::Unix, tmp, "shell"@)),
    }
}

/// Variables with a language.
pub open spec fn with_language(list: Seq<Variable>) -> Seq<Variable> {
    if variable_place(list, "LANG"@) < list.len() {
        list
    } else {
        list.push(("LANG"@, "C.UTF-8"@))
    }
}

/// The environment of a child process.
pub open spec fn child_variables(
    platform: Platform,
    inherit_core: bool,
    fragments: Seq<Seq<char>>,
    host: Seq<Variable>,
    home: Seq<char>,
    tmp: Seq<char>,
    overrides: Seq<Variable>,
) -> Seq<Variable> {
    let core = if inherit_core {
        inherited(host, platform == Platform::Windows, fragments)
    } else {
        Seq::empty()
    };
    overridden(with_language(sandboxed(core, platform, home, tmp)), overrides, fragments)
}

fn inherit(host: &Vec<(String, String)>, windows: bool, fragments: &Vec<String>) -> (r: Vec<
    (String, String),
>)
    ensures
        variables(r@) == inherited(variables(host@), windows, texts(fragments@)),
{
    let core = core_variables(windows);
    let ghost all = variables(host@);
    let mut r: Vec<(String, String)> = Vec::new();
    let mut i: usize = 0;
    assert(variables(r@) =~= Seq::<Variable>::empty());
    assert(all.take(0) =~= Seq::<Variable>::empty());
    while i < host.len()
        invariant
            i <= host@.len(),
            all == variables(host@),
            texts(core@) == core_names(windows),
            variables(r@) == inherited(all.take(i as int), windows, texts(fragments@)),
        decreases host.len() - i,
    {
        assert(all.take(i + 1).drop_last() =~= all.take(i as int));
        assert(all.take(i + 1).last() == (host@[i as int].0@, host@[i as int].1@));
        let name = host[i].0.as_str();
        if is_among(&core, name) && !denied_name(name, fragments) {
            insert_case_insensitive(&mut r, host[i].0.clone(), host[i].1.clone());
        }
        i = i + 1;
    }
    assert(all.take(i as int) =~= all);
    r
}

/// Makes the environment of a child process, given the host's.
pub fn child_environment(
    platform: Platform,
    policy: &EnvironmentAuthorization,
    host: &Vec<(String, String)>,
    sandbox_home: &str,
    sandbox_tmp: &str,
    overrides: &Vec<(String, String)>,
) -> (r: Vec<(String, String)>)
    ensures
        variables(r@) == child_variables(
            platform,
            policy.inherit_core,
            texts(policy.deny_name_fragments@),
            variables(host@),
            sandbox_home@,
            sandbox_tmp@,
            variables(overrides@),
        ),
{
    let mut r: Vec<(String, String)> = if policy.inherit_core {
        inherit(host, platform == Platform::Windows, &policy.deny_name_fragments)
    } else {
        let none: Vec<(String, String)> = Vec::new();
        assert(variables(none@) =~= Seq::<Variable>::empty());
        none
    };
    insert_case_insensitive(&mut r, "HOME".to_owned(), sandbox_home.to_owned());
    insert_case_insensitive(&mut r, "TMPDIR".to_owned(), sandbox_tmp.to_owned());
    insert_case_insensitive(&mut r, "TMP".to_owned(), sandbox_tmp.to_owned());
    insert_case_insensitive(&mut r, "TEMP".to_owned(), sandbox_tmp.to_owned());
    match platform {
        Platform::Windows => {
            insert_case_insensitive(&mut r, "USERPROFILE".to_owned(), sandbox_home.to_owned());
        },
        Platform::Other => {},
        _ => {
            insert_case_insensitive(
                &mut r,
                "TMPPREFIX".to_owned(),
                path_join(PathStyle::Unix, sandbox_tmp, "shell"),
            );
        },
    }
    if find_variable(&r, "LANG") >= r.len() {
        let ghost before = variables(r@);
        r.push(("LANG".to_owned(), "C.UTF-8".to_owned()));
        assert(variables(r@) =~= before.push(("LANG"@, "C.UTF-8"@)));
    }
    let ghost base = variables(r@);
    let ghost all = variables(overrides@);
    let mut i: usize = 0;
    assert(all.take(0) =~= Seq::<Variable>::empty());
    while i < overrides.len()
        invariant
            i <= overrides@.len(),
            all == variables(overrides@),
            variables(r@) == overridden(
                base,
                all.take(i as int),
                texts(policy.deny_name_fragments@),
            ),
        decreases overrides.len() - i,
    {
        assert(all.take(i + 1).drop_last() =~= all.take(i as int));
        assert(all.take(i + 1).last() == (overrides@[i as int].0@, overrides@[i as int].1@));
        if !denied_name(overrides[i].0.as_str(), &policy.deny_name_fragments) {
            insert_case_insensitive(&mut r, overrides[i].0.clone(), overrides[i].1.clone());
        }
        i = i + 1;
    }
    assert(all.take(i as int) =~= all);
    r
}

/// Whether no name occurs twice, whatever its case.
pub open spec fn distinct_names(list: Seq<Variable>) -> bool {
    forall|i: int, j: int|
        0 <= i < j < list.len() ==> lowered((#[trigger] list[i]).0) != lowered((#[trigger] list[j]).0)
}

/// The variables that a sandbox sets itself.
pub open spec fn is_own_name(name: Seq<char>) -> bool {
    name == "HOME"@ || name == "TMPDIR"@ || name == "TMP"@ || name == "TEMP"@ || name
        == "TMPPREFIX"@ || name == "USERPROFILE"@ || name == "LANG"@
}

/// Whether every name is one that the sandbox sets itself or holds no denied fragment.
pub open spec fn only_allowed(list: Seq<Variable>, fragments: Seq<Seq<char>>) -> bool {
    forall|i: int|
        0 <= i < list.len() ==> is_own_name((#[trigger] list[i]).0) || !denied(
            list[i].0,
            fragments,
        )
}

proof fn lemma_with_variable(
    list: Seq<Variable>,
    name: Seq<char>,
    value: Seq<char>,
    fragments: Seq<Seq<char>>,
)
    requires
        distinct_names(list),
        only_allowed(list, fragments),
        is_own_name(name) || !denied(name, fragments),
    ensures
        distinct_names(with_variable(list, name, value)),
        only_allowed(with_variable(list, name, value), fragments),
{
    lemma_place_bounds(list, name);
    let at = variable_place(list, name);
    let left = if at < list.len() {
        list.remove(at)
    } else {
        list
    };
    assert forall|i: int| 0 <= i < left.len() implies (exists|k: int|
        0 <= k < list.len() && k != at && list[k] == (#[trigger] left[i]) && (k == i || k == i
            + 1) && (k == i <==> i < at)) by {
        let k = if i < at {
            i
        } else {
            i + 1
        };
        assert(list[k] == left[i]);
    }
    let all = left.push((name, value));
    assert forall|i: int, j: int| 0 <= i < j < all.len() implies lowered((#[trigger] all[i]).0)
        != lowered((#[trigger] all[j]).0) by {
        let a = if i < at {
            i
        } else {
            i + 1
        };
        assert(left[i] == list[a]);
        if j < left.len() {
            let b = if j < at {
                j
            } else {
                j + 1
            };
            assert(left[j] == list[b]);
        } else {
            if at < list.len() {
                if a < at {
                    assert(lowered(list[a].0) != lowered(list[at].0));
                } else {
                    assert(lowered(list[at].0) != lowered(list[a].0));
                }
            } else {
                assert(lowered(list[a].0) != lowered(name));
            }
        }
    }
    assert forall|i: int| 0 <= i < all.len() implies is_own_name((#[trigger] all[i]).0) || !denied(
        all[i].0,
        fragments,
    ) by {
        if i < left.len() {
            let a = if i < at {
                i
            } else {
                i + 1
            };
            assert(left[i] == list[a]);
        }
    }
}

proof fn lemma_inherited(host: Seq<Variable>, windows: bool, fragments: Seq<Seq<char>>)
    ensures
        distinct_names(inherited(host, windows, fragments)),
        only_allowed(inherited(host, windows, fragments), fragments),
    decreases host.len(),
{
    if host.len() > 0 {
        lemma_inherited(host.drop_last(), windows, fragments);
        let (name, value) = host.last();
        if holds_ignoring_case(core_names(windows), name) && !denied(name, fragments) {
            lemma_with_variable(
                inherited(host.drop_last(), windows, fragments),
                name,
                value,
                fragments,
            );
        }
    }
}

proof fn lemma_overridden(
    list: Seq<Variable>,
    overrides: Seq<Variable>,
    fragments: Seq<Seq<char>>,
)
    requires
        distinct_names(list),
        only_allowed(list, fragments),
    ensures
        distinct_names(overridden(list, overrides, fragments)),
        only_allowed(overridden(list, overrides, fragments), fragments),
    decreases overrides.len(),
{
    if overrides.len() > 0 {
        lemma_overridden(list, overrides.drop_last(), fragments);
        let (name, value) = overrides.last();
        if !denied(name, fragments) {
            lemma_with_variable(
                overridden(list, overrides.drop_last(), fragments),
                name,
                value,
                fragments,
            );
        }
    }
}

/// A child process gets no variable whose name holds a denied fragment, but for those that the
/// sandbox sets itself, and none twice, whatever the host has and whatever is asked for.
pub proof fn law_no_secret_is_passed_on(
    platform: Platform,
    inherit_core: bool,
    fragments: Seq<Seq<char>>,
    host: Seq<Variable>,
    home: Seq<char>,
    tmp: Seq<char>,
    overrides: Seq<Variable>,
)
    ensures
        ({
            let all = child_variables(
                platform,
                inherit_core,
                fragments,
                host,
                home,
                tmp,
                overrides,
            );
            distinct_names(all) && only_allowed(all, fragments)
        }),
{
    let core = if inherit_core {
        inherited(host, platform == Platform::Windows, fragments)
    } else {
        Seq::empty()
    };
    lemma_inherited(host, platform == Platform::Windows, fragments);
    let a = with_variable(core, "HOME"@, home);
    lemma_with_variable(core, "HOME"@, home, fragments);
    let b = with_variable(a, "TMPDIR"@, tmp);
    lemma_with_variable(a, "TMPDIR"@, tmp, fragments);
    let c = with_variable(b, "TMP"@, tmp);
    lemma_with_variable(b, "TMP"@, tmp, fragments);
    let d = with_variable(c, "TEMP"@, tmp);
    lemma_with_variable(c, "TEMP"@, tmp, fragments);
    lemma_with_variable(d, "USERPROFILE"@, home, fragments);
    lemma_with_variable(d, "TMPPREFIX"@, followed(PathStyle::Unix, tmp, "shell"@), fragments);
    let e = sandboxed(core, platform, home, tmp);
    lemma_place_bounds(e, "LANG"@);
    let f = with_language(e);
    assert(distinct_names(f) && only_allowed(f, fragments)) by {
        if variable_place(e, "LANG"@) >= e.len() {
            assert forall|i: int| 0 <= i < e.len() implies #[trigger] f[i] == e[i] by {}
        }
    }
    lemma_overridden(f, overrides, fragments);
}

/// Whether a variable is one that the sandbox sets itself.
pub open spec fn is_own(v: Variable, platform: Platform, home: Seq<char>, tmp: Seq<char>) -> bool {
    ||| v == ("HOME"@, home)
    ||| v == ("TMPDIR"@, tmp)
    ||| v == ("TMP"@, tmp)
    ||| v == ("TEMP"@, tmp)
    ||| v == ("LANG"@, "C.UTF-8"@)
    ||| platform == Platform::Windows && v == ("USERPROFILE"@, home)
    ||| platform != Platform::Windows && platform != Platform::Other && v == (
        "TMPPREFIX"@,
        followed(PathStyle::Unix, tmp, "shell"@),
    )
}

/// Whether a variable is the sandbox's own, one that is asked for, or a core variable of the host.
pub open spec fn has_source(
    v: Variable,
    platform: Platform,
    inherit_core: bool,
    fragments: Seq<Seq<char>>,
    host: Seq<Variable>,
    home: Seq<char>,
    tmp: Seq<char>,
    overrides: Seq<Variable>,
) -> bool {
    ||| is_own(v, platform, home, tmp)
    ||| overrides.contains(v) && !denied(v.0, fragments)
    ||| inherit_core && host.contains(v) && holds_ignoring_case(
        core_names(platform == Platform::Windows),
        v.0,
    ) && !denied(v.0, fragments)
}

proof fn lemma_with_variable_holds(
    list: Seq<Variable>,
    name: Seq<char>,
    value: Seq<char>,
    v: Variable,
)
    requires
        with_variable(list, name, value).contains(v),
    ensures
        list.contains(v) || v == (name, value),
{
    lemma_place_bounds(list, name);
    let at = variable_place(list, name);
    let left = if at < list.len() {
        list.remove(at)
    } else {
        list
    };
    let all = left.push((name, value));
    let k = choose|k: int| 0 <= k < all.len() && all[k] == v;
    if k < left.len() {
        let a = if k < at {
            k
        } else {
            k + 1
        };
        if at < list.len() {
            assert(left[k] == list[a]);
        } else {
            assert(left[k] == list[k]);
        }
    }
}

proof fn lemma_inherited_holds(
    host: Seq<Variable>,
    windows: bool,
    fragments: Seq<Seq<char>>,
    v: Variable,
)
    requires
        inherited(host, windows, fragments).contains(v),
    ensures
        host.contains(v),
        holds_ignoring_case(core_names(windows), v.0),
        !denied(v.0, fragments),
    decreases host.len(),
{
    if host.len() > 0 {
        let before = inherited(host.drop_last(), windows, fragments);
        let (name, value) = host.last();
        if holds_ignoring_case(core_names(windows), name) && !denied(name, fragments) {
            lemma_with_variable_holds(before, name, value, v);
        }
        if before.contains(v) {
            lemma_inherited_holds(host.drop_last(), windows, fragments, v);
            let k = choose|k: int| 0 <= k < host.drop_last().len() && host.drop_last()[k] == v;
            assert(host[k] == v);
        } else {
            assert(host[host.len() - 1] == v);
        }
    }
}

proof fn lemma_overridden_holds(
    list: Seq<Variable>,
    overrides: Seq<Variable>,
    fragments: Seq<Seq<char>>,
    v: Variable,
)
    requires
        overridden(list, overrides, fragments).contains(v),
    ensures
        list.contains(v) || (overrides.contains(v) && !denied(v.0, fragments)),
    decreases overrides.len(),
{
    if overrides.len() > 0 {
        let before = overridden(list, overrides.drop_last(), fragments);
        let (name, value) = overrides.last();
        if !denied(name, fragments) {
            lemma_with_variable_holds(before, name, value, v);
        }
        if before.contains(v) {
            lemma_overridden_holds(list, overrides.drop_last(), fragments, v);
            if !list.contains(v) {
                let less = overrides.drop_last();
                let k = choose|k: int| 0 <= k < less.len() && less[k] == v;
                assert(overrides[k] == v);
            }
        } else {
            assert(overrides[overrides.len() - 1] == v);
        }
    }
}

/// Every variable of a child process is the sandbox's own, with the value that the sandbox gives it,
/// one that is asked for, or a core variable of the host where these are inherited.
pub proof fn law_every_variable_has_a_source(
    platform: Platform,
    inherit_core: bool,
    fragments: Seq<Seq<char>>,
    host: Seq<Variable>,
    home: Seq<char>,
    tmp: Seq<char>,
    overrides: Seq<Variable>,
    v: Variable,
)
    requires
        child_variables(platform, inherit_core, fragments, host, home, tmp, overrides).contains(v),
    ensures
        has_source(v, platform, inherit_core, fragments, host, home, tmp, overrides),
{
    let windows = platform == Platform::Windows;
    let core = if inherit_core {
        inherited(host, windows, fragments)
    } else {
        Seq::empty()
    };
    let a = with_variable(core, "HOME"@, home);
    let b = with_variable(a, "TMPDIR"@, tmp);
    let c = with_variable(b, "TMP"@, tmp);
    let d = with_variable(c, "TEMP"@, tmp);
    let e = sandboxed(core, platform, home, tmp);
    let f = with_language(e);
    lemma_overridden_holds(f, overrides, fragments, v);
    if f.contains(v) && v != ("LANG"@, "C.UTF-8"@) {
        let k = choose|k: int| 0 <= k < f.len() && f[k] == v;
        assert(e[k] == v);
        assert(e.contains(v));
        if !d.contains(v) {
            match platform {
                Platform::Windows => lemma_with_variable_holds(d, "USERPROFILE"@, home, v),
                Platform::Other => {},
                _ => lemma_with_variable_holds(
                    d,
                    "TMPPREFIX"@,
                    followed(PathStyle::Unix, tmp, "shell"@),
                    v,
                ),
            }
        } else {
            lemma_with_variable_holds(c, "TEMP"@, tmp, v);
            if c.contains(v) {
                lemma_with_variable_holds(b, "TMP"@, tmp, v);
                if b.contains(v) {
                    lemma_with_variable_holds(a, "TMPDIR"@, tmp, v);
                    if a.contains(v) {
                        lemma_with_variable_holds(core, "HOME"@, home, v);
                        if core.contains(v) {
                            lemma_inherited_holds(host, windows, fragments, v);
                        }
                    }
                }
            }
        }
    }
}

} // verus!
