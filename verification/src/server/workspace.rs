//! Projects and the directories that they work in.

use crate::path::{absolute, followed, is_absolute, is_same_path, parts, path_join, PathStyle};
use crate::protocol::ids::Timestamp;
use crate::protocol::project::{attachment_fault, Project, WorkspaceAttachment};
use crate::server::api::{ApiError, StoreErrorKind, BAD_REQUEST};
use crate::server::sessions::StoreFault;
use crate::text::{
    chars_of, decimal, is_blank, is_white, number, text_of, texts, trim, trimmed, white,
};
use vstd::prelude::*;

verus! {

/// The name of a new Project.
pub fn project_name(name: &str) -> (r: Result<String, ApiError>)
    ensures
        match r {
            Ok(n) => trimmed(name@).len() > 0 && n@ == trimmed(name@),
            Err(e) => trimmed(name@).len() == 0 && e.says(
                BAD_REQUEST,
                "Project name must not be empty"@,
            ),
        },
{
    if is_blank(name) {
        return Err(ApiError::bad_request("Project name must not be empty".to_owned()));
    }
    Ok(trim(name))
}

/// Whether a character is a control character.
pub open spec fn control(c: char) -> bool {
    (c as u32) < 0x20 || 0x7f <= (c as u32) <= 0x9f
}

/// Whether a character cannot stand in the name of a directory.
pub open spec fn forbidden(c: char) -> bool {
    ||| control(c)
    ||| c == '<'
    ||| c == '>'
    ||| c == ':'
    ||| c == '"'
    ||| c == '/'
    ||| c == '\\'
    ||| c == '|'
    ||| c == '?'
    ||| c == '*'
}

fn is_forbidden(c: char) -> (r: bool)
    ensures
        r == forbidden(c),
{
    let n = c as u32;
    n < 0x20 || (0x7f <= n && n <= 0x9f) || c == '<' || c == '>' || c == ':' || c == '"' || c == '/'
        || c == '\\' || c == '|' || c == '?' || c == '*'
}

/// A name in which a dash stands for each run of characters that cannot stand in it.
pub open spec fn dashed(s: Seq<char>) -> Seq<char>
    decreases s.len(),
{
    if s.len() == 0 {
        Seq::empty()
    } else {
        let before = dashed(s.drop_last());
        if !forbidden(s.last()) {
            before.push(s.last())
        } else if before.len() > 0 && before.last() == '-' {
            before
        } else {
            before.push('-')
        }
    }
}

/// Whether a character is left out at the ends of a name.
pub open spec fn edge(c: char) -> bool {
    white(c) || c == '.' || c == '-'
}

/// A name without the edge characters that it begins with.
pub open spec fn without_head(s: Seq<char>) -> Seq<char>
    decreases s.len(),
{
    if s.len() > 0 && edge(s[0]) {
        without_head(s.drop_first())
    } else {
        s
    }
}

/// A name without the edge characters that it ends with.
pub open spec fn without_tail(s: Seq<char>) -> Seq<char>
    decreases s.len(),
{
    if s.len() > 0 && edge(s.last()) {
        without_tail(s.drop_last())
    } else {
        s
    }
}

/// The longest name of a directory, in characters.
pub const MAX_DIRECTORY_NAME: usize = 80;

/// The beginning of a name.
pub open spec fn shortened(s: Seq<char>) -> Seq<char> {
    if s.len() <= MAX_DIRECTORY_NAME {
        s
    } else {
        s.take(MAX_DIRECTORY_NAME as int)
    }
}

/// The name of the directory of a Project.
pub open spec fn directory_name(project: Seq<char>) -> Seq<char> {
    let name = without_tail(without_head(dashed(shortened(trimmed(project)))));
    if name.len() == 0 {
        "Project"@
    } else {
        name
    }
}

proof fn lemma_head_is_dropped(s: Seq<char>, n: int)
    requires
        0 <= n <= s.len(),
        forall|i: int| 0 <= i < n ==> edge(#[trigger] s[i]),
        n < s.len() ==> !edge(s[n]),
    ensures
        without_head(s) == s.skip(n),
    decreases n,
{
    if n > 0 {
        let rest = s.drop_first();
        assert forall|i: int| 0 <= i < n - 1 implies edge(#[trigger] rest[i]) by {
            assert(rest[i] == s[i + 1]);
        }
        assert(edge(s[0]));
        if n < s.len() {
            assert(rest[n - 1] == s[n]);
        }
        lemma_head_is_dropped(rest, n - 1);
        assert(rest.skip(n - 1) =~= s.skip(n));
    } else {
        assert(s.skip(0) =~= s);
    }
}

proof fn lemma_tail_is_dropped(s: Seq<char>, n: int)
    requires
        0 <= n <= s.len(),
        forall|i: int| n <= i < s.len() ==> edge(#[trigger] s[i]),
        n > 0 ==> !edge(s[n - 1]),
    ensures
        without_tail(s) == s.take(n),
    decreases s.len() - n,
{
    if n < s.len() {
        let rest = s.drop_last();
        assert forall|i: int| n <= i < rest.len() implies edge(#[trigger] rest[i]) by {
            assert(rest[i] == s[i]);
        }
        assert(edge(s[s.len() - 1]));
        if n > 0 {
            assert(rest[n - 1] == s[n - 1]);
        }
        lemma_tail_is_dropped(rest, n);
        assert(rest.take(n) =~= s.take(n));
    } else {
        assert(s.take(n) =~= s);
    }
}

fn is_edge(c: char) -> (r: bool)
    ensures
        r == edge(c),
{
    is_white(c) || c == '.' || c == '-'
}

fn trim_edges(s: &Vec<char>) -> (r: Vec<char>)
    ensures
        r@ == without_tail(without_head(s@)),
{
    let mut from: usize = 0;
    while from < s.len() && is_edge(s[from])
        invariant
            from <= s@.len(),
            forall|i: int| 0 <= i < from ==> edge(#[trigger] s@[i]),
        decreases s.len() - from,
    {
        from = from + 1;
    }
    proof {
        lemma_head_is_dropped(s@, from as int);
    }
    let ghost rest = s@.skip(from as int);
    let mut to: usize = s.len();
    while to > from && is_edge(s[to - 1])
        invariant
            from <= to <= s@.len(),
            rest == s@.skip(from as int),
            forall|i: int| to - from <= i < rest.len() ==> edge(#[trigger] rest[i]),
        decreases to,
    {
        assert(rest[to - 1 - from] == s@[to - 1]);
        to = to - 1;
    }
    proof {
        if to > from {
            assert(rest[to - from - 1] == s@[to - 1]);
        }
        lemma_tail_is_dropped(rest, to - from);
    }
    let mut r: Vec<char> = Vec::new();
    let mut i: usize = from;
    while i < to
        invariant
            from <= i <= to <= s@.len(),
            rest == s@.skip(from as int),
            r@ == rest.take(i - from),
        decreases to - i,
    {
        r.push(s[i]);
        assert(rest.take(i + 1 - from) =~= rest.take(i - from).push(s@[i as int]));
        i = i + 1;
    }
    r
}

fn dash(chars: &Vec<char>, n: usize) -> (r: Vec<char>)
    requires
        n <= chars@.len(),
    ensures
        r@ == dashed(chars@.take(n as int)),
{
    let mut r: Vec<char> = Vec::new();
    let mut i: usize = 0;
    assert(chars@.take(0) =~= Seq::<char>::empty());
    while i < n
        invariant
            i <= n <= chars@.len(),
            r@ == dashed(chars@.take(i as int)),
        decreases n - i,
    {
        let c = chars[i];
        assert(chars@.take(i + 1).drop_last() =~= chars@.take(i as int));
        if !is_forbidden(c) {
            r.push(c);
        } else {
            let k: usize = r.len();
            if k == 0 || r[k - 1] != '-' {
                r.push('-');
            }
        }
        i = i + 1;
    }
    r
}

/// The name of the directory of a Project.
pub fn default_workspace_directory_name(project_name: &str) -> (r: String)
    ensures
        r@ == directory_name(project_name@),
{
    let name = trim(project_name);
    let chars = chars_of(name.as_str());
    let n: usize = if chars.len() < MAX_DIRECTORY_NAME {
        chars.len()
    } else {
        MAX_DIRECTORY_NAME
    };
    assert(chars@.take(n as int) =~= shortened(trimmed(project_name@)));
    let safe = dash(&chars, n);
    let short = trim_edges(&safe);
    if short.len() == 0 {
        "Project".to_owned()
    } else {
        text_of(short.as_slice())
    }
}

proof fn lemma_dashed_is_safe(s: Seq<char>)
    ensures
        forall|i: int| 0 <= i < dashed(s).len() ==> !forbidden(#[trigger] dashed(s)[i]),
        dashed(s).len() <= s.len(),
    decreases s.len(),
{
    if s.len() > 0 {
        lemma_dashed_is_safe(s.drop_last());
    }
}

proof fn lemma_ends_are_part(s: Seq<char>)
    ensures
        exists|from: int, to: int|
            0 <= from <= to <= s.len() && #[trigger] s.subrange(from, to) == without_tail(
                without_head(s),
            ),
        without_tail(without_head(s)).len() > 0 ==> !edge(without_tail(without_head(s))[0])
            && !edge(without_tail(without_head(s)).last()),
{
    lemma_head_is_part(s);
    let h = without_head(s);
    lemma_tail_is_part(h);
    let t = without_tail(h);
    let from = s.len() - h.len();
    assert(s.subrange(from, from + t.len()) =~= t);
    if t.len() > 0 {
        assert(t[0] == h[0]);
    }
}

proof fn lemma_head_is_part(s: Seq<char>)
    ensures
        without_head(s).len() <= s.len(),
        without_head(s) == s.skip(s.len() - without_head(s).len()),
        without_head(s).len() > 0 ==> !edge(without_head(s)[0]),
    decreases s.len(),
{
    if s.len() > 0 && edge(s[0]) {
        lemma_head_is_part(s.drop_first());
        let h = without_head(s);
        assert(s.skip(s.len() - h.len()) =~= s.drop_first().skip(s.len() - 1 - h.len()));
    } else {
        assert(s.skip(0) =~= s);
    }
}

proof fn lemma_tail_is_part(s: Seq<char>)
    ensures
        without_tail(s).len() <= s.len(),
        without_tail(s) == s.take(without_tail(s).len() as int),
        without_tail(s).len() > 0 ==> !edge(without_tail(s).last()),
    decreases s.len(),
{
    if s.len() > 0 && edge(s.last()) {
        lemma_tail_is_part(s.drop_last());
        let t = without_tail(s);
        assert(s.take(t.len() as int) =~= s.drop_last().take(t.len() as int));
    } else {
        assert(s.take(s.len() as int) =~= s);
    }
}

/// The name of a Project's directory is a plain name: it is not empty, holds no separator and no
/// other character that a file system refuses, is never `.` or `..`, and is no longer than the
/// longest name.
pub proof fn law_directory_names_are_plain(project: Seq<char>)
    ensures
        0 < directory_name(project).len() <= MAX_DIRECTORY_NAME,
        forall|i: int|
            0 <= i < directory_name(project).len() ==> !forbidden(
                #[trigger] directory_name(project)[i],
            ),
        directory_name(project)[0] != '.',
        directory_name(project).last() != '.',
{
    reveal_strlit("Project");
    let s = dashed(shortened(trimmed(project)));
    lemma_dashed_is_safe(shortened(trimmed(project)));
    lemma_ends_are_part(s);
    let t = without_tail(without_head(s));
    let (from, to) = choose|from: int, to: int|
        0 <= from <= to <= s.len() && #[trigger] s.subrange(from, to) == t;
    assert forall|i: int| 0 <= i < t.len() implies !forbidden(#[trigger] t[i]) by {
        assert(t[i] == s.subrange(from, to)[i]);
        assert(t[i] == s[from + i]);
    }
}

/// The directories that are tried for a Project: the one with its name, then those with a number
/// behind the name.
pub open spec fn candidate_path(
    style: PathStyle,
    root: Seq<char>,
    project: Seq<char>,
    index: u64,
) -> Seq<char> {
    if index == 1 {
        followed(style, root, directory_name(project))
    } else {
        followed(style, root, directory_name(project) + " "@ + decimal(index as nat))
    }
}

/// Whether two paths lead the same way.
pub open spec fn same_way(style: PathStyle, a: Seq<char>, b: Seq<char>) -> bool {
    parts(style, a) == parts(style, b)
}

/// Whether a path leads the way of one of some others.
pub open spec fn leads_to_one(style: PathStyle, path: Seq<char>, others: Seq<Seq<char>>) -> bool {
    exists|i: int| 0 <= i < others.len() && same_way(style, #[trigger] others[i], path)
}

fn is_attached(style: PathStyle, path: &str, attached: &Vec<String>) -> (r: bool)
    ensures
        r == leads_to_one(style, path@, texts(attached@)),
{
    let ghost all = texts(attached@);
    let mut i: usize = 0;
    while i < attached.len()
        invariant
            i <= attached@.len(),
            all == texts(attached@),
            forall|k: int| 0 <= k < i ==> !same_way(style, #[trigger] all[k], path@),
        decreases attached.len() - i,
    {
        assert(all[i as int] == attached@[i as int]@);
        if is_same_path(style, attached[i].as_str(), path) {
            return true;
        }
        i = i + 1;
    }
    false
}

/// The search for a directory for a new Project.
#[derive(Debug, PartialEq, Eq)]
pub struct WorkspaceSearch {
    pub index: u64,
}

impl WorkspaceSearch {
    pub fn new() -> (r: WorkspaceSearch)
        ensures
            r.index == 1,
    {
        WorkspaceSearch { index: 1 }
    }

    /// The directory to try next.
    pub fn candidate(&self, style: PathStyle, root: &str, project_name: &str) -> (r: String)
        ensures
            r@ == candidate_path(style, root@, project_name@, self.index),
    {
        let mut name = default_workspace_directory_name(project_name);
        if self.index != 1 {
            name.append(" ");
            let n = number(self.index);
            name.append(n.as_str());
        }
        path_join(style, root, name.as_str())
    }

    /// Whether a directory is taken for the Project: one that neither exists nor is attached to
    /// another. The search goes on with the next otherwise.
    pub fn settle(
        &mut self,
        style: PathStyle,
        candidate: &str,
        exists: bool,
        attached: &Vec<String>,
    ) -> (r: bool)
        requires
            old(self).index < u64::MAX,
        ensures
            r == (!exists && !leads_to_one(style, candidate@, texts(attached@))),
            final(self).index == (if r {
                old(self).index
            } else {
                (old(self).index + 1) as u64
            }),
    {
        if !exists && !is_attached(style, candidate, attached) {
            return true;
        }
        self.index = self.index + 1;
        false
    }
}

/// The path of a Workspace that a request names.
pub fn workspace_path(style: PathStyle, value: &str) -> (r: Result<String, ApiError>)
    ensures
        match r {
            Ok(path) => absolute(style, trimmed(value@)) && path@ == trimmed(value@),
            Err(e) => !absolute(style, trimmed(value@)) && e.says(
                BAD_REQUEST,
                "Project Workspace path must be absolute"@,
            ),
        },
{
    let path = trim(value);
    if !is_absolute(style, path.as_str()) {
        return Err(ApiError::bad_request("Project Workspace path must be absolute".to_owned()));
    }
    Ok(path)
}

/// What a Workspace's path leads to, or why it leads nowhere.
pub fn canonical_workspace(found: Result<String, String>) -> (r: Result<String, ApiError>)
    ensures
        match (r, found) {
            (Ok(path), Ok(place)) => path == place,
            (Err(e), Err(fault)) => e.says(
                BAD_REQUEST,
                "Project Workspace is unavailable: "@ + fault@,
            ),
            _ => false,
        },
{
    match found {
        Ok(place) => Ok(place),
        Err(fault) => {
            let mut message = "Project Workspace is unavailable: ".to_owned();
            message.append(fault.as_str());
            Err(ApiError::bad_request(message))
        },
    }
}

/// What lies at a path.
#[derive(Debug, PartialEq, Eq)]
pub struct SeenPath {
    pub is_directory: bool,
    pub is_symlink: bool,
    /// The path with every link followed, where it could be followed.
    pub canonical: Option<String>,
}

/// Whether what lies at a path is a directory that is reached by no link.
pub open spec fn plain_directory(style: PathStyle, path: Seq<char>, seen: Option<SeenPath>) -> bool {
    match seen {
        Some(s) => s.is_directory && !s.is_symlink && (s.canonical matches Some(c) && same_way(
            style,
            c@,
            path,
        )),
        None => false,
    }
}

/// Whether an attached Workspace can be used.
pub fn workspace_attachment_available(
    style: PathStyle,
    workspace: &WorkspaceAttachment,
    seen: &Option<SeenPath>,
) -> (r: bool)
    ensures
        r == (attachment_fault(style, workspace.revision, workspace.path@) is None
            && plain_directory(
            style,
            workspace.path@,
            *seen,
        )),
{
    if workspace.validate(style).is_err() {
        return false;
    }
    match seen {
        Some(s) => {
            if !s.is_directory || s.is_symlink {
                return false;
            }
            match &s.canonical {
                Some(c) => is_same_path(style, c.as_str(), workspace.path.as_str()),
                None => false,
            }
        },
        None => false,
    }
}

/// What is said of a Project that works.
pub open spec fn active_work() -> Seq<char> {
    "Project has active work; finish or cancel it before changing its Workspace attachment"@
}

/// Whether a Project's Workspace can be changed: only where no Session of it is left to finish.
pub fn ensure_project_can_detach(recoverable_sessions: usize) -> (r: Result<(), StoreFault>)
    ensures
        match r {
            Ok(()) => recoverable_sessions == 0,
            Err(e) => recoverable_sessions > 0 && e.kind == StoreErrorKind::Invariant && e.detail@
                == active_work(),
        },
{
    if recoverable_sessions > 0 {
        return Err(
            StoreFault {
                kind: StoreErrorKind::Invariant,
                detail: "Project has active work; finish or cancel it before changing its Workspace attachment".to_owned(),
            },
        );
    }
    Ok(())
}

/// A Project as it is listed.
#[derive(Debug, PartialEq)]
pub struct ProjectCatalogEntry {
    pub project: Project,
    pub workspace_available: bool,
}

/// Whether a point in time is earlier than another.
pub open spec fn earlier(a: Timestamp, b: Timestamp) -> bool {
    a.seconds < b.seconds || (a.seconds == b.seconds && a.nanoseconds < b.nanoseconds)
}

/// Whether a Project is listed before another: the one that changed last comes first, and Projects
/// that changed at one time are listed by their identifiers.
pub open spec fn listed_before(a: ProjectCatalogEntry, b: ProjectCatalogEntry) -> bool {
    ||| earlier(b.project.updated_at, a.project.updated_at)
    ||| a.project.updated_at == b.project.updated_at && a.project.id.0 < b.project.id.0
}

/// Whether Projects stand in the order in which they are listed.
pub open spec fn in_listing_order(list: Seq<ProjectCatalogEntry>) -> bool {
    forall|i: int, j: int|
        0 <= i < j < list.len() ==> !listed_before(#[trigger] list[j], #[trigger] list[i])
}

fn comes_first(a: &ProjectCatalogEntry, b: &ProjectCatalogEntry) -> (r: bool)
    ensures
        r == listed_before(*a, *b),
{
    let x = a.project.updated_at;
    let y = b.project.updated_at;
    if y.seconds != x.seconds {
        y.seconds < x.seconds
    } else if y.nanoseconds != x.nanoseconds {
        y.nanoseconds < x.nanoseconds
    } else {
        a.project.id.0 < b.project.id.0
    }
}

fn insert_entry(list: &mut Vec<ProjectCatalogEntry>, entry: ProjectCatalogEntry)
    requires
        in_listing_order(old(list)@),
    ensures
        in_listing_order(final(list)@),
        final(list)@.to_multiset() == old(list)@.to_multiset().insert(entry),
{
    let ghost all = list@;
    let mut i: usize = 0;
    while i < list.len() && !comes_first(&entry, &list[i])
        invariant
            i <= list@.len(),
            list@ == all,
            forall|k: int| 0 <= k < i ==> !listed_before(entry, #[trigger] all[k]),
        decreases list.len() - i,
    {
        i = i + 1;
    }
    list.insert(i, entry);
    proof {
        let done = list@;
        assert(done =~= all.insert(i as int, entry));
        vstd::seq_lib::to_multiset_insert(all, i as int, entry);
        assert forall|a: int, b: int| 0 <= a < b < done.len() implies !listed_before(
            #[trigger] done[b],
            #[trigger] done[a],
        ) by {
            if a == i {
                assert(done[b] == all[b - 1]);
                assert(listed_before(entry, all[i as int]));
                if b - 1 > i {
                    assert(!listed_before(all[b - 1], all[i as int]));
                }
            } else if b == i {
                assert(done[a] == all[a]);
            } else {
                let x = if a < i { a } else { a - 1 };
                let y = if b < i { b } else { b - 1 };
                assert(done[a] == all[x] && done[b] == all[y]);
            }
        }
    }
}

/// Puts Projects in the order in which they are listed.
pub fn list_projects(entries: Vec<ProjectCatalogEntry>) -> (r: Vec<ProjectCatalogEntry>)
    ensures
        in_listing_order(r@),
        r@.to_multiset() == entries@.to_multiset(),
{
    let mut rest = entries;
    let mut r: Vec<ProjectCatalogEntry> = Vec::new();
    proof {
        assert(r@ =~= Seq::<ProjectCatalogEntry>::empty());
        assert(r@.to_multiset() =~= vstd::multiset::Multiset::empty()) by {
            broadcast use vstd::seq_lib::group_to_multiset_ensures;
        }
        assert(r@.to_multiset().add(rest@.to_multiset()) =~= entries@.to_multiset());
    }
    while rest.len() > 0
        invariant
            in_listing_order(r@),
            r@.to_multiset().add(rest@.to_multiset()) == entries@.to_multiset(),
        decreases rest.len(),
    {
        let ghost before = rest@;
        let ghost placed = r@.to_multiset();
        let entry = rest.remove(0);
        proof {
            assert(before =~= rest@.insert(0, before[0]));
            vstd::seq_lib::to_multiset_insert(rest@, 0, before[0]);
        }
        insert_entry(&mut r, entry);
        proof {
            assert(r@.to_multiset().add(rest@.to_multiset()) =~= placed.add(before.to_multiset()));
        }
    }
    proof {
        assert(rest@ =~= Seq::<ProjectCatalogEntry>::empty());
        assert(rest@.to_multiset() =~= vstd::multiset::Multiset::empty()) by {
            broadcast use vstd::seq_lib::group_to_multiset_ensures;
        }
        assert(r@.to_multiset() =~= entries@.to_multiset());
    }
    r
}

} // verus!
