//! A policy made definite: its paths resolved on the host, in order, each once.

use crate::execution::error::{bad_path, ExecutionError, ExecutionErrorView};
use crate::execution::policy::{
    denies_something, FilesystemPolicy, NetworkPolicy, PolicyView, SandboxPolicy,
};
use crate::path::{
    absolute, copy_parts, followed, go_up, is_absolute, normalize_absolute, normalized, parent_of,
    part_text, part_views, parts, parts_come_before, parts_precede, path_join, path_parts,
    path_text, place_text, same_parts, write_part, Part, PartView, PathStyle,
};
use crate::protocol::permissions::EnvironmentAuthorization;
use crate::text::{append_texts, copy_texts, lemma_texts_push, texts};
use vstd::prelude::*;

verus! {

broadcast use lemma_texts_push;

/// The parts of the place that a sandbox's path leads to, or what is wrong with the path.
pub open spec fn place_of(style: PathStyle, path: Seq<char>) -> Result<Seq<PartView>, Seq<char>> {
    if !absolute(style, path) {
        Err("sandbox path must be absolute: "@ + path)
    } else {
        match normalized(style, path) {
            Some(place) => Ok(place),
            None => Err("invalid sandbox path: "@ + path),
        }
    }
}

/// Finds the parts of the place that a sandbox's path leads to.
pub fn find_place(style: PathStyle, path: &str) -> (r: Result<Vec<Part>, ExecutionError>)
    ensures
        match r {
            Ok(place) => place_of(style, path@) == Ok::<Seq<PartView>, Seq<char>>(
                part_views(place@),
            ),
            Err(e) => place_of(style, path@) matches Err(m) && e@
                == ExecutionErrorView::InvalidPolicy(m),
        },
{
    if !is_absolute(style, path) {
        return Err(bad_path("sandbox path must be absolute: ", path));
    }
    match normalize_absolute(style, path) {
        Some(place) => Ok(place),
        None => Err(bad_path("invalid sandbox path: ", path)),
    }
}

/// How many names a place ends with.
pub open spec fn depth(place: Seq<PartView>) -> nat
    decreases place.len(),
{
    if place.len() > 0 && place.last() is Name {
        depth(place.drop_last()) + 1
    } else {
        0
    }
}

proof fn lemma_depth(place: Seq<PartView>)
    ensures
        depth(place) <= place.len(),
    decreases place.len(),
{
    if place.len() > 0 {
        lemma_depth(place.drop_last());
    }
}

/// The paths to a place and to all that it lies in, the longest first. The first of them that
/// exists is the one to be looked up.
pub fn ancestors(style: PathStyle, place: &Vec<Part>) -> (r: Vec<String>)
    ensures
        r@.len() == depth(part_views(place@)) + 1,
        forall|i: int|
            0 <= i < r@.len() ==> (#[trigger] r@[i])@ == place_text(
                style,
                part_views(place@).take(place@.len() - i),
            ),
{
    let mut r: Vec<String> = Vec::new();
    let mut left = copy_parts(place, 0);
    let ghost all = part_views(place@);
    assert(all.skip(0) =~= all);
    assert(all.take(all.len() as int) =~= all);
    assert(part_views(left@).len() == left@.len());
    r.push(path_text(style, &left));
    while left.len() > 0 && matches!(left[left.len() - 1], Part::Name(_))
        invariant
            left@.len() <= all.len(),
            all == part_views(place@),
            all.len() == place@.len(),
            part_views(left@) == all.take(left@.len() as int),
            r@.len() == all.len() - left@.len() + 1,
            depth(all) == all.len() - left@.len() + depth(part_views(left@)),
            forall|i: int|
                0 <= i < r@.len() ==> (#[trigger] r@[i])@ == place_text(
                    style,
                    all.take(all.len() - i),
                ),
        ensures
            depth(part_views(left@)) == 0,
        decreases left@.len(),
    {
        let ghost before = left@;
        assert(part_views(before).last() == before[before.len() - 1]@);
        left.pop();
        assert(part_views(left@) =~= part_views(before).drop_last());
        assert(part_views(left@) =~= all.take(left@.len() as int));
        r.push(path_text(style, &left));
    }
    r
}

/// The names below the first ancestor that exists, on top of what that one really is.
pub open spec fn settled(style: PathStyle, canonical: Seq<char>, below: Seq<PartView>) -> Seq<char>
    decreases below.len(),
{
    if below.len() == 0 {
        canonical
    } else {
        followed(style, settled(style, canonical, below.drop_last()), part_text(below.last()))
    }
}

fn find_depth(place: &Vec<Part>) -> (r: usize)
    ensures
        r == depth(part_views(place@)),
        r <= place@.len(),
{
    let ghost all = part_views(place@);
    let mut left: usize = place.len();
    assert(all.take(left as int) =~= all);
    while left > 0 && matches!(place[left - 1], Part::Name(_))
        invariant
            left <= place@.len(),
            all == part_views(place@),
            depth(all) == all.len() - left + depth(all.take(left as int)),
        ensures
            left <= place@.len(),
            depth(all) == all.len() - left,
        decreases left,
    {
        assert(all.take(left as int).last() == place@[left - 1]@);
        assert(all.take(left as int).drop_last() =~= all.take(left - 1));
        left = left - 1;
    }
    place.len() - left
}

/// Resolves a sandbox's path, given the first of its ancestors that exists: how far up it is, and
/// what it really is.
pub fn resolve_path(
    style: PathStyle,
    path: &str,
    place: &Vec<Part>,
    found: Option<(usize, String)>,
) -> (r: Result<String, ExecutionError>)
    ensures
        match found {
            None => r matches Err(e) && e@ == ExecutionErrorView::InvalidPolicy(
                "sandbox path has no existing ancestor: "@ + path@,
            ),
            Some((up, canonical)) => if up <= depth(part_views(place@)) {
                r matches Ok(s) && s@ == settled(
                    style,
                    canonical@,
                    part_views(place@).skip(place@.len() - up),
                )
            } else {
                r matches Err(e) && e@ == ExecutionErrorView::InvalidPolicy(
                    "sandbox path has no existing ancestor: "@ + path@,
                )
            },
        },
{
    match found {
        None => Err(bad_path("sandbox path has no existing ancestor: ", path)),
        Some((up, canonical)) => {
            if up > find_depth(place) {
                return Err(bad_path("sandbox path has no existing ancestor: ", path));
            }
            let ghost below = part_views(place@).skip(place@.len() - up);
            let ghost base = canonical@;
            let start = place.len() - up;
            let mut r = canonical;
            let mut i: usize = start;
            assert(below.take(0) =~= Seq::<PartView>::empty());
            while i < place.len()
                invariant
                    start <= i <= place@.len(),
                    start == place@.len() - up,
                    below == part_views(place@).skip(start as int),
                    r@ == settled(style, base, below.take(i - start)),
                decreases place.len() - i,
            {
                assert(below.take(i + 1 - start).drop_last() =~= below.take(i - start));
                assert(below.take(i + 1 - start).last() == place@[i as int]@);
                r = path_join(style, r.as_str(), write_part(&place[i]).as_str());
                i = i + 1;
            }
            assert(below.take(i - start) =~= below);
            Ok(r)
        },
    }
}

/// The directory in which a program's installation lies, by the program's real path: two levels
/// up, unless that is the root, and else one.
pub open spec fn installation(canonical: Seq<PartView>) -> Option<Seq<PartView>> {
    match parent_of(canonical) {
        None => None,
        Some(one) => match parent_of(one) {
            Some(two) => if parent_of(two) is Some {
                Some(two)
            } else {
                Some(one)
            },
            None => Some(one),
        },
    }
}

/// Finds the directory in which a program's installation lies, by the program's real path.
pub fn executable_read_root(style: PathStyle, canonical: &str) -> (r: Option<String>)
    ensures
        match installation(parts(style, canonical@)) {
            Some(place) => r matches Some(path) && path@ == place_text(style, place),
            None => r is None,
        },
{
    let mut one = path_parts(style, canonical);
    if !go_up(&mut one) {
        return None;
    }
    let mut two = copy_parts(&one, 0);
    assert(part_views(one@).skip(0) =~= part_views(one@));
    if go_up(&mut two) {
        let mut three = copy_parts(&two, 0);
        assert(part_views(two@).skip(0) =~= part_views(two@));
        if go_up(&mut three) {
            return Some(path_text(style, &two));
        }
    }
    Some(path_text(style, &one))
}

/// Whether a list holds a path, by its parts.
pub open spec fn holds_path(style: PathStyle, list: Seq<Seq<char>>, path: Seq<char>) -> bool {
    exists|i: int| 0 <= i < list.len() && parts(style, #[trigger] list[i]) == parts(style, path)
}

/// Paths with one more, before the first that it comes before.
pub open spec fn inserted_path(
    style: PathStyle,
    list: Seq<Seq<char>>,
    path: Seq<char>,
) -> Seq<Seq<char>>
    decreases list.len(),
{
    if list.len() == 0 {
        seq![path]
    } else if parts_precede(parts(style, path), parts(style, list[0])) {
        seq![path] + list
    } else {
        seq![list[0]] + inserted_path(style, list.drop_first(), path)
    }
}

/// Paths in order with one more, unless it is there already.
pub open spec fn added_path(
    style: PathStyle,
    list: Seq<Seq<char>>,
    path: Seq<char>,
) -> Seq<Seq<char>> {
    if holds_path(style, list, path) {
        list
    } else {
        inserted_path(style, list, path)
    }
}

/// The paths of a list in their order, each once.
pub open spec fn distinct_paths(style: PathStyle, list: Seq<Seq<char>>) -> Seq<Seq<char>>
    decreases list.len(),
{
    if list.len() == 0 {
        Seq::empty()
    } else {
        added_path(style, distinct_paths(style, list.drop_last()), list.last())
    }
}

/// Adds a path to a list in order, unless it is there already. Tells whether it was added.
pub fn add_path(style: PathStyle, list: &mut Vec<String>, path: String) -> (r: bool)
    ensures
        texts(final(list)@) == added_path(style, texts(old(list)@), path@),
        r == !holds_path(style, texts(old(list)@), path@),
{
    let ghost all = texts(list@);
    let place = path_parts(style, path.as_str());
    let mut k: usize = 0;
    while k < list.len()
        invariant
            k <= list@.len(),
            list@ == old(list)@,
            all == texts(list@),
            part_views(place@) == parts(style, path@),
            forall|j: int| 0 <= j < k ==> parts(style, #[trigger] all[j]) != parts(style, path@),
        decreases list.len() - k,
    {
        let other = path_parts(style, list[k].as_str());
        assert(all[k as int] == list@[k as int]@);
        if same_parts(&place, &other) {
            return false;
        }
        k = k + 1;
    }
    let mut i: usize = 0;
    assert(all.skip(0) =~= all);
    assert(all.take(0) + inserted_path(style, all.skip(0), path@) =~= inserted_path(
        style,
        all,
        path@,
    ));
    while i < list.len()
        invariant
            i <= list@.len(),
            list@ == old(list)@,
            all == texts(list@),
            part_views(place@) == parts(style, path@),
            !holds_path(style, all, path@),
            inserted_path(style, all, path@) == all.take(i as int) + inserted_path(
                style,
                all.skip(i as int),
                path@,
            ),
        decreases list.len() - i,
    {
        let ghost rest = all.skip(i as int);
        assert(rest[0] == list@[i as int]@);
        let other = path_parts(style, list[i].as_str());
        if parts_come_before(&place, &other) {
            list.insert(i, path);
            assert(texts(list@) =~= all.take(i as int) + (seq![path@] + rest));
            return true;
        }
        assert(rest.drop_first() =~= all.skip(i + 1));
        assert(all.take(i as int) + (seq![rest[0]] + inserted_path(style, all.skip(i + 1), path@))
            =~= all.take(i + 1) + inserted_path(style, all.skip(i + 1), path@));
        i = i + 1;
    }
    assert(all.skip(i as int) =~= Seq::<Seq<char>>::empty());
    list.push(path);
    assert(texts(list@) =~= all.take(i as int) + seq![path@]);
    true
}

/// Puts paths in order, each once.
pub fn deduplicate_paths(style: PathStyle, paths: &Vec<String>) -> (r: Vec<String>)
    ensures
        texts(r@) == distinct_paths(style, texts(paths@)),
{
    let ghost all = texts(paths@);
    let mut r: Vec<String> = Vec::new();
    let mut i: usize = 0;
    assert(texts(r@) =~= Seq::<Seq<char>>::empty());
    assert(all.take(0) =~= Seq::<Seq<char>>::empty());
    while i < paths.len()
        invariant
            i <= paths@.len(),
            all == texts(paths@),
            texts(r@) == distinct_paths(style, all.take(i as int)),
        decreases paths.len() - i,
    {
        assert(all.take(i + 1).drop_last() =~= all.take(i as int));
        add_path(style, &mut r, paths[i].clone());
        i = i + 1;
    }
    assert(all.take(i as int) =~= all);
    r
}

/// Paths of a policy as they were resolved on the host.
#[derive(Debug)]
pub struct ResolvedPaths {
    pub read_roots: Vec<String>,
    pub write_roots: Vec<String>,
    pub unreadable_roots: Vec<String>,
    pub read_only_roots: Vec<String>,
    pub sandbox_root: String,
    /// Where the program is installed.
    pub executable_roots: Vec<String>,
    /// The directories in which programs are searched.
    pub search_roots: Vec<String>,
    pub sensitive_paths: Vec<String>,
}

/// A policy with its paths resolved.
#[derive(Debug)]
pub struct ResolvedSandboxPolicy {
    pub filesystem_read: FilesystemPolicy,
    pub filesystem_write: FilesystemPolicy,
    pub read_roots: Vec<String>,
    pub write_roots: Vec<String>,
    pub unreadable_roots: Vec<String>,
    pub read_only_roots: Vec<String>,
    pub sensitive_paths: Vec<String>,
    pub sensitive_path_names: Vec<String>,
    pub network: NetworkPolicy,
    pub environment: EnvironmentAuthorization,
    pub requires_platform_sandbox: bool,
    pub platform_state_root: String,
}

/// The mathematical value of a [`ResolvedSandboxPolicy`].
pub ghost struct ResolvedView {
    pub filesystem_read: FilesystemPolicy,
    pub filesystem_write: FilesystemPolicy,
    pub read_roots: Seq<Seq<char>>,
    pub write_roots: Seq<Seq<char>>,
    pub unreadable_roots: Seq<Seq<char>>,
    pub read_only_roots: Seq<Seq<char>>,
    pub sensitive_paths: Seq<Seq<char>>,
    pub sensitive_path_names: Seq<Seq<char>>,
    pub network: NetworkPolicy,
    pub inherit_core: bool,
    pub deny_name_fragments: Seq<Seq<char>>,
    pub requires_platform_sandbox: bool,
    pub platform_state_root: Seq<char>,
}

impl View for ResolvedSandboxPolicy {
    type V = ResolvedView;

    open spec fn view(&self) -> ResolvedView {
        ResolvedView {
            filesystem_read: self.filesystem_read,
            filesystem_write: self.filesystem_write,
            read_roots: texts(self.read_roots@),
            write_roots: texts(self.write_roots@),
            unreadable_roots: texts(self.unreadable_roots@),
            read_only_roots: texts(self.read_only_roots@),
            sensitive_paths: texts(self.sensitive_paths@),
            sensitive_path_names: texts(self.sensitive_path_names@),
            network: self.network,
            inherit_core: self.environment.inherit_core,
            deny_name_fragments: texts(self.environment.deny_name_fragments@),
            requires_platform_sandbox: self.requires_platform_sandbox,
            platform_state_root: self.platform_state_root@,
        }
    }
}

/// A policy with its paths resolved. The sandbox's own directory can be read and written, and
/// programs can be read.
pub open spec fn resolved_policy(style: PathStyle, p: PolicyView, at: ResolvedPaths) -> ResolvedView {
    ResolvedView {
        filesystem_read: p.filesystem_read,
        filesystem_write: p.filesystem_write,
        read_roots: distinct_paths(
            style,
            texts(at.read_roots@).push(at.sandbox_root@) + texts(at.executable_roots@) + texts(
                at.search_roots@,
            ),
        ),
        write_roots: distinct_paths(style, texts(at.write_roots@).push(at.sandbox_root@)),
        unreadable_roots: texts(at.unreadable_roots@),
        read_only_roots: texts(at.read_only_roots@),
        sensitive_paths: texts(at.sensitive_paths@),
        sensitive_path_names: p.sensitive_path_names,
        network: p.network,
        inherit_core: p.inherit_core,
        deny_name_fragments: p.deny_name_fragments,
        requires_platform_sandbox: denies_something(p),
        platform_state_root: if at.unreadable_roots@.len() > 0 {
            followed(style, at.unreadable_roots@[0]@, "runtime/windows-sandbox"@)
        } else {
            followed(style, at.sandbox_root@, "windows-sandbox"@)
        },
    }
}

/// Prepares sandboxes.
#[derive(Clone, Copy, Debug)]
pub struct SandboxManager;

impl SandboxManager {
    /// Makes a policy definite, given its paths as they were resolved on the host.
    pub fn resolve_policy(&self, style: PathStyle, policy: SandboxPolicy, at: ResolvedPaths) -> (r:
        ResolvedSandboxPolicy)
        ensures
            r@ == resolved_policy(style, policy@, at),
    {
        let requires_platform_sandbox = policy.requires_platform_sandbox();
        let mut read_roots = copy_texts(&at.read_roots);
        read_roots.push(at.sandbox_root.clone());
        append_texts(&mut read_roots, &at.executable_roots);
        append_texts(&mut read_roots, &at.search_roots);
        let mut write_roots = copy_texts(&at.write_roots);
        write_roots.push(at.sandbox_root.clone());
        let platform_state_root = if at.unreadable_roots.len() > 0 {
            path_join(style, at.unreadable_roots[0].as_str(), "runtime/windows-sandbox")
        } else {
            path_join(style, at.sandbox_root.as_str(), "windows-sandbox")
        };
        ResolvedSandboxPolicy {
            filesystem_read: policy.filesystem_read,
            filesystem_write: policy.filesystem_write,
            read_roots: deduplicate_paths(style, &read_roots),
            write_roots: deduplicate_paths(style, &write_roots),
            unreadable_roots: at.unreadable_roots,
            read_only_roots: at.read_only_roots,
            sensitive_paths: at.sensitive_paths,
            sensitive_path_names: policy.sensitive_path_names,
            network: policy.network,
            environment: policy.environment,
            requires_platform_sandbox,
            platform_state_root,
        }
    }
}

proof fn lemma_inserted_path(style: PathStyle, list: Seq<Seq<char>>, path: Seq<char>)
    ensures
        inserted_path(style, list, path).contains(path),
        forall|x: Seq<char>| list.contains(x) ==> inserted_path(style, list, path).contains(x),
    decreases list.len(),
{
    let all = inserted_path(style, list, path);
    if list.len() == 0 || parts_precede(parts(style, path), parts(style, list[0])) {
        assert(all[0] == path);
        assert forall|x: Seq<char>| list.contains(x) implies all.contains(x) by {
            let k = choose|k: int| 0 <= k < list.len() && list[k] == x;
            assert(all[k + 1] == x);
        }
    } else {
        let rest = list.drop_first();
        let tail = inserted_path(style, rest, path);
        lemma_inserted_path(style, rest, path);
        let k = choose|k: int| 0 <= k < tail.len() && tail[k] == path;
        assert(all[k + 1] == path);
        assert forall|x: Seq<char>| list.contains(x) implies all.contains(x) by {
            let k = choose|k: int| 0 <= k < list.len() && list[k] == x;
            if k == 0 {
                assert(all[0] == x);
            } else {
                assert(rest[k - 1] == x);
                assert(rest.contains(x));
                let j = choose|j: int| 0 <= j < tail.len() && tail[j] == x;
                assert(all[j + 1] == x);
            }
        }
    }
}

/// Putting paths in order, each once, loses none.
pub proof fn law_no_path_is_lost(style: PathStyle, list: Seq<Seq<char>>, path: Seq<char>)
    requires
        list.contains(path),
    ensures
        holds_path(style, distinct_paths(style, list), path),
    decreases list.len(),
{
    let before = distinct_paths(style, list.drop_last());
    let all = distinct_paths(style, list);
    lemma_inserted_path(style, before, list.last());
    let k = choose|k: int| 0 <= k < list.len() && list[k] == path;
    if k == list.len() - 1 {
        if !holds_path(style, before, path) {
            let j = choose|j: int| 0 <= j < all.len() && all[j] == path;
            assert(parts(style, all[j]) == parts(style, path));
        }
    } else {
        assert(list.drop_last()[k] == path);
        assert(list.drop_last().contains(path));
        law_no_path_is_lost(style, list.drop_last(), path);
        let i = choose|i: int| 0 <= i < before.len() && parts(style, #[trigger] before[i]) == parts(
            style,
            path,
        );
        if !holds_path(style, before, list.last()) {
            assert(before.contains(before[i]));
            assert(all.contains(before[i]));
            let j = choose|j: int| 0 <= j < all.len() && all[j] == before[i];
            assert(parts(style, all[j]) == parts(style, path));
        }
    }
}

/// The sandbox's own directory can always be read and written.
pub proof fn law_sandbox_root_is_usable(style: PathStyle, p: PolicyView, at: ResolvedPaths)
    ensures
        holds_path(style, resolved_policy(style, p, at).read_roots, at.sandbox_root@),
        holds_path(style, resolved_policy(style, p, at).write_roots, at.sandbox_root@),
{
    let root = at.sandbox_root@;
    let write = texts(at.write_roots@).push(root);
    assert(write[write.len() - 1] == root);
    law_no_path_is_lost(style, write, root);
    let read = texts(at.read_roots@).push(root) + texts(at.executable_roots@) + texts(
        at.search_roots@,
    );
    assert(read[at.read_roots@.len() as int] == root);
    law_no_path_is_lost(style, read, root);
}

} // verus!
