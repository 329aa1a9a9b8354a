//! Paths as texts, as Unix and Windows hosts read them.
//!
//! A path is judged by its parts: the prefix that a Windows path can begin with, the root, and the
//! names behind them. Pieces that are empty say nothing and are left out, and so is `.`, but at the
//! start of a relative path and in a verbatim Windows path, where it counts. `..` is a part of its
//! own until a path is normalized.

use crate::text::{
    chars_of, comes_before, join, joined, lemma_texts_push, maybe, occurs, precedes, same,
    stands_at, texts,
};
use vstd::prelude::*;

verus! {

/// How the host reads paths.
#[derive(Clone, Copy, Debug, PartialEq, Eq, Structural)]
pub enum PathStyle {
    Unix,
    Windows,
}

/// The kinds of what a Windows path can begin with, in their order.
#[derive(Clone, Copy, Debug, PartialEq, Eq, Structural)]
pub enum PrefixKind {
    /// `\\?\name`
    Verbatim,
    /// `\\?\UNC\server\share`
    VerbatimUnc,
    /// `\\?\C:`
    VerbatimDisk,
    /// `\\.\name`
    Device,
    /// `\\server\share`
    Unc,
    /// `C:`
    Disk,
}

/// A part of a path. A prefix has up to two names: that of the drive, in upper case, of the device,
/// or of the server and the share.
#[derive(Debug, PartialEq, Eq)]
pub enum Part {
    Prefix(PrefixKind, String, String),
    Root,
    Current,
    Parent,
    Name(String),
}

/// The mathematical value of a [`Part`].
pub ghost enum PartView {
    Prefix(PrefixKind, Seq<char>, Seq<char>),
    Root,
    Current,
    Parent,
    Name(Seq<char>),
}

impl View for Part {
    type V = PartView;

    open spec fn view(&self) -> PartView {
        match *self {
            Part::Prefix(kind, first, second) => PartView::Prefix(kind, first@, second@),
            Part::Root => PartView::Root,
            Part::Current => PartView::Current,
            Part::Parent => PartView::Parent,
            Part::Name(name) => PartView::Name(name@),
        }
    }
}

/// The values of some parts.
pub open spec fn part_views(list: Seq<Part>) -> Seq<PartView> {
    list.map_values(|p: Part| p@)
}

/// Whether a character divides the pieces of a path. A slash does not in a verbatim Windows path.
pub open spec fn divides(style: PathStyle, verbatim: bool, c: char) -> bool {
    match style {
        PathStyle::Unix => c == '/',
        PathStyle::Windows => c == '\\' || (c == '/' && !verbatim),
    }
}

/// Where the piece ends that begins at a place of a path.
pub open spec fn piece_end(style: PathStyle, verbatim: bool, s: Seq<char>, from: int) -> int
    decreases s.len() - from,
{
    if from < 0 || from >= s.len() || divides(style, verbatim, s[from]) {
        from
    } else {
        piece_end(style, verbatim, s, from + 1)
    }
}

/// The piece that begins at a place of a path.
pub open spec fn piece(style: PathStyle, verbatim: bool, s: Seq<char>, from: int) -> Seq<char> {
    if 0 <= from <= s.len() {
        s.subrange(from, piece_end(style, verbatim, s, from))
    } else {
        Seq::empty()
    }
}

/// What a Windows path begins with, and how long that is.
pub ghost struct LeadView {
    pub kind: PrefixKind,
    pub first: Seq<char>,
    pub second: Seq<char>,
    pub len: int,
}

/// The capital of an ASCII letter.
pub open spec fn capital(c: char) -> char {
    if 'a' <= c && c <= 'z' {
        ((c as u8 - 32) as u8) as char
    } else {
        c
    }
}

/// Whether a drive is named at a place of a text.
pub open spec fn names_drive(s: Seq<char>, at: int) -> bool {
    at + 2 <= s.len() && ('a' <= s[at] <= 'z' || 'A' <= s[at] <= 'Z') && s[at + 1] == ':'
}

/// Whether a character divides the pieces of a Windows path that is not verbatim.
pub open spec fn slash(c: char) -> bool {
    c == '/' || c == '\\'
}

/// What a path begins with that begins with `\\?\`.
pub open spec fn verbatim_lead(s: Seq<char>) -> LeadView {
    if s.len() >= 8 && s[4] == 'U' && s[5] == 'N' && s[6] == 'C' && slash(s[7]) {
        let end = piece_end(PathStyle::Windows, true, s, 8);
        let share = piece(PathStyle::Windows, true, s, end + 1);
        LeadView {
            kind: PrefixKind::VerbatimUnc,
            first: piece(PathStyle::Windows, true, s, 8),
            second: share,
            len: if share.len() > 0 {
                end + 1 + share.len()
            } else {
                end
            },
        }
    } else if names_drive(s, 4) && (s.len() == 6 || slash(s[6])) {
        LeadView {
            kind: PrefixKind::VerbatimDisk,
            first: seq![capital(s[4])],
            second: Seq::empty(),
            len: 6,
        }
    } else {
        LeadView {
            kind: PrefixKind::Verbatim,
            first: piece(PathStyle::Windows, true, s, 4),
            second: Seq::empty(),
            len: piece_end(PathStyle::Windows, true, s, 4),
        }
    }
}

/// What a path begins with that begins with two slashes but not with `\\?\`.
pub open spec fn shared_lead(s: Seq<char>) -> Option<LeadView> {
    if s.len() >= 4 && s[2] == '.' && slash(s[3]) {
        Some(
            LeadView {
                kind: PrefixKind::Device,
                first: piece(PathStyle::Windows, false, s, 4),
                second: Seq::empty(),
                len: piece_end(PathStyle::Windows, false, s, 4),
            },
        )
    } else {
        let end = piece_end(PathStyle::Windows, false, s, 2);
        let server = piece(PathStyle::Windows, false, s, 2);
        let share = piece(PathStyle::Windows, false, s, end + 1);
        if server.len() > 0 && share.len() > 0 {
            Some(
                LeadView {
                    kind: PrefixKind::Unc,
                    first: server,
                    second: share,
                    len: end + 1 + share.len(),
                },
            )
        } else {
            None
        }
    }
}

/// The prefix of a path, where it has one.
pub open spec fn lead_of(style: PathStyle, s: Seq<char>) -> Option<LeadView> {
    if style == PathStyle::Unix {
        None
    } else if s.len() >= 2 && slash(s[0]) && slash(s[1]) {
        if s.len() >= 4 && s[0] == '\\' && s[1] == '\\' && s[2] == '?' && s[3] == '\\' {
            Some(verbatim_lead(s))
        } else {
            shared_lead(s)
        }
    } else if names_drive(s, 0) {
        Some(
            LeadView {
                kind: PrefixKind::Disk,
                first: seq![capital(s[0])],
                second: Seq::empty(),
                len: 2,
            },
        )
    } else {
        None
    }
}

/// Whether the pieces behind a prefix are taken as they stand.
pub open spec fn verbatim_kind(kind: PrefixKind) -> bool {
    kind == PrefixKind::Verbatim || kind == PrefixKind::VerbatimUnc || kind
        == PrefixKind::VerbatimDisk
}

/// Whether the pieces of a path are taken as they stand.
pub open spec fn verbatim(style: PathStyle, s: Seq<char>) -> bool {
    lead_of(style, s) matches Some(lead) && verbatim_kind(lead.kind)
}

/// How long the prefix of a path is.
pub open spec fn lead_len(style: PathStyle, s: Seq<char>) -> int {
    match lead_of(style, s) {
        Some(lead) => lead.len,
        None => 0,
    }
}

/// Whether the root is written in a path, behind its prefix.
pub open spec fn rooted(style: PathStyle, s: Seq<char>) -> bool {
    lead_len(style, s) < s.len() && divides(style, false, s[lead_len(style, s)])
}

/// Whether a path begins at the root of what it names.
pub open spec fn absolute(style: PathStyle, s: Seq<char>) -> bool {
    match style {
        PathStyle::Unix => rooted(style, s),
        PathStyle::Windows => match lead_of(style, s) {
            Some(lead) => lead.kind != PrefixKind::Disk || rooted(style, s),
            None => false,
        },
    }
}

/// Whether a relative path begins with `.`, which counts there.
pub open spec fn begins_here(style: PathStyle, s: Seq<char>) -> bool {
    lead_of(style, s) is None && s.len() > 0 && s[0] == '.' && (s.len() == 1 || divides(
        style,
        false,
        s[1],
    ))
}

/// The prefix among the parts of a path.
pub open spec fn lead_parts(style: PathStyle, s: Seq<char>) -> Seq<PartView> {
    match lead_of(style, s) {
        Some(lead) => seq![PartView::Prefix(lead.kind, lead.first, lead.second)],
        None => Seq::empty(),
    }
}

/// The part between the prefix of a path and its names. A share and a device have a root though
/// none is written.
pub open spec fn start_parts(style: PathStyle, s: Seq<char>) -> Seq<PartView> {
    if rooted(style, s) || (lead_of(style, s) matches Some(lead) && (lead.kind == PrefixKind::Device
        || lead.kind == PrefixKind::Unc)) {
        seq![PartView::Root]
    } else if begins_here(style, s) {
        seq![PartView::Current]
    } else {
        Seq::empty()
    }
}

/// Where the names of a path begin.
pub open spec fn body_start(style: PathStyle, s: Seq<char>) -> int {
    if rooted(style, s) || begins_here(style, s) {
        lead_len(style, s) + 1
    } else {
        lead_len(style, s)
    }
}

/// Whether a piece of a path is a part of it.
pub open spec fn counts(verbatim: bool, piece: Seq<char>) -> bool {
    piece.len() > 0 && (verbatim || piece != "."@)
}

/// Where the pieces stand that are parts of a path, from a place on.
pub open spec fn spans(style: PathStyle, verbatim: bool, s: Seq<char>, from: int) -> Seq<(int, int)>
    decreases s.len() + 1 - from,
{
    let end = piece_end(style, verbatim, s, from);
    if !(0 <= from <= end <= s.len()) {
        Seq::empty()
    } else {
        let rest = spans(style, verbatim, s, end + 1);
        if counts(verbatim, s.subrange(from, end)) {
            seq![(from, end)] + rest
        } else {
            rest
        }
    }
}

/// Where the names of a path stand.
pub open spec fn body_spans(style: PathStyle, s: Seq<char>) -> Seq<(int, int)> {
    spans(style, verbatim(style, s), s, body_start(style, s))
}

/// The part that a piece is.
pub open spec fn part_of(piece: Seq<char>) -> PartView {
    if piece == ".."@ {
        PartView::Parent
    } else if piece == "."@ {
        PartView::Current
    } else {
        PartView::Name(piece)
    }
}

/// The parts of a path behind its prefix and its root.
pub open spec fn body_parts(style: PathStyle, s: Seq<char>) -> Seq<PartView> {
    body_spans(style, s).map_values(|at: (int, int)| part_of(s.subrange(at.0, at.1)))
}

/// The parts of a path, from the first on.
pub open spec fn parts(style: PathStyle, s: Seq<char>) -> Seq<PartView> {
    lead_parts(style, s) + start_parts(style, s) + body_parts(style, s)
}

/// Whether some parts begin with others.
pub open spec fn under(path: Seq<PartView>, root: Seq<PartView>) -> bool {
    root.len() <= path.len() && path.take(root.len() as int) == root
}

/// Whether a path with the given parts lies at or below a root.
pub open spec fn inside(style: PathStyle, path: Seq<PartView>, root: Seq<char>) -> bool {
    under(path, parts(style, root))
}

/// The text of a path behind some of its parts, up to the last of them: what stands between them
/// stays as it is.
pub open spec fn text_behind(style: PathStyle, s: Seq<char>, n: int) -> Seq<char> {
    let lead = lead_parts(style, s).len() as int;
    let start = start_parts(style, s).len() as int;
    let all = body_spans(style, s);
    let to = if all.len() == 0 {
        body_start(style, s)
    } else {
        all.last().1
    };
    let from = if n <= 0 {
        0
    } else if n <= lead {
        lead_len(style, s)
    } else if n - lead - start < all.len() {
        all[n - lead - start].0
    } else {
        to
    };
    s.subrange(from, to)
}

/// Parts followed from others in a verbatim path, where `.` and `..` are settled at once.
pub open spec fn settled_parts(base: Seq<PartView>, more: Seq<PartView>) -> Seq<PartView>
    decreases more.len(),
{
    if more.len() == 0 {
        base
    } else {
        let done = settled_parts(base, more.drop_last());
        match more.last() {
            PartView::Root => if done.len() > 1 {
                done.take(1).push(PartView::Root)
            } else {
                done.push(PartView::Root)
            },
            PartView::Current => done,
            PartView::Parent => if done.len() > 0 && done.last() is Name {
                done.drop_last()
            } else {
                done
            },
            part => done.push(part),
        }
    }
}

/// What is written for a part behind the root.
pub open spec fn part_text(part: PartView) -> Seq<char> {
    match part {
        PartView::Name(name) => name,
        PartView::Parent => ".."@,
        PartView::Current => "."@,
        _ => Seq::empty(),
    }
}

/// What divides the names of a path that is written anew.
pub open spec fn separator(style: PathStyle) -> Seq<char> {
    match style {
        PathStyle::Unix => "/"@,
        PathStyle::Windows => "\\"@,
    }
}

/// The text of parts behind a prefix.
pub open spec fn tail_text(style: PathStyle, tail: Seq<PartView>) -> Seq<char> {
    if tail.len() > 0 && tail[0] is Root {
        separator(style) + joined(
            tail.drop_first().map_values(|p: PartView| part_text(p)),
            separator(style),
        )
    } else {
        joined(tail.map_values(|p: PartView| part_text(p)), separator(style))
    }
}

/// What is written for a prefix.
pub open spec fn prefix_text(kind: PrefixKind, first: Seq<char>, second: Seq<char>) -> Seq<char> {
    match kind {
        PrefixKind::Verbatim => "\\\\?\\"@ + first,
        PrefixKind::VerbatimUnc => if second.len() > 0 {
            "\\\\?\\UNC\\"@ + first + "\\"@ + second
        } else {
            "\\\\?\\UNC\\"@ + first
        },
        PrefixKind::VerbatimDisk => "\\\\?\\"@ + first + ":"@,
        PrefixKind::Device => "\\\\.\\"@ + first,
        PrefixKind::Unc => "\\\\"@ + first + "\\"@ + second,
        PrefixKind::Disk => first + ":"@,
    }
}

/// The path with the given parts.
pub open spec fn place_text(style: PathStyle, place: Seq<PartView>) -> Seq<char> {
    if place.len() > 0 && place[0] is Prefix {
        let kind = place[0]->Prefix_0;
        prefix_text(kind, place[0]->Prefix_1, place[0]->Prefix_2) + tail_text(
            style,
            place.drop_first(),
        )
    } else {
        tail_text(style, place)
    }
}

/// A Windows path followed from a verbatim one: the prefix stays as it is written.
pub open spec fn followed_verbatim(base: Seq<char>, relative: Seq<char>) -> Seq<char> {
    let style = PathStyle::Windows;
    let tail = settled_parts(parts(style, base), parts(style, relative)).drop_first();
    let lead = base.take(lead_len(style, base));
    if tail.len() > 0 && !(tail[0] is Root) {
        lead + "\\"@ + tail_text(style, tail)
    } else {
        lead + tail_text(style, tail)
    }
}

/// Whether nothing is put between a path and what follows it.
pub open spec fn joins_directly(style: PathStyle, base: Seq<char>) -> bool {
    ||| base.len() == 0
    ||| divides(style, false, base.last())
    ||| style == PathStyle::Windows && base.len() == 2 && names_drive(base, 0)
}

/// A path followed from another. One that is absolute or has a prefix replaces it, and one that has
/// a root alone replaces all but the prefix.
pub open spec fn followed(style: PathStyle, base: Seq<char>, relative: Seq<char>) -> Seq<char> {
    if absolute(style, relative) || lead_of(style, relative) is Some {
        relative
    } else if verbatim(style, base) && relative.len() > 0 {
        followed_verbatim(base, relative)
    } else if rooted(style, relative) {
        base.take(lead_len(style, base)) + relative
    } else if joins_directly(style, base) {
        base + relative
    } else {
        base + separator(style) + relative
    }
}

/// A place one name further. On Windows a name that is read as more than a name is followed.
pub open spec fn entered(style: PathStyle, place: Seq<PartView>, name: Seq<char>) -> Seq<PartView> {
    if lead_of(style, name) is Some {
        parts(style, name)
    } else if style == PathStyle::Windows && place.len() > 0 && place[0] is Prefix
        && verbatim_kind(place[0]->Prefix_0) {
        settled_parts(place, parts(style, name))
    } else {
        place.push(PartView::Name(name))
    }
}

/// Whether a part can be gone back from.
pub open spec fn is_step(part: PartView) -> bool {
    part is Name || part is Current || part is Parent
}

/// The parts left once every `..` has taken back the name before it; nothing where one leads above
/// the root.
pub open spec fn resolved(style: PathStyle, path: Seq<PartView>) -> Option<Seq<PartView>>
    decreases path.len(),
{
    if path.len() == 0 {
        Some(Seq::empty())
    } else {
        match resolved(style, path.drop_last()) {
            None => None,
            Some(done) => match path.last() {
                PartView::Prefix(_, _, _) | PartView::Root => Some(done.push(path.last())),
                PartView::Current => Some(done),
                PartView::Parent => if done.len() > 0 && is_step(done.last()) {
                    Some(done.drop_last())
                } else {
                    None
                },
                PartView::Name(name) => Some(entered(style, done, name)),
            },
        }
    }
}

/// Whether parts are those of an absolute path.
pub open spec fn absolute_place(style: PathStyle, place: Seq<PartView>) -> bool {
    match style {
        PathStyle::Unix => place.len() > 0 && place[0] is Root,
        PathStyle::Windows => place.len() > 0 && place[0] is Prefix && (place[0]->Prefix_0
            != PrefixKind::Disk || (place.len() > 1 && place[1] is Root)),
    }
}

/// The parts of the place that an absolute path leads to.
pub open spec fn normalized(style: PathStyle, s: Seq<char>) -> Option<Seq<PartView>> {
    if !absolute(style, s) {
        None
    } else {
        match resolved(style, parts(style, s)) {
            Some(place) => if absolute_place(style, place) {
                Some(place)
            } else {
                None
            },
            None => None,
        }
    }
}

/// The place that a place lies in, where it lies in one.
pub open spec fn parent_of(place: Seq<PartView>) -> Option<Seq<PartView>> {
    if place.len() > 0 && is_step(place.last()) {
        Some(place.drop_last())
    } else {
        None
    }
}

proof fn lemma_piece_end(style: PathStyle, verbatim: bool, s: Seq<char>, from: int)
    requires
        0 <= from <= s.len(),
    ensures
        from <= piece_end(style, verbatim, s, from) <= s.len(),
        piece(style, verbatim, s, from).len() == piece_end(style, verbatim, s, from) - from,
    decreases s.len() - from,
{
    if from < s.len() && !divides(style, verbatim, s[from]) {
        lemma_piece_end(style, verbatim, s, from + 1);
    }
}

fn does_divide(style: PathStyle, verbatim: bool, c: char) -> (r: bool)
    ensures
        r == divides(style, verbatim, c),
{
    match style {
        PathStyle::Unix => c == '/',
        PathStyle::Windows => c == '\\' || (c == '/' && !verbatim),
    }
}

fn is_slash(c: char) -> (r: bool)
    ensures
        r == slash(c),
{
    c == '/' || c == '\\'
}

fn find_piece_end(style: PathStyle, verbatim: bool, chars: &Vec<char>, from: usize) -> (r: usize)
    requires
        from <= chars@.len(),
    ensures
        r == piece_end(style, verbatim, chars@, from as int),
        from <= r <= chars@.len(),
{
    let mut i: usize = from;
    while i < chars.len() && !does_divide(style, verbatim, chars[i])
        invariant
            from <= i <= chars@.len(),
            piece_end(style, verbatim, chars@, from as int) == piece_end(
                style,
                verbatim,
                chars@,
                i as int,
            ),
        decreases chars.len() - i,
    {
        i = i + 1;
    }
    i
}

fn text_between(chars: &Vec<char>, from: usize, to: usize) -> (r: String)
    requires
        from <= to <= chars@.len(),
    ensures
        r@ == chars@.subrange(from as int, to as int),
{
    let mut r = String::new();
    let mut i: usize = from;
    assert(r@ =~= chars@.subrange(from as int, from as int));
    while i < to
        invariant
            from <= i <= to <= chars@.len(),
            r@ == chars@.subrange(from as int, i as int),
        decreases to - i,
    {
        r.push(chars[i]);
        assert(chars@.subrange(from as int, i + 1) =~= chars@.subrange(from as int, i as int).push(
            chars@[i as int],
        ));
        i = i + 1;
    }
    r
}

fn drive_at(chars: &Vec<char>, at: usize) -> (r: bool)
    requires
        at <= 4,
    ensures
        r == names_drive(chars@, at as int),
{
    if chars.len() < at + 2 {
        return false;
    }
    let c = chars[at];
    (('a' <= c && c <= 'z') || ('A' <= c && c <= 'Z')) && chars[at + 1] == ':'
}

fn capital_text(c: char) -> (r: String)
    ensures
        r@ == seq![capital(c)],
{
    let mut r = String::new();
    if 'a' <= c && c <= 'z' {
        let b: u8 = c as u8;
        r.push((b - 32) as char);
    } else {
        r.push(c);
    }
    assert(r@ =~= seq![capital(c)]);
    r
}

fn no_text() -> (r: String)
    ensures
        r@ == Seq::<char>::empty(),
{
    let r = String::new();
    assert(r@ =~= Seq::<char>::empty());
    r
}

struct Lead {
    kind: PrefixKind,
    first: String,
    second: String,
    len: usize,
}

impl View for Lead {
    type V = LeadView;

    closed spec fn view(&self) -> LeadView {
        LeadView {
            kind: self.kind,
            first: self.first@,
            second: self.second@,
            len: self.len as int,
        }
    }
}

/// The piece behind the one that ends at a place, and where it ends.
fn next_piece(verbatim: bool, chars: &Vec<char>, end: usize) -> (r: (String, usize))
    requires
        end <= chars@.len(),
    ensures
        r.0@ == piece(PathStyle::Windows, verbatim, chars@, end + 1),
        r.0@.len() > 0 ==> r.1 == end + 1 + r.0@.len(),
        end <= r.1 <= chars@.len(),
{
    if end < chars.len() {
        let to: usize = find_piece_end(PathStyle::Windows, verbatim, chars, end + 1);
        (text_between(chars, end + 1, to), to)
    } else {
        (no_text(), end)
    }
}

fn find_verbatim_lead(chars: &Vec<char>) -> (r: Lead)
    requires
        chars@.len() >= 4,
    ensures
        r@ == verbatim_lead(chars@),
        r@.len <= chars@.len(),
{
    if chars.len() >= 8 && chars[4] == 'U' && chars[5] == 'N' && chars[6] == 'C' && is_slash(
        chars[7],
    ) {
        let end: usize = find_piece_end(PathStyle::Windows, true, chars, 8);
        let server = text_between(chars, 8, end);
        let (share, to) = next_piece(true, chars, end);
        let len: usize = if share.as_str().is_empty() {
            end
        } else {
            to
        };
        Lead { kind: PrefixKind::VerbatimUnc, first: server, second: share, len }
    } else if drive_at(chars, 4) && (chars.len() == 6 || is_slash(chars[6])) {
        Lead {
            kind: PrefixKind::VerbatimDisk,
            first: capital_text(chars[4]),
            second: no_text(),
            len: 6,
        }
    } else {
        let end: usize = find_piece_end(PathStyle::Windows, true, chars, 4);
        Lead {
            kind: PrefixKind::Verbatim,
            first: text_between(chars, 4, end),
            second: no_text(),
            len: end,
        }
    }
}

fn find_shared_lead(chars: &Vec<char>) -> (r: Option<Lead>)
    requires
        chars@.len() >= 2,
    ensures
        match r {
            Some(lead) => shared_lead(chars@) == Some(lead@) && lead@.len <= chars@.len(),
            None => shared_lead(chars@) is None,
        },
{
    if chars.len() >= 4 && chars[2] == '.' && is_slash(chars[3]) {
        let end: usize = find_piece_end(PathStyle::Windows, false, chars, 4);
        return Some(
            Lead {
                kind: PrefixKind::Device,
                first: text_between(chars, 4, end),
                second: no_text(),
                len: end,
            },
        );
    }
    let end: usize = find_piece_end(PathStyle::Windows, false, chars, 2);
    let server = text_between(chars, 2, end);
    let (share, to) = next_piece(false, chars, end);
    if server.as_str().is_empty() || share.as_str().is_empty() {
        None
    } else {
        Some(Lead { kind: PrefixKind::Unc, first: server, second: share, len: to })
    }
}

fn find_lead(style: PathStyle, chars: &Vec<char>) -> (r: Option<Lead>)
    ensures
        match r {
            Some(lead) => lead_of(style, chars@) == Some(lead@) && lead@.len <= chars@.len(),
            None => lead_of(style, chars@) is None,
        },
{
    if style == PathStyle::Unix {
        return None;
    }
    if chars.len() >= 2 && is_slash(chars[0]) && is_slash(chars[1]) {
        if chars.len() >= 4 && chars[0] == '\\' && chars[1] == '\\' && chars[2] == '?' && chars[3]
            == '\\' {
            Some(find_verbatim_lead(chars))
        } else {
            find_shared_lead(chars)
        }
    } else if drive_at(chars, 0) {
        Some(
            Lead {
                kind: PrefixKind::Disk,
                first: capital_text(chars[0]),
                second: no_text(),
                len: 2,
            },
        )
    } else {
        None
    }
}

/// Spans as mathematical pairs.
pub open spec fn span_views(list: Seq<(usize, usize)>) -> Seq<(int, int)> {
    list.map_values(|at: (usize, usize)| (at.0 as int, at.1 as int))
}

fn find_spans(style: PathStyle, verbatim: bool, chars: &Vec<char>, start: usize) -> (r: Vec<
    (usize, usize),
>)
    requires
        start <= chars@.len(),
    ensures
        span_views(r@) == spans(style, verbatim, chars@, start as int),
        forall|k: int| 0 <= k < r@.len() ==> start <= (#[trigger] r@[k]).0 <= r@[k].1 <= chars@.len(),
        forall|k: int| 0 <= k < r@.len() ==> (#[trigger] r@[k]).0 <= r@.last().1,
{
    let ghost s = chars@;
    let ghost every = spans(style, verbatim, s, start as int);
    let mut r: Vec<(usize, usize)> = Vec::new();
    let mut from: usize = start;
    let mut more = true;
    assert(span_views(r@) + every =~= every);
    while more
        invariant
            s == chars@,
            every == spans(style, verbatim, s, start as int),
            more ==> start <= from <= s.len(),
            every == span_views(r@) + (if more {
                spans(style, verbatim, s, from as int)
            } else {
                Seq::empty()
            }),
            forall|k: int| 0 <= k < r@.len() ==> start <= (#[trigger] r@[k]).0 <= r@[k].1 <= s.len(),
            forall|k: int| 0 <= k < r@.len() ==> (#[trigger] r@[k]).0 <= r@.last().1,
            r@.len() > 0 && more ==> r@.last().1 <= from,
        decreases s.len() - from + (if more {
            1int
        } else {
            0int
        }),
    {
        let end: usize = find_piece_end(style, verbatim, chars, from);
        let piece = text_between(chars, from, end);
        let ghost rest = spans(style, verbatim, s, end + 1);
        let ghost before = span_views(r@);
        if !piece.as_str().is_empty() && (verbatim || !same(piece.as_str(), ".")) {
            r.push((from, end));
            assert(span_views(r@) =~= before.push((from as int, end as int)));
            assert(before + (seq![(from as int, end as int)] + rest) =~= span_views(r@) + rest);
        }
        if end < chars.len() {
            from = end + 1;
        } else {
            more = false;
            from = end;
            assert(rest =~= Seq::<(int, int)>::empty());
        }
    }
    assert(span_views(r@) + Seq::<(int, int)>::empty() =~= span_views(r@));
    r
}

/// What stands before the names of a path, and where these stand.
struct Reading {
    lead: Option<Lead>,
    rooted: bool,
    here: bool,
    start: usize,
    spans: Vec<(usize, usize)>,
}

impl Reading {
    closed spec fn is_of(&self, style: PathStyle, s: Seq<char>) -> bool {
        &&& match self.lead {
            Some(lead) => lead_of(style, s) == Some(lead@) && lead@.len <= self.start,
            None => lead_of(style, s) is None,
        }
        &&& self.rooted == rooted(style, s)
        &&& self.here == begins_here(style, s)
        &&& self.start == body_start(style, s)
        &&& self.start <= s.len()
        &&& span_views(self.spans@) == body_spans(style, s)
        &&& forall|k: int|
            0 <= k < self.spans@.len() ==> self.start <= (#[trigger] self.spans@[k]).0
                <= self.spans@[k].1 <= s.len()
        &&& forall|k: int|
            0 <= k < self.spans@.len() ==> (#[trigger] self.spans@[k]).0 <= self.spans@.last().1
    }
}

fn is_verbatim(kind: PrefixKind) -> (r: bool)
    ensures
        r == verbatim_kind(kind),
{
    match kind {
        PrefixKind::Verbatim | PrefixKind::VerbatimUnc | PrefixKind::VerbatimDisk => true,
        _ => false,
    }
}

fn read_path(style: PathStyle, chars: &Vec<char>) -> (r: Reading)
    ensures
        r.is_of(style, chars@),
{
    let lead = find_lead(style, chars);
    let (len, verbatim): (usize, bool) = match &lead {
        Some(lead) => (lead.len, is_verbatim(lead.kind)),
        None => (0, false),
    };
    let rooted = len < chars.len() && does_divide(style, false, chars[len]);
    let here = lead.is_none() && chars.len() > 0 && chars[0] == '.' && (chars.len() == 1
        || does_divide(style, false, chars[1]));
    let start: usize = if rooted || here {
        len + 1
    } else {
        len
    };
    let spans = find_spans(style, verbatim, chars, start);
    Reading { lead, rooted, here, start, spans }
}

/// Whether a path begins at the root of what it names.
pub fn is_absolute(style: PathStyle, s: &str) -> (r: bool)
    ensures
        r == absolute(style, s@),
{
    let chars = chars_of(s);
    let path = read_path(style, &chars);
    match style {
        PathStyle::Unix => path.rooted,
        PathStyle::Windows => match path.lead {
            Some(lead) => lead.kind != PrefixKind::Disk || path.rooted,
            None => false,
        },
    }
}

/// Appending a part to a list appends its value.
pub broadcast proof fn lemma_part_views_push(list: Seq<Part>, p: Part)
    ensures
        #[trigger] part_views(list.push(p)) == part_views(list).push(p@),
{
    assert(part_views(list.push(p)) =~= part_views(list).push(p@));
}

fn make_part(piece: String) -> (r: Part)
    ensures
        r@ == part_of(piece@),
{
    if same(piece.as_str(), "..") {
        Part::Parent
    } else if same(piece.as_str(), ".") {
        Part::Current
    } else {
        Part::Name(piece)
    }
}

/// The parts of a path.
pub fn path_parts(style: PathStyle, s: &str) -> (r: Vec<Part>)
    ensures
        part_views(r@) == parts(style, s@),
{
    broadcast use lemma_part_views_push;

    let chars = chars_of(s);
    let path = read_path(style, &chars);
    let mut r: Vec<Part> = Vec::new();
    let mut has_root = path.rooted;
    assert(part_views(r@) =~= Seq::<PartView>::empty());
    if let Some(lead) = path.lead {
        match lead.kind {
            PrefixKind::Device | PrefixKind::Unc => {
                has_root = true;
            },
            _ => {},
        }
        r.push(Part::Prefix(lead.kind, lead.first, lead.second));
    }
    assert(part_views(r@) =~= lead_parts(style, s@));
    if has_root {
        r.push(Part::Root);
    } else if path.here {
        r.push(Part::Current);
    }
    assert(part_views(r@) =~= lead_parts(style, s@) + start_parts(style, s@));
    let ghost before = part_views(r@);
    let ghost all = body_spans(style, s@);
    let ghost every = body_parts(style, s@);
    let mut i: usize = 0;
    let spans = path.spans;
    assert(before + every.take(0) =~= before);
    while i < spans.len()
        invariant
            i <= spans@.len(),
            chars@ == s@,
            all == body_spans(style, s@),
            every == body_parts(style, s@),
            span_views(spans@) == all,
            forall|k: int|
                0 <= k < spans@.len() ==> (#[trigger] spans@[k]).0 <= spans@[k].1 <= s@.len(),
            part_views(r@) == before + every.take(i as int),
        decreases spans.len() - i,
    {
        let (from, to) = spans[i];
        assert(all[i as int] == (from as int, to as int)) by {
            assert(span_views(spans@)[i as int] == (spans@[i as int].0 as int, spans@[i as int].1 as int));
        }
        r.push(make_part(text_between(&chars, from, to)));
        assert(every.take(i + 1) =~= every.take(i as int).push(every[i as int]));
        assert(before + every.take(i + 1) =~= (before + every.take(i as int)).push(
            every[i as int],
        ));
        i = i + 1;
    }
    assert(every.take(i as int) =~= every);
    r
}

/// The text of a path behind some of its parts.
pub fn find_text_behind(style: PathStyle, s: &str, n: usize) -> (r: String)
    ensures
        r@ == text_behind(style, s@, n as int),
{
    let chars = chars_of(s);
    let path = read_path(style, &chars);
    let ghost all = body_spans(style, s@);
    assert(all.len() == path.spans@.len()) by {
        assert(span_views(path.spans@).len() == path.spans@.len());
    }
    assert forall|k: int| 0 <= k < all.len() implies #[trigger] all[k] == (
        path.spans@[k].0 as int,
        path.spans@[k].1 as int,
    ) by {
        assert(span_views(path.spans@)[k] == all[k]);
    }
    let (lead, len): (usize, usize) = match &path.lead {
        Some(lead) => (1, lead.len),
        None => (0, 0),
    };
    let has_root = match &path.lead {
        Some(lead) => match lead.kind {
            PrefixKind::Device | PrefixKind::Unc => true,
            _ => path.rooted,
        },
        None => path.rooted,
    };
    let start: usize = if has_root || path.here {
        1
    } else {
        0
    };
    let count: usize = path.spans.len();
    let to: usize = if count == 0 {
        path.start
    } else {
        path.spans[count - 1].1
    };
    let from: usize = if n == 0 {
        0
    } else if n <= lead {
        len
    } else if n - lead - start < count {
        path.spans[n - lead - start].0
    } else {
        to
    };
    text_between(&chars, from, to)
}

/// The text of the first part of a path, where it has one.
pub open spec fn first_text(style: PathStyle, s: Seq<char>) -> Option<Seq<char>> {
    if lead_of(style, s) is Some {
        Some(s.take(lead_len(style, s)))
    } else if parts(style, s).len() == 0 {
        None
    } else {
        match parts(style, s)[0] {
            PartView::Root => Some(separator(style)),
            part => Some(part_text(part)),
        }
    }
}

/// Finds the text of the first part of a path.
pub fn find_first_text(style: PathStyle, s: &str) -> (r: Option<String>)
    ensures
        maybe(r) == first_text(style, s@),
{
    let chars = chars_of(s);
    if let Some(lead) = find_lead(style, &chars) {
        let text = text_between(&chars, 0, lead.len);
        assert(text@ =~= s@.take(lead.len as int));
        return Some(text);
    }
    let all = path_parts(style, s);
    if all.len() == 0 {
        assert(part_views(all@).len() == 0);
        return None;
    }
    assert(part_views(all@)[0] == all@[0]@);
    match &all[0] {
        Part::Root => Some(separator_text(style).to_owned()),
        part => Some(write_part(part)),
    }
}

fn same_part(a: &Part, b: &Part) -> (r: bool)
    ensures
        r == (a@ == b@),
{
    match (a, b) {
        (Part::Prefix(kind, first, second), Part::Prefix(other, third, fourth)) => {
            *kind == *other && same(first.as_str(), third.as_str()) && same(
                second.as_str(),
                fourth.as_str(),
            )
        },
        (Part::Root, Part::Root) => true,
        (Part::Current, Part::Current) => true,
        (Part::Parent, Part::Parent) => true,
        (Part::Name(a), Part::Name(b)) => same(a.as_str(), b.as_str()),
        _ => false,
    }
}

/// Whether some parts begin with others.
pub fn is_under(path: &Vec<Part>, root: &Vec<Part>) -> (r: bool)
    ensures
        r == under(part_views(path@), part_views(root@)),
{
    if root.len() > path.len() {
        return false;
    }
    let ghost x = part_views(path@);
    let ghost y = part_views(root@);
    let mut i: usize = 0;
    while i < root.len()
        invariant
            i <= root@.len() <= path@.len(),
            x == part_views(path@),
            y == part_views(root@),
            forall|k: int| 0 <= k < i ==> #[trigger] x[k] == y[k],
        decreases root.len() - i,
    {
        if !same_part(&path[i], &root[i]) {
            assert(x.take(root@.len() as int)[i as int] != y[i as int]);
            return false;
        }
        i = i + 1;
    }
    assert(x.take(root@.len() as int) =~= y);
    true
}

/// Whether two lists of parts are the same.
pub fn same_parts(a: &Vec<Part>, b: &Vec<Part>) -> (r: bool)
    ensures
        r == (part_views(a@) == part_views(b@)),
{
    if a.len() != b.len() {
        assert(part_views(a@).len() != part_views(b@).len());
        return false;
    }
    assert(part_views(a@).take(b@.len() as int) =~= part_views(a@));
    is_under(a, b)
}

/// Whether two paths have the same parts.
pub fn is_same_path(style: PathStyle, a: &str, b: &str) -> (r: bool)
    ensures
        r == (parts(style, a@) == parts(style, b@)),
{
    same_parts(&path_parts(style, a), &path_parts(style, b))
}

/// Whether a path with the given parts lies at or below a root.
pub fn is_inside(style: PathStyle, path: &Vec<Part>, root: &str) -> (r: bool)
    ensures
        r == inside(style, part_views(path@), root@),
{
    is_under(path, &path_parts(style, root))
}

/// Whether a path with the given parts lies at or below one of some roots.
pub fn is_inside_any(style: PathStyle, path: &Vec<Part>, roots: &Vec<String>) -> (r: bool)
    ensures
        r == exists|i: int|
            0 <= i < roots@.len() && inside(style, part_views(path@), #[trigger] roots@[i]@),
{
    let mut i: usize = 0;
    while i < roots.len()
        invariant
            i <= roots.len(),
            forall|k: int|
                0 <= k < i ==> !inside(style, part_views(path@), #[trigger] roots@[k]@),
        decreases roots.len() - i,
    {
        if is_inside(style, path, roots[i].as_str()) {
            return true;
        }
        i = i + 1;
    }
    false
}

fn copy_part(part: &Part) -> (r: Part)
    ensures
        r@ == part@,
{
    match part {
        Part::Prefix(kind, first, second) => Part::Prefix(*kind, first.clone(), second.clone()),
        Part::Root => Part::Root,
        Part::Current => Part::Current,
        Part::Parent => Part::Parent,
        Part::Name(name) => Part::Name(name.clone()),
    }
}

/// Copies the parts of a list from a place on.
pub fn copy_parts(list: &Vec<Part>, from: usize) -> (r: Vec<Part>)
    requires
        from <= list@.len(),
    ensures
        part_views(r@) == part_views(list@).skip(from as int),
{
    broadcast use lemma_part_views_push;

    let ghost all = part_views(list@);
    let mut r: Vec<Part> = Vec::new();
    let mut i: usize = from;
    assert(part_views(r@) =~= all.subrange(from as int, from as int));
    while i < list.len()
        invariant
            from <= i <= list@.len(),
            all == part_views(list@),
            part_views(r@) == all.subrange(from as int, i as int),
        decreases list.len() - i,
    {
        r.push(copy_part(&list[i]));
        assert(all.subrange(from as int, i + 1) =~= all.subrange(from as int, i as int).push(
            list@[i as int]@,
        ));
        i = i + 1;
    }
    assert(all.subrange(from as int, i as int) =~= all.skip(from as int));
    r
}

/// Takes back the last part of a list.
fn go_back(list: &mut Vec<Part>)
    requires
        old(list)@.len() > 0,
    ensures
        part_views(final(list)@) == part_views(old(list)@).drop_last(),
        final(list)@.len() == old(list)@.len() - 1,
{
    let ghost before = list@;
    list.pop();
    assert(part_views(list@) =~= part_views(before).drop_last());
}

fn settle_parts(base: Vec<Part>, more: &Vec<Part>) -> (r: Vec<Part>)
    ensures
        part_views(r@) == settled_parts(part_views(base@), part_views(more@)),
{
    broadcast use lemma_part_views_push;

    let ghost first = part_views(base@);
    let ghost all = part_views(more@);
    let mut r = base;
    let mut i: usize = 0;
    assert(all.take(0) =~= Seq::<PartView>::empty());
    while i < more.len()
        invariant
            i <= more@.len(),
            all == part_views(more@),
            part_views(r@) == settled_parts(first, all.take(i as int)),
        decreases more.len() - i,
    {
        assert(all.take(i + 1).drop_last() =~= all.take(i as int));
        assert(all.take(i + 1).last() == more@[i as int]@);
        let ghost done = part_views(r@);
        match &more[i] {
            Part::Root => {
                while r.len() > 1
                    invariant
                        r@.len() <= done.len(),
                        part_views(r@) == done.take(r@.len() as int),
                        done.len() > 0 ==> r@.len() > 0,
                    decreases r@.len(),
                {
                    let ghost left = part_views(r@);
                    go_back(&mut r);
                    assert(left.drop_last() =~= done.take(r@.len() as int));
                }
                assert(done.len() <= 1 ==> done.take(r@.len() as int) =~= done);
                r.push(Part::Root);
            },
            Part::Current => {},
            Part::Parent => {
                let n: usize = r.len();
                let named = n > 0 && matches!(r[n - 1], Part::Name(_));
                assert(n > 0 ==> done.last() == r@[n - 1]@);
                if named {
                    go_back(&mut r);
                }
            },
            part => {
                r.push(copy_part(part));
            },
        }
        i = i + 1;
    }
    assert(all.take(i as int) =~= all);
    r
}

/// Writes a part behind the root.
pub fn write_part(part: &Part) -> (r: String)
    ensures
        r@ == part_text(part@),
{
    match part {
        Part::Name(name) => name.clone(),
        Part::Parent => "..".to_owned(),
        Part::Current => ".".to_owned(),
        _ => no_text(),
    }
}

fn separator_text(style: PathStyle) -> (r: &'static str)
    ensures
        r@ == separator(style),
{
    match style {
        PathStyle::Unix => "/",
        PathStyle::Windows => "\\",
    }
}

/// Writes the parts of a list from a place on, behind a text.
fn write_tail(style: PathStyle, before: &str, list: &Vec<Part>, start: usize) -> (r: String)
    requires
        start <= list@.len(),
    ensures
        r@ == before@ + tail_text(style, part_views(list@).skip(start as int)),
{
    broadcast use lemma_texts_push;

    let ghost tail = part_views(list@).skip(start as int);
    let mut r = before.to_owned();
    let mut from: usize = start;
    assert(start < list@.len() ==> tail[0] == list@[start as int]@);
    if start < list.len() && matches!(list[start], Part::Root) {
        r.append(separator_text(style));
        from = start + 1;
        assert(tail.drop_first() =~= part_views(list@).skip(from as int));
    }
    let ghost all = part_views(list@).skip(from as int).map_values(|p: PartView| part_text(p));
    let mut names: Vec<String> = Vec::new();
    let mut i: usize = from;
    assert(texts(names@) =~= all.take(0));
    while i < list.len()
        invariant
            from <= i <= list@.len(),
            all == part_views(list@).skip(from as int).map_values(|p: PartView| part_text(p)),
            texts(names@) == all.take(i - from),
        decreases list.len() - i,
    {
        let name = write_part(&list[i]);
        assert(all[i - from] == part_text(list@[i as int]@));
        names.push(name);
        assert(all.take(i + 1 - from) =~= all.take(i - from).push(name@));
        i = i + 1;
    }
    assert(all.take(i - from) =~= all);
    let rest = join(&names, separator_text(style));
    r.append(rest.as_str());
    assert(r@ =~= before@ + tail_text(style, tail));
    r
}

fn write_prefix(kind: PrefixKind, first: &str, second: &str) -> (r: String)
    ensures
        r@ == prefix_text(kind, first@, second@),
{
    let mut r = String::new();
    match kind {
        PrefixKind::Verbatim => {
            r.append("\\\\?\\");
            r.append(first);
        },
        PrefixKind::VerbatimUnc => {
            r.append("\\\\?\\UNC\\");
            r.append(first);
            if !second.is_empty() {
                r.append("\\");
                r.append(second);
            }
        },
        PrefixKind::VerbatimDisk => {
            r.append("\\\\?\\");
            r.append(first);
            r.append(":");
        },
        PrefixKind::Device => {
            r.append("\\\\.\\");
            r.append(first);
        },
        PrefixKind::Unc => {
            r.append("\\\\");
            r.append(first);
            r.append("\\");
            r.append(second);
        },
        PrefixKind::Disk => {
            r.append(first);
            r.append(":");
        },
    }
    assert(r@ =~= prefix_text(kind, first@, second@));
    r
}

/// Writes the path with the given parts.
pub fn path_text(style: PathStyle, place: &Vec<Part>) -> (r: String)
    ensures
        r@ == place_text(style, part_views(place@)),
{
    let ghost all = part_views(place@);
    assert(place@.len() > 0 ==> all[0] == place@[0]@);
    if place.len() > 0 {
        if let Part::Prefix(kind, first, second) = &place[0] {
            let lead = write_prefix(*kind, first.as_str(), second.as_str());
            assert(all.skip(1) =~= all.drop_first());
            return write_tail(style, lead.as_str(), place, 1);
        }
    }
    assert(all.skip(0) =~= all);
    let r = write_tail(style, "", place, 0);
    proof {
        reveal_strlit("");
    }
    assert(r@ =~= tail_text(style, all));
    r
}

/// Follows a path from another.
pub fn path_join(style: PathStyle, base: &str, relative: &str) -> (r: String)
    ensures
        r@ == followed(style, base@, relative@),
{
    let there = chars_of(relative);
    let target = read_path(style, &there);
    if target.lead.is_some() || is_absolute(style, relative) {
        return relative.to_owned();
    }
    let here = chars_of(base);
    let origin = read_path(style, &here);
    let (lead, verbatim): (usize, bool) = match &origin.lead {
        Some(lead) => (lead.len, is_verbatim(lead.kind)),
        None => (0, false),
    };
    let before = text_between(&here, 0, lead);
    assert(before@ =~= base@.take(lead as int));
    if verbatim && there.len() > 0 {
        let all = settle_parts(path_parts(style, base), &path_parts(style, relative));
        let ghost every = part_views(all@);
        proof {
            lemma_settled_parts_keep_the_first(parts(style, base@), parts(style, relative@));
            assert(every.skip(1) =~= every.drop_first());
        }
        assert(all@.len() > 1 ==> every.drop_first()[0] == all@[1]@);
        if all.len() > 1 && !matches!(all[1], Part::Root) {
            let mut r = before;
            r.append("\\");
            return write_tail(style, r.as_str(), &all, 1);
        }
        return write_tail(style, before.as_str(), &all, 1);
    }
    if target.rooted {
        let mut r = before;
        r.append(relative);
        return r;
    }
    let mut r = base.to_owned();
    let n: usize = here.len();
    let direct = n == 0 || does_divide(style, false, here[n - 1]) || (style == PathStyle::Windows
        && n == 2 && drive_at(&here, 0));
    if !direct {
        r.append(separator_text(style));
    }
    r.append(relative);
    r
}

proof fn lemma_settled_parts_keep_the_first(base: Seq<PartView>, more: Seq<PartView>)
    requires
        base.len() > 0,
        base[0] is Prefix,
    ensures
        settled_parts(base, more).len() > 0,
        settled_parts(base, more)[0] == base[0],
    decreases more.len(),
{
    if more.len() > 0 {
        lemma_settled_parts_keep_the_first(base, more.drop_last());
    }
}

fn can_go_back(list: &Vec<Part>) -> (r: bool)
    ensures
        r == (list@.len() > 0 && is_step(part_views(list@).last())),
{
    let n: usize = list.len();
    if n == 0 {
        return false;
    }
    assert(part_views(list@).last() == list@[n - 1]@);
    match &list[n - 1] {
        Part::Name(_) | Part::Current | Part::Parent => true,
        _ => false,
    }
}

/// Goes to the place that a place lies in. Tells whether it lies in one.
pub fn go_up(place: &mut Vec<Part>) -> (r: bool)
    ensures
        match parent_of(part_views(old(place)@)) {
            Some(parent) => r && part_views(final(place)@) == parent,
            None => !r && final(place)@ == old(place)@,
        },
{
    if !can_go_back(place) {
        return false;
    }
    go_back(place);
    true
}

fn enter(style: PathStyle, place: Vec<Part>, name: &str) -> (r: Vec<Part>)
    ensures
        part_views(r@) == entered(style, part_views(place@), name@),
{
    broadcast use lemma_part_views_push;

    let ghost all = part_views(place@);
    let chars = chars_of(name);
    if find_lead(style, &chars).is_some() {
        return path_parts(style, name);
    }
    let taken = if style == PathStyle::Windows && place.len() > 0 {
        match &place[0] {
            Part::Prefix(kind, _, _) => is_verbatim(*kind),
            _ => false,
        }
    } else {
        false
    };
    assert(place@.len() > 0 ==> all[0] == place@[0]@);
    if taken {
        return settle_parts(place, &path_parts(style, name));
    }
    let mut r = place;
    r.push(Part::Name(name.to_owned()));
    r
}

fn is_absolute_place(style: PathStyle, place: &Vec<Part>) -> (r: bool)
    ensures
        r == absolute_place(style, part_views(place@)),
{
    let ghost all = part_views(place@);
    if place.len() == 0 {
        return false;
    }
    assert(all[0] == place@[0]@);
    assert(place@.len() > 1 ==> all[1] == place@[1]@);
    match (style, &place[0]) {
        (PathStyle::Unix, Part::Root) => true,
        (PathStyle::Windows, Part::Prefix(kind, _, _)) => {
            *kind != PrefixKind::Disk || (place.len() > 1 && matches!(place[1], Part::Root))
        },
        _ => false,
    }
}

/// Follows every `..` of an absolute path.
pub fn normalize_absolute(style: PathStyle, path: &str) -> (r: Option<Vec<Part>>)
    ensures
        match r {
            Some(place) => normalized(style, path@) == Some(part_views(place@)),
            None => normalized(style, path@) is None,
        },
{
    broadcast use lemma_part_views_push;

    if !is_absolute(style, path) {
        return None;
    }
    let all = path_parts(style, path);
    let ghost whole = part_views(all@);
    let mut done: Vec<Part> = Vec::new();
    let mut i: usize = 0;
    assert(whole.take(0) =~= Seq::<PartView>::empty());
    assert(part_views(done@) =~= Seq::<PartView>::empty());
    while i < all.len()
        invariant
            i <= all@.len(),
            whole == part_views(all@),
            whole == parts(style, path@),
            absolute(style, path@),
            resolved(style, whole.take(i as int)) == Some(part_views(done@)),
        decreases all.len() - i,
    {
        assert(whole.take(i + 1).drop_last() =~= whole.take(i as int));
        assert(whole.take(i + 1).last() == all@[i as int]@);
        match &all[i] {
            Part::Current => {},
            Part::Parent => {
                if !can_go_back(&done) {
                    proof {
                        lemma_resolved_start_is_nothing(style, whole, i + 1);
                    }
                    return None;
                }
                go_back(&mut done);
            },
            Part::Name(name) => {
                done = enter(style, done, name.as_str());
            },
            part => {
                done.push(copy_part(part));
            },
        }
        i = i + 1;
    }
    assert(whole.take(whole.len() as int) =~= whole);
    if is_absolute_place(style, &done) {
        Some(done)
    } else {
        None
    }
}

proof fn lemma_resolved_start_is_nothing(style: PathStyle, path: Seq<PartView>, n: int)
    requires
        0 <= n <= path.len(),
        resolved(style, path.take(n)) is None,
    ensures
        resolved(style, path) is None,
    decreases path.len() - n,
{
    if n == path.len() {
        assert(path.take(n) =~= path);
    } else {
        assert(path.take(n + 1).drop_last() =~= path.take(n));
        lemma_resolved_start_is_nothing(style, path, n + 1);
    }
}

/// Whether a name is read as a name and nothing else, wherever it is followed.
pub open spec fn plain(style: PathStyle, name: Seq<char>) -> bool {
    style == PathStyle::Unix || parts(style, name) == seq![PartView::Name(name)]
}

/// Whether the names among some parts are read as names.
pub open spec fn plainly_named(style: PathStyle, path: Seq<PartView>) -> bool {
    forall|i: int| 0 <= i < path.len() ==> (#[trigger] path[i] matches PartView::Name(name) ==> plain(style, name))
}

proof fn lemma_plain_names_are_entered(style: PathStyle, place: Seq<PartView>, name: Seq<char>)
    requires
        plain(style, name),
    ensures
        entered(style, place, name) == place.push(PartView::Name(name)),
{
    if style == PathStyle::Windows {
        let all = parts(style, name);
        assert(all[0] is Name);
        if lead_of(style, name) is Some {
            assert(all[0] is Prefix);
        }
        assert(all.drop_last() =~= Seq::<PartView>::empty());
        assert(settled_parts(place, all.drop_last()) == place);
        assert(settled_parts(place, all) =~= place.push(PartView::Name(name)));
    }
}

/// What normalization leaves of plain names holds no `..`, so that normalizing it again changes
/// nothing.
pub proof fn law_resolved_is_settled(style: PathStyle, path: Seq<PartView>)
    requires
        plainly_named(style, path),
    ensures
        resolved(style, path) matches Some(done) ==> resolved(style, done) == Some(done)
            && !done.contains(PartView::Parent) && plainly_named(style, done),
    decreases path.len(),
{
    if path.len() > 0 {
        let rest = path.drop_last();
        assert forall|i: int| 0 <= i < rest.len() implies (#[trigger] rest[i] matches PartView::Name(
            name,
        ) ==> plain(style, name)) by {
            assert(rest[i] == path[i]);
        }
        law_resolved_is_settled(style, rest);
        if let Some(done) = resolved(style, rest) {
            assert(path[path.len() - 1] == path.last());
            if path.last() is Parent {
                if done.len() > 0 && is_step(done.last()) {
                    let less = done.drop_last();
                    assert(done.last() == done[done.len() - 1]);
                    assert(!(done.last() is Parent));
                    assert(resolved(style, less) == Some(less)) by {
                        match resolved(style, less) {
                            None => {},
                            Some(d) => {
                                if let PartView::Name(name) = done.last() {
                                    lemma_plain_names_are_entered(style, d, name);
                                    assert(d.push(done.last()) == done);
                                    assert(d =~= less);
                                } else {
                                    assert(d == done);
                                    lemma_resolved_is_no_longer(style, less);
                                }
                            },
                        }
                    }
                    assert forall|k: int| 0 <= k < less.len() implies less[k] != PartView::Parent by {
                        assert(done[k] == less[k]);
                    }
                    assert forall|k: int| 0 <= k < less.len() implies (
                    #[trigger] less[k] matches PartView::Name(name) ==> plain(style, name)) by {
                        assert(done[k] == less[k]);
                    }
                }
            } else if !(path.last() is Current) {
                let more = done.push(path.last());
                if let PartView::Name(name) = path.last() {
                    lemma_plain_names_are_entered(style, done, name);
                }
                assert(more.drop_last() =~= done);
                assert forall|k: int| 0 <= k < more.len() implies more[k] != PartView::Parent by {
                    if k < done.len() {
                        assert(more[k] == done[k]);
                    }
                }
                assert forall|k: int| 0 <= k < more.len() implies (
                #[trigger] more[k] matches PartView::Name(name) ==> plain(style, name)) by {
                    if k < done.len() {
                        assert(more[k] == done[k]);
                    }
                }
            }
        }
    }
}

proof fn lemma_resolved_is_no_longer(style: PathStyle, path: Seq<PartView>)
    requires
        plainly_named(style, path),
    ensures
        resolved(style, path) matches Some(done) ==> done.len() <= path.len(),
    decreases path.len(),
{
    if path.len() > 0 {
        let rest = path.drop_last();
        assert forall|i: int| 0 <= i < rest.len() implies (#[trigger] rest[i] matches PartView::Name(
            name,
        ) ==> plain(style, name)) by {
            assert(rest[i] == path[i]);
        }
        lemma_resolved_is_no_longer(style, rest);
        if let Some(done) = resolved(style, rest) {
            assert(path[path.len() - 1] == path.last());
            if let PartView::Name(name) = path.last() {
                lemma_plain_names_are_entered(style, done, name);
            }
        }
    }
}

/// The place of a kind of prefix in their order.
pub open spec fn kind_rank(kind: PrefixKind) -> int {
    match kind {
        PrefixKind::Verbatim => 0,
        PrefixKind::VerbatimUnc => 1,
        PrefixKind::VerbatimDisk => 2,
        PrefixKind::Device => 3,
        PrefixKind::Unc => 4,
        PrefixKind::Disk => 5,
    }
}

/// The place of a kind of part in their order.
pub open spec fn part_rank(part: PartView) -> int {
    match part {
        PartView::Prefix(_, _, _) => 0,
        PartView::Root => 1,
        PartView::Current => 2,
        PartView::Parent => 3,
        PartView::Name(_) => 4,
    }
}

/// Whether a part comes before another.
pub open spec fn part_precedes(a: PartView, b: PartView) -> bool {
    match (a, b) {
        (PartView::Prefix(kind, first, second), PartView::Prefix(other, third, fourth)) => if kind
            != other {
            kind_rank(kind) < kind_rank(other)
        } else if first != third {
            precedes(first, third)
        } else {
            precedes(second, fourth)
        },
        (PartView::Name(a), PartView::Name(b)) => precedes(a, b),
        _ => part_rank(a) < part_rank(b),
    }
}

fn rank_of_kind(kind: PrefixKind) -> (r: u8)
    ensures
        r == kind_rank(kind),
{
    match kind {
        PrefixKind::Verbatim => 0,
        PrefixKind::VerbatimUnc => 1,
        PrefixKind::VerbatimDisk => 2,
        PrefixKind::Device => 3,
        PrefixKind::Unc => 4,
        PrefixKind::Disk => 5,
    }
}

fn rank_of_part(part: &Part) -> (r: u8)
    ensures
        r == part_rank(part@),
{
    match part {
        Part::Prefix(_, _, _) => 0,
        Part::Root => 1,
        Part::Current => 2,
        Part::Parent => 3,
        Part::Name(_) => 4,
    }
}

fn part_comes_before(a: &Part, b: &Part) -> (r: bool)
    ensures
        r == part_precedes(a@, b@),
{
    match (a, b) {
        (Part::Prefix(kind, first, second), Part::Prefix(other, third, fourth)) => {
            if *kind != *other {
                rank_of_kind(*kind) < rank_of_kind(*other)
            } else if !same(first.as_str(), third.as_str()) {
                comes_before(first.as_str(), third.as_str())
            } else {
                comes_before(second.as_str(), fourth.as_str())
            }
        },
        (Part::Name(a), Part::Name(b)) => comes_before(a.as_str(), b.as_str()),
        _ => rank_of_part(a) < rank_of_part(b),
    }
}

/// Whether a path comes before another: by their parts, from the first on.
pub open spec fn parts_precede(a: Seq<PartView>, b: Seq<PartView>) -> bool
    decreases a.len(),
{
    if b.len() == 0 {
        false
    } else if a.len() == 0 {
        true
    } else if a[0] == b[0] {
        parts_precede(a.drop_first(), b.drop_first())
    } else {
        part_precedes(a[0], b[0])
    }
}

/// Whether a path comes before another.
pub fn parts_come_before(a: &Vec<Part>, b: &Vec<Part>) -> (r: bool)
    ensures
        r == parts_precede(part_views(a@), part_views(b@)),
{
    let ghost x = part_views(a@);
    let ghost y = part_views(b@);
    let mut i: usize = 0;
    assert(x.skip(0) =~= x && y.skip(0) =~= y);
    while i < a.len() && i < b.len()
        invariant
            i <= a@.len(),
            i <= b@.len(),
            x == part_views(a@),
            y == part_views(b@),
            parts_precede(x, y) == parts_precede(x.skip(i as int), y.skip(i as int)),
        decreases a.len() - i,
    {
        assert(x.skip(i as int)[0] == a@[i as int]@ && y.skip(i as int)[0] == b@[i as int]@);
        if !same_part(&a[i], &b[i]) {
            return part_comes_before(&a[i], &b[i]);
        }
        assert(x.skip(i as int).drop_first() =~= x.skip(i + 1));
        assert(y.skip(i as int).drop_first() =~= y.skip(i + 1));
        i = i + 1;
    }
    i < b.len()
}

proof fn lemma_lead_len(style: PathStyle, s: Seq<char>)
    ensures
        0 <= lead_len(style, s) <= s.len(),
{
    let w = PathStyle::Windows;
    if s.len() >= 2 {
        lemma_piece_end(w, false, s, 2);
        let end = piece_end(w, false, s, 2);
        if end < s.len() {
            lemma_piece_end(w, false, s, end + 1);
        }
    }
    if s.len() >= 4 {
        lemma_piece_end(w, false, s, 4);
        lemma_piece_end(w, true, s, 4);
    }
    if s.len() >= 8 {
        lemma_piece_end(w, true, s, 8);
        let end = piece_end(w, true, s, 8);
        if end < s.len() {
            lemma_piece_end(w, true, s, end + 1);
        }
    }
}

proof fn lemma_spans(style: PathStyle, verbatim: bool, s: Seq<char>, from: int)
    requires
        0 <= from,
    ensures
        forall|k: int|
            0 <= k < spans(style, verbatim, s, from).len() ==> from <= (#[trigger] spans(
                style,
                verbatim,
                s,
                from,
            )[k]).0 <= spans(style, verbatim, s, from)[k].1 <= s.len(),
        forall|k: int|
            0 <= k < spans(style, verbatim, s, from).len() ==> (#[trigger] spans(
                style,
                verbatim,
                s,
                from,
            )[k]).0 <= spans(style, verbatim, s, from).last().1,
    decreases s.len() + 1 - from,
{
    if from <= s.len() {
        lemma_piece_end(style, verbatim, s, from);
        let end = piece_end(style, verbatim, s, from);
        lemma_spans(style, verbatim, s, end + 1);
        let rest = spans(style, verbatim, s, end + 1);
        let all = spans(style, verbatim, s, from);
        if counts(verbatim, s.subrange(from, end)) {
            assert(forall|k: int| 1 <= k < all.len() ==> (#[trigger] all[k]) == rest[k - 1]);
            assert(rest.len() > 0 ==> all.last() == rest.last() && rest[0].0 <= rest.last().1);
        }
    }
}

/// The text of a path behind some of its parts is a part of the path as it stands.
pub proof fn law_text_behind_is_of_the_path(style: PathStyle, s: Seq<char>, n: int)
    ensures
        occurs(s, text_behind(style, s, n)),
{
    let all = body_spans(style, s);
    let start = body_start(style, s);
    lemma_lead_len(style, s);
    lemma_spans(style, verbatim(style, s), s, start);
    let lead = lead_parts(style, s).len() as int;
    let begin = start_parts(style, s).len() as int;
    let to = if all.len() == 0 {
        start
    } else {
        all.last().1
    };
    let from = if n <= 0 {
        0
    } else if n <= lead {
        lead_len(style, s)
    } else if n - lead - begin < all.len() {
        all[n - lead - begin].0
    } else {
        to
    };
    assert(all.len() > 0 ==> start <= all[0].0 <= all.last().1 <= s.len());
    assert(0 <= from <= to <= s.len());
    let text = text_behind(style, s, n);
    assert(s.subrange(from, from + text.len()) =~= text);
    assert(stands_at(s, text, from));
}

/// Whether a text is the name of something in a directory of a Unix host.
pub open spec fn is_file_name(name: Seq<char>) -> bool {
    &&& name.len() > 0
    &&& name != "."@
    &&& name != ".."@
    &&& forall|i: int| 0 <= i < name.len() ==> #[trigger] name[i] != '/'
}

proof fn lemma_piece_end_stays(base: Seq<char>, rest: Seq<char>, from: int)
    requires
        0 <= from <= base.len(),
        rest.len() > 0,
        rest[0] == '/',
    ensures
        piece_end(PathStyle::Unix, false, base + rest, from) == piece_end(
            PathStyle::Unix,
            false,
            base,
            from,
        ),
    decreases base.len() - from,
{
    let all = base + rest;
    if from < base.len() {
        assert(all[from] == base[from]);
        if base[from] != '/' {
            lemma_piece_end_stays(base, rest, from + 1);
        }
    } else {
        assert(all[from] == rest[0]);
    }
}

proof fn lemma_spans_go_on(base: Seq<char>, rest: Seq<char>, from: int)
    requires
        0 <= from <= base.len() + 1,
        rest.len() > 0,
        rest[0] == '/',
    ensures
        spans(PathStyle::Unix, false, base + rest, from) == spans(
            PathStyle::Unix,
            false,
            base,
            from,
        ) + spans(PathStyle::Unix, false, base + rest, base.len() as int + 1),
    decreases base.len() + 1 - from,
{
    let style = PathStyle::Unix;
    let all = base + rest;
    let after = spans(style, false, all, base.len() as int + 1);
    if from == base.len() + 1 {
        assert(spans(style, false, base, from) + after =~= after);
    } else {
        lemma_piece_end(style, false, base, from);
        lemma_piece_end_stays(base, rest, from);
        let end = piece_end(style, false, base, from);
        lemma_spans_go_on(base, rest, end + 1);
        assert(all.subrange(from, end) =~= base.subrange(from, end));
        let before = spans(style, false, base, end + 1);
        assert(seq![(from, end)] + (before + after) =~= (seq![(from, end)] + before) + after);
    }
}

proof fn lemma_piece_end_of_a_name(s: Seq<char>, from: int, at: int)
    requires
        0 <= from <= at <= s.len(),
        forall|i: int| from <= i < s.len() ==> #[trigger] s[i] != '/',
    ensures
        piece_end(PathStyle::Unix, false, s, at) == s.len(),
    decreases s.len() - at,
{
    if at < s.len() {
        lemma_piece_end_of_a_name(s, from, at + 1);
    }
}

proof fn lemma_spans_of_a_name(stem: Seq<char>, name: Seq<char>)
    requires
        is_file_name(name),
    ensures
        spans(PathStyle::Unix, false, stem + "/"@ + name, stem.len() as int + 1) == seq![
            (stem.len() as int + 1, stem.len() as int + 1 + name.len() as int),
        ],
{
    reveal_strlit("/");
    let style = PathStyle::Unix;
    let s = stem + "/"@ + name;
    let from = stem.len() as int + 1;
    assert forall|i: int| from <= i < s.len() implies #[trigger] s[i] != '/' by {
        assert(s[i] == name[i - from]);
    }
    lemma_piece_end_of_a_name(s, from, from);
    assert(s.subrange(from, s.len() as int) =~= name);
    let rest = spans(style, false, s, s.len() as int + 1);
    assert(rest =~= Seq::<(int, int)>::empty());
    assert(seq![(from, s.len() as int)] + rest =~= seq![(from, s.len() as int)]);
}

/// Following a name from a path on a Unix host leads one name further, and nowhere else.
pub proof fn law_a_name_leads_one_further(base: Seq<char>, name: Seq<char>)
    requires
        base.len() > 0,
        is_file_name(name),
    ensures
        parts(PathStyle::Unix, followed(PathStyle::Unix, base, name)) == parts(
            PathStyle::Unix,
            base,
        ).push(PartView::Name(name)),
{
    reveal_strlit("/");
    let style = PathStyle::Unix;
    let s = followed(style, base, name);
    assert(!rooted(style, name)) by {
        assert(name[0] != '/');
    }
    let slashed = base.last() == '/';
    let stem = if slashed {
        base.drop_last()
    } else {
        base
    };
    let tail = "/"@ + name;
    assert(s =~= stem + tail);
    assert(s =~= stem + "/"@ + name);
    assert(s[0] == base[0]);
    assert(base.len() > 1 ==> s[1] == base[1]);
    assert(base.len() == 1 && !slashed ==> s[1] == '/');
    let start = body_start(style, base);
    assert(body_start(style, s) == start);
    lemma_spans_of_a_name(stem, name);
    lemma_spans_go_on(stem, tail, start);
    let last = (stem.len() as int + 1, stem.len() as int + 1 + name.len() as int);
    let before = body_spans(style, base);
    if slashed {
        assert(base =~= stem + "/"@);
        lemma_spans_go_on(stem, "/"@, start);
        let end = spans(style, false, base, stem.len() as int + 1);
        lemma_piece_end(style, false, base, base.len() as int);
        assert(base.subrange(base.len() as int, base.len() as int).len() == 0);
        assert(spans(style, false, base, base.len() as int + 1) =~= Seq::<(int, int)>::empty());
        assert(end =~= Seq::<(int, int)>::empty());
        assert(before =~= spans(style, false, stem, start));
    }
    let all = body_spans(style, s);
    assert(all =~= before.push(last));
    lemma_spans(style, false, base, start);
    assert forall|k: int| 0 <= k < before.len() implies s.subrange(before[k].0, before[k].1)
        == base.subrange(before[k].0, before[k].1) by {
        assert(s.subrange(before[k].0, before[k].1) =~= base.subrange(before[k].0, before[k].1));
    }
    assert(s.subrange(last.0, last.1) =~= name);
    assert(body_parts(style, s) =~= body_parts(style, base).push(PartView::Name(name)));
    assert(parts(style, s) =~= parts(style, base).push(PartView::Name(name)));
}

} // verus!
