//! What paths begin with, and where one leads from another.

use crate::path::{
    absolute, divides, followed, lead_of, piece_end, verbatim, LeadView, PathStyle, PrefixKind,
};
use vstd::prelude::*;

verus! {

proof fn lemma_piece_ends(v: bool, s: Seq<char>, from: int, end: int)
    requires
        0 <= from <= end <= s.len(),
        forall|k: int| from <= k < end ==> !divides(PathStyle::Windows, v, #[trigger] s[k]),
        end < s.len() ==> divides(PathStyle::Windows, v, s[end]),
    ensures
        piece_end(PathStyle::Windows, v, s, from) == end,
    decreases end - from,
{
    if from < end {
        assert(!divides(PathStyle::Windows, v, s[from]));
        lemma_piece_ends(v, s, from + 1, end);
    }
}

/// Whether a text has no separator in it.
pub open spec fn is_whole(name: Seq<char>) -> bool {
    forall|k: int| 0 <= k < name.len() ==> #[trigger] name[k] != '/' && name[k] != '\\'
}

/// Whether a text is nothing, or begins with a backslash.
pub open spec fn goes_on_below(rest: Seq<char>) -> bool {
    rest.len() > 0 ==> rest[0] == '\\'
}

/// A drive is the same drive by its small letter and by its capital one. A path on it is absolute if a
/// separator follows, and on another system no drive is named at all.
pub proof fn law_drives_are_told_alike(small: char, big: char, rest: Seq<char>)
    requires
        'a' <= small <= 'z',
        big as int == small as int - 32,
    ensures
        ({
            let s = seq![small, ':'] + rest;
            let t = seq![big, ':'] + rest;
            let drive = LeadView {
                kind: PrefixKind::Disk,
                first: seq![big],
                second: Seq::empty(),
                len: 2,
            };
            &&& lead_of(PathStyle::Windows, s) == Some(drive)
            &&& lead_of(PathStyle::Windows, t) == Some(drive)
            &&& lead_of(PathStyle::Unix, s) is None
            &&& !verbatim(PathStyle::Windows, s)
            &&& absolute(PathStyle::Windows, s) <==> rest.len() > 0 && (rest[0] == '/' || rest[0]
                == '\\')
            &&& absolute(PathStyle::Windows, s) <==> absolute(PathStyle::Windows, t)
        }),
{
    let s = seq![small, ':'] + rest;
    let t = seq![big, ':'] + rest;
    assert(s[0] == small && s[1] == ':');
    assert(t[0] == big && t[1] == ':');
    if rest.len() > 0 {
        assert(s[2] == rest[0]);
        assert(t[2] == rest[0]);
    }
}

/// A path that begins with two backslashes names a server and a share of it, and is absolute. A dot and
/// a question mark are no servers.
pub proof fn law_shares_are_named(server: Seq<char>, share: Seq<char>, rest: Seq<char>)
    requires
        server.len() > 0,
        share.len() > 0,
        is_whole(server),
        is_whole(share),
        server != seq!['.'],
        server != seq!['?'],
        goes_on_below(rest),
    ensures
        ({
            let s = seq!['\\', '\\'] + server + seq!['\\'] + share + rest;
            &&& lead_of(PathStyle::Windows, s) == Some(
                LeadView {
                    kind: PrefixKind::Unc,
                    first: server,
                    second: share,
                    len: 3int + server.len() + share.len(),
                },
            )
            &&& absolute(PathStyle::Windows, s)
            &&& !verbatim(PathStyle::Windows, s)
        }),
{
    let s = seq!['\\', '\\'] + server + seq!['\\'] + share + rest;
    let n = server.len() as int;
    let m = share.len() as int;
    assert(s[0] == '\\' && s[1] == '\\' && s[2 + n] == '\\');
    assert forall|k: int| 2 <= k < 2 + n implies !divides(
        PathStyle::Windows,
        false,
        #[trigger] s[k],
    ) by {
        assert(s[k] == server[k - 2]);
    }
    assert forall|k: int| 3 + n <= k < 3 + n + m implies !divides(
        PathStyle::Windows,
        false,
        #[trigger] s[k],
    ) by {
        assert(s[k] == share[k - 3 - n]);
    }
    if rest.len() > 0 {
        assert(s[3 + n + m] == rest[0]);
    }
    lemma_piece_ends(false, s, 2, 2 + n);
    lemma_piece_ends(false, s, 3 + n, 3 + n + m);
    assert(s.subrange(2, 2 + n) =~= server);
    assert(s.subrange(3 + n, 3 + n + m) =~= share);
    assert(s[2] == server[0]);
    if n == 1 {
        assert(server =~= seq![server[0]]);
    } else {
        assert(s[3] == server[1]);
    }
}

/// A verbatim path names a drive, a share of a server or something else, as it says; and it is absolute.
pub proof fn law_verbatim_paths_name_what_they_say(
    small: char,
    big: char,
    server: Seq<char>,
    share: Seq<char>,
    rest: Seq<char>,
)
    requires
        'a' <= small <= 'z',
        big as int == small as int - 32,
        is_whole(server),
        share.len() > 0,
        is_whole(share),
        goes_on_below(rest),
    ensures
        ({
            let begin = seq!['\\', '\\', '?', '\\'];
            let drive = begin + seq![small, ':'] + rest;
            let shared = begin + seq!['U', 'N', 'C', '\\'] + server + seq!['\\'] + share + rest;
            &&& lead_of(PathStyle::Windows, drive) == Some(
                LeadView {
                    kind: PrefixKind::VerbatimDisk,
                    first: seq![big],
                    second: Seq::empty(),
                    len: 6,
                },
            )
            &&& lead_of(PathStyle::Windows, shared) == Some(
                LeadView {
                    kind: PrefixKind::VerbatimUnc,
                    first: server,
                    second: share,
                    len: 9int + server.len() + share.len(),
                },
            )
            &&& absolute(PathStyle::Windows, drive)
            &&& absolute(PathStyle::Windows, shared)
            &&& verbatim(PathStyle::Windows, drive)
            &&& verbatim(PathStyle::Windows, shared)
        }),
{
    let begin = seq!['\\', '\\', '?', '\\'];
    let drive = begin + seq![small, ':'] + rest;
    assert(drive[0] == '\\' && drive[1] == '\\' && drive[2] == '?' && drive[3] == '\\');
    assert(drive[4] == small && drive[5] == ':');
    if rest.len() > 0 {
        assert(drive[6] == rest[0]);
    }
    let s = begin + seq!['U', 'N', 'C', '\\'] + server + seq!['\\'] + share + rest;
    let n = server.len() as int;
    let m = share.len() as int;
    assert(s[0] == '\\' && s[1] == '\\' && s[2] == '?' && s[3] == '\\');
    assert(s[4] == 'U' && s[5] == 'N' && s[6] == 'C' && s[7] == '\\' && s[8 + n] == '\\');
    assert forall|k: int| 8 <= k < 8 + n implies !divides(
        PathStyle::Windows,
        true,
        #[trigger] s[k],
    ) by {
        assert(s[k] == server[k - 8]);
    }
    assert forall|k: int| 9 + n <= k < 9 + n + m implies !divides(
        PathStyle::Windows,
        true,
        #[trigger] s[k],
    ) by {
        assert(s[k] == share[k - 9 - n]);
    }
    if rest.len() > 0 {
        assert(s[9 + n + m] == rest[0]);
    }
    lemma_piece_ends(true, s, 8, 8 + n);
    lemma_piece_ends(true, s, 9 + n, 9 + n + m);
    assert(s.subrange(8, 8 + n) =~= server);
    assert(s.subrange(9 + n, 9 + n + m) =~= share);
}

/// A path that begins at the root leads to where it says from everywhere. Another leads to the same
/// names below where it is followed from: both are there in whole, with one slash between them where
/// the first does not end in one.
pub proof fn law_paths_are_followed(base: Seq<char>, relative: Seq<char>)
    ensures
        ({
            let made = followed(PathStyle::Unix, base, relative);
            let n = base.len() as int;
            &&& relative.len() > 0 && relative[0] == '/' ==> made == relative
            &&& !(relative.len() > 0 && relative[0] == '/') ==> {
                &&& made.len() >= n + relative.len()
                &&& made.take(n) == base
                &&& made.skip(made.len() - relative.len()) == relative
                &&& n == 0 || base[n - 1] == '/' ==> made.len() == n + relative.len()
                &&& n > 0 && base[n - 1] != '/' ==> made.len() == n + 1 + relative.len() && made[n]
                    == '/'
            }
        }),
{
    reveal_strlit("/");
    assert("/"@.len() == 1 && "/"@[0] == '/');
    let made = followed(PathStyle::Unix, base, relative);
    if !(relative.len() > 0 && relative[0] == '/') {
        assert(made.take(base.len() as int) =~= base);
        assert(made.skip(made.len() - relative.len()) =~= relative);
    }
}

} // verus!
