//! Texts as sequences of characters: comparison, trimming, searching, decimal numerals.
//!
//! Contracts speak of the characters of a text (`s@`), never of its bytes, unless a byte count is
//! what is meant.

use vstd::prelude::*;

verus! {

/// `str::eq` compares the two texts byte by byte, which for UTF-8 is character by character.
pub assume_specification[ <str as PartialEq>::eq ](a: &str, b: &str) -> (r: bool)
    ensures
        r == (a@ == b@),
;

/// `String::push` appends one character.
pub assume_specification[ String::push ](s: &mut String, c: char)
    ensures
        final(s)@ == old(s)@.push(c),
;

/// Whether two texts are the same.
pub fn same(a: &str, b: &str) -> (r: bool)
    ensures
        r == (a@ == b@),
{
    *a == *b
}

/// The characters of a text.
pub fn chars_of(s: &str) -> (r: Vec<char>)
    ensures
        r@ == s@,
{
    let mut r: Vec<char> = Vec::new();
    for c in it: s.chars()
        invariant
            r@ == it.seq().take(it.index()),
            it.seq() == s@,
    {
        r.push(c);
        assert(it.seq().take(it.index() + 1) =~= it.seq().take(it.index()).push(c));
    }
    assert(s@.take(s@.len() as int) =~= s@);
    r
}

/// The text made of the given characters.
pub fn text_of(chars: &[char]) -> (r: String)
    ensures
        r@ == chars@,
{
    let mut r = String::new();
    let mut i: usize = 0;
    while i < chars.len()
        invariant
            0 <= i <= chars.len(),
            r@ == chars@.take(i as int),
        decreases chars.len() - i,
    {
        r.push(chars[i]);
        assert(chars@.take(i + 1) =~= chars@.take(i as int).push(chars[i as int]));
        i = i + 1;
    }
    assert(chars@.take(chars@.len() as int) =~= chars@);
    r
}

/// The characters with Unicode's White_Space property.
pub open spec fn white(c: char) -> bool {
    let u = c as u32;
    ||| 0x9 <= u <= 0xd
    ||| u == 0x20
    ||| u == 0x85
    ||| u == 0xa0
    ||| u == 0x1680
    ||| 0x2000 <= u <= 0x200a
    ||| u == 0x2028
    ||| u == 0x2029
    ||| u == 0x202f
    ||| u == 0x205f
    ||| u == 0x3000
}

/// Whether a character is white space.
pub fn is_white(c: char) -> (r: bool)
    ensures
        r == white(c),
{
    let u: u32 = c as u32;
    (0x9 <= u && u <= 0xd) || u == 0x20 || u == 0x85 || u == 0xa0 || u == 0x1680 || (0x2000 <= u
        && u <= 0x200a) || u == 0x2028 || u == 0x2029 || u == 0x202f || u == 0x205f || u == 0x3000
}

/// A text without its leading white space.
pub open spec fn trim_start(s: Seq<char>) -> Seq<char>
    decreases s.len(),
{
    if s.len() > 0 && white(s[0]) {
        trim_start(s.drop_first())
    } else {
        s
    }
}

/// A text without its trailing white space.
pub open spec fn trim_end(s: Seq<char>) -> Seq<char>
    decreases s.len(),
{
    if s.len() > 0 && white(s.last()) {
        trim_end(s.drop_last())
    } else {
        s
    }
}

/// A text without white space at either end.
pub open spec fn trimmed(s: Seq<char>) -> Seq<char> {
    trim_end(trim_start(s))
}

/// Trims a text.
pub fn trim(s: &str) -> (r: String)
    ensures
        r@ == trimmed(s@),
{
    let chars = chars_of(s);
    let n: usize = chars.len();
    let mut i: usize = 0;
    assert(s@.skip(0) =~= s@);
    while i < n && is_white(chars[i])
        invariant
            0 <= i <= n,
            n == chars.len(),
            chars@ == s@,
            trim_start(s@) == trim_start(s@.skip(i as int)),
        decreases n - i,
    {
        assert(s@.skip(i as int).drop_first() =~= s@.skip(i + 1));
        i = i + 1;
    }
    let ghost front = s@.skip(i as int);
    assert(trim_start(s@) == front);
    let mut j: usize = n;
    assert(front.take(n - i) =~= front);
    while i < j && is_white(chars[j - 1])
        invariant
            0 <= i <= j <= n,
            n == chars.len(),
            chars@ == s@,
            front == s@.skip(i as int),
            trim_end(front) == trim_end(front.take(j - i)),
        decreases j,
    {
        assert(front.take(j - i).last() == chars@[j - 1]);
        assert(front.take(j - i).drop_last() =~= front.take(j - i - 1));
        j = j - 1;
    }
    proof {
        if i < j {
            assert(front.take(j - i).last() == chars@[j - 1]);
        }
        assert(trim_end(front) == front.take(j - i));
        assert(front.take(j - i) =~= s@.subrange(i as int, j as int));
    }
    s.substring_char(i, j).to_owned()
}

/// Whether nothing but white space is in a text.
pub fn is_blank(s: &str) -> (r: bool)
    ensures
        r == (trimmed(s@).len() == 0),
{
    trim(s).as_str().is_empty()
}

/// Whether `needle` stands in `hay` at index `i`.
pub open spec fn stands_at(hay: Seq<char>, needle: Seq<char>, i: int) -> bool {
    &&& 0 <= i
    &&& i + needle.len() <= hay.len()
    &&& hay.subrange(i, i + needle.len()) == needle
}

/// Whether `hay` begins with `needle`.
pub open spec fn begins_with(hay: Seq<char>, needle: Seq<char>) -> bool {
    stands_at(hay, needle, 0)
}

/// Whether `hay` ends with `needle`.
pub open spec fn ends_with(hay: Seq<char>, needle: Seq<char>) -> bool {
    stands_at(hay, needle, hay.len() - needle.len())
}

/// Whether `needle` stands anywhere in `hay`.
pub open spec fn occurs(hay: Seq<char>, needle: Seq<char>) -> bool {
    exists|i: int| stands_at(hay, needle, i)
}

fn stands_at_exec(hay: &Vec<char>, needle: &Vec<char>, i: usize) -> (r: bool)
    requires
        i + needle.len() <= hay.len(),
    ensures
        r == stands_at(hay@, needle@, i as int),
{
    let mut k: usize = 0;
    while k < needle.len()
        invariant
            0 <= k <= needle.len(),
            i + needle.len() <= hay.len(),
            forall|m: int| 0 <= m < k ==> hay@[i + m] == needle@[m],
        decreases needle.len() - k,
    {
        if hay[i + k] != needle[k] {
            assert(hay@.subrange(i as int, i + needle.len())[k as int] != needle@[k as int]);
            return false;
        }
        k = k + 1;
    }
    assert(hay@.subrange(i as int, i + needle.len()) =~= needle@);
    true
}

/// Tests for a prefix.
pub fn has_prefix(hay: &str, needle: &str) -> (r: bool)
    ensures
        r == begins_with(hay@, needle@),
{
    let h = chars_of(hay);
    let n = chars_of(needle);
    if n.len() > h.len() {
        return false;
    }
    stands_at_exec(&h, &n, 0)
}

/// Tests for a suffix.
pub fn has_suffix(hay: &str, needle: &str) -> (r: bool)
    ensures
        r == ends_with(hay@, needle@),
{
    let h = chars_of(hay);
    let n = chars_of(needle);
    if n.len() > h.len() {
        return false;
    }
    stands_at_exec(&h, &n, h.len() - n.len())
}

/// Tests whether `needle` stands anywhere in `hay`.
pub fn contains(hay: &str, needle: &str) -> (r: bool)
    ensures
        r == occurs(hay@, needle@),
{
    let h = chars_of(hay);
    let n = chars_of(needle);
    if n.len() > h.len() {
        return false;
    }
    let last: usize = h.len() - n.len();
    let mut i: usize = 0;
    while i <= last
        invariant
            0 <= i <= last + 1,
            last == h.len() - n.len(),
            h@ == hay@,
            n@ == needle@,
            forall|k: int| 0 <= k < i ==> !stands_at(hay@, needle@, k),
        decreases last + 1 - i,
    {
        if stands_at_exec(&h, &n, i) {
            return true;
        }
        if i == last {
            return false;
        }
        i = i + 1;
    }
    false
}

/// A text without a prefix that it begins with.
pub fn strip_prefix(s: &str, prefix: &str) -> (r: Option<String>)
    ensures
        match r {
            Some(rest) => begins_with(s@, prefix@) && rest@ == s@.skip(prefix@.len() as int),
            None => !begins_with(s@, prefix@),
        },
{
    if has_prefix(s, prefix) {
        let n: usize = prefix.unicode_len();
        let total: usize = s.unicode_len();
        assert(s@.subrange(n as int, total as int) =~= s@.skip(n as int));
        Some(s.substring_char(n, total).to_owned())
    } else {
        None
    }
}

/// A text without a suffix that it ends with.
pub fn strip_suffix(s: &str, suffix: &str) -> (r: Option<String>)
    ensures
        match r {
            Some(rest) => ends_with(s@, suffix@) && rest@ == s@.take(s@.len() - suffix@.len()),
            None => !ends_with(s@, suffix@),
        },
{
    if has_suffix(s, suffix) {
        let n: usize = suffix.unicode_len();
        let total: usize = s.unicode_len();
        Some(s.substring_char(0, total - n).to_owned())
    } else {
        None
    }
}

/// The lower-case letter of an ASCII capital, any other character as it is.
pub open spec fn ascii_lower(c: char) -> char {
    if 'A' <= c && c <= 'Z' {
        ((c as u8 + 32) as u8) as char
    } else {
        c
    }
}

/// A text in ASCII lower case.
pub open spec fn lowered(s: Seq<char>) -> Seq<char> {
    s.map_values(|c: char| ascii_lower(c))
}

fn lower_char(c: char) -> (r: char)
    ensures
        r == ascii_lower(c),
{
    if 'A' <= c && c <= 'Z' {
        let b: u8 = c as u8;
        (b + 32) as char
    } else {
        c
    }
}

/// Lowers the ASCII capitals of a text.
pub fn to_lower(s: &str) -> (r: String)
    ensures
        r@ == lowered(s@),
{
    let chars = chars_of(s);
    let mut r = String::new();
    let mut i: usize = 0;
    while i < chars.len()
        invariant
            0 <= i <= chars.len(),
            chars@ == s@,
            r@ == lowered(s@.take(i as int)),
        decreases chars.len() - i,
    {
        r.push(lower_char(chars[i]));
        assert(lowered(s@.take(i + 1)) =~= lowered(s@.take(i as int)).push(ascii_lower(s@[i as int])));
        i = i + 1;
    }
    assert(s@.take(s@.len() as int) =~= s@);
    r
}

/// Whether two texts differ at most in the case of ASCII letters.
pub fn same_ignoring_case(a: &str, b: &str) -> (r: bool)
    ensures
        r == (lowered(a@) == lowered(b@)),
{
    to_lower(a) == to_lower(b)
}

/// The decimal digit of a number below ten.
pub open spec fn digit(n: nat) -> char {
    ((48 + n) as u8) as char
}

/// The decimal numeral of a number.
pub open spec fn decimal(n: nat) -> Seq<char>
    decreases n,
{
    if n < 10 {
        seq![digit(n)]
    } else {
        decimal(n / 10).push(digit(n % 10))
    }
}

/// Writes a number in decimal.
pub fn number(n: u64) -> (r: String)
    ensures
        r@ == decimal(n as nat),
    decreases n,
{
    let low: u8 = (n % 10) as u8;
    let c: char = (48 + low) as char;
    if n < 10 {
        let mut r = String::new();
        r.push(c);
        assert(r@ =~= seq![digit(n as nat)]);
        r
    } else {
        let mut r = number(n / 10);
        r.push(c);
        r
    }
}

/// A text in double quotes, with the escapes that Rust's `Debug` writes.
pub uninterp spec fn debug_text(s: Seq<char>) -> Seq<char>;

/// The `Debug` form of a `str`, which depends on the text alone.
#[verifier::external_body]
pub(crate) fn quoted(s: &str) -> (r: String)
    ensures
        r@ == debug_text(s@),
{
    format!("{:?}", s)
}

/// Texts joined by a separator.
pub open spec fn joined(parts: Seq<Seq<char>>, separator: Seq<char>) -> Seq<char>
    decreases parts.len(),
{
    if parts.len() == 0 {
        Seq::empty()
    } else if parts.len() == 1 {
        parts[0]
    } else {
        joined(parts.drop_last(), separator) + separator + parts.last()
    }
}

/// The characters of each text of a list.
pub open spec fn texts(list: Seq<String>) -> Seq<Seq<char>> {
    list.map_values(|s: String| s@)
}

/// Appending a text to a list appends its characters.
pub broadcast proof fn lemma_texts_push(list: Seq<String>, s: String)
    ensures
        #[trigger] texts(list.push(s)) == texts(list).push(s@),
{
    assert(texts(list.push(s)) =~= texts(list).push(s@));
}

/// Joins texts.
pub fn join(parts: &Vec<String>, separator: &str) -> (r: String)
    ensures
        r@ == joined(texts(parts@), separator@),
{
    let ghost all = texts(parts@);
    if parts.len() == 0 {
        return String::new();
    }
    let mut r = parts[0].clone();
    let mut i: usize = 1;
    assert(all.take(1).len() == 1);
    while i < parts.len()
        invariant
            1 <= i <= parts.len(),
            all == texts(parts@),
            r@ == joined(all.take(i as int), separator@),
        decreases parts.len() - i,
    {
        r.append(separator);
        r.append(parts[i].as_str());
        assert(all.take(i + 1).drop_last() =~= all.take(i as int));
        assert(all.take(i + 1).last() == parts@[i as int]@);
        i = i + 1;
    }
    assert(all.take(all.len() as int) =~= all);
    r
}

/// Whether a list holds a text.
pub fn holds(list: &Vec<String>, s: &str) -> (r: bool)
    ensures
        r == texts(list@).contains(s@),
{
    let mut i: usize = 0;
    while i < list.len()
        invariant
            i <= list.len(),
            forall|k: int| 0 <= k < i ==> list@[k]@ != s@,
        decreases list.len() - i,
    {
        if same(list[i].as_str(), s) {
            assert(texts(list@)[i as int] == s@);
            return true;
        }
        i = i + 1;
    }
    assert forall|k: int| 0 <= k < texts(list@).len() implies texts(list@)[k] != s@ by {}
    false
}

/// Whether a text comes before another: by the first character in which they differ, a text before
/// its continuations.
pub open spec fn precedes(a: Seq<char>, b: Seq<char>) -> bool
    decreases a.len(),
{
    if b.len() == 0 {
        false
    } else if a.len() == 0 {
        true
    } else if a[0] != b[0] {
        a[0] < b[0]
    } else {
        precedes(a.drop_first(), b.drop_first())
    }
}

/// No text comes before itself.
pub proof fn lemma_precedes_irreflexive(a: Seq<char>)
    ensures
        !precedes(a, a),
    decreases a.len(),
{
    if a.len() > 0 {
        lemma_precedes_irreflexive(a.drop_first());
    }
}

/// Of two texts that differ, exactly one comes before the other.
pub proof fn lemma_precedes_total(a: Seq<char>, b: Seq<char>)
    ensures
        a != b ==> precedes(a, b) != precedes(b, a),
        a == b ==> !precedes(a, b),
    decreases a.len(),
{
    if a == b {
        lemma_precedes_irreflexive(a);
    } else if a.len() == 0 || b.len() == 0 {
        if a.len() == 0 && b.len() == 0 {
            assert(a =~= b);
        }
    } else if a[0] == b[0] {
        let (x, y) = (a.drop_first(), b.drop_first());
        lemma_precedes_total(x, y);
        if x == y {
            assert(a =~= seq![a[0]] + x);
            assert(b =~= seq![b[0]] + y);
        }
    }
}

/// The order of texts is transitive.
pub proof fn lemma_precedes_transitive(a: Seq<char>, b: Seq<char>, c: Seq<char>)
    requires
        precedes(a, b),
        precedes(b, c),
    ensures
        precedes(a, c),
    decreases a.len(),
{
    if a.len() > 0 && a[0] == b[0] && b[0] == c[0] {
        lemma_precedes_transitive(a.drop_first(), b.drop_first(), c.drop_first());
    }
}

/// Compares two texts.
pub fn comes_before(a: &str, b: &str) -> (r: bool)
    ensures
        r == precedes(a@, b@),
{
    let x = chars_of(a);
    let y = chars_of(b);
    let mut i: usize = 0;
    assert(a@.skip(0) =~= a@);
    assert(b@.skip(0) =~= b@);
    while i < x.len() && i < y.len()
        invariant
            i <= x.len(),
            i <= y.len(),
            x@ == a@,
            y@ == b@,
            precedes(a@, b@) == precedes(a@.skip(i as int), b@.skip(i as int)),
        decreases x.len() - i,
    {
        if x[i] != y[i] {
            return x[i] < y[i];
        }
        assert(a@.skip(i as int).drop_first() =~= a@.skip(i + 1));
        assert(b@.skip(i as int).drop_first() =~= b@.skip(i + 1));
        i = i + 1;
    }
    i < y.len()
}

/// The characters of a text that may be missing.
pub open spec fn maybe(s: Option<String>) -> Option<Seq<char>> {
    match s {
        Some(s) => Some(s@),
        None => None,
    }
}

/// The characters of a borrowed text that may be missing.
pub open spec fn maybe_str(s: Option<&str>) -> Option<Seq<char>> {
    match s {
        Some(s) => Some(s@),
        None => None,
    }
}

/// Copies a text that may be missing.
pub fn copy_maybe(s: &Option<String>) -> (r: Option<String>)
    ensures
        maybe(r) == maybe(*s),
{
    match s {
        Some(s) => Some(s.clone()),
        None => None,
    }
}

/// A list of texts with one more, before the first that it precedes.
pub open spec fn inserted_text(list: Seq<Seq<char>>, s: Seq<char>) -> Seq<Seq<char>>
    decreases list.len(),
{
    if list.len() == 0 {
        seq![s]
    } else if precedes(s, list[0]) {
        seq![s] + list
    } else {
        seq![list[0]] + inserted_text(list.drop_first(), s)
    }
}

/// A list of texts in their order.
pub open spec fn sorted_texts(list: Seq<Seq<char>>) -> Seq<Seq<char>>
    decreases list.len(),
{
    if list.len() == 0 {
        Seq::empty()
    } else {
        inserted_text(sorted_texts(list.drop_last()), list.last())
    }
}

/// Whether texts stand in their order.
pub open spec fn ascending_texts(list: Seq<Seq<char>>) -> bool {
    forall|i: int, j: int|
        0 <= i < j < list.len() ==> !precedes(#[trigger] list[j], #[trigger] list[i])
}

proof fn lemma_inserted_text_counts(list: Seq<Seq<char>>, s: Seq<char>)
    ensures
        inserted_text(list, s).to_multiset() == list.to_multiset().insert(s),
    decreases list.len(),
{
    let all = inserted_text(list, s);
    if list.len() == 0 {
        assert(all =~= list.push(s));
        vstd::seq_lib::to_multiset_build(list, s);
    } else if precedes(s, list[0]) {
        assert(all =~= list.insert(0, s));
        vstd::seq_lib::to_multiset_insert(list, 0, s);
    } else {
        let rest = list.drop_first();
        let tail = inserted_text(rest, s);
        lemma_inserted_text_counts(rest, s);
        assert(list =~= rest.insert(0, list[0]));
        assert(all =~= tail.insert(0, list[0]));
        vstd::seq_lib::to_multiset_insert(rest, 0, list[0]);
        vstd::seq_lib::to_multiset_insert(tail, 0, list[0]);
        assert(all.to_multiset() =~= list.to_multiset().insert(s));
    }
}

proof fn lemma_inserted_text(list: Seq<Seq<char>>, s: Seq<char>)
    requires
        ascending_texts(list),
    ensures
        ascending_texts(inserted_text(list, s)),
        forall|i: int|
            0 <= i < inserted_text(list, s).len() ==> {
                ||| (#[trigger] inserted_text(list, s)[i]) == s
                ||| exists|k: int| 0 <= k < list.len() && list[k] == inserted_text(list, s)[i]
            },
    decreases list.len(),
{
    let all = inserted_text(list, s);
    if list.len() > 0 && precedes(s, list[0]) {
        assert forall|i: int| 0 < i < all.len() implies #[trigger] all[i] == list[i - 1] by {}
        assert forall|i: int, j: int| 0 <= i < j < all.len() implies !precedes(
            #[trigger] all[j],
            #[trigger] all[i],
        ) by {
            if i == 0 && precedes(list[j - 1], s) {
                lemma_precedes_transitive(list[j - 1], s, list[0]);
                if j - 1 == 0 {
                    lemma_precedes_irreflexive(list[0]);
                }
            }
        }
    } else if list.len() > 0 {
        let rest = list.drop_first();
        assert forall|i: int, j: int| 0 <= i < j < rest.len() implies !precedes(
            #[trigger] rest[j],
            #[trigger] rest[i],
        ) by {
            assert(rest[j] == list[j + 1] && rest[i] == list[i + 1]);
        }
        lemma_inserted_text(rest, s);
        let tail = inserted_text(rest, s);
        assert forall|i: int| 0 < i < all.len() implies #[trigger] all[i] == tail[i - 1]
            && !precedes(all[i], list[0]) && (all[i] == s || exists|k: int|
            0 <= k < list.len() && list[k] == all[i]) by {
            assert(all[i] == tail[i - 1]);
            if tail[i - 1] != s {
                let k = choose|k: int| 0 <= k < rest.len() && rest[k] == tail[i - 1];
                assert(list[k + 1] == tail[i - 1]);
                assert(!precedes(list[k + 1], list[0]));
            }
        }
        assert(all[0] == list[0]);
        assert forall|i: int, j: int| 0 <= i < j < all.len() implies !precedes(
            #[trigger] all[j],
            #[trigger] all[i],
        ) by {
            if i > 0 {
                assert(all[i] == tail[i - 1] && all[j] == tail[j - 1]);
            }
        }
    }
}

/// Sorting puts texts in their order, and loses or adds none.
pub proof fn law_sorting_orders(list: Seq<Seq<char>>)
    ensures
        ascending_texts(sorted_texts(list)),
        sorted_texts(list).to_multiset() == list.to_multiset(),
    decreases list.len(),
{
    if list.len() == 0 {
        assert(list =~= Seq::<Seq<char>>::empty());
    } else {
        law_sorting_orders(list.drop_last());
        lemma_inserted_text(sorted_texts(list.drop_last()), list.last());
        lemma_inserted_text_counts(sorted_texts(list.drop_last()), list.last());
        vstd::seq_lib::to_multiset_build(list.drop_last(), list.last());
        assert(list =~= list.drop_last().push(list.last()));
    }
}

fn insert_text(list: &mut Vec<String>, s: String)
    ensures
        texts(final(list)@) == inserted_text(texts(old(list)@), s@),
{
    let ghost all = texts(list@);
    let mut i: usize = 0;
    assert(all.skip(0) =~= all);
    assert(all.take(0) + inserted_text(all.skip(0), s@) =~= inserted_text(all, s@));
    while i < list.len()
        invariant
            i <= list@.len(),
            list@ == old(list)@,
            all == texts(list@),
            inserted_text(all, s@) == all.take(i as int) + inserted_text(all.skip(i as int), s@),
        decreases list.len() - i,
    {
        let ghost rest = all.skip(i as int);
        assert(rest[0] == list@[i as int]@);
        if comes_before(s.as_str(), list[i].as_str()) {
            list.insert(i, s);
            assert(texts(list@) =~= all.take(i as int) + (seq![s@] + rest));
            return;
        }
        assert(rest.drop_first() =~= all.skip(i + 1));
        assert(all.take(i as int) + (seq![rest[0]] + inserted_text(all.skip(i + 1), s@))
            =~= all.take(i + 1) + inserted_text(all.skip(i + 1), s@));
        i = i + 1;
    }
    assert(all.skip(i as int) =~= Seq::<Seq<char>>::empty());
    list.push(s);
    assert(texts(list@) =~= all.take(i as int) + seq![s@]);
}

/// Sorts texts.
pub fn sort_texts(list: &Vec<String>) -> (r: Vec<String>)
    ensures
        texts(r@) == sorted_texts(texts(list@)),
{
    let ghost all = texts(list@);
    let mut r: Vec<String> = Vec::new();
    let mut i: usize = 0;
    assert(texts(r@) =~= sorted_texts(all.take(0)));
    while i < list.len()
        invariant
            i <= list@.len(),
            all == texts(list@),
            texts(r@) == sorted_texts(all.take(i as int)),
        decreases list.len() - i,
    {
        assert(all.take(i + 1).drop_last() =~= all.take(i as int));
        insert_text(&mut r, list[i].clone());
        i = i + 1;
    }
    assert(all.take(i as int) =~= all);
    r
}

/// A list of texts in their order with one more, unless it is there already.
pub open spec fn added_text(list: Seq<Seq<char>>, s: Seq<char>) -> Seq<Seq<char>> {
    if list.contains(s) {
        list
    } else {
        inserted_text(list, s)
    }
}

/// The texts of a list in their order, each once.
pub open spec fn set_of_texts(list: Seq<Seq<char>>) -> Seq<Seq<char>>
    decreases list.len(),
{
    if list.len() == 0 {
        Seq::empty()
    } else {
        added_text(set_of_texts(list.drop_last()), list.last())
    }
}

/// Adds a text to a list in order, unless it is there already.
pub fn add_text(list: &mut Vec<String>, s: String)
    ensures
        texts(final(list)@) == added_text(texts(old(list)@), s@),
{
    if !holds(list, s.as_str()) {
        insert_text(list, s);
    }
}

/// Sorts the texts of a list, each once.
pub fn sort_set(list: &Vec<String>) -> (r: Vec<String>)
    ensures
        texts(r@) == set_of_texts(texts(list@)),
{
    let ghost all = texts(list@);
    let mut r: Vec<String> = Vec::new();
    let mut i: usize = 0;
    assert(texts(r@) =~= set_of_texts(all.take(0)));
    while i < list.len()
        invariant
            i <= list@.len(),
            all == texts(list@),
            texts(r@) == set_of_texts(all.take(i as int)),
        decreases list.len() - i,
    {
        assert(all.take(i + 1).drop_last() =~= all.take(i as int));
        add_text(&mut r, list[i].clone());
        i = i + 1;
    }
    assert(all.take(i as int) =~= all);
    r
}

/// Copies a list of texts.
pub fn copy_texts(list: &Vec<String>) -> (r: Vec<String>)
    ensures
        texts(r@) == texts(list@),
{
    let mut r: Vec<String> = Vec::new();
    let mut i: usize = 0;
    assert(texts(r@) =~= texts(list@).take(0));
    while i < list.len()
        invariant
            i <= list@.len(),
            texts(r@) == texts(list@).take(i as int),
        decreases list.len() - i,
    {
        proof {
            lemma_texts_push(r@, list@[i as int]);
        }
        r.push(list[i].clone());
        assert(texts(r@) =~= texts(list@).take(i + 1));
        i = i + 1;
    }
    assert(texts(list@).take(i as int) =~= texts(list@));
    r
}

/// Appends copies of texts.
pub fn append_texts(list: &mut Vec<String>, more: &Vec<String>)
    ensures
        texts(final(list)@) == texts(old(list)@) + texts(more@),
{
    let ghost before = texts(list@);
    let mut i: usize = 0;
    assert(texts(list@) =~= before + texts(more@).take(0));
    while i < more.len()
        invariant
            i <= more@.len(),
            texts(list@) == before + texts(more@).take(i as int),
        decreases more.len() - i,
    {
        proof {
            lemma_texts_push(list@, more@[i as int]);
        }
        list.push(more[i].clone());
        assert(texts(list@) =~= before + texts(more@).take(i + 1));
        i = i + 1;
    }
    assert(texts(more@).take(i as int) =~= texts(more@));
}

/// The place of the first line break from a place on, the length where there is none.
pub open spec fn line_break(s: Seq<char>, from: int) -> int
    decreases s.len() - from,
{
    if from >= s.len() {
        s.len() as int
    } else if s[from] == '\n' {
        from
    } else {
        line_break(s, from + 1)
    }
}

/// A line that a line break ends, without the carriage return that may stand before the break.
pub open spec fn without_return(line: Seq<char>) -> Seq<char> {
    if line.len() > 0 && line.last() == '\r' {
        line.drop_last()
    } else {
        line
    }
}

/// The lines of a text from a place on. The break of the last one may be missing.
pub open spec fn lines_from(s: Seq<char>, from: int) -> Seq<Seq<char>>
    decreases s.len() - from,
{
    if from < 0 || from >= s.len() {
        Seq::empty()
    } else {
        let end = line_break(s, from);
        if end >= s.len() || end < from {
            seq![s.skip(from)]
        } else {
            seq![without_return(s.subrange(from, end))] + lines_from(s, end + 1)
        }
    }
}

/// The lines of a text.
pub open spec fn lines(s: Seq<char>) -> Seq<Seq<char>> {
    lines_from(s, 0)
}

proof fn lemma_line_break(s: Seq<char>, from: int, end: int)
    requires
        0 <= from <= end <= s.len(),
        forall|k: int| from <= k < end ==> s[k] != '\n',
        end < s.len() ==> s[end] == '\n',
    ensures
        line_break(s, from) == end,
    decreases end - from,
{
    if from < end {
        lemma_line_break(s, from + 1, end);
    }
}

proof fn lemma_line_break_is_within(s: Seq<char>, from: int)
    requires
        0 <= from <= s.len(),
    ensures
        from <= line_break(s, from) <= s.len(),
        line_break(s, from) < s.len() ==> s[line_break(s, from)] == '\n',
        forall|k: int| from <= k < line_break(s, from) ==> s[k] != '\n',
    decreases s.len() - from,
{
    if from < s.len() && s[from] != '\n' {
        lemma_line_break_is_within(s, from + 1);
    }
}

proof fn lemma_lines_of_rest(before: Seq<char>, s: Seq<char>, from: int)
    requires
        0 <= from <= s.len(),
    ensures
        lines_from(before + s, before.len() + from) == lines_from(s, from),
    decreases s.len() - from,
{
    let whole = before + s;
    if from < s.len() {
        lemma_line_break_is_within(s, from);
        let end = line_break(s, from);
        assert forall|k: int| before.len() + from <= k < before.len() + end implies whole[k]
            != '\n' by {
            assert(whole[k] == s[k - before.len()]);
        }
        lemma_line_break(whole, before.len() + from, before.len() + end);
        if end < s.len() {
            lemma_lines_of_rest(before, s, end + 1);
            assert(whole.subrange(before.len() + from, before.len() + end) =~= s.subrange(
                from,
                end,
            ));
        } else {
            assert(whole.skip(before.len() + from) =~= s.skip(from));
        }
    }
}

proof fn lemma_lines_of_start(s: Seq<char>, after: Seq<char>, from: int)
    requires
        0 <= from <= s.len(),
        s.len() > 0,
        s.last() == '\n',
    ensures
        lines_from(s + after, from) == lines_from(s, from) + lines_from(s + after, s.len() as int),
    decreases s.len() - from,
{
    let whole = s + after;
    if from < s.len() {
        lemma_line_break_is_within(s, from);
        let end = line_break(s, from);
        assert(end < s.len());
        assert forall|k: int| from <= k < end implies whole[k] != '\n' by {
            assert(whole[k] == s[k]);
        }
        lemma_line_break(whole, from, end);
        lemma_lines_of_start(s, after, end + 1);
        assert(whole.subrange(from, end) =~= s.subrange(from, end));
        let line = seq![without_return(s.subrange(from, end))];
        assert(line + (lines_from(s, end + 1) + lines_from(whole, s.len() as int)) =~= (line
            + lines_from(s, end + 1)) + lines_from(whole, s.len() as int));
    } else {
        assert(lines_from(s, from) =~= Seq::<Seq<char>>::empty());
        assert(Seq::<Seq<char>>::empty() + lines_from(whole, from) =~= lines_from(whole, from));
    }
}

/// The lines of a text that ends with a break, followed by another text, are the lines of both.
pub proof fn lemma_lines_of_both(s: Seq<char>, after: Seq<char>)
    requires
        s.len() > 0,
        s.last() == '\n',
    ensures
        lines(s + after) == lines(s) + lines(after),
{
    lemma_lines_of_start(s, after, 0);
    lemma_lines_of_rest(s, after, 0);
}

proof fn lemma_last_break(s: Seq<char>, from: int)
    requires
        0 <= from < s.len(),
        s.last() != '\n',
        s.last() != '\r',
    ensures
        lines_from(s.push('\n'), from) == lines_from(s, from),
    decreases s.len() - from,
{
    let whole = s.push('\n');
    lemma_line_break_is_within(s, from);
    let end = line_break(s, from);
    assert forall|k: int| from <= k < end implies whole[k] != '\n' by {
        assert(whole[k] == s[k]);
    }
    lemma_line_break(whole, from, end);
    assert(whole.subrange(from, end) =~= s.subrange(from, end));
    if end < s.len() {
        lemma_last_break(s, end + 1);
    } else {
        assert(s.subrange(from, end) =~= s.skip(from));
        assert(s.skip(from).last() == s.last());
        assert(lines_from(whole, end + 1) =~= Seq::<Seq<char>>::empty());
        assert(seq![s.skip(from)] + Seq::<Seq<char>>::empty() =~= seq![s.skip(from)]);
    }
}

/// A break behind the last line adds no line.
pub proof fn lemma_last_break_adds_nothing(s: Seq<char>)
    requires
        s.len() > 0,
        s.last() != '\n',
        s.last() != '\r',
    ensures
        lines(s.push('\n')) == lines(s),
{
    lemma_last_break(s, 0);
}

/// A text without a break is one line.
pub proof fn lemma_one_line(s: Seq<char>)
    requires
        s.len() > 0,
        !s.contains('\n'),
    ensures
        lines(s) == seq![s],
{
    assert forall|k: int| 0 <= k < s.len() implies s[k] != '\n' by {
        assert(s.contains(s[k]));
    }
    lemma_line_break(s, 0, s.len() as int);
    assert(s.skip(0) =~= s);
}

/// A break alone ends an empty line.
pub proof fn lemma_break_is_an_empty_line()
    ensures
        lines(seq!['\n']) == seq![Seq::<char>::empty()],
{
    let s = seq!['\n'];
    lemma_line_break(s, 0, 0);
    assert(s.subrange(0, 0) =~= Seq::<char>::empty());
    assert(lines_from(s, 1) =~= Seq::<Seq<char>>::empty());
    assert(lines(s) =~= seq![Seq::<char>::empty()]);
}

/// A trimmed text ends with no white space.
pub proof fn lemma_trimmed_ends(s: Seq<char>)
    ensures
        trimmed(s).len() > 0 ==> !white(trimmed(s).last()),
{
    lemma_trim_end_ends(trim_start(s));
}

proof fn lemma_trim_end_ends(s: Seq<char>)
    ensures
        trim_end(s).len() > 0 ==> !white(trim_end(s).last()),
    decreases s.len(),
{
    if s.len() > 0 && white(s.last()) {
        lemma_trim_end_ends(s.drop_last());
    }
}

/// Splits a text into its lines.
pub fn split_lines(s: &str) -> (r: Vec<String>)
    ensures
        texts(r@) == lines(s@),
{
    let n = s.unicode_len();
    let mut r: Vec<String> = Vec::new();
    let mut from: usize = 0;
    assert(texts(r@) + lines_from(s@, 0) =~= lines(s@)) by {
        assert(texts(r@) =~= Seq::<Seq<char>>::empty());
    }
    while from < n
        invariant
            from <= n,
            n == s@.len(),
            texts(r@) + lines_from(s@, from as int) == lines(s@),
        decreases n - from,
    {
        let mut end: usize = from;
        while end < n && s.get_char(end) != '\n'
            invariant
                from <= end <= n,
                n == s@.len(),
                forall|k: int| from <= k < end ==> s@[k] != '\n',
            decreases n - end,
        {
            end = end + 1;
        }
        proof {
            lemma_line_break(s@, from as int, end as int);
        }
        let ghost before = texts(r@);
        if end >= n {
            let line = s.substring_char(from, n);
            assert(line@ =~= s@.skip(from as int));
            r.push(line.to_owned());
            assert(lines_from(s@, from as int) =~= seq![s@.skip(from as int)]);
            assert(texts(r@) =~= before + seq![s@.skip(from as int)]);
            assert(lines_from(s@, n as int) =~= Seq::<Seq<char>>::empty());
            assert(texts(r@) + lines_from(s@, n as int) =~= lines(s@));
            from = n;
        } else {
            let stop = if end > from && s.get_char(end - 1) == '\r' {
                end - 1
            } else {
                end
            };
            let line = s.substring_char(from, stop);
            let ghost whole = s@.subrange(from as int, end as int);
            assert(line@ =~= without_return(whole)) by {
                if end > from {
                    assert(whole.last() == s@[end - 1]);
                }
            }
            r.push(line.to_owned());
            assert(texts(r@) =~= before + seq![without_return(whole)]);
            assert(before + (seq![without_return(whole)] + lines_from(s@, end + 1)) =~= texts(r@)
                + lines_from(s@, end + 1));
            from = end + 1;
        }
    }
    assert(texts(r@) + lines_from(s@, from as int) =~= texts(r@));
    r
}

} // verus!
