//! What texts, paths, digests and values are relied on for.

use crate::agent::step::{shown_item, shown_output};
use crate::digest::{hex_digit, hex_text};
use crate::execution::linux::is_first_subsystem;
use crate::execution::shell::{shell_of, Platform};
use crate::json::{alike, field, items_field, text_field, JsonView};
use crate::model::endpoint::{api_directory, base_url, socket_scheme, url_parsed, without_slashes};
use crate::model::error::ModelErrorView;
use crate::model::laws::lemma_lookup_at;
use crate::model::metadata::metadata_view;
use crate::path::{
    body_parts, body_spans, body_start, divides, piece_end, place_text, resolved, spans, verbatim,
    PartView, PathStyle,
};
use crate::protocol::model::ModelRequestMetadata;
use crate::text::{decimal, digit, joined, lowered, maybe, trim_end, trim_start, trimmed, white};
use vstd::prelude::*;

verus! {

/// Whether a text is white space only.
pub open spec fn blank(s: Seq<char>) -> bool {
    forall|i: int| 0 <= i < s.len() ==> white(#[trigger] s[i])
}

proof fn lemma_trim_start(s: Seq<char>) -> (n: int)
    ensures
        0 <= n <= s.len(),
        trim_start(s) == s.skip(n),
        blank(s.take(n)),
        n < s.len() ==> !white(s[n]),
    decreases s.len(),
{
    if s.len() > 0 && white(s[0]) {
        let rest = s.drop_first();
        let m = lemma_trim_start(rest);
        assert(rest.skip(m) =~= s.skip(m + 1));
        let head = s.take(m + 1);
        assert forall|i: int| 0 <= i < head.len() implies white(#[trigger] head[i]) by {
            if i > 0 {
                assert(head[i] == rest.take(m)[i - 1]);
            }
        }
        m + 1
    } else {
        assert(s.skip(0) =~= s);
        0
    }
}

proof fn lemma_trim_end(s: Seq<char>) -> (n: int)
    ensures
        0 <= n <= s.len(),
        trim_end(s) == s.take(n),
        blank(s.skip(n)),
        n > 0 ==> !white(s[n - 1]),
    decreases s.len(),
{
    if s.len() > 0 && white(s.last()) {
        let rest = s.drop_last();
        let m = lemma_trim_end(rest);
        assert(rest.take(m) =~= s.take(m));
        let tail = s.skip(m);
        assert forall|i: int| 0 <= i < tail.len() implies white(#[trigger] tail[i]) by {
            if i < tail.len() - 1 {
                assert(tail[i] == rest.skip(m)[i]);
            }
        }
        m
    } else {
        assert(s.take(s.len() as int) =~= s);
        s.len() as int
    }
}

/// Trimming takes white space off both ends and nothing else: what is left stands in the text as it is,
/// with only white space before and behind it, and neither begins nor ends with any.
pub proof fn law_trimming_takes_white_space_off(s: Seq<char>) -> (at: (int, int))
    ensures
        0 <= at.0 <= at.1 <= s.len(),
        trimmed(s) == s.subrange(at.0, at.1),
        blank(s.take(at.0)),
        blank(s.skip(at.1)),
        trimmed(s).len() > 0 ==> !white(trimmed(s)[0]) && !white(trimmed(s).last()),
        trimmed(s).len() == 0 <==> blank(s),
{
    let i = lemma_trim_start(s);
    let rest = s.skip(i);
    let m = lemma_trim_end(rest);
    let j = i + m;
    assert(rest.take(m) =~= s.subrange(i, j));
    assert(rest.skip(m) =~= s.skip(j));
    if m == 0 {
        assert forall|k: int| 0 <= k < s.len() implies white(#[trigger] s[k]) by {
            if k < i {
                assert(s.take(i)[k] == s[k]);
            } else {
                assert(s.skip(j)[k - j] == s[k]);
            }
        }
    } else {
        assert(!white(rest[m - 1]));
        assert(rest[m - 1] == s[j - 1]);
        assert(s[i] == rest[0]);
        assert(!white(s[j - 1]));
    }
    (i, j)
}

/// The number that decimal digits stand for.
pub open spec fn number_of(s: Seq<char>) -> int
    decreases s.len(),
{
    if s.len() == 0 {
        0
    } else {
        10 * number_of(s.drop_last()) + (s.last() as int - 48)
    }
}

/// A number is written such that it is read back: in decimal digits, with no zero in front.
pub proof fn law_numbers_are_read_back(n: nat)
    ensures
        number_of(decimal(n)) == n,
        decimal(n).len() > 0,
        forall|i: int|
            0 <= i < decimal(n).len() ==> '0' <= #[trigger] decimal(n)[i] && decimal(n)[i] <= '9',
        n > 0 ==> decimal(n)[0] != '0',
    decreases n,
{
    if n < 10 {
        assert(decimal(n).drop_last() =~= Seq::<char>::empty());
        assert(decimal(n).last() == digit(n));
        assert(number_of(Seq::<char>::empty()) == 0);
    } else {
        law_numbers_are_read_back(n / 10);
        let before = decimal(n / 10);
        let all = decimal(n);
        assert(all == before.push(digit(n % 10)));
        assert(all.drop_last() =~= before);
        assert(all.last() == digit(n % 10));
        assert forall|i: int| 0 <= i < all.len() implies '0' <= #[trigger] all[i] && all[i]
            <= '9' by {
            if i < before.len() {
                assert(all[i] == before[i]);
            }
        }
        assert(all[0] == before[0]);
    }
}

/// Lower case changes the capital letters of ASCII and nothing else, each to its own small letter.
pub proof fn law_only_capitals_are_lowered(s: Seq<char>, i: int)
    requires
        0 <= i < s.len(),
    ensures
        lowered(s).len() == s.len(),
        'A' <= s[i] && s[i] <= 'Z' ==> lowered(s)[i] as int == s[i] as int + 32,
        !('A' <= s[i] && s[i] <= 'Z') ==> lowered(s)[i] == s[i],
{
}

/// Texts are joined with the separator between each two of them, and nowhere else.
pub proof fn law_joining_puts_the_separator_between(
    list: Seq<Seq<char>>,
    last: Seq<char>,
    separator: Seq<char>,
)
    ensures
        joined(Seq::empty(), separator) == Seq::<char>::empty(),
        joined(seq![last], separator) == last,
        list.len() > 0 ==> joined(list.push(last), separator) == joined(list, separator) + separator
            + last,
{
    assert(list.push(last).drop_last() =~= list);
}

/// The number that a hexadecimal digit stands for.
pub open spec fn hex_value(c: char) -> int {
    if '0' <= c && c <= '9' {
        c as int - 48
    } else {
        c as int - 87
    }
}

/// Bytes are read back from their hexadecimal text: two digits for each, the high one first.
pub proof fn law_bytes_are_read_back(bytes: Seq<u8>, i: int)
    requires
        0 <= i < bytes.len(),
    ensures
        hex_text(bytes).len() == 2 * bytes.len(),
        16 * hex_value(hex_text(bytes)[2 * i]) + hex_value(hex_text(bytes)[2 * i + 1]) == bytes[i],
{
    let high: u8 = bytes[i] / 16;
    let low: u8 = bytes[i] % 16;
    assert((2 * i) / 2 == i && (2 * i) % 2 == 0 && (2 * i + 1) / 2 == i && (2 * i + 1) % 2 == 1);
    assert(hex_text(bytes)[2 * i] == hex_digit(high));
    assert(hex_text(bytes)[2 * i + 1] == hex_digit(low));
    assert(high < 16 && low < 16);
    assert(16 * high + low == bytes[i]);
}

/// Plain values are alike exactly if they are the same.
pub proof fn law_plain_values_are_alike_if_equal(a: JsonView, b: JsonView)
    ensures
        a is Text || a is Integer || a is Bool || a is Null ==> (alike(a, b) <==> a == b),
        b is Text || b is Integer || b is Bool || b is Null ==> (alike(a, b) <==> a == b),
{
}

/// Lists are alike exactly if they are as long and their items are alike, each with each; and so are
/// objects, whose keys are the same.
pub proof fn law_values_are_alike_part_by_part(
    a: Seq<JsonView>,
    b: Seq<JsonView>,
    x: Seq<(Seq<char>, JsonView)>,
    y: Seq<(Seq<char>, JsonView)>,
)
    ensures
        alike(JsonView::Array(a), JsonView::Array(b)) <==> a.len() == b.len() && forall|i: int|
            0 <= i < a.len() ==> alike(#[trigger] a[i], b[i]),
        alike(JsonView::Object(x), JsonView::Object(y)) <==> x.len() == y.len() && forall|i: int|
            0 <= i < x.len() ==> (#[trigger] x[i]).0 == y[i].0 && alike(x[i].1, y[i].1),
        !alike(JsonView::Array(a), JsonView::Object(x)),
{
}

/// On a Unix host a name leads into what it names, a dot stays, and two dots lead back out. What would
/// lead out above the root leads nowhere.
pub proof fn law_where_steps_lead(path: Seq<PartView>, name: Seq<char>)
    ensures
        ({
            let style = PathStyle::Unix;
            &&& resolved(style, path) matches Some(place) ==> {
                &&& resolved(style, path.push(PartView::Name(name))) == Some(
                    place.push(PartView::Name(name)),
                )
                &&& resolved(style, path.push(PartView::Current)) == Some(place)
                &&& resolved(style, path.push(PartView::Name(name)).push(PartView::Parent)) == Some(
                    place,
                )
                &&& place.len() > 0 && place.last() is Root ==> resolved(
                    style,
                    path.push(PartView::Parent),
                ) is None
            }
            &&& resolved(style, path) is None ==> resolved(style, path.push(PartView::Name(name)))
                is None && resolved(style, path.push(PartView::Parent)) is None
            &&& resolved(style, seq![PartView::Root]) == Some(seq![PartView::Root])
        }),
{
    let style = PathStyle::Unix;
    let into = path.push(PartView::Name(name));
    assert(into.drop_last() =~= path);
    assert(path.push(PartView::Current).drop_last() =~= path);
    assert(path.push(PartView::Parent).drop_last() =~= path);
    assert(into.push(PartView::Parent).drop_last() =~= into);
    if let Some(place) = resolved(style, path) {
        assert(place.push(PartView::Name(name)).drop_last() =~= place);
        assert(place.push(PartView::Name(name)).last() == PartView::Name(name));
    }
    let root = seq![PartView::Root];
    assert(root.drop_last() =~= Seq::<PartView>::empty());
    assert(root.last() == PartView::Root);
    assert(resolved(style, Seq::<PartView>::empty()) == Some(Seq::<PartView>::empty()));
    assert(Seq::<PartView>::empty().push(PartView::Root) =~= root);
}

proof fn lemma_piece(style: PathStyle, v: bool, s: Seq<char>, from: int)
    requires
        0 <= from <= s.len(),
    ensures
        from <= piece_end(style, v, s, from) <= s.len(),
        forall|k: int|
            from <= k < piece_end(style, v, s, from) ==> !divides(style, v, #[trigger] s[k]),
        piece_end(style, v, s, from) < s.len() ==> divides(
            style,
            v,
            s[piece_end(style, v, s, from)],
        ),
    decreases s.len() - from,
{
    if from < s.len() && !divides(style, v, s[from]) {
        lemma_piece(style, v, s, from + 1);
    }
}

/// Whether a place of a text lies in one of some spans.
pub open spec fn is_covered(all: Seq<(int, int)>, k: int) -> bool {
    exists|i: int| 0 <= i < all.len() && (#[trigger] all[i]).0 <= k < all[i].1
}

proof fn lemma_spans(style: PathStyle, v: bool, s: Seq<char>, from: int, i: int, k: int)
    requires
        0 <= from <= s.len() + 1,
    ensures
        0 <= i < spans(style, v, s, from).len() ==> {
            let (a, b) = spans(style, v, s, from)[i];
            &&& from <= a < b <= s.len()
            &&& forall|m: int| a <= m < b ==> !divides(style, v, #[trigger] s[m])
            &&& b < s.len() ==> divides(style, v, s[b])
            &&& a > from ==> divides(style, v, s[a - 1])
        },
        from <= k < s.len() && !divides(style, v, s[k]) && (v || s[k] != '.') ==> is_covered(
            spans(style, v, s, from),
            k,
        ),
    decreases s.len() + 1 - from,
{
    if from <= s.len() {
        lemma_piece(style, v, s, from);
        let end = piece_end(style, v, s, from);
        let rest = spans(style, v, s, end + 1);
        let all = spans(style, v, s, from);
        let piece = s.subrange(from, end);
        if crate::path::counts(v, piece) {
            lemma_spans(style, v, s, end + 1, i - 1, k);
            assert(all == seq![(from, end)] + rest);
            assert(all[0] == (from, end));
            if 0 < i < all.len() {
                assert(all[i] == rest[i - 1]);
            }
            if end + 1 <= k < s.len() && is_covered(rest, k) {
                let m = choose|m: int|
                    0 <= m < rest.len() && (#[trigger] rest[m]).0 <= k < rest[m].1;
                assert(all[m + 1] == rest[m]);
            }
        } else {
            lemma_spans(style, v, s, end + 1, i, k);
            if from <= k < end {
                assert(piece[k - from] == s[k]);
                reveal_strlit(".");
                assert("."@.len() == 1 && "."@[0] == '.');
            }
        }
    }
}

/// The names of a path are what stands between its separators: none holds a separator or is empty, and
/// each reaches from one separator to the next. Nothing that stands in a path is lost but the dots that
/// stay where they are.
pub proof fn law_names_stand_between_separators(style: PathStyle, s: Seq<char>, i: int, k: int)
    requires
        0 <= body_start(style, s) <= s.len(),
    ensures
        body_parts(style, s).len() == body_spans(style, s).len(),
        0 <= i < body_parts(style, s).len() ==> {
            let (a, b) = body_spans(style, s)[i];
            let v = verbatim(style, s);
            &&& 0 <= a < b <= s.len()
            &&& forall|m: int| a <= m < b ==> !divides(style, v, #[trigger] s[m])
            &&& b < s.len() ==> divides(style, v, s[b])
            &&& a > body_start(style, s) ==> divides(style, v, s[a - 1])
            &&& s.subrange(a, b) == ".."@ ==> body_parts(style, s)[i] == PartView::Parent
            &&& s.subrange(a, b) != ".."@ && s.subrange(a, b) != "."@ ==> body_parts(style, s)[i]
                == PartView::Name(s.subrange(a, b))
        },
        body_start(style, s) <= k < s.len() && !divides(style, verbatim(style, s), s[k]) && s[k]
            != '.' ==> is_covered(body_spans(style, s), k),
{
    lemma_spans(style, verbatim(style, s), s, body_start(style, s), i, k);
}

/// What divides the names of a path: a slash everywhere, a backslash on Windows too; in a verbatim path
/// of Windows only the backslash.
pub proof fn law_what_divides_paths(c: char)
    ensures
        divides(PathStyle::Unix, false, c) <==> c == '/',
        divides(PathStyle::Windows, false, c) <==> c == '/' || c == '\\',
        divides(PathStyle::Windows, true, c) <==> c == '\\',
{
}

/// The path to a place is written with a separator before each name: a place one name further is written
/// with that name behind, and the root is a separator alone.
pub proof fn law_places_are_written_name_by_name(place: Seq<PartView>, name: Seq<char>)
    requires
        place.len() > 0,
        place[0] is Root,
    ensures
        place_text(PathStyle::Unix, seq![PartView::Root]) == "/"@,
        place.len() > 1 ==> place_text(PathStyle::Unix, place.push(PartView::Name(name)))
            == place_text(PathStyle::Unix, place) + "/"@ + name,
        place.len() == 1 ==> place_text(PathStyle::Unix, place.push(PartView::Name(name))) == "/"@
            + name,
{
    let root = seq![PartView::Root];
    let one = |p: PartView| crate::path::part_text(p);
    assert(root.drop_first().map_values(one) =~= Seq::<Seq<char>>::empty());
    assert("/"@ + Seq::<char>::empty() =~= "/"@);
    let before = place.drop_first().map_values(one);
    let more = place.push(PartView::Name(name));
    assert(more[0] == place[0]);
    assert(more.drop_first().map_values(one) =~= before.push(name));
    law_joining_puts_the_separator_between(before, name, "/"@);
    if place.len() == 1 {
        assert(before.push(name) =~= seq![name]);
    } else {
        assert("/"@ + (joined(before, "/"@) + "/"@ + name) =~= "/"@ + joined(before, "/"@) + "/"@
            + name);
    }
}

/// A system that calls itself one of Microsoft's cannot make sandboxes, unless it calls itself the
/// standard one: whatever the case.
pub proof fn law_which_systems_cannot_make_sandboxes(version: Seq<char>)
    ensures
        is_first_subsystem(version) ==> crate::text::occurs(lowered(version), "microsoft"@),
        crate::text::occurs(lowered(version), "microsoft-standard"@) ==> !is_first_subsystem(version),
        crate::text::occurs(lowered(version), "microsoft"@) && !crate::text::occurs(
            lowered(version),
            "microsoft-standard"@,
        ) ==> is_first_subsystem(version),
{
}

proof fn lemma_without_slashes(s: Seq<char>) -> (n: int)
    ensures
        0 <= n <= s.len(),
        without_slashes(s) == s.take(n),
        forall|i: int| n <= i < s.len() ==> #[trigger] s[i] == '/',
        n > 0 ==> s[n - 1] != '/',
    decreases s.len(),
{
    if s.len() > 0 && s.last() == '/' {
        let rest = s.drop_last();
        let n = lemma_without_slashes(rest);
        assert(rest.take(n) =~= s.take(n));
        assert forall|i: int| n <= i < s.len() implies #[trigger] s[i] == '/' by {
            if i < rest.len() {
                assert(rest[i] == s[i]);
            }
        }
        n
    } else {
        assert(s.take(s.len() as int) =~= s);
        s.len() as int
    }
}

/// An API is looked for in the directory of the base URL, which ends with one slash whatever the base
/// ends with; a base that is the API already stays as it is.
pub proof fn law_apis_are_looked_for_below_the_base(path: Seq<char>, leaf: Seq<char>) -> (n: int)
    ensures
        0 <= n <= path.len(),
        forall|i: int| n <= i < path.len() ==> #[trigger] path[i] == '/',
        n > 0 ==> path[n - 1] != '/',
        crate::text::ends_with(path.take(n), leaf) <==> api_directory(path, leaf) is None,
        api_directory(path, leaf) matches Some(directory) ==> directory == path.take(n) + "/"@,
{
    lemma_without_slashes(path)
}

/// A base URL is taken exactly if it is an HTTP URL with a host and without credentials, a query or a
/// fragment; and it is taken as it was read.
pub proof fn law_which_base_urls_are_taken(value: Seq<char>)
    ensures
        base_url(value) is Ok <==> (url_parsed(value) matches Ok(u) && (u.scheme == "http"@
            || u.scheme == "https"@) && u.host is Some && u.username.len() == 0 && u.password is None
            && u.query is None && u.fragment is None),
        base_url(value) matches Ok(text) ==> (url_parsed(value) matches Ok(u) && u.text == text),
{
}

/// A connection is as well kept as the requests: `wss` goes with `https`, and `ws` with `http`.
pub proof fn law_connections_keep_the_scheme(scheme: Seq<char>)
    ensures
        socket_scheme("https"@) == Some("wss"@),
        socket_scheme("http"@) == Some("ws"@),
        socket_scheme(scheme) is Some ==> scheme == "http"@ || scheme == "https"@,
{
    reveal_strlit("http");
    reveal_strlit("https");
    assert("http"@.len() == 4 && "https"@.len() == 5);
}

/// What may pass by itself: a fault of the transport or of the stream, a provider that is busy or at
/// fault, and an answer that ran out of room. Only the last is a limit of the output, and only an
/// incomplete answer tells its usage.
pub proof fn law_which_errors_may_pass(e: ModelErrorView)
    ensures
        e is Transport || e is Stream ==> e.retryable(),
        e is Configuration || e is Provider || e is ScriptExhausted ==> !e.retryable(),
        e matches ModelErrorView::Http { status, .. } ==> (e.retryable() <==> status == 429 || status
            >= 500),
        e matches ModelErrorView::IncompleteResponse { reason, usage } ==> (e.retryable() <==> reason
            == "max_output_tokens"@) && (e.output_limit() <==> reason == "max_output_tokens"@)
            && e.usage() == Some(usage),
        !(e is IncompleteResponse) ==> !e.output_limit() && e.usage() is None,
{
}

/// What is told of a request can be read from its JSON, each thing under its name.
pub proof fn law_metadata_are_told(m: ModelRequestMetadata)
    ensures
        ({
            let j = metadata_view(m);
            &&& text_field(j, "provider"@) == maybe(m.provider)
            &&& text_field(j, "api"@) == maybe(m.api)
            &&& text_field(j, "model_profile"@) == maybe(m.model_profile)
            &&& text_field(j, "upstream_model"@) == maybe(m.upstream_model)
            &&& text_field(j, "transport"@) == Some(m.transport.text())
            &&& text_field(j, "prompt_cache_mode"@) == Some(m.prompt_cache_mode.text())
            &&& text_field(j, "prompt_cache_key"@) == maybe(m.prompt_cache_key)
            &&& field(j, "prompt_cache_breakpoint"@) == Some(
                JsonView::Bool(m.prompt_cache_breakpoint),
            )
            &&& field(j, "used_previous_response_id"@) == Some(
                JsonView::Bool(m.used_previous_response_id),
            )
            &&& text_field(j, "continuation_miss_reason"@) == maybe(m.continuation_miss_reason)
            &&& text_field(j, "websocket_fallback_reason"@) == maybe(m.websocket_fallback_reason)
        }),
{
    reveal_strlit("continuation_miss_reason");
    reveal_strlit("api");
    reveal_strlit("model_profile");
    reveal_strlit("prompt_cache_breakpoint");
    reveal_strlit("prompt_cache_key");
    reveal_strlit("prompt_cache_mode");
    reveal_strlit("provider");
    reveal_strlit("transport");
    reveal_strlit("upstream_model");
    reveal_strlit("used_previous_response_id");
    reveal_strlit("websocket_fallback_reason");
    assert("continuation_miss_reason"@.len() == 24);
    assert("api"@.len() == 3);
    assert("model_profile"@.len() == 13);
    assert("prompt_cache_breakpoint"@.len() == 23);
    assert("prompt_cache_key"@.len() == 16);
    assert("prompt_cache_mode"@.len() == 17);
    assert("provider"@.len() == 8);
    assert("transport"@.len() == 9);
    assert("upstream_model"@.len() == 14);
    assert("used_previous_response_id"@.len() == 25);
    assert("websocket_fallback_reason"@.len() == 25);
    assert("websocket_fallback_reason"@[0] != "used_previous_response_id"@[0]);
    let made = metadata_view(m)->Object_0;
    lemma_lookup_at(made, "api"@, 0);
    lemma_lookup_at(made, "continuation_miss_reason"@, 1);
    lemma_lookup_at(made, "model_profile"@, 2);
    lemma_lookup_at(made, "prompt_cache_breakpoint"@, 3);
    lemma_lookup_at(made, "prompt_cache_key"@, 4);
    lemma_lookup_at(made, "prompt_cache_mode"@, 5);
    lemma_lookup_at(made, "provider"@, 6);
    lemma_lookup_at(made, "transport"@, 7);
    lemma_lookup_at(made, "upstream_model"@, 8);
    lemma_lookup_at(made, "used_previous_response_id"@, 9);
    lemma_lookup_at(made, "websocket_fallback_reason"@, 10);
}

/// What is shown of a response item is what it says: the summary of a thought, the content of a message,
/// the name and the arguments of a call. Of any other nothing is shown but its type, and neither an
/// identifier nor anything encrypted is shown of any.
pub proof fn law_what_is_shown_of_an_item(item: JsonView, key: Seq<char>)
    ensures
        ({
            let shown = shown_item(item);
            &&& text_field(item, "type"@) is Some ==> text_field(shown, "type"@) == text_field(
                item,
                "type"@,
            )
            &&& text_field(item, "type"@) == Some("message"@) && field(item, "content"@) is Some
                ==> field(shown, "content"@) == field(item, "content"@)
            &&& text_field(item, "type"@) == Some("function_call"@) && field(item, "name"@) is Some
                ==> field(shown, "name"@) == field(item, "name"@)
            &&& text_field(item, "type"@) == Some("function_call"@) && field(item, "arguments"@)
                is Some ==> field(shown, "arguments"@) == field(item, "arguments"@)
            &&& text_field(item, "type"@) == Some("reasoning"@) && field(item, "summary"@) is Some
                ==> field(shown, "summary"@) == field(item, "summary"@)
            &&& key != "type"@ && key != "content"@ && key != "name"@ && key != "arguments"@ && key
                != "summary"@ ==> field(shown, key) is None
            &&& field(shown, "id"@) is None
            &&& field(shown, "encrypted_content"@) is None
        }),
{
    reveal_strlit("content");
    reveal_strlit("type");
    reveal_strlit("name");
    reveal_strlit("arguments");
    reveal_strlit("summary");
    reveal_strlit("id");
    reveal_strlit("encrypted_content");
    assert("content"@.len() == 7);
    assert("type"@.len() == 4);
    assert("name"@.len() == 4);
    assert("arguments"@.len() == 9);
    assert("summary"@.len() == 7);
    assert("id"@.len() == 2);
    assert("encrypted_content"@.len() == 17);
    assert("name"@[0] != "type"@[0]);
    assert("summary"@[0] != "content"@[0]);
    reveal_strlit("message");
    reveal_strlit("reasoning");
    reveal_strlit("function_call");
    assert("message"@.len() == 7);
    assert("reasoning"@.len() == 9);
    assert("function_call"@.len() == 13);
    let made = shown_item(item)->Object_0;
    let kind = match text_field(item, "type"@) {
        Some(kind) => kind,
        None => "unknown"@,
    };
    if kind == "reasoning"@ {
        lemma_lookup_at(made, "summary"@, 0);
        lemma_lookup_at(made, "type"@, 1);
        lemma_lookup_at(made, "id"@, 2);
        lemma_lookup_at(made, "encrypted_content"@, 2);
        if key != "summary"@ && key != "type"@ {
            lemma_lookup_at(made, key, 2);
        }
    } else if kind == "message"@ {
        lemma_lookup_at(made, "content"@, 0);
        lemma_lookup_at(made, "type"@, 1);
        lemma_lookup_at(made, "id"@, 2);
        lemma_lookup_at(made, "encrypted_content"@, 2);
        if key != "content"@ && key != "type"@ {
            lemma_lookup_at(made, key, 2);
        }
    } else if kind == "function_call"@ {
        lemma_lookup_at(made, "arguments"@, 0);
        lemma_lookup_at(made, "name"@, 1);
        lemma_lookup_at(made, "type"@, 2);
        lemma_lookup_at(made, "id"@, 3);
        lemma_lookup_at(made, "encrypted_content"@, 3);
        if key != "arguments"@ && key != "name"@ && key != "type"@ {
            lemma_lookup_at(made, key, 3);
        }
    } else {
        lemma_lookup_at(made, "type"@, 0);
        lemma_lookup_at(made, "id"@, 1);
        lemma_lookup_at(made, "encrypted_content"@, 1);
        if key != "type"@ {
            lemma_lookup_at(made, key, 1);
        }
    }
}

/// What is shown of a sample is its message, where there is one; what was told of its request; and each
/// of its items, in order.
pub proof fn law_what_is_shown_of_a_sample(
    message: Seq<char>,
    items: Seq<JsonView>,
    metadata: Option<ModelRequestMetadata>,
    i: int,
)
    ensures
        ({
            let shown = shown_output(message, items, metadata);
            &&& text_field(shown, "assistant_message"@) == (if message.len() > 0 {
                Some(message)
            } else {
                None
            })
            &&& metadata matches Some(m) ==> field(shown, "request"@) == Some(metadata_view(m))
            &&& items_field(shown, "response_items"@) matches Some(list) && list.len() == items.len()
                && (0 <= i < items.len() ==> list[i] == shown_item(items[i]))
        }),
{
    reveal_strlit("request");
    reveal_strlit("assistant_message");
    reveal_strlit("response_items");
    assert("request"@.len() == 7);
    assert("assistant_message"@.len() == 17);
    assert("response_items"@.len() == 14);
    let made = shown_output(message, items, metadata)->Object_0;
    lemma_lookup_at(made, "assistant_message"@, 0);
    lemma_lookup_at(made, "request"@, 1);
    lemma_lookup_at(made, "response_items"@, 2);
}

/// Whatever the shell, the command is handed to it as it is, as one argument.
pub proof fn law_shells_get_the_command(
    platform: Platform,
    command: Seq<char>,
    tty: bool,
    comspec: Option<Seq<char>>,
)
    ensures
        shell_of(platform, command, tty, comspec).args.contains(command),
        platform != Platform::Windows ==> shell_of(platform, command, tty, comspec) == shell_of(
            platform,
            command,
            tty,
            None,
        ),
        platform == Platform::Windows ==> (comspec matches Some(shell) ==> shell_of(
            platform,
            command,
            tty,
            comspec,
        ).program == shell),
        (platform == Platform::Linux || platform == Platform::MacOs || platform
            == Platform::OtherUnix) && tty ==> shell_of(platform, command, tty, comspec).program
            == "/usr/bin/script"@,
        (platform == Platform::Linux || platform == Platform::OtherUnix) && !tty ==> shell_of(
            platform,
            command,
            tty,
            comspec,
        ).program == "/bin/sh"@,
{
    let args = shell_of(platform, command, tty, comspec).args;
    match platform {
        Platform::Windows => {
            assert(args[3] == command);
        },
        Platform::MacOs => {
            assert(args[args.len() - 1] == command);
        },
        Platform::Linux | Platform::OtherUnix => {
            assert(args[1] == command);
        },
        Platform::Other => {
            assert(args[1] == command);
        },
    }
}

} // verus!
