//! Where a provider's APIs are found.
//!
//! URLs are read and edited by the `url` crate and held as texts.

use crate::model::error::ModelError;
use crate::text::{debug_text, ends_with, has_suffix, maybe, quoted, same};
use vstd::prelude::*;

verus! {

/// The parts of a URL.
#[derive(Debug, PartialEq, Eq)]
pub struct ParsedUrl {
    /// The whole URL in its normal form.
    pub text: String,
    pub scheme: String,
    pub username: String,
    pub password: Option<String>,
    pub host: Option<String>,
    pub path: String,
    pub query: Option<String>,
    pub fragment: Option<String>,
}

/// The mathematical value of a [`ParsedUrl`].
pub ghost struct UrlView {
    pub text: Seq<char>,
    pub scheme: Seq<char>,
    pub username: Seq<char>,
    pub password: Option<Seq<char>>,
    pub host: Option<Seq<char>>,
    pub path: Seq<char>,
    pub query: Option<Seq<char>>,
    pub fragment: Option<Seq<char>>,
}

impl View for ParsedUrl {
    type V = UrlView;

    open spec fn view(&self) -> UrlView {
        UrlView {
            text: self.text@,
            scheme: self.scheme@,
            username: self.username@,
            password: maybe(self.password),
            host: maybe(self.host),
            path: self.path@,
            query: maybe(self.query),
            fragment: maybe(self.fragment),
        }
    }
}

/// What the `url` crate reads in a text: a URL's parts, or the message of its error.
pub uninterp spec fn url_parsed(text: Seq<char>) -> Result<UrlView, Seq<char>>;

/// `url::Url::parse`: the parts of the URL that a text denotes, or the error's message. What either
/// is depends on the text alone.
#[verifier::external_body]
fn read_url(text: &str) -> (r: Result<ParsedUrl, String>)
    ensures
        match r {
            Ok(u) => url_parsed(text@) == Ok::<UrlView, Seq<char>>(u@),
            Err(e) => url_parsed(text@) == Err::<UrlView, Seq<char>>(e@),
        },
{
    let url = url::Url::parse(text).map_err(|error| error.to_string())?;
    Ok(
        ParsedUrl {
            text: url.as_str().to_owned(),
            scheme: url.scheme().to_owned(),
            username: url.username().to_owned(),
            password: url.password().map(str::to_owned),
            host: url.host_str().map(str::to_owned),
            path: url.path().to_owned(),
            query: url.query().map(str::to_owned),
            fragment: url.fragment().map(str::to_owned),
        },
    )
}

/// A URL with another path; a text that is no URL as it is.
pub uninterp spec fn url_with_path(url: Seq<char>, path: Seq<char>) -> Seq<char>;

/// `url::Url::set_path`: the URL with its path replaced, which depends on the two texts alone. A
/// text that is no URL comes back unchanged.
#[verifier::external_body]
fn replace_path(url: &str, path: &str) -> (r: String)
    ensures
        r@ == url_with_path(url@, path@),
{
    match url::Url::parse(url) {
        Ok(mut parsed) => {
            parsed.set_path(path);
            parsed.into()
        },
        Err(_) => url.to_owned(),
    }
}

/// A relative reference resolved against a URL, or the message of the error.
pub uninterp spec fn url_joined(url: Seq<char>, relative: Seq<char>) -> Result<Seq<char>, Seq<char>>;

/// `url::Url::join`: a reference resolved against a URL, or the error's message. What either is
/// depends on the two texts alone.
#[verifier::external_body]
fn join_url(url: &str, relative: &str) -> (r: Result<String, String>)
    ensures
        match r {
            Ok(s) => url_joined(url@, relative@) == Ok::<Seq<char>, Seq<char>>(s@),
            Err(e) => url_joined(url@, relative@) == Err::<Seq<char>, Seq<char>>(e@),
        },
{
    let base = url::Url::parse(url).map_err(|error| error.to_string())?;
    base.join(relative).map(String::from).map_err(|error| error.to_string())
}

/// A URL with another scheme, if the URL can have it.
pub uninterp spec fn url_with_scheme(url: Seq<char>, scheme: Seq<char>) -> Option<Seq<char>>;

/// `url::Url::set_scheme`: the URL with its scheme replaced, or nothing where the scheme does not go
/// with the URL. What comes of it depends on the two texts alone.
#[verifier::external_body]
fn replace_scheme(url: &str, scheme: &str) -> (r: Option<String>)
    ensures
        maybe(r) == url_with_scheme(url@, scheme@),
{
    let mut parsed = url::Url::parse(url).ok()?;
    parsed.set_scheme(scheme).ok()?;
    Some(parsed.into())
}

/// Reads a URL.
pub fn parse_url(text: &str) -> (r: Result<ParsedUrl, String>)
    ensures
        match r {
            Ok(u) => url_parsed(text@) == Ok::<UrlView, Seq<char>>(u@),
            Err(e) => url_parsed(text@) == Err::<UrlView, Seq<char>>(e@),
        },
{
    read_url(text)
}

/// A path without the slashes at its end.
pub open spec fn without_slashes(s: Seq<char>) -> Seq<char>
    decreases s.len(),
{
    if s.len() > 0 && s.last() == '/' {
        without_slashes(s.drop_last())
    } else {
        s
    }
}

fn strip_slashes(s: &str) -> (r: String)
    ensures
        r@ == without_slashes(s@),
{
    let mut n: usize = s.unicode_len();
    assert(s@.take(n as int) =~= s@);
    while n > 0 && s.get_char(n - 1) == '/'
        invariant
            n <= s@.len(),
            without_slashes(s@) == without_slashes(s@.take(n as int)),
        decreases n,
    {
        assert(s@.take(n as int).drop_last() =~= s@.take(n - 1));
        n = n - 1;
    }
    s.substring_char(0, n).to_owned()
}

/// The directory in which an API is looked for: none where the path is that of the API already.
pub open spec fn api_directory(path: Seq<char>, leaf: Seq<char>) -> Option<Seq<char>> {
    if ends_with(without_slashes(path), leaf) {
        None
    } else {
        Some(without_slashes(path) + "/"@)
    }
}

/// Finds the directory in which an API is looked for.
pub fn find_api_directory(path: &str, leaf: &str) -> (r: Option<String>)
    ensures
        maybe(r) == api_directory(path@, leaf@),
{
    let mut stripped = strip_slashes(path);
    if has_suffix(stripped.as_str(), leaf) {
        None
    } else {
        stripped.append("/");
        Some(stripped)
    }
}

/// The endpoint of an API below a base URL, or what is wrong: a base URL that is the endpoint
/// already stays as it is.
pub open spec fn api_endpoint(
    base: Seq<char>,
    leaf: Seq<char>,
    relative: Seq<char>,
    parse_fault: Seq<char>,
    join_fault: Seq<char>,
) -> Result<Seq<char>, Seq<char>> {
    match url_parsed(base) {
        Err(e) => Err(parse_fault + e),
        Ok(u) => match api_directory(u.path, leaf) {
            None => Ok(u.text),
            Some(directory) => match url_joined(url_with_path(u.text, directory), relative) {
                Ok(endpoint) => Ok(endpoint),
                Err(e) => Err(join_fault + e),
            },
        },
    }
}

fn find_endpoint(
    base: &str,
    leaf: &str,
    relative: &str,
    parse_fault: &str,
    join_fault: &str,
) -> (r: Result<String, ModelError>)
    ensures
        match r {
            Ok(endpoint) => api_endpoint(base@, leaf@, relative@, parse_fault@, join_fault@) == Ok::<
                Seq<char>,
                Seq<char>,
            >(endpoint@),
            Err(e) => e is Configuration && api_endpoint(
                base@,
                leaf@,
                relative@,
                parse_fault@,
                join_fault@,
            ) == Err::<Seq<char>, Seq<char>>(e->Configuration_0@),
        },
{
    let parsed = match read_url(base) {
        Ok(parsed) => parsed,
        Err(e) => {
            let mut fault = parse_fault.to_owned();
            fault.append(e.as_str());
            return Err(ModelError::Configuration(fault));
        },
    };
    match find_api_directory(parsed.path.as_str(), leaf) {
        None => Ok(parsed.text),
        Some(directory) => {
            let base = replace_path(parsed.text.as_str(), directory.as_str());
            match join_url(base.as_str(), relative) {
                Ok(endpoint) => Ok(endpoint),
                Err(e) => {
                    let mut fault = join_fault.to_owned();
                    fault.append(e.as_str());
                    Err(ModelError::Configuration(fault))
                },
            }
        },
    }
}

/// The endpoint of the Responses API below a base URL.
pub open spec fn responses_api(base: Seq<char>) -> Result<Seq<char>, Seq<char>> {
    api_endpoint(
        base,
        "/responses"@,
        "responses"@,
        "invalid OpenAI endpoint: "@,
        "invalid OpenAI base URL: "@,
    )
}

/// Finds the endpoint of the Responses API.
pub fn responses_endpoint(base_url: &str) -> (r: Result<String, ModelError>)
    ensures
        match r {
            Ok(endpoint) => responses_api(base_url@) == Ok::<Seq<char>, Seq<char>>(endpoint@),
            Err(e) => e is Configuration && responses_api(base_url@) == Err::<Seq<char>, Seq<char>>(
                e->Configuration_0@,
            ),
        },
{
    find_endpoint(
        base_url,
        "/responses",
        "responses",
        "invalid OpenAI endpoint: ",
        "invalid OpenAI base URL: ",
    )
}

/// The endpoint of the Chat Completions API below a base URL.
pub open spec fn chat_api(base: Seq<char>) -> Result<Seq<char>, Seq<char>> {
    api_endpoint(
        base,
        "/chat/completions"@,
        "chat/completions"@,
        "invalid model base URL: "@,
        "invalid Chat Completions base URL: "@,
    )
}

/// Finds the endpoint of the Chat Completions API.
pub fn chat_completions_endpoint(base_url: &str) -> (r: Result<String, ModelError>)
    ensures
        match r {
            Ok(endpoint) => chat_api(base_url@) == Ok::<Seq<char>, Seq<char>>(endpoint@),
            Err(e) => e is Configuration && chat_api(base_url@) == Err::<Seq<char>, Seq<char>>(
                e->Configuration_0@,
            ),
        },
{
    find_endpoint(
        base_url,
        "/chat/completions",
        "chat/completions",
        "invalid model base URL: ",
        "invalid Chat Completions base URL: ",
    )
}

/// The WebSocket scheme that goes with an HTTP scheme.
pub open spec fn socket_scheme(scheme: Seq<char>) -> Option<Seq<char>> {
    if scheme == "http"@ {
        Some("ws"@)
    } else if scheme == "https"@ {
        Some("wss"@)
    } else {
        None
    }
}

/// Finds the WebSocket scheme that goes with an HTTP scheme.
pub fn websocket_scheme(scheme: &str) -> (r: Option<&'static str>)
    ensures
        crate::text::maybe_str(r) == socket_scheme(scheme@),
{
    if same(scheme, "http") {
        Some("ws")
    } else if same(scheme, "https") {
        Some("wss")
    } else {
        None
    }
}

/// The WebSocket endpoint of a parsed HTTP endpoint, or what is wrong.
pub open spec fn socket_endpoint(endpoint: UrlView) -> Result<Seq<char>, Seq<char>> {
    match socket_scheme(endpoint.scheme) {
        None => Err(
            "cannot derive Responses WebSocket URL from "@ + debug_text(endpoint.scheme)
                + " endpoint"@,
        ),
        Some(scheme) => match url_with_scheme(endpoint.text, scheme) {
            Some(url) => Ok(url),
            None => Err("failed to derive Responses WebSocket URL"@),
        },
    }
}

/// Finds the WebSocket endpoint of an HTTP endpoint.
pub fn websocket_endpoint(endpoint: &ParsedUrl) -> (r: Result<String, ModelError>)
    ensures
        match r {
            Ok(url) => socket_endpoint(endpoint@) == Ok::<Seq<char>, Seq<char>>(url@),
            Err(e) => e is Configuration && socket_endpoint(endpoint@) == Err::<
                Seq<char>,
                Seq<char>,
            >(e->Configuration_0@),
        },
{
    match websocket_scheme(endpoint.scheme.as_str()) {
        None => {
            let mut fault = "cannot derive Responses WebSocket URL from ".to_owned();
            fault.append(quoted(endpoint.scheme.as_str()).as_str());
            fault.append(" endpoint");
            Err(ModelError::Configuration(fault))
        },
        Some(scheme) => match replace_scheme(endpoint.text.as_str(), scheme) {
            Some(url) => Ok(url),
            None => Err(
                ModelError::Configuration("failed to derive Responses WebSocket URL".to_owned()),
            ),
        },
    }
}

/// What keeps a URL from being a provider's base URL, if anything does.
pub open spec fn base_url_fault(u: UrlView) -> Option<Seq<char>> {
    if !(u.scheme == "http"@ || u.scheme == "https"@) || u.host is None {
        Some("model base URL must be an absolute HTTP(S) URL"@)
    } else if u.username.len() > 0 || u.password is Some {
        Some("model base URL must not contain credentials"@)
    } else if u.query is Some || u.fragment is Some {
        Some("model base URL must not contain a query or fragment"@)
    } else {
        None
    }
}

/// Accepts a URL that can be a provider's base URL.
pub fn check_base_url(url: &ParsedUrl) -> (r: Result<(), ModelError>)
    ensures
        match r {
            Ok(()) => base_url_fault(url@) is None,
            Err(e) => e is Configuration && base_url_fault(url@) == Some(e->Configuration_0@),
        },
{
    if !(same(url.scheme.as_str(), "http") || same(url.scheme.as_str(), "https"))
        || url.host.is_none() {
        return Err(
            ModelError::Configuration("model base URL must be an absolute HTTP(S) URL".to_owned()),
        );
    }
    if !url.username.as_str().is_empty() || url.password.is_some() {
        return Err(
            ModelError::Configuration("model base URL must not contain credentials".to_owned()),
        );
    }
    if url.query.is_some() || url.fragment.is_some() {
        return Err(
            ModelError::Configuration(
                "model base URL must not contain a query or fragment".to_owned(),
            ),
        );
    }
    Ok(())
}

/// The normal form of a provider's base URL, or what is wrong with it.
pub open spec fn base_url(value: Seq<char>) -> Result<Seq<char>, Seq<char>> {
    match url_parsed(value) {
        Err(e) => Err("invalid model base URL: "@ + e),
        Ok(u) => match base_url_fault(u) {
            Some(fault) => Err(fault),
            None => Ok(u.text),
        },
    }
}

/// Normalizes a provider's base URL.
pub fn normalize_base_url(value: &str) -> (r: Result<String, ModelError>)
    ensures
        match r {
            Ok(url) => base_url(value@) == Ok::<Seq<char>, Seq<char>>(url@),
            Err(e) => e is Configuration && base_url(value@) == Err::<Seq<char>, Seq<char>>(
                e->Configuration_0@,
            ),
        },
{
    match read_url(value) {
        Err(e) => {
            let mut fault = "invalid model base URL: ".to_owned();
            fault.append(e.as_str());
            Err(ModelError::Configuration(fault))
        },
        Ok(parsed) => {
            check_base_url(&parsed)?;
            Ok(parsed.text)
        },
    }
}

} // verus!
