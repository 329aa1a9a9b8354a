//! Routes of requests, and the identity of their configuration.

use crate::digest::{digest_form, sha256_hex_of_text, sha256_text};
use crate::json::{group_json, json_text, member_views, put, Json, JsonView};
use crate::model::error::{ModelError, ModelErrorView};
use crate::model::metadata::{effort_json, effort_view};
use crate::model::responses::{one, one_json};
use crate::protocol::model::{ModelRouteCapabilities, ModelRouteSnapshot, ReasoningEffort};
use crate::text::{debug_text, quoted, same};
use vstd::prelude::*;
use vstd::utf8::encode_utf8;

verus! {

broadcast use group_json;

/// The identity of a configuration: the digest of its JSON text.
pub open spec fn route_hash(value: JsonView) -> Seq<char> {
    sha256_text(encode_utf8(json_text(value)))
}

/// Finds the identity of a configuration.
pub fn hash_route_config(value: &Json) -> (r: String)
    ensures
        r@ == route_hash(value@),
        digest_form(r@),
{
    let text = value.render();
    sha256_hex_of_text(text.as_str())
}

/// What identifies the route to a model that is called by its own name.
pub open spec fn direct_identity(
    profile: Seq<char>,
    context_window: usize,
    hosted_web_search: bool,
    effort: Option<ReasoningEffort>,
) -> JsonView {
    JsonView::Object(
        seq![
            ("capabilities"@, one("hosted_web_search"@, JsonView::Bool(hosted_web_search))),
            ("context_window"@, JsonView::Integer(context_window as int)),
            ("profile"@, JsonView::Text(profile)),
            ("provider"@, JsonView::Text("direct"@)),
            ("reasoning_effort"@, effort_view(effort)),
            ("upstream_model"@, JsonView::Text(profile)),
        ],
    )
}

/// The mathematical value of a route.
pub ghost struct RouteView {
    pub profile: Seq<char>,
    pub provider: Seq<char>,
    pub upstream_model: Seq<char>,
    pub context_window: usize,
    pub capabilities: ModelRouteCapabilities,
    pub reasoning_effort: Option<ReasoningEffort>,
    pub config_sha256: Seq<char>,
}

/// The value of a route.
pub open spec fn route_view(s: ModelRouteSnapshot) -> RouteView {
    RouteView {
        profile: s.profile@,
        provider: s.provider@,
        upstream_model: s.upstream_model@,
        context_window: s.context_window,
        capabilities: s.capabilities,
        reasoning_effort: s.reasoning_effort,
        config_sha256: s.config_sha256@,
    }
}

/// The route to a model that is called by its own name.
pub open spec fn direct_route(
    profile: Seq<char>,
    effort: Option<ReasoningEffort>,
    context_window: usize,
    hosted_web_search: bool,
) -> RouteView {
    RouteView {
        profile,
        provider: "direct"@,
        upstream_model: profile,
        context_window,
        capabilities: ModelRouteCapabilities { hosted_web_search },
        reasoning_effort: effort,
        config_sha256: route_hash(
            direct_identity(profile, context_window, hosted_web_search, effort),
        ),
    }
}

/// Accepts a route that holds nothing wrong.
pub(crate) fn checked(snapshot: ModelRouteSnapshot) -> (r: Result<ModelRouteSnapshot, ModelError>)
    ensures
        match r {
            Ok(s) => s == snapshot && snapshot.fault() is None,
            Err(e) => snapshot.fault() matches Some(m) && e@ == ModelErrorView::Configuration(m),
        },
{
    match snapshot.validate() {
        Ok(()) => Ok(snapshot),
        Err(m) => Err(ModelError::Configuration(m)),
    }
}

/// Finds the route to a model that is called by its own name, given what its client says of it.
pub fn resolve_direct_route(
    profile: &str,
    reasoning_effort: Option<ReasoningEffort>,
    model_context_window: Option<usize>,
    fallback_context_window: usize,
    hosted_web_search: bool,
) -> (r: Result<ModelRouteSnapshot, ModelError>)
    ensures
        ({
            let window = match model_context_window {
                Some(n) => n,
                None => fallback_context_window,
            };
            match r {
                Ok(s) => s.fault() is None && route_view(s) == direct_route(
                    profile@,
                    reasoning_effort,
                    window,
                    hosted_web_search,
                ),
                Err(e) => direct_fault(profile@, window) matches Some(m) && e@
                    == ModelErrorView::Configuration(m),
            }
        }),
{
    let context_window = match model_context_window {
        Some(n) => n,
        None => fallback_context_window,
    };
    let mut o: Vec<(String, Json)> = Vec::new();
    put(&mut o, "capabilities", one_json("hosted_web_search", Json::Bool(hosted_web_search)));
    put(&mut o, "context_window", Json::Unsigned(context_window as u64));
    put(&mut o, "profile", Json::text(profile));
    put(&mut o, "provider", Json::text("direct"));
    put(&mut o, "reasoning_effort", effort_json(reasoning_effort));
    put(&mut o, "upstream_model", Json::text(profile));
    assert(member_views(o@) =~= direct_identity(
        profile@,
        context_window,
        hosted_web_search,
        reasoning_effort,
    )->Object_0);
    let config_sha256 = hash_route_config(&Json::Object(o));
    let snapshot = ModelRouteSnapshot {
        profile: profile.to_owned(),
        provider: "direct".to_owned(),
        upstream_model: profile.to_owned(),
        context_window,
        capabilities: ModelRouteCapabilities { hosted_web_search },
        reasoning_effort,
        config_sha256,
    };
    proof {
        lemma_direct_is_named();
    }
    checked(snapshot)
}

proof fn lemma_direct_is_named()
    ensures
        crate::text::trimmed("direct"@).len() > 0,
{
    reveal_strlit("direct");
    reveal_with_fuel(crate::text::trim_start, 2);
    reveal_with_fuel(crate::text::trim_end, 2);
    let s = "direct"@;
    assert(s.len() == 6);
    assert(!crate::text::white(s[0]));
    assert(!crate::text::white(s.last()));
    assert(crate::text::trim_start(s) == s);
}

/// What is wrong with the route to a model that is called by its own name.
pub open spec fn direct_fault(profile: Seq<char>, context_window: usize) -> Option<Seq<char>> {
    if crate::text::trimmed(profile).len() == 0 {
        Some("model route identifiers must be non-empty"@)
    } else if context_window < 4096 {
        Some("model route context window must be at least 4096"@)
    } else {
        None
    }
}

/// Whether two routes are equal.
pub fn same_route(a: &ModelRouteSnapshot, b: &ModelRouteSnapshot) -> (r: bool)
    ensures
        r == (route_view(*a) == route_view(*b)),
{
    same(a.profile.as_str(), b.profile.as_str()) && same(a.provider.as_str(), b.provider.as_str())
        && same(a.upstream_model.as_str(), b.upstream_model.as_str()) && a.context_window
        == b.context_window && a.capabilities.hosted_web_search == b.capabilities.hosted_web_search
        && same_effort(a.reasoning_effort, b.reasoning_effort) && same(
        a.config_sha256.as_str(),
        b.config_sha256.as_str(),
    )
}

fn same_effort(a: Option<ReasoningEffort>, b: Option<ReasoningEffort>) -> (r: bool)
    ensures
        r == (a == b),
{
    match (a, b) {
        (Some(x), Some(y)) => x == y,
        (None, None) => true,
        _ => false,
    }
}

/// What is said of a route whose configuration is another by now.
pub open spec fn drift_fault(profile: Seq<char>) -> Seq<char> {
    "model route configuration changed for profile "@ + debug_text(profile)
}

/// Accepts a route that is valid and still what its profile resolves to.
pub fn validate_route(
    snapshot: &ModelRouteSnapshot,
    current: Result<ModelRouteSnapshot, ModelError>,
) -> (r: Result<(), ModelError>)
    ensures
        match r {
            Ok(()) => snapshot.fault() is None && (current matches Ok(c) && route_view(c)
                == route_view(*snapshot)),
            Err(e) => match snapshot.fault() {
                Some(m) => e@ == ModelErrorView::Configuration(m),
                None => match current {
                    Err(c) => e@ == c@,
                    Ok(c) => route_view(c) != route_view(*snapshot) && e@
                        == ModelErrorView::Configuration(drift_fault(snapshot.profile@)),
                },
            },
        },
{
    match snapshot.validate() {
        Ok(()) => {},
        Err(m) => {
            return Err(ModelError::Configuration(m));
        },
    }
    match current {
        Err(e) => Err(e),
        Ok(current) => {
            if same_route(&current, snapshot) {
                Ok(())
            } else {
                let mut message = "model route configuration changed for profile ".to_owned();
                let shown = quoted(snapshot.profile.as_str());
                message.append(shown.as_str());
                Err(ModelError::Configuration(message))
            }
        },
    }
}

} // verus!
