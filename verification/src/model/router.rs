//! The router: requests name a profile, and go to the client and model behind it.

use crate::json::{group_json, member_views, put, Json, JsonView};
use crate::model::error::{ModelError, ModelErrorView};
use crate::model::metadata::{effort_json, effort_view};
use crate::model::providers::{
    about, capabilities_json, capabilities_view, has_capability, ModelApi, ModelCapability,
};
use crate::model::route::{
    checked, drift_fault, hash_route_config, route_hash, route_view, validate_route, RouteView,
};
use crate::protocol::model::{
    HostedTool, ModelEvent, ModelRequest, ModelRequestMetadata, ModelRouteCapabilities,
    ModelRouteSnapshot, ReasoningEffort, RequestView,
};
use crate::text::{debug_text, join, joined, maybe, quoted, same, sort_texts, sorted_texts, texts};
use vstd::prelude::*;

verus! {

broadcast use {group_json, crate::text::lemma_texts_push};

/// A model that requests can name.
#[derive(Debug, PartialEq, Eq)]
pub struct ModelProfile {
    pub id: String,
    pub provider: String,
    pub api: ModelApi,
    pub model: String,
    pub context_window: usize,
    pub capabilities: Vec<ModelCapability>,
    pub default_reasoning_effort: Option<ReasoningEffort>,
    pub config_sha256: String,
}

/// The mathematical value of a [`ModelProfile`].
pub ghost struct ProfileView {
    pub id: Seq<char>,
    pub provider: Seq<char>,
    pub api: ModelApi,
    pub model: Seq<char>,
    pub context_window: usize,
    pub capabilities: Seq<ModelCapability>,
    pub default_reasoning_effort: Option<ReasoningEffort>,
    pub config_sha256: Seq<char>,
}

impl View for ModelProfile {
    type V = ProfileView;

    open spec fn view(&self) -> ProfileView {
        ProfileView {
            id: self.id@,
            provider: self.provider@,
            api: self.api,
            model: self.model@,
            context_window: self.context_window,
            capabilities: self.capabilities@,
            default_reasoning_effort: self.default_reasoning_effort,
            config_sha256: self.config_sha256@,
        }
    }
}

/// Copies capabilities.
pub(crate) fn copy_capabilities(capabilities: &Vec<ModelCapability>) -> (r: Vec<ModelCapability>)
    ensures
        r@ == capabilities@,
{
    let mut r: Vec<ModelCapability> = Vec::new();
    let mut i: usize = 0;
    while i < capabilities.len()
        invariant
            i <= capabilities.len(),
            r@ == capabilities@.take(i as int),
        decreases capabilities.len() - i,
    {
        r.push(capabilities[i]);
        assert(r@ =~= capabilities@.take(i + 1));
        i = i + 1;
    }
    assert(capabilities@.take(i as int) =~= capabilities@);
    r
}

impl Clone for ModelProfile {
    fn clone(&self) -> (r: Self)
        ensures
            r@ == self@,
    {
        ModelProfile {
            id: self.id.clone(),
            provider: self.provider.clone(),
            api: self.api,
            model: self.model.clone(),
            context_window: self.context_window,
            capabilities: copy_capabilities(&self.capabilities),
            default_reasoning_effort: self.default_reasoning_effort,
            config_sha256: self.config_sha256.clone(),
        }
    }
}

impl ModelProfile {
    /// Whether the model can do something.
    pub fn supports(&self, capability: ModelCapability) -> (r: bool)
        ensures
            r == self@.capabilities.contains(capability),
    {
        has_capability(&self.capabilities, capability)
    }
}

/// What identifies a profile that comes without an identity.
pub open spec fn profile_identity(p: ProfileView) -> JsonView {
    JsonView::Object(
        seq![
            ("api"@, JsonView::Text(p.api.text())),
            ("capabilities"@, capabilities_view(p.capabilities)),
            ("context_window"@, JsonView::Integer(p.context_window as int)),
            ("default_reasoning_effort"@, effort_view(p.default_reasoning_effort)),
            ("profile"@, JsonView::Text(p.id)),
            ("provider"@, JsonView::Text(p.provider)),
            ("upstream_model"@, JsonView::Text(p.model)),
        ],
    )
}

/// A profile with an identity: its own, or one made of its settings.
pub open spec fn identified(p: ProfileView) -> ProfileView {
    if p.config_sha256.len() == 0 {
        ProfileView { config_sha256: route_hash(profile_identity(p)), ..p }
    } else {
        p
    }
}

fn identify(profile: ModelProfile) -> (r: ModelProfile)
    ensures
        r@ == identified(profile@),
{
    if !profile.config_sha256.as_str().is_empty() {
        return profile;
    }
    let mut o: Vec<(String, Json)> = Vec::new();
    put(&mut o, "api", Json::text(profile.api.as_str()));
    put(&mut o, "capabilities", capabilities_json(&profile.capabilities));
    put(&mut o, "context_window", Json::Unsigned(profile.context_window as u64));
    put(&mut o, "default_reasoning_effort", effort_json(profile.default_reasoning_effort));
    put(&mut o, "profile", Json::text(profile.id.as_str()));
    put(&mut o, "provider", Json::text(profile.provider.as_str()));
    put(&mut o, "upstream_model", Json::text(profile.model.as_str()));
    assert(member_views(o@) =~= profile_identity(profile@)->Object_0);
    let mut profile = profile;
    profile.config_sha256 = hash_route_config(&Json::Object(o));
    profile
}

/// The client behind a profile: its place among the clients, and whether it offers hosted search.
#[derive(Debug)]
pub struct ProfileClient {
    pub profile: String,
    pub client: usize,
    pub hosts_search: bool,
}

/// The mathematical value of a [`ProfileClient`].
pub ghost struct LinkView {
    pub profile: Seq<char>,
    pub client: usize,
    pub hosts_search: bool,
}

impl View for ProfileClient {
    type V = LinkView;

    open spec fn view(&self) -> LinkView {
        LinkView {
            profile: self.profile@,
            client: self.client,
            hosts_search: self.hosts_search,
        }
    }
}

/// The values of the clients behind profiles.
pub open spec fn links(clients: Seq<ProfileClient>) -> Seq<LinkView> {
    clients.map_values(|c: ProfileClient| c@)
}

/// A profile with the client behind it.
#[derive(Debug)]
pub struct ModelRoute {
    pub profile: ModelProfile,
    pub client: usize,
    pub hosts_search: bool,
}

/// The mathematical value of a [`ModelRoute`].
pub ghost struct EntryView {
    pub profile: ProfileView,
    pub client: usize,
    pub hosts_search: bool,
}

impl View for ModelRoute {
    type V = EntryView;

    open spec fn view(&self) -> EntryView {
        EntryView {
            profile: self.profile@,
            client: self.client,
            hosts_search: self.hosts_search,
        }
    }
}

/// The values of routes.
pub open spec fn entries(routes: Seq<ModelRoute>) -> Seq<EntryView> {
    routes.map_values(|r: ModelRoute| r@)
}

/// The values of profiles.
pub open spec fn profile_views(profiles: Seq<ModelProfile>) -> Seq<ProfileView> {
    profiles.map_values(|p: ModelProfile| p@)
}

/// The place of a profile's client in a list, its length where there is none.
pub open spec fn client_place(clients: Seq<LinkView>, id: Seq<char>) -> int
    decreases clients.len(),
{
    if clients.len() == 0 || clients[0].profile == id {
        0
    } else {
        1 + client_place(clients.drop_first(), id)
    }
}

proof fn lemma_client_place(clients: Seq<LinkView>, id: Seq<char>, at: int)
    requires
        0 <= at <= clients.len(),
        forall|i: int| 0 <= i < at ==> (#[trigger] clients[i]).profile != id,
        at < clients.len() ==> clients[at].profile == id,
    ensures
        client_place(clients, id) == at,
    decreases clients.len(),
{
    if at > 0 {
        let rest = clients.drop_first();
        assert forall|i: int| 0 <= i < at - 1 implies (#[trigger] rest[i]).profile != id by {
            assert(rest[i] == clients[i + 1]);
        }
        assert(clients[0].profile != id);
        lemma_client_place(rest, id, at - 1);
    }
}

/// The place of a profile among routes, their number where there is none.
pub open spec fn route_place(routes: Seq<EntryView>, id: Seq<char>) -> int
    decreases routes.len(),
{
    if routes.len() == 0 || routes[0].profile.id == id {
        0
    } else {
        1 + route_place(routes.drop_first(), id)
    }
}

/// A route's place is its first.
pub proof fn lemma_route_place(routes: Seq<EntryView>, id: Seq<char>, at: int)
    requires
        0 <= at <= routes.len(),
        forall|i: int| 0 <= i < at ==> (#[trigger] routes[i]).profile.id != id,
        at < routes.len() ==> routes[at].profile.id == id,
    ensures
        route_place(routes, id) == at,
    decreases routes.len(),
{
    if at > 0 {
        let rest = routes.drop_first();
        assert forall|i: int| 0 <= i < at - 1 implies (#[trigger] rest[i]).profile.id != id by {
            assert(rest[i] == routes[i + 1]);
        }
        assert(routes[0].profile.id != id);
        lemma_route_place(rest, id, at - 1);
    }
}

/// The route of a profile.
pub open spec fn route_to(routes: Seq<EntryView>, id: Seq<char>) -> Option<EntryView> {
    let at = route_place(routes, id);
    if at < routes.len() {
        Some(routes[at])
    } else {
        None
    }
}

/// Routes with that of one profile more, or what is wrong with it.
pub open spec fn routed(
    routes: Seq<EntryView>,
    profile: ProfileView,
    clients: Seq<LinkView>,
) -> Result<Seq<EntryView>, Seq<char>> {
    let at = client_place(clients, profile.id);
    if at >= clients.len() {
        Err("model profile "@ + debug_text(profile.id) + " has no model client"@)
    } else if route_to(routes, profile.id) is Some {
        Err("model profile identifiers must be unique"@)
    } else {
        Ok(
            routes.push(
                EntryView {
                    profile: identified(profile),
                    client: clients[at].client,
                    hosts_search: clients[at].hosts_search,
                },
            ),
        )
    }
}

/// The routes of profiles, or what is wrong with them.
pub open spec fn all_routed(profiles: Seq<ProfileView>, clients: Seq<LinkView>) -> Result<
    Seq<EntryView>,
    Seq<char>,
>
    decreases profiles.len(),
{
    if profiles.len() == 0 {
        Ok(Seq::empty())
    } else {
        match all_routed(profiles.drop_last(), clients) {
            Ok(routes) => routed(routes, profiles.last(), clients),
            Err(e) => Err(e),
        }
    }
}

proof fn lemma_routing_faults_last(
    profiles: Seq<ProfileView>,
    clients: Seq<LinkView>,
    i: int,
)
    requires
        0 <= i <= profiles.len(),
        all_routed(profiles.take(i), clients) is Err,
    ensures
        all_routed(profiles, clients) == all_routed(profiles.take(i), clients),
    decreases profiles.len() - i,
{
    if i == profiles.len() {
        assert(profiles.take(i) =~= profiles);
    } else {
        assert(profiles.take(i + 1).drop_last() =~= profiles.take(i));
        lemma_routing_faults_last(profiles, clients, i + 1);
    }
}

/// The clients of a list, each once.
pub open spec fn distinct_clients(clients: Seq<LinkView>) -> Seq<usize>
    decreases clients.len(),
{
    if clients.len() == 0 {
        Seq::empty()
    } else {
        let before = distinct_clients(clients.drop_last());
        if before.contains(clients.last().client) {
            before
        } else {
            before.push(clients.last().client)
        }
    }
}

/// The routes of a router, or what is wrong with them.
pub open spec fn routing(profiles: Seq<ProfileView>, clients: Seq<LinkView>) -> Result<
    Seq<EntryView>,
    Seq<char>,
> {
    match all_routed(profiles, clients) {
        Ok(routes) => if clients.len() != routes.len() {
            Err("model clients contain an unknown profile identifier"@)
        } else {
            Ok(routes)
        },
        Err(e) => Err(e),
    }
}

fn find_client(clients: &Vec<ProfileClient>, id: &str) -> (r: usize)
    ensures
        r == client_place(links(clients@), id@),
        r <= clients@.len(),
{
    let mut i: usize = 0;
    while i < clients.len()
        invariant
            i <= clients@.len(),
            forall|k: int| 0 <= k < i ==> (#[trigger] links(clients@)[k]).profile != id@,
        decreases clients.len() - i,
    {
        assert(links(clients@)[i as int] == clients@[i as int]@);
        if same(clients[i].profile.as_str(), id) {
            proof {
                lemma_client_place(links(clients@), id@, i as int);
            }
            return i;
        }
        i = i + 1;
    }
    proof {
        lemma_client_place(links(clients@), id@, i as int);
    }
    i
}

fn find_route(routes: &Vec<ModelRoute>, id: &str) -> (r: usize)
    ensures
        r == route_place(entries(routes@), id@),
        r <= routes@.len(),
{
    let mut i: usize = 0;
    while i < routes.len()
        invariant
            i <= routes@.len(),
            forall|k: int| 0 <= k < i ==> (#[trigger] entries(routes@)[k]).profile.id != id@,
        decreases routes.len() - i,
    {
        assert(entries(routes@)[i as int] == routes@[i as int]@);
        if same(routes[i].profile.id.as_str(), id) {
            proof {
                lemma_route_place(entries(routes@), id@, i as int);
            }
            return i;
        }
        i = i + 1;
    }
    proof {
        lemma_route_place(entries(routes@), id@, i as int);
    }
    i
}

fn holds_client(list: &Vec<usize>, client: usize) -> (r: bool)
    ensures
        r == list@.contains(client),
{
    let mut i: usize = 0;
    while i < list.len()
        invariant
            i <= list.len(),
            forall|k: int| 0 <= k < i ==> list@[k] != client,
        decreases list.len() - i,
    {
        if list[i] == client {
            return true;
        }
        i = i + 1;
    }
    false
}

/// Routes by profile, and the clients that they lead to.
#[derive(Debug)]
pub struct ModelRouter {
    pub routes: Vec<ModelRoute>,
    pub clients: Vec<usize>,
}

/// The names of routed profiles.
pub open spec fn route_names(routes: Seq<EntryView>) -> Seq<Seq<char>> {
    routes.map_values(|r: EntryView| r.profile.id)
}

/// What is said of a profile that there is no route for.
pub open spec fn unknown_profile(routes: Seq<EntryView>, id: Seq<char>) -> Seq<char> {
    "unknown model profile "@ + debug_text(id) + "; configured profiles: "@ + joined(
        sorted_texts(route_names(routes)),
        ", "@,
    )
}

/// The route that a profile's requests take.
pub open spec fn snapshot_of(entry: EntryView, effort: Option<ReasoningEffort>) -> RouteView {
    RouteView {
        profile: entry.profile.id,
        provider: entry.profile.provider,
        upstream_model: entry.profile.model,
        context_window: entry.profile.context_window,
        capabilities: ModelRouteCapabilities { hosted_web_search: searches(entry) },
        reasoning_effort: match effort {
            Some(e) => Some(e),
            None => entry.profile.default_reasoning_effort,
        },
        config_sha256: entry.profile.config_sha256,
    }
}

/// Whether a profile offers hosted search: it says so, and so does its client.
pub open spec fn searches(entry: EntryView) -> bool {
    entry.profile.capabilities.contains(ModelCapability::HostedWebSearch) && entry.hosts_search
}

/// What is wrong with a route's value.
pub open spec fn route_fault(r: RouteView) -> Option<Seq<char>> {
    if crate::text::trimmed(r.profile).len() == 0 || crate::text::trimmed(r.provider).len() == 0
        || crate::text::trimmed(r.upstream_model).len() == 0 {
        Some("model route identifiers must be non-empty"@)
    } else if r.context_window < 4096 {
        Some("model route context window must be at least 4096"@)
    } else if !crate::digest::digest_form(r.config_sha256) {
        Some("model route config_sha256 must be a SHA-256 hex digest"@)
    } else {
        None
    }
}

/// The route of a profile's requests, or why there is none.
pub open spec fn resolution(
    routes: Seq<EntryView>,
    id: Seq<char>,
    effort: Option<ReasoningEffort>,
) -> Result<RouteView, Seq<char>> {
    match route_to(routes, id) {
        None => Err(unknown_profile(routes, id)),
        Some(entry) => match route_fault(snapshot_of(entry, effort)) {
            Some(fault) => Err(fault),
            None => Ok(snapshot_of(entry, effort)),
        },
    }
}

/// What is told of a request once it was routed: of the answer's events only its metadata change.
pub open spec fn annotated(
    event: ModelEvent,
    told: ModelEvent,
    profile: ProfileView,
    id: Seq<char>,
) -> bool {
    match event {
        ModelEvent::RequestMetadata { metadata } => told matches ModelEvent::RequestMetadata {
            metadata: m,
        } && {
            &&& maybe(m.provider) == Some(profile.provider)
            &&& maybe(m.api) == Some(profile.api.text())
            &&& maybe(m.model_profile) == Some(id)
            &&& maybe(m.upstream_model) == Some(profile.model)
            &&& m == (ModelRequestMetadata {
                provider: m.provider,
                api: m.api,
                model_profile: m.model_profile,
                upstream_model: m.upstream_model,
                ..metadata
            })
        },
        _ => told == event,
    }
}

impl ModelRouter {
    /// Makes a router of profiles and the clients behind them.
    pub fn new(profiles: Vec<ModelProfile>, clients_by_profile: &Vec<ProfileClient>) -> (r: Result<
        Self,
        ModelError,
    >)
        ensures
            match r {
                Ok(router) => routing(profile_views(profiles@), links(clients_by_profile@)) == Ok::<
                    Seq<EntryView>,
                    Seq<char>,
                >(entries(router.routes@)) && router.clients@ == distinct_clients(
                    links(clients_by_profile@),
                ),
                Err(e) => routing(profile_views(profiles@), links(clients_by_profile@)) matches Err(m)
                    && e@ == ModelErrorView::Configuration(m),
            },
    {
        let ghost all = profile_views(profiles@);
        let mut routes: Vec<ModelRoute> = Vec::new();
        assert(entries(routes@) =~= Seq::<EntryView>::empty());
        assert(all.take(0) =~= Seq::<ProfileView>::empty());
        let mut i: usize = 0;
        while i < profiles.len()
            invariant
                i <= profiles@.len(),
                all == profile_views(profiles@),
                all_routed(all.take(i as int), links(clients_by_profile@)) == Ok::<
                    Seq<EntryView>,
                    Seq<char>,
                >(entries(routes@)),
            decreases profiles.len() - i,
        {
            assert(all.take(i + 1).drop_last() =~= all.take(i as int));
            assert(all.take(i + 1).last() == profiles@[i as int]@);
            let id = &profiles[i].id;
            let at = find_client(clients_by_profile, id.as_str());
            if at >= clients_by_profile.len() {
                proof {
                    lemma_routing_faults_last(all, links(clients_by_profile@), i + 1);
                }
                return Err(about("model profile ", id.as_str(), " has no model client"));
            }
            if find_route(&routes, id.as_str()) < routes.len() {
                proof {
                    lemma_routing_faults_last(all, links(clients_by_profile@), i + 1);
                }
                return Err(
                    ModelError::Configuration(
                        "model profile identifiers must be unique".to_owned(),
                    ),
                );
            }
            assert(links(clients_by_profile@)[at as int] == clients_by_profile@[at as int]@);
            let profile = identify(profiles[i].clone());
            let ghost before = entries(routes@);
            let route = ModelRoute {
                profile,
                client: clients_by_profile[at].client,
                hosts_search: clients_by_profile[at].hosts_search,
            };
            routes.push(route);
            assert(entries(routes@) =~= before.push(route@));
            i = i + 1;
        }
        assert(all.take(i as int) =~= all);
        if clients_by_profile.len() != routes.len() {
            return Err(
                ModelError::Configuration(
                    "model clients contain an unknown profile identifier".to_owned(),
                ),
            );
        }
        let mut clients: Vec<usize> = Vec::new();
        let mut k: usize = 0;
        assert(clients@ =~= distinct_clients(links(clients_by_profile@).take(0)));
        while k < clients_by_profile.len()
            invariant
                k <= clients_by_profile@.len(),
                clients@ == distinct_clients(links(clients_by_profile@).take(k as int)),
            decreases clients_by_profile.len() - k,
        {
            let ghost linked = links(clients_by_profile@);
            assert(linked.take(k + 1).drop_last() =~= linked.take(k as int));
            assert(linked.take(k + 1).last() == clients_by_profile@[k as int]@);
            let client = clients_by_profile[k].client;
            if !holds_client(&clients, client) {
                clients.push(client);
            }
            k = k + 1;
        }
        assert(links(clients_by_profile@).take(k as int) =~= links(clients_by_profile@));
        Ok(ModelRouter { routes, clients })
    }

    fn unknown(&self, id: &str) -> (r: ModelError)
        ensures
            r@ == ModelErrorView::Configuration(unknown_profile(entries(self.routes@), id@)),
    {
        let ghost all = route_names(entries(self.routes@));
        let mut names: Vec<String> = Vec::new();
        let mut i: usize = 0;
        assert(texts(names@) =~= all.take(0));
        while i < self.routes.len()
            invariant
                i <= self.routes@.len(),
                all == route_names(entries(self.routes@)),
                texts(names@) == all.take(i as int),
            decreases self.routes.len() - i,
        {
            names.push(self.routes[i].profile.id.clone());
            assert(texts(names@) =~= all.take(i + 1));
            i = i + 1;
        }
        assert(all.take(i as int) =~= all);
        let names = sort_texts(&names);
        let mut message = "unknown model profile ".to_owned();
        let shown = quoted(id);
        message.append(shown.as_str());
        message.append("; configured profiles: ");
        let list = join(&names, ", ");
        message.append(list.as_str());
        ModelError::Configuration(message)
    }

    /// The context window of a profile.
    pub fn model_context_window(&self, model: &str) -> (r: Option<usize>)
        ensures
            r == (match route_to(entries(self.routes@), model@) {
                Some(entry) => Some(entry.profile.context_window),
                None => None,
            }),
    {
        let at = find_route(&self.routes, model);
        if at < self.routes.len() {
            assert(entries(self.routes@)[at as int] == self.routes@[at as int]@);
            Some(self.routes[at].profile.context_window)
        } else {
            None
        }
    }

    /// Whether a profile offers a hosted tool.
    pub fn supports_hosted_tool(&self, model: &str, tool: HostedTool) -> (r: bool)
        ensures
            r == (match route_to(entries(self.routes@), model@) {
                Some(entry) => tool == HostedTool::WebSearch && searches(entry),
                None => false,
            }),
    {
        let at = find_route(&self.routes, model);
        if at < self.routes.len() {
            assert(entries(self.routes@)[at as int] == self.routes@[at as int]@);
            let route = &self.routes[at];
            match tool {
                HostedTool::WebSearch => route.profile.supports(ModelCapability::HostedWebSearch)
                    && route.hosts_search,
            }
        } else {
            false
        }
    }

    /// Finds the route that a profile's requests take.
    pub fn resolve_route_snapshot(
        &self,
        profile: &str,
        reasoning_effort: Option<ReasoningEffort>,
    ) -> (r: Result<ModelRouteSnapshot, ModelError>)
        ensures
            match r {
                Ok(s) => resolution(entries(self.routes@), profile@, reasoning_effort) == Ok::<
                    RouteView,
                    Seq<char>,
                >(route_view(s)) && s.fault() is None,
                Err(e) => resolution(entries(self.routes@), profile@, reasoning_effort) matches Err(
                    m,
                ) && e@ == ModelErrorView::Configuration(m),
            },
    {
        let at = find_route(&self.routes, profile);
        if at >= self.routes.len() {
            return Err(self.unknown(profile));
        }
        assert(entries(self.routes@)[at as int] == self.routes@[at as int]@);
        let route = &self.routes[at];
        let snapshot = ModelRouteSnapshot {
            profile: route.profile.id.clone(),
            provider: route.profile.provider.clone(),
            upstream_model: route.profile.model.clone(),
            context_window: route.profile.context_window,
            capabilities: ModelRouteCapabilities {
                hosted_web_search: route.profile.supports(ModelCapability::HostedWebSearch)
                    && route.hosts_search,
            },
            reasoning_effort: match reasoning_effort {
                Some(e) => Some(e),
                None => route.profile.default_reasoning_effort,
            },
            config_sha256: route.profile.config_sha256.clone(),
        };
        checked(snapshot)
    }

    /// Accepts a route that is still what its profile resolves to.
    pub fn validate_route_snapshot(&self, snapshot: &ModelRouteSnapshot) -> (r: Result<
        (),
        ModelError,
    >)
        ensures
            match r {
                Ok(()) => resolution(
                    entries(self.routes@),
                    snapshot.profile@,
                    snapshot.reasoning_effort,
                ) == Ok::<RouteView, Seq<char>>(route_view(*snapshot)),
                Err(e) => e@ == ModelErrorView::Configuration(
                    match route_fault(route_view(*snapshot)) {
                        Some(m) => m,
                        None => match resolution(
                            entries(self.routes@),
                            snapshot.profile@,
                            snapshot.reasoning_effort,
                        ) {
                            Err(m) => m,
                            Ok(_) => drift_fault(snapshot.profile@),
                        },
                    },
                ) && resolution(
                    entries(self.routes@),
                    snapshot.profile@,
                    snapshot.reasoning_effort,
                ) != Ok::<RouteView, Seq<char>>(route_view(*snapshot)),
            },
    {
        let current = self.resolve_route_snapshot(
            snapshot.profile.as_str(),
            snapshot.reasoning_effort,
        );
        validate_route(snapshot, current)
    }

    /// Sends a request on its way: names the client, and the model in place of the profile. Hands
    /// back the place of the route.
    pub fn route_request(&self, request: ModelRequest) -> (r: Result<
        (usize, ModelRequest),
        ModelError,
    >)
        ensures
            match r {
                Ok((at, sent)) => {
                    &&& at == route_place(entries(self.routes@), request@.model)
                    &&& at < self.routes@.len()
                    &&& sent@ == (RequestView {
                        model: entries(self.routes@)[at as int].profile.model,
                        ..request@
                    })
                },
                Err(e) => route_to(entries(self.routes@), request@.model) is None && e@
                    == ModelErrorView::Configuration(
                    unknown_profile(entries(self.routes@), request@.model),
                ),
            },
    {
        let at = find_route(&self.routes, request.model.as_str());
        if at >= self.routes.len() {
            return Err(self.unknown(request.model.as_str()));
        }
        assert(entries(self.routes@)[at as int] == self.routes@[at as int]@);
        let mut request = request;
        request.model = self.routes[at].profile.model.clone();
        Ok((at, request))
    }
}

/// Says of an answer's events which profile, provider and model they come from.
pub fn annotate_event(event: ModelEvent, profile: &ModelProfile, profile_id: &str) -> (r: ModelEvent)
    ensures
        annotated(event, r, profile@, profile_id@),
{
    match event {
        ModelEvent::RequestMetadata { metadata } => {
            let mut metadata = metadata;
            metadata.provider = Some(profile.provider.clone());
            metadata.api = Some(profile.api.as_str().to_owned());
            metadata.model_profile = Some(profile_id.to_owned());
            metadata.upstream_model = Some(profile.model.clone());
            ModelEvent::RequestMetadata { metadata }
        },
        other => other,
    }
}

/// What a profile resolves to is accepted as long as the router stays the same.
pub proof fn law_resolved_routes_are_accepted(
    routes: Seq<EntryView>,
    id: Seq<char>,
    effort: Option<ReasoningEffort>,
)
    ensures
        resolution(routes, id, effort) matches Ok(r) ==> r.profile == id && route_fault(r) is None
            && resolution(routes, r.profile, r.reasoning_effort) == Ok::<RouteView, Seq<char>>(r),
{
    lemma_route_to_names(routes, id);
}

proof fn lemma_route_to_names(routes: Seq<EntryView>, id: Seq<char>)
    ensures
        0 <= route_place(routes, id) <= routes.len(),
        route_to(routes, id) matches Some(entry) ==> entry.profile.id == id,
    decreases routes.len(),
{
    if routes.len() > 0 && routes[0].profile.id != id {
        lemma_route_to_names(routes.drop_first(), id);
    }
}

proof fn lemma_missing_route(routes: Seq<EntryView>, id: Seq<char>)
    requires
        route_to(routes, id) is None,
    ensures
        forall|i: int| 0 <= i < routes.len() ==> (#[trigger] routes[i]).profile.id != id,
    decreases routes.len(),
{
    if routes.len() > 0 {
        let rest = routes.drop_first();
        lemma_route_to_names(rest, id);
        lemma_missing_route(rest, id);
        assert forall|i: int| 0 <= i < routes.len() implies (#[trigger] routes[i]).profile.id
            != id by {
            if i > 0 {
                assert(rest[i - 1] == routes[i]);
            }
        }
    }
}

/// No profile has two routes, and the routes are those of the profiles, in their order.
pub proof fn law_routes_are_unique(profiles: Seq<ProfileView>, clients: Seq<LinkView>)
    ensures
        all_routed(profiles, clients) matches Ok(routes) ==> {
            &&& routes.len() == profiles.len()
            &&& forall|i: int|
                0 <= i < routes.len() ==> (#[trigger] routes[i]).profile == identified(profiles[i])
            &&& forall|i: int, j: int|
                0 <= i < j < routes.len() ==> (#[trigger] routes[i]).profile.id != (
                #[trigger] routes[j]).profile.id
        },
    decreases profiles.len(),
{
    if profiles.len() > 0 {
        law_routes_are_unique(profiles.drop_last(), clients);
        if let Ok(before) = all_routed(profiles.drop_last(), clients) {
            if route_to(before, profiles.last().id) is None {
                lemma_missing_route(before, profiles.last().id);
            }
        }
    }
}

} // verus!
