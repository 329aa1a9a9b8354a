//! Where requests go, and what a configuration comes to.

use crate::json::{field, JsonView};
use crate::model::configured::{
    any_asks_search, asks_search, configured, first_of, inserted_model, known_providers, model_identity,
    model_links, provider_place, sorted_models, usable, usable_models, KnownView, UsableModel,
};
use crate::model::laws::lemma_lookup_at;
use crate::model::providers::{
    capabilities_view, chat_identity, is_identifier, key_named, resolved, responses_identity,
    with_key, ClientView, ModelApi, ModelCapability, ModelConfigFile, ModelProfileFile,
    ProviderConfigFile, ResolvedView,
};
use crate::model::responses::OpenAiPromptCacheMode;
use crate::model::router::{
    all_routed, client_place, distinct_clients, profile_identity, resolution, route_place, route_to,
    EntryView, LinkView, ProfileView,
};
use crate::model::sessions::{
    distinct, fresh, lemma_fresh, lemma_oldest, lemma_place, oldest, place, removed, roomy, stored,
    TimedEntry, MAX_SOCKET_SESSIONS, SOCKET_SESSION_TTL,
};
use crate::protocol::model::ReasoningEffort;
use crate::text::{maybe, trimmed};
use vstd::prelude::*;

verus! {

/// Whether a link names a profile.
pub open spec fn is_linked(clients: Seq<LinkView>, id: Seq<char>) -> bool {
    exists|k: int| 0 <= k < clients.len() && (#[trigger] clients[k]).profile == id
}

proof fn lemma_link_place(clients: Seq<LinkView>, id: Seq<char>)
    ensures
        0 <= client_place(clients, id) <= clients.len(),
        client_place(clients, id) < clients.len() <==> is_linked(clients, id),
        client_place(clients, id) < clients.len() ==> clients[client_place(clients, id)].profile
            == id,
        forall|k: int|
            0 <= k < client_place(clients, id) ==> (#[trigger] clients[k]).profile != id,
    decreases clients.len(),
{
    if clients.len() > 0 && clients[0].profile != id {
        let rest = clients.drop_first();
        lemma_link_place(rest, id);
        assert forall|k: int| 0 <= k < client_place(clients, id) implies (
        #[trigger] clients[k]).profile != id by {
            if k > 0 {
                assert(rest[k - 1] == clients[k]);
            }
        }
        if is_linked(clients, id) {
            let k = choose|k: int| 0 <= k < clients.len() && (#[trigger] clients[k]).profile == id;
            assert(rest[k - 1] == clients[k]);
        }
        if is_linked(rest, id) {
            let k = choose|k: int| 0 <= k < rest.len() && (#[trigger] rest[k]).profile == id;
            assert(rest[k] == clients[k + 1]);
        }
    } else if clients.len() > 0 {
        assert(clients[0].profile == id);
    }
}

proof fn lemma_routes_by_name(routes: Seq<EntryView>, id: Seq<char>)
    ensures
        0 <= route_place(routes, id) <= routes.len(),
        route_place(routes, id) < routes.len() ==> routes[route_place(routes, id)].profile.id == id,
        forall|k: int|
            0 <= k < route_place(routes, id) ==> (#[trigger] routes[k]).profile.id != id,
    decreases routes.len(),
{
    if routes.len() > 0 && routes[0].profile.id != id {
        let rest = routes.drop_first();
        lemma_routes_by_name(rest, id);
        assert forall|k: int| 0 <= k < route_place(routes, id) implies (
        #[trigger] routes[k]).profile.id != id by {
            if k > 0 {
                assert(rest[k - 1] == routes[k]);
            }
        }
    }
}

/// A request goes to the first route of its profile, and nowhere where the profile has none.
pub proof fn law_requests_go_to_their_profile(routes: Seq<EntryView>, id: Seq<char>, i: int)
    ensures
        route_to(routes, id) matches Some(entry) ==> entry.profile.id == id && routes.contains(entry),
        0 <= i < routes.len() && routes[i].profile.id == id ==> route_to(routes, id) is Some,
        0 <= i < routes.len() && routes[i].profile.id == id && (forall|k: int|
            0 <= k < i ==> (#[trigger] routes[k]).profile.id != id) ==> route_to(routes, id) == Some(
            routes[i],
        ),
{
    lemma_routes_by_name(routes, id);
    let at = route_place(routes, id);
    if at < routes.len() {
        assert(routes[at] == route_to(routes, id)->0);
    }
}

/// The routes of profiles can be made exactly if every profile has a client and no two have one name.
/// Each leads to the client of its own profile, and offers hosted search where that client does.
pub proof fn law_every_profile_is_routed(profiles: Seq<ProfileView>, clients: Seq<LinkView>)
    ensures
        all_routed(profiles, clients) is Ok <==> {
            &&& forall|i: int|
                0 <= i < profiles.len() ==> is_linked(clients, (#[trigger] profiles[i]).id)
            &&& forall|i: int, j: int|
                0 <= i < j < profiles.len() ==> (#[trigger] profiles[i]).id != (
                #[trigger] profiles[j]).id
        },
        all_routed(profiles, clients) matches Ok(routes) ==> routes.len() == profiles.len()
            && forall|i: int|
            0 <= i < routes.len() ==> leads_to_its_client(
                #[trigger] routes[i],
                profiles[i],
                clients,
            ),
    decreases profiles.len(),
{
    if profiles.len() > 0 {
        let rest = profiles.drop_last();
        let last = profiles.last();
        law_every_profile_is_routed(rest, clients);
        lemma_link_place(clients, last.id);
        assert(forall|i: int| 0 <= i < rest.len() ==> rest[i] == profiles[i]);
        if let Ok(before) = all_routed(rest, clients) {
            lemma_routes_by_name(before, last.id);
            assert(forall|i: int|
                0 <= i < before.len() ==> (#[trigger] before[i]).profile.id == profiles[i].id) by {
                assert forall|i: int| 0 <= i < before.len() implies (
                #[trigger] before[i]).profile.id == profiles[i].id by {
                    assert(leads_to_its_client(before[i], rest[i], clients));
                }
            }
            if route_to(before, last.id) is Some {
                let at = route_place(before, last.id);
                assert(profiles[at].id == last.id);
                assert(profiles[profiles.len() - 1] == last);
            }
            if let Ok(routes) = all_routed(profiles, clients) {
                let at = client_place(clients, last.id);
                assert(clients[at].profile == last.id);
                assert forall|i: int| 0 <= i < routes.len() implies leads_to_its_client(
                    #[trigger] routes[i],
                    profiles[i],
                    clients,
                ) by {
                    if i < before.len() {
                        assert(routes[i] == before[i]);
                    }
                }
                assert forall|i: int, j: int| 0 <= i < j < profiles.len() implies (
                #[trigger] profiles[i]).id != (#[trigger] profiles[j]).id by {
                    if j < rest.len() {
                        assert(rest[i] == profiles[i] && rest[j] == profiles[j]);
                    } else {
                        assert(before[i].profile.id == profiles[i].id);
                    }
                }
                assert forall|i: int| 0 <= i < profiles.len() implies is_linked(
                    clients,
                    (#[trigger] profiles[i]).id,
                ) by {
                    if i < rest.len() {
                        assert(is_linked(clients, rest[i].id));
                    }
                }
            } else {
                if is_linked(clients, last.id) {
                    let at = route_place(before, last.id);
                    assert(profiles[at].id == profiles[profiles.len() - 1].id);
                } else {
                    assert(!is_linked(clients, profiles[profiles.len() - 1].id));
                }
            }
        } else {
            if !(forall|i: int|
                0 <= i < rest.len() ==> is_linked(clients, (#[trigger] rest[i]).id)) {
                let i = choose|i: int|
                    0 <= i < rest.len() && !is_linked(clients, (#[trigger] rest[i]).id);
                assert(!is_linked(clients, profiles[i].id));
            } else {
                let (i, j) = choose|i: int, j: int|
                    0 <= i < j < rest.len() && !((#[trigger] rest[i]).id != (#[trigger] rest[j]).id);
                assert(profiles[i].id == profiles[j].id);
            }
        }
    }
}

/// Whether a route is that of a profile, and leads to the first client that is linked to it.
pub open spec fn leads_to_its_client(
    route: EntryView,
    profile: ProfileView,
    clients: Seq<LinkView>,
) -> bool {
    &&& route.profile.id == profile.id
    &&& route.profile.provider == profile.provider
    &&& route.profile.model == profile.model
    &&& route.profile.api == profile.api
    &&& route.profile.context_window == profile.context_window
    &&& route.profile.capabilities == profile.capabilities
    &&& route.profile.default_reasoning_effort == profile.default_reasoning_effort
    &&& profile.config_sha256.len() > 0 ==> route.profile.config_sha256 == profile.config_sha256
    &&& exists|k: int|
        {
            &&& 0 <= k < clients.len()
            &&& (#[trigger] clients[k]).profile == profile.id
            &&& route.client == clients[k].client
            &&& route.hosts_search == clients[k].hosts_search
        }
}

/// What a profile resolves to is that profile: its provider, its model and its window. The effort is the
/// one that was asked for, and the profile's own otherwise. Hosted search is offered exactly if both the
/// profile and its client offer it.
pub proof fn law_profiles_resolve_to_themselves(
    routes: Seq<EntryView>,
    id: Seq<char>,
    effort: Option<ReasoningEffort>,
)
    ensures
        resolution(routes, id, effort) matches Ok(r) ==> (route_to(routes, id) matches Some(entry)
            && r.profile == id && r.provider == entry.profile.provider && r.upstream_model
            == entry.profile.model && r.context_window == entry.profile.context_window
            && r.config_sha256 == entry.profile.config_sha256 && (effort is Some
            ==> r.reasoning_effort == effort) && (effort is None ==> r.reasoning_effort
            == entry.profile.default_reasoning_effort) && (r.capabilities.hosted_web_search
            <==> entry.hosts_search && entry.profile.capabilities.contains(
            ModelCapability::HostedWebSearch,
        ))),
        route_to(routes, id) is None ==> resolution(routes, id, effort) is Err,
{
    lemma_routes_by_name(routes, id);
}

/// The clients of a router are those that profiles lead to, each once.
pub proof fn law_clients_are_listed_once(clients: Seq<LinkView>, client: usize)
    ensures
        distinct_clients(clients).contains(client) <==> exists|k: int|
            0 <= k < clients.len() && (#[trigger] clients[k]).client == client,
        distinct_clients(clients).no_duplicates(),
    decreases clients.len(),
{
    if clients.len() > 0 {
        let rest = clients.drop_last();
        let before = distinct_clients(rest);
        let last = clients.last().client;
        let made = distinct_clients(clients);
        law_clients_are_listed_once(rest, client);
        law_clients_are_listed_once(rest, last);
        assert(clients[clients.len() - 1] == clients.last());
        if before.contains(client) {
            let k = choose|k: int| 0 <= k < rest.len() && (#[trigger] rest[k]).client == client;
            assert(clients[k] == rest[k]);
            let m = choose|m: int| 0 <= m < before.len() && before[m] == client;
            assert(made[m] == client);
        }
        if exists|k: int| 0 <= k < clients.len() && (#[trigger] clients[k]).client == client {
            let k = choose|k: int| 0 <= k < clients.len() && (#[trigger] clients[k]).client == client;
            if k < rest.len() {
                assert(rest[k] == clients[k]);
            } else if !before.contains(last) {
                assert(made[before.len() as int] == client);
            }
        }
        if !before.contains(last) {
            assert forall|i: int, j: int|
                0 <= i < made.len() && 0 <= j < made.len() && i != j implies made[i] != made[j] by {
                if i < before.len() && j < before.len() {
                    assert(made[i] == before[i] && made[j] == before[j]);
                } else if i < before.len() {
                    assert(before.contains(made[i]));
                } else {
                    assert(before.contains(made[j]));
                }
            }
        }
        if made.contains(client) && !before.contains(client) {
            let m = choose|m: int| 0 <= m < made.len() && made[m] == client;
            if m < before.len() {
                assert(before[m] == client);
            }
        }
    }
}

/// What identifies a profile is all that it is: no setting is left out.
pub proof fn law_profiles_are_told_apart(p: ProfileView)
    ensures
        ({
            let j = profile_identity(p);
            &&& field(j, "profile"@) == Some(JsonView::Text(p.id))
            &&& field(j, "provider"@) == Some(JsonView::Text(p.provider))
            &&& field(j, "upstream_model"@) == Some(JsonView::Text(p.model))
            &&& field(j, "api"@) == Some(JsonView::Text(p.api.text()))
            &&& field(j, "context_window"@) == Some(JsonView::Integer(p.context_window as int))
            &&& field(j, "capabilities"@) == Some(capabilities_view(p.capabilities))
            &&& p.default_reasoning_effort matches Some(e) ==> field(
                j,
                "default_reasoning_effort"@,
            ) == Some(JsonView::Text(e.text()))
        }),
{
    reveal_strlit("capabilities");
    reveal_strlit("api");
    reveal_strlit("context_window");
    reveal_strlit("default_reasoning_effort");
    reveal_strlit("profile");
    reveal_strlit("provider");
    reveal_strlit("upstream_model");
    assert("capabilities"@.len() == 12);
    assert("api"@.len() == 3);
    assert("context_window"@.len() == 14);
    assert("default_reasoning_effort"@.len() == 24);
    assert("profile"@.len() == 7);
    assert("provider"@.len() == 8);
    assert("upstream_model"@.len() == 14);
    assert("upstream_model"@[0] != "context_window"@[0]);
    let made = profile_identity(p)->Object_0;
    lemma_lookup_at(made, "api"@, 0);
    lemma_lookup_at(made, "capabilities"@, 1);
    lemma_lookup_at(made, "context_window"@, 2);
    lemma_lookup_at(made, "default_reasoning_effort"@, 3);
    lemma_lookup_at(made, "profile"@, 4);
    lemma_lookup_at(made, "provider"@, 5);
    lemma_lookup_at(made, "upstream_model"@, 6);
}

/// What identifies a configured model is all that it is, and how its provider's API is used.
pub proof fn law_models_are_told_apart(id: Seq<char>, m: ModelProfileFile, client: ClientView)
    ensures
        ({
            let j = model_identity(id, m, client);
            &&& field(j, "profile"@) == Some(JsonView::Text(id))
            &&& field(j, "provider"@) == Some(JsonView::Text(m.provider@))
            &&& field(j, "upstream_model"@) == Some(JsonView::Text(m.model@))
            &&& field(j, "api"@) == Some(JsonView::Text(m.api.text()))
            &&& field(j, "api_config_sha256"@) == Some(JsonView::Text(client.config_sha256))
            &&& field(j, "context_window"@) == Some(JsonView::Integer(m.context_window as int))
            &&& field(j, "capabilities"@) == Some(capabilities_view(m.capabilities@))
        }),
{
    reveal_strlit("api_config_sha256");
    reveal_strlit("api");
    reveal_strlit("capabilities");
    reveal_strlit("context_window");
    reveal_strlit("default_reasoning_effort");
    reveal_strlit("profile");
    reveal_strlit("provider");
    reveal_strlit("upstream_model");
    assert("api_config_sha256"@.len() == 17);
    assert("api"@.len() == 3);
    assert("capabilities"@.len() == 12);
    assert("context_window"@.len() == 14);
    assert("default_reasoning_effort"@.len() == 24);
    assert("profile"@.len() == 7);
    assert("provider"@.len() == 8);
    assert("upstream_model"@.len() == 14);
    assert("upstream_model"@[0] != "context_window"@[0]);
    let made = model_identity(id, m, client)->Object_0;
    lemma_lookup_at(made, "api"@, 0);
    lemma_lookup_at(made, "api_config_sha256"@, 1);
    lemma_lookup_at(made, "capabilities"@, 2);
    lemma_lookup_at(made, "context_window"@, 3);
    lemma_lookup_at(made, "default_reasoning_effort"@, 4);
    lemma_lookup_at(made, "profile"@, 5);
    lemma_lookup_at(made, "provider"@, 6);
    lemma_lookup_at(made, "upstream_model"@, 7);
}

/// What identifies how an API is used is every setting of it but the key.
pub proof fn law_settings_are_told_apart(
    id: Seq<char>,
    p: ResolvedView,
    endpoint: Seq<char>,
    hosted_web_search: bool,
)
    ensures
        ({
            let j = responses_identity(id, p, endpoint, hosted_web_search);
            &&& field(j, "provider"@) == Some(JsonView::Text(id))
            &&& field(j, "endpoint"@) == Some(JsonView::Text(endpoint))
            &&& field(j, "api_key_env"@) == Some(JsonView::Text(p.api_key_env))
            &&& field(j, "hosted_web_search"@) == Some(JsonView::Bool(hosted_web_search))
            &&& field(j, "optional"@) == Some(JsonView::Bool(p.optional))
            &&& field(j, "store_responses"@) == Some(JsonView::Bool(p.store_responses))
            &&& field(j, "responses_websockets"@) == Some(JsonView::Bool(p.responses_websockets))
            &&& field(j, "prompt_cache_mode"@) == Some(JsonView::Text(p.prompt_cache_mode.text()))
            &&& field(j, "max_request_retries"@) == Some(
                JsonView::Integer(p.max_request_retries as int),
            )
            &&& field(j, "request_timeout_seconds"@) == Some(
                JsonView::Integer(p.request_timeout_seconds as int),
            )
            &&& field(j, "stream_idle_timeout_seconds"@) == Some(
                JsonView::Integer(p.stream_idle_timeout_seconds as int),
            )
            &&& p.organization matches Some(o) ==> field(j, "organization"@) == Some(
                JsonView::Text(o),
            )
            &&& p.project matches Some(o) ==> field(j, "project"@) == Some(JsonView::Text(o))
        }),
        ({
            let j = chat_identity(id, p, endpoint);
            &&& field(j, "provider"@) == Some(JsonView::Text(id))
            &&& field(j, "endpoint"@) == Some(JsonView::Text(endpoint))
            &&& field(j, "api_key_env"@) == Some(JsonView::Text(p.api_key_env))
            &&& field(j, "optional"@) == Some(JsonView::Bool(p.optional))
            &&& field(j, "chat_compatibility"@) == Some(JsonView::Text(p.chat_compatibility.text()))
            &&& field(j, "max_request_retries"@) == Some(
                JsonView::Integer(p.max_request_retries as int),
            )
            &&& field(j, "request_timeout_seconds"@) == Some(
                JsonView::Integer(p.request_timeout_seconds as int),
            )
            &&& field(j, "stream_idle_timeout_seconds"@) == Some(
                JsonView::Integer(p.stream_idle_timeout_seconds as int),
            )
            &&& p.organization matches Some(o) ==> field(j, "organization"@) == Some(
                JsonView::Text(o),
            )
            &&& p.project matches Some(o) ==> field(j, "project"@) == Some(JsonView::Text(o))
        }),
{
    lemma_responses_settings(id, p, endpoint, hosted_web_search);
    lemma_chat_settings(id, p, endpoint);
}

proof fn lemma_responses_settings(
    id: Seq<char>,
    p: ResolvedView,
    endpoint: Seq<char>,
    hosted_web_search: bool,
)
    ensures
        ({
            let made = responses_identity(id, p, endpoint, hosted_web_search);
            let list = made->Object_0;
            &&& field(made, "api"@) == Some(list[0].1)
            &&& field(made, "api_key_env"@) == Some(list[1].1)
            &&& field(made, "endpoint"@) == Some(list[2].1)
            &&& field(made, "hosted_web_search"@) == Some(list[3].1)
            &&& field(made, "max_request_retries"@) == Some(list[4].1)
            &&& field(made, "optional"@) == Some(list[5].1)
            &&& field(made, "organization"@) == Some(list[6].1)
            &&& field(made, "project"@) == Some(list[7].1)
            &&& field(made, "prompt_cache_mode"@) == Some(list[8].1)
            &&& field(made, "provider"@) == Some(list[9].1)
            &&& field(made, "reasoning_effort"@) == Some(list[10].1)
            &&& field(made, "request_timeout_seconds"@) == Some(list[11].1)
            &&& field(made, "responses_websockets"@) == Some(list[12].1)
            &&& field(made, "store_responses"@) == Some(list[13].1)
            &&& field(made, "stream_idle_timeout_seconds"@) == Some(list[14].1)
        }),
{
    reveal_strlit("api_key_env");
    reveal_strlit("api");
    reveal_strlit("endpoint");
    reveal_strlit("hosted_web_search");
    reveal_strlit("max_request_retries");
    reveal_strlit("optional");
    reveal_strlit("organization");
    reveal_strlit("project");
    reveal_strlit("prompt_cache_mode");
    reveal_strlit("provider");
    reveal_strlit("reasoning_effort");
    reveal_strlit("request_timeout_seconds");
    reveal_strlit("responses_websockets");
    reveal_strlit("store_responses");
    reveal_strlit("stream_idle_timeout_seconds");
    assert("api_key_env"@.len() == 11);
    assert("api"@.len() == 3);
    assert("endpoint"@.len() == 8);
    assert("hosted_web_search"@.len() == 17);
    assert("max_request_retries"@.len() == 19);
    assert("optional"@.len() == 8);
    assert("organization"@.len() == 12);
    assert("project"@.len() == 7);
    assert("prompt_cache_mode"@.len() == 17);
    assert("provider"@.len() == 8);
    assert("reasoning_effort"@.len() == 16);
    assert("request_timeout_seconds"@.len() == 23);
    assert("responses_websockets"@.len() == 20);
    assert("store_responses"@.len() == 15);
    assert("stream_idle_timeout_seconds"@.len() == 27);
    assert("optional"@[0] != "endpoint"@[0]);
    assert("prompt_cache_mode"@[0] != "hosted_web_search"@[0]);
    assert("provider"@[0] != "endpoint"@[0]);
    assert("provider"@[0] != "optional"@[0]);
    let made = responses_identity(id, p, endpoint, hosted_web_search)->Object_0;
    lemma_lookup_at(made, "api"@, 0);
    lemma_lookup_at(made, "api_key_env"@, 1);
    lemma_lookup_at(made, "endpoint"@, 2);
    lemma_lookup_at(made, "hosted_web_search"@, 3);
    lemma_lookup_at(made, "max_request_retries"@, 4);
    lemma_lookup_at(made, "optional"@, 5);
    lemma_lookup_at(made, "organization"@, 6);
    lemma_lookup_at(made, "project"@, 7);
    lemma_lookup_at(made, "prompt_cache_mode"@, 8);
    lemma_lookup_at(made, "provider"@, 9);
    lemma_lookup_at(made, "reasoning_effort"@, 10);
    lemma_lookup_at(made, "request_timeout_seconds"@, 11);
    lemma_lookup_at(made, "responses_websockets"@, 12);
    lemma_lookup_at(made, "store_responses"@, 13);
    lemma_lookup_at(made, "stream_idle_timeout_seconds"@, 14);
}

proof fn lemma_chat_settings(id: Seq<char>, p: ResolvedView, endpoint: Seq<char>)
    ensures
        ({
            let made = chat_identity(id, p, endpoint);
            let list = made->Object_0;
            &&& field(made, "api"@) == Some(list[0].1)
            &&& field(made, "api_key_env"@) == Some(list[1].1)
            &&& field(made, "chat_compatibility"@) == Some(list[2].1)
            &&& field(made, "endpoint"@) == Some(list[3].1)
            &&& field(made, "max_request_retries"@) == Some(list[4].1)
            &&& field(made, "optional"@) == Some(list[5].1)
            &&& field(made, "organization"@) == Some(list[6].1)
            &&& field(made, "project"@) == Some(list[7].1)
            &&& field(made, "provider"@) == Some(list[8].1)
            &&& field(made, "reasoning_effort"@) == Some(list[9].1)
            &&& field(made, "request_timeout_seconds"@) == Some(list[10].1)
            &&& field(made, "stream_idle_timeout_seconds"@) == Some(list[11].1)
        }),
{
    reveal_strlit("api_key_env");
    reveal_strlit("api");
    reveal_strlit("chat_compatibility");
    reveal_strlit("endpoint");
    reveal_strlit("max_request_retries");
    reveal_strlit("optional");
    reveal_strlit("organization");
    reveal_strlit("project");
    reveal_strlit("provider");
    reveal_strlit("reasoning_effort");
    reveal_strlit("request_timeout_seconds");
    reveal_strlit("stream_idle_timeout_seconds");
    assert("api_key_env"@.len() == 11);
    assert("api"@.len() == 3);
    assert("chat_compatibility"@.len() == 18);
    assert("endpoint"@.len() == 8);
    assert("max_request_retries"@.len() == 19);
    assert("optional"@.len() == 8);
    assert("organization"@.len() == 12);
    assert("project"@.len() == 7);
    assert("provider"@.len() == 8);
    assert("reasoning_effort"@.len() == 16);
    assert("request_timeout_seconds"@.len() == 23);
    assert("stream_idle_timeout_seconds"@.len() == 27);
    assert("optional"@[0] != "endpoint"@[0]);
    assert("provider"@[0] != "endpoint"@[0]);
    assert("provider"@[0] != "optional"@[0]);
    let made = chat_identity(id, p, endpoint)->Object_0;
    lemma_lookup_at(made, "api"@, 0);
    lemma_lookup_at(made, "api_key_env"@, 1);
    lemma_lookup_at(made, "chat_compatibility"@, 2);
    lemma_lookup_at(made, "endpoint"@, 3);
    lemma_lookup_at(made, "max_request_retries"@, 4);
    lemma_lookup_at(made, "optional"@, 5);
    lemma_lookup_at(made, "organization"@, 6);
    lemma_lookup_at(made, "project"@, 7);
    lemma_lookup_at(made, "provider"@, 8);
    lemma_lookup_at(made, "reasoning_effort"@, 9);
    lemma_lookup_at(made, "request_timeout_seconds"@, 10);
    lemma_lookup_at(made, "stream_idle_timeout_seconds"@, 11);
}

proof fn lemma_key_named(keys: Seq<(String, String)>, name: Seq<char>, i: int)
    ensures
        0 <= i < keys.len() && keys[i].0@ == name && (forall|k: int|
            0 <= k < i ==> (#[trigger] keys[k]).0@ != name) ==> key_named(keys, name) == Some(
            keys[i].1@,
        ),
        key_named(keys, name) matches Some(v) ==> exists|k: int|
            0 <= k < keys.len() && (#[trigger] keys[k]).0@ == name && keys[k].1@ == v,
    decreases keys.len(),
{
    if keys.len() > 0 {
        let rest = keys.drop_first();
        lemma_key_named(rest, name, i - 1);
        if keys[0].0@ == name {
            assert(keys[0].1@ == key_named(keys, name)->0);
        } else {
            if 0 < i < keys.len() {
                assert(rest[i - 1] == keys[i]);
                if forall|k: int| 0 <= k < i ==> (#[trigger] keys[k]).0@ != name {
                    assert forall|k: int| 0 <= k < i - 1 implies (#[trigger] rest[k]).0@ != name by {
                        assert(rest[k] == keys[k + 1]);
                    }
                }
            }
            if key_named(rest, name) is Some {
                let k = choose|k: int|
                    0 <= k < rest.len() && (#[trigger] rest[k]).0@ == name && rest[k].1@
                        == key_named(rest, name)->0;
                assert(keys[k + 1] == rest[k]);
            }
        }
    }
}

/// A provider's key is the value of its variable, unless that is blank. A provider without one is
/// unavailable where it may do without, and an error otherwise. One with a key has that key.
pub proof fn law_providers_have_their_keys(
    id: Seq<char>,
    p: ProviderConfigFile,
    keys: Seq<(String, String)>,
    i: int,
)
    requires
        is_identifier(id),
        trimmed(p.api_key_env@).len() > 0,
    ensures
        0 <= i < keys.len() && keys[i].0@ == trimmed(p.api_key_env@) && (forall|k: int|
            0 <= k < i ==> (#[trigger] keys[k]).0@ != keys[i].0@) && trimmed(keys[i].1@).len() > 0
            ==> !(resolved(id, p, keys) matches Ok(None)) && (resolved(id, p, keys) matches Ok(
            Some(made),
        ) ==> made.api_key == keys[i].1@),
        (forall|k: int|
            0 <= k < keys.len() ==> (#[trigger] keys[k]).0@ != trimmed(p.api_key_env@) || trimmed(
                keys[k].1@,
            ).len() == 0) ==> (if p.optional {
            resolved(id, p, keys) == Ok::<Option<ResolvedView>, Seq<char>>(None)
        } else {
            resolved(id, p, keys) is Err
        }),
{
    let name = trimmed(p.api_key_env@);
    lemma_key_named(keys, name, i);
}

/// A provider has the settings that its configuration gives it, and the usual ones where it gives none:
/// two retries, fifteen minutes for an answer to begin and five for it to go on, connections, and nothing
/// stored. Times of no seconds are refused.
pub proof fn law_settings_are_as_configured(p: ProviderConfigFile, api_key: Seq<char>)
    ensures
        with_key(p, api_key) is Ok ==> {
            let made = with_key(p, api_key)->Ok_0;
            &&& made.api_key == api_key
            &&& made.optional == p.optional
            &&& made.organization == maybe(p.organization)
            &&& made.project == maybe(p.project)
            &&& made.reasoning_effort == p.reasoning_effort
            &&& made.chat_compatibility == p.chat_compatibility
            &&& made.api_key_env == trimmed(p.api_key_env@)
            &&& made.max_request_retries == (match p.max_request_retries {
                Some(n) => n,
                None => 2,
            })
            &&& made.request_timeout_seconds == (match p.request_timeout_seconds {
                Some(n) => n,
                None => 900,
            })
            &&& made.stream_idle_timeout_seconds == (match p.stream_idle_timeout_seconds {
                Some(n) => n,
                None => 300,
            })
            &&& made.store_responses == (match p.store_responses {
                Some(b) => b,
                None => false,
            })
            &&& made.responses_websockets == (match p.responses_websockets {
                Some(b) => b,
                None => true,
            })
            &&& made.prompt_cache_mode == (match p.prompt_cache_mode {
                Some(mode) => mode,
                None => OpenAiPromptCacheMode::Auto,
            })
        },
        p.request_timeout_seconds == Some(0u64) || p.stream_idle_timeout_seconds == Some(0u64)
            ==> with_key(p, api_key) is Err,
        crate::model::endpoint::base_url(p.base_url@) is Ok && p.request_timeout_seconds != Some(0u64)
            && p.stream_idle_timeout_seconds != Some(0u64) ==> with_key(p, api_key) is Ok,
{
}

/// Whether a model that can be used is one of the configuration: all of its settings are those.
pub open spec fn is_the_model(made: UsableModel, id: Seq<char>, m: ModelProfileFile) -> bool {
    &&& made.profile.id == id
    &&& made.profile.provider == m.provider@
    &&& made.profile.api == m.api
    &&& made.profile.model == m.model@
    &&& made.profile.context_window == m.context_window
    &&& made.profile.capabilities == m.capabilities@
    &&& made.client.provider == m.provider@
    &&& made.client.api == m.api
}

/// A model of the configuration can be used wherever its provider is available, with all of its
/// settings; and its provider's effort is its own where nothing else is asked.
pub proof fn law_available_models_are_usable(
    id: Seq<char>,
    m: ModelProfileFile,
    known: Seq<KnownView>,
    searches: bool,
)
    ensures
        usable(id, m, known, searches) matches Ok(Some(made)) ==> is_the_model(made, id, m)
            && made.client.hosted_web_search == (m.api == ModelApi::OpenAiResponses && searches),
        usable(id, m, known, searches) matches Ok(None) ==> known[provider_place(
            known,
            m.provider@,
        )].settings is None,
        usable(id, m, known, searches) is Ok ==> is_identifier(id) && trimmed(m.model@).len() > 0
            && m.context_window >= 4096 && m.capabilities@.no_duplicates() && (m.api
            == ModelApi::OpenAiChatCompletions ==> !m.capabilities@.contains(
            ModelCapability::HostedWebSearch,
        )),
{
}

proof fn lemma_usable_are_kept(
    models: Seq<(String, ModelProfileFile)>,
    known: Seq<KnownView>,
    n: int,
    i: int,
)
    requires
        0 <= i < n <= models.len(),
        usable_models(models, known, n) is Ok,
    ensures
        usable(
            models[i].0@,
            models[i].1,
            known,
            any_asks_search(models, models[i].1.provider@),
        ) matches Ok(Some(made)) ==> (usable_models(models, known, n)->Ok_0).contains(made),
        usable(
            models[i].0@,
            models[i].1,
            known,
            any_asks_search(models, models[i].1.provider@),
        ) is Ok,
    decreases n,
{
    let all = usable_models(models, known, n)->Ok_0;
    let before = usable_models(models, known, n - 1)->Ok_0;
    let (id, m) = models[n - 1];
    let last = usable(id@, m, known, any_asks_search(models, m.provider@));
    assert(usable_models(models, known, n - 1) is Ok);
    assert(last is Ok);
    if i == n - 1 {
        if let Ok(Some(made)) = last {
            assert(all[before.len() as int] == made);
        }
    } else {
        lemma_usable_are_kept(models, known, n - 1, i);
        if let Ok(Some(made)) = usable(
            models[i].0@,
            models[i].1,
            known,
            any_asks_search(models, models[i].1.provider@),
        ) {
            let k = choose|k: int| 0 <= k < before.len() && before[k] == made;
            assert(all[k] == made);
        }
    }
}

proof fn lemma_sorted_holds(list: Seq<UsableModel>, x: UsableModel)
    requires
        list.contains(x),
    ensures
        sorted_models(list).contains(x),
    decreases list.len(),
{
    let rest = list.drop_last();
    if list.last() == x {
        lemma_inserted_holds(sorted_models(rest), x, x);
    } else {
        let k = choose|k: int| 0 <= k < list.len() && list[k] == x;
        assert(rest[k] == x);
        lemma_sorted_holds(rest, x);
        lemma_inserted_holds(sorted_models(rest), list.last(), x);
    }
}

proof fn lemma_inserted_holds(list: Seq<UsableModel>, m: UsableModel, x: UsableModel)
    ensures
        inserted_model(list, m).contains(m),
        list.contains(x) ==> inserted_model(list, m).contains(x),
    decreases list.len(),
{
    let made = inserted_model(list, m);
    if list.len() == 0 {
        assert(made[0] == m);
    } else if crate::text::precedes(m.profile.id, list[0].profile.id) {
        assert(made[0] == m);
        if list.contains(x) {
            let k = choose|k: int| 0 <= k < list.len() && list[k] == x;
            assert(made[k + 1] == x);
        }
    } else {
        let rest = list.drop_first();
        let inner = inserted_model(rest, m);
        lemma_inserted_holds(rest, m, x);
        let i = choose|i: int| 0 <= i < inner.len() && inner[i] == m;
        assert(made[i + 1] == m);
        if list.contains(x) {
            let k = choose|k: int| 0 <= k < list.len() && list[k] == x;
            if k == 0 {
                assert(made[0] == x);
            } else {
                assert(rest[k - 1] == x);
                let n = choose|n: int| 0 <= n < inner.len() && inner[n] == x;
                assert(made[n + 1] == x);
            }
        }
    }
}

/// Whether one of some models is a model of the configuration.
pub open spec fn holds_the_model(
    models: Seq<UsableModel>,
    id: Seq<char>,
    m: ModelProfileFile,
) -> bool {
    exists|k: int| 0 <= k < models.len() && is_the_model(#[trigger] models[k], id, m)
}

/// Whether one of some models of a configuration is of a provider, is reached by the Responses API and
/// is said to search.
pub open spec fn a_model_searches(models: Seq<(String, ModelProfileFile)>, provider: Seq<char>) -> bool {
    exists|i: int|
        0 <= i < models.len() && (#[trigger] models[i]).1.provider@ == provider && models[i].1.api
            == ModelApi::OpenAiResponses && models[i].1.capabilities@.contains(
            ModelCapability::HostedWebSearch,
        )
}

/// Whether one of some models is a model of the configuration, with a client that hosts a search or
/// hosts none.
pub open spec fn holds_the_model_with(
    models: Seq<UsableModel>,
    id: Seq<char>,
    m: ModelProfileFile,
    searches: bool,
) -> bool {
    exists|k: int|
        0 <= k < models.len() && is_the_model(#[trigger] models[k], id, m)
            && models[k].client.hosted_web_search == searches
}

/// Every model of a configuration whose provider is available is among those that it makes, with its
/// settings, and the default is the one that the configuration names. Its client hosts a search where
/// it is reached by the Responses API and some model of its provider there searches.
pub proof fn law_every_available_model_is_there(
    file: ModelConfigFile,
    keys: Seq<(String, String)>,
    i: int,
)
    requires
        configured(file, keys) is Ok,
        0 <= i < file.models@.len(),
    ensures
        ({
            let made = configured(file, keys)->Ok_0;
            let known = known_providers(file.providers@, keys)->Ok_0;
            let (id, m) = file.models@[i];
            &&& made.default_model == file.default_model@
            &&& known[provider_place(known, m.provider@)].settings is Some ==> holds_the_model(
                made.models,
                id@,
                m,
            ) && holds_the_model_with(
                made.models,
                id@,
                m,
                m.api == ModelApi::OpenAiResponses && a_model_searches(file.models@, m.provider@),
            )
        }),
{
    let known = known_providers(file.providers@, keys)->Ok_0;
    let n = file.models@.len() as int;
    let (id, m) = file.models@[i];
    lemma_usable_are_kept(file.models@, known, n, i);
    let searches = any_asks_search(file.models@, m.provider@);
    assert(searches == a_model_searches(file.models@, m.provider@)) by {
        if searches {
            let j = choose|j: int|
                0 <= j < file.models@.len() && asks_search(
                    (#[trigger] file.models@[j]).1,
                    m.provider@,
                );
            assert(file.models@[j].1.provider@ == m.provider@);
        }
        if a_model_searches(file.models@, m.provider@) {
            let j = choose|j: int|
                0 <= j < file.models@.len() && (#[trigger] file.models@[j]).1.provider@
                    == m.provider@ && file.models@[j].1.api == ModelApi::OpenAiResponses
                    && file.models@[j].1.capabilities@.contains(ModelCapability::HostedWebSearch);
            assert(asks_search(file.models@[j].1, m.provider@));
        }
    }
    law_available_models_are_usable(id@, m, known, searches);
    if let Ok(Some(x)) = usable(id@, m, known, searches) {
        let all = usable_models(file.models@, known, n)->Ok_0;
        lemma_sorted_holds(all, x);
        let sorted = sorted_models(all);
        let k = choose|k: int| 0 <= k < sorted.len() && sorted[k] == x;
        assert(is_the_model(sorted[k], id@, m));
    }
}

proof fn lemma_first(models: Seq<UsableModel>, provider: Seq<char>, api: ModelApi, i: int)
    ensures
        0 <= first_of(models, provider, api) <= models.len(),
        first_of(models, provider, api) < models.len() ==> models[first_of(
            models,
            provider,
            api,
        )].profile.provider == provider && models[first_of(models, provider, api)].profile.api
            == api,
        0 <= i < models.len() && models[i].profile.provider == provider && models[i].profile.api
            == api ==> first_of(models, provider, api) <= i,
    decreases models.len(),
{
    if models.len() > 0 {
        let rest = models.drop_first();
        lemma_first(rest, provider, api, i - 1);
        if 0 < i < models.len() {
            assert(rest[i - 1] == models[i]);
        }
    }
}

/// Two models share a client exactly if they are of one provider and reached by one API.
pub proof fn law_models_share_their_clients(models: Seq<UsableModel>, i: int, j: int)
    requires
        models.len() <= usize::MAX,
        0 <= i < models.len(),
        0 <= j < models.len(),
    ensures
        model_links(models)[i].profile == models[i].profile.id,
        model_links(models)[i].hosts_search == models[i].client.hosted_web_search,
        model_links(models)[i].client == model_links(models)[j].client <==> models[i].profile.provider
            == models[j].profile.provider && models[i].profile.api == models[j].profile.api,
{
    lemma_first(models, models[i].profile.provider, models[i].profile.api, i);
    lemma_first(models, models[j].profile.provider, models[j].profile.api, j);
}

/// Storing a connection keeps every other that was used within the hour, as long as there is room; and
/// where there is none, all but the one that was used longest ago.
pub proof fn law_connections_are_kept<S>(
    entries: Seq<TimedEntry<S>>,
    entry: TimedEntry<S>,
    now: u64,
    other: TimedEntry<S>,
)
    requires
        distinct(entries),
        entries.contains(other),
        other.key@ != entry.key@,
        now - other.used < 3_600_000_000_000,
    ensures
        entries.len() < 64 ==> stored(entries, entry, now).contains(other),
        !stored(entries, entry, now).contains(other) ==> forall|i: int|
            0 <= i < entries.len() && now - (#[trigger] entries[i]).used < 3_600_000_000_000
                ==> other.used <= entries[i].used,
        stored(entries, entry, now).contains(entry),
{
    let kept = fresh(entries, now, SOCKET_SESSION_TTL);
    crate::model::wire_laws::law_what_is_used_is_kept(entries, now, SOCKET_SESSION_TTL, other);
    lemma_fresh(entries, now, SOCKET_SESSION_TTL);
    let room = roomy(kept, MAX_SOCKET_SESSIONS as nat);
    let gone = removed(room, entry.key@);
    let all = stored(entries, entry, now);
    assert(all == gone.push(entry));
    assert(all[gone.len() as int] == entry);
    lemma_place(room, entry.key@);
    let k = choose|k: int| 0 <= k < kept.len() && kept[k] == other;
    if kept.len() >= MAX_SOCKET_SESSIONS {
        lemma_oldest(kept);
        let at = oldest(kept);
        if k != at {
            let r = if k < at {
                k
            } else {
                k - 1
            };
            assert(room[r] == other);
        } else {
            assert forall|i: int| 0 <= i < entries.len() && now - (#[trigger] entries[i]).used
                < 3_600_000_000_000 implies other.used <= entries[i].used by {
                crate::model::wire_laws::law_what_is_used_is_kept(
                    entries,
                    now,
                    SOCKET_SESSION_TTL,
                    entries[i],
                );
                let m = choose|m: int| 0 <= m < kept.len() && kept[m] == entries[i];
                assert(kept[at].used <= kept[m].used);
            }
        }
    } else {
        assert(room[k] == other);
    }
    if room.contains(other) {
        let r = choose|r: int| 0 <= r < room.len() && room[r] == other;
        let at = place(room, entry.key@);
        if at < room.len() {
            assert(r != at);
            let q = if r < at {
                r
            } else {
                r - 1
            };
            assert(gone[q] == other);
            assert(all[q] == other);
        } else {
            assert(all[r] == other);
        }
    }
}

} // verus!
