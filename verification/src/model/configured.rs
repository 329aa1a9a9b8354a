//! The models of a configuration: which can be used, and how.

use crate::json::{group_json, member_views, put, Json, JsonView};
use crate::model::error::{ModelError, ModelErrorView};
use crate::model::metadata::{effort_json, effort_view};
use crate::model::providers::{
    about, api_client, are_distinct, build_api_client, capabilities_json, capabilities_view,
    default_effort, has_capability, identifier_fault, is_client, is_identifier,
    law_identity_hides_the_key, resolve_provider, resolved, usable_key, validate_identifier,
    ApiClient, ApiClientConfig, ClientView, ModelApi, ModelCapability, ModelConfigFile,
    ModelProfileFile, ProviderConfigFile, ResolvedProvider, ResolvedView,
};
use crate::model::responses::protocol_reasoning_effort;
use crate::model::route::{hash_route_config, route_hash};
use crate::model::router::{
    copy_capabilities, distinct_clients, entries, law_routes_are_unique, links, profile_views,
    routing, EntryView, LinkView, ModelProfile, ModelRouter, ProfileClient, ProfileView,
};
use crate::text::{
    comes_before, debug_text, is_blank, lemma_precedes_irreflexive, lemma_precedes_total,
    lemma_precedes_transitive, precedes, quoted, same, trimmed,
};
use vstd::prelude::*;

verus! {

broadcast use group_json;

/// A provider that can be used, as it is shown.
#[derive(Debug, PartialEq, Eq)]
pub struct ModelProviderInfo {
    pub id: String,
    pub base_url: String,
    pub apis: Vec<ModelApi>,
    pub chat_compatibility: String,
    pub max_request_retries: u32,
    pub request_timeout_seconds: u64,
    pub stream_idle_timeout_seconds: u64,
    pub responses_websockets: bool,
    pub prompt_cache_mode: String,
}

/// The mathematical value of a [`ModelProviderInfo`].
pub ghost struct InfoView {
    pub id: Seq<char>,
    pub base_url: Seq<char>,
    pub apis: Seq<ModelApi>,
    pub chat_compatibility: Seq<char>,
    pub max_request_retries: u32,
    pub request_timeout_seconds: u64,
    pub stream_idle_timeout_seconds: u64,
    pub responses_websockets: bool,
    pub prompt_cache_mode: Seq<char>,
}

impl View for ModelProviderInfo {
    type V = InfoView;

    open spec fn view(&self) -> InfoView {
        InfoView {
            id: self.id@,
            base_url: self.base_url@,
            apis: self.apis@,
            chat_compatibility: self.chat_compatibility@,
            max_request_retries: self.max_request_retries,
            request_timeout_seconds: self.request_timeout_seconds,
            stream_idle_timeout_seconds: self.stream_idle_timeout_seconds,
            responses_websockets: self.responses_websockets,
            prompt_cache_mode: self.prompt_cache_mode@,
        }
    }
}

/// A provider by its identifier, without settings where it is unavailable.
pub struct KnownProvider {
    pub id: String,
    pub settings: Option<ResolvedProvider>,
}

/// The mathematical value of a [`KnownProvider`].
pub ghost struct KnownView {
    pub id: Seq<char>,
    pub settings: Option<ResolvedView>,
}

impl View for KnownProvider {
    type V = KnownView;

    open spec fn view(&self) -> KnownView {
        KnownView {
            id: self.id@,
            settings: match self.settings {
                Some(s) => Some(s@),
                None => None,
            },
        }
    }
}

/// The values of providers.
pub open spec fn known_views(providers: Seq<KnownProvider>) -> Seq<KnownView> {
    providers.map_values(|p: KnownProvider| p@)
}

/// The providers of a configuration, or what is wrong with the first that is not right.
pub open spec fn known_providers(
    providers: Seq<(String, ProviderConfigFile)>,
    keys: Seq<(String, String)>,
) -> Result<Seq<KnownView>, Seq<char>>
    decreases providers.len(),
{
    if providers.len() == 0 {
        Ok(Seq::empty())
    } else {
        match known_providers(providers.drop_last(), keys) {
            Err(e) => Err(e),
            Ok(before) => match resolved(providers.last().0@, providers.last().1, keys) {
                Err(e) => Err(e),
                Ok(settings) => Ok(before.push(KnownView { id: providers.last().0@, settings })),
            },
        }
    }
}

proof fn lemma_provider_faults_last(
    providers: Seq<(String, ProviderConfigFile)>,
    keys: Seq<(String, String)>,
    i: int,
)
    requires
        0 <= i <= providers.len(),
        known_providers(providers.take(i), keys) is Err,
    ensures
        known_providers(providers, keys) == known_providers(providers.take(i), keys),
    decreases providers.len() - i,
{
    if i == providers.len() {
        assert(providers.take(i) =~= providers);
    } else {
        assert(providers.take(i + 1).drop_last() =~= providers.take(i));
        lemma_provider_faults_last(providers, keys, i + 1);
    }
}

fn resolve_providers(
    providers: &Vec<(String, ProviderConfigFile)>,
    keys: &Vec<(String, String)>,
) -> (r: Result<Vec<KnownProvider>, ModelError>)
    ensures
        match r {
            Ok(known) => known_providers(providers@, keys@) == Ok::<Seq<KnownView>, Seq<char>>(
                known_views(known@),
            ),
            Err(e) => known_providers(providers@, keys@) matches Err(m) && e@
                == ModelErrorView::Configuration(m),
        },
{
    let mut known: Vec<KnownProvider> = Vec::new();
    let mut i: usize = 0;
    assert(known_views(known@) =~= Seq::<KnownView>::empty());
    assert(providers@.take(0) =~= Seq::<(String, ProviderConfigFile)>::empty());
    while i < providers.len()
        invariant
            i <= providers@.len(),
            known_providers(providers@.take(i as int), keys@) == Ok::<Seq<KnownView>, Seq<char>>(
                known_views(known@),
            ),
        decreases providers.len() - i,
    {
        assert(providers@.take(i + 1).drop_last() =~= providers@.take(i as int));
        assert(providers@.take(i + 1).last() == providers@[i as int]);
        let settings = match resolve_provider(providers[i].0.as_str(), &providers[i].1, keys) {
            Ok(settings) => settings,
            Err(e) => {
                proof {
                    lemma_provider_faults_last(providers@, keys@, i + 1);
                }
                return Err(e);
            },
        };
        let ghost before = known_views(known@);
        let provider = KnownProvider { id: providers[i].0.clone(), settings };
        known.push(provider);
        assert(known_views(known@) =~= before.push(provider@));
        i = i + 1;
    }
    assert(providers@.take(i as int) =~= providers@);
    Ok(known)
}

/// The place of a provider, their number where there is none.
pub open spec fn provider_place(known: Seq<KnownView>, id: Seq<char>) -> int
    decreases known.len(),
{
    if known.len() == 0 || known[0].id == id {
        0
    } else {
        1 + provider_place(known.drop_first(), id)
    }
}

proof fn lemma_provider_place(known: Seq<KnownView>, id: Seq<char>, at: int)
    requires
        0 <= at <= known.len(),
        forall|i: int| 0 <= i < at ==> (#[trigger] known[i]).id != id,
        at < known.len() ==> known[at].id == id,
    ensures
        provider_place(known, id) == at,
    decreases known.len(),
{
    if at > 0 {
        let rest = known.drop_first();
        assert forall|i: int| 0 <= i < at - 1 implies (#[trigger] rest[i]).id != id by {
            assert(rest[i] == known[i + 1]);
        }
        assert(known[0].id != id);
        lemma_provider_place(rest, id, at - 1);
    }
}

fn find_provider(known: &Vec<KnownProvider>, id: &str) -> (r: usize)
    ensures
        r == provider_place(known_views(known@), id@),
        r <= known@.len(),
{
    let mut i: usize = 0;
    while i < known.len()
        invariant
            i <= known@.len(),
            forall|k: int| 0 <= k < i ==> (#[trigger] known_views(known@)[k]).id != id@,
        decreases known.len() - i,
    {
        assert(known_views(known@)[i as int] == known@[i as int]@);
        if same(known[i].id.as_str(), id) {
            proof {
                lemma_provider_place(known_views(known@), id@, i as int);
            }
            return i;
        }
        i = i + 1;
    }
    proof {
        lemma_provider_place(known_views(known@), id@, i as int);
    }
    i
}

/// Whether a model asks its provider's Responses API for hosted search.
pub open spec fn asks_search(m: ModelProfileFile, provider: Seq<char>) -> bool {
    m.api == ModelApi::OpenAiResponses && m.capabilities@.contains(
        ModelCapability::HostedWebSearch,
    ) && m.provider@ == provider
}

/// Whether some model asks a provider's Responses API for hosted search.
pub open spec fn any_asks_search(models: Seq<(String, ModelProfileFile)>, provider: Seq<char>) -> bool {
    exists|i: int| 0 <= i < models.len() && asks_search((#[trigger] models[i]).1, provider)
}

fn some_asks_search(models: &Vec<(String, ModelProfileFile)>, provider: &str) -> (r: bool)
    ensures
        r == any_asks_search(models@, provider@),
{
    let mut i: usize = 0;
    while i < models.len()
        invariant
            i <= models@.len(),
            forall|k: int| 0 <= k < i ==> !asks_search((#[trigger] models@[k]).1, provider@),
        decreases models.len() - i,
    {
        let m = &models[i].1;
        if m.api == ModelApi::OpenAiResponses && has_capability(
            &m.capabilities,
            ModelCapability::HostedWebSearch,
        ) && same(m.provider.as_str(), provider) {
            assert(asks_search(models@[i as int].1, provider@));
            return true;
        }
        i = i + 1;
    }
    false
}

/// What is wrong with a model's settings.
pub open spec fn model_fault(id: Seq<char>, m: ModelProfileFile, declared: bool) -> Option<Seq<char>> {
    let prefix = "model profile "@ + debug_text(id);
    if !is_identifier(id) {
        Some(identifier_fault("model profile"@, id))
    } else if !declared {
        Some(prefix + " references unknown provider "@ + debug_text(m.provider@))
    } else if trimmed(m.model@).len() == 0 {
        Some(prefix + " must set model"@)
    } else if m.context_window < 4096 {
        Some(prefix + " context_window must be at least 4096"@)
    } else if !m.capabilities@.no_duplicates() {
        Some(prefix + " contains duplicate capabilities"@)
    } else if m.api == ModelApi::OpenAiChatCompletions && m.capabilities@.contains(
        ModelCapability::HostedWebSearch,
    ) {
        Some(
            prefix + " cannot declare hosted_web_search through open_ai_chat_completions"@,
        )
    } else {
        None
    }
}

/// Accepts a model's settings.
pub fn check_model(id: &str, m: &ModelProfileFile, declared: bool) -> (r: Result<(), ModelError>)
    ensures
        match r {
            Ok(()) => model_fault(id@, *m, declared) is None,
            Err(e) => model_fault(id@, *m, declared) matches Some(f) && e@
                == ModelErrorView::Configuration(f),
        },
{
    validate_identifier("model profile", id)?;
    if !declared {
        let mut message = "model profile ".to_owned();
        let shown = quoted(id);
        message.append(shown.as_str());
        message.append(" references unknown provider ");
        let provider = quoted(m.provider.as_str());
        message.append(provider.as_str());
        return Err(ModelError::Configuration(message));
    }
    if is_blank(m.model.as_str()) {
        return Err(about("model profile ", id, " must set model"));
    }
    if m.context_window < 4096 {
        return Err(about("model profile ", id, " context_window must be at least 4096"));
    }
    if !are_distinct(&m.capabilities) {
        return Err(about("model profile ", id, " contains duplicate capabilities"));
    }
    if m.api == ModelApi::OpenAiChatCompletions && has_capability(
        &m.capabilities,
        ModelCapability::HostedWebSearch,
    ) {
        return Err(
            about(
                "model profile ",
                id,
                " cannot declare hosted_web_search through open_ai_chat_completions",
            ),
        );
    }
    Ok(())
}

/// What identifies a configured model.
pub open spec fn model_identity(
    id: Seq<char>,
    m: ModelProfileFile,
    client: ClientView,
) -> JsonView {
    JsonView::Object(
        seq![
            ("api"@, JsonView::Text(m.api.text())),
            ("api_config_sha256"@, JsonView::Text(client.config_sha256)),
            ("capabilities"@, capabilities_view(m.capabilities@)),
            ("context_window"@, JsonView::Integer(m.context_window as int)),
            ("default_reasoning_effort"@, effort_view(default_effort(client.settings))),
            ("profile"@, JsonView::Text(id)),
            ("provider"@, JsonView::Text(m.provider@)),
            ("upstream_model"@, JsonView::Text(m.model@)),
        ],
    )
}

/// A model that can be used, and the client that it is reached by.
pub ghost struct UsableModel {
    pub profile: ProfileView,
    pub client: ClientView,
}

/// A model ready for use, none where its provider is unavailable, or what is wrong with it.
pub open spec fn usable(
    id: Seq<char>,
    m: ModelProfileFile,
    known: Seq<KnownView>,
    searches: bool,
) -> Result<Option<UsableModel>, Seq<char>> {
    let at = provider_place(known, m.provider@);
    match model_fault(id, m, at < known.len()) {
        Some(fault) => Err(fault),
        None => match known[at].settings {
            None => Ok(None),
            Some(p) => match api_client(
                m.provider@,
                p,
                m.api,
                m.api == ModelApi::OpenAiResponses && searches,
            ) {
                Err(e) => Err(e),
                Ok(client) => Ok(
                    Some(
                        UsableModel {
                            profile: ProfileView {
                                id,
                                provider: m.provider@,
                                api: m.api,
                                model: m.model@,
                                context_window: m.context_window,
                                capabilities: m.capabilities@,
                                default_reasoning_effort: default_effort(p),
                                config_sha256: route_hash(model_identity(id, m, client)),
                            },
                            client,
                        },
                    ),
                ),
            },
        },
    }
}

/// The models that can be used, in the order of the configuration, or what is wrong with the first
/// that is not right.
pub open spec fn usable_models(
    models: Seq<(String, ModelProfileFile)>,
    known: Seq<KnownView>,
    n: int,
) -> Result<Seq<UsableModel>, Seq<char>>
    decreases n,
{
    if n <= 0 {
        Ok(Seq::empty())
    } else {
        match usable_models(models, known, n - 1) {
            Err(e) => Err(e),
            Ok(before) => {
                let (id, m) = models[n - 1];
                match usable(id@, m, known, any_asks_search(models, m.provider@)) {
                    Err(e) => Err(e),
                    Ok(None) => Ok(before),
                    Ok(Some(model)) => Ok(before.push(model)),
                }
            },
        }
    }
}

proof fn lemma_model_faults_last(
    models: Seq<(String, ModelProfileFile)>,
    known: Seq<KnownView>,
    i: int,
    n: int,
)
    requires
        0 <= i <= n,
        usable_models(models, known, i) is Err,
    ensures
        usable_models(models, known, n) == usable_models(models, known, i),
    decreases n - i,
{
    if i < n {
        lemma_model_faults_last(models, known, i, n - 1);
    }
}

/// A model that can be used.
pub struct ReadyModel {
    pub profile: ModelProfile,
    pub client: ApiClient,
}

/// Whether a model is the one of a value.
pub open spec fn is_ready(m: ReadyModel, v: UsableModel) -> bool {
    m.profile@ == v.profile && is_client(m.client, v.client)
}

/// Whether models are those of values.
pub open spec fn are_ready(models: Seq<ReadyModel>, values: Seq<UsableModel>) -> bool {
    models.len() == values.len() && forall|i: int|
        0 <= i < models.len() ==> is_ready(#[trigger] models[i], values[i])
}

fn model_identity_json(
    id: &str,
    m: &ModelProfileFile,
    client: &ApiClient,
    provider: &ResolvedProvider,
    value: Ghost<ClientView>,
) -> (r: Json)
    requires
        is_client(*client, value@),
        value@.settings == provider@,
    ensures
        r@ == model_identity(id@, *m, value@),
{
    let effort = match provider.reasoning_effort {
        Some(e) => Some(protocol_reasoning_effort(e)),
        None => None,
    };
    let mut o: Vec<(String, Json)> = Vec::new();
    put(&mut o, "api", Json::text(m.api.as_str()));
    put(&mut o, "api_config_sha256", Json::text(client.config_sha256.as_str()));
    put(&mut o, "capabilities", capabilities_json(&m.capabilities));
    put(&mut o, "context_window", Json::Unsigned(m.context_window as u64));
    put(&mut o, "default_reasoning_effort", effort_json(effort));
    put(&mut o, "profile", Json::text(id));
    put(&mut o, "provider", Json::text(m.provider.as_str()));
    put(&mut o, "upstream_model", Json::text(m.model.as_str()));
    assert(member_views(o@) =~= model_identity(id@, *m, value@)->Object_0);
    Json::Object(o)
}

fn make_ready(id: &str, m: &ModelProfileFile, known: &Vec<KnownProvider>, searches: bool) -> (r:
    Result<Option<ReadyModel>, ModelError>)
    ensures
        match r {
            Ok(Some(ready)) => usable(id@, *m, known_views(known@), searches) matches Ok(Some(v))
                && is_ready(ready, v),
            Ok(None) => usable(id@, *m, known_views(known@), searches) == Ok::<
                Option<UsableModel>,
                Seq<char>,
            >(None),
            Err(e) => usable(id@, *m, known_views(known@), searches) matches Err(f) && e@
                == ModelErrorView::Configuration(f),
        },
{
    let at = find_provider(known, m.provider.as_str());
    check_model(id, m, at < known.len())?;
    assert(known_views(known@)[at as int] == known@[at as int]@);
    let provider = match &known[at].settings {
        Some(provider) => provider,
        None => {
            return Ok(None);
        },
    };
    let hosted = m.api == ModelApi::OpenAiResponses && searches;
    let client = match build_api_client(m.provider.as_str(), provider, m.api, hosted) {
        Ok(client) => client,
        Err(e) => {
            return Err(e);
        },
    };
    let ghost value = api_client(m.provider@, provider@, m.api, hosted)->Ok_0;
    let identity = model_identity_json(id, m, &client, provider, Ghost(value));
    let profile = ModelProfile {
        id: id.to_owned(),
        provider: m.provider.clone(),
        api: m.api,
        model: m.model.clone(),
        context_window: m.context_window,
        capabilities: copy_capabilities(&m.capabilities),
        default_reasoning_effort: match provider.reasoning_effort {
            Some(e) => Some(protocol_reasoning_effort(e)),
            None => None,
        },
        config_sha256: hash_route_config(&identity),
    };
    Ok(Some(ReadyModel { profile, client }))
}

fn make_all_ready(models: &Vec<(String, ModelProfileFile)>, known: &Vec<KnownProvider>) -> (r: Result<
    Vec<ReadyModel>,
    ModelError,
>)
    ensures
        match r {
            Ok(ready) => usable_models(models@, known_views(known@), models@.len() as int)
                matches Ok(v) && are_ready(ready@, v),
            Err(e) => usable_models(models@, known_views(known@), models@.len() as int) matches Err(
                f,
            ) && e@ == ModelErrorView::Configuration(f),
        },
{
    let mut ready: Vec<ReadyModel> = Vec::new();
    let ghost views = known_views(known@);
    let mut i: usize = 0;
    while i < models.len()
        invariant
            i <= models@.len(),
            views == known_views(known@),
            usable_models(models@, views, i as int) matches Ok(v) && are_ready(ready@, v),
        decreases models.len() - i,
    {
        let searches = some_asks_search(models, models[i].1.provider.as_str());
        match make_ready(models[i].0.as_str(), &models[i].1, known, searches) {
            Ok(Some(model)) => {
                ready.push(model);
            },
            Ok(None) => {},
            Err(e) => {
                proof {
                    lemma_model_faults_last(models@, views, i + 1, models@.len() as int);
                }
                return Err(e);
            },
        }
        i = i + 1;
    }
    Ok(ready)
}

/// Models with one more, before the first whose identifier its own precedes.
pub open spec fn inserted_model(list: Seq<UsableModel>, m: UsableModel) -> Seq<UsableModel>
    decreases list.len(),
{
    if list.len() == 0 {
        seq![m]
    } else if precedes(m.profile.id, list[0].profile.id) {
        seq![m] + list
    } else {
        seq![list[0]] + inserted_model(list.drop_first(), m)
    }
}

/// Models in the order of their identifiers.
pub open spec fn sorted_models(list: Seq<UsableModel>) -> Seq<UsableModel>
    decreases list.len(),
{
    if list.len() == 0 {
        Seq::empty()
    } else {
        inserted_model(sorted_models(list.drop_last()), list.last())
    }
}

fn insert_model(list: &mut Vec<ReadyModel>, m: ReadyModel, values: Ghost<Seq<UsableModel>>, value: Ghost<UsableModel>)
    requires
        are_ready(old(list)@, values@),
        is_ready(m, value@),
    ensures
        are_ready(final(list)@, inserted_model(values@, value@)),
{
    let ghost all = values@;
    let ghost v = value@;
    let mut i: usize = 0;
    assert(all.skip(0) =~= all);
    assert(all.take(0) + inserted_model(all.skip(0), v) =~= inserted_model(all, v));
    while i < list.len()
        invariant
            i <= list@.len(),
            list@ == old(list)@,
            all == values@,
            v == value@,
            are_ready(list@, all),
            is_ready(m, v),
            inserted_model(all, v) == all.take(i as int) + inserted_model(all.skip(i as int), v),
        decreases list.len() - i,
    {
        let ghost rest = all.skip(i as int);
        assert(rest[0] == all[i as int]);
        assert(is_ready(list@[i as int], all[i as int]));
        if comes_before(m.profile.id.as_str(), list[i].profile.id.as_str()) {
            list.insert(i, m);
            let ghost whole = inserted_model(all, v);
            assert(whole =~= all.insert(i as int, v)) by {
                assert(whole =~= all.take(i as int) + (seq![v] + rest));
            }
            assert forall|k: int| 0 <= k < list@.len() implies is_ready(
                #[trigger] list@[k],
                whole[k],
            ) by {
                if k < i {
                    assert(list@[k] == old(list)@[k]);
                } else if k > i {
                    assert(list@[k] == old(list)@[k - 1]);
                }
            }
            return;
        }
        assert(rest.drop_first() =~= all.skip(i + 1));
        assert(all.take(i as int) + (seq![rest[0]] + inserted_model(all.skip(i + 1), v)) =~= all.take(
            i + 1,
        ) + inserted_model(all.skip(i + 1), v));
        i = i + 1;
    }
    assert(all.skip(i as int) =~= Seq::<UsableModel>::empty());
    let ghost whole = inserted_model(all, v);
    assert(whole =~= all.push(v));
    list.push(m);
    assert forall|k: int| 0 <= k < list@.len() implies is_ready(#[trigger] list@[k], whole[k]) by {
        if k < i {
            assert(list@[k] == old(list)@[k]);
        }
    }
}

fn sort_models(models: Vec<ReadyModel>, values: Ghost<Seq<UsableModel>>) -> (r: Vec<ReadyModel>)
    requires
        are_ready(models@, values@),
    ensures
        are_ready(r@, sorted_models(values@)),
{
    let ghost all = values@;
    let mut models = models;
    let mut reversed: Vec<ReadyModel> = Vec::new();
    while models.len() > 0
        invariant
            models@.len() + reversed@.len() == all.len(),
            forall|k: int| 0 <= k < models@.len() ==> is_ready(#[trigger] models@[k], all[k]),
            forall|k: int|
                0 <= k < reversed@.len() ==> is_ready(
                    #[trigger] reversed@[k],
                    all[all.len() - 1 - k],
                ),
        decreases models@.len(),
    {
        match models.pop() {
            Some(m) => {
                reversed.push(m);
            },
            None => {},
        }
    }
    let mut list: Vec<ReadyModel> = Vec::new();
    while reversed.len() > 0
        invariant
            reversed@.len() <= all.len(),
            forall|k: int|
                0 <= k < reversed@.len() ==> is_ready(
                    #[trigger] reversed@[k],
                    all[all.len() - 1 - k],
                ),
            are_ready(list@, sorted_models(all.take(all.len() - reversed@.len()))),
        decreases reversed@.len(),
    {
        let ghost done = all.len() - reversed@.len();
        match reversed.pop() {
            Some(m) => {
                assert(is_ready(m, all[done]));
                assert(all.take(done + 1).drop_last() =~= all.take(done));
                assert(all.take(done + 1).last() == all[done]);
                insert_model(
                    &mut list,
                    m,
                    Ghost(sorted_models(all.take(done))),
                    Ghost(all[done]),
                );
            },
            None => {},
        }
    }
    assert(all.take(all.len() as int) =~= all);
    list
}

/// Whether some model of a provider is reached by an API.
pub open spec fn uses_api(models: Seq<UsableModel>, provider: Seq<char>, api: ModelApi) -> bool {
    exists|i: int|
        0 <= i < models.len() && (#[trigger] models[i]).profile.provider == provider
            && models[i].profile.api == api
}

/// The APIs of a provider that models are reached by, in their order.
pub open spec fn used_apis(models: Seq<UsableModel>, provider: Seq<char>) -> Seq<ModelApi> {
    (if uses_api(models, provider, ModelApi::OpenAiResponses) {
        seq![ModelApi::OpenAiResponses]
    } else {
        Seq::empty()
    }) + if uses_api(models, provider, ModelApi::OpenAiChatCompletions) {
        seq![ModelApi::OpenAiChatCompletions]
    } else {
        Seq::empty()
    }
}

/// A provider as it is shown.
pub open spec fn info_of(id: Seq<char>, p: ResolvedView, apis: Seq<ModelApi>) -> InfoView {
    InfoView {
        id,
        base_url: p.base_url,
        apis,
        chat_compatibility: p.chat_compatibility.text(),
        max_request_retries: p.max_request_retries,
        request_timeout_seconds: p.request_timeout_seconds,
        stream_idle_timeout_seconds: p.stream_idle_timeout_seconds,
        responses_websockets: p.responses_websockets,
        prompt_cache_mode: p.prompt_cache_mode.text(),
    }
}

/// Providers as they are shown with one more, before the first whose identifier its own precedes.
pub open spec fn inserted_info(list: Seq<InfoView>, info: InfoView) -> Seq<InfoView>
    decreases list.len(),
{
    if list.len() == 0 {
        seq![info]
    } else if precedes(info.id, list[0].id) {
        seq![info] + list
    } else {
        seq![list[0]] + inserted_info(list.drop_first(), info)
    }
}

/// The providers that models are reached by, in the order of their identifiers.
pub open spec fn shown_providers(known: Seq<KnownView>, models: Seq<UsableModel>) -> Seq<InfoView>
    decreases known.len(),
{
    if known.len() == 0 {
        Seq::empty()
    } else {
        let before = shown_providers(known.drop_last(), models);
        let p = known.last();
        let apis = used_apis(models, p.id);
        match p.settings {
            Some(settings) => if apis.len() > 0 {
                inserted_info(before, info_of(p.id, settings, apis))
            } else {
                before
            },
            None => before,
        }
    }
}

/// The values of providers as they are shown.
pub open spec fn info_views(infos: Seq<ModelProviderInfo>) -> Seq<InfoView> {
    infos.map_values(|i: ModelProviderInfo| i@)
}

fn insert_info(list: &mut Vec<ModelProviderInfo>, info: ModelProviderInfo)
    ensures
        info_views(final(list)@) == inserted_info(info_views(old(list)@), info@),
{
    let ghost all = info_views(list@);
    let mut i: usize = 0;
    assert(all.skip(0) =~= all);
    assert(all.take(0) + inserted_info(all.skip(0), info@) =~= inserted_info(all, info@));
    while i < list.len()
        invariant
            i <= list@.len(),
            list@ == old(list)@,
            all == info_views(list@),
            inserted_info(all, info@) == all.take(i as int) + inserted_info(
                all.skip(i as int),
                info@,
            ),
        decreases list.len() - i,
    {
        let ghost rest = all.skip(i as int);
        assert(rest[0] == list@[i as int]@);
        if comes_before(info.id.as_str(), list[i].id.as_str()) {
            list.insert(i, info);
            assert(info_views(list@) =~= all.take(i as int) + (seq![info@] + rest));
            return;
        }
        assert(rest.drop_first() =~= all.skip(i + 1));
        assert(all.take(i as int) + (seq![rest[0]] + inserted_info(all.skip(i + 1), info@))
            =~= all.take(i + 1) + inserted_info(all.skip(i + 1), info@));
        i = i + 1;
    }
    assert(all.skip(i as int) =~= Seq::<InfoView>::empty());
    list.push(info);
    assert(info_views(list@) =~= all.take(i as int) + seq![info@]);
}

fn is_api_used(
    models: &Vec<ReadyModel>,
    provider: &str,
    api: ModelApi,
    values: Ghost<Seq<UsableModel>>,
) -> (r: bool)
    requires
        are_ready(models@, values@),
    ensures
        r == uses_api(values@, provider@, api),
{
    let mut i: usize = 0;
    while i < models.len()
        invariant
            i <= models@.len(),
            are_ready(models@, values@),
            forall|k: int|
                0 <= k < i ==> !((#[trigger] values@[k]).profile.provider == provider@
                    && values@[k].profile.api == api),
        decreases models.len() - i,
    {
        assert(is_ready(models@[i as int], values@[i as int]));
        if models[i].profile.api == api && same(models[i].profile.provider.as_str(), provider) {
            assert(values@[i as int].profile.provider == provider@);
            return true;
        }
        i = i + 1;
    }
    false
}

fn show_providers(
    known: &Vec<KnownProvider>,
    models: &Vec<ReadyModel>,
    values: Ghost<Seq<UsableModel>>,
) -> (r: Vec<ModelProviderInfo>)
    requires
        are_ready(models@, values@),
    ensures
        info_views(r@) == shown_providers(known_views(known@), values@),
{
    let ghost all = known_views(known@);
    let mut r: Vec<ModelProviderInfo> = Vec::new();
    let mut i: usize = 0;
    assert(info_views(r@) =~= Seq::<InfoView>::empty());
    assert(all.take(0) =~= Seq::<KnownView>::empty());
    while i < known.len()
        invariant
            i <= known@.len(),
            all == known_views(known@),
            are_ready(models@, values@),
            info_views(r@) == shown_providers(all.take(i as int), values@),
        decreases known.len() - i,
    {
        assert(all.take(i + 1).drop_last() =~= all.take(i as int));
        assert(all.take(i + 1).last() == known@[i as int]@);
        if let Some(p) = &known[i].settings {
            let id = &known[i].id;
            let mut apis: Vec<ModelApi> = Vec::new();
            if is_api_used(models, id.as_str(), ModelApi::OpenAiResponses, values) {
                apis.push(ModelApi::OpenAiResponses);
            }
            if is_api_used(models, id.as_str(), ModelApi::OpenAiChatCompletions, values) {
                apis.push(ModelApi::OpenAiChatCompletions);
            }
            assert(apis@ =~= used_apis(values@, id@));
            if apis.len() > 0 {
                insert_info(
                    &mut r,
                    ModelProviderInfo {
                        id: id.clone(),
                        base_url: p.base_url.clone(),
                        apis,
                        chat_compatibility: p.chat_compatibility.as_str().to_owned(),
                        max_request_retries: p.max_request_retries,
                        request_timeout_seconds: p.request_timeout_seconds,
                        stream_idle_timeout_seconds: p.stream_idle_timeout_seconds,
                        responses_websockets: p.responses_websockets,
                        prompt_cache_mode: p.prompt_cache_mode.as_str().to_owned(),
                    },
                );
            }
        }
        i = i + 1;
    }
    assert(all.take(i as int) =~= all);
    r
}

/// The place of the first model of a provider that is reached by an API, their number where there
/// is none.
pub open spec fn first_of(models: Seq<UsableModel>, provider: Seq<char>, api: ModelApi) -> int
    decreases models.len(),
{
    if models.len() == 0 || (models[0].profile.provider == provider && models[0].profile.api
        == api) {
        0
    } else {
        1 + first_of(models.drop_first(), provider, api)
    }
}

proof fn lemma_first_of(models: Seq<UsableModel>, provider: Seq<char>, api: ModelApi, at: int)
    requires
        0 <= at < models.len(),
        models[at].profile.provider == provider,
        models[at].profile.api == api,
        forall|i: int|
            0 <= i < at ==> !((#[trigger] models[i]).profile.provider == provider
                && models[i].profile.api == api),
    ensures
        first_of(models, provider, api) == at,
    decreases models.len(),
{
    if at > 0 {
        let rest = models.drop_first();
        assert(models[0].profile.provider != provider || models[0].profile.api != api);
        assert forall|i: int| 0 <= i < at - 1 implies !((#[trigger] rest[i]).profile.provider
            == provider && rest[i].profile.api == api) by {
            assert(rest[i] == models[i + 1]);
        }
        assert(rest[at - 1] == models[at]);
        lemma_first_of(rest, provider, api, at - 1);
    }
}

/// The client behind each model: models of one provider that are reached by one API share theirs,
/// which has the place of the first of them.
pub open spec fn model_links(models: Seq<UsableModel>) -> Seq<LinkView> {
    models.map_values(
        |m: UsableModel|
            LinkView {
                profile: m.profile.id,
                client: first_of(models, m.profile.provider, m.profile.api) as usize,
                hosts_search: m.client.hosted_web_search,
            },
    )
}

fn link_models(models: &Vec<ReadyModel>, values: Ghost<Seq<UsableModel>>) -> (r: Vec<ProfileClient>)
    requires
        are_ready(models@, values@),
    ensures
        links(r@) == model_links(values@),
{
    let ghost all = values@;
    let mut r: Vec<ProfileClient> = Vec::new();
    let mut i: usize = 0;
    assert(links(r@) =~= model_links(all).take(0));
    while i < models.len()
        invariant
            i <= models@.len(),
            all == values@,
            are_ready(models@, all),
            links(r@) == model_links(all).take(i as int),
        decreases models.len() - i,
    {
        let profile = &models[i].profile;
        assert(is_ready(models@[i as int], all[i as int]));
        let mut k: usize = 0;
        while !(models[k].profile.api == profile.api && same(
            models[k].profile.provider.as_str(),
            profile.provider.as_str(),
        ))
            invariant
                k <= i < models@.len(),
                are_ready(models@, all),
                profile@ == all[i as int].profile,
                forall|j: int|
                    0 <= j < k ==> !((#[trigger] all[j]).profile.provider == profile@.provider
                        && all[j].profile.api == profile@.api),
            ensures
                k <= i,
                is_ready(models@[k as int], all[k as int]),
                all[k as int].profile.provider == profile@.provider,
                all[k as int].profile.api == profile@.api,
            decreases models@.len() - k,
        {
            assert(is_ready(models@[k as int], all[k as int]));
            assert(is_ready(models@[i as int], all[i as int]));
            k = k + 1;
        }
        proof {
            lemma_first_of(all, profile@.provider, profile@.api, k as int);
        }
        let hosts_search = match &models[i].client.config {
            ApiClientConfig::Responses(config) => config.hosted_web_search,
            ApiClientConfig::Chat(_) => false,
        };
        let link = ProfileClient { profile: profile.id.clone(), client: k, hosts_search };
        let ghost before = links(r@);
        r.push(link);
        assert(links(r@) =~= before.push(link@));
        assert(link@ == model_links(all)[i as int]);
        assert(links(r@) =~= model_links(all).take(i + 1));
        i = i + 1;
    }
    assert(model_links(all).take(i as int) =~= model_links(all));
    r
}

/// The profiles of models.
pub open spec fn profiles_of(models: Seq<UsableModel>) -> Seq<ProfileView> {
    models.map_values(|m: UsableModel| m.profile)
}

fn copy_profiles(models: &Vec<ReadyModel>, values: Ghost<Seq<UsableModel>>) -> (r: Vec<ModelProfile>)
    requires
        are_ready(models@, values@),
    ensures
        profile_views(r@) == profiles_of(values@),
{
    let ghost all = values@;
    let mut r: Vec<ModelProfile> = Vec::new();
    let mut i: usize = 0;
    assert(profile_views(r@) =~= profiles_of(all).take(0));
    while i < models.len()
        invariant
            i <= models@.len(),
            all == values@,
            are_ready(models@, all),
            profile_views(r@) == profiles_of(all).take(i as int),
        decreases models.len() - i,
    {
        assert(is_ready(models@[i as int], all[i as int]));
        let profile = models[i].profile.clone();
        let ghost before = profile_views(r@);
        r.push(profile);
        assert(profile_views(r@) =~= before.push(profile@));
        assert(profile_views(r@) =~= profiles_of(all).take(i + 1));
        i = i + 1;
    }
    assert(profiles_of(all).take(i as int) =~= profiles_of(all));
    r
}

/// What a configuration makes.
pub ghost struct ConfiguredView {
    pub default_model: Seq<char>,
    pub models: Seq<UsableModel>,
    pub providers: Seq<InfoView>,
    pub routes: Seq<EntryView>,
}

/// What is wrong with a configuration as a whole.
pub open spec fn file_fault(file: ModelConfigFile) -> Option<Seq<char>> {
    if trimmed(file.default_model@).len() == 0 {
        Some("default_model must name a model profile"@)
    } else if file.providers@.len() == 0 || file.models@.len() == 0 {
        Some("model config requires at least one provider and one model profile"@)
    } else if !(exists|i: int|
        0 <= i < file.models@.len() && (#[trigger] file.models@[i]).0@ == file.default_model@) {
        Some("default_model "@ + debug_text(file.default_model@) + " is not defined in [models]"@)
    } else {
        None
    }
}

/// What a configuration makes with some keys, or what is wrong with it.
pub open spec fn configured(file: ModelConfigFile, keys: Seq<(String, String)>) -> Result<
    ConfiguredView,
    Seq<char>,
> {
    match file_fault(file) {
        Some(fault) => Err(fault),
        None => match known_providers(file.providers@, keys) {
            Err(e) => Err(e),
            Ok(known) => match usable_models(file.models@, known, file.models@.len() as int) {
                Err(e) => Err(e),
                Ok(models) => if !(exists|i: int|
                    0 <= i < models.len() && (#[trigger] models[i]).profile.id
                        == file.default_model@) {
                    Err(
                        "default_model "@ + debug_text(file.default_model@)
                            + " is unavailable; its provider credentials are required"@,
                    )
                } else {
                    let sorted = sorted_models(models);
                    match routing(profiles_of(sorted), model_links(sorted)) {
                        Err(e) => Err(e),
                        Ok(routes) => Ok(
                            ConfiguredView {
                                default_model: file.default_model@,
                                models: sorted,
                                providers: shown_providers(known, models),
                                routes,
                            },
                        ),
                    }
                },
            },
        },
    }
}

/// The models of a configuration. It has no `Debug` form, which would show the keys.
pub struct ConfiguredModels {
    pub default_model: String,
    /// The models, in the order of their identifiers, each with the client that it is reached by.
    pub models: Vec<ReadyModel>,
    pub profiles: Vec<ModelProfile>,
    pub providers: Vec<ModelProviderInfo>,
    pub router: ModelRouter,
}

impl ConfiguredModels {
    /// Makes the models of a configuration, given the values of the variables that it names.
    pub fn from_config(file: &ModelConfigFile, keys: &Vec<(String, String)>) -> (r: Result<
        Self,
        ModelError,
    >)
        ensures
            match r {
                Ok(made) => configured(*file, keys@) matches Ok(v) && {
                    &&& made.default_model@ == v.default_model
                    &&& are_ready(made.models@, v.models)
                    &&& profile_views(made.profiles@) == profiles_of(v.models)
                    &&& info_views(made.providers@) == v.providers
                    &&& entries(made.router.routes@) == v.routes
                    &&& made.router.clients@ == distinct_clients(model_links(v.models))
                },
                Err(e) => configured(*file, keys@) matches Err(m) && e@
                    == ModelErrorView::Configuration(m),
            },
    {
        if is_blank(file.default_model.as_str()) {
            return Err(
                ModelError::Configuration("default_model must name a model profile".to_owned()),
            );
        }
        if file.providers.len() == 0 || file.models.len() == 0 {
            return Err(
                ModelError::Configuration(
                    "model config requires at least one provider and one model profile".to_owned(),
                ),
            );
        }
        let mut declared = false;
        let mut i: usize = 0;
        while i < file.models.len() && !declared
            invariant
                i <= file.models@.len(),
                declared ==> exists|k: int|
                    0 <= k < file.models@.len() && (#[trigger] file.models@[k]).0@
                        == file.default_model@,
                !declared ==> forall|k: int|
                    0 <= k < i ==> (#[trigger] file.models@[k]).0@ != file.default_model@,
            decreases file.models.len() - i,
        {
            if same(file.models[i].0.as_str(), file.default_model.as_str()) {
                assert(file.models@[i as int].0@ == file.default_model@);
                declared = true;
            }
            i = i + 1;
        }
        if !declared {
            return Err(
                about(
                    "default_model ",
                    file.default_model.as_str(),
                    " is not defined in [models]",
                ),
            );
        }
        let known = resolve_providers(&file.providers, keys)?;
        let ready = make_all_ready(&file.models, &known)?;
        let ghost values = usable_models(
            file.models@,
            known_views(known@),
            file.models@.len() as int,
        )->Ok_0;
        let mut available = false;
        let mut k: usize = 0;
        while k < ready.len() && !available
            invariant
                k <= ready@.len(),
                are_ready(ready@, values),
                available ==> exists|j: int|
                    0 <= j < values.len() && (#[trigger] values[j]).profile.id
                        == file.default_model@,
                !available ==> forall|j: int|
                    0 <= j < k ==> (#[trigger] values[j]).profile.id != file.default_model@,
            decreases ready.len() - k,
        {
            assert(is_ready(ready@[k as int], values[k as int]));
            if same(ready[k].profile.id.as_str(), file.default_model.as_str()) {
                assert(values[k as int].profile.id == file.default_model@);
                available = true;
            }
            k = k + 1;
        }
        if !available {
            return Err(
                about(
                    "default_model ",
                    file.default_model.as_str(),
                    " is unavailable; its provider credentials are required",
                ),
            );
        }
        let providers = show_providers(&known, &ready, Ghost(values));
        let models = sort_models(ready, Ghost(values));
        let ghost sorted = sorted_models(values);
        let profiles = copy_profiles(&models, Ghost(sorted));
        let by_profile = link_models(&models, Ghost(sorted));
        let router = ModelRouter::new(copy_profiles(&models, Ghost(sorted)), &by_profile)?;
        Ok(
            ConfiguredModels {
                default_model: file.default_model.clone(),
                models,
                profiles,
                providers,
                router,
            },
        )
    }
}

/// Whether two providers are the same but for their keys, of which both have one.
pub open spec fn same_but_key(a: ResolvedView, b: ResolvedView) -> bool {
    &&& b == (ResolvedView { api_key: b.api_key, ..a })
    &&& trimmed(a.api_key).len() > 0
    &&& trimmed(b.api_key).len() > 0
}

/// Whether two lists of providers are the same but for the keys.
pub open spec fn known_alike(a: Seq<KnownView>, b: Seq<KnownView>) -> bool {
    a.len() == b.len() && forall|i: int|
        0 <= i < a.len() ==> (#[trigger] a[i]).id == b[i].id && match (a[i].settings, b[i].settings) {
            (Some(x), Some(y)) => same_but_key(x, y),
            (None, None) => true,
            _ => false,
        }
}

/// Whether two lists of models are the same but for the keys.
pub open spec fn models_alike(a: Seq<UsableModel>, b: Seq<UsableModel>) -> bool {
    a.len() == b.len() && forall|i: int|
        0 <= i < a.len() ==> (#[trigger] a[i]).profile == b[i].profile
            && a[i].client.hosted_web_search == b[i].client.hosted_web_search
}

/// Whether the same variables hold keys.
pub open spec fn same_names(a: Seq<(String, String)>, b: Seq<(String, String)>) -> bool {
    forall|name: Seq<char>|
        #[trigger] usable_key(a, name) is Some <==> usable_key(b, name) is Some
}

proof fn lemma_known_alike(
    providers: Seq<(String, ProviderConfigFile)>,
    a: Seq<(String, String)>,
    b: Seq<(String, String)>,
)
    requires
        same_names(a, b),
    ensures
        match (known_providers(providers, a), known_providers(providers, b)) {
            (Ok(x), Ok(y)) => known_alike(x, y),
            (Err(x), Err(y)) => x == y,
            _ => false,
        },
    decreases providers.len(),
{
    if providers.len() > 0 {
        lemma_known_alike(providers.drop_last(), a, b);
        let name = trimmed(providers.last().1.api_key_env@);
        assert(usable_key(a, name) is Some <==> usable_key(b, name) is Some);
    }
}

proof fn lemma_place_alike(a: Seq<KnownView>, b: Seq<KnownView>, id: Seq<char>)
    requires
        known_alike(a, b),
    ensures
        provider_place(a, id) == provider_place(b, id),
        0 <= provider_place(a, id) <= a.len(),
    decreases a.len(),
{
    if a.len() > 0 {
        assert(a[0].id == b[0].id);
        let x = a.drop_first();
        let y = b.drop_first();
        assert forall|i: int| 0 <= i < x.len() implies (#[trigger] x[i]).id == y[i].id && match (
            x[i].settings,
            y[i].settings,
        ) {
            (Some(p), Some(q)) => same_but_key(p, q),
            (None, None) => true,
            _ => false,
        } by {
            assert(x[i] == a[i + 1] && y[i] == b[i + 1]);
        }
        lemma_place_alike(x, y, id);
    }
}

proof fn lemma_usable_alike(
    id: Seq<char>,
    m: ModelProfileFile,
    a: Seq<KnownView>,
    b: Seq<KnownView>,
    searches: bool,
)
    requires
        known_alike(a, b),
    ensures
        match (usable(id, m, a, searches), usable(id, m, b, searches)) {
            (Ok(Some(x)), Ok(Some(y))) => x.profile == y.profile && x.client.hosted_web_search
                == y.client.hosted_web_search,
            (Ok(None), Ok(None)) => true,
            (Err(x), Err(y)) => x == y,
            _ => false,
        },
{
    lemma_place_alike(a, b, m.provider@);
    let at = provider_place(a, m.provider@);
    if at < a.len() {
        assert(a[at].id == b[at].id);
        if let (Some(p), Some(q)) = (a[at].settings, b[at].settings) {
            let hosted = m.api == ModelApi::OpenAiResponses && searches;
            law_identity_hides_the_key(m.provider@, p, q, m.api, hosted);
        }
    }
}

proof fn lemma_models_alike(
    models: Seq<(String, ModelProfileFile)>,
    a: Seq<KnownView>,
    b: Seq<KnownView>,
    n: int,
)
    requires
        known_alike(a, b),
    ensures
        match (usable_models(models, a, n), usable_models(models, b, n)) {
            (Ok(x), Ok(y)) => models_alike(x, y),
            (Err(x), Err(y)) => x == y,
            _ => false,
        },
    decreases n,
{
    if n > 0 {
        lemma_models_alike(models, a, b, n - 1);
        let (id, m) = models[n - 1];
        lemma_usable_alike(id@, m, a, b, any_asks_search(models, m.provider@));
    }
}

proof fn lemma_inserted_alike(
    a: Seq<UsableModel>,
    b: Seq<UsableModel>,
    x: UsableModel,
    y: UsableModel,
)
    requires
        models_alike(a, b),
        x.profile == y.profile,
        x.client.hosted_web_search == y.client.hosted_web_search,
    ensures
        models_alike(inserted_model(a, x), inserted_model(b, y)),
    decreases a.len(),
{
    if a.len() > 0 {
        assert(a[0].profile == b[0].profile);
        let ra = a.drop_first();
        let rb = b.drop_first();
        assert forall|i: int| 0 <= i < ra.len() implies (#[trigger] ra[i]).profile == rb[i].profile
            && ra[i].client.hosted_web_search == rb[i].client.hosted_web_search by {
            assert(ra[i] == a[i + 1] && rb[i] == b[i + 1]);
        }
        lemma_inserted_alike(ra, rb, x, y);
        let wa = inserted_model(a, x);
        let wb = inserted_model(b, y);
        let ta = inserted_model(ra, x);
        let tb = inserted_model(rb, y);
        assert forall|i: int| 0 <= i < wa.len() implies (#[trigger] wa[i]).profile == wb[i].profile
            && wa[i].client.hosted_web_search == wb[i].client.hosted_web_search by {
            if precedes(x.profile.id, a[0].profile.id) {
                if i > 0 {
                    assert(wa[i] == a[i - 1] && wb[i] == b[i - 1]);
                }
            } else {
                if i > 0 {
                    assert(wa[i] == ta[i - 1] && wb[i] == tb[i - 1]);
                } else {
                    assert(wa[0] == a[0] && wb[0] == b[0]);
                }
            }
        }
    }
}

proof fn lemma_sorted_alike(a: Seq<UsableModel>, b: Seq<UsableModel>)
    requires
        models_alike(a, b),
    ensures
        models_alike(sorted_models(a), sorted_models(b)),
    decreases a.len(),
{
    if a.len() > 0 {
        let x = a.drop_last();
        let y = b.drop_last();
        assert forall|i: int| 0 <= i < x.len() implies (#[trigger] x[i]).profile == y[i].profile
            && x[i].client.hosted_web_search == y[i].client.hosted_web_search by {
            assert(x[i] == a[i] && y[i] == b[i]);
        }
        lemma_sorted_alike(x, y);
        assert(a[a.len() - 1].profile == b[a.len() - 1].profile);
        lemma_inserted_alike(sorted_models(x), sorted_models(y), a.last(), b.last());
    }
}

proof fn lemma_uses_alike(
    a: Seq<UsableModel>,
    b: Seq<UsableModel>,
    provider: Seq<char>,
    api: ModelApi,
)
    requires
        models_alike(a, b),
    ensures
        uses_api(a, provider, api) == uses_api(b, provider, api),
{
    if uses_api(a, provider, api) {
        let i = choose|i: int|
            0 <= i < a.len() && (#[trigger] a[i]).profile.provider == provider && a[i].profile.api
                == api;
        assert(a[i].profile == b[i].profile);
        assert(b[i].profile.provider == provider);
    }
    if uses_api(b, provider, api) {
        let i = choose|i: int|
            0 <= i < b.len() && (#[trigger] b[i]).profile.provider == provider && b[i].profile.api
                == api;
        assert(a[i].profile == b[i].profile);
    }
}

proof fn lemma_shown_alike(
    ka: Seq<KnownView>,
    kb: Seq<KnownView>,
    a: Seq<UsableModel>,
    b: Seq<UsableModel>,
)
    requires
        known_alike(ka, kb),
        models_alike(a, b),
    ensures
        shown_providers(ka, a) == shown_providers(kb, b),
    decreases ka.len(),
{
    if ka.len() > 0 {
        let x = ka.drop_last();
        let y = kb.drop_last();
        assert forall|i: int| 0 <= i < x.len() implies (#[trigger] x[i]).id == y[i].id && match (
            x[i].settings,
            y[i].settings,
        ) {
            (Some(p), Some(q)) => same_but_key(p, q),
            (None, None) => true,
            _ => false,
        } by {
            assert(x[i] == ka[i] && y[i] == kb[i]);
        }
        lemma_shown_alike(x, y, a, b);
        let n = ka.len() - 1;
        assert(ka[n].id == kb[n].id);
        lemma_uses_alike(a, b, ka[n].id, ModelApi::OpenAiResponses);
        lemma_uses_alike(a, b, ka[n].id, ModelApi::OpenAiChatCompletions);
    }
}

proof fn lemma_first_alike(
    a: Seq<UsableModel>,
    b: Seq<UsableModel>,
    provider: Seq<char>,
    api: ModelApi,
)
    requires
        models_alike(a, b),
    ensures
        first_of(a, provider, api) == first_of(b, provider, api),
    decreases a.len(),
{
    if a.len() > 0 {
        assert(a[0].profile == b[0].profile);
        let x = a.drop_first();
        let y = b.drop_first();
        assert forall|i: int| 0 <= i < x.len() implies (#[trigger] x[i]).profile == y[i].profile
            && x[i].client.hosted_web_search == y[i].client.hosted_web_search by {
            assert(x[i] == a[i + 1] && y[i] == b[i + 1]);
        }
        lemma_first_alike(x, y, provider, api);
    }
}

/// Nothing that is shown or routed depends on what the keys are, only on which there are. So the
/// identities of routes do not change with the keys.
pub proof fn law_keys_are_not_shown(
    file: ModelConfigFile,
    a: Seq<(String, String)>,
    b: Seq<(String, String)>,
)
    requires
        same_names(a, b),
    ensures
        match (configured(file, a), configured(file, b)) {
            (Ok(x), Ok(y)) => {
                &&& x.default_model == y.default_model
                &&& profiles_of(x.models) == profiles_of(y.models)
                &&& x.providers == y.providers
                &&& x.routes == y.routes
            },
            (Err(x), Err(y)) => x == y,
            _ => false,
        },
{
    if file_fault(file) is None {
        lemma_known_alike(file.providers@, a, b);
        if let (Ok(ka), Ok(kb)) = (
            known_providers(file.providers@, a),
            known_providers(file.providers@, b),
        ) {
            let n = file.models@.len() as int;
            lemma_models_alike(file.models@, ka, kb, n);
            if let (Ok(x), Ok(y)) = (
                usable_models(file.models@, ka, n),
                usable_models(file.models@, kb, n),
            ) {
                lemma_sorted_alike(x, y);
                lemma_shown_alike(ka, kb, x, y);
                let sx = sorted_models(x);
                let sy = sorted_models(y);
                assert(profiles_of(sx) =~= profiles_of(sy)) by {
                    assert forall|i: int| 0 <= i < sx.len() implies sx[i].profile
                        == sy[i].profile by {}
                }
                assert(model_links(sx) =~= model_links(sy)) by {
                    assert forall|i: int| 0 <= i < sx.len() implies model_links(sx)[i]
                        == model_links(sy)[i] by {
                        assert(sx[i].profile == sy[i].profile);
                        lemma_first_alike(sx, sy, sx[i].profile.provider, sx[i].profile.api);
                    }
                }
                let holds = |l: Seq<UsableModel>|
                    exists|i: int|
                        0 <= i < l.len() && (#[trigger] l[i]).profile.id == file.default_model@;
                assert(holds(x) == holds(y)) by {
                    if holds(x) {
                        let i = choose|i: int|
                            0 <= i < x.len() && (#[trigger] x[i]).profile.id
                                == file.default_model@;
                        assert(y[i].profile.id == file.default_model@);
                    }
                    if holds(y) {
                        let i = choose|i: int|
                            0 <= i < y.len() && (#[trigger] y[i]).profile.id
                                == file.default_model@;
                        assert(x[i].profile.id == file.default_model@);
                    }
                }
            }
        }
    }
}

/// Whether the key of a provider with an identifier is there.
pub open spec fn has_its_key(
    providers: Seq<(String, ProviderConfigFile)>,
    keys: Seq<(String, String)>,
    id: Seq<char>,
) -> bool {
    exists|i: int|
        0 <= i < providers.len() && (#[trigger] providers[i]).0@ == id && usable_key(
            keys,
            trimmed(providers[i].1.api_key_env@),
        ) is Some
}

proof fn lemma_settings_need_a_key(
    providers: Seq<(String, ProviderConfigFile)>,
    keys: Seq<(String, String)>,
    k: int,
)
    requires
        known_providers(providers, keys) matches Ok(known) && 0 <= k < known.len()
            && known[k].settings is Some,
    ensures
        has_its_key(providers, keys, (known_providers(providers, keys)->Ok_0)[k].id),
    decreases providers.len(),
{
    let rest = providers.drop_last();
    let before = known_providers(rest, keys)->Ok_0;
    let id = (known_providers(providers, keys)->Ok_0)[k].id;
    if k < before.len() {
        lemma_settings_need_a_key(rest, keys, k);
        let i = choose|i: int|
            0 <= i < rest.len() && (#[trigger] rest[i]).0@ == id && usable_key(
                keys,
                trimmed(rest[i].1.api_key_env@),
            ) is Some;
        assert(providers[i] == rest[i]);
    } else {
        assert(providers[providers.len() - 1].0@ == id);
    }
}

proof fn lemma_inserted_info_is_one(list: Seq<InfoView>, info: InfoView, j: int)
    requires
        0 <= j < inserted_info(list, info).len(),
    ensures
        inserted_info(list, info)[j] == info || exists|k: int|
            0 <= k < list.len() && #[trigger] list[k] == inserted_info(list, info)[j],
    decreases list.len(),
{
    let all = inserted_info(list, info);
    if list.len() > 0 {
        if precedes(info.id, list[0].id) {
            if j > 0 {
                assert(all[j] == list[j - 1]);
            }
        } else if j == 0 {
            assert(all[0] == list[0]);
        } else {
            let rest = list.drop_first();
            lemma_inserted_info_is_one(rest, info, j - 1);
            assert(all[j] == inserted_info(rest, info)[j - 1]);
            if all[j] != info {
                let k = choose|k: int| 0 <= k < rest.len() && #[trigger] rest[k] == all[j];
                assert(list[k + 1] == all[j]);
            }
        }
    }
}

proof fn lemma_shown_are_known(known: Seq<KnownView>, models: Seq<UsableModel>, j: int)
    requires
        0 <= j < shown_providers(known, models).len(),
    ensures
        exists|k: int|
            0 <= k < known.len() && (#[trigger] known[k]).id == shown_providers(known, models)[j].id
                && known[k].settings is Some,
    decreases known.len(),
{
    let all = shown_providers(known, models);
    let rest = known.drop_last();
    let before = shown_providers(rest, models);
    let p = known.last();
    let apis = used_apis(models, p.id);
    if p.settings is Some && apis.len() > 0 {
        let info = info_of(p.id, p.settings->0, apis);
        lemma_inserted_info_is_one(before, info, j);
        if all[j] == info {
            assert(known[known.len() - 1].id == all[j].id);
        } else {
            let m = choose|m: int| 0 <= m < before.len() && #[trigger] before[m] == all[j];
            lemma_shown_are_known(rest, models, m);
            let k = choose|k: int|
                0 <= k < rest.len() && (#[trigger] rest[k]).id == before[m].id
                    && rest[k].settings is Some;
            assert(known[k] == rest[k]);
        }
    } else {
        lemma_shown_are_known(rest, models, j);
        let k = choose|k: int|
            0 <= k < rest.len() && (#[trigger] rest[k]).id == before[j].id
                && rest[k].settings is Some;
        assert(known[k] == rest[k]);
    }
}

/// A provider is listed only where its key is there.
pub proof fn law_listed_providers_have_keys(
    file: ModelConfigFile,
    keys: Seq<(String, String)>,
    j: int,
)
    requires
        configured(file, keys) matches Ok(c) && 0 <= j < c.providers.len(),
    ensures
        has_its_key(file.providers@, keys, (configured(file, keys)->Ok_0).providers[j].id),
{
    let known = known_providers(file.providers@, keys)->Ok_0;
    let models = usable_models(file.models@, known, file.models@.len() as int)->Ok_0;
    lemma_shown_are_known(known, models, j);
    let k = choose|k: int|
        0 <= k < known.len() && (#[trigger] known[k]).id == shown_providers(known, models)[j].id
            && known[k].settings is Some;
    lemma_settings_need_a_key(file.providers@, keys, k);
}

proof fn lemma_inserted_model_holds(list: Seq<UsableModel>, m: UsableModel, x: UsableModel)
    ensures
        inserted_model(list, m).contains(x) <==> list.contains(x) || x == m,
    decreases list.len(),
{
    let all = inserted_model(list, m);
    if list.len() == 0 {
        assert(all[0] == m);
    } else if precedes(m.profile.id, list[0].profile.id) {
        assert(all[0] == m);
        if list.contains(x) {
            let k = choose|k: int| 0 <= k < list.len() && list[k] == x;
            assert(all[k + 1] == x);
        }
        if all.contains(x) && x != m {
            let k = choose|k: int| 0 <= k < all.len() && all[k] == x;
            assert(list[k - 1] == x);
        }
    } else {
        let rest = list.drop_first();
        let after = inserted_model(rest, m);
        lemma_inserted_model_holds(rest, m, x);
        assert(all[0] == list[0]);
        if list.contains(x) && x != list[0] {
            let k = choose|k: int| 0 <= k < list.len() && list[k] == x;
            assert(rest[k - 1] == x);
        }
        if after.contains(x) {
            let k = choose|k: int| 0 <= k < after.len() && after[k] == x;
            assert(all[k + 1] == x);
        }
        if all.contains(x) && x != list[0] {
            let k = choose|k: int| 0 <= k < all.len() && all[k] == x;
            assert(after[k - 1] == x);
        }
        if rest.contains(x) {
            let k = choose|k: int| 0 <= k < rest.len() && rest[k] == x;
            assert(list[k + 1] == x);
        }
    }
}

proof fn lemma_sorted_models_hold(list: Seq<UsableModel>, x: UsableModel)
    ensures
        sorted_models(list).contains(x) <==> list.contains(x),
    decreases list.len(),
{
    if list.len() > 0 {
        let rest = list.drop_last();
        lemma_sorted_models_hold(rest, x);
        lemma_inserted_model_holds(sorted_models(rest), list.last(), x);
        if list.contains(x) && x != list.last() {
            let k = choose|k: int| 0 <= k < list.len() && list[k] == x;
            assert(rest[k] == x);
        }
        if rest.contains(x) {
            let k = choose|k: int| 0 <= k < rest.len() && rest[k] == x;
            assert(list[k] == x);
        }
        assert(list[list.len() - 1] == list.last());
    }
}

/// Whether models stand in the order of their identifiers.
pub open spec fn models_ascend(models: Seq<UsableModel>) -> bool {
    forall|i: int, j: int|
        0 <= i < j < models.len() ==> !precedes(
            (#[trigger] models[j]).profile.id,
            (#[trigger] models[i]).profile.id,
        )
}

proof fn lemma_inserted_model_ascends(list: Seq<UsableModel>, m: UsableModel)
    requires
        models_ascend(list),
    ensures
        models_ascend(inserted_model(list, m)),
    decreases list.len(),
{
    let all = inserted_model(list, m);
    if list.len() > 0 && precedes(m.profile.id, list[0].profile.id) {
        assert forall|i: int, j: int| 0 <= i < j < all.len() implies !precedes(
            (#[trigger] all[j]).profile.id,
            (#[trigger] all[i]).profile.id,
        ) by {
            assert(all[j] == list[j - 1]);
            if i > 0 {
                assert(all[i] == list[i - 1]);
            } else if precedes(list[j - 1].profile.id, m.profile.id) {
                lemma_precedes_transitive(
                    list[j - 1].profile.id,
                    m.profile.id,
                    list[0].profile.id,
                );
                if j == 1 {
                    lemma_precedes_irreflexive(list[0].profile.id);
                }
            }
        }
    } else if list.len() > 0 {
        let rest = list.drop_first();
        let after = inserted_model(rest, m);
        assert forall|i: int, j: int| 0 <= i < j < rest.len() implies !precedes(
            (#[trigger] rest[j]).profile.id,
            (#[trigger] rest[i]).profile.id,
        ) by {
            assert(rest[i] == list[i + 1] && rest[j] == list[j + 1]);
        }
        lemma_inserted_model_ascends(rest, m);
        assert forall|i: int, j: int| 0 <= i < j < all.len() implies !precedes(
            (#[trigger] all[j]).profile.id,
            (#[trigger] all[i]).profile.id,
        ) by {
            assert(all[j] == after[j - 1]);
            if i > 0 {
                assert(all[i] == after[i - 1]);
            } else {
                assert(all[0] == list[0]);
                lemma_inserted_model_holds(rest, m, after[j - 1]);
                assert(after.contains(after[j - 1]));
                if after[j - 1] != m {
                    let k = choose|k: int| 0 <= k < rest.len() && rest[k] == after[j - 1];
                    assert(list[k + 1] == after[j - 1]);
                }
            }
        }
    }
}

proof fn lemma_sorted_models_ascend(list: Seq<UsableModel>)
    ensures
        models_ascend(sorted_models(list)),
    decreases list.len(),
{
    if list.len() > 0 {
        lemma_sorted_models_ascend(list.drop_last());
        lemma_inserted_model_ascends(sorted_models(list.drop_last()), list.last());
    }
}

proof fn lemma_provider_place_holds(known: Seq<KnownView>, id: Seq<char>)
    ensures
        0 <= provider_place(known, id) <= known.len(),
        provider_place(known, id) < known.len() ==> known[provider_place(known, id)].id == id,
    decreases known.len(),
{
    if known.len() > 0 && known[0].id != id {
        lemma_provider_place_holds(known.drop_first(), id);
    }
}

/// Whether a model keeps the rules for models, and has a known provider that is available.
pub open spec fn model_is_sound(m: UsableModel, known: Seq<KnownView>) -> bool {
    &&& m.profile.context_window >= 4096
    &&& m.profile.api == ModelApi::OpenAiChatCompletions ==> !m.profile.capabilities.contains(
        ModelCapability::HostedWebSearch,
    )
    &&& exists|k: int|
        0 <= k < known.len() && (#[trigger] known[k]).id == m.profile.provider
            && known[k].settings is Some
}

proof fn lemma_usable_models_are_sound(
    models: Seq<(String, ModelProfileFile)>,
    known: Seq<KnownView>,
    n: int,
    j: int,
)
    requires
        usable_models(models, known, n) matches Ok(all) && 0 <= j < all.len(),
    ensures
        model_is_sound((usable_models(models, known, n)->Ok_0)[j], known),
    decreases n,
{
    if n > 0 {
        let before = usable_models(models, known, n - 1)->Ok_0;
        let (id, m) = models[n - 1];
        if j < before.len() {
            lemma_usable_models_are_sound(models, known, n - 1, j);
        } else {
            let at = provider_place(known, m.provider@);
            lemma_provider_place_holds(known, m.provider@);
            assert(known[at].id == m.provider@);
        }
    }
}

/// Whether providers stand in the order of their identifiers, each once.
pub open spec fn providers_ascend(infos: Seq<InfoView>) -> bool {
    forall|i: int, j: int|
        0 <= i < j < infos.len() ==> precedes((#[trigger] infos[i]).id, (#[trigger] infos[j]).id)
}

proof fn lemma_inserted_info_ascends(list: Seq<InfoView>, info: InfoView)
    requires
        providers_ascend(list),
        forall|k: int| 0 <= k < list.len() ==> (#[trigger] list[k]).id != info.id,
    ensures
        providers_ascend(inserted_info(list, info)),
    decreases list.len(),
{
    let all = inserted_info(list, info);
    if list.len() > 0 && precedes(info.id, list[0].id) {
        assert forall|i: int, j: int| 0 <= i < j < all.len() implies precedes(
            (#[trigger] all[i]).id,
            (#[trigger] all[j]).id,
        ) by {
            assert(all[j] == list[j - 1]);
            if i > 0 {
                assert(all[i] == list[i - 1]);
            } else if j > 1 {
                lemma_precedes_transitive(info.id, list[0].id, list[j - 1].id);
            }
        }
    } else if list.len() > 0 {
        let rest = list.drop_first();
        let after = inserted_info(rest, info);
        assert forall|i: int, j: int| 0 <= i < j < rest.len() implies precedes(
            (#[trigger] rest[i]).id,
            (#[trigger] rest[j]).id,
        ) by {
            assert(rest[i] == list[i + 1] && rest[j] == list[j + 1]);
        }
        assert forall|k: int| 0 <= k < rest.len() implies (#[trigger] rest[k]).id != info.id by {
            assert(rest[k] == list[k + 1]);
        }
        lemma_inserted_info_ascends(rest, info);
        lemma_precedes_total(info.id, list[0].id);
        assert(list[0].id != info.id);
        assert forall|i: int, j: int| 0 <= i < j < all.len() implies precedes(
            (#[trigger] all[i]).id,
            (#[trigger] all[j]).id,
        ) by {
            assert(all[j] == after[j - 1]);
            if i > 0 {
                assert(all[i] == after[i - 1]);
            } else {
                assert(all[0] == list[0]);
                lemma_inserted_info_is_one(rest, info, j - 1);
                if after[j - 1] != info {
                    let k = choose|k: int| 0 <= k < rest.len() && #[trigger] rest[k] == after[j
                        - 1];
                    assert(list[k + 1] == after[j - 1]);
                }
            }
        }
    }
}

/// Whether no two providers have one identifier.
pub open spec fn known_once(known: Seq<KnownView>) -> bool {
    forall|i: int, j: int|
        0 <= i < j < known.len() ==> (#[trigger] known[i]).id != (#[trigger] known[j]).id
}

proof fn lemma_shown_providers_ascend(known: Seq<KnownView>, models: Seq<UsableModel>)
    requires
        known_once(known),
    ensures
        providers_ascend(shown_providers(known, models)),
    decreases known.len(),
{
    if known.len() > 0 {
        let rest = known.drop_last();
        let p = known.last();
        assert forall|i: int, j: int| 0 <= i < j < rest.len() implies (#[trigger] rest[i]).id != (
        #[trigger] rest[j]).id by {
            assert(rest[i] == known[i] && rest[j] == known[j]);
        }
        lemma_shown_providers_ascend(rest, models);
        let before = shown_providers(rest, models);
        let apis = used_apis(models, p.id);
        if p.settings is Some && apis.len() > 0 {
            assert forall|k: int| 0 <= k < before.len() implies (#[trigger] before[k]).id
                != p.id by {
                lemma_shown_are_known(rest, models, k);
                let m = choose|m: int|
                    0 <= m < rest.len() && (#[trigger] rest[m]).id == before[k].id
                        && rest[m].settings is Some;
                assert(known[m] == rest[m]);
                assert(known[known.len() - 1] == p);
            }
            lemma_inserted_info_ascends(before, info_of(p.id, p.settings->0, apis));
        }
    }
}

proof fn lemma_shown_apis(known: Seq<KnownView>, models: Seq<UsableModel>, j: int)
    requires
        0 <= j < shown_providers(known, models).len(),
    ensures
        shown_providers(known, models)[j].apis == used_apis(
            models,
            shown_providers(known, models)[j].id,
        ),
        shown_providers(known, models)[j].apis.len() > 0,
    decreases known.len(),
{
    let all = shown_providers(known, models);
    let rest = known.drop_last();
    let before = shown_providers(rest, models);
    let p = known.last();
    let apis = used_apis(models, p.id);
    if p.settings is Some && apis.len() > 0 {
        let info = info_of(p.id, p.settings->0, apis);
        lemma_inserted_info_is_one(before, info, j);
        if all[j] != info {
            let m = choose|m: int| 0 <= m < before.len() && #[trigger] before[m] == all[j];
            lemma_shown_apis(rest, models, m);
        }
    } else {
        lemma_shown_apis(rest, models, j);
    }
}

proof fn lemma_inserted_info_holds(list: Seq<InfoView>, info: InfoView)
    ensures
        inserted_info(list, info).contains(info),
        forall|k: int| 0 <= k < list.len() ==> inserted_info(list, info).contains(#[trigger] list[k]),
    decreases list.len(),
{
    let all = inserted_info(list, info);
    if list.len() == 0 {
        assert(all[0] == info);
    } else if precedes(info.id, list[0].id) {
        assert(all[0] == info);
        assert forall|k: int| 0 <= k < list.len() implies all.contains(#[trigger] list[k]) by {
            assert(all[k + 1] == list[k]);
        }
    } else {
        let rest = list.drop_first();
        let after = inserted_info(rest, info);
        lemma_inserted_info_holds(rest, info);
        let at = choose|at: int| 0 <= at < after.len() && after[at] == info;
        assert(all[at + 1] == info);
        assert forall|k: int| 0 <= k < list.len() implies all.contains(#[trigger] list[k]) by {
            if k == 0 {
                assert(all[0] == list[0]);
            } else {
                assert(rest[k - 1] == list[k]);
                assert(after.contains(rest[k - 1]));
                let m = choose|m: int| 0 <= m < after.len() && after[m] == rest[k - 1];
                assert(all[m + 1] == list[k]);
            }
        }
    }
}

proof fn lemma_used_providers_are_shown(known: Seq<KnownView>, models: Seq<UsableModel>, k: int)
    requires
        0 <= k < known.len(),
        known[k].settings is Some,
        used_apis(models, known[k].id).len() > 0,
    ensures
        exists|j: int|
            0 <= j < shown_providers(known, models).len() && (#[trigger] shown_providers(
                known,
                models,
            )[j]).id == known[k].id,
    decreases known.len(),
{
    let all = shown_providers(known, models);
    let rest = known.drop_last();
    let before = shown_providers(rest, models);
    let p = known.last();
    let apis = used_apis(models, p.id);
    let last_is_shown = p.settings is Some && apis.len() > 0;
    let info = info_of(p.id, p.settings->0, apis);
    if k == known.len() - 1 {
        lemma_inserted_info_holds(before, info);
        let j = choose|j: int| 0 <= j < all.len() && all[j] == info;
        assert(all[j].id == known[k].id);
    } else {
        assert(rest[k] == known[k]);
        lemma_used_providers_are_shown(rest, models, k);
        let m = choose|m: int| 0 <= m < before.len() && (#[trigger] before[m]).id == known[k].id;
        if last_is_shown {
            lemma_inserted_info_holds(before, info);
            assert(all.contains(before[m]));
            let j = choose|j: int| 0 <= j < all.len() && all[j] == before[m];
            assert(all[j].id == known[k].id);
        } else {
            assert(all[m].id == known[k].id);
        }
    }
}

proof fn lemma_known_are_declared(
    providers: Seq<(String, ProviderConfigFile)>,
    keys: Seq<(String, String)>,
)
    requires
        known_providers(providers, keys) is Ok,
    ensures
        (known_providers(providers, keys)->Ok_0).len() == providers.len(),
        forall|k: int|
            0 <= k < providers.len() ==> (#[trigger] (known_providers(providers, keys)->Ok_0)[k]).id
                == providers[k].0@,
    decreases providers.len(),
{
    if providers.len() > 0 {
        lemma_known_are_declared(providers.drop_last(), keys);
    }
}

/// The profiles of a configuration stand in the order of their identifiers, each once, and the
/// default is one of them. Each has a window of at least 4096 tokens, and none claims hosted search
/// through Chat Completions.
pub proof fn law_profiles_are_in_order(file: ModelConfigFile, keys: Seq<(String, String)>)
    requires
        configured(file, keys) is Ok,
    ensures
        ({
            let c = configured(file, keys)->Ok_0;
            let profiles = profiles_of(c.models);
            &&& forall|i: int, j: int|
                0 <= i < j < profiles.len() ==> precedes(
                    (#[trigger] profiles[i]).id,
                    (#[trigger] profiles[j]).id,
                )
            &&& exists|i: int|
                0 <= i < profiles.len() && (#[trigger] profiles[i]).id == c.default_model
            &&& forall|i: int|
                0 <= i < profiles.len() ==> (#[trigger] profiles[i]).context_window >= 4096 && (
                profiles[i].api == ModelApi::OpenAiChatCompletions
                    ==> !profiles[i].capabilities.contains(ModelCapability::HostedWebSearch))
        }),
{
    let c = configured(file, keys)->Ok_0;
    let known = known_providers(file.providers@, keys)->Ok_0;
    let models = usable_models(file.models@, known, file.models@.len() as int)->Ok_0;
    let profiles = profiles_of(c.models);
    lemma_sorted_models_ascend(models);
    law_routes_are_unique(profiles, model_links(c.models));
    assert forall|i: int, j: int| 0 <= i < j < profiles.len() implies precedes(
        (#[trigger] profiles[i]).id,
        (#[trigger] profiles[j]).id,
    ) by {
        assert(!precedes(c.models[j].profile.id, c.models[i].profile.id));
        assert(c.routes[i].profile.id != c.routes[j].profile.id);
        lemma_precedes_total(profiles[i].id, profiles[j].id);
    }
    let d = choose|d: int|
        0 <= d < models.len() && (#[trigger] models[d]).profile.id == file.default_model@;
    lemma_sorted_models_hold(models, models[d]);
    assert(models.contains(models[d]));
    let at = choose|at: int| 0 <= at < c.models.len() && c.models[at] == models[d];
    assert(profiles[at].id == c.default_model);
    assert forall|i: int| 0 <= i < profiles.len() implies (#[trigger] profiles[i]).context_window
        >= 4096 && (profiles[i].api == ModelApi::OpenAiChatCompletions
        ==> !profiles[i].capabilities.contains(ModelCapability::HostedWebSearch)) by {
        assert(c.models.contains(c.models[i]));
        lemma_sorted_models_hold(models, c.models[i]);
        let k = choose|k: int| 0 <= k < models.len() && models[k] == c.models[i];
        lemma_usable_models_are_sound(file.models@, known, file.models@.len() as int, k);
    }
}

/// Whether a profile is reached through a provider, by an API.
pub open spec fn reached_by(
    profiles: Seq<ProfileView>,
    provider: Seq<char>,
    api: ModelApi,
) -> bool {
    exists|i: int|
        0 <= i < profiles.len() && (#[trigger] profiles[i]).provider == provider && profiles[i].api
            == api
}

proof fn lemma_reached_by(models: Seq<UsableModel>, provider: Seq<char>, api: ModelApi)
    ensures
        uses_api(models, provider, api) == reached_by(
            profiles_of(sorted_models(models)),
            provider,
            api,
        ),
{
    let all = sorted_models(models);
    let profiles = profiles_of(all);
    if uses_api(models, provider, api) {
        let i = choose|i: int|
            0 <= i < models.len() && (#[trigger] models[i]).profile.provider == provider
                && models[i].profile.api == api;
        assert(models.contains(models[i]));
        lemma_sorted_models_hold(models, models[i]);
        let k = choose|k: int| 0 <= k < all.len() && all[k] == models[i];
        assert(profiles[k].provider == provider);
    }
    if reached_by(profiles, provider, api) {
        let k = choose|k: int|
            0 <= k < profiles.len() && (#[trigger] profiles[k]).provider == provider
                && profiles[k].api == api;
        assert(all.contains(all[k]));
        lemma_sorted_models_hold(models, all[k]);
        let i = choose|i: int| 0 <= i < models.len() && models[i] == all[k];
        assert(models[i].profile.provider == provider);
    }
}

/// The providers of a configuration that names each once stand in the order of their identifiers,
/// each once. They are those of the profiles, and each has the APIs that its profiles are reached
/// by, in their order, each once.
pub proof fn law_providers_are_those_of_the_profiles(
    file: ModelConfigFile,
    keys: Seq<(String, String)>,
)
    requires
        configured(file, keys) is Ok,
        forall|i: int, j: int|
            0 <= i < j < file.providers@.len() ==> (#[trigger] file.providers@[i]).0@ != (
            #[trigger] file.providers@[j]).0@,
    ensures
        ({
            let c = configured(file, keys)->Ok_0;
            let profiles = profiles_of(c.models);
            &&& providers_ascend(c.providers)
            &&& forall|j: int|
                0 <= j < c.providers.len() ==> exists|i: int|
                    0 <= i < profiles.len() && (#[trigger] profiles[i]).provider == (
                    #[trigger] c.providers[j]).id
            &&& forall|i: int|
                0 <= i < profiles.len() ==> exists|j: int|
                    0 <= j < c.providers.len() && (#[trigger] c.providers[j]).id == (
                    #[trigger] profiles[i]).provider
            &&& forall|j: int, api: ModelApi|
                0 <= j < c.providers.len() ==> (#[trigger] c.providers[j].apis.contains(api)
                    <==> reached_by(profiles, c.providers[j].id, api))
            &&& forall|j: int|
                0 <= j < c.providers.len() ==> (#[trigger] c.providers[j]).apis.no_duplicates() && (
                c.providers[j].apis.len() > 1 ==> c.providers[j].apis
                    == seq![ModelApi::OpenAiResponses, ModelApi::OpenAiChatCompletions])
        }),
{
    let c = configured(file, keys)->Ok_0;
    let known = known_providers(file.providers@, keys)->Ok_0;
    let models = usable_models(file.models@, known, file.models@.len() as int)->Ok_0;
    let profiles = profiles_of(c.models);
    lemma_known_are_declared(file.providers@, keys);
    assert forall|i: int, j: int| 0 <= i < j < known.len() implies (#[trigger] known[i]).id != (
    #[trigger] known[j]).id by {
        assert(file.providers@[i].0@ != file.providers@[j].0@);
    }
    lemma_shown_providers_ascend(known, models);
    assert forall|j: int, api: ModelApi| 0 <= j < c.providers.len() implies (
    #[trigger] c.providers[j].apis.contains(api) <==> reached_by(
        profiles,
        c.providers[j].id,
        api,
    )) by {
        lemma_shown_apis(known, models, j);
        lemma_used_apis(models, c.providers[j].id);
        lemma_reached_by(models, c.providers[j].id, api);
    }
    assert forall|j: int| 0 <= j < c.providers.len() implies (
    #[trigger] c.providers[j]).apis.no_duplicates() && (c.providers[j].apis.len() > 1
        ==> c.providers[j].apis == seq![
        ModelApi::OpenAiResponses,
        ModelApi::OpenAiChatCompletions,
    ]) by {
        lemma_shown_apis(known, models, j);
        lemma_used_apis(models, c.providers[j].id);
    }
    assert forall|j: int| 0 <= j < c.providers.len() implies exists|i: int|
        0 <= i < profiles.len() && (#[trigger] profiles[i]).provider == (
        #[trigger] c.providers[j]).id by {
        lemma_shown_apis(known, models, j);
        let api = c.providers[j].apis[0];
        assert(c.providers[j].apis.contains(api));
        assert(reached_by(profiles, c.providers[j].id, api));
    }
    assert forall|i: int| 0 <= i < profiles.len() implies exists|j: int|
        0 <= j < c.providers.len() && (#[trigger] c.providers[j]).id == (
        #[trigger] profiles[i]).provider by {
        let m = c.models[i];
        assert(c.models.contains(m));
        lemma_sorted_models_hold(models, m);
        let k = choose|k: int| 0 <= k < models.len() && models[k] == m;
        lemma_usable_models_are_sound(file.models@, known, file.models@.len() as int, k);
        let at = choose|at: int|
            0 <= at < known.len() && (#[trigger] known[at]).id == m.profile.provider
                && known[at].settings is Some;
        assert(uses_api(models, m.profile.provider, m.profile.api)) by {
            assert(models[k].profile.provider == m.profile.provider);
        }
        lemma_used_apis(models, m.profile.provider);
        assert(used_apis(models, m.profile.provider).contains(m.profile.api));
        lemma_used_providers_are_shown(known, models, at);
    }
}

proof fn lemma_used_apis(models: Seq<UsableModel>, provider: Seq<char>)
    ensures
        forall|api: ModelApi| #[trigger]
            used_apis(models, provider).contains(api) <==> uses_api(models, provider, api),
        used_apis(models, provider).no_duplicates(),
        used_apis(models, provider).len() > 1 ==> used_apis(models, provider) == seq![
            ModelApi::OpenAiResponses,
            ModelApi::OpenAiChatCompletions,
        ],
{
    let all = used_apis(models, provider);
    assert forall|api: ModelApi| #[trigger] all.contains(api) <==> uses_api(
        models,
        provider,
        api,
    ) by {
        if uses_api(models, provider, api) {
            match api {
                ModelApi::OpenAiResponses => {
                    assert(all[0] == api);
                },
                ModelApi::OpenAiChatCompletions => {
                    assert(all[all.len() - 1] == api);
                },
            }
        }
    }
    assert(all.len() > 1 ==> all =~= seq![
        ModelApi::OpenAiResponses,
        ModelApi::OpenAiChatCompletions,
    ]);
}

} // verus!
