//! What the host application configures, and how its walks begin.

use vstd::prelude::*;
use crate::bridge::walk::fresh_walk;
use crate::bridge::walk::WalkSession;
use crate::harness::memory::Memory;
use crate::harness::memory::store::MemoryStore;
use crate::harness::providers::anthropic::AnthropicProvider;
use crate::harness::providers::anthropic::AnthropicProviderView;
use crate::harness::providers::anthropic::DEFAULT_BASE_URL;
use crate::notes::pipeline::workspace::WorkView;
use crate::notes::pipeline::live::LiveExtractor;
use crate::notes::pipeline::workspace::Workspace;
use crate::notes::store::sessions::started_with_template;
use crate::notes::store::sessions::str_option;
use crate::notes::store::StampView;
use crate::notes::store::Store;
use crate::text::concat2;
use crate::text::concat3;
use crate::text::text_eq;
use crate::views::option_view;

verus! {

/// What the host application hands over. The key must never be shown.
#[derive(Clone)]
pub struct EngineConfig {
    pub db_path: String,
    pub device_id: String,
    pub api_key: String,
    pub base_url: Option<String>,
    pub model_live: String,
    pub model_processing: String,
    pub model_reflection: String,
}

/// The mathematical counterpart of [`EngineConfig`].
pub struct EngineConfigView {
    pub db_path: Seq<char>,
    pub device_id: Seq<char>,
    pub api_key: Seq<char>,
    pub base_url: Option<Seq<char>>,
    pub model_live: Seq<char>,
    pub model_processing: Seq<char>,
    pub model_reflection: Seq<char>,
}

impl View for EngineConfig {
    type V = EngineConfigView;

    open spec fn view(&self) -> EngineConfigView {
        EngineConfigView {
            db_path: self.db_path@,
            device_id: self.device_id@,
            api_key: self.api_key@,
            base_url: option_view(self.base_url),
            model_live: self.model_live@,
            model_processing: self.model_processing@,
            model_reflection: self.model_reflection@,
        }
    }
}

/// The text that `{:?}` writes for a string: quoted and escaped.
pub uninterp spec fn quoted(s: Seq<char>) -> Seq<char>;

/// Formats a string with `std::fmt::Debug`, by `format!`. What is written
/// depends on the string alone.
#[verifier::external_body]
fn quote(s: &str) -> (r: String)
    ensures
        r@ == quoted(s@),
{
    format!("{:?}", s)
}

/// How an optional text is shown.
pub open spec fn quoted_option(s: Option<Seq<char>>) -> Seq<char> {
    match s {
        Some(t) => "Some("@ + quoted(t) + ")"@,
        None => "None"@,
    }
}

/// How a configuration is shown: everything but the key.
pub open spec fn config_text(c: EngineConfigView) -> Seq<char> {
    "EngineConfig { db_path: "@ + quoted(c.db_path) + ", device_id: "@ + quoted(c.device_id)
        + ", api_key: \"<redacted>\", base_url: "@ + quoted_option(c.base_url) + ", model_live: "@
        + quoted(c.model_live) + ", model_processing: "@ + quoted(c.model_processing)
        + ", model_reflection: "@ + quoted(c.model_reflection) + " }"@
}

/// What is shown of a configuration does not depend on the key.
pub proof fn law_shown_config_hides_the_key(c: EngineConfigView, other_key: Seq<char>)
    ensures
        config_text(c) == config_text(EngineConfigView { api_key: other_key, ..c }),
{
}

impl EngineConfig {
    /// The configuration for a log: everything but the key.
    pub fn debug_text(&self) -> (r: String)
        ensures
            r@ == config_text(self@),
    {
        let mut out = concat2("EngineConfig { db_path: ", quote(self.db_path.as_str()).as_str());
        out.append(", device_id: ");
        out.append(quote(self.device_id.as_str()).as_str());
        out.append(", api_key: \"<redacted>\", base_url: ");
        let base = match &self.base_url {
            Some(t) => concat3("Some(", quote(t.as_str()).as_str(), ")"),
            None => "None".to_string(),
        };
        out.append(base.as_str());
        out.append(", model_live: ");
        out.append(quote(self.model_live.as_str()).as_str());
        out.append(", model_processing: ");
        out.append(quote(self.model_processing.as_str()).as_str());
        out.append(", model_reflection: ");
        out.append(quote(self.model_reflection.as_str()).as_str());
        out.append(" }");
        out
    }
}

/// Which provider serves which purpose. Purposes with one model share one.
#[derive(Clone)]
pub struct Providers {
    pub list: Vec<AnthropicProvider>,
    /// Passes while a session is recording.
    pub live: usize,
    /// Processing at the end.
    pub processing: usize,
    /// Reflections.
    pub reflection: usize,
}

/// The provider for a model.
pub open spec fn provider_for(c: EngineConfigView, model: Seq<char>) -> AnthropicProviderView {
    AnthropicProviderView {
        api_key: c.api_key,
        model,
        base_url: match c.base_url {
            Some(url) => url,
            None => DEFAULT_BASE_URL@,
        },
    }
}

/// Every provider in the list belongs to the configuration, and no two to one
/// model.
pub open spec fn providers_distinct(c: EngineConfigView, list: Seq<AnthropicProvider>) -> bool {
    &&& forall|i: int|
        0 <= i < list.len() ==> (#[trigger] list[i])@ == provider_for(c, list[i]@.model)
    &&& forall|i: int, j: int|
        0 <= i < j < list.len() ==> (#[trigger] list[i])@.model != (#[trigger] list[j])@.model
}

/// Makes the provider for a model, unless there is one.
fn provider_index(config: &EngineConfig, list: &mut Vec<AnthropicProvider>, model: &str) -> (r:
    usize)
    requires
        providers_distinct(config@, old(list)@),
    ensures
        providers_distinct(config@, final(list)@),
        old(list)@.is_prefix_of(final(list)@),
        r < final(list).len(),
        final(list)@[r as int]@ == provider_for(config@, model@),
{
    let mut i: usize = 0;
    while i < list.len()
        invariant
            i <= list.len(),
            list@ == old(list)@,
            providers_distinct(config@, list@),
            forall|k: int| 0 <= k < i ==> (#[trigger] list@[k])@.model != model@,
        decreases list.len() - i,
    {
        if text_eq(list[i].model(), model) {
            assert(list@[i as int]@ == provider_for(config@, list@[i as int]@.model));
            return i;
        }
        i = i + 1;
    }
    let mut provider = AnthropicProvider::new(config.api_key.clone(), model.to_string());
    if let Some(base) = &config.base_url {
        provider = provider.with_base_url(base.clone());
    }
    list.push(provider);
    i
}

/// Makes the providers of a configuration, one for each model.
pub fn build_providers(config: &EngineConfig) -> (r: Providers)
    ensures
        providers_distinct(config@, r.list@),
        r.live < r.list.len(),
        r.processing < r.list.len(),
        r.reflection < r.list.len(),
        r.list@[r.live as int]@ == provider_for(config@, config@.model_live),
        r.list@[r.processing as int]@ == provider_for(config@, config@.model_processing),
        r.list@[r.reflection as int]@ == provider_for(config@, config@.model_reflection),
{
    let mut list: Vec<AnthropicProvider> = Vec::new();
    let live: usize = provider_index(config, &mut list, config.model_live.as_str());
    let processing: usize = provider_index(config, &mut list, config.model_processing.as_str());
    let reflection: usize = provider_index(config, &mut list, config.model_reflection.as_str());
    Providers { list, live, processing, reflection }
}

/// Purposes share a provider exactly when they share a model.
pub proof fn law_providers_are_shared_by_model(
    c: EngineConfigView,
    list: Seq<AnthropicProvider>,
    i: int,
    j: int,
)
    requires
        providers_distinct(c, list),
        0 <= i < list.len(),
        0 <= j < list.len(),
    ensures
        list[i]@.model == list[j]@.model <==> i == j,
{
}

/// Why a walk could not begin.
#[derive(Clone, Debug, PartialEq, Eq)]
pub enum EngineError {
    BeginWalk(String),
}

impl View for EngineError {
    type V = Seq<char>;

    open spec fn view(&self) -> Seq<char> {
        match self {
            EngineError::BeginWalk(reason) => reason@,
        }
    }
}

/// The core of the host application: one store and one memory, and the walks
/// over them.
pub struct MurmurEngine<M> {
    pub work: Workspace<M>,
    pub providers: Providers,
}

impl<M: MemoryStore> MurmurEngine<M> {
    /// Store and memory are in order.
    pub open spec fn wf(&self) -> bool {
        self.work.wf()
    }

    /// A core over these.
    pub fn with_providers(store: Store, memory: Memory, memory_store: M, providers: Providers) -> (r:
        MurmurEngine<M>)
        requires
            store.wf(),
            memory.wf(),
        ensures
            r.wf(),
            r.work@ == (WorkView {
                store: store@,
                memory: memory@,
                saves: memory_store.saves(),
            }),
            r.providers == providers,
    {
        MurmurEngine { work: Workspace { store, memory, memory_store }, providers }
    }

    /// Begins a walk: a new session with its template, both or neither.
    pub fn begin_walk(&mut self, job_id: Option<&str>, template: &str) -> (r: Result<
        WalkSession,
        EngineError,
    >)
        requires
            old(self).wf(),
        ensures
            final(self).wf(),
            final(self).providers == old(self).providers,
            final(self).work@.memory == old(self).work@.memory,
            final(self).work@.saves == old(self).work@.saves,
            exists|st: StampView| #[trigger]
                old(self).work@.store.gives(st) && match started_with_template(
                    old(self).work@.store,
                    str_option(job_id),
                    template@,
                    st,
                ) {
                    (v, Ok(session)) => final(self).work@.store == v && (r matches Ok(walk)
                        && walk@ == fresh_walk(session.id, template@)),
                    (v, Err(e)) => final(self).work@.store == v && (r matches Err(err) && err@
                        == e.message()),
                },
    {
        match self.work.store.start_session_with_template(job_id, template) {
            Ok(session) => {
                let extractor = LiveExtractor::new(session.id.as_str());
                Ok(WalkSession::new(session.id, extractor, Some(template.to_string())))
            },
            Err(e) => Err(EngineError::BeginWalk(e.to_text())),
        }
    }
}

} // verus!
