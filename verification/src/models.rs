//! Which model serves a request: the global one, or one of a tenant.

use crate::state;
use crate::state::{AppState, ChoiceView, MemoryEntry, ModelCapability, ModelChoice, ResolvedModel};
use crate::text;
use vstd::prelude::*;

verus! {

/// Where a model comes from.
#[derive(Debug)]
pub enum ModelSource<'a> {
    /// The model that the server was started with.
    Global,
    /// A model of a tenant.
    Tenant(&'a ResolvedModel),
}

/// Where a model comes from, over mathematical values.
pub enum SourceView {
    Global,
    Tenant(ChoiceView),
}

/// A tenant's model, over mathematical values.
pub open spec fn model_view(m: ResolvedModel) -> ChoiceView {
    ModelChoice::Model(m)@
}

impl<'a> View for ModelSource<'a> {
    type V = SourceView;

    open spec fn view(&self) -> SourceView {
        match self {
            ModelSource::Global => SourceView::Global,
            ModelSource::Tenant(m) => SourceView::Tenant(model_view(**m)),
        }
    }
}

/// The view of the choice of a source.
pub open spec fn source_view(r: Result<ModelSource<'_>, String>) -> Result<SourceView, Seq<char>> {
    match r {
        Ok(s) => Ok(s@),
        Err(e) => Err(e@),
    }
}

/// The view of a text or a reason.
pub open spec fn text_view(r: Result<String, String>) -> Result<Seq<char>, Seq<char>> {
    match r {
        Ok(s) => Ok(s@),
        Err(e) => Err(e@),
    }
}

// ── Embedding ───────────────────────────────────────────────────

/// The embedding model that a selector stands for.
pub open spec fn embedding_selected(
    s: AppState,
    tenant: Seq<char>,
    selector: Option<Seq<char>>,
) -> Result<Seq<char>, Seq<char>> {
    let wanted = text::filled_view(selector);
    if wanted == Some("default"@) {
        if s.embedder {
            Ok("default"@)
        } else {
            Err("Global embedding model is not configured"@)
        }
    } else {
        match state::choice(s.tenant_models@, tenant, ModelCapability::Embedding, wanted) {
            ChoiceView::Refused(reason) => Err(reason),
            ChoiceView::Model { id, .. } => Ok(id),
            ChoiceView::Unset => if wanted is None {
                Ok("default"@)
            } else {
                Err("Embedding model is not configured"@)
            },
        }
    }
}

/// The embedding model that a selector stands for. Without a selector it is the
/// tenant's default, or else the global one.
pub fn validate_tenant_embedding_selector(
    state: &AppState,
    tenant_id: &str,
    selector: Option<&str>,
) -> (r: Result<String, String>)
    ensures
        text_view(r) == embedding_selected(*state, tenant_id@, text::opt_str_view(selector)),
{
    let selector = text::filled(selector);
    if let Some(wanted) = selector {
        if text::same(wanted, "default") {
            if !state.embedder {
                return Err("Global embedding model is not configured".to_owned());
            }
            return Ok("default".to_owned());
        }
    }
    match state.resolve(tenant_id, ModelCapability::Embedding, selector) {
        Some(ModelChoice::Refused(reason)) => Err(reason.clone()),
        Some(ModelChoice::Model(model)) => Ok(model.id.clone()),
        _ => if selector.is_none() {
            Ok("default".to_owned())
        } else {
            Err("Embedding model is not configured".to_owned())
        },
    }
}

/// The embedding model that one knowledge base is bound to.
pub open spec fn kb_binding(s: AppState, id: Seq<char>) -> Result<Seq<char>, Seq<char>> {
    match s.kb(id) {
        None => Err("Knowledge base not found: "@ + id),
        Some(kb) => {
            let wanted = text::trimmed(kb.embd_id@);
            if wanted.len() == 0 || wanted == "default"@ {
                Ok("default"@)
            } else {
                match state::choice(
                    s.tenant_models@,
                    kb.owner_id@,
                    ModelCapability::Embedding,
                    Some(wanted),
                ) {
                    ChoiceView::Refused(reason) => Err(reason),
                    ChoiceView::Unset => Err("Embedding model is not configured: "@ + wanted),
                    ChoiceView::Model { id, .. } => Ok(id),
                }
            }
        },
    }
}

/// The binding that the knowledge bases share, given the one that those before them
/// share.
pub open spec fn shared_binding(
    s: AppState,
    ids: Seq<Seq<char>>,
    before: Option<Seq<char>>,
) -> Result<Option<Seq<char>>, Seq<char>>
    decreases ids.len(),
{
    if ids.len() == 0 {
        Ok(before)
    } else {
        match kb_binding(s, ids[0]) {
            Err(reason) => Err(reason),
            Ok(current) => if before is Some && before != Some(current) {
                Err("Knowledge bases use different embedding models"@)
            } else {
                shared_binding(s, ids.drop_first(), Some(current))
            },
        }
    }
}

/// The one embedding model of the knowledge bases.
pub open spec fn binding_of(s: AppState, ids: Seq<Seq<char>>) -> Result<Seq<char>, Seq<char>> {
    match shared_binding(s, ids, None) {
        Ok(Some(binding)) => Ok(binding),
        Ok(None) => Err("At least one knowledge base is required"@),
        Err(reason) => Err(reason),
    }
}

fn binding_of_kb(state: &AppState, kb_id: &str) -> (r: Result<String, String>)
    ensures
        text_view(r) == kb_binding(*state, kb_id@),
{
    let kb = match state.find_kb(kb_id) {
        Some(kb) => kb,
        None => {
            return Err(text::concat("Knowledge base not found: ", kb_id));
        },
    };
    let wanted = text::trim(kb.embd_id.as_str());
    if wanted.is_empty() || text::same(wanted, "default") {
        return Ok("default".to_owned());
    }
    match state.resolve(kb.owner_id.as_str(), ModelCapability::Embedding, Some(wanted)) {
        Some(ModelChoice::Refused(reason)) => Err(reason.clone()),
        Some(ModelChoice::Model(model)) => Ok(model.id.clone()),
        _ => Err(text::concat("Embedding model is not configured: ", wanted)),
    }
}

/// The one embedding model of the knowledge bases: they can be searched together only
/// where their vectors come from the same model.
pub fn validate_kb_embedding_bindings(state: &AppState, kb_ids: &Vec<String>) -> (r: Result<
    String,
    String,
>)
    ensures
        text_view(r) == binding_of(*state, text::views(kb_ids@)),
{
    let ghost ids = text::views(kb_ids@);
    let mut binding: Option<String> = None;
    let mut i: usize = 0;
    assert(ids.skip(0) =~= ids);
    while i < kb_ids.len()
        invariant
            i <= kb_ids@.len(),
            ids == text::views(kb_ids@),
            shared_binding(*state, ids, None) == shared_binding(
                *state,
                ids.skip(i as int),
                text::opt_view(binding),
            ),
        decreases kb_ids@.len() - i,
    {
        assert(ids.skip(i as int)[0] == kb_ids@[i as int]@);
        assert(ids.skip(i as int).drop_first() =~= ids.skip(i + 1));
        let current = match binding_of_kb(state, kb_ids[i].as_str()) {
            Ok(current) => current,
            Err(reason) => {
                return Err(reason);
            },
        };
        if let Some(before) = &binding {
            if !text::same(before.as_str(), current.as_str()) {
                return Err("Knowledge bases use different embedding models".to_owned());
            }
        }
        binding = Some(current);
        i += 1;
    }
    match binding {
        Some(binding) => Ok(binding),
        None => Err("At least one knowledge base is required".to_owned()),
    }
}

proof fn lemma_shared_binding(
    s: AppState,
    ids: Seq<Seq<char>>,
    before: Option<Seq<char>>,
    binding: Seq<char>,
)
    ensures
        shared_binding(s, ids, before) == Ok::<_, Seq<char>>(Some(binding)) <==> (ids.len() == 0
            ==> before == Some(binding)) && (before is Some ==> before == Some(binding)) && (forall|
            i: int,
        |
            0 <= i < ids.len() ==> kb_binding(s, #[trigger] ids[i]) == Ok::<_, Seq<char>>(
                binding,
            )),
    decreases ids.len(),
{
    if ids.len() > 0 {
        let rest = ids.drop_first();
        match kb_binding(s, ids[0]) {
            Ok(current) => {
                lemma_shared_binding(s, rest, Some(current), binding);
                assert forall|i: int| 0 <= i < rest.len() implies rest[i] == #[trigger] ids[i
                    + 1] by {}
                if forall|i: int|
                    0 <= i < rest.len() ==> kb_binding(s, #[trigger] rest[i]) == Ok::<_, Seq<char>>(
                        binding,
                    ) {
                    assert forall|i: int| 1 <= i < ids.len() implies kb_binding(s, #[trigger] ids[i])
                        == Ok::<_, Seq<char>>(binding) by {
                        assert(rest[i - 1] == ids[i]);
                    }
                }
            },
            Err(_) => {},
        }
    }
}

/// Knowledge bases share an embedding model exactly where there is one at least and
/// every single one of them is bound to that model.
pub proof fn binding_means_one_vector_space(s: AppState, ids: Seq<Seq<char>>, binding: Seq<char>)
    ensures
        binding_of(s, ids) == Ok::<_, Seq<char>>(binding) <==> ids.len() > 0 && forall|i: int|
            0 <= i < ids.len() ==> kb_binding(s, #[trigger] ids[i]) == Ok::<_, Seq<char>>(binding),
{
    lemma_shared_binding(s, ids, None, binding);
}

/// Which model embeds for the knowledge bases.
pub open spec fn embedder_of(s: AppState, ids: Seq<Seq<char>>) -> Result<SourceView, Seq<char>> {
    match binding_of(s, ids) {
        Err(reason) => Err(reason),
        Ok(binding) => if binding == "default"@ {
            if s.embedder {
                Ok(SourceView::Global)
            } else {
                Err("Embedding is not configured"@)
            }
        } else {
            match s.kb(ids[0]) {
                None => Err("Knowledge base not found: "@ + ids[0]),
                Some(kb) => match state::choice(
                    s.tenant_models@,
                    kb.owner_id@,
                    ModelCapability::Embedding,
                    Some(binding),
                ) {
                    ChoiceView::Refused(reason) => Err(reason),
                    ChoiceView::Unset => Err("Embedding is not configured: "@ + binding),
                    model => Ok(SourceView::Tenant(model)),
                },
            }
        },
    }
}

/// Which model embeds for the knowledge bases.
pub fn kb_embedder_for<'a>(state: &'a AppState, kb_ids: &Vec<String>) -> (r: Result<
    ModelSource<'a>,
    String,
>)
    ensures
        source_view(r) == embedder_of(*state, text::views(kb_ids@)),
{
    let binding = match validate_kb_embedding_bindings(state, kb_ids) {
        Ok(binding) => binding,
        Err(reason) => {
            return Err(reason);
        },
    };
    proof {
        binding_means_one_vector_space(*state, text::views(kb_ids@), binding@);
    }
    if text::same(binding.as_str(), "default") {
        if state.embedder {
            return Ok(ModelSource::Global);
        }
        return Err("Embedding is not configured".to_owned());
    }
    assert(text::views(kb_ids@)[0] == kb_ids@[0]@);
    let first = match state.find_kb(kb_ids[0].as_str()) {
        Some(first) => first,
        None => {
            return Err(text::concat("Knowledge base not found: ", kb_ids[0].as_str()));
        },
    };
    match state.resolve(
        first.owner_id.as_str(),
        ModelCapability::Embedding,
        Some(binding.as_str()),
    ) {
        Some(ModelChoice::Refused(reason)) => Err(reason.clone()),
        Some(ModelChoice::Model(model)) => Ok(ModelSource::Tenant(model)),
        _ => Err(text::concat("Embedding is not configured: ", binding.as_str())),
    }
}

// ── Vision ──────────────────────────────────────────────────────

/// How an image is described.
#[derive(Debug)]
pub struct VisionConfig {
    pub api_base: String,
    pub api_key: String,
    pub model: String,
    pub lang: String,
}

/// How an image is described, over mathematical values.
pub struct VisionView {
    pub api_base: Seq<char>,
    pub api_key: Seq<char>,
    pub model: Seq<char>,
    pub lang: Seq<char>,
}

impl View for VisionConfig {
    type V = VisionView;

    open spec fn view(&self) -> VisionView {
        VisionView {
            api_base: self.api_base@,
            api_key: self.api_key@,
            model: self.model@,
            lang: self.lang@,
        }
    }
}

/// The view of the choice of a vision model.
pub open spec fn vision_view(r: Result<Option<VisionConfig>, String>) -> Result<
    Option<VisionView>,
    Seq<char>,
> {
    match r {
        Ok(Some(v)) => Ok(Some(v@)),
        Ok(None) => Ok(None),
        Err(e) => Err(e@),
    }
}

/// Which model describes the images of the first knowledge base.
pub open spec fn vision_of(s: AppState, ids: Seq<Seq<char>>) -> Result<
    Option<VisionView>,
    Seq<char>,
> {
    if ids.len() == 0 {
        Ok(None)
    } else {
        match s.kb(ids[0]) {
            None => Err("Knowledge base not found: "@ + ids[0]),
            Some(kb) => match state::choice(
                s.tenant_models@,
                kb.owner_id@,
                ModelCapability::ImageToText,
                None,
            ) {
                ChoiceView::Refused(reason) => Err(reason),
                ChoiceView::Unset => Ok(None),
                ChoiceView::Model { model_name, api_base, api_key, .. } => Ok(
                    Some(
                        VisionView {
                            api_base,
                            api_key: match api_key {
                                Some(key) => key,
                                None => Seq::empty(),
                            },
                            model: model_name,
                            lang: "Chinese"@,
                        },
                    ),
                ),
            },
        }
    }
}

/// Which model describes the images of the first knowledge base. Without one, images
/// are parsed without a description.
pub fn kb_vision_for(state: &AppState, kb_ids: &Vec<String>) -> (r: Result<
    Option<VisionConfig>,
    String,
>)
    ensures
        vision_view(r) == vision_of(*state, text::views(kb_ids@)),
{
    if kb_ids.len() == 0 {
        return Ok(None);
    }
    assert(text::views(kb_ids@)[0] == kb_ids@[0]@);
    let kb = match state.find_kb(kb_ids[0].as_str()) {
        Some(kb) => kb,
        None => {
            return Err(text::concat("Knowledge base not found: ", kb_ids[0].as_str()));
        },
    };
    match state.resolve(kb.owner_id.as_str(), ModelCapability::ImageToText, None) {
        Some(ModelChoice::Refused(reason)) => Err(reason.clone()),
        Some(ModelChoice::Model(model)) => {
            let api_key = match &model.api_key {
                Some(key) => key.clone(),
                None => String::new(),
            };
            Ok(
                Some(
                    VisionConfig {
                        api_base: model.api_base.clone(),
                        api_key,
                        model: model.model_name.clone(),
                        lang: "Chinese".to_owned(),
                    },
                ),
            )
        },
        _ => Ok(None),
    }
}

// ── Reranking ───────────────────────────────────────────────────

/// The model that a selector chooses for reranking in one knowledge base.
pub open spec fn kb_reranker(s: AppState, id: Seq<char>, wanted: Seq<char>) -> Result<
    ChoiceView,
    Seq<char>,
> {
    match s.kb(id) {
        None => Err("Knowledge base not found: "@ + id),
        Some(kb) => match state::choice(
            s.tenant_models@,
            kb.owner_id@,
            ModelCapability::Rerank,
            Some(wanted),
        ) {
            ChoiceView::Refused(reason) => Err(reason),
            ChoiceView::Unset => Err("Rerank model is not configured: "@ + wanted),
            model => Ok(model),
        },
    }
}

/// The reranker of the first knowledge base, where all the others choose a model with
/// the same id; `first` is what those before them chose first, `before` the id of the
/// last.
pub open spec fn shared_reranker(
    s: AppState,
    ids: Seq<Seq<char>>,
    wanted: Seq<char>,
    first: Option<ChoiceView>,
    before: Option<Seq<char>>,
) -> Result<Option<ChoiceView>, Seq<char>>
    decreases ids.len(),
{
    if ids.len() == 0 {
        Ok(first)
    } else {
        match kb_reranker(s, ids[0], wanted) {
            Err(reason) => Err(reason),
            Ok(model) => if before is Some && before != Some(model->id) {
                Err("Knowledge bases use different reranking models"@)
            } else {
                shared_reranker(
                    s,
                    ids.drop_first(),
                    wanted,
                    match first {
                        Some(chosen) => Some(chosen),
                        None => Some(model),
                    },
                    Some(model->id),
                )
            },
        }
    }
}

/// Which model reranks for the knowledge bases.
pub open spec fn reranker_of(
    s: AppState,
    ids: Seq<Seq<char>>,
    selector: Option<Seq<char>>,
) -> Result<Option<SourceView>, Seq<char>> {
    match text::filled_view(selector) {
        None => Ok(
            if s.reranker {
                Some(SourceView::Global)
            } else {
                None
            },
        ),
        Some(wanted) => match shared_reranker(s, ids, wanted, None, None) {
            Err(reason) => Err(reason),
            Ok(Some(model)) => Ok(Some(SourceView::Tenant(model))),
            Ok(None) => Err("At least one knowledge base is required"@),
        },
    }
}

/// The view of the choice of a reranker.
pub open spec fn reranker_view(r: Result<Option<ModelSource<'_>>, String>) -> Result<
    Option<SourceView>,
    Seq<char>,
> {
    match r {
        Ok(Some(s)) => Ok(Some(s@)),
        Ok(None) => Ok(None),
        Err(e) => Err(e@),
    }
}

/// Which model reranks for the knowledge bases. Without a selector it is the global
/// reranker, where there is one.
pub fn kb_reranker_for<'a>(
    state: &'a AppState,
    kb_ids: &Vec<String>,
    selector: Option<&str>,
) -> (r: Result<Option<ModelSource<'a>>, String>)
    ensures
        reranker_view(r) == reranker_of(
            *state,
            text::views(kb_ids@),
            text::opt_str_view(selector),
        ),
{
    let wanted = match text::filled(selector) {
        Some(wanted) => wanted,
        None => {
            if state.reranker {
                return Ok(Some(ModelSource::Global));
            }
            return Ok(None);
        },
    };
    let ghost ids = text::views(kb_ids@);
    let mut chosen: Option<&'a ResolvedModel> = None;
    let mut before: Option<String> = None;
    let mut i: usize = 0;
    assert(ids.skip(0) =~= ids);
    while i < kb_ids.len()
        invariant
            i <= kb_ids@.len(),
            ids == text::views(kb_ids@),
            text::filled_view(text::opt_str_view(selector)) == Some(wanted@),
            shared_reranker(*state, ids, wanted@, None, None) == shared_reranker(
                *state,
                ids.skip(i as int),
                wanted@,
                match chosen {
                    Some(m) => Some(model_view(*m)),
                    None => None,
                },
                text::opt_view(before),
            ),
        decreases kb_ids@.len() - i,
    {
        assert(ids.skip(i as int)[0] == kb_ids@[i as int]@);
        assert(ids.skip(i as int).drop_first() =~= ids.skip(i + 1));
        let kb = match state.find_kb(kb_ids[i].as_str()) {
            Some(kb) => kb,
            None => {
                return Err(text::concat("Knowledge base not found: ", kb_ids[i].as_str()));
            },
        };
        let model = match state.resolve(
            kb.owner_id.as_str(),
            ModelCapability::Rerank,
            Some(wanted),
        ) {
            Some(ModelChoice::Refused(reason)) => {
                return Err(reason.clone());
            },
            Some(ModelChoice::Model(model)) => model,
            _ => {
                return Err(text::concat("Rerank model is not configured: ", wanted));
            },
        };
        if let Some(last) = &before {
            if !text::same(last.as_str(), model.id.as_str()) {
                return Err("Knowledge bases use different reranking models".to_owned());
            }
        }
        before = Some(model.id.clone());
        if chosen.is_none() {
            chosen = Some(model);
        }
        i += 1;
    }
    match chosen {
        Some(model) => Ok(Some(ModelSource::Tenant(model))),
        None => Err("At least one knowledge base is required".to_owned()),
    }
}

proof fn lemma_shared_reranker(
    s: AppState,
    ids: Seq<Seq<char>>,
    wanted: Seq<char>,
    first: Option<ChoiceView>,
    before: Option<Seq<char>>,
)
    requires
        first is Some <==> before is Some,
        first is Some ==> before == Some(first->Some_0->id),
    ensures
        shared_reranker(s, ids, wanted, first, before) matches Ok(Some(model)) ==> (forall|i: int|
            0 <= i < ids.len() ==> kb_reranker(s, #[trigger] ids[i], wanted) is Ok && kb_reranker(
                s,
                ids[i],
                wanted,
            )->Ok_0->id == model->id) && (first is Some ==> model == first->Some_0) && (first is None
            ==> ids.len() > 0 && kb_reranker(s, ids[0], wanted) == Ok::<_, Seq<char>>(model)),
    decreases ids.len(),
{
    if ids.len() > 0 {
        match kb_reranker(s, ids[0], wanted) {
            Ok(model) => {
                let now = match first {
                    Some(chosen) => Some(chosen),
                    None => Some(model),
                };
                if !(before is Some && before != Some(model->id)) {
                    let rest = ids.drop_first();
                    lemma_shared_reranker(s, rest, wanted, now, Some(model->id));
                    assert forall|i: int| 1 <= i < ids.len() implies #[trigger] ids[i] == rest[i
                        - 1] by {}
                }
            },
            Err(_) => {},
        }
    }
}

/// A reranker that is chosen by a selector is the one of the first knowledge base,
/// and every other knowledge base chooses a model with the same id.
pub proof fn reranker_means_one_model(s: AppState, ids: Seq<Seq<char>>, selector: Seq<char>)
    requires
        text::trimmed(selector).len() > 0,
    ensures
        reranker_of(s, ids, Some(selector)) matches Ok(source) ==> ids.len() > 0 && kb_reranker(
            s,
            ids[0],
            text::trimmed(selector),
        ) is Ok && source == Some(
            SourceView::Tenant(kb_reranker(s, ids[0], text::trimmed(selector))->Ok_0),
        ) && forall|i: int|
            0 <= i < ids.len() ==> kb_reranker(s, #[trigger] ids[i], text::trimmed(selector)) is Ok
                && kb_reranker(s, ids[i], text::trimmed(selector))->Ok_0->id == kb_reranker(
                s,
                ids[0],
                text::trimmed(selector),
            )->Ok_0->id,
{
    lemma_shared_reranker(s, ids, text::trimmed(selector), None, None);
}

// ── Memories ────────────────────────────────────────────────────

/// Which model extracts memories.
pub open spec fn memory_llm_of(s: AppState, memory: MemoryEntry) -> Result<SourceView, Seq<char>> {
    if text::trimmed(memory.llm_id@).len() == 0 || memory.llm_id@ == "default"@ {
        if s.llm {
            Ok(SourceView::Global)
        } else {
            Err("Global chat model is not configured"@)
        }
    } else {
        match state::choice(
            s.tenant_models@,
            memory.tenant_id@,
            ModelCapability::Chat,
            Some(memory.llm_id@),
        ) {
            ChoiceView::Model { id, model_name, api_base, api_key } => Ok(
                SourceView::Tenant(ChoiceView::Model { id, model_name, api_base, api_key }),
            ),
            _ => match state::choice(
                s.tenant_models@,
                memory.tenant_id@,
                ModelCapability::ImageToText,
                Some(memory.llm_id@),
            ) {
                ChoiceView::Refused(reason) => Err(reason),
                ChoiceView::Unset => Err(
                    "Chat or image2text model is not configured: "@ + memory.llm_id@,
                ),
                model => Ok(SourceView::Tenant(model)),
            },
        }
    }
}

/// Which model extracts memories: a chat model, or else one that also sees images.
pub fn memory_llm_for<'a>(state: &'a AppState, memory: &MemoryEntry) -> (r: Result<
    ModelSource<'a>,
    String,
>)
    ensures
        source_view(r) == memory_llm_of(*state, *memory),
{
    let wanted = memory.llm_id.as_str();
    if text::is_blank(wanted) || text::same(wanted, "default") {
        if state.llm {
            return Ok(ModelSource::Global);
        }
        return Err("Global chat model is not configured".to_owned());
    }
    if let Some(ModelChoice::Model(model)) = state.resolve(
        memory.tenant_id.as_str(),
        ModelCapability::Chat,
        Some(wanted),
    ) {
        return Ok(ModelSource::Tenant(model));
    }
    match state.resolve(memory.tenant_id.as_str(), ModelCapability::ImageToText, Some(wanted)) {
        Some(ModelChoice::Refused(reason)) => Err(reason.clone()),
        Some(ModelChoice::Model(model)) => Ok(ModelSource::Tenant(model)),
        _ => Err(text::concat("Chat or image2text model is not configured: ", wanted)),
    }
}

// ── Laws ────────────────────────────────────────────────────────

/// Without a selector, or with a blank one, a tenant's default embedding model is taken,
/// and the global one where the tenant has none. `default` asks for the global model,
/// which has to be there. Any other selector has to stand for a model of the tenant.
pub proof fn embedding_selectors_stand_for_models(
    state: AppState,
    tenant_id: &str,
    selector: Option<&str>,
    r: Result<String, String>,
)
    requires
        call_ensures(validate_tenant_embedding_selector, (&state, tenant_id, selector), r),
    ensures
        (selector is None || text::trimmed(selector->Some_0@).len() == 0) ==> match state::choice(
            state.tenant_models@,
            tenant_id@,
            ModelCapability::Embedding,
            None,
        ) {
            ChoiceView::Model { id, .. } => r matches Ok(model) && model@ == id,
            ChoiceView::Unset => r matches Ok(model) && model@ == "default"@,
            ChoiceView::Refused(reason) => r matches Err(e) && e@ == reason,
        },
        selector matches Some(s) ==> text::trimmed(s@) == "default"@ ==> if state.embedder {
            r matches Ok(model) && model@ == "default"@
        } else {
            r matches Err(e) && e@ == "Global embedding model is not configured"@
        },
        selector matches Some(s) ==> text::trimmed(s@).len() > 0 && text::trimmed(s@) != "default"@
            ==> match state::choice(
            state.tenant_models@,
            tenant_id@,
            ModelCapability::Embedding,
            Some(text::trimmed(s@)),
        ) {
            ChoiceView::Model { id, .. } => r matches Ok(model) && model@ == id,
            ChoiceView::Unset => r matches Err(e) && e@ == "Embedding model is not configured"@,
            ChoiceView::Refused(reason) => r matches Err(e) && e@ == reason,
        },
{
    reveal_strlit("default");
}

/// A knowledge base is bound to the global model where it names none or `default`, and
/// else to the model that its owner has under the name.
pub proof fn bases_are_bound_by_their_owners(s: AppState, id: Seq<char>, kb: state::KnowledgeBase)
    ensures
        s.kb(id) is None ==> kb_binding(s, id) == Err::<Seq<char>, _>(
            "Knowledge base not found: "@ + id,
        ),
        s.kb(id) == Some(kb) && (text::trimmed(kb.embd_id@).len() == 0 || text::trimmed(kb.embd_id@)
            == "default"@) ==> kb_binding(s, id) == Ok::<_, Seq<char>>("default"@),
        s.kb(id) == Some(kb) && text::trimmed(kb.embd_id@).len() > 0 && text::trimmed(kb.embd_id@)
            != "default"@ ==> match state::choice(
            s.tenant_models@,
            kb.owner_id@,
            ModelCapability::Embedding,
            Some(text::trimmed(kb.embd_id@)),
        ) {
            ChoiceView::Model { id: model, .. } => kb_binding(s, id) == Ok::<_, Seq<char>>(model),
            ChoiceView::Unset => kb_binding(s, id) == Err::<Seq<char>, _>(
                "Embedding model is not configured: "@ + text::trimmed(kb.embd_id@),
            ),
            ChoiceView::Refused(reason) => kb_binding(s, id) == Err::<Seq<char>, _>(reason),
        },
{
}

proof fn lemma_binding_fails(
    s: AppState,
    ids: Seq<Seq<char>>,
    before: Option<Seq<char>>,
    binding: Seq<char>,
    i: int,
)
    requires
        0 <= i < ids.len(),
        before is Some ==> before == Some(binding),
        forall|k: int| 0 <= k < i ==> kb_binding(s, #[trigger] ids[k]) == Ok::<_, Seq<char>>(binding),
    ensures
        kb_binding(s, ids[i]) matches Err(reason) ==> shared_binding(s, ids, before) == Err::<
            Option<Seq<char>>,
            _,
        >(reason),
        kb_binding(s, ids[i]) is Ok && kb_binding(s, ids[i])->Ok_0 != binding && (i > 0 || before
            is Some) ==> shared_binding(s, ids, before) == Err::<Option<Seq<char>>, _>(
            "Knowledge bases use different embedding models"@,
        ),
    decreases ids.len(),
{
    if i > 0 {
        assert(kb_binding(s, ids[0]) == Ok::<_, Seq<char>>(binding));
        let rest = ids.drop_first();
        assert forall|k: int| 0 <= k < i - 1 implies kb_binding(s, #[trigger] rest[k]) == Ok::<
            _,
            Seq<char>,
        >(binding) by {
            assert(rest[k] == ids[k + 1]);
        }
        assert(rest[i - 1] == ids[i]);
        lemma_binding_fails(s, rest, Some(binding), binding, i - 1);
    }
}

/// Knowledge bases are searched together where all of them are bound to one model. The
/// first that is bound to none says why; one that is bound to another model than those
/// before it spoils the search; and there has to be one.
pub proof fn bases_are_searched_in_one_vector_space(
    state: AppState,
    kb_ids: Vec<String>,
    r: Result<String, String>,
    binding: Seq<char>,
    i: int,
)
    requires
        call_ensures(validate_kb_embedding_bindings, (&state, &kb_ids), r),
    ensures
        kb_ids@.len() == 0 ==> (r matches Err(e) && e@ == "At least one knowledge base is required"@),
        kb_ids@.len() > 0 && (forall|k: int|
            0 <= k < kb_ids@.len() ==> kb_binding(state, (#[trigger] kb_ids@[k])@) == Ok::<
                _,
                Seq<char>,
            >(binding)) ==> (r matches Ok(b) && b@ == binding),
        0 <= i < kb_ids@.len() && (forall|k: int|
            0 <= k < i ==> kb_binding(state, (#[trigger] kb_ids@[k])@) == Ok::<_, Seq<char>>(
                binding,
            )) ==> match kb_binding(state, kb_ids@[i]@) {
            Err(reason) => r matches Err(e) && e@ == reason,
            Ok(other) => other != binding && i > 0 ==> (r matches Err(e) && e@
                == "Knowledge bases use different embedding models"@),
        },
{
    let ids = text::views(kb_ids@);
    assert forall|k: int| 0 <= k < ids.len() implies #[trigger] ids[k] == kb_ids@[k]@ by {}
    if kb_ids@.len() > 0 && (forall|k: int|
        0 <= k < kb_ids@.len() ==> kb_binding(state, (#[trigger] kb_ids@[k])@) == Ok::<_, Seq<char>>(
            binding,
        )) {
        assert forall|k: int| 0 <= k < ids.len() implies kb_binding(state, #[trigger] ids[k]) == Ok::<
            _,
            Seq<char>,
        >(binding) by {
            assert(ids[k] == kb_ids@[k]@);
        }
        binding_means_one_vector_space(state, ids, binding);
    }
    if 0 <= i < kb_ids@.len() && (forall|k: int|
        0 <= k < i ==> kb_binding(state, (#[trigger] kb_ids@[k])@) == Ok::<_, Seq<char>>(binding)) {
        assert forall|k: int| 0 <= k < i implies kb_binding(state, #[trigger] ids[k]) == Ok::<
            _,
            Seq<char>,
        >(binding) by {
            assert(ids[k] == kb_ids@[k]@);
        }
        lemma_binding_fails(state, ids, None, binding, i);
    }
}

/// Vectors come from the model that the knowledge bases share: the global one, which has
/// to be there, or the one of the owner of the first of them.
pub proof fn vectors_come_from_the_shared_model(
    state: AppState,
    kb_ids: Vec<String>,
    bound: Result<String, String>,
    r: Result<ModelSource<'static>, String>,
    kb: state::KnowledgeBase,
)
    requires
        call_ensures(validate_kb_embedding_bindings, (&state, &kb_ids), bound),
        call_ensures(kb_embedder_for, (&state, &kb_ids), r),
    ensures
        bound matches Err(reason) ==> (r matches Err(e) && e@ == reason@),
        bound matches Ok(model) ==> model@ == "default"@ ==> if state.embedder {
            r matches Ok(ModelSource::Global)
        } else {
            r matches Err(e) && e@ == "Embedding is not configured"@
        },
        bound matches Ok(model) ==> model@ != "default"@ && state.kb(kb_ids@[0]@) == Some(kb)
            ==> match state::choice(
            state.tenant_models@,
            kb.owner_id@,
            ModelCapability::Embedding,
            Some(model@),
        ) {
            ChoiceView::Refused(reason) => r matches Err(e) && e@ == reason,
            ChoiceView::Unset => r matches Err(e) && e@ == "Embedding is not configured: "@ + model@,
            chosen => r matches Ok(ModelSource::Tenant(m)) && model_view(*m) == chosen,
        },
{
    let ids = text::views(kb_ids@);
    if kb_ids@.len() > 0 {
        assert(ids[0] == kb_ids@[0]@);
    }
    if bound is Ok {
        assert(ids.len() > 0);
    }
}

/// Images are described by the default image model of the owner of the first knowledge
/// base, in Chinese; without such a model they are not described.
pub proof fn images_are_described_by_the_owners_model(
    state: AppState,
    kb_ids: Vec<String>,
    r: Result<Option<VisionConfig>, String>,
    kb: state::KnowledgeBase,
)
    requires
        call_ensures(kb_vision_for, (&state, &kb_ids), r),
    ensures
        kb_ids@.len() == 0 ==> r matches Ok(None),
        kb_ids@.len() > 0 && state.kb(kb_ids@[0]@) is None ==> (r matches Err(e) && e@
            == "Knowledge base not found: "@ + kb_ids@[0]@),
        kb_ids@.len() > 0 && state.kb(kb_ids@[0]@) == Some(kb) ==> match state::choice(
            state.tenant_models@,
            kb.owner_id@,
            ModelCapability::ImageToText,
            None,
        ) {
            ChoiceView::Refused(reason) => r matches Err(e) && e@ == reason,
            ChoiceView::Unset => r matches Ok(None),
            ChoiceView::Model { model_name, api_base, api_key, .. } => r matches Ok(Some(v))
                && v.model@ == model_name && v.api_base@ == api_base && v.lang@ == "Chinese"@ && (
            api_key matches Some(key) ==> v.api_key@ == key) && (api_key is None ==> v.api_key@.len()
                == 0),
        },
{
    if kb_ids@.len() > 0 {
        assert(text::views(kb_ids@)[0] == kb_ids@[0]@);
    }
}

/// A base reranks with the model that its owner has under the name.
pub proof fn bases_rerank_with_their_owners_model(
    s: AppState,
    id: Seq<char>,
    wanted: Seq<char>,
    kb: state::KnowledgeBase,
)
    ensures
        s.kb(id) is None ==> kb_reranker(s, id, wanted) == Err::<ChoiceView, _>(
            "Knowledge base not found: "@ + id,
        ),
        s.kb(id) == Some(kb) ==> match state::choice(
            s.tenant_models@,
            kb.owner_id@,
            ModelCapability::Rerank,
            Some(wanted),
        ) {
            ChoiceView::Refused(reason) => kb_reranker(s, id, wanted) == Err::<ChoiceView, _>(reason),
            ChoiceView::Unset => kb_reranker(s, id, wanted) == Err::<ChoiceView, _>(
                "Rerank model is not configured: "@ + wanted,
            ),
            model => kb_reranker(s, id, wanted) == Ok::<_, Seq<char>>(model),
        },
{
}

proof fn lemma_reranker_spoiled(
    s: AppState,
    ids: Seq<Seq<char>>,
    wanted: Seq<char>,
    first: Option<ChoiceView>,
    before: Option<Seq<char>>,
    model: Seq<char>,
    i: int,
)
    requires
        0 <= i <= ids.len(),
        first is Some <==> before is Some,
        before is Some ==> before == Some(model),
        forall|k: int|
            0 <= k < i ==> kb_reranker(s, #[trigger] ids[k], wanted) is Ok && kb_reranker(
                s,
                ids[k],
                wanted,
            )->Ok_0->id == model,
    ensures
        i < ids.len() ==> match kb_reranker(s, ids[i], wanted) {
            Err(reason) => shared_reranker(s, ids, wanted, first, before) == Err::<
                Option<ChoiceView>,
                _,
            >(reason),
            Ok(other) => other->id != model && (i > 0 || before is Some) ==> shared_reranker(
                s,
                ids,
                wanted,
                first,
                before,
            ) == Err::<Option<ChoiceView>, _>("Knowledge bases use different reranking models"@),
        },
        i == ids.len() && first is Some ==> shared_reranker(s, ids, wanted, first, before) == Ok::<
            _,
            Seq<char>,
        >(first),
        i == ids.len() && i > 0 && first is None ==> shared_reranker(s, ids, wanted, first, before)
            == Ok::<_, Seq<char>>(Some(kb_reranker(s, ids[0], wanted)->Ok_0)),
    decreases ids.len(),
{
    if i > 0 {
        assert(kb_reranker(s, ids[0], wanted) is Ok);
        let rest = ids.drop_first();
        assert forall|k: int| 0 <= k < i - 1 implies kb_reranker(s, #[trigger] rest[k], wanted) is Ok
            && kb_reranker(s, rest[k], wanted)->Ok_0->id == model by {
            assert(rest[k] == ids[k + 1]);
        }
        if i < ids.len() {
            assert(rest[i - 1] == ids[i]);
        }
        let chosen = match first {
            Some(c) => Some(c),
            None => Some(kb_reranker(s, ids[0], wanted)->Ok_0),
        };
        lemma_reranker_spoiled(s, rest, wanted, chosen, Some(model), model, i - 1);
    }
}

/// Without a selector, or with a blank one, the global reranker is taken where there is
/// one. A selector has to stand for one and the same model in every knowledge base.
pub proof fn rerankers_are_chosen_by_their_selector(
    state: AppState,
    kb_ids: Vec<String>,
    selector: Option<&str>,
    r: Result<Option<ModelSource<'static>>, String>,
    model: Seq<char>,
    i: int,
)
    requires
        call_ensures(kb_reranker_for, (&state, &kb_ids, selector), r),
    ensures
        selector is None || text::trimmed(selector->Some_0@).len() == 0 ==> if state.reranker {
            r matches Ok(Some(ModelSource::Global))
        } else {
            r matches Ok(None)
        },
        selector matches Some(s) ==> text::trimmed(s@).len() > 0 ==> {
            let wanted = text::trimmed(s@);
            let agree = |n: int|
                forall|k: int|
                    0 <= k < n ==> kb_reranker(state, (#[trigger] kb_ids@[k])@, wanted) is Ok
                        && kb_reranker(state, kb_ids@[k]@, wanted)->Ok_0->id == model;
            &&& kb_ids@.len() == 0 ==> (r matches Err(e) && e@
                == "At least one knowledge base is required"@)
            &&& kb_ids@.len() > 0 && agree(kb_ids@.len() as int) ==> (r matches Ok(
                Some(ModelSource::Tenant(m)),
            ) && Ok::<_, Seq<char>>(model_view(*m)) == kb_reranker(state, kb_ids@[0]@, wanted))
            &&& 0 <= i < kb_ids@.len() && agree(i) ==> match kb_reranker(
                state,
                kb_ids@[i]@,
                wanted,
            ) {
                Err(reason) => r matches Err(e) && e@ == reason,
                Ok(other) => other->id != model && i > 0 ==> (r matches Err(e) && e@
                    == "Knowledge bases use different reranking models"@),
            }
        },
{
    let ids = text::views(kb_ids@);
    if selector is Some && text::trimmed(selector->Some_0@).len() > 0 {
        let wanted = text::trimmed(selector->Some_0@);
        let agree = |n: int|
            forall|k: int|
                0 <= k < n ==> kb_reranker(state, (#[trigger] kb_ids@[k])@, wanted) is Ok
                    && kb_reranker(state, kb_ids@[k]@, wanted)->Ok_0->id == model;
        let n = kb_ids@.len() as int;
        if agree(n) {
            assert forall|k: int| 0 <= k < n implies kb_reranker(state, #[trigger] ids[k], wanted) is Ok
                && kb_reranker(state, ids[k], wanted)->Ok_0->id == model by {
                assert(ids[k] == kb_ids@[k]@);
            }
            lemma_reranker_spoiled(state, ids, wanted, None, None, model, n);
        }
        if 0 <= i < n && agree(i) {
            assert forall|k: int| 0 <= k < i implies kb_reranker(state, #[trigger] ids[k], wanted) is Ok
                && kb_reranker(state, ids[k], wanted)->Ok_0->id == model by {
                assert(ids[k] == kb_ids@[k]@);
            }
            assert(ids[i] == kb_ids@[i]@);
            lemma_reranker_spoiled(state, ids, wanted, None, None, model, i);
        }
    }
}

/// A memory that names no model, or `default`, is distilled by the global chat model,
/// which has to be there; any other by the chat model that its tenant has under the
/// name, or else by the image model with the name.
pub proof fn memories_are_distilled_by_their_model(
    state: AppState,
    memory: MemoryEntry,
    r: Result<ModelSource<'static>, String>,
)
    requires
        call_ensures(memory_llm_for, (&state, &memory), r),
    ensures
        text::trimmed(memory.llm_id@).len() == 0 || memory.llm_id@ == "default"@ ==> if state.llm {
            r matches Ok(ModelSource::Global)
        } else {
            r matches Err(e) && e@ == "Global chat model is not configured"@
        },
        text::trimmed(memory.llm_id@).len() > 0 && memory.llm_id@ != "default"@ ==> {
            let chat = state::choice(
                state.tenant_models@,
                memory.tenant_id@,
                ModelCapability::Chat,
                Some(memory.llm_id@),
            );
            let image = state::choice(
                state.tenant_models@,
                memory.tenant_id@,
                ModelCapability::ImageToText,
                Some(memory.llm_id@),
            );
            if chat is Model {
                r matches Ok(ModelSource::Tenant(m)) && model_view(*m) == chat
            } else if image is Model {
                r matches Ok(ModelSource::Tenant(m)) && model_view(*m) == image
            } else if image is Refused {
                r matches Err(e) && e@ == image->Refused_0
            } else {
                r matches Err(e) && e@ == "Chat or image2text model is not configured: "@
                    + memory.llm_id@
            }
        },
{
}

} // verus!
