use rayrag_server::json::Json;
use rayrag_server::models::{
    kb_embedder_for, kb_reranker_for, kb_vision_for, memory_llm_for,
    validate_kb_embedding_bindings, validate_tenant_embedding_selector, ModelSource,
};
use rayrag_server::state::{
    AppState, KnowledgeBase, MemoryEntry, ModelCapability, ModelChoice, ModelRow, ResolvedModel,
};

fn kb(id: &str, embd_id: &str) -> KnowledgeBase {
    KnowledgeBase {
        id: id.into(),
        owner_id: "test-user".into(),
        permission: "me".into(),
        embd_id: embd_id.into(),
        parser_config: "{}".into(),
        prompt_config: Json::Null,
        chunk_count: 0,
        doc_count: 0,
    }
}

fn model(name: &str) -> ResolvedModel {
    ResolvedModel {
        id: format!("minimax/primary/{name}"),
        model_name: name.into(),
        api_base: "https://models.example".into(),
        api_key: None,
    }
}

fn row(capability: ModelCapability, selector: Option<&str>, choice: ModelChoice) -> ModelRow {
    ModelRow {
        tenant_id: "test-user".into(),
        capability,
        selector: selector.map(|s| s.to_string()),
        choice,
    }
}

fn embedding(selector: &str, name: &str) -> ModelRow {
    row(ModelCapability::Embedding, Some(selector), ModelChoice::Model(model(name)))
}

fn state(kbs: Vec<KnowledgeBase>, tenant_models: Vec<ModelRow>) -> AppState {
    AppState {
        static_dir: String::new(),
        port: 9380,
        users: Vec::new(),
        kbs,
        tenants: Vec::new(),
        llm: false,
        embedder: false,
        reranker: false,
        index_path: String::new(),
        model_path: String::new(),
        max_upload_bytes: 1024,
        docs: Vec::new(),
        search_apps: None,
        tenant_models,
        memories: Vec::new(),
        register_enabled: 1,
        disable_password_login: false,
    }
}

fn ids(list: &[&str]) -> Vec<String> {
    list.iter().map(|s| s.to_string()).collect()
}

fn memory(llm_id: &str) -> MemoryEntry {
    MemoryEntry {
        id: "memory".into(),
        tenant_id: "test-user".into(),
        llm_id: llm_id.into(),
        memory_type: Vec::new(),
        memory_size: 0,
        forgetting_policy: "FIFO".into(),
    }
}

#[test]
fn kb_embedding_selector_requires_one_vector_space_and_supports_legacy_default() {
    let mut s = state(
        vec![
            kb("first", "minimax/primary/embed-a"),
            kb("second", "minimax/primary/embed-b"),
            kb("legacy", ""),
        ],
        vec![
            embedding("minimax/primary/embed-a", "embed-a"),
            embedding("minimax/primary/embed-b", "embed-b"),
        ],
    );
    let error = kb_embedder_for(&s, &ids(&["first", "second"])).err().unwrap();
    assert_eq!(error.to_string(), "Knowledge bases use different embedding models");

    assert!(kb_embedder_for(&s, &ids(&["legacy"])).is_err());
    s.embedder = true;
    assert!(kb_embedder_for(&s, &ids(&["legacy"])).is_ok());
}

#[test]
fn bindings_are_the_id_of_the_one_model() {
    let s = state(
        vec![kb("a", " embed-a "), kb("b", "minimax/primary/embed-a"), kb("d", "default")],
        vec![
            embedding("embed-a", "embed-a"),
            embedding("minimax/primary/embed-a", "embed-a"),
        ],
    );
    assert_eq!(
        validate_kb_embedding_bindings(&s, &ids(&["a", "b"])).unwrap(),
        "minimax/primary/embed-a"
    );
    assert_eq!(validate_kb_embedding_bindings(&s, &ids(&["d"])).unwrap(), "default");
    match kb_embedder_for(&s, &ids(&["a"])).unwrap() {
        ModelSource::Tenant(m) => assert_eq!(m.model_name, "embed-a"),
        other => panic!("{other:?}"),
    }
}

#[test]
fn bindings_tell_why_there_is_none() {
    let mut s = state(
        vec![kb("a", "embed-a"), kb("x", "embed-x"), kb("r", "embed-r"), kb("d", "")],
        vec![
            embedding("embed-a", "embed-a"),
            row(ModelCapability::Embedding, Some("embed-r"), ModelChoice::Refused("broken".into())),
        ],
    );
    let told = |s: &AppState, list: &[&str]| {
        validate_kb_embedding_bindings(s, &ids(list)).unwrap_err()
    };
    assert_eq!(told(&s, &[]), "At least one knowledge base is required");
    assert_eq!(told(&s, &["none"]), "Knowledge base not found: none");
    assert_eq!(told(&s, &["x"]), "Embedding model is not configured: embed-x");
    assert_eq!(told(&s, &["r"]), "broken");
    assert_eq!(told(&s, &["d", "a"]), "Knowledge bases use different embedding models");
    assert_eq!(kb_embedder_for(&s, &ids(&["d"])).unwrap_err(), "Embedding is not configured");
    s.embedder = true;
    assert!(matches!(kb_embedder_for(&s, &ids(&["d"])), Ok(ModelSource::Global)));
    // The model's own id has to resolve as well.
    assert_eq!(
        kb_embedder_for(&s, &ids(&["a"])).unwrap_err(),
        "Embedding is not configured: minimax/primary/embed-a"
    );
}

#[test]
fn tenants_choose_their_embedding_model() {
    let mut s = state(Vec::new(), vec![embedding("embed-a", "embed-a")]);
    let told = |s: &AppState, selector: Option<&str>| {
        validate_tenant_embedding_selector(s, "test-user", selector)
    };
    assert_eq!(told(&s, Some(" embed-a ")).unwrap(), "minimax/primary/embed-a");
    assert_eq!(told(&s, Some("default")).unwrap_err(), "Global embedding model is not configured");
    assert_eq!(told(&s, Some("other")).unwrap_err(), "Embedding model is not configured");
    assert_eq!(told(&s, None).unwrap(), "default");
    assert_eq!(told(&s, Some("   ")).unwrap(), "default");
    s.embedder = true;
    assert_eq!(told(&s, Some("default")).unwrap(), "default");
}

#[test]
fn images_are_described_by_the_owners_default_model() {
    let mut vision = model("vision-1");
    vision.api_key = Some("key-1".into());
    let s = state(
        vec![kb("a", "")],
        vec![row(ModelCapability::ImageToText, None, ModelChoice::Model(vision))],
    );
    let config = kb_vision_for(&s, &ids(&["a", "unknown"])).unwrap().unwrap();
    assert_eq!(config.api_base, "https://models.example");
    assert_eq!(config.api_key, "key-1");
    assert_eq!(config.model, "vision-1");
    assert_eq!(config.lang, "Chinese");
    assert!(kb_vision_for(&s, &Vec::new()).unwrap().is_none());
    assert_eq!(
        kb_vision_for(&s, &ids(&["unknown"])).unwrap_err(),
        "Knowledge base not found: unknown"
    );
    let bare = state(vec![kb("a", "")], Vec::new());
    assert!(kb_vision_for(&bare, &ids(&["a"])).unwrap().is_none());
}

#[test]
fn rerankers_are_global_unless_selected() {
    let rerank = |selector: &str, name: &str| {
        row(ModelCapability::Rerank, Some(selector), ModelChoice::Model(model(name)))
    };
    let mut s = state(vec![kb("a", ""), kb("b", "")], vec![rerank("r1", "rank-1")]);
    assert!(kb_reranker_for(&s, &ids(&["a"]), None).unwrap().is_none());
    s.reranker = true;
    assert!(matches!(
        kb_reranker_for(&s, &ids(&["a"]), Some("  ")).unwrap(),
        Some(ModelSource::Global)
    ));
    match kb_reranker_for(&s, &ids(&["a", "b"]), Some(" r1 ")).unwrap() {
        Some(ModelSource::Tenant(m)) => assert_eq!(m.model_name, "rank-1"),
        other => panic!("{other:?}"),
    }
    assert_eq!(
        kb_reranker_for(&s, &Vec::new(), Some("r1")).unwrap_err(),
        "At least one knowledge base is required"
    );
    assert_eq!(
        kb_reranker_for(&s, &ids(&["a"]), Some("r2")).unwrap_err(),
        "Rerank model is not configured: r2"
    );
    let mut foreign = kb("c", "");
    foreign.owner_id = "other".into();
    s.kbs.push(foreign);
    let mut theirs = rerank("r1", "rank-2");
    theirs.tenant_id = "other".into();
    s.tenant_models.push(theirs);
    assert_eq!(
        kb_reranker_for(&s, &ids(&["a", "c"]), Some("r1")).unwrap_err(),
        "Knowledge bases use different reranking models"
    );
}

#[test]
fn memories_are_distilled_by_the_model_they_name() {
    let mut s = state(
        Vec::new(),
        vec![row(ModelCapability::Chat, Some("chat-1"), ModelChoice::Model(model("chat-1")))],
    );
    match memory_llm_for(&s, &memory("chat-1")).unwrap() {
        ModelSource::Tenant(m) => assert_eq!(m.model_name, "chat-1"),
        other => panic!("{other:?}"),
    }
    assert_eq!(
        memory_llm_for(&s, &memory("default")).unwrap_err(),
        "Global chat model is not configured"
    );
    s.llm = true;
    assert!(matches!(memory_llm_for(&s, &memory("default")), Ok(ModelSource::Global)));
    assert!(matches!(memory_llm_for(&s, &memory("  ")), Ok(ModelSource::Global)));
    assert_eq!(
        memory_llm_for(&s, &memory("chat-2")).unwrap_err(),
        "Chat or image2text model is not configured: chat-2"
    );
    // An image model stands in where there is no chat model, or a broken one.
    s.tenant_models.push(row(
        ModelCapability::Chat,
        Some("see-1"),
        ModelChoice::Refused("broken".into()),
    ));
    s.tenant_models.push(row(
        ModelCapability::ImageToText,
        Some("see-1"),
        ModelChoice::Model(model("see-1")),
    ));
    match memory_llm_for(&s, &memory("see-1")).unwrap() {
        ModelSource::Tenant(m) => assert_eq!(m.model_name, "see-1"),
        other => panic!("{other:?}"),
    }
}
