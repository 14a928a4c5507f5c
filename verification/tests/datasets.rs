use rayrag_server::access::AuthContext;
use rayrag_server::datasets::{
    create_dataset, created, datasets_deleted, delete_access, delete_dataset,
    delete_dataset_data, delete_datasets, get_dataset, graphs_without, list_datasets, not_found, parser_seed, part_stored,
    update_dataset, updated, DatasetStep, GraphTable,
};
use rayrag_server::json::Json;
use rayrag_server::state::{
    AppState, DocRecord, KnowledgeBase, Membership, ModelCapability, ModelChoice, ModelRow,
    ResolvedModel,
};
use serde_json::Value;

fn value(json: &Json) -> Value {
    match json {
        Json::Null => Value::Null,
        Json::Bool(b) => Value::Bool(*b),
        Json::UInt(n) => Value::from(*n),
        Json::NegInt(n) => Value::from(*n),
        Json::Real(bits) => Value::from(f64::from_bits(*bits)),
        Json::Str(s) => Value::String(s.clone()),
        Json::Array(items) => Value::Array(items.iter().map(value).collect()),
        Json::Object(entries) => {
            Value::Object(entries.iter().map(|(k, v)| (k.clone(), value(v))).collect())
        }
    }
}

fn json(value: &Value) -> Json {
    match value {
        Value::Null => Json::Null,
        Value::Bool(b) => Json::Bool(*b),
        Value::Number(n) => match (n.as_u64(), n.as_i64()) {
            (Some(n), _) => Json::UInt(n),
            (None, Some(n)) => Json::NegInt(n),
            _ => Json::Real(n.as_f64().unwrap().to_bits()),
        },
        Value::String(s) => Json::Str(s.clone()),
        Value::Array(items) => Json::Array(items.iter().map(json).collect()),
        Value::Object(map) => {
            Json::Object(map.iter().map(|(k, v)| (k.clone(), json(v))).collect())
        }
    }
}

fn body(text: &str) -> Json {
    json(&serde_json::from_str(text).unwrap())
}

fn kb(id: &str, owner: &str, permission: &str) -> KnowledgeBase {
    KnowledgeBase {
        id: id.into(),
        owner_id: owner.into(),
        permission: permission.into(),
        embd_id: "minimax/primary/embed-a".into(),
        parser_config: "{}".into(),
        prompt_config: body(r#"{"system":"be brief","top_n":8}"#),
        chunk_count: 0,
        doc_count: 0,
    }
}

fn embedding(name: &str) -> ModelRow {
    ModelRow {
        tenant_id: "test-user".into(),
        capability: ModelCapability::Embedding,
        selector: Some(name.into()),
        choice: ModelChoice::Model(ResolvedModel {
            id: format!("minimax/primary/{name}"),
            model_name: name.into(),
            api_base: String::new(),
            api_key: None,
        }),
    }
}

fn doc(id: &str, kb_id: &str) -> DocRecord {
    DocRecord {
        id: id.into(),
        name: id.into(),
        kb_id: kb_id.into(),
        size: 1,
        storage_name: String::new(),
        content_hash: String::new(),
        indexed_content_hash: String::new(),
        run: String::new(),
        progress: 0,
        progress_msg: String::new(),
        chunk_count: 0,
        created_at: 0,
        updated_at: 0,
    }
}

fn state() -> AppState {
    AppState {
        static_dir: String::new(),
        port: 9380,
        users: Vec::new(),
        kbs: vec![
            kb("first", "test-user", "me"),
            kb("second", "test-user", "me"),
            kb("foreign", "other-user", "me"),
        ],
        tenants: Vec::new(),
        llm: false,
        embedder: false,
        reranker: false,
        index_path: String::new(),
        model_path: String::new(),
        max_upload_bytes: 1024,
        docs: vec![doc("a", "first"), doc("b", "second"), doc("c", "first")],
        search_apps: None,
        tenant_models: vec![embedding("embed-a"), embedding("embed-b")],
        memories: Vec::new(),
        register_enabled: 1,
        disable_password_login: false,
    }
}

fn auth(user: &str) -> AuthContext {
    AuthContext { user_id: user.into(), is_admin: false, token: String::new() }
}

fn told(reply: &rayrag_server::reply::Reply) -> (u16, String) {
    (reply.status, reply.body.text_or_empty("message").to_string())
}

#[test]
fn datasets_start_with_what_the_request_tells() {
    let s = state();
    let request = body(
        r#"{"name":" Configured ","description":" d ","permission":"private",
            "embedding_model":"embed-a","chunk_method":" qa ","parse_type":"1"}"#,
    );
    let new = create_dataset(&s, &auth("test-user"), &request, "English").unwrap();
    assert_eq!(new.owner_id, "test-user");
    assert_eq!((new.name.as_str(), new.description.as_str()), ("Configured", "d"));
    assert_eq!(new.permission, "me");
    assert_eq!(new.embd_id, "minimax/primary/embed-a");
    assert_eq!(
        new.parser_config,
        r#"{"chunk_token_num":2048,"overlapped_percent":0.05,"chunk_method":"qa","parse_type":"1"}"#
    );
    assert_eq!(new.language, "English");
    let spoken = body(r#"{"name":"n","language":" Korean ","permission":"team"}"#);
    let new = create_dataset(&s, &auth("test-user"), &spoken, "English").unwrap();
    assert_eq!((new.language.as_str(), new.permission.as_str()), ("Korean", "team"));
    assert_eq!(new.embd_id, "default");
}

#[test]
fn parser_settings_start_from_a_seed() {
    assert_eq!(parser_seed(None, None), r#"{"chunk_token_num":2048,"overlapped_percent":0.05}"#);
    assert_eq!(
        parser_seed(Some("qa"), None),
        r#"{"chunk_token_num":2048,"overlapped_percent":0.05,"chunk_method":"qa"}"#
    );
    assert_eq!(
        parser_seed(None, Some("2")),
        r#"{"chunk_token_num":2048,"overlapped_percent":0.05,"parse_type":"2"}"#
    );
}

#[test]
fn datasets_are_refused_for_name_model_or_language() {
    let s = state();
    let refusal = |request: &str| {
        told(&create_dataset(&s, &auth("test-user"), &body(request), "English").unwrap_err())
    };
    let name = "Knowledge base name is required and must not exceed 255 characters";
    assert_eq!(refusal("{}"), (400, name.into()));
    assert_eq!(refusal(r#"{"name":"  "}"#), (400, name.into()));
    assert_eq!(refusal(&format!(r#"{{"name":"{}"}}"#, "x".repeat(256))), (400, name.into()));
    assert_eq!(
        refusal(r#"{"name":"n","embd_id":"embed-x"}"#),
        (400, "Embedding model is not configured".into())
    );
    assert_eq!(
        refusal(&format!(r#"{{"name":"n","language":"{}"}}"#, "x".repeat(33))),
        (400, "Language must not exceed 32 characters".into())
    );
    let reply = created(Ok(Json::Null));
    assert_eq!(told(&reply), (201, "Created".into()));
    assert_eq!(told(&created(Err("name taken".into()))), (400, "name taken".into()));
}

#[test]
fn models_stay_while_chunks_are_indexed() {
    let mut s = state();
    let change = body(r#"{"embedding_model":"embed-b"}"#);
    let update = update_dataset(&s, "first", &auth("test-user"), &change).unwrap();
    assert_eq!(update.embd_id.as_deref(), Some("minimax/primary/embed-b"));
    s.kbs[0].chunk_count = 1;
    assert_eq!(
        told(&update_dataset(&s, "first", &auth("test-user"), &change).unwrap_err()),
        (
            409,
            "Cannot change the embedding model while the knowledge base contains indexed chunks"
                .into()
        )
    );
    let same = body(r#"{"embedding_model":"embed-a"}"#);
    assert!(update_dataset(&s, "first", &auth("test-user"), &same).is_ok());
}

#[test]
fn updates_carry_only_what_was_sent() {
    let s = state();
    let request = body(
        r#"{"name":"new","tag_sets":"t","language":" Korean ","permission":"private",
            "parser_config":{"chunk_size":1,"custom":true},"chunk_size":2,
            "prompt_config":{"top_n":3,"extra":null}}"#,
    );
    let update = update_dataset(&s, "first", &auth("test-user"), &request).unwrap();
    assert_eq!(update.name.as_deref(), Some("new"));
    assert_eq!(update.description, None);
    assert_eq!(update.tag_sets.as_deref(), Some("t"));
    assert_eq!(update.language.as_deref(), Some("Korean"));
    assert_eq!(update.permission.as_deref(), Some("me"));
    assert_eq!(update.embd_id, None);
    assert_eq!(
        value(update.parser_config.as_ref().unwrap()).to_string(),
        r#"{"chunk_size":2,"custom":true}"#
    );
    assert_eq!(
        value(update.prompt_config.as_ref().unwrap()).to_string(),
        r#"{"extra":null,"system":"be brief","top_n":3}"#
    );
}

#[test]
fn updates_are_refused_without_right_name_or_content() {
    let s = state();
    let refusal = |id: &str, request: &str| {
        told(&update_dataset(&s, id, &auth("test-user"), &body(request)).unwrap_err())
    };
    assert_eq!(
        refusal("foreign", r#"{"name":"n"}"#),
        (404, "Knowledge base not found".into())
    );
    assert_eq!(
        refusal("first", r#"{"name":"  "}"#),
        (400, "Knowledge base name is required and must not exceed 255 characters".into())
    );
    let empty = "name, permission, embedding_model, parser_config or prompt_config is required";
    assert_eq!(refusal("first", "{}"), (400, empty.into()));
    assert_eq!(refusal("first", r#"{"language":"   "}"#), (400, empty.into()));
    assert_eq!(refusal("first", r#"{"tag_sets":"t"}"#), (400, empty.into()));
    assert_eq!(refusal("first", r#"{"parser_config":{}}"#), (400, empty.into()));
    assert_eq!(
        refusal("first", r#"{"embd_id":"embed-x"}"#),
        (400, "Embedding model is not configured".into())
    );
    assert!(part_stored(Ok(())).is_none());
    assert_eq!(told(&part_stored(Err("too long".into())).unwrap()), (400, "too long".into()));
    assert_eq!(told(&updated(Ok(Some(Json::Null)))), (200, "Updated".into()));
    assert_eq!(told(&updated(Ok(None))), (404, "Knowledge base not found".into()));
    assert_eq!(told(&updated(Err("io".into()))), (400, "io".into()));
}

#[test]
fn datasets_are_read_by_those_who_may() {
    let mut s = state();
    s.kbs[2].permission = "team".into();
    s.tenants.push(Membership {
        tenant_id: "other-user".into(),
        user_id: "test-user".into(),
        manages: false,
    });
    assert_eq!(get_dataset(&s, "foreign", &auth("test-user")).unwrap().id, "foreign");
    assert_eq!(get_dataset(&s, "first", &auth("other-user")).unwrap_err().status, 404);
    assert_eq!(told(&not_found()), (404, "Knowledge base not found".into()));
}

#[test]
fn lists_hold_what_one_may_read() {
    let s = state();
    let rows: Vec<Json> = s.kbs.iter().map(|kb| Json::Str(kb.id.clone())).collect();
    let reply = list_datasets(&s, &auth("test-user"), &rows);
    assert_eq!(
        value(&reply.body).to_string(),
        r#"{"code":0,"data":["first","second"],"message":"ok"}"#
    );
    let reply = list_datasets(&s, &auth("stranger"), &rows);
    assert_eq!(value(&reply.body).to_string(), r#"{"code":0,"data":[],"message":"ok"}"#);
}

#[test]
fn deletions_by_list_spare_foreign_bases() {
    let s = state();
    let ask = |request: &str| delete_datasets(&s, &auth("test-user"), &body(request));
    let empty = ask(r#"{"ids":[]}"#).unwrap_err();
    assert_eq!(empty.status, 200);
    assert_eq!(empty.body.get("data").unwrap().number("success_count"), Some(0));
    assert_eq!(
        told(&ask(r#"{"ids":["first","foreign","gone"]}"#).unwrap_err()),
        (400, "User 'test-user' lacks permission for datasets: 'foreign, gone'".into())
    );
    assert_eq!(ask(r#"{"ids":["first"]}"#).unwrap(), ["first"]);
    assert_eq!(ask(r#"{"ids":null,"delete_all":true}"#).unwrap(), ["first", "second"]);
    let done = datasets_deleted(&vec![true, false, true], None);
    assert_eq!(done.body.get("data").unwrap().number("success_count"), Some(2));
    assert_eq!(told(&datasets_deleted(&vec![true], Some("io".into()))), (500, "io".into()));
}

#[test]
fn documents_go_before_their_base() {
    let deletion = delete_dataset_data(&state(), "first");
    assert_eq!(deletion.doc_ids, ["a", "c"]);
    assert!(matches!(deletion.next(0, Ok(())), DatasetStep::DeleteDocument(0)));
    assert!(matches!(deletion.next(1, Ok(())), DatasetStep::DeleteDocument(1)));
    assert!(matches!(deletion.next(2, Ok(())), DatasetStep::DropDataset));
    assert!(matches!(deletion.next(1, Err("io".into())), DatasetStep::Fail(e) if e == "io"));
    assert!(delete_access(&state(), "first", &auth("test-user")).is_none());
    for (id, user) in [("foreign", "test-user"), ("first", "other-user"), ("none", "test-user")] {
        let refused = delete_access(&state(), id, &auth(user)).unwrap();
        assert_eq!(told(&refused), (404, "Knowledge base not found".into()), "{id} {user}");
    }
    assert_eq!(told(&delete_dataset(Ok(true))), (200, "Deleted".into()));
    assert_eq!(told(&delete_dataset(Ok(false))), (404, "Knowledge base not found".into()));
    assert_eq!(told(&delete_dataset(Err("io".into()))), (500, "io".into()));
}

#[test]
fn graphs_go_with_their_base() {
    let table = GraphTable {
        kb_graphs: vec!["first".into(), "second".into()],
        checkpoints: vec![("a".into(), "first".into()), ("b".into(), "second".into())],
    };
    let left = graphs_without(&table, "first");
    assert_eq!(left.kb_graphs, ["second"]);
    assert_eq!(left.checkpoints, [("b".to_string(), "second".to_string())]);
}
