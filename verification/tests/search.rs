use rayrag_server::access::AuthContext;
use rayrag_server::json::Json;
use rayrag_server::models::ModelSource;
use rayrag_server::retrieval::{
    admit_search, answer_search, block_bounds, block_reranker, embedding_missing, hit_json,
    page_place, page_results, passing_positions, rerank_failed, rerank_limit, retrieval,
    search_reply, total_hits, Hit, PagePlace, RerankFault, SearchRequest,
};
use rayrag_server::state::{
    AppState, KnowledgeBase, ModelCapability, ModelChoice, ModelRow, ResolvedModel, SearchApp,
};
use serde_json::Value;

fn value(json: &Json) -> Value {
    match json {
        Json::Null => Value::Null,
        Json::Bool(b) => Value::Bool(*b),
        Json::UInt(n) => Value::from(*n),
        Json::NegInt(n) => Value::from(*n),
        Json::Real(bits) => Value::from(f64::from_bits(*bits)),
        Json::Str(s) => Value::String(s.clone()),
        Json::Array(items) => Value::Array(items.iter().map(value).collect()),
        Json::Object(entries) => {
            Value::Object(entries.iter().map(|(k, v)| (k.clone(), value(v))).collect())
        }
    }
}

fn json(value: &Value) -> Json {
    match value {
        Value::Null => Json::Null,
        Value::Bool(b) => Json::Bool(*b),
        Value::Number(n) => match n.as_u64() {
            Some(n) => Json::UInt(n),
            None => Json::Real(n.as_f64().unwrap().to_bits()),
        },
        Value::String(s) => Json::Str(s.clone()),
        Value::Array(items) => Json::Array(items.iter().map(json).collect()),
        Value::Object(map) => {
            Json::Object(map.iter().map(|(k, v)| (k.clone(), json(v))).collect())
        }
    }
}

fn body(text: &str) -> Json {
    json(&serde_json::from_str(text).unwrap())
}

fn kb(id: &str, owner: &str, embd_id: &str) -> KnowledgeBase {
    KnowledgeBase {
        id: id.into(),
        owner_id: owner.into(),
        permission: "me".into(),
        embd_id: embd_id.into(),
        parser_config: "{}".into(),
        prompt_config: Json::Null,
        chunk_count: 0,
        doc_count: 0,
    }
}

fn model_row(capability: ModelCapability, name: &str) -> ModelRow {
    ModelRow {
        tenant_id: "test-user".into(),
        capability,
        selector: Some(name.into()),
        choice: ModelChoice::Model(ResolvedModel {
            id: name.into(),
            model_name: name.into(),
            api_base: String::new(),
            api_key: None,
        }),
    }
}

fn app() -> SearchApp {
    SearchApp {
        id: "app".into(),
        top_k: 7,
        rerank: false,
        rerank_id: " rank-1 ".into(),
        vector_similarity_weight: 0.75f64.to_bits(),
        similarity_threshold: 0.5f64.to_bits(),
        kb_ids: vec!["plain".into()],
        doc_ids: vec!["doc-a".into()],
        meta_data_filter: body(r#"{"method":"manual"}"#),
        chat_id: "chat-1".into(),
    }
}

fn state() -> AppState {
    AppState {
        static_dir: String::new(),
        port: 9380,
        users: Vec::new(),
        kbs: vec![
            kb("plain", "test-user", ""),
            kb("first", "test-user", "embed-a"),
            kb("second", "test-user", "embed-b"),
            kb("foreign", "other-user", ""),
        ],
        tenants: Vec::new(),
        llm: false,
        embedder: false,
        reranker: false,
        index_path: String::new(),
        model_path: String::new(),
        max_upload_bytes: 1024,
        docs: Vec::new(),
        search_apps: Some(vec![app()]),
        tenant_models: vec![
            model_row(ModelCapability::Embedding, "embed-a"),
            model_row(ModelCapability::Embedding, "embed-b"),
            model_row(ModelCapability::Rerank, "rank-1"),
        ],
        memories: Vec::new(),
        register_enabled: 1,
        disable_password_login: false,
    }
}

fn auth() -> AuthContext {
    AuthContext { user_id: "test-user".into(), is_admin: false, token: String::new() }
}

fn ids(list: &[&str]) -> Vec<String> {
    list.iter().map(|s| s.to_string()).collect()
}

fn hit(id: &str, passes: bool) -> Hit {
    Hit {
        chunk_id: id.into(),
        content: format!("content of {id}"),
        doc_name: "A.txt".into(),
        doc_id: Some("doc-a".into()),
        kb_id: None,
        score: 0.5f64.to_bits(),
        vector_score: 0.25f64.to_bits(),
        term_score: 0.75f64.to_bits(),
        passes,
        highlight: None,
        document_metadata: None,
    }
}

fn chunk_ids(results: &[Json]) -> Vec<String> {
    results.iter().map(|r| r.text_or_empty("chunk_id").to_string()).collect()
}

#[test]
fn searches_have_defaults() {
    let request = retrieval(&state(), &body("{}"));
    assert_eq!((request.question.as_str(), request.top_k, request.page), ("", 10, 1));
    assert!(!request.rerank && !request.highlight && request.aggregate);
    assert!(request.kb_ids.is_empty());
    assert_eq!(request.doc_ids, None);
    assert!(request.metadata_filter.is_none());
    assert_eq!(request.chat_id, None);
    assert_eq!(number(&request.vector_weight), 0.3);
    assert_eq!(number(&request.threshold), 0.2);
    assert!(request.rank_feature.is_none());
}

/// The number that a weight is.
fn number(number: &Json) -> f64 {
    match number {
        Json::UInt(n) => *n as f64,
        Json::NegInt(n) => *n as f64,
        Json::Real(bits) => f64::from_bits(*bits),
        other => panic!("{other:?}"),
    }
}

#[test]
fn left_out_fields_are_those_of_the_application() {
    let open = r#"{"question":"what is rayrag","search_id":"app"}"#;
    let told = r#"{"question":"what is rayrag","search_id":"app","top_k":7,"kb_ids":["plain"],
        "vector_similarity_weight":0.75,"similarity_threshold":0.5,"rerank":false,
        "rerank_id":" rank-1 ","doc_ids":["doc-a"],"meta_data_filter":{"method":"manual"}}"#;
    let (open, told) = (retrieval(&state(), &body(open)), retrieval(&state(), &body(told)));
    assert_eq!(format!("{open:?}"), format!("{told:?}"));
    assert_eq!((number(&open.vector_weight), number(&open.threshold)), (0.75, 0.5));
    // Without an application or a base there is nothing to search.
    let bare = retrieval(&state(), &body(r#"{"question":"what is rayrag"}"#));
    let refused = admit_search(&state(), &auth(), &bare.kb_ids, true).unwrap_err();
    assert_eq!(
        (refused.status, refused.body.text("message")),
        (400, Some("At least one accessible kb_id is required"))
    );
}

#[test]
fn pages_differ_only_in_their_chunks() {
    let ask = |page: u64| {
        let text = format!(
            r#"{{"question":"water","kb_ids":["plain"],"top_k":2,"page":{page},
                "rank_feature":{{"a":1}}}}"#
        );
        retrieval(&state(), &body(&text))
    };
    let all = |n: usize| -> Vec<Hit> {
        (0..n).map(|i| hit(&format!("chunk-{i}"), i != 1)).collect()
    };
    let answer = |request: &SearchRequest| {
        let place = page_place(request.page, request.top_k, 64);
        let (from, to) = block_bounds(6, place, 64);
        let block: Vec<Hit> = all(6).into_iter().skip(from).take(to - from).collect();
        let aggs = body(r#"[{"doc_name":"A.txt","count":5}]"#);
        value(&answer_search(request, 64, &all(6), &block, aggs, &ids(&["John"])).body)
    };
    let (mut first, second) = (ask(1), ask(2));
    let (one, two) = (answer(&first), answer(&second));
    for key in ["total", "doc_aggs", "graph_context"] {
        assert_eq!(one["data"][key], two["data"][key], "{key}");
    }
    assert_eq!(one["data"]["total"], 5);
    let names = |answer: &Value| -> Vec<String> {
        let chunks = answer["data"]["chunks"].as_array().unwrap();
        chunks.iter().map(|c| c["chunk_id"].as_str().unwrap().to_string()).collect()
    };
    assert_eq!(names(&one), ["chunk-0", "chunk-2"]);
    assert_eq!(names(&two), ["chunk-3", "chunk-4"]);
    assert_eq!(passing_positions(&all(6)), [0, 2, 3, 4, 5]);
    first.page = second.page;
    assert_eq!(format!("{first:?}"), format!("{second:?}"));
    first.aggregate = false;
    assert_eq!(answer(&first)["data"]["doc_aggs"], Value::Array(Vec::new()));
    assert_eq!((rerank_limit(true), rerank_limit(false)), (Some(1024), None));
}

#[test]
fn saved_applications_fill_what_a_search_leaves_open() {
    let request =
        retrieval(&state(), &body(r#"{"question":"what is rayrag","search_id":"app"}"#));
    assert_eq!((request.top_k, request.rerank), (7, true));
    assert_eq!(request.rerank_id.as_deref(), Some("rank-1"));
    assert_eq!(request.kb_ids, ["plain"]);
    assert_eq!(request.doc_ids, Some(ids(&["doc-a"])));
    assert_eq!(
        value(request.metadata_filter.as_ref().unwrap()).to_string(),
        r#"{"method":"manual"}"#
    );
    assert_eq!(request.chat_id.as_deref(), Some("chat-1"));
}

#[test]
fn searches_override_saved_applications() {
    let request = retrieval(
        &state(),
        &body(
            r#"{"search_id":"app","top_k":3,"page":0,"kb_id":["first"],"doc_ids":[],
                "vector_similarity_weight":1,"similarity_threshold":-2,
                "rerank_id":" own ","meta_data_filter":{"a":1},"highlight":true,"aggs":false}"#,
        ),
    );
    assert_eq!((request.top_k, request.page), (3, 1));
    assert_eq!(request.kb_ids, ["first"]);
    assert_eq!(request.doc_ids, Some(Vec::new()));
    assert_eq!((number(&request.vector_weight), number(&request.threshold)), (1.0, -2.0));
    assert_eq!(request.rerank_id.as_deref(), Some("own"));
    assert_eq!(value(request.metadata_filter.as_ref().unwrap()).to_string(), r#"{"a":1}"#);
    assert!(request.highlight && !request.aggregate);
    // An unknown or blank application changes nothing.
    for id in ["none", "  "] {
        let text = format!(r#"{{"search_id":"{id}","kb_ids":["first"]}}"#);
        let request = retrieval(&state(), &body(&text));
        assert_eq!((request.top_k, request.chat_id), (10, None));
    }
    // An empty list of bases under the first name falls back to the application.
    let request =
        retrieval(&state(), &body(r#"{"search_id":"app","kb_ids":[],"kb_id":["first"]}"#));
    assert_eq!(request.kb_ids, ["plain"]);
}

#[test]
fn searches_need_readable_bases_in_one_vector_space() {
    let mut s = state();
    let refusal = |s: &AppState, list: &[&str], by_vector: bool| {
        let reply = admit_search(s, &auth(), &ids(list), by_vector).unwrap_err();
        (reply.status, reply.body.text_or_empty("message").to_string())
    };
    let none = "At least one accessible kb_id is required";
    assert_eq!(refusal(&s, &[], true), (400, none.into()));
    assert_eq!(refusal(&s, &["plain", "foreign"], true), (400, none.into()));
    assert_eq!(
        refusal(&s, &["first", "second"], false),
        (400, "Knowledge bases use different embedding models".into())
    );
    assert_eq!(refusal(&s, &["plain"], true), (400, "Embedding is not configured".into()));
    assert!(admit_search(&s, &auth(), &ids(&["plain"]), false).unwrap().is_none());
    s.embedder = true;
    assert!(matches!(
        admit_search(&s, &auth(), &ids(&["plain"]), true).unwrap(),
        Some(ModelSource::Global)
    ));
    let failed = embedding_missing(true, false).unwrap();
    assert_eq!((failed.status, failed.body.text("message")), (500, Some("Embed failed")));
    assert!(embedding_missing(true, true).is_none());
    assert!(embedding_missing(false, false).is_none());
}

#[test]
fn blocks_are_reranked_where_that_was_asked_for() {
    let mut s = state();
    let plain = retrieval(&s, &body(r#"{"kb_ids":["plain"]}"#));
    assert!(block_reranker(&s, &plain, 5).unwrap().is_none());
    let asked = retrieval(&s, &body(r#"{"kb_ids":["plain"],"rerank":true}"#));
    let refused = block_reranker(&s, &asked, 5).unwrap_err();
    assert_eq!(
        (refused.status, refused.body.text("message")),
        (503, Some("Reranker is not configured"))
    );
    assert!(block_reranker(&s, &asked, 0).unwrap().is_none());
    let named = retrieval(&s, &body(r#"{"kb_ids":["plain"],"rerank_id":"rank-1"}"#));
    assert!(matches!(block_reranker(&s, &named, 5).unwrap(), Some(ModelSource::Tenant(_))));
    let unknown = retrieval(&s, &body(r#"{"kb_ids":["plain"],"rerank_id":"x"}"#));
    let refused = block_reranker(&s, &unknown, 5).unwrap_err();
    assert_eq!(
        (refused.status, refused.body.text("message")),
        (400, Some("Rerank model is not configured: x"))
    );
    s.reranker = true;
    assert!(matches!(block_reranker(&s, &asked, 5).unwrap(), Some(ModelSource::Global)));
    let failed = rerank_failed(RerankFault::Request);
    assert_eq!(
        (failed.status, failed.body.text("message")),
        (502, Some("Reranker request failed"))
    );
    assert_eq!(
        rerank_failed(RerankFault::Response).body.text("message"),
        Some("Invalid reranker response")
    );
}

#[test]
fn pages_lie_in_blocks() {
    assert_eq!(page_place(1, 10, 64), PagePlace { offset: 0, block_start: 0, begin: 0 });
    assert_eq!(page_place(65, 1, 64), PagePlace { offset: 64, block_start: 64, begin: 0 });
    assert_eq!(page_place(8, 10, 64), PagePlace { offset: 70, block_start: 64, begin: 6 });
    let far = page_place(u64::MAX, u64::MAX, 7);
    assert_eq!(far.offset, u64::MAX);
    assert_eq!(far.block_start + far.begin, u64::MAX);
    let place = page_place(65, 1, 64);
    assert_eq!(block_bounds(70, place, 64), (64, 70));
    assert_eq!(block_bounds(10, place, 64), (10, 10));
}

#[test]
fn deep_pages_keep_the_total() {
    let hits: Vec<Hit> = (0..70).map(|i| hit(&format!("chunk-{i:02}"), true)).collect();
    assert_eq!(total_hits(&hits), 70);
    let place = page_place(65, 1, 64);
    let (from, to) = block_bounds(hits.len(), place, 64);
    let block: Vec<Hit> = hits.into_iter().skip(from).take(to - from).collect();
    let page = page_results(&block, place.begin, 1);
    assert_eq!(chunk_ids(&page), ["chunk-64"]);
    let reply = search_reply(70, page, Json::Array(Vec::new()), &Vec::new());
    let told = value(&reply.body);
    assert_eq!(told["data"]["total"], 70);
    assert_eq!(told["data"]["chunks"].as_array().unwrap().len(), 1);
}

#[test]
fn hits_below_the_threshold_do_not_count() {
    let hits = vec![hit("a", true), hit("b", false), hit("c", true), hit("d", true)];
    assert_eq!(total_hits(&hits), 3);
    assert_eq!(chunk_ids(&page_results(&hits, 0, 2)), ["a", "c"]);
    assert_eq!(chunk_ids(&page_results(&hits, 2, 2)), ["d"]);
    assert!(page_results(&hits, 3, 2).is_empty());
    assert!(page_results(&hits, u64::MAX, u64::MAX).is_empty());
}

#[test]
fn hits_are_told_with_their_scores() {
    let mut one = hit("a", true);
    one.highlight = Some("<em>water</em>".into());
    assert_eq!(
        value(&hit_json(&one)).to_string(),
        concat_lines(&[
            r#"{"chunk_id":"a","content":"content of a","doc_id":"doc-a","doc_name":"A.txt","#,
            r#""document_metadata":null,"highlight":"<em>water</em>","kb_id":"","score":0.5,"#,
            r#""term_similarity":0.75,"vector_similarity":0.25}"#,
        ])
    );
    let reply = search_reply(
        2,
        vec![hit_json(&one)],
        body(r#"[{"doc_name":"A.txt","count":2}]"#),
        &vec!["John knows Rust".to_string()],
    );
    assert_eq!(reply.status, 200);
    let told = value(&reply.body);
    assert_eq!((told["code"].as_u64(), told["message"].as_str()), (Some(0), Some("ok")));
    assert_eq!(told["data"]["doc_aggs"][0]["count"], 2);
    assert_eq!(told["data"]["graph_context"][0], "John knows Rust");
}

fn concat_lines(lines: &[&str]) -> String {
    lines.concat()
}
