use rayrag_server::access::AuthContext;
use rayrag_server::chat::{
    chat_completion, chat_prompt, chat_reply, clear_conversation, conversation_name,
    cross_languages, delete_conversation, export_conversation, merge_hits, no_conversation,
    rename_conversation, translations, ChatHit, ConversationMessage,
};
use rayrag_server::graph::{
    build_graphrag, edge_count, entity_types, graph_access, graph_built, graph_language,
    group_by_document,
    query_graphrag, wants_context, GraphChunk, GraphNode,
};
use rayrag_server::json::Json;
use rayrag_server::reply::Reply;
use rayrag_server::state::{AppState, KnowledgeBase};
use serde_json::Value;

fn value(json: &Json) -> Value {
    match json {
        Json::Null => Value::Null,
        Json::Bool(b) => Value::Bool(*b),
        Json::UInt(n) => Value::from(*n),
        Json::NegInt(n) => Value::from(*n),
        Json::Real(bits) => Value::from(f64::from_bits(*bits)),
        Json::Str(s) => Value::String(s.clone()),
        Json::Array(items) => Value::Array(items.iter().map(value).collect()),
        Json::Object(entries) => {
            Value::Object(entries.iter().map(|(k, v)| (k.clone(), value(v))).collect())
        }
    }
}

fn strings(list: &[&str]) -> Json {
    Json::Array(list.iter().map(|s| Json::Str(s.to_string())).collect())
}

fn object(entries: Vec<(&str, Json)>) -> Json {
    Json::Object(entries.into_iter().map(|(k, v)| (k.to_string(), v)).collect())
}

fn kb(id: &str, owner: &str, languages: &[&str]) -> KnowledgeBase {
    KnowledgeBase {
        id: id.into(),
        owner_id: owner.into(),
        permission: "me".into(),
        embd_id: String::new(),
        parser_config: "{}".into(),
        prompt_config: object(vec![("cross_languages", strings(languages))]),
        chunk_count: 0,
        doc_count: 0,
    }
}

fn state(llm: bool) -> AppState {
    AppState {
        static_dir: String::new(),
        port: 9380,
        users: Vec::new(),
        kbs: vec![
            kb("one", "test-user", &[" French ", "German", "  "]),
            kb("two", "test-user", &["German", "Thai"]),
            kb("foreign", "other-user", &[]),
        ],
        tenants: Vec::new(),
        llm,
        embedder: false,
        reranker: false,
        index_path: String::new(),
        model_path: String::new(),
        max_upload_bytes: 1024,
        docs: Vec::new(),
        search_apps: None,
        tenant_models: Vec::new(),
        memories: Vec::new(),
        register_enabled: 1,
        disable_password_login: false,
    }
}

fn auth() -> AuthContext {
    AuthContext { user_id: "test-user".into(), is_admin: false, token: String::new() }
}

fn hit(id: &str) -> ChatHit {
    ChatHit {
        chunk_id: id.into(),
        content: format!("about {id}"),
        doc_name: "A.txt".into(),
        score: 0.5f64.to_bits(),
    }
}

fn told(reply: &Reply) -> (u16, String) {
    (reply.status, value(&reply.body).to_string())
}

fn question(kb_ids: &[&str], top_k: Option<u64>) -> Json {
    let mut entries = vec![("question", Json::Str("hello".into())), ("kb_ids", strings(kb_ids))];
    if let Some(k) = top_k {
        entries.push(("top_k", Json::UInt(k)));
    }
    object(entries)
}

#[test]
fn questions_need_owned_bases_and_a_model() {
    let refused = chat_completion(&state(true), &auth(), &question(&["foreign"], None)).unwrap_err();
    assert_eq!(refused.status, 400);
    assert_eq!(
        refused.body.text("message"),
        Some("At least one accessible kb_id is required")
    );
    let refused = chat_completion(&state(false), &auth(), &question(&["one"], None)).unwrap_err();
    assert_eq!((refused.status, refused.body.text("message")), (503, Some("No LLM")));
    let asked = chat_completion(&state(true), &auth(), &question(&["one"], None)).unwrap();
    assert_eq!((asked.question.as_str(), asked.top_k), ("hello", 4));
    assert_eq!(asked.kb_ids, ["one"]);
    for (wanted, given) in [(0, 1), (1, 1), (20, 20), (99, 20)] {
        let request = question(&["one"], Some(wanted));
        assert_eq!(chat_completion(&state(true), &auth(), &request).unwrap().top_k, given);
    }
}

#[test]
fn languages_are_named_once() {
    let ids = vec!["one".to_string(), "gone".to_string(), "two".to_string()];
    assert_eq!(cross_languages(&state(true), &ids), ["French", "German", "Thai"]);
    assert!(cross_languages(&state(true), &vec!["foreign".to_string()]).is_empty());
}

#[test]
fn translations_stand_between_marks() {
    assert_eq!(translations(" bonjour ### hallo ###  ### hello", "hello"), ["bonjour", "hallo"]);
    assert!(translations("", "hello").is_empty());
    assert_eq!(translations("a####b", "q"), ["a", "#b"]);
    assert_eq!(translations("a##b", "q"), ["a##b"]);
}

#[test]
fn further_hits_are_merged_once() {
    let mut hits = vec![hit("a"), hit("b")];
    merge_hits(&mut hits, &vec![hit("b"), hit("c"), hit("c"), hit("d")]);
    let ids: Vec<&str> = hits.iter().map(|h| h.chunk_id.as_str()).collect();
    assert_eq!(ids, ["a", "b", "c", "d"]);
}

#[test]
fn prompts_quote_the_first_hits() {
    let hits: Vec<ChatHit> = ["a", "b", "c", "d", "e"].iter().map(|id| hit(id)).collect();
    let (prompt, references) = chat_prompt(&hits, "why?");
    assert_eq!(
        prompt,
        "请基于以下知识库内容回答问题。若内容不足以回答，请说明。\n\n知识库内容：\n\
         [0] about a\n[1] about b\n[2] about c\n[3] about d\n\n问题：why?"
    );
    assert_eq!(references.len(), 4);
    assert_eq!(
        value(&references[3]).to_string(),
        r#"{"chunk_id":"d","doc_name":"A.txt","score":0.5}"#
    );
    let (bare, none) = chat_prompt(&Vec::new(), "why?");
    assert_eq!(bare, "why?");
    assert!(none.is_empty());
}

#[test]
fn answers_come_with_their_references() {
    let (_, references) = chat_prompt(&vec![hit("a")], "why?");
    let reply = chat_reply(Ok("because".into()), references);
    assert_eq!(reply.status, 200);
    let body = value(&reply.body);
    assert_eq!(body["data"]["answer"], "because");
    assert_eq!(body["data"]["reference"][0]["chunk_id"], "a");
    assert_eq!(
        told(&chat_reply(Err("quota".into()), Vec::new())),
        (200, r#"{"code":500,"data":null,"message":"quota"}"#.into())
    );
}

#[test]
fn conversations_are_exported_as_markdown() {
    let message = |role: &str, content: &str| ConversationMessage {
        role: role.into(),
        content: content.into(),
    };
    let messages = vec![message("user", "hi"), message("assistant", "hello")];
    assert_eq!(
        export_conversation("Talk", &messages),
        "# Talk\n\n**User**: hi\n\n**Assistant**: hello\n\n"
    );
    assert_eq!(export_conversation("Talk", &Vec::new()), "# Talk\n\n");
}

#[test]
fn conversations_are_cleared_renamed_and_deleted() {
    let missing = (200, r#"{"code":404,"message":"Conversation not found"}"#.to_string());
    assert_eq!(told(&no_conversation()), missing);
    assert_eq!(told(&clear_conversation(None)), missing);
    assert_eq!(told(&clear_conversation(Some(Ok(())))), (200, r#"{"code":0,"data":true}"#.into()));
    assert_eq!(
        told(&clear_conversation(Some(Err("io".into())))),
        (200, r#"{"code":500,"message":"io"}"#.into())
    );
    assert_eq!(
        conversation_name(&object(vec![("name", Json::Str("n".into()))])).unwrap(),
        "n"
    );
    let unnamed = conversation_name(&object(vec![("name", Json::Null)])).unwrap_err();
    assert_eq!((unnamed.status, unnamed.body.text("message")), (400, Some("name is required")));
    assert_eq!(
        told(&rename_conversation(Ok(true))),
        (200, r#"{"code":0,"data":null,"message":"Renamed"}"#.into())
    );
    assert_eq!(rename_conversation(Ok(false)).status, 404);
    assert_eq!(rename_conversation(Err("bad".into())).status, 400);
    assert_eq!(
        told(&delete_conversation(Ok(true))),
        (200, r#"{"code":0,"message":"ok"}"#.into())
    );
    assert_eq!(told(&delete_conversation(Ok(false))), missing);
    assert_eq!(
        told(&delete_conversation(Err("io".into()))),
        (200, r#"{"code":500,"message":"io"}"#.into())
    );
}

fn node(name: &str, degree: u64) -> GraphNode {
    GraphNode { name: name.into(), degree }
}

fn chunk(kb: Option<&str>, doc: Option<&str>, name: &str, content: &str) -> GraphChunk {
    GraphChunk {
        kb_id: kb.map(|s| s.to_string()),
        doc_id: doc.map(|s| s.to_string()),
        doc_name: name.into(),
        content: content.into(),
    }
}

#[test]
fn graphs_count_each_edge_once() {
    assert_eq!(edge_count(&vec![node("a", 2), node("b", 1), node("c", 1)]), 2);
    assert_eq!(edge_count(&Vec::new()), 0);
}

#[test]
fn graph_queries_list_the_first_nodes() {
    let none = query_graphrag(None, 0, &Vec::new());
    assert_eq!(
        told(&none),
        (
            200,
            [
                r#"{"code":0,"data":{"context":[],"edges":0,"node_list":[],"nodes":0},"#,
                r#""message":"No graph built yet"}"#
            ]
            .concat()
        )
    );
    let nodes: Vec<GraphNode> = (0..201).map(|i| node(&format!("n{i}"), 2)).collect();
    let reply = query_graphrag(Some(&nodes), 201, &vec!["John knows Rust".to_string()]);
    let body = value(&reply.body);
    assert_eq!(body["data"]["nodes"], 201);
    assert_eq!(body["data"]["edges"], 201);
    assert_eq!(body["data"]["node_list"].as_array().unwrap().len(), 200);
    assert_eq!(
        body["data"]["node_list"][0].to_string(),
        r#"{"degree":2,"name":"n0","type":"entity"}"#
    );
    assert_eq!(body["data"]["context"][0], "John knows Rust");
    assert!(wants_context(&object(vec![("question", Json::Str("who?".into()))])));
    assert!(!wants_context(&object(vec![("question", Json::Str("  ".into()))])));
    assert!(!wants_context(&Json::Null));
    assert!(graph_access(&state(true), "one", &auth()).is_none());
    assert_eq!(graph_access(&state(true), "foreign", &auth()).unwrap().status, 404);
}

#[test]
fn graphs_are_built_document_by_document() {
    let chunks = vec![
        chunk(Some("one"), Some("doc-b"), "B.txt", "b1"),
        chunk(Some("two"), Some("doc-x"), "X.txt", "x"),
        chunk(Some("one"), None, "A.txt", "a1"),
        chunk(None, Some("doc-b"), "B.txt", "lost"),
        chunk(Some("one"), Some("doc-b"), "B.txt", "b2"),
    ];
    let groups = group_by_document(&chunks, "one");
    let told_groups: Vec<(&str, Vec<&str>)> = groups
        .iter()
        .map(|g| (g.doc_id.as_str(), g.contents.iter().map(|c| c.as_str()).collect()))
        .collect();
    assert_eq!(told_groups, [("A.txt", vec!["a1"]), ("doc-b", vec!["b1", "b2"])]);
    assert_eq!(build_graphrag(&state(true), "one", &auth(), &chunks).unwrap().len(), 2);
    let refusal = |s: &AppState, id: &str| {
        let reply = build_graphrag(s, id, &auth(), &chunks).err().unwrap();
        (reply.status, reply.body.text_or_empty("message").to_string())
    };
    assert_eq!(refusal(&state(true), "foreign"), (404, "Knowledge base not found".into()));
    assert_eq!(refusal(&state(false), "one"), (400, "LLM is not configured".into()));
    let empty = build_graphrag(&state(true), "one", &auth(), &Vec::new()).err().unwrap();
    assert_eq!(empty.body.text("message"), Some("No chunks in this knowledge base"));
    assert_eq!(entity_types(), ["organization", "person", "location", "event", "concept"]);
}

#[test]
fn built_graphs_count_what_worked() {
    let nodes = vec![node("a", 1), node("b", 1)];
    assert_eq!(graph_language(), "Chinese");
    let reply = graph_built(&nodes, 2, &vec![Some(3), None, Some(4)]);
    assert_eq!(
        told(&reply),
        (
            200,
            [
                r#"{"code":0,"data":{"documents":2,"edges":1,"entities":7,"node_list":["#,
                r#"{"degree":1,"name":"a","type":"entity"},"#,
                r#"{"degree":1,"name":"b","type":"entity"}],"nodes":2}}"#
            ]
            .concat()
        )
    );
}
