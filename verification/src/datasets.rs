//! Creating, changing and deleting knowledge bases.

use crate::access;
use crate::access::AuthContext;
use crate::json;
use crate::json::{Json, JsonView};
use crate::models;
use crate::reply;
use crate::reply::{ApiResponse, Reply, ReplyView};
use crate::state;
use crate::state::{AppState, DocRecord, KnowledgeBase};
use crate::text;
use vstd::prelude::*;

verus! {

/// The answer where there is no such knowledge base, or none for this user.
pub open spec fn not_found_of() -> ReplyView {
    reply::error_of(404, "Knowledge base not found"@)
}

/// The answer where there is no such knowledge base, or none for this user.
pub fn not_found() -> (r: Reply)
    ensures
        r@ == not_found_of(),
{
    reply::api_error(404, "Knowledge base not found")
}

/// The member is there and is no blank text.
pub open spec fn filled_text(body: JsonView, key: Seq<char>) -> Option<Seq<char>> {
    text::filled_view(body.text(key))
}

/// The embedding model that a request asks for.
pub open spec fn embedding_wanted(body: JsonView) -> Option<Seq<char>> {
    match body.get("embd_id"@) {
        Some(value) => value.string(),
        None => body.text("embedding_model"@),
    }
}

fn requested_embedding<'a>(body: &'a Json) -> (r: Option<&'a str>)
    ensures
        text::opt_str_view(r) == embedding_wanted(body@),
{
    match body.get("embd_id") {
        Some(Json::Str(s)) => Some(s.as_str()),
        Some(_) => None,
        None => body.text("embedding_model"),
    }
}

/// The permission under its present name; `private` is an older one for `me`.
pub open spec fn permission_of(value: Seq<char>) -> Seq<char> {
    if value == "private"@ {
        "me"@
    } else {
        value
    }
}

fn normalize_permission(value: &str) -> (r: String)
    ensures
        r@ == permission_of(value@),
{
    if text::same(value, "private") {
        "me".to_owned()
    } else {
        value.to_owned()
    }
}

/// The name may be given to a knowledge base.
pub open spec fn is_kb_name(name: Seq<char>) -> bool {
    text::trimmed(name).len() > 0 && text::bytes_of(text::trimmed(name)) <= 255
}

// ── Reading ─────────────────────────────────────────────────────

/// Of the rows, those whose knowledge base the user may read, in order.
pub open spec fn readable_rows(
    s: AppState,
    ids: Seq<Seq<char>>,
    rows: Seq<JsonView>,
    auth: AuthContext,
) -> Seq<JsonView>
    decreases ids.len(),
{
    if ids.len() == 0 {
        Seq::empty()
    } else {
        let before = readable_rows(s, ids.drop_last(), rows, auth);
        if access::may_read(s, ids.last(), auth) {
            before.push(rows[ids.len() - 1])
        } else {
            before
        }
    }
}

/// The knowledge bases that the user may read. `rows` holds each knowledge base of
/// the state as it is told, in order.
pub fn list_datasets(state: &AppState, auth: &AuthContext, rows: &Vec<Json>) -> (r: Reply)
    requires
        rows@.len() == state.kbs@.len(),
    ensures
        r@ == reply::ok_of(
            "ok"@,
            JsonView::Array(
                readable_rows(*state, state::kb_ids(state.kbs@), json::item_views(rows@), *auth),
            ),
        ),
{
    let ghost ids = state::kb_ids(state.kbs@);
    let ghost all = json::item_views(rows@);
    let mut out: Vec<Json> = Vec::new();
    let mut i: usize = 0;
    assert(json::item_views(out@) =~= Seq::<JsonView>::empty());
    while i < state.kbs.len()
        invariant
            i <= state.kbs@.len(),
            rows@.len() == state.kbs@.len(),
            ids == state::kb_ids(state.kbs@),
            all == json::item_views(rows@),
            json::item_views(out@) == readable_rows(*state, ids.take(i as int), all, *auth),
        decreases state.kbs@.len() - i,
    {
        let ghost before = json::item_views(out@);
        assert(ids.take(i + 1).drop_last() =~= ids.take(i as int));
        assert(ids.take(i + 1).last() == state.kbs@[i as int].id@);
        if access::kb_accessible(state, state.kbs[i].id.as_str(), auth) {
            out.push(rows[i].copy());
            assert(json::item_views(out@) =~= before.push(all[i as int]));
        }
        i += 1;
    }
    assert(ids.take(i as int) =~= ids);
    reply::ok("ok", json::array(out))
}

/// The knowledge base that a user asked for.
pub fn get_dataset<'a>(state: &'a AppState, dataset_id: &str, auth: &AuthContext) -> (r: Result<
    &'a KnowledgeBase,
    Reply,
>)
    ensures
        match r {
            Ok(kb) => access::may_read(*state, dataset_id@, *auth) && state.kb(dataset_id@) == Some(
                *kb,
            ),
            Err(answer) => !access::may_read(*state, dataset_id@, *auth) && answer@
                == not_found_of(),
        },
{
    if !access::kb_accessible(state, dataset_id, auth) {
        return Err(not_found());
    }
    match state.find_kb(dataset_id) {
        Some(kb) => Ok(kb),
        None => Err(not_found()),
    }
}

// ── Creating ────────────────────────────────────────────────────

/// A knowledge base that is to be created.
#[derive(Debug)]
pub struct NewDataset<S> {
    pub owner_id: S,
    pub name: S,
    pub description: S,
    pub permission: S,
    pub embd_id: S,
    pub parser_config: S,
    pub language: S,
}

impl View for NewDataset<String> {
    type V = NewDataset<Seq<char>>;

    open spec fn view(&self) -> NewDataset<Seq<char>> {
        NewDataset {
            owner_id: self.owner_id@,
            name: self.name@,
            description: self.description@,
            permission: self.permission@,
            embd_id: self.embd_id@,
            parser_config: self.parser_config@,
            language: self.language@,
        }
    }
}

/// The parser settings that a new knowledge base starts with, as JSON text.
pub open spec fn seed_of(method: Option<Seq<char>>, parse_type: Option<Seq<char>>) -> Seq<char> {
    let start = r#"{"chunk_token_num":2048,"overlapped_percent":0.05"#@;
    let with_method = match method {
        Some(m) => start + r#","chunk_method":""#@ + m + r#"""#@,
        None => start,
    };
    let with_type = match parse_type {
        Some(t) => with_method + r#","parse_type":""#@ + t + r#"""#@,
        None => with_method,
    };
    with_type + "}"@
}

/// The parser settings that a new knowledge base starts with.
pub fn parser_seed(method: Option<&str>, parse_type: Option<&str>) -> (r: String)
    ensures
        r@ == seed_of(text::opt_str_view(method), text::opt_str_view(parse_type)),
{
    let mut out = r#"{"chunk_token_num":2048,"overlapped_percent":0.05"#.to_owned();
    if let Some(m) = method {
        out = text::concat3(text::concat(out.as_str(), r#","chunk_method":""#).as_str(), m, r#"""#);
    }
    if let Some(t) = parse_type {
        out = text::concat3(text::concat(out.as_str(), r#","parse_type":""#).as_str(), t, r#"""#);
    }
    text::concat(out.as_str(), "}")
}

/// Why a knowledge base is not created; nothing where it is.
pub open spec fn create_refusal(s: AppState, auth: AuthContext, body: JsonView) -> Option<ReplyView> {
    let language = text::trimmed(body.text_or_empty("language"@));
    if !is_kb_name(body.text_or_empty("name"@)) {
        Some(
            reply::error_of(
                400,
                "Knowledge base name is required and must not exceed 255 characters"@,
            ),
        )
    } else {
        match models::embedding_selected(s, auth.user_id@, embedding_wanted(body)) {
            Err(reason) => Some(reply::error_of(400, reason)),
            Ok(_) => if language.len() > 32 {
                Some(reply::error_of(400, "Language must not exceed 32 characters"@))
            } else {
                None
            },
        }
    }
}

/// The knowledge base that a request asks for.
pub open spec fn new_dataset(
    s: AppState,
    auth: AuthContext,
    body: JsonView,
    default_language: Seq<char>,
) -> NewDataset<Seq<char>> {
    let language = text::trimmed(body.text_or_empty("language"@));
    NewDataset {
        owner_id: auth.user_id@,
        name: text::trimmed(body.text_or_empty("name"@)),
        description: text::trimmed(body.text_or_empty("description"@)),
        permission: permission_of(
            match body.text("permission"@) {
                Some(p) => p,
                None => "me"@,
            },
        ),
        embd_id: models::embedding_selected(s, auth.user_id@, embedding_wanted(body))->Ok_0,
        parser_config: seed_of(
            filled_text(body, "chunk_method"@),
            filled_text(body, "parse_type"@),
        ),
        language: if language.len() == 0 {
            default_language
        } else {
            language
        },
    }
}

/// The knowledge base that a request asks for, or the answer to a request that asks
/// for none. `default_language` is the one of the process.
pub fn create_dataset(
    state: &AppState,
    auth: &AuthContext,
    body: &Json,
    default_language: &str,
) -> (r: Result<NewDataset<String>, Reply>)
    ensures
        match create_refusal(*state, *auth, body@) {
            Some(answer) => r matches Err(a) && a@ == answer,
            None => r matches Ok(kb) && kb@ == new_dataset(
                *state,
                *auth,
                body@,
                default_language@,
            ),
        },
{
    let name = text::trim(body.text_or_empty("name"));
    let description = text::trim(body.text_or_empty("description"));
    let permission = match body.text("permission") {
        Some(p) => normalize_permission(p),
        None => normalize_permission("me"),
    };
    if name.is_empty() || text::byte_len(name) > 255 {
        return Err(
            reply::api_error(
                400,
                "Knowledge base name is required and must not exceed 255 characters",
            ),
        );
    }
    let embd_id = match models::validate_tenant_embedding_selector(
        state,
        auth.user_id.as_str(),
        requested_embedding(body),
    ) {
        Ok(selector) => selector,
        Err(reason) => {
            return Err(reply::api_error(400, reason.as_str()));
        },
    };
    let parser_config = parser_seed(
        text::filled(body.text("chunk_method")),
        text::filled(body.text("parse_type")),
    );
    let language = text::trim(body.text_or_empty("language"));
    if text::chars_of(language).len() > 32 {
        return Err(reply::api_error(400, "Language must not exceed 32 characters"));
    }
    let language = if language.is_empty() {
        default_language.to_owned()
    } else {
        language.to_owned()
    };
    Ok(
        NewDataset {
            owner_id: auth.user_id.clone(),
            name: name.to_owned(),
            description: description.to_owned(),
            permission,
            embd_id,
            parser_config,
            language,
        },
    )
}

/// The answer once the store has created the knowledge base, or has not.
pub fn created(outcome: Result<Json, String>) -> (r: Reply)
    ensures
        match outcome {
            Ok(kb) => r@ == reply::reply_of(201, 0, "Created"@, Some(kb@)),
            Err(reason) => r@ == reply::error_of(400, reason@),
        },
{
    match outcome {
        Ok(kb) => ApiResponse { code: 0, message: "Created".to_owned(), data: Some(kb) }.with_status(
            201,
        ),
        Err(reason) => reply::api_error(400, reason.as_str()),
    }
}

// ── Changing ────────────────────────────────────────────────────

/// The parser settings that a request may carry next to its nested ones.
pub open spec fn parser_key_list() -> Seq<Seq<char>> {
    seq![
        "chunk_method"@,
        "chunk_size"@,
        "overlap"@,
        "delimiter"@,
        "delimiters"@,
        "chunk_token_num"@,
        "overlapped_percent"@,
        "auto_keywords"@,
        "auto_questions"@,
        "enable_children"@,
        "raptorEn"@,
        "graphEn"@,
        "parser_type"@,
        "raptor_enabled"@,
        "raptor_depth"@,
        "graphrag_enabled"@,
        "entity_types"@,
        "layout_recognize"@,
        "ocr_enabled"@,
        "top_k"@,
        "similarity_threshold"@,
        "vector_similarity_weight"@,
        "rerank"@,
        "rerank_model"@,
        "pdf_parser"@,
        "page_index"@,
        "image_and_table_window"@,
        "excel_to_html"@,
        "children_delimiters"@,
        "title_levels"@,
        "enable_metadata"@,
        "raptor_threshold"@,
        "raptor_scope"@,
        "raptor_prompt"@,
        "raptor_max_token"@,
        "raptor_cluster_method"@,
        "raptor_max_cluster"@,
        "raptor_random_seed"@,
        "graphrag_method"@,
        "graphrag_batch_chunk_size"@,
        "graphrag_entity_resolution"@,
        "graphrag_community_reports"@,
        "page_rank"@,
    ]
}

fn parser_keys() -> (r: Vec<&'static str>)
    ensures
        r@.map_values(|s: &'static str| s@) == parser_key_list(),
{
    let r = vec![
        "chunk_method",
        "chunk_size",
        "overlap",
        "delimiter",
        "delimiters",
        "chunk_token_num",
        "overlapped_percent",
        "auto_keywords",
        "auto_questions",
        "enable_children",
        "raptorEn",
        "graphEn",
        "parser_type",
        "raptor_enabled",
        "raptor_depth",
        "graphrag_enabled",
        "entity_types",
        "layout_recognize",
        "ocr_enabled",
        "top_k",
        "similarity_threshold",
        "vector_similarity_weight",
        "rerank",
        "rerank_model",
        "pdf_parser",
        "page_index",
        "image_and_table_window",
        "excel_to_html",
        "children_delimiters",
        "title_levels",
        "enable_metadata",
        "raptor_threshold",
        "raptor_scope",
        "raptor_prompt",
        "raptor_max_token",
        "raptor_cluster_method",
        "raptor_max_cluster",
        "raptor_random_seed",
        "graphrag_method",
        "graphrag_batch_chunk_size",
        "graphrag_entity_resolution",
        "graphrag_community_reports",
        "page_rank",
    ];
    assert(r@.map_values(|s: &'static str| s@) =~= parser_key_list());
    r
}

/// The setting under the key: that of the request itself where it may carry one,
/// or else the nested one.
pub open spec fn setting_of(body: JsonView, key: Seq<char>) -> Option<JsonView> {
    if parser_key_list().contains(key) && body.get(key) is Some {
        body.get(key)
    } else {
        match body.members("parser_config"@) {
            Some(nested) => json::entry(nested, key),
            None => None,
        }
    }
}

/// The request carries a setting.
pub open spec fn has_settings(body: JsonView) -> bool {
    exists|key: Seq<char>| #[trigger] setting_of(body, key) is Some
}

/// The object holds exactly the settings of the request, each key once.
pub open spec fn holds_settings(config: JsonView, body: JsonView) -> bool {
    &&& config is Object
    &&& json::distinct_keys(config->Object_0)
    &&& forall|key: Seq<char>| #[trigger]
        json::entry(config->Object_0, key) == setting_of(body, key)
}

/// The object holds what `over` holds and, under the other keys, what `under` holds.
pub open spec fn is_merge(
    merged: JsonView,
    under: Seq<(Seq<char>, JsonView)>,
    over: Seq<(Seq<char>, JsonView)>,
) -> bool {
    &&& merged is Object
    &&& json::distinct_keys(merged->Object_0)
    &&& forall|key: Seq<char>| #[trigger]
        json::entry(merged->Object_0, key) == (match json::entry(over, key) {
            Some(value) => Some(value),
            None => json::entry(under, key),
        })
}

/// Puts the entries over those that are there.
fn lay_over(entries: &mut Vec<(String, Json)>, over: &Vec<(String, Json)>)
    requires
        json::distinct_keys(json::entry_views(old(entries)@)),
    ensures
        json::distinct_keys(json::entry_views(final(entries)@)),
        old(entries)@.len() > 0 || over@.len() > 0 ==> final(entries)@.len() > 0,
        over@.len() == 0 ==> final(entries)@ == old(entries)@,
        forall|key: Seq<char>| #[trigger]
            json::entry(json::entry_views(final(entries)@), key) == (match json::entry(
                json::entry_views(over@),
                key,
            ) {
                Some(value) => Some(value),
                None => json::entry(json::entry_views(old(entries)@), key),
            }),
{
    let ghost before = json::entry_views(entries@);
    let ghost all = json::entry_views(over@);
    let mut i: usize = 0;
    while i < over.len()
        invariant
            i <= over@.len(),
            all == json::entry_views(over@),
            before == json::entry_views(old(entries)@),
            json::distinct_keys(json::entry_views(entries@)),
            i == 0 ==> entries@ == old(entries)@,
            i > 0 ==> entries@.len() > 0,
            forall|key: Seq<char>| #[trigger]
                json::entry(json::entry_views(entries@), key) == (match json::entry(
                    all.take(i as int),
                    key,
                ) {
                    Some(value) => Some(value),
                    None => json::entry(before, key),
                }),
        decreases over@.len() - i,
    {
        let ghost now = json::entry_views(entries@);
        json::put(entries, over[i].0.as_str(), over[i].1.copy());
        proof {
            assert(all.take(i + 1) =~= all.take(i as int).push(all[i as int]));
            assert forall|key: Seq<char>| #[trigger]
                json::entry(json::entry_views(entries@), key) == (match json::entry(
                    all.take(i + 1),
                    key,
                ) {
                    Some(value) => Some(value),
                    None => json::entry(before, key),
                }) by {
                json::lemma_entry_push(all.take(i as int), all[i as int], key);
                assert(json::entry(now, key) == (match json::entry(all.take(i as int), key) {
                    Some(value) => Some(value),
                    None => json::entry(before, key),
                }));
            }
        }
        i += 1;
    }
    assert(all.take(i as int) =~= all);
}

/// The settings of the request, where it carries any.
fn parser_config(body: &Json) -> (r: Option<Json>)
    ensures
        match r {
            Some(config) => has_settings(body@) && holds_settings(config@, body@),
            None => !has_settings(body@),
        },
{
    let mut config = json::fields();
    let ghost nested = match body@.members("parser_config"@) {
        Some(e) => e,
        None => Seq::empty(),
    };
    if let Some(members) = body.members("parser_config") {
        lay_over(&mut config, members);
    }
    let ghost start = json::entry_views(config@);
    assert(forall|key: Seq<char>| #[trigger] json::entry(start, key) == json::entry(nested, key));
    let keys = parser_keys();
    let ghost list = parser_key_list();
    let mut i: usize = 0;
    while i < keys.len()
        invariant
            i <= keys@.len(),
            list == parser_key_list(),
            list == keys@.map_values(|s: &'static str| s@),
            json::distinct_keys(json::entry_views(config@)),
            forall|key: Seq<char>| #[trigger]
                json::entry(json::entry_views(config@), key) == (if list.take(i as int).contains(
                    key,
                ) && body@.get(key) is Some {
                    body@.get(key)
                } else {
                    json::entry(nested, key)
                }),
        decreases keys@.len() - i,
    {
        let ghost now = json::entry_views(config@);
        assert(keys@[i as int]@ == list[i as int]);
        let ghost given = body@.get(list[i as int]);
        if let Some(value) = body.get(keys[i]) {
            json::put(&mut config, keys[i], value.copy());
        }
        proof {
            assert(list.take(i + 1) =~= list.take(i as int).push(list[i as int]));
            assert forall|key: Seq<char>| #[trigger]
                json::entry(json::entry_views(config@), key) == (if list.take(i + 1).contains(key)
                    && body@.get(key) is Some {
                    body@.get(key)
                } else {
                    json::entry(nested, key)
                }) by {
                assert(json::entry(now, key) == (if list.take(i as int).contains(key) && body@.get(
                    key,
                ) is Some {
                    body@.get(key)
                } else {
                    json::entry(nested, key)
                }));
                lemma_contains_push(list.take(i as int), list[i as int], key);
            }
        }
        i += 1;
    }
    assert(list.take(i as int) =~= list);
    let ghost end = json::entry_views(config@);
    proof {
        assert forall|key: Seq<char>| #[trigger]
            json::entry(end, key) == setting_of(body@, key) by {}
    }
    if config.len() == 0 {
        proof {
            assert forall|key: Seq<char>| #[trigger] setting_of(body@, key) is None by {
                assert(json::entry(end, key) is None);
            }
        }
        None
    } else {
        proof {
            assert(end.last() == end[end.len() - 1]);
            assert(json::entry(end, end.last().0) is Some);
            assert(setting_of(body@, end.last().0) is Some);
        }
        Some(json::object(config))
    }
}

proof fn lemma_contains_push(list: Seq<Seq<char>>, added: Seq<char>, key: Seq<char>)
    ensures
        list.push(added).contains(key) <==> list.contains(key) || added == key,
{
    if list.contains(key) {
        let k = choose|k: int| 0 <= k < list.len() && list[k] == key;
        assert(list.push(added)[k] == key);
    }
    if added == key {
        assert(list.push(added)[list.len() as int] == key);
    }
    if list.push(added).contains(key) {
        let k = choose|k: int| 0 <= k < list.push(added).len() && list.push(added)[k] == key;
        if k < list.len() {
            assert(list[k] == key);
        }
    }
}

/// A change of a knowledge base. What is not there is left as it is.
#[derive(Debug)]
pub struct DatasetUpdate<S, J> {
    pub name: Option<S>,
    pub description: Option<S>,
    pub tag_sets: Option<S>,
    pub avatar: Option<S>,
    pub language: Option<S>,
    pub permission: Option<S>,
    pub embd_id: Option<S>,
    pub parser_config: Option<J>,
    pub prompt_config: Option<J>,
}

/// The request asks for a change.
pub open spec fn asks_for_change(body: JsonView) -> bool {
    ||| body.text("name"@) is Some
    ||| body.text("description"@) is Some
    ||| body.text("permission"@) is Some
    ||| embedding_wanted(body) is Some
    ||| has_settings(body)
    ||| body.members("prompt_config"@) is Some
    ||| filled_text(body, "language"@) is Some
}

/// Why the knowledge base is not changed; nothing where it is.
pub open spec fn update_refusal(
    s: AppState,
    id: Seq<char>,
    auth: AuthContext,
    body: JsonView,
) -> Option<ReplyView> {
    if !access::may_manage(s, id, auth) {
        Some(not_found_of())
    } else if body.text("name"@) is Some && !is_kb_name(body.text("name"@)->Some_0) {
        Some(
            reply::error_of(
                400,
                "Knowledge base name is required and must not exceed 255 characters"@,
            ),
        )
    } else if !asks_for_change(body) {
        Some(
            reply::error_of(
                400,
                "name, permission, embedding_model, parser_config or prompt_config is required"@,
            ),
        )
    } else {
        let kb = s.kb(id)->Some_0;
        match embedding_wanted(body) {
            None => None,
            Some(wanted) => match models::embedding_selected(s, kb.owner_id@, Some(wanted)) {
                Err(reason) => Some(reply::error_of(400, reason)),
                Ok(selected) => if selected != kb.embd_id@ && kb.chunk_count > 0 {
                    Some(
                        reply::error_of(
                            409,
                            "Cannot change the embedding model while the knowledge base contains indexed chunks"@,
                        ),
                    )
                } else {
                    None
                },
            },
        }
    }
}

/// The change is the one that the request asks for.
pub open spec fn is_update(
    u: DatasetUpdate<String, Json>,
    s: AppState,
    id: Seq<char>,
    body: JsonView,
) -> bool {
    let kb = s.kb(id)->Some_0;
    &&& text::opt_view(u.name) == body.text("name"@)
    &&& text::opt_view(u.description) == body.text("description"@)
    &&& text::opt_view(u.tag_sets) == body.text("tag_sets"@)
    &&& text::opt_view(u.avatar) == body.text("avatar"@)
    &&& text::opt_view(u.language) == filled_text(body, "language"@)
    &&& text::opt_view(u.permission) == (match body.text("permission"@) {
        Some(p) => Some(permission_of(p)),
        None => None,
    })
    &&& text::opt_view(u.embd_id) == (match embedding_wanted(body) {
        Some(wanted) => Some(models::embedding_selected(s, kb.owner_id@, Some(wanted))->Ok_0),
        None => None,
    })
    &&& match u.parser_config {
        Some(config) => has_settings(body) && holds_settings(config@, body),
        None => !has_settings(body),
    }
    &&& match u.prompt_config {
        Some(merged) => body.members("prompt_config"@) is Some && is_merge(
            merged@,
            match kb.prompt_config@ {
                JsonView::Object(entries) => entries,
                _ => Seq::empty(),
            },
            body.members("prompt_config"@)->Some_0,
        ),
        None => body.members("prompt_config"@) is None,
    }
}

/// The object with the entries laid over those of `stored`, where that is an object.
fn merged_over(stored: &Json, over: &Vec<(String, Json)>) -> (r: Json)
    ensures
        is_merge(
            r@,
            match stored@ {
                JsonView::Object(entries) => entries,
                _ => Seq::empty(),
            },
            json::entry_views(over@),
        ),
{
    let mut entries = json::fields();
    if let Json::Object(old_entries) = stored {
        proof {
            json::lemma_object_view(*old_entries);
        }
        lay_over(&mut entries, old_entries);
    }
    lay_over(&mut entries, over);
    json::object(entries)
}

/// The change that a request asks for, or the answer to a request that may not have
/// it.
pub fn update_dataset(
    state: &AppState,
    dataset_id: &str,
    auth: &AuthContext,
    body: &Json,
) -> (r: Result<DatasetUpdate<String, Json>, Reply>)
    ensures
        match update_refusal(*state, dataset_id@, *auth, body@) {
            Some(answer) => r matches Err(a) && a@ == answer,
            None => r matches Ok(u) && is_update(u, *state, dataset_id@, body@),
        },
{
    if !access::kb_manageable(state, dataset_id, auth) {
        return Err(not_found());
    }
    let name = body.text("name");
    let description = body.text("description");
    let permission = match body.text("permission") {
        Some(p) => Some(normalize_permission(p)),
        None => None,
    };
    let wanted = requested_embedding(body);
    if let Some(name) = name {
        let trimmed = text::trim(name);
        if trimmed.is_empty() || text::byte_len(trimmed) > 255 {
            return Err(
                reply::api_error(
                    400,
                    "Knowledge base name is required and must not exceed 255 characters",
                ),
            );
        }
    }
    let parser_config = parser_config(body);
    let prompt_config = body.members("prompt_config");
    let language = text::filled(body.text("language"));
    if name.is_none() && description.is_none() && permission.is_none() && wanted.is_none()
        && parser_config.is_none() && prompt_config.is_none() && language.is_none() {
        return Err(
            reply::api_error(
                400,
                "name, permission, embedding_model, parser_config or prompt_config is required",
            ),
        );
    }
    let current = match state.find_kb(dataset_id) {
        Some(kb) => kb,
        None => {
            return Err(not_found());
        },
    };
    let embd_id = match wanted {
        Some(selector) => {
            let selected = match models::validate_tenant_embedding_selector(
                state,
                current.owner_id.as_str(),
                Some(selector),
            ) {
                Ok(selected) => selected,
                Err(reason) => {
                    return Err(reply::api_error(400, reason.as_str()));
                },
            };
            if !text::same(selected.as_str(), current.embd_id.as_str()) && current.chunk_count
                > 0 {
                return Err(
                    reply::api_error(
                        409,
                        "Cannot change the embedding model while the knowledge base contains indexed chunks",
                    ),
                );
            }
            Some(selected)
        },
        None => None,
    };
    let prompt_config = match prompt_config {
        Some(incoming) => Some(merged_over(&current.prompt_config, incoming)),
        None => None,
    };
    Ok(
        DatasetUpdate {
            name: text::owned(name),
            description: text::owned(description),
            tag_sets: text::owned(body.text("tag_sets")),
            avatar: text::owned(body.text("avatar")),
            language: text::owned(language),
            permission,
            embd_id,
            parser_config,
            prompt_config,
        },
    )
}

/// The answer where a store refuses a part of the change; nothing where the change
/// goes on.
pub fn part_stored(outcome: Result<(), String>) -> (r: Option<Reply>)
    ensures
        match (outcome, r) {
            (Ok(_), None) => true,
            (Err(reason), Some(answer)) => answer@ == reply::error_of(400, reason@),
            _ => false,
        },
{
    match outcome {
        Ok(_) => None,
        Err(reason) => Some(reply::api_error(400, reason.as_str())),
    }
}

/// The answer once the store has changed the knowledge base, or has not.
pub fn updated(outcome: Result<Option<Json>, String>) -> (r: Reply)
    ensures
        match outcome {
            Ok(Some(kb)) => r@ == reply::ok_of("Updated"@, kb@),
            Ok(None) => r@ == not_found_of(),
            Err(reason) => r@ == reply::error_of(400, reason@),
        },
{
    match outcome {
        Ok(Some(kb)) => reply::ok("Updated", kb),
        Ok(None) => not_found(),
        Err(reason) => reply::api_error(400, reason.as_str()),
    }
}

/// The vectors of indexed chunks stay comparable: a change that goes through never
/// gives another embedding model to a knowledge base that holds chunks.
pub proof fn indexed_chunks_keep_their_model(
    s: AppState,
    id: Seq<char>,
    auth: AuthContext,
    body: JsonView,
    u: DatasetUpdate<String, Json>,
)
    requires
        update_refusal(s, id, auth, body) is None,
        is_update(u, s, id, body),
        s.kb(id)->Some_0.chunk_count > 0,
    ensures
        u.embd_id matches Some(model) ==> model@ == s.kb(id)->Some_0.embd_id@,
{
}

// ── Deleting ────────────────────────────────────────────────────

/// The deletion of a knowledge base: its documents go first, one after the other.
#[derive(Debug)]
pub struct DatasetDeletion {
    pub dataset_id: String,
    pub doc_ids: Vec<String>,
}

/// What comes next in the deletion of a knowledge base.
#[derive(Debug)]
pub enum DatasetStep<S> {
    /// Delete the document at this position.
    DeleteDocument(usize),
    /// Drop the graphs, whatever comes of it, and then the knowledge base itself.
    DropDataset,
    /// Give up.
    Fail(S),
}

impl View for DatasetStep<String> {
    type V = DatasetStep<Seq<char>>;

    open spec fn view(&self) -> DatasetStep<Seq<char>> {
        match self {
            DatasetStep::DeleteDocument(i) => DatasetStep::DeleteDocument(*i),
            DatasetStep::DropDataset => DatasetStep::DropDataset,
            DatasetStep::Fail(reason) => DatasetStep::Fail(reason@),
        }
    }
}

/// The documents of a knowledge base, in order.
pub open spec fn docs_of(docs: Seq<DocRecord>, kb_id: Seq<char>) -> Seq<Seq<char>>
    decreases docs.len(),
{
    if docs.len() == 0 {
        Seq::empty()
    } else if docs.last().kb_id@ == kb_id {
        docs_of(docs.drop_last(), kb_id).push(docs.last().id@)
    } else {
        docs_of(docs.drop_last(), kb_id)
    }
}

/// Opens the deletion of a knowledge base and of everything that hangs off it.
pub fn delete_dataset_data(state: &AppState, dataset_id: &str) -> (r: DatasetDeletion)
    ensures
        r.dataset_id@ == dataset_id@,
        text::views(r.doc_ids@) == docs_of(state.docs@, dataset_id@),
{
    let mut doc_ids: Vec<String> = Vec::new();
    let mut i: usize = 0;
    assert(text::views(doc_ids@) =~= Seq::<Seq<char>>::empty());
    while i < state.docs.len()
        invariant
            i <= state.docs@.len(),
            text::views(doc_ids@) == docs_of(state.docs@.take(i as int), dataset_id@),
        decreases state.docs@.len() - i,
    {
        let ghost before = text::views(doc_ids@);
        assert(state.docs@.take(i + 1).drop_last() =~= state.docs@.take(i as int));
        if text::same(state.docs[i].kb_id.as_str(), dataset_id) {
            doc_ids.push(state.docs[i].id.clone());
            assert(text::views(doc_ids@) =~= before.push(state.docs@[i as int].id@));
        }
        i += 1;
    }
    assert(state.docs@.take(i as int) =~= state.docs@);
    DatasetDeletion { dataset_id: dataset_id.to_owned(), doc_ids }
}

impl DatasetDeletion {
    /// What comes next once `done` documents are gone and the last outcome is this.
    pub open spec fn step(&self, done: nat, outcome: Result<(), Seq<char>>) -> DatasetStep<
        Seq<char>,
    > {
        match outcome {
            Err(reason) => DatasetStep::Fail(reason),
            Ok(_) => if done < self.doc_ids@.len() {
                DatasetStep::DeleteDocument(done as usize)
            } else {
                DatasetStep::DropDataset
            },
        }
    }

    /// What comes next once `done` documents are gone and the last outcome is this.
    /// The deletion starts with none gone and nothing failed.
    pub fn next(&self, done: usize, outcome: Result<(), String>) -> (r: DatasetStep<String>)
        ensures
            r@ == self.step(done as nat, text::outcome_view(outcome)),
    {
        match outcome {
            Err(reason) => DatasetStep::Fail(reason),
            Ok(_) => if done < self.doc_ids.len() {
                DatasetStep::DeleteDocument(done)
            } else {
                DatasetStep::DropDataset
            },
        }
    }
}

/// The deletion as a whole: the positions of the documents that were gone through,
/// and whether the knowledge base itself is dropped. `outcomes` are those of the
/// documents, in order.
pub open spec fn dataset_run(
    d: DatasetDeletion,
    done: nat,
    last: Result<(), Seq<char>>,
    outcomes: Seq<Result<(), Seq<char>>>,
) -> (Seq<usize>, Result<(), Seq<char>>)
    decreases outcomes.len(),
{
    match d.step(done, last) {
        DatasetStep::Fail(reason) => (Seq::empty(), Err(reason)),
        DatasetStep::DropDataset => (Seq::empty(), Ok(())),
        DatasetStep::DeleteDocument(i) => if outcomes.len() == 0 {
            (Seq::empty(), Err(Seq::empty()))
        } else {
            let rest = dataset_run(d, done + 1, outcomes[0], outcomes.drop_first());
            (seq![i] + rest.0, rest.1)
        },
    }
}

/// The knowledge base is dropped exactly where every one of its documents could be
/// deleted; then each of them was, once and in order.
pub proof fn datasets_outlive_their_documents(
    d: DatasetDeletion,
    done: nat,
    last: Result<(), Seq<char>>,
    outcomes: Seq<Result<(), Seq<char>>>,
)
    requires
        last is Ok,
        done <= d.doc_ids@.len(),
        outcomes.len() == d.doc_ids@.len() - done,
    ensures
        dataset_run(d, done, last, outcomes).1 is Ok <==> forall|i: int|
            0 <= i < outcomes.len() ==> #[trigger] outcomes[i] is Ok,
        dataset_run(d, done, last, outcomes).1 is Ok ==> dataset_run(d, done, last, outcomes).0
            == Seq::new(outcomes.len(), |i: int| (done + i) as usize),
    decreases outcomes.len(),
{
    let run = dataset_run(d, done, last, outcomes);
    if outcomes.len() > 0 {
        let rest = outcomes.drop_first();
        let tail = dataset_run(d, done + 1, outcomes[0], rest);
        if outcomes[0] is Ok {
            datasets_outlive_their_documents(d, done + 1, outcomes[0], rest);
            if tail.1 is Ok {
                assert forall|i: int| 0 <= i < outcomes.len() implies #[trigger] outcomes[i]
                    is Ok by {
                    if i > 0 {
                        assert(rest[i - 1] == outcomes[i]);
                    }
                }
                assert(run.0 =~= Seq::new(outcomes.len(), |i: int| (done + i) as usize));
            } else {
                let bad = choose|i: int| 0 <= i < rest.len() && !(#[trigger] rest[i] is Ok);
                assert(outcomes[bad + 1] == rest[bad]);
            }
        } else {
            assert(tail.1 is Err);
        }
    } else {
        assert(run.0 =~= Seq::new(0, |i: int| (done + i) as usize));
    }
}

/// The graphs that are stored: those of whole knowledge bases, by their id, and those
/// of single documents.
#[derive(Debug)]
pub struct GraphTable {
    pub kb_graphs: Vec<String>,
    /// The document and the knowledge base of each checkpoint.
    pub checkpoints: Vec<(String, String)>,
}

/// The views of the checkpoints.
pub open spec fn checkpoint_views(rows: Seq<(String, String)>) -> Seq<(Seq<char>, Seq<char>)> {
    rows.map_values(|row: (String, String)| (row.0@, row.1@))
}

/// What is left of the graphs once a knowledge base is gone: everything but its own.
pub fn graphs_without(table: &GraphTable, dataset_id: &str) -> (r: GraphTable)
    ensures
        text::views(r.kb_graphs@) == text::views(table.kb_graphs@).filter(
            |id: Seq<char>| id != dataset_id@,
        ),
        checkpoint_views(r.checkpoints@) == checkpoint_views(table.checkpoints@).filter(
            |row: (Seq<char>, Seq<char>)| row.1 != dataset_id@,
        ),
{
    let ghost graphs = text::views(table.kb_graphs@);
    let ghost rows = checkpoint_views(table.checkpoints@);
    let ghost keep_graph = |id: Seq<char>| id != dataset_id@;
    let ghost keep_row = |row: (Seq<char>, Seq<char>)| row.1 != dataset_id@;
    let mut kb_graphs: Vec<String> = Vec::new();
    let mut checkpoints: Vec<(String, String)> = Vec::new();
    proof {
        reveal(Seq::filter);
        assert(graphs.take(0) =~= Seq::<Seq<char>>::empty());
        assert(rows.take(0) =~= Seq::<(Seq<char>, Seq<char>)>::empty());
        assert(text::views(kb_graphs@) =~= graphs.take(0).filter(keep_graph));
        assert(checkpoint_views(checkpoints@) =~= rows.take(0).filter(keep_row));
    }
    let mut i: usize = 0;
    while i < table.kb_graphs.len()
        invariant
            i <= table.kb_graphs@.len(),
            graphs == text::views(table.kb_graphs@),
            keep_graph == (|id: Seq<char>| id != dataset_id@),
            text::views(kb_graphs@) == graphs.take(i as int).filter(keep_graph),
        decreases table.kb_graphs@.len() - i,
    {
        let ghost before = text::views(kb_graphs@);
        proof {
            reveal(Seq::filter);
            assert(graphs.take(i + 1).drop_last() =~= graphs.take(i as int));
            assert(graphs[i as int] == table.kb_graphs@[i as int]@);
        }
        if !text::same(table.kb_graphs[i].as_str(), dataset_id) {
            kb_graphs.push(table.kb_graphs[i].clone());
            assert(text::views(kb_graphs@) =~= before.push(graphs[i as int]));
        }
        i += 1;
    }
    assert(graphs.take(i as int) =~= graphs);
    let mut j: usize = 0;
    while j < table.checkpoints.len()
        invariant
            j <= table.checkpoints@.len(),
            rows == checkpoint_views(table.checkpoints@),
            keep_row == (|row: (Seq<char>, Seq<char>)| row.1 != dataset_id@),
            checkpoint_views(checkpoints@) == rows.take(j as int).filter(keep_row),
        decreases table.checkpoints@.len() - j,
    {
        let ghost before = checkpoint_views(checkpoints@);
        proof {
            reveal(Seq::filter);
            assert(rows.take(j + 1).drop_last() =~= rows.take(j as int));
            assert(rows[j as int] == (
                table.checkpoints@[j as int].0@,
                table.checkpoints@[j as int].1@,
            ));
        }
        if !text::same(table.checkpoints[j].1.as_str(), dataset_id) {
            checkpoints.push((table.checkpoints[j].0.clone(), table.checkpoints[j].1.clone()));
            assert(checkpoint_views(checkpoints@) =~= before.push(rows[j as int]));
        }
        j += 1;
    }
    assert(rows.take(j as int) =~= rows);
    GraphTable { kb_graphs, checkpoints }
}

/// Who may delete the knowledge base; the answer to everybody else.
pub fn delete_access(state: &AppState, dataset_id: &str, auth: &AuthContext) -> (r: Option<Reply>)
    ensures
        access::may_manage(*state, dataset_id@, *auth) <==> r is None,
        r matches Some(a) ==> a@ == not_found_of(),
{
    if access::kb_manageable(state, dataset_id, auth) {
        None
    } else {
        Some(not_found())
    }
}

/// The answer to the deletion of one knowledge base. The outcome tells whether it was
/// there.
pub fn delete_dataset(outcome: Result<bool, String>) -> (r: Reply)
    ensures
        match outcome {
            Ok(true) => r@ == reply::reply_of(200, 0, "Deleted"@, None),
            Ok(false) => r@ == not_found_of(),
            Err(reason) => r@ == reply::error_of(500, reason@),
        },
{
    match outcome {
        Ok(true) => reply::plain(200, 0, "Deleted"),
        Ok(false) => not_found(),
        Err(reason) => reply::api_error(500, reason.as_str()),
    }
}

/// The answer that tells how many knowledge bases were deleted.
pub open spec fn success_of(count: nat) -> ReplyView {
    reply::ok_of(
        "Success"@,
        JsonView::Object(seq![("success_count"@, JsonView::UInt(count as u64))]),
    )
}

fn success(count: u64) -> (r: Reply)
    ensures
        r@ == success_of(count as nat),
{
    let entries = json::with(json::fields(), "success_count", Json::UInt(count));
    assert(json::entry_views(entries@) =~= seq![("success_count"@, JsonView::UInt(count))]);
    reply::ok("Success", json::object(entries))
}

/// The knowledge bases that a request asks to delete: those that it lists, or all
/// that the user may read where it lists none and says so.
pub open spec fn ids_to_delete(s: AppState, auth: AuthContext, body: JsonView) -> Seq<Seq<char>> {
    let listed = match body.items("ids"@) {
        Some(items) => json::string_items(items),
        None => Seq::empty(),
    };
    if listed.len() > 0 {
        listed
    } else if body.flag("delete_all"@) == Some(true) {
        access::readable(s, state::kb_ids(s.kbs@), auth)
    } else {
        Seq::empty()
    }
}

/// Those that the user may not manage, in order.
pub open spec fn unmanageable(s: AppState, ids: Seq<Seq<char>>, auth: AuthContext) -> Seq<
    Seq<char>,
> {
    ids.filter(|id: Seq<char>| !access::may_manage(s, id, auth))
}

/// The knowledge bases that are deleted one after the other, or the answer where none
/// is touched.
pub fn delete_datasets(state: &AppState, auth: &AuthContext, body: &Json) -> (r: Result<
    Vec<String>,
    Reply,
>)
    ensures
        ({
            let ids = ids_to_delete(*state, *auth, body@);
            let missing = unmanageable(*state, ids, *auth);
            let nothing_asked = (match body@.items("ids"@) {
                Some(items) => json::string_items(items).len() == 0,
                None => true,
            }) && body@.flag("delete_all"@) != Some(true);
            match r {
                Ok(todo) => !nothing_asked && missing.len() == 0 && text::views(todo@) == ids,
                Err(answer) => if nothing_asked {
                    answer@ == success_of(0)
                } else {
                    missing.len() > 0 && answer@ == reply::error_of(
                        400,
                        "User '"@ + auth.user_id@ + "' lacks permission for datasets: '"@
                            + text::joined(missing, ", "@) + "'"@,
                    )
                },
            }
        }),
{
    let delete_all = match body.flag("delete_all") {
        Some(b) => b,
        None => false,
    };
    let requested = match body.items("ids") {
        Some(items) => json::strings_among(items),
        None => Vec::new(),
    };
    assert(requested@.len() == text::views(requested@).len());
    let ids = if requested.len() == 0 {
        if !delete_all {
            return Err(success(0));
        }
        access::accessible_kbs(state, auth)
    } else {
        requested
    };
    let ghost all = text::views(ids@);
    assert(all =~= ids_to_delete(*state, *auth, body@));
    let ghost bad = |id: Seq<char>| !access::may_manage(*state, id, *auth);
    let mut missing: Vec<String> = Vec::new();
    let mut i: usize = 0;
    proof {
        reveal(Seq::filter);
        assert(all.take(0) =~= Seq::<Seq<char>>::empty());
        assert(text::views(missing@) =~= all.take(0).filter(bad));
    }
    while i < ids.len()
        invariant
            i <= ids@.len(),
            all == text::views(ids@),
            bad == (|id: Seq<char>| !access::may_manage(*state, id, *auth)),
            text::views(missing@) == all.take(i as int).filter(bad),
        decreases ids@.len() - i,
    {
        let ghost before = text::views(missing@);
        proof {
            reveal(Seq::filter);
            assert(all.take(i + 1).drop_last() =~= all.take(i as int));
            assert(all[i as int] == ids@[i as int]@);
        }
        if !access::kb_manageable(state, ids[i].as_str(), auth) {
            missing.push(ids[i].clone());
            assert(text::views(missing@) =~= before.push(all[i as int]));
        }
        i += 1;
    }
    assert(all.take(i as int) =~= all);
    assert(missing@.len() == text::views(missing@).len());
    if missing.len() > 0 {
        let listed = text::join(&missing, ", ");
        let head = text::concat3(
            "User '",
            auth.user_id.as_str(),
            "' lacks permission for datasets: '",
        );
        let message = text::concat3(head.as_str(), listed.as_str(), "'");
        return Err(reply::api_error(400, message.as_str()));
    }
    Ok(ids)
}

/// A request that deletes anything deletes only what the user may manage: one
/// knowledge base that they may not manage protects all that the request names.
pub proof fn deletions_stay_within_rights(s: AppState, auth: AuthContext, body: JsonView)
    requires
        unmanageable(s, ids_to_delete(s, auth, body), auth).len() == 0,
    ensures
        forall|i: int|
            0 <= i < ids_to_delete(s, auth, body).len() ==> access::may_manage(
                s,
                #[trigger] ids_to_delete(s, auth, body)[i],
                auth,
            ),
{
    let ids = ids_to_delete(s, auth, body);
    let bad = |id: Seq<char>| !access::may_manage(s, id, auth);
    assert forall|i: int| 0 <= i < ids.len() implies access::may_manage(
        s,
        #[trigger] ids[i],
        auth,
    ) by {
        if bad(ids[i]) {
            broadcast use vstd::seq_lib::group_filter_ensures;

            assert(ids.filter(bad).contains(ids[i]));
        }
    }
}

/// How many of the deletions found something to delete.
pub open spec fn successes(outcomes: Seq<bool>) -> nat
    decreases outcomes.len(),
{
    if outcomes.len() == 0 {
        0
    } else {
        successes(outcomes.drop_last()) + if outcomes.last() {
            1nat
        } else {
            0
        }
    }
}

/// The answer once the knowledge bases are gone. `outcomes` are those of the
/// deletions in order, up to the first that failed; `failure` is its reason.
pub fn datasets_deleted(outcomes: &Vec<bool>, failure: Option<String>) -> (r: Reply)
    ensures
        match failure {
            Some(reason) => r@ == reply::error_of(500, reason@),
            None => r@ == success_of(successes(outcomes@)),
        },
{
    if let Some(reason) = failure {
        return reply::api_error(500, reason.as_str());
    }
    let mut count: u64 = 0;
    let mut i: usize = 0;
    while i < outcomes.len()
        invariant
            i <= outcomes.len(),
            count <= i,
            count == successes(outcomes@.take(i as int)),
        decreases outcomes@.len() - i,
    {
        assert(outcomes@.take(i + 1).drop_last() =~= outcomes@.take(i as int));
        if outcomes[i] {
            count += 1;
        }
        i += 1;
    }
    assert(outcomes@.take(i as int) =~= outcomes@);
    success(count)
}

// ── Laws ────────────────────────────────────────────────────────

/// A new knowledge base belongs to whoever asks for it, and carries what the request
/// tells, without white space around it. Without a permission it is for its owner alone,
/// and so under the older name `private`; any other permission is kept as it is.
pub proof fn new_bases_carry_what_the_request_tells(
    state: AppState,
    auth: AuthContext,
    body: Json,
    default_language: &str,
    r: Result<NewDataset<String>, Reply>,
)
    requires
        call_ensures(create_dataset, (&state, &auth, &body, default_language), r),
    ensures
        r matches Ok(kb) ==> {
            &&& kb.owner_id@ == auth.user_id@
            &&& body@.text("name"@) matches Some(name) && kb.name@ == text::trimmed(name)
            &&& 0 < kb.name@.len()
            &&& vstd::utf8::encode_utf8(kb.name@).len() <= 255
            &&& body@.text("description"@) is None ==> kb.description@.len() == 0
            &&& body@.text("description"@) matches Some(d) ==> kb.description@ == text::trimmed(d)
            &&& body@.text("permission"@) is None ==> kb.permission@ == "me"@
            &&& body@.text("permission"@) == Some("private"@) ==> kb.permission@ == "me"@
            &&& body@.text("permission"@) matches Some(p) ==> p != "private"@ ==> kb.permission@
                == p
            &&& (body@.text("language"@) is None || text::trimmed(
                body@.text("language"@)->Some_0,
            ).len() == 0) ==> kb.language@ == default_language@
            &&& body@.text("language"@) matches Some(l) ==> text::trimmed(l).len() > 0
                ==> kb.language@ == text::trimmed(l) && kb.language@.len() <= 32
        },
{
    reveal_strlit("private");
    reveal_strlit("me");
    assert(text::trimmed(Seq::<char>::empty()).len() == 0) by {
        text::trimming_keeps_tight_texts(Seq::empty());
    }
}

/// Somebody else may not read a knowledge base that was created without a permission,
/// however the teams are made up; nor one that was created as `private`. One that was
/// created for the team is read by the members of the owner's team.
pub proof fn new_bases_are_closed_to_others(
    state: AppState,
    auth: AuthContext,
    body: Json,
    default_language: &str,
    created_as: NewDataset<String>,
    later: AppState,
    kb_id: &str,
    kb: KnowledgeBase,
    other: AuthContext,
    seen: bool,
)
    requires
        call_ensures(
            create_dataset,
            (&state, &auth, &body, default_language),
            Ok::<_, Reply>(created_as),
        ),
        later.kb(kb_id@) == Some(kb),
        kb.owner_id@ == created_as.owner_id@,
        kb.permission@ == created_as.permission@,
        call_ensures(access::kb_accessible, (&later, kb_id, &other), seen),
        other.user_id@ != auth.user_id@,
        auth.user_id@.len() > 0,
    ensures
        body@.text("permission"@) is None ==> !seen,
        body@.text("permission"@) == Some("private"@) ==> !seen,
        body@.text("permission"@) == Some("team"@) ==> seen == state::is_member(
            later.tenants@,
            auth.user_id@,
            other.user_id@,
        ),
{
    reveal_strlit("private");
    reveal_strlit("team");
    reveal_strlit("me");
    assert("me"@.len() != "team"@.len());
    assert("private"@.len() != "team"@.len());
}

/// The embedding model of a new knowledge base is the one that the request selects: by
/// `embd_id` where that is there at all, and by `embedding_model` else.
pub proof fn new_bases_are_bound_as_the_request_selects(
    state: AppState,
    auth: AuthContext,
    body: Json,
    default_language: &str,
    r: Result<NewDataset<String>, Reply>,
    tenant: &str,
    selector: Option<&str>,
    selected: Result<String, String>,
)
    requires
        call_ensures(create_dataset, (&state, &auth, &body, default_language), r),
        call_ensures(
            models::validate_tenant_embedding_selector,
            (&state, tenant, selector),
            selected,
        ),
        tenant@ == auth.user_id@,
        body@.get("embd_id"@) matches Some(JsonView::Str(s)) ==> text::opt_str_view(selector) == Some(
            s,
        ),
        body@.get("embd_id"@) is Some && !(body@.get("embd_id"@)->Some_0 is Str) ==> selector
            is None,
        body@.get("embd_id"@) is None ==> text::opt_str_view(selector) == body@.text(
            "embedding_model"@,
        ),
    ensures
        r matches Ok(kb) ==> (selected matches Ok(model) && kb.embd_id@ == model@),
        selected matches Err(reason) ==> body@.text("name"@) matches Some(name) ==> 0
            < text::trimmed(name).len() && vstd::utf8::encode_utf8(text::trimmed(name)).len()
            <= 255 ==> (r matches Err(a) && reply::tells(a@, 400, 400, reason@)),
        body@.text("name"@) matches Some(name) ==> selected is Ok && 0 < text::trimmed(name).len()
            && vstd::utf8::encode_utf8(text::trimmed(name)).len() <= 255 ==> (r is Ok <==> (
        body@.text("language"@) is None || text::trimmed(body@.text("language"@)->Some_0).len()
            <= 32)),
        r matches Err(a) ==> selected is Ok ==> (reply::tells(
            a@,
            400,
            400,
            "Knowledge base name is required and must not exceed 255 characters"@,
        ) || reply::tells(a@, 400, 400, "Language must not exceed 32 characters"@)),
{
    text::trimming_keeps_tight_texts(Seq::empty());
    reply::answers_tell_what_they_were_given(
        400,
        400,
        "Knowledge base name is required and must not exceed 255 characters"@,
        JsonView::Null,
    );
    reply::answers_tell_what_they_were_given(
        400,
        400,
        "Language must not exceed 32 characters"@,
        JsonView::Null,
    );
    match selected {
        Err(reason) => {
            reply::answers_tell_what_they_were_given(400, 400, reason@, JsonView::Null);
        },
        Ok(_) => {},
    }
}

/// A request without a name, with a blank one or with one over 255 bytes creates nothing,
/// and so does one whose language has more than 32 characters.
pub proof fn bases_need_a_name(
    state: AppState,
    auth: AuthContext,
    body: Json,
    default_language: &str,
    r: Result<NewDataset<String>, Reply>,
)
    requires
        call_ensures(create_dataset, (&state, &auth, &body, default_language), r),
    ensures
        body@.text("name"@) is None || text::trimmed(body@.text("name"@)->Some_0).len() == 0
            || vstd::utf8::encode_utf8(text::trimmed(body@.text("name"@)->Some_0)).len() > 255 ==> (
        r matches Err(a) && reply::tells(
            a@,
            400,
            400,
            "Knowledge base name is required and must not exceed 255 characters"@,
        )),
        body@.text("language"@) matches Some(l) ==> text::trimmed(l).len() > 32 ==> r is Err,
{
    text::trimming_keeps_tight_texts(Seq::empty());
    reply::answers_tell_what_they_were_given(
        400,
        400,
        "Knowledge base name is required and must not exceed 255 characters"@,
        JsonView::Null,
    );
}

/// The parser settings of a new knowledge base are an object with the usual sizes, and
/// with the method and the kind of parsing that are told, in that order.
pub proof fn parser_settings_start_with_the_usual_sizes(
    method: Option<&str>,
    parse_type: Option<&str>,
    r: String,
)
    requires
        call_ensures(parser_seed, (method, parse_type), r),
    ensures
        method is None && parse_type is None ==> r@
            == r#"{"chunk_token_num":2048,"overlapped_percent":0.05}"#@,
        method matches Some(m) ==> parse_type is None ==> r@
            == r#"{"chunk_token_num":2048,"overlapped_percent":0.05,"chunk_method":""#@ + m@
            + r#""}"#@,
        parse_type matches Some(t) ==> method is None ==> r@
            == r#"{"chunk_token_num":2048,"overlapped_percent":0.05,"parse_type":""#@ + t@
            + r#""}"#@,
        method matches Some(m) ==> parse_type matches Some(t) ==> r@
            == r#"{"chunk_token_num":2048,"overlapped_percent":0.05,"chunk_method":""#@ + m@
            + r#"","parse_type":""#@ + t@ + r#""}"#@,
{
    reveal_strlit(r#"{"chunk_token_num":2048,"overlapped_percent":0.05"#);
    reveal_strlit(r#"{"chunk_token_num":2048,"overlapped_percent":0.05}"#);
    reveal_strlit(r#"{"chunk_token_num":2048,"overlapped_percent":0.05,"chunk_method":""#);
    reveal_strlit(r#"{"chunk_token_num":2048,"overlapped_percent":0.05,"parse_type":""#);
    reveal_strlit(r#","chunk_method":""#);
    reveal_strlit(r#","parse_type":""#);
    reveal_strlit(r#"","parse_type":""#);
    reveal_strlit(r#"""#);
    reveal_strlit(r#""}"#);
    reveal_strlit("}");
    let start = r#"{"chunk_token_num":2048,"overlapped_percent":0.05"#@;
    assert(start + "}"@ =~= r#"{"chunk_token_num":2048,"overlapped_percent":0.05}"#@);
    let by_method = r#"{"chunk_token_num":2048,"overlapped_percent":0.05,"chunk_method":""#@;
    assert(start + r#","chunk_method":""#@ =~= by_method);
    let by_type = r#"{"chunk_token_num":2048,"overlapped_percent":0.05,"parse_type":""#@;
    assert(start + r#","parse_type":""#@ =~= by_type);
    assert(r#"""#@ + "}"@ =~= r#""}"#@);
    assert(r#"""#@ + r#","parse_type":""#@ =~= r#"","parse_type":""#@);
    match (method, parse_type) {
        (Some(m), Some(t)) => {
            assert(by_method + m@ + r#"""#@ + r#","parse_type":""#@ + t@ + r#"""#@ + "}"@
                =~= by_method + m@ + (r#"""#@ + r#","parse_type":""#@) + t@ + (r#"""#@ + "}"@));
        },
        (Some(m), None) => {
            assert(by_method + m@ + r#"""#@ + "}"@ =~= by_method + m@ + (r#"""#@ + "}"@));
        },
        (None, Some(t)) => {
            assert(by_type + t@ + r#"""#@ + "}"@ =~= by_type + t@ + (r#"""#@ + "}"@));
        },
        (None, None) => {},
    }
}

/// The settings of a new knowledge base come from `chunk_method` and `parse_type`.
pub proof fn new_bases_start_with_the_settings_that_are_told(
    state: AppState,
    auth: AuthContext,
    body: Json,
    default_language: &str,
    kb: NewDataset<String>,
    method: Option<&str>,
    parse_type: Option<&str>,
    seed: String,
)
    requires
        call_ensures(
            create_dataset,
            (&state, &auth, &body, default_language),
            Ok::<_, Reply>(kb),
        ),
        call_ensures(parser_seed, (method, parse_type), seed),
        body@.text("chunk_method"@) is None || text::trimmed(
            body@.text("chunk_method"@)->Some_0,
        ).len() == 0 ==> method is None,
        body@.text("chunk_method"@) matches Some(m) ==> text::trimmed(m).len() > 0
            ==> text::opt_str_view(method) == Some(text::trimmed(m)),
        body@.text("parse_type"@) is None || text::trimmed(body@.text("parse_type"@)->Some_0).len()
            == 0 ==> parse_type is None,
        body@.text("parse_type"@) matches Some(t) ==> text::trimmed(t).len() > 0
            ==> text::opt_str_view(parse_type) == Some(text::trimmed(t)),
    ensures
        kb.parser_config@ == seed@,
{
}

/// The places at which the user may read the knowledge base.
pub open spec fn readable_places(s: AppState, auth: AuthContext) -> Seq<int> {
    Seq::new(s.kbs@.len(), |i: int| i).filter(
        |i: int| access::may_read(s, s.kbs@[i].id@, auth),
    )
}

proof fn lemma_readable_rows(
    s: AppState,
    ids: Seq<Seq<char>>,
    rows: Seq<JsonView>,
    auth: AuthContext,
)
    requires
        ids.len() <= s.kbs@.len(),
        forall|i: int| 0 <= i < ids.len() ==> #[trigger] ids[i] == s.kbs@[i].id@,
    ensures
        readable_rows(s, ids, rows, auth) == Seq::new(ids.len(), |i: int| i).filter(
            |i: int| access::may_read(s, s.kbs@[i].id@, auth),
        ).map_values(|i: int| rows[i]),
    decreases ids.len(),
{
    let places = Seq::new(ids.len(), |i: int| i);
    let p = |i: int| access::may_read(s, s.kbs@[i].id@, auth);
    let f = |i: int| rows[i];
    reveal(Seq::filter);
    if ids.len() > 0 {
        lemma_readable_rows(s, ids.drop_last(), rows, auth);
        assert(places.drop_last() =~= Seq::new(ids.drop_last().len(), |i: int| i));
        assert(ids.last() == s.kbs@[ids.len() - 1].id@);
        let before = places.drop_last().filter(p);
        assert(before.push(places.last()).map_values(f) =~= before.map_values(f).push(
            rows[ids.len() - 1],
        ));
    } else {
        assert(places =~= Seq::<int>::empty());
        assert(places.filter(p) =~= Seq::<int>::empty());
        assert(places.filter(p).map_values(f) =~= Seq::<JsonView>::empty());
    }
}

/// A user is shown exactly the knowledge bases that they may read, each as it is told,
/// in order.
pub proof fn listings_show_the_readable_bases(
    state: AppState,
    auth: AuthContext,
    rows: Vec<Json>,
    r: Reply,
)
    requires
        call_ensures(list_datasets, (&state, &auth, &rows), r),
        rows@.len() == state.kbs@.len(),
    ensures
        reply::tells(r@, 200, 0, "ok"@),
        r@.body.get("data"@) == Some(
            JsonView::Array(readable_places(state, auth).map_values(|i: int| rows@[i]@)),
        ),
{
    let ids = state::kb_ids(state.kbs@);
    assert forall|i: int| 0 <= i < ids.len() implies #[trigger] ids[i] == state.kbs@[i].id@ by {}
    let views = json::item_views(rows@);
    lemma_readable_rows(state, ids, views, auth);
    let places = readable_places(state, auth);
    broadcast use vstd::seq_lib::group_filter_ensures;

    assert(places.map_values(|i: int| rows@[i]@) =~= places.map_values(|i: int| views[i])) by {
        assert forall|k: int| 0 <= k < places.len() implies views[places[k]] == rows@[places[k]]@ by {
            text::picks_stand_in_their_row(
                Seq::new(state.kbs@.len(), |i: int| i),
                |i: int| access::may_read(state, state.kbs@[i].id@, auth),
                k,
            );
            assert(Seq::new(state.kbs@.len(), |i: int| i).contains(places[k]));
        }
    }
    assert(Seq::new(ids.len(), |i: int| i) =~= Seq::new(state.kbs@.len(), |i: int| i));
    reply::answers_tell_what_they_were_given(
        200,
        0,
        "ok"@,
        JsonView::Array(places.map_values(|i: int| rows@[i]@)),
    );
}

/// A user gets a knowledge base that they may read, and learns of no other whether it is
/// there.
pub proof fn bases_are_shown_to_their_readers(
    state: AppState,
    dataset_id: &str,
    auth: AuthContext,
    allowed: bool,
    r: Result<&'static KnowledgeBase, Reply>,
)
    requires
        call_ensures(access::kb_accessible, (&state, dataset_id, &auth), allowed),
        call_ensures(get_dataset, (&state, dataset_id, &auth), r),
    ensures
        allowed ==> (r matches Ok(kb) && state.kb(dataset_id@) == Some(*kb)),
        !allowed ==> (r matches Err(a) && reply::tells(a@, 404, 404, "Knowledge base not found"@)),
{
    reply::answers_tell_what_they_were_given(
        404,
        404,
        "Knowledge base not found"@,
        JsonView::Null,
    );
}

/// The outcome of a store is told: what it created or changed, or why it did not.
pub proof fn outcomes_of_stores_are_told(
    created_as: Result<Json, String>,
    created_answer: Reply,
    part: Result<(), String>,
    part_answer: Option<Reply>,
    changed: Result<Option<Json>, String>,
    changed_answer: Reply,
    gone: Result<bool, String>,
    gone_answer: Reply,
)
    requires
        call_ensures(created, (created_as,), created_answer),
        call_ensures(part_stored, (part,), part_answer),
        call_ensures(updated, (changed,), changed_answer),
        call_ensures(delete_dataset, (gone,), gone_answer),
    ensures
        created_as matches Ok(kb) ==> reply::tells(created_answer@, 201, 0, "Created"@)
            && created_answer@.body.get("data"@) == Some(kb@),
        created_as matches Err(reason) ==> reply::tells(created_answer@, 400, 400, reason@),
        part is Ok <==> part_answer is None,
        part matches Err(reason) ==> (part_answer matches Some(a) && reply::tells(
            a@,
            400,
            400,
            reason@,
        )),
        changed matches Ok(Some(kb)) ==> reply::tells(changed_answer@, 200, 0, "Updated"@)
            && changed_answer@.body.get("data"@) == Some(kb@),
        changed matches Ok(None) ==> reply::tells(
            changed_answer@,
            404,
            404,
            "Knowledge base not found"@,
        ),
        changed matches Err(reason) ==> reply::tells(changed_answer@, 400, 400, reason@),
        gone matches Ok(true) ==> reply::tells(gone_answer@, 200, 0, "Deleted"@),
        gone matches Ok(false) ==> reply::tells(gone_answer@, 404, 404, "Knowledge base not found"@),
        gone matches Err(reason) ==> reply::tells(gone_answer@, 500, 500, reason@),
{
    reply::answers_tell_what_they_were_given(
        404,
        404,
        "Knowledge base not found"@,
        JsonView::Null,
    );
    reply::answers_tell_what_they_were_given(200, 0, "Deleted"@, JsonView::Null);
    match created_as {
        Ok(kb) => reply::answers_tell_what_they_were_given(201, 0, "Created"@, kb@),
        Err(reason) => reply::answers_tell_what_they_were_given(400, 400, reason@, JsonView::Null),
    }
    match part {
        Ok(_) => {},
        Err(reason) => reply::answers_tell_what_they_were_given(400, 400, reason@, JsonView::Null),
    }
    match changed {
        Ok(Some(kb)) => reply::answers_tell_what_they_were_given(200, 0, "Updated"@, kb@),
        Ok(None) => {},
        Err(reason) => reply::answers_tell_what_they_were_given(400, 400, reason@, JsonView::Null),
    }
    match gone {
        Ok(_) => {},
        Err(reason) => reply::answers_tell_what_they_were_given(500, 500, reason@, JsonView::Null),
    }
}

/// A change carries what the request tells and nothing else; what the request does not
/// tell is left as it is.
pub proof fn changes_carry_what_the_request_tells(
    state: AppState,
    dataset_id: &str,
    auth: AuthContext,
    body: Json,
    u: DatasetUpdate<String, Json>,
)
    requires
        call_ensures(
            update_dataset,
            (&state, dataset_id, &auth, &body),
            Ok::<_, Reply>(u),
        ),
    ensures
        text::opt_view(u.name) == body@.text("name"@),
        text::opt_view(u.description) == body@.text("description"@),
        text::opt_view(u.tag_sets) == body@.text("tag_sets"@),
        text::opt_view(u.avatar) == body@.text("avatar"@),
        body@.text("language"@) is None || text::trimmed(body@.text("language"@)->Some_0).len() == 0
            ==> u.language is None,
        body@.text("language"@) matches Some(l) ==> text::trimmed(l).len() > 0 ==> (
        u.language matches Some(x) && x@ == text::trimmed(l)),
        body@.text("permission"@) is None ==> u.permission is None,
        body@.text("permission"@) == Some("private"@) ==> (u.permission matches Some(p) && p@
            == "me"@),
        body@.text("permission"@) matches Some(p) ==> p != "private"@ ==> (
        u.permission matches Some(q) && q@ == p),
        body@.get("embd_id"@) is None && body@.text("embedding_model"@) is None ==> u.embd_id
            is None,
        body@.members("prompt_config"@) is None ==> u.prompt_config is None,
{
}

/// A change is refused to whoever may not manage the knowledge base, with a name that is
/// none, where it asks for nothing, with an embedding model that the owner does not have,
/// and with another embedding model than the one that its chunks were indexed with; every
/// other change is taken.
pub proof fn changes_are_refused_for_a_reason(
    state: AppState,
    dataset_id: &str,
    auth: AuthContext,
    body: Json,
    r: Result<DatasetUpdate<String, Json>, Reply>,
    manages: bool,
    kb: KnowledgeBase,
    tenant: &str,
    selector: Option<&str>,
    selected: Result<String, String>,
)
    requires
        call_ensures(update_dataset, (&state, dataset_id, &auth, &body), r),
        call_ensures(access::kb_manageable, (&state, dataset_id, &auth), manages),
        manages ==> state.kb(dataset_id@) == Some(kb),
        tenant@ == kb.owner_id@,
        call_ensures(
            models::validate_tenant_embedding_selector,
            (&state, tenant, selector),
            selected,
        ),
        body@.get("embd_id"@) matches Some(JsonView::Str(s)) ==> text::opt_str_view(selector) == Some(
            s,
        ),
        body@.get("embd_id"@) is Some && !(body@.get("embd_id"@)->Some_0 is Str) ==> selector
            is None,
        body@.get("embd_id"@) is None ==> text::opt_str_view(selector) == body@.text(
            "embedding_model"@,
        ),
    ensures
        !manages ==> (r matches Err(a) && reply::tells(a@, 404, 404, "Knowledge base not found"@)),
        ({
            let bad_name = body@.text("name"@) matches Some(n) && (text::trimmed(n).len() == 0
                || vstd::utf8::encode_utf8(text::trimmed(n)).len() > 255);
            let asks = body@.text("name"@) is Some || body@.text("description"@) is Some
                || body@.text("permission"@) is Some || selector is Some || has_settings(body@)
                || body@.members("prompt_config"@) is Some || (body@.text("language"@) matches Some(
                l,
            ) && text::trimmed(l).len() > 0);
            &&& manages && bad_name ==> (r matches Err(a) && reply::tells(
                a@,
                400,
                400,
                "Knowledge base name is required and must not exceed 255 characters"@,
            ))
            &&& manages && !asks ==> (r matches Err(a) && reply::tells(
                a@,
                400,
                400,
                "name, permission, embedding_model, parser_config or prompt_config is required"@,
            ))
            &&& manages && !bad_name && asks && selector is None ==> r is Ok
            &&& manages && !bad_name && selector is Some ==> match selected {
                Err(reason) => r matches Err(a) && reply::tells(a@, 400, 400, reason@),
                Ok(model) => if model@ != kb.embd_id@ && kb.chunk_count > 0 {
                    r matches Err(a) && reply::tells(
                        a@,
                        409,
                        409,
                        "Cannot change the embedding model while the knowledge base contains indexed chunks"@,
                    )
                } else {
                    r matches Ok(u) && u.embd_id matches Some(m) && m@ == model@
                },
            }
        }),
{
    reply::answers_tell_what_they_were_given(
        404,
        404,
        "Knowledge base not found"@,
        JsonView::Null,
    );
    reply::answers_tell_what_they_were_given(
        400,
        400,
        "Knowledge base name is required and must not exceed 255 characters"@,
        JsonView::Null,
    );
    reply::answers_tell_what_they_were_given(
        400,
        400,
        "name, permission, embedding_model, parser_config or prompt_config is required"@,
        JsonView::Null,
    );
    reply::answers_tell_what_they_were_given(
        409,
        409,
        "Cannot change the embedding model while the knowledge base contains indexed chunks"@,
        JsonView::Null,
    );
    match selected {
        Err(reason) => {
            reply::answers_tell_what_they_were_given(400, 400, reason@, JsonView::Null);
        },
        Ok(_) => {},
    }
}

/// The keys under which a request itself may carry a parser setting.
pub open spec fn is_setting(key: Seq<char>) -> bool {
    ||| key == "chunk_method"@
    ||| key == "chunk_size"@
    ||| key == "overlap"@
    ||| key == "delimiter"@
    ||| key == "delimiters"@
    ||| key == "chunk_token_num"@
    ||| key == "overlapped_percent"@
    ||| key == "auto_keywords"@
    ||| key == "auto_questions"@
    ||| key == "enable_children"@
    ||| key == "raptorEn"@
    ||| key == "graphEn"@
    ||| key == "parser_type"@
    ||| key == "raptor_enabled"@
    ||| key == "raptor_depth"@
    ||| key == "graphrag_enabled"@
    ||| key == "entity_types"@
    ||| key == "layout_recognize"@
    ||| key == "ocr_enabled"@
    ||| key == "top_k"@
    ||| key == "similarity_threshold"@
    ||| key == "vector_similarity_weight"@
    ||| key == "rerank"@
    ||| key == "rerank_model"@
    ||| key == "pdf_parser"@
    ||| key == "page_index"@
    ||| key == "image_and_table_window"@
    ||| key == "excel_to_html"@
    ||| key == "children_delimiters"@
    ||| key == "title_levels"@
    ||| key == "enable_metadata"@
    ||| key == "raptor_threshold"@
    ||| key == "raptor_scope"@
    ||| key == "raptor_prompt"@
    ||| key == "raptor_max_token"@
    ||| key == "raptor_cluster_method"@
    ||| key == "raptor_max_cluster"@
    ||| key == "raptor_random_seed"@
    ||| key == "graphrag_method"@
    ||| key == "graphrag_batch_chunk_size"@
    ||| key == "graphrag_entity_resolution"@
    ||| key == "graphrag_community_reports"@
    ||| key == "page_rank"@
}

proof fn lemma_setting_keys(key: Seq<char>)
    ensures
        is_setting(key) <==> parser_key_list().contains(key),
{
    let list = parser_key_list();
    assert(list[0] == "chunk_method"@);
    assert(list[1] == "chunk_size"@);
    assert(list[2] == "overlap"@);
    assert(list[3] == "delimiter"@);
    assert(list[4] == "delimiters"@);
    assert(list[5] == "chunk_token_num"@);
    assert(list[6] == "overlapped_percent"@);
    assert(list[7] == "auto_keywords"@);
    assert(list[8] == "auto_questions"@);
    assert(list[9] == "enable_children"@);
    assert(list[10] == "raptorEn"@);
    assert(list[11] == "graphEn"@);
    assert(list[12] == "parser_type"@);
    assert(list[13] == "raptor_enabled"@);
    assert(list[14] == "raptor_depth"@);
    assert(list[15] == "graphrag_enabled"@);
    assert(list[16] == "entity_types"@);
    assert(list[17] == "layout_recognize"@);
    assert(list[18] == "ocr_enabled"@);
    assert(list[19] == "top_k"@);
    assert(list[20] == "similarity_threshold"@);
    assert(list[21] == "vector_similarity_weight"@);
    assert(list[22] == "rerank"@);
    assert(list[23] == "rerank_model"@);
    assert(list[24] == "pdf_parser"@);
    assert(list[25] == "page_index"@);
    assert(list[26] == "image_and_table_window"@);
    assert(list[27] == "excel_to_html"@);
    assert(list[28] == "children_delimiters"@);
    assert(list[29] == "title_levels"@);
    assert(list[30] == "enable_metadata"@);
    assert(list[31] == "raptor_threshold"@);
    assert(list[32] == "raptor_scope"@);
    assert(list[33] == "raptor_prompt"@);
    assert(list[34] == "raptor_max_token"@);
    assert(list[35] == "raptor_cluster_method"@);
    assert(list[36] == "raptor_max_cluster"@);
    assert(list[37] == "raptor_random_seed"@);
    assert(list[38] == "graphrag_method"@);
    assert(list[39] == "graphrag_batch_chunk_size"@);
    assert(list[40] == "graphrag_entity_resolution"@);
    assert(list[41] == "graphrag_community_reports"@);
    assert(list[42] == "page_rank"@);
    if list.contains(key) {
        let i = choose|i: int| 0 <= i < list.len() && list[i] == key;
        assert(0 <= i < 43);
    }
}

/// A parser setting of a change is the one that the request itself carries, or else the
/// nested one; under any other key only the nested one counts. Where there is neither,
/// the change holds no settings at all.
pub proof fn settings_come_from_the_request(
    state: AppState,
    dataset_id: &str,
    auth: AuthContext,
    body: Json,
    u: DatasetUpdate<String, Json>,
    key: Seq<char>,
)
    requires
        call_ensures(
            update_dataset,
            (&state, dataset_id, &auth, &body),
            Ok::<_, Reply>(u),
        ),
    ensures
        is_setting(key) && body@.get(key) is Some ==> (u.parser_config matches Some(config)
            && config@.get(key) == body@.get(key)),
        !(is_setting(key) && body@.get(key) is Some) ==> match body@.members("parser_config"@) {
            Some(nested) => json::entry(nested, key) is Some ==> (u.parser_config matches Some(
                config,
            ) && config@.get(key) == json::entry(nested, key)),
            None => u.parser_config matches Some(config) ==> config@.get(key) is None,
        },
        !(is_setting(key) && body@.get(key) is Some) && (body@.members("parser_config"@) matches Some(
            nested,
        ) && json::entry(nested, key) is None) ==> (u.parser_config matches Some(config)
            ==> config@.get(key) is None),
{
    lemma_setting_keys(key);
    assert(setting_of(body@, key) is Some ==> has_settings(body@));
}

/// A prompt setting of a change is the one of the request, or else the stored one.
pub proof fn prompts_are_laid_over_the_stored_ones(
    state: AppState,
    dataset_id: &str,
    auth: AuthContext,
    body: Json,
    u: DatasetUpdate<String, Json>,
    kb: KnowledgeBase,
    over: Seq<(Seq<char>, JsonView)>,
    key: Seq<char>,
)
    requires
        call_ensures(
            update_dataset,
            (&state, dataset_id, &auth, &body),
            Ok::<_, Reply>(u),
        ),
        state.kb(dataset_id@) == Some(kb),
        body@.get("prompt_config"@) == Some(JsonView::Object(over)),
    ensures
        u.prompt_config matches Some(merged) && merged@.get(key) == (if json::entry(over, key)
            is Some {
            json::entry(over, key)
        } else {
            kb.prompt_config@.get(key)
        }),
{
    let merged = u.prompt_config->Some_0;
    assert(json::entry(merged@->Object_0, key) == merged@.get(key));
}

proof fn lemma_docs_of(docs: Seq<DocRecord>, kb_id: Seq<char>)
    ensures
        docs_of(docs, kb_id) == docs.filter(|doc: DocRecord| doc.kb_id@ == kb_id).map_values(
            |doc: DocRecord| doc.id@,
        ),
    decreases docs.len(),
{
    let p = |doc: DocRecord| doc.kb_id@ == kb_id;
    let f = |doc: DocRecord| doc.id@;
    reveal(Seq::filter);
    if docs.len() > 0 {
        lemma_docs_of(docs.drop_last(), kb_id);
        let before = docs.drop_last().filter(p);
        assert(before.push(docs.last()).map_values(f) =~= before.map_values(f).push(
            docs.last().id@,
        ));
    } else {
        assert(docs.filter(p).map_values(f) =~= Seq::<Seq<char>>::empty());
    }
}

/// The deletion of a knowledge base goes through all of its documents and no others, in
/// order; the first failure ends it, and the knowledge base itself goes last.
pub proof fn deletions_go_document_by_document(
    state: AppState,
    dataset_id: &str,
    id: Seq<char>,
    d: DatasetDeletion,
    done: usize,
    outcome: Result<(), String>,
    r: DatasetStep<String>,
)
    requires
        call_ensures(delete_dataset_data, (&state, dataset_id), d),
        call_ensures(DatasetDeletion::next, (&d, done, outcome), r),
        id == dataset_id@,
    ensures
        d.dataset_id@ == id,
        text::views(d.doc_ids@) == state.docs@.filter(
            |doc: DocRecord| doc.kb_id@ == id,
        ).map_values(|doc: DocRecord| doc.id@),
        outcome matches Err(reason) ==> (r matches DatasetStep::Fail(e) && e@ == reason@),
        outcome is Ok && done < d.doc_ids@.len() ==> r == DatasetStep::<String>::DeleteDocument(
            done,
        ),
        outcome is Ok && done >= d.doc_ids@.len() ==> r is DropDataset,
{
    lemma_docs_of(state.docs@, id);
}

/// Of the graphs, exactly those of the knowledge base go: its own and those of its
/// documents.
pub proof fn only_the_graphs_of_the_base_go(
    table: GraphTable,
    dataset_id: &str,
    r: GraphTable,
    id: Seq<char>,
    row: (Seq<char>, Seq<char>),
)
    requires
        call_ensures(graphs_without, (&table, dataset_id), r),
    ensures
        text::views(r.kb_graphs@).contains(id) <==> text::views(table.kb_graphs@).contains(id) && id
            != dataset_id@,
        checkpoint_views(r.checkpoints@).contains(row) <==> checkpoint_views(
            table.checkpoints@,
        ).contains(row) && row.1 != dataset_id@,
        r.kb_graphs@.len() <= table.kb_graphs@.len(),
        r.checkpoints@.len() <= table.checkpoints@.len(),
{
    broadcast use vstd::seq_lib::group_filter_ensures;

    let a = text::views(r.kb_graphs@);
    let b = checkpoint_views(r.checkpoints@);
    assert(a.len() == r.kb_graphs@.len());
    assert(b.len() == r.checkpoints@.len());
    assert(text::views(table.kb_graphs@).len() == table.kb_graphs@.len());
    assert(checkpoint_views(table.checkpoints@).len() == table.checkpoints@.len());
    if a.contains(id) {
        let k = choose|k: int| 0 <= k < a.len() && a[k] == id;
        assert(a[k] != dataset_id@);
        text::picks_stand_in_their_row(
            text::views(table.kb_graphs@),
            |id: Seq<char>| id != dataset_id@,
            k,
        );
    }
    if b.contains(row) {
        let k = choose|k: int| 0 <= k < b.len() && b[k] == row;
        assert(b[k].1 != dataset_id@);
        text::picks_stand_in_their_row(
            checkpoint_views(table.checkpoints@),
            |row: (Seq<char>, Seq<char>)| row.1 != dataset_id@,
            k,
        );
    }
}

/// Whoever manages a knowledge base may delete it, and nobody else.
pub proof fn bases_are_deleted_by_their_managers(
    state: AppState,
    dataset_id: &str,
    auth: AuthContext,
    manages: bool,
    r: Option<Reply>,
)
    requires
        call_ensures(access::kb_manageable, (&state, dataset_id, &auth), manages),
        call_ensures(delete_access, (&state, dataset_id, &auth), r),
    ensures
        manages ==> r is None,
        !manages ==> (r matches Some(a) && reply::tells(a@, 404, 404, "Knowledge base not found"@)),
{
    reply::answers_tell_what_they_were_given(
        404,
        404,
        "Knowledge base not found"@,
        JsonView::Null,
    );
}

/// The answer tells the number of deletions.
pub open spec fn tells_count(answer: ReplyView, count: int) -> bool {
    &&& reply::tells(answer, 200, 0, "Success"@)
    &&& answer.body.get("data"@) matches Some(data) && data.get("success_count"@) == Some(
        JsonView::UInt(count as u64),
    )
}

proof fn lemma_count_told(count: nat)
    ensures
        tells_count(success_of(count), count as int),
{
    let data = JsonView::Object(seq![("success_count"@, JsonView::UInt(count as u64))]);
    reply::answers_tell_what_they_were_given(200, 0, "Success"@, data);
    reveal_with_fuel(json::entry, 2);
}

/// A request that lists knowledge bases deletes exactly those, in order, where the user
/// may manage all of them; one that lists none deletes what the user may read where it
/// says so, and nothing else. One that may not be managed is told, and nothing goes.
pub proof fn requests_delete_what_they_name(
    state: AppState,
    auth: AuthContext,
    body: Json,
    r: Result<Vec<String>, Reply>,
    readable: Vec<String>,
    listed: Seq<Seq<char>>,
    asked: bool,
    all: Seq<Seq<char>>,
    i: int,
)
    requires
        call_ensures(delete_datasets, (&state, &auth, &body), r),
        call_ensures(access::accessible_kbs, (&state, &auth), readable),
        body@.items("ids"@) is None ==> listed.len() == 0,
        body@.items("ids"@) matches Some(items) ==> listed == items.filter(
            |v: JsonView| v is Str,
        ).map_values(|v: JsonView| v->Str_0),
        asked == (listed.len() > 0 || body@.get("delete_all"@) == Some(JsonView::Bool(true))),
        all == if listed.len() > 0 {
            listed
        } else {
            text::views(readable@)
        },
    ensures
        !asked ==> (r matches Err(a) && tells_count(a@, 0)),
        asked && (forall|k: int|
            0 <= k < all.len() ==> access::may_manage(state, #[trigger] all[k], auth)) ==> (
        r matches Ok(todo) && text::views(todo@) == all),
        asked && 0 <= i < all.len() && !access::may_manage(state, all[i], auth) ==> (
        r matches Err(a) && reply::tells(
            a@,
            400,
            400,
            "User '"@ + auth.user_id@ + "' lacks permission for datasets: '"@ + text::joined(
                all.filter(|id: Seq<char>| !access::may_manage(state, id, auth)),
                ", "@,
            ) + "'"@,
        )),
{
    broadcast use vstd::seq_lib::group_filter_ensures;

    match body@.items("ids"@) {
        Some(items) => {
            json::string_items_are_all_strings(items);
        },
        None => {
            assert(listed =~= Seq::empty());
        },
    }
    let missing = unmanageable(state, all, auth);
    lemma_count_told(0);
    if asked {
        assert(all == ids_to_delete(state, auth, body@));
        reply::answers_tell_what_they_were_given(
            400,
            400,
            "User '"@ + auth.user_id@ + "' lacks permission for datasets: '"@ + text::joined(
                missing,
                ", "@,
            ) + "'"@,
            JsonView::Null,
        );
        if forall|k: int| 0 <= k < all.len() ==> access::may_manage(state, #[trigger] all[k], auth) {
            if missing.len() > 0 {
                assert(!access::may_manage(state, missing[0], auth));
                text::picks_stand_in_their_row(
                    all,
                    |id: Seq<char>| !access::may_manage(state, id, auth),
                    0,
                );
                let k = choose|k: int| 0 <= k < all.len() && all[k] == missing[0];
                assert(access::may_manage(state, all[k], auth));
            }
        }
        if 0 <= i < all.len() && !access::may_manage(state, all[i], auth) {
            assert(missing.contains(all[i]));
        }
    }
}

proof fn lemma_successes(outcomes: Seq<bool>)
    ensures
        successes(outcomes) == outcomes.filter(|gone: bool| gone).len(),
    decreases outcomes.len(),
{
    reveal(Seq::filter);
    if outcomes.len() > 0 {
        lemma_successes(outcomes.drop_last());
    }
}

/// The answer to the deletion of several tells how many of them were there; the failure
/// that ended it is told instead.
pub proof fn deletions_are_counted(outcomes: Vec<bool>, failure: Option<String>, r: Reply)
    requires
        call_ensures(datasets_deleted, (&outcomes, failure), r),
    ensures
        failure matches Some(reason) ==> reply::tells(r@, 500, 500, reason@),
        failure is None ==> tells_count(
            r@,
            outcomes@.filter(|gone: bool| gone).len() as int,
        ),
{
    lemma_successes(outcomes@);
    lemma_count_told(successes(outcomes@));
    match failure {
        Some(reason) => reply::answers_tell_what_they_were_given(500, 500, reason@, JsonView::Null),
        None => {},
    }
}

} // verus!
