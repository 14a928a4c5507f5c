//! Searching knowledge bases: what a request asks for, which page of the hits it gets,
//! and what it is answered.

use crate::access;
use crate::access::AuthContext;
use crate::json;
use crate::json::{Json, JsonView};
use crate::models;
use crate::models::ModelSource;
use crate::reply;
use crate::reply::{Reply, ReplyView};
use crate::state::{AppState, SearchApp};
use crate::text;
use vstd::prelude::*;

verus! {

// ── The request ─────────────────────────────────────────────────

/// How much vectors count where nothing else is said: the bits of 0.3.
pub const DEFAULT_VECTOR_WEIGHT: u64 = 0x3FD3_3333_3333_3333;

/// The score that a hit has to reach where nothing else is said: the bits of 0.2.
pub const DEFAULT_THRESHOLD: u64 = 0x3FC9_9999_9999_999A;

/// How many hits are reranked together at most.
pub const RERANK_LIMIT: usize = 1024;

/// What a search asks for. Whatever the request leaves open is taken from the saved
/// search application that it names, where it names one.
#[derive(Debug)]
pub struct SearchRequest {
    pub question: String,
    pub top_k: u64,
    pub page: u64,
    pub rerank: bool,
    pub rerank_id: Option<String>,
    /// How much vectors count: a number.
    pub vector_weight: Json,
    /// The score that a hit has to reach: a number.
    pub threshold: Json,
    pub kb_ids: Vec<String>,
    /// Only these documents are searched.
    pub doc_ids: Option<Vec<String>>,
    pub metadata_filter: Option<Json>,
    /// The chat model that the metadata filter asks.
    pub chat_id: Option<String>,
    /// How features of the chunks count.
    pub rank_feature: Option<Json>,
    pub highlight: bool,
    pub aggregate: bool,
}

/// What a search asks for, over mathematical values.
pub struct SearchView {
    pub question: Seq<char>,
    pub top_k: u64,
    pub page: u64,
    pub rerank: bool,
    pub rerank_id: Option<Seq<char>>,
    pub vector_weight: JsonView,
    pub threshold: JsonView,
    pub kb_ids: Seq<Seq<char>>,
    pub doc_ids: Option<Seq<Seq<char>>>,
    pub metadata_filter: Option<JsonView>,
    pub chat_id: Option<Seq<char>>,
    pub rank_feature: Option<JsonView>,
    pub highlight: bool,
    pub aggregate: bool,
}

impl View for SearchRequest {
    type V = SearchView;

    open spec fn view(&self) -> SearchView {
        SearchView {
            question: self.question@,
            top_k: self.top_k,
            page: self.page,
            rerank: self.rerank,
            rerank_id: text::opt_view(self.rerank_id),
            vector_weight: self.vector_weight@,
            threshold: self.threshold@,
            kb_ids: text::views(self.kb_ids@),
            doc_ids: match self.doc_ids {
                Some(ids) => Some(text::views(ids@)),
                None => None,
            },
            metadata_filter: json::opt_json(self.metadata_filter),
            chat_id: text::opt_view(self.chat_id),
            rank_feature: json::opt_json(self.rank_feature),
            highlight: self.highlight,
            aggregate: self.aggregate,
        }
    }
}

/// The saved search application that a request names.
pub open spec fn app_of(s: AppState, body: JsonView) -> Option<SearchApp> {
    match body.text("search_id"@) {
        Some(id) => if text::trimmed(id).len() == 0 {
            None
        } else {
            s.app(id)
        },
        None => None,
    }
}

/// The reranking model that a request names.
pub open spec fn rerank_id_of(app: Option<SearchApp>, body: JsonView) -> Option<Seq<char>> {
    match text::filled_view(body.text("rerank_id"@)) {
        Some(id) => Some(id),
        None => match app {
            Some(a) => text::filled_view(Some(a.rerank_id@)),
            None => None,
        },
    }
}

/// The knowledge bases that a request names: under `kb_ids`, or else under `kb_id`.
pub open spec fn kb_ids_of(app: Option<SearchApp>, body: JsonView) -> Seq<Seq<char>> {
    let named = match body.get("kb_ids"@) {
        Some(_) => body.items("kb_ids"@),
        None => body.items("kb_id"@),
    };
    let listed = match named {
        Some(items) => json::string_items(items),
        None => Seq::empty(),
    };
    if listed.len() > 0 {
        listed
    } else {
        match app {
            Some(a) => text::views(a.kb_ids@),
            None => Seq::empty(),
        }
    }
}

/// The number that a request tells, or else the one that is saved, or else the
/// default. The last two are told by the bits of their doubles.
pub open spec fn number_of(
    given: Option<JsonView>,
    saved: Option<u64>,
    default_bits: u64,
) -> JsonView {
    match (given, saved) {
        (Some(number), _) => number,
        (None, Some(bits)) => JsonView::Real(bits),
        (None, None) => JsonView::Real(default_bits),
    }
}

/// What a request asks for.
pub open spec fn search_of(s: AppState, body: JsonView) -> SearchView {
    let app = app_of(s, body);
    let page = match body.number("page"@) {
        Some(p) => p,
        None => 1,
    };
    SearchView {
        question: body.text_or_empty("question"@),
        top_k: match body.number("top_k"@) {
            Some(k) => k,
            None => match app {
                Some(a) => a.top_k,
                None => 10,
            },
        },
        page: if page < 1 {
            1
        } else {
            page
        },
        rerank: body.flag("rerank"@) == Some(true) || rerank_id_of(app, body) is Some || (app
            is Some && app->Some_0.rerank),
        rerank_id: rerank_id_of(app, body),
        vector_weight: number_of(
            body.numeric("vector_similarity_weight"@),
            match app {
                Some(a) => Some(a.vector_similarity_weight),
                None => None,
            },
            DEFAULT_VECTOR_WEIGHT,
        ),
        threshold: number_of(
            body.numeric("similarity_threshold"@),
            match app {
                Some(a) => Some(a.similarity_threshold),
                None => None,
            },
            DEFAULT_THRESHOLD,
        ),
        kb_ids: kb_ids_of(app, body),
        doc_ids: match body.items("doc_ids"@) {
            Some(items) => Some(json::string_items(items)),
            None => match app {
                Some(a) => if a.doc_ids@.len() > 0 {
                    Some(text::views(a.doc_ids@))
                } else {
                    None
                },
                None => None,
            },
        },
        metadata_filter: match body.get("meta_data_filter"@) {
            Some(JsonView::Null) | None => match app {
                Some(a) => if a.meta_data_filter@ is Null {
                    None
                } else {
                    Some(a.meta_data_filter@)
                },
                None => None,
            },
            Some(filter) => Some(filter),
        },
        chat_id: match app {
            Some(a) => if text::trimmed(a.chat_id@).len() == 0 {
                None
            } else {
                Some(a.chat_id@)
            },
            None => None,
        },
        rank_feature: body.get("rank_feature"@),
        highlight: body.flag("highlight"@) == Some(true),
        aggregate: body.flag("aggs"@) != Some(false),
    }
}

fn named_app<'a>(state: &'a AppState, body: &Json) -> (r: Option<&'a SearchApp>)
    ensures
        match r {
            Some(app) => app_of(*state, body@) == Some(*app),
            None => app_of(*state, body@) is None,
        },
{
    match body.text("search_id") {
        Some(id) => if text::is_blank(id) {
            None
        } else {
            state.find_app(id)
        },
        None => None,
    }
}

fn listed_kbs(app: Option<&SearchApp>, body: &Json) -> (r: Vec<String>)
    ensures
        text::views(r@) == kb_ids_of(
            match app {
                Some(a) => Some(*a),
                None => None,
            },
            body@,
        ),
{
    let named = if body.get("kb_ids").is_some() {
        body.items("kb_ids")
    } else {
        body.items("kb_id")
    };
    let listed = match named {
        Some(items) => json::strings_among(items),
        None => Vec::new(),
    };
    assert(listed@.len() == text::views(listed@).len());
    if listed.len() > 0 {
        return listed;
    }
    match app {
        Some(a) => text::copy_strings(&a.kb_ids),
        None => {
            let none: Vec<String> = Vec::new();
            assert(text::views(none@) =~= Seq::<Seq<char>>::empty());
            none
        },
    }
}

fn number_or(given: Option<Json>, saved: Option<u64>, default_bits: u64) -> (r: Json)
    ensures
        r@ == number_of(json::opt_json(given), saved, default_bits),
{
    match (given, saved) {
        (Some(number), _) => number,
        (None, Some(bits)) => Json::Real(bits),
        (None, None) => Json::Real(default_bits),
    }
}

/// What a request asks for.
pub fn retrieval(state: &AppState, body: &Json) -> (r: SearchRequest)
    ensures
        r@ == search_of(*state, body@),
{
    let app = named_app(state, body);
    let top_k: u64 = match body.number("top_k") {
        Some(k) => k,
        None => match app {
            Some(a) => a.top_k,
            None => 10,
        },
    };
    let page: u64 = match body.number("page") {
        Some(p) => if p < 1 {
            1
        } else {
            p
        },
        None => 1,
    };
    let rerank_id = match text::filled(body.text("rerank_id")) {
        Some(id) => Some(id),
        None => match app {
            Some(a) => text::filled(Some(a.rerank_id.as_str())),
            None => None,
        },
    };
    let asked = match body.flag("rerank") {
        Some(b) => b,
        None => false,
    };
    let app_reranks = match app {
        Some(a) => a.rerank,
        None => false,
    };
    let doc_ids = match body.items("doc_ids") {
        Some(items) => Some(json::strings_among(items)),
        None => match app {
            Some(a) => if a.doc_ids.len() > 0 {
                Some(text::copy_strings(&a.doc_ids))
            } else {
                None
            },
            None => None,
        },
    };
    let given = match body.get("meta_data_filter") {
        Some(filter) => if filter.is_null() {
            None
        } else {
            Some(filter.copy())
        },
        None => None,
    };
    let metadata_filter = match given {
        Some(filter) => Some(filter),
        None => match app {
            Some(a) => if a.meta_data_filter.is_null() {
                None
            } else {
                Some(a.meta_data_filter.copy())
            },
            None => None,
        },
    };
    let chat_id = match app {
        Some(a) => if text::is_blank(a.chat_id.as_str()) {
            None
        } else {
            Some(a.chat_id.clone())
        },
        None => None,
    };
    let saved_weight = match app {
        Some(a) => Some(a.vector_similarity_weight),
        None => None,
    };
    let vector_weight = number_or(
        body.numeric("vector_similarity_weight"),
        saved_weight,
        DEFAULT_VECTOR_WEIGHT,
    );
    let saved_threshold = match app {
        Some(a) => Some(a.similarity_threshold),
        None => None,
    };
    let threshold = number_or(
        body.numeric("similarity_threshold"),
        saved_threshold,
        DEFAULT_THRESHOLD,
    );
    let rank_feature = match body.get("rank_feature") {
        Some(feature) => Some(feature.copy()),
        None => None,
    };
    let highlight = match body.flag("highlight") {
        Some(b) => b,
        None => false,
    };
    let aggregate = match body.flag("aggs") {
        Some(b) => b,
        None => true,
    };
    SearchRequest {
        question: body.text_or_empty("question").to_owned(),
        top_k,
        page,
        rerank: asked || rerank_id.is_some() || app_reranks,
        rerank_id: text::owned(rerank_id),
        vector_weight,
        threshold,
        kb_ids: listed_kbs(app, body),
        doc_ids,
        metadata_filter,
        chat_id,
        rank_feature,
        highlight,
        aggregate,
    }
}

/// What a request tells itself counts, and the saved application only for the rest:
/// the number of hits, the knowledge bases and the documents that a request names are
/// those that are searched.
pub proof fn requests_override_saved_applications(s: AppState, body: JsonView)
    ensures
        body.number("top_k"@) matches Some(k) ==> search_of(s, body).top_k == k,
        match body.items("kb_ids"@) {
            Some(items) => json::string_items(items).len() > 0 ==> search_of(s, body).kb_ids
                == json::string_items(items),
            None => true,
        },
        body.items("doc_ids"@) matches Some(items) ==> search_of(s, body).doc_ids == Some(
            json::string_items(items),
        ),
        text::filled_view(body.text("rerank_id"@)) matches Some(id) ==> search_of(s, body).rerank_id
            == Some(id) && search_of(s, body).rerank,
        body.text("search_id"@) is None ==> app_of(s, body) is None,
        search_of(s, body).page >= 1,
{
}

/// A field of a request is as before, or is one that was left out and is now told.
pub open spec fn same_or_told(
    body: JsonView,
    full: JsonView,
    key: Seq<char>,
    saved: JsonView,
) -> bool {
    full.get(key) == body.get(key) || (body.get(key) is None && full.get(key) == Some(saved))
}

/// The field is one that a saved application fills.
pub open spec fn is_saved_field(key: Seq<char>) -> bool {
    ||| key == "kb_ids"@
    ||| key == "top_k"@
    ||| key == "vector_similarity_weight"@
    ||| key == "similarity_threshold"@
    ||| key == "rerank"@
    ||| key == "rerank_id"@
    ||| key == "doc_ids"@
    ||| key == "meta_data_filter"@
}

/// The second request is the first one with some of the fields that it leaves out set
/// to what the application has stored. The knowledge bases are left out where neither
/// of their two names is there; an application without documents has stored none.
pub open spec fn fills_in(app: SearchApp, body: JsonView, full: JsonView) -> bool {
    &&& same_or_told(body, full, "top_k"@, JsonView::UInt(app.top_k))
    &&& same_or_told(
        body,
        full,
        "vector_similarity_weight"@,
        JsonView::Real(app.vector_similarity_weight),
    )
    &&& same_or_told(
        body,
        full,
        "similarity_threshold"@,
        JsonView::Real(app.similarity_threshold),
    )
    &&& same_or_told(body, full, "rerank"@, JsonView::Bool(app.rerank))
    &&& same_or_told(body, full, "rerank_id"@, JsonView::Str(app.rerank_id@))
    &&& same_or_told(body, full, "meta_data_filter"@, app.meta_data_filter@)
    &&& full.get("kb_ids"@) == body.get("kb_ids"@) || (body.get("kb_ids"@) is None && body.get(
        "kb_id"@,
    ) is None && full.get("kb_ids"@) == Some(json::string_array(text::views(app.kb_ids@))))
    &&& full.get("doc_ids"@) == body.get("doc_ids"@) || (app.doc_ids@.len() > 0 && same_or_told(
        body,
        full,
        "doc_ids"@,
        json::string_array(text::views(app.doc_ids@)),
    ))
    &&& forall|key: Seq<char>| !is_saved_field(key) ==> #[trigger] full.get(key) == body.get(key)
}

/// A search that names a saved application and leaves out fields is the same as the
/// one with these fields set to what the application has stored.
pub proof fn left_out_fields_are_the_saved_ones(s: AppState, body: JsonView, full: JsonView)
    requires
        app_of(s, body) matches Some(app) && fills_in(app, body, full),
    ensures
        search_of(s, full) == search_of(s, body),
{
    lemma_other_fields();
    let app = app_of(s, body)->Some_0;
    json::lemma_string_items(text::views(app.kb_ids@));
    json::lemma_string_items(text::views(app.doc_ids@));
    assert(full.get("search_id"@) == body.get("search_id"@));
    assert(full.get("kb_id"@) == body.get("kb_id"@));
    assert(full.get("question"@) == body.get("question"@));
    assert(full.get("page"@) == body.get("page"@));
    assert(full.get("rank_feature"@) == body.get("rank_feature"@));
    assert(full.get("highlight"@) == body.get("highlight"@));
    assert(full.get("aggs"@) == body.get("aggs"@));
}

proof fn lemma_saved_field_lengths(key: Seq<char>)
    requires
        is_saved_field(key),
    ensures
        5 <= key.len() <= 7 || key.len() == 9 || key.len() >= 16,
        key.len() == 5 ==> key[0] == 't',
        key.len() == 9 ==> key[0] == 'r',
{
    reveal_strlit("kb_ids");
    reveal_strlit("top_k");
    reveal_strlit("vector_similarity_weight");
    reveal_strlit("similarity_threshold");
    reveal_strlit("rerank");
    reveal_strlit("rerank_id");
    reveal_strlit("doc_ids");
    reveal_strlit("meta_data_filter");
}

proof fn lemma_other_fields()
    ensures
        !is_saved_field("search_id"@),
        !is_saved_field("kb_id"@),
        !is_saved_field("question"@),
        !is_saved_field("page"@),
        !is_saved_field("rank_feature"@),
        !is_saved_field("highlight"@),
        !is_saved_field("aggs"@),
{
    assert(!is_saved_field("search_id"@)) by {
        reveal_strlit("search_id");
        if is_saved_field("search_id"@) {
            lemma_saved_field_lengths("search_id"@);
        }
    }
    assert(!is_saved_field("kb_id"@)) by {
        reveal_strlit("kb_id");
        if is_saved_field("kb_id"@) {
            lemma_saved_field_lengths("kb_id"@);
        }
    }
    assert(!is_saved_field("question"@)) by {
        reveal_strlit("question");
        if is_saved_field("question"@) {
            lemma_saved_field_lengths("question"@);
        }
    }
    assert(!is_saved_field("page"@)) by {
        reveal_strlit("page");
        if is_saved_field("page"@) {
            lemma_saved_field_lengths("page"@);
        }
    }
    assert(!is_saved_field("rank_feature"@)) by {
        reveal_strlit("rank_feature");
        if is_saved_field("rank_feature"@) {
            lemma_saved_field_lengths("rank_feature"@);
        }
    }
    assert(!is_saved_field("highlight"@)) by {
        reveal_strlit("highlight");
        if is_saved_field("highlight"@) {
            lemma_saved_field_lengths("highlight"@);
        }
    }
    assert(!is_saved_field("aggs"@)) by {
        reveal_strlit("aggs");
        if is_saved_field("aggs"@) {
            lemma_saved_field_lengths("aggs"@);
        }
    }
}

// ── Admission ───────────────────────────────────────────────────

/// The answer to a request without a knowledge base that the user may read.
pub open spec fn no_kb_of() -> ReplyView {
    reply::error_of(400, "At least one accessible kb_id is required"@)
}

/// Why a search is not made; nothing where it is. `by_vector` tells whether vectors
/// count.
pub open spec fn search_refusal(
    s: AppState,
    auth: AuthContext,
    ids: Seq<Seq<char>>,
    by_vector: bool,
) -> Option<ReplyView> {
    if !access::may_read_all(s, ids, auth) {
        Some(no_kb_of())
    } else {
        match models::binding_of(s, ids) {
            Err(reason) => Some(reply::error_of(400, reason)),
            Ok(_) => if !by_vector {
                None
            } else {
                match models::embedder_of(s, ids) {
                    Err(reason) => Some(reply::error_of(400, reason)),
                    Ok(_) => None,
                }
            },
        }
    }
}

/// The model that embeds the question, where vectors count, or the answer to a search
/// that may not be made.
pub fn admit_search<'a>(
    state: &'a AppState,
    auth: &AuthContext,
    kb_ids: &Vec<String>,
    by_vector: bool,
) -> (r: Result<Option<ModelSource<'a>>, Reply>)
    ensures
        ({
            let ids = text::views(kb_ids@);
            match search_refusal(*state, *auth, ids, by_vector) {
                Some(answer) => r matches Err(a) && a@ == answer,
                None => match r {
                    Ok(Some(source)) => by_vector && models::embedder_of(*state, ids) == Ok::<
                        _,
                        Seq<char>,
                    >(source@),
                    Ok(None) => !by_vector,
                    Err(_) => false,
                },
            }
        }),
{
    if !access::all_kbs_accessible(state, kb_ids, auth) {
        return Err(reply::api_error(400, "At least one accessible kb_id is required"));
    }
    if let Err(reason) = models::validate_kb_embedding_bindings(state, kb_ids) {
        return Err(reply::api_error(400, reason.as_str()));
    }
    if !by_vector {
        return Ok(None);
    }
    match models::kb_embedder_for(state, kb_ids) {
        Ok(source) => Ok(Some(source)),
        Err(reason) => Err(reply::api_error(400, reason.as_str())),
    }
}

/// The answer where vectors count and the question has none.
pub fn embedding_missing(by_vector: bool, embedded: bool) -> (r: Option<Reply>)
    ensures
        match r {
            Some(answer) => by_vector && !embedded && answer@ == reply::error_of(
                500,
                "Embed failed"@,
            ),
            None => !by_vector || embedded,
        },
{
    if by_vector && !embedded {
        Some(reply::api_error(500, "Embed failed"))
    } else {
        None
    }
}

/// A search never reaches a knowledge base that the user may not read.
pub proof fn searches_stay_within_reach(
    s: AppState,
    auth: AuthContext,
    ids: Seq<Seq<char>>,
    by_vector: bool,
)
    requires
        search_refusal(s, auth, ids, by_vector) is None,
    ensures
        ids.len() > 0,
        forall|i: int| 0 <= i < ids.len() ==> access::may_read(s, #[trigger] ids[i], auth),
{
}

/// A search that names neither an application nor a knowledge base is refused.
pub proof fn searches_without_bases_are_refused(
    s: AppState,
    auth: AuthContext,
    body: JsonView,
    by_vector: bool,
)
    requires
        app_of(s, body) is None,
        body.get("kb_ids"@) is None,
        body.get("kb_id"@) is None,
    ensures
        search_refusal(s, auth, search_of(s, body).kb_ids, by_vector) == Some(
            reply::error_of(400, "At least one accessible kb_id is required"@),
        ),
{
}

/// How many hits may be reranked together: no more than the limit, and any number
/// where nothing is reranked.
pub fn rerank_limit(rerank: bool) -> (r: Option<usize>)
    ensures
        r == (if rerank {
            Some(RERANK_LIMIT)
        } else {
            None
        }),
{
    if rerank {
        Some(RERANK_LIMIT)
    } else {
        None
    }
}

// ── Pages ───────────────────────────────────────────────────────

/// Where a page lies among the hits. Hits are ranked in blocks, each of which is
/// reranked as a whole.
#[derive(Clone, Copy, Debug, PartialEq, Eq, Structural)]
pub struct PagePlace {
    /// The number of hits on the pages before.
    pub offset: u64,
    /// Where the block starts that the page lies in.
    pub block_start: u64,
    /// Where in its block the page starts.
    pub begin: u64,
}

/// The product, or the largest number where it does not fit.
pub open spec fn saturating_product(a: nat, b: nat) -> nat {
    if a * b <= u64::MAX {
        a * b
    } else {
        u64::MAX as nat
    }
}

/// Where a page lies among the hits.
pub open spec fn place_of(page: u64, top_k: u64, window: u64) -> PagePlace {
    let offset = saturating_product((page - 1) as nat, top_k as nat);
    PagePlace {
        offset: offset as u64,
        block_start: (offset / window as nat * window as nat) as u64,
        begin: (offset % window as nat) as u64,
    }
}

/// Where a page lies among the hits. Pages count from one; a block has room for
/// `window` hits.
pub fn page_place(page: u64, top_k: u64, window: u64) -> (r: PagePlace)
    requires
        page >= 1,
        window > 0,
    ensures
        r == place_of(page, top_k, window),
{
    let offset: u64 = match (page - 1).checked_mul(top_k) {
        Some(product) => product,
        None => u64::MAX,
    };
    proof {
        let product = (page - 1) * top_k;
        assert(product >= 0) by (nonlinear_arith)
            requires
                product == (page - 1) * top_k,
                page >= 1,
        ;
        assert(offset == saturating_product((page - 1) as nat, top_k as nat));
        let q = offset as int / window as int;
        assert(q * window <= offset) by (nonlinear_arith)
            requires
                q == offset as int / window as int,
                window > 0,
        ;
        assert(0 <= q * window) by (nonlinear_arith)
            requires
                q == offset as int / window as int,
                window > 0,
        ;
    }
    PagePlace { offset, block_start: offset / window * window, begin: offset % window }
}

/// A page starts inside its block, and its block together with its place in the block
/// tells how many hits come before it.
pub proof fn pages_lie_in_their_block(page: u64, top_k: u64, window: u64)
    requires
        page >= 1,
        window > 0,
    ensures
        ({
            let p = place_of(page, top_k, window);
            &&& p.block_start + p.begin == p.offset
            &&& p.begin < window
            &&& p.block_start % window == 0
        }),
{
    let product = (page - 1) * top_k;
    assert(product >= 0) by (nonlinear_arith)
        requires
            product == (page - 1) * top_k,
            page >= 1,
    ;
    let offset = saturating_product((page - 1) as nat, top_k as nat);
    let w = window as nat;
    assert(offset == offset / w * w + offset % w && offset % w < w && offset / w * w <= offset
        && (offset / w * w) % w == 0) by (nonlinear_arith)
        requires
            w > 0,
    ;
}

/// Where a block has room for whole pages, no page runs over the end of its block.
pub proof fn pages_do_not_cross_blocks(page: u64, top_k: u64, window: u64)
    requires
        page >= 1,
        top_k > 0,
        window > 0,
        window % top_k == 0,
        (page - 1) * top_k <= u64::MAX,
    ensures
        place_of(page, top_k, window).begin + top_k <= window,
{
    let n = (page - 1) as int;
    let k = top_k as int;
    let m = window as int / k;
    assert(window == m * k) by (nonlinear_arith)
        requires
            m == window as int / k,
            k > 0,
            window as int % k == 0,
    ;
    assert(m > 0) by (nonlinear_arith)
        requires
            window == m * k,
            window > 0,
            k > 0,
    ;
    assert(0 <= n * k) by (nonlinear_arith)
        requires
            n >= 0,
            k > 0,
    ;
    // The page is number `r` among the pages of its block.
    let q = n / m;
    let r = n % m;
    assert(n == q * m + r && 0 <= r < m) by (nonlinear_arith)
        requires
            q == n / m,
            r == n % m,
            m > 0,
    ;
    assert(n * k == q * (m * k) + r * k) by (nonlinear_arith)
        requires
            n == q * m + r,
    ;
    assert(0 <= r * k && r * k + k <= m * k) by (nonlinear_arith)
        requires
            0 <= r < m,
            k > 0,
    ;
    vstd::arithmetic::div_mod::lemma_fundamental_div_mod_converse(n * k, m * k, q, r * k);
    assert((n * k) % (m * k) == r * k);
}

/// The page after a page starts where that one ends.
pub proof fn pages_follow_each_other(page: u64, top_k: u64, window: u64)
    requires
        page >= 1,
        page < u64::MAX,
        window > 0,
        page * top_k <= u64::MAX,
    ensures
        place_of((page + 1) as u64, top_k, window).offset == place_of(page, top_k, window).offset
            + top_k,
{
    assert((page - 1) * top_k + top_k == page * top_k) by (nonlinear_arith);
    assert((page - 1) * top_k >= 0) by (nonlinear_arith)
        requires
            page >= 1,
    ;
}

/// A hit of a search. Scores are carried by the bits of their doubles; `passes` tells
/// whether the score reaches the threshold.
#[derive(Debug)]
pub struct Hit {
    pub chunk_id: String,
    pub content: String,
    pub doc_name: String,
    pub doc_id: Option<String>,
    pub kb_id: Option<String>,
    pub score: u64,
    pub vector_score: u64,
    pub term_score: u64,
    pub passes: bool,
    /// The content with the words of the question marked, where that was asked for.
    pub highlight: Option<String>,
    /// What is known of the document, where that was asked for.
    pub document_metadata: Option<Json>,
}

/// The positions of the hits that reach the threshold.
pub open spec fn passing(hits: Seq<Hit>) -> Seq<int>
    decreases hits.len(),
{
    if hits.len() == 0 {
        Seq::empty()
    } else if hits.last().passes {
        passing(hits.drop_last()).push(hits.len() - 1)
    } else {
        passing(hits.drop_last())
    }
}

/// At most `count` items from position `begin` on.
pub open spec fn page_of<A>(items: Seq<A>, begin: nat, count: nat) -> Seq<A> {
    let from = if begin < items.len() {
        begin
    } else {
        items.len()
    };
    let to = if from + count < items.len() {
        from + count
    } else {
        items.len()
    };
    items.subrange(from as int, to as int)
}

/// The positions of the hits that reach the threshold: those that are counted, and
/// whose documents are told.
pub fn passing_positions(hits: &Vec<Hit>) -> (r: Vec<usize>)
    ensures
        r@.map_values(|p: usize| p as int) == passing(hits@),
        r@.len() == passing(hits@).len(),
        forall|k: int| 0 <= k < r@.len() ==> (#[trigger] r@[k]) < hits@.len(),
{
    let mut out: Vec<usize> = Vec::new();
    let mut i: usize = 0;
    assert(out@.map_values(|p: usize| p as int) =~= Seq::<int>::empty());
    while i < hits.len()
        invariant
            i <= hits@.len(),
            out@.map_values(|p: usize| p as int) == passing(hits@.take(i as int)),
            forall|k: int| 0 <= k < out@.len() ==> (#[trigger] out@[k]) < i,
        decreases hits@.len() - i,
    {
        let ghost before = out@.map_values(|p: usize| p as int);
        assert(hits@.take(i + 1).drop_last() =~= hits@.take(i as int));
        assert(hits@.take(i + 1).last() == hits@[i as int]);
        if hits[i].passes {
            out.push(i);
            assert(out@.map_values(|p: usize| p as int) =~= before.push(i as int));
        }
        i += 1;
    }
    assert(hits@.take(i as int) =~= hits@);
    assert(out@.len() == out@.map_values(|p: usize| p as int).len());
    out
}

/// How many hits reach the threshold.
pub fn total_hits(hits: &Vec<Hit>) -> (r: usize)
    ensures
        r == passing(hits@).len(),
{
    passing_positions(hits).len()
}

/// The bounds of at most `count` items from position `begin` on.
fn bounds(len: usize, begin: u64, count: u64) -> (r: (usize, usize))
    ensures
        r.0 <= r.1 <= len,
        r.0 == (if begin < len {
            begin as int
        } else {
            len as int
        }),
        r.1 == (if r.0 + count < len {
            r.0 + count
        } else {
            len as int
        }),
{
    let from: usize = if begin < len as u64 {
        begin as usize
    } else {
        len
    };
    let to: usize = if count < (len - from) as u64 {
        from + count as usize
    } else {
        len
    };
    (from, to)
}

/// The positions of the block that a page lies in: so many hits from its start on.
pub fn block_bounds(hits: usize, place: PagePlace, window: u64) -> (r: (usize, usize))
    ensures
        r.0 <= r.1 <= hits,
        r.0 == (if place.block_start < hits {
            place.block_start as int
        } else {
            hits as int
        }),
        r.1 == (if r.0 + window < hits {
            r.0 + window
        } else {
            hits as int
        }),
        forall|items: Seq<Hit>|
            items.len() == hits ==> #[trigger] page_of(
                items,
                place.block_start as nat,
                window as nat,
            ) == items.subrange(r.0 as int, r.1 as int),
{
    bounds(hits, place.block_start, window)
}

/// The model that reranks a block, where one does.
pub fn block_reranker<'a>(
    state: &'a AppState,
    request: &SearchRequest,
    block_len: usize,
) -> (r: Result<Option<ModelSource<'a>>, Reply>)
    ensures
        ({
            let chosen = models::reranker_of(
                *state,
                text::views(request.kb_ids@),
                text::opt_view(request.rerank_id),
            );
            if !request.rerank || block_len == 0 {
                r matches Ok(source) && source is None
            } else {
                match chosen {
                    Ok(Some(source)) => r matches Ok(s) && s matches Some(m) && m@ == source,
                    Ok(None) => r matches Err(a) && a@ == reply::error_of(
                        503,
                        "Reranker is not configured"@,
                    ),
                    Err(reason) => r matches Err(a) && a@ == reply::error_of(400, reason),
                }
            }
        }),
{
    if !request.rerank || block_len == 0 {
        return Ok(None);
    }
    let selector = match &request.rerank_id {
        Some(id) => Some(id.as_str()),
        None => None,
    };
    match models::kb_reranker_for(state, &request.kb_ids, selector) {
        Ok(Some(source)) => Ok(Some(source)),
        Ok(None) => Err(reply::api_error(503, "Reranker is not configured")),
        Err(reason) => Err(reply::api_error(400, reason.as_str())),
    }
}

/// What went wrong with a reranker.
#[derive(Clone, Copy, Debug, PartialEq, Eq, Structural)]
pub enum RerankFault {
    /// It did not answer.
    Request,
    /// Its answer does not fit the hits.
    Response,
}

/// The answer where the reranker fails.
pub fn rerank_failed(fault: RerankFault) -> (r: Reply)
    ensures
        r@ == reply::error_of(
            502,
            match fault {
                RerankFault::Request => "Reranker request failed"@,
                RerankFault::Response => "Invalid reranker response"@,
            },
        ),
{
    match fault {
        RerankFault::Request => reply::api_error(502, "Reranker request failed"),
        RerankFault::Response => reply::api_error(502, "Invalid reranker response"),
    }
}

// ── The answer ──────────────────────────────────────────────────

/// A text, or no characters.
pub open spec fn or_empty(s: Option<String>) -> Seq<char> {
    match s {
        Some(t) => t@,
        None => Seq::empty(),
    }
}

/// A hit as it is reported.
pub open spec fn hit_view(hit: Hit) -> JsonView {
    JsonView::Object(
        seq![
            ("score"@, JsonView::Real(hit.score)),
            ("vector_similarity"@, JsonView::Real(hit.vector_score)),
            ("term_similarity"@, JsonView::Real(hit.term_score)),
            ("content"@, JsonView::Str(hit.content@)),
            ("doc_name"@, JsonView::Str(hit.doc_name@)),
            ("chunk_id"@, JsonView::Str(hit.chunk_id@)),
            ("doc_id"@, JsonView::Str(or_empty(hit.doc_id))),
            ("kb_id"@, JsonView::Str(or_empty(hit.kb_id))),
            (
                "highlight"@,
                match hit.highlight {
                    Some(h) => JsonView::Str(h@),
                    None => JsonView::Null,
                },
            ),
            (
                "document_metadata"@,
                match hit.document_metadata {
                    Some(m) => m@,
                    None => JsonView::Null,
                },
            ),
        ],
    )
}

fn text_or_empty(s: &Option<String>) -> (r: Json)
    ensures
        r@ == JsonView::Str(or_empty(*s)),
{
    match s {
        Some(t) => json::string(t.as_str()),
        None => {
            let none = String::new();
            assert(none@ =~= Seq::<char>::empty());
            Json::Str(none)
        },
    }
}

/// A hit as it is reported.
pub fn hit_json(hit: &Hit) -> (r: Json)
    ensures
        r@ == hit_view(*hit),
{
    let highlight = match &hit.highlight {
        Some(h) => json::string(h.as_str()),
        None => Json::Null,
    };
    let metadata = match &hit.document_metadata {
        Some(m) => m.copy(),
        None => Json::Null,
    };
    let e = json::with(json::fields(), "score", Json::Real(hit.score));
    let e = json::with(e, "vector_similarity", Json::Real(hit.vector_score));
    let e = json::with(e, "term_similarity", Json::Real(hit.term_score));
    let e = json::with(e, "content", json::string(hit.content.as_str()));
    let e = json::with(e, "doc_name", json::string(hit.doc_name.as_str()));
    let e = json::with(e, "chunk_id", json::string(hit.chunk_id.as_str()));
    let e = json::with(e, "doc_id", text_or_empty(&hit.doc_id));
    let e = json::with(e, "kb_id", text_or_empty(&hit.kb_id));
    let e = json::with(e, "highlight", highlight);
    let e = json::with(e, "document_metadata", metadata);
    assert(json::entry_views(e@) =~= hit_view(*hit)->Object_0);
    json::object(e)
}

/// The hits of a page: of those in the block that reach the threshold, at most
/// `top_k` from position `begin` on.
pub open spec fn page_hits(block: Seq<Hit>, begin: u64, top_k: u64) -> Seq<JsonView> {
    page_of(passing(block), begin as nat, top_k as nat).map_values(|i: int| hit_view(block[i]))
}

/// The hits of a page as they are reported.
pub fn page_results(block: &Vec<Hit>, begin: u64, top_k: u64) -> (r: Vec<Json>)
    ensures
        json::item_views(r@) == page_hits(block@, begin, top_k),
{
    let positions = passing_positions(block);
    let (from, to) = bounds(positions.len(), begin, top_k);
    let ghost chosen = page_of(passing(block@), begin as nat, top_k as nat);
    assert(chosen =~= passing(block@).subrange(from as int, to as int));
    let mut out: Vec<Json> = Vec::new();
    let mut i: usize = from;
    while i < to
        invariant
            from <= i <= to <= positions@.len(),
            positions@.map_values(|p: usize| p as int) == passing(block@),
            forall|k: int| 0 <= k < positions@.len() ==> (#[trigger] positions@[k]) < block@.len(),
            chosen == passing(block@).subrange(from as int, to as int),
            out@.len() == i - from,
            forall|k: int|
                0 <= k < out@.len() ==> (#[trigger] out@[k])@ == hit_view(block@[chosen[k]]),
        decreases to - i,
    {
        let p: usize = positions[i];
        assert(passing(block@)[i as int] == p as int);
        assert(chosen[i - from] == p as int);
        out.push(hit_json(&block[p]));
        i += 1;
    }
    assert(json::item_views(out@) =~= page_hits(block@, begin, top_k));
    out
}

/// The answer to a search.
pub open spec fn search_answer(
    total: nat,
    chunks: Seq<JsonView>,
    doc_aggs: JsonView,
    graph_context: Seq<Seq<char>>,
) -> ReplyView {
    reply::ok_of(
        "ok"@,
        JsonView::Object(
            seq![
                ("total"@, JsonView::UInt(total as u64)),
                ("chunks"@, JsonView::Array(chunks)),
                ("doc_aggs"@, doc_aggs),
                ("graph_context"@, json::string_array(graph_context)),
            ],
        ),
    )
}

/// The answer to a search.
pub fn search_reply(
    total: usize,
    chunks: Vec<Json>,
    doc_aggs: Json,
    graph_context: &Vec<String>,
) -> (r: Reply)
    ensures
        r@ == search_answer(
            total as nat,
            json::item_views(chunks@),
            doc_aggs@,
            text::views(graph_context@),
        ),
{
    let e = json::with(json::fields(), "total", Json::UInt(total as u64));
    let e = json::with(e, "chunks", json::array(chunks));
    let e = json::with(e, "doc_aggs", doc_aggs);
    let e = json::with(e, "graph_context", json::strings(graph_context));
    assert(json::entry_views(e@) =~= seq![
        ("total"@, JsonView::UInt(total as u64)),
        ("chunks"@, JsonView::Array(json::item_views(chunks@))),
        ("doc_aggs"@, doc_aggs@),
        ("graph_context"@, json::string_array(text::views(graph_context@))),
    ]);
    reply::ok("ok", json::object(e))
}

/// The hits that reach the threshold.
pub open spec fn candidates(hits: Seq<Hit>) -> Seq<Hit> {
    passing(hits).map_values(|i: int| hits[i])
}

/// The answer to a search by what was found: all hits, and those of the block that the
/// page lies in, reranked where that was asked for. `doc_aggs` counts the hits of each
/// document.
pub open spec fn answer_of(
    request: SearchView,
    window: u64,
    all: Seq<Hit>,
    block: Seq<Hit>,
    doc_aggs: JsonView,
    graph_context: Seq<Seq<char>>,
) -> ReplyView {
    search_answer(
        candidates(all).len(),
        page_hits(block, place_of(request.page, request.top_k, window).begin, request.top_k),
        if request.aggregate {
            doc_aggs
        } else {
            JsonView::Array(Seq::empty())
        },
        graph_context,
    )
}

/// The answer to a search by what was found.
pub fn answer_search(
    request: &SearchRequest,
    window: u64,
    all: &Vec<Hit>,
    block: &Vec<Hit>,
    doc_aggs: Json,
    graph_context: &Vec<String>,
) -> (r: Reply)
    requires
        request.page >= 1,
        window > 0,
    ensures
        r@ == answer_of(
            request@,
            window,
            all@,
            block@,
            doc_aggs@,
            text::views(graph_context@),
        ),
{
    let total: usize = total_hits(all);
    let place = page_place(request.page, request.top_k, window);
    let chunks = page_results(block, place.begin, request.top_k);
    let told = if request.aggregate {
        doc_aggs
    } else {
        let none: Vec<Json> = Vec::new();
        assert(json::item_views(none@) =~= Seq::<JsonView>::empty());
        json::array(none)
    };
    search_reply(total, chunks, told, graph_context)
}

/// What a search asks of the index, whatever its page: everything but the page.
pub open spec fn page_left_out(request: SearchView) -> SearchView {
    SearchView { page: 1, ..request }
}

/// The answer to a search, where the hits follow from everything but the page, the
/// counts from the hits that reach the threshold, and the graph's context from the
/// knowledge bases and the question.
pub open spec fn answer_by(
    request: SearchView,
    window: u64,
    hits: spec_fn(SearchView) -> Seq<Hit>,
    block: Seq<Hit>,
    aggs: spec_fn(Seq<Hit>) -> JsonView,
    context: spec_fn(Seq<Seq<char>>, Seq<char>) -> Seq<Seq<char>>,
) -> ReplyView {
    let all = hits(page_left_out(request));
    answer_of(
        request,
        window,
        all,
        block,
        aggs(candidates(all)),
        context(request.kb_ids, request.question),
    )
}

/// What an answer tells under the key.
pub open spec fn told(answer: ReplyView, key: Seq<char>) -> Option<JsonView> {
    match answer.body.get("data"@) {
        Some(data) => data.get(key),
        None => None,
    }
}

proof fn lemma_told(
    total: nat,
    chunks: Seq<JsonView>,
    doc_aggs: JsonView,
    graph_context: Seq<Seq<char>>,
)
    ensures
        ({
            let answer = search_answer(total, chunks, doc_aggs, graph_context);
            &&& told(answer, "total"@) == Some(JsonView::UInt(total as u64))
            &&& told(answer, "chunks"@) == Some(JsonView::Array(chunks))
            &&& told(answer, "doc_aggs"@) == Some(doc_aggs)
            &&& told(answer, "graph_context"@) == Some(json::string_array(graph_context))
        }),
{
    let answer = search_answer(total, chunks, doc_aggs, graph_context);
    reveal_strlit("code");
    reveal_strlit("message");
    reveal_strlit("data");
    reveal_strlit("total");
    reveal_strlit("chunks");
    reveal_strlit("doc_aggs");
    reveal_strlit("graph_context");
    reveal_with_fuel(json::entry, 5);
    assert("code"@[0] != "data"@[0]);
    assert("message"@.len() == 7 && "data"@.len() == 4);
    assert("total"@.len() == 5 && "chunks"@.len() == 6 && "doc_aggs"@.len() == 8);
    assert("graph_context"@.len() == 13);
    let data = JsonView::Object(
        seq![
            ("total"@, JsonView::UInt(total as u64)),
            ("chunks"@, JsonView::Array(chunks)),
            ("doc_aggs"@, doc_aggs),
            ("graph_context"@, json::string_array(graph_context)),
        ],
    );
    assert(answer.body.get("data"@) == Some(data));
}

/// Two searches that differ only in the page ask the same of everything else, and are
/// told the same total, the same documents and the same context of the graph.
/// Each of them is told at most as many chunks as it asked for, and only such as reach
/// the threshold.
pub proof fn pages_share_their_totals(
    s: AppState,
    a: JsonView,
    b: JsonView,
    window: u64,
    hits: spec_fn(SearchView) -> Seq<Hit>,
    block_a: Seq<Hit>,
    block_b: Seq<Hit>,
    aggs: spec_fn(Seq<Hit>) -> JsonView,
    context: spec_fn(Seq<Seq<char>>, Seq<char>) -> Seq<Seq<char>>,
)
    requires
        forall|key: Seq<char>| key != "page"@ ==> #[trigger] a.get(key) == b.get(key),
    ensures
        page_left_out(search_of(s, a)) == page_left_out(search_of(s, b)),
        ({
            let one = answer_by(search_of(s, a), window, hits, block_a, aggs, context);
            let other = answer_by(search_of(s, b), window, hits, block_b, aggs, context);
            &&& told(one, "total"@) == told(other, "total"@)
            &&& told(one, "doc_aggs"@) == told(other, "doc_aggs"@)
            &&& told(one, "graph_context"@) == told(other, "graph_context"@)
            &&& tells_page(one, search_of(s, a).top_k, block_a)
            &&& tells_page(other, search_of(s, b).top_k, block_b)
        }),
{
    lemma_only_page(a, b);
    let (p, q) = (search_of(s, a), search_of(s, b));
    assert(page_left_out(p) == page_left_out(q));
    let all = hits(page_left_out(p));
    lemma_page_told(p, window, all, block_a, aggs(candidates(all)), context(p.kb_ids, p.question));
    lemma_page_told(q, window, all, block_b, aggs(candidates(all)), context(q.kb_ids, q.question));
}

/// At most `top_k` chunks, each a hit of the block that reaches the threshold.
pub open spec fn is_page(chunks: Seq<JsonView>, top_k: u64, block: Seq<Hit>) -> bool {
    chunks.len() <= top_k && forall|k: int|
        0 <= k < chunks.len() ==> exists|i: int|
            0 <= i < block.len() && block[i].passes && #[trigger] chunks[k] == #[trigger] hit_view(
                block[i],
            )
}

/// The answer tells at most `top_k` chunks, each a hit of the block that reaches the
/// threshold.
pub open spec fn tells_page(answer: ReplyView, top_k: u64, block: Seq<Hit>) -> bool {
    match told(answer, "chunks"@) {
        Some(JsonView::Array(chunks)) => is_page(chunks, top_k, block),
        _ => false,
    }
}

proof fn lemma_page_told(
    request: SearchView,
    window: u64,
    all: Seq<Hit>,
    block: Seq<Hit>,
    doc_aggs: JsonView,
    graph_context: Seq<Seq<char>>,
)
    ensures
        ({
            let answer = answer_of(request, window, all, block, doc_aggs, graph_context);
            &&& told(answer, "total"@) == Some(JsonView::UInt(candidates(all).len() as u64))
            &&& told(answer, "doc_aggs"@) == Some(
                if request.aggregate {
                    doc_aggs
                } else {
                    JsonView::Array(Seq::empty())
                },
            )
            &&& told(answer, "graph_context"@) == Some(json::string_array(graph_context))
            &&& tells_page(answer, request.top_k, block)
        }),
{
    let begin = place_of(request.page, request.top_k, window).begin;
    let chunks = page_hits(block, begin, request.top_k);
    let answer = answer_of(request, window, all, block, doc_aggs, graph_context);
    pages_hold_what_was_asked_for(block, begin, request.top_k);
    lemma_told(
        candidates(all).len(),
        chunks,
        if request.aggregate {
            doc_aggs
        } else {
            JsonView::Array(Seq::empty())
        },
        graph_context,
    );
    assert(told(answer, "chunks"@) == Some(JsonView::Array(chunks)));
}

proof fn lemma_only_page(a: JsonView, b: JsonView)
    requires
        forall|key: Seq<char>| key != "page"@ ==> #[trigger] a.get(key) == b.get(key),
    ensures
        forall|key: Seq<char>| is_saved_field(key) ==> #[trigger] a.get(key) == b.get(key),
        a.get("search_id"@) == b.get("search_id"@),
        a.get("kb_id"@) == b.get("kb_id"@),
        a.get("question"@) == b.get("question"@),
        a.get("rank_feature"@) == b.get("rank_feature"@),
        a.get("highlight"@) == b.get("highlight"@),
        a.get("aggs"@) == b.get("aggs"@),
{
    lemma_other_fields();
    reveal_strlit("page");
    assert("search_id"@ != "page"@) by {
        reveal_strlit("search_id");
        assert("search_id"@.len() != "page"@.len());
    }
    assert("kb_id"@ != "page"@) by {
        reveal_strlit("kb_id");
        assert("kb_id"@.len() != "page"@.len());
    }
    assert("question"@ != "page"@) by {
        reveal_strlit("question");
        assert("question"@.len() != "page"@.len());
    }
    assert("rank_feature"@ != "page"@) by {
        reveal_strlit("rank_feature");
        assert("rank_feature"@.len() != "page"@.len());
    }
    assert("highlight"@ != "page"@) by {
        reveal_strlit("highlight");
        assert("highlight"@.len() != "page"@.len());
    }
    assert("aggs"@ != "page"@) by {
        reveal_strlit("aggs");
        assert("aggs"@[0] != "page"@[0]);
    }
}

proof fn lemma_passing(hits: Seq<Hit>)
    ensures
        forall|k: int|
            0 <= k < passing(hits).len() ==> 0 <= #[trigger] passing(hits)[k] < hits.len()
                && hits[passing(hits)[k]].passes,
        passing(hits).len() <= hits.len(),
    decreases hits.len(),
{
    if hits.len() > 0 {
        lemma_passing(hits.drop_last());
    }
}

/// A page holds at most as many hits as were asked for, and none that stays below the
/// threshold.
pub proof fn pages_hold_what_was_asked_for(block: Seq<Hit>, begin: u64, top_k: u64)
    ensures
        is_page(page_hits(block, begin, top_k), top_k, block),
{
    lemma_passing(block);
    let all = passing(block);
    let page = page_of(all, begin as nat, top_k as nat);
    let chunks = page_hits(block, begin, top_k);
    assert forall|k: int| 0 <= k < chunks.len() implies exists|i: int|
        0 <= i < block.len() && block[i].passes && #[trigger] chunks[k] == #[trigger] hit_view(
            block[i],
        ) by {
        let from = if begin < all.len() {
            begin as int
        } else {
            all.len() as int
        };
        let i = page[k];
        assert(i == all[from + k]);
        assert(chunks[k] == hit_view(block[i]));
    }
}

// ── What a search is for ────────────────────────────────────────

/// What a request tells is what is searched: its question, its page, its number of hits,
/// its weights, its knowledge bases, its documents, its filter and its switches. What
/// stands in a list counts string by string, in order, with nothing left out.
pub proof fn searches_ask_what_the_request_tells(
    state: AppState,
    body: Json,
    r: SearchRequest,
)
    requires
        call_ensures(retrieval, (&state, &body), r),
    ensures
        body@.text("question"@) matches Some(question) ==> r.question@ == question,
        body@.text("question"@) is None ==> r.question@.len() == 0,
        body@.number("top_k"@) matches Some(k) ==> r.top_k == k,
        body@.number("page"@) matches Some(p) ==> r.page == (if p == 0 {
            1
        } else {
            p as int
        }),
        body@.number("page"@) is None ==> r.page == 1,
        body@.numeric("vector_similarity_weight"@) matches Some(w) ==> r.vector_weight@ == w,
        body@.numeric("similarity_threshold"@) matches Some(t) ==> r.threshold@ == t,
        body@.flag("rerank"@) == Some(true) ==> r.rerank,
        body@.text("rerank_id"@) matches Some(id) && text::trimmed(id).len() > 0 ==> r.rerank
            && text::opt_view(r.rerank_id) == Some(text::trimmed(body@.text("rerank_id"@)->Some_0)),
        body@.items("doc_ids"@) matches Some(items) ==> (r.doc_ids matches Some(ids) && text::views(
            ids@,
        ) == items.filter(|v: JsonView| v is Str).map_values(|v: JsonView| v->Str_0)),
        body@.get("meta_data_filter"@) matches Some(filter) && !(filter is Null)
            ==> json::opt_json(r.metadata_filter) == body@.get("meta_data_filter"@),
        json::opt_json(r.rank_feature) == body@.get("rank_feature"@),
        body@.flag("highlight"@) == Some(true) <==> r.highlight,
        body@.flag("aggs"@) == Some(false) <==> !r.aggregate,
{
    if let Some(items) = body@.items("doc_ids"@) {
        json::string_items_are_all_strings(items);
    }
}

/// The knowledge bases that are searched are the strings under `kb_ids`, or under
/// `kb_id` where the first is not there: each of them, in order, and no other.
pub proof fn searches_reach_every_named_base(
    state: AppState,
    body: Json,
    r: SearchRequest,
    items: Seq<JsonView>,
    i: int,
)
    requires
        call_ensures(retrieval, (&state, &body), r),
        body@.items("kb_ids"@) == Some(items) || (body@.get("kb_ids"@) is None && body@.items(
            "kb_id"@,
        ) == Some(items)),
        0 <= i < items.len(),
        items[i] is Str,
    ensures
        text::views(r.kb_ids@) == items.filter(|v: JsonView| v is Str).map_values(
            |v: JsonView| v->Str_0,
        ),
        text::views(r.kb_ids@).contains(items[i]->Str_0),
{
    json::string_items_are_all_strings(items);
    assert(json::string_items(items).contains(items[i]->Str_0));
    assert(json::string_items(items).len() > 0);
}

/// A search that names no application has ten hits on a page, a weight of 0.3, a
/// threshold of 0.2, and no knowledge bases, documents, filter or chat model of its own
/// accord; nothing is reranked unless it says so.
pub proof fn bare_searches_have_defaults(state: AppState, body: Json, r: SearchRequest)
    requires
        call_ensures(retrieval, (&state, &body), r),
        body@.text("search_id"@) is None,
    ensures
        body@.number("top_k"@) is None ==> r.top_k == 10,
        body@.numeric("vector_similarity_weight"@) is None ==> r.vector_weight@ == JsonView::Real(
            0x3FD3_3333_3333_3333,
        ),
        body@.numeric("similarity_threshold"@) is None ==> r.threshold@ == JsonView::Real(
            0x3FC9_9999_9999_999A,
        ),
        body@.get("kb_ids"@) is None && body@.get("kb_id"@) is None ==> r.kb_ids@.len() == 0,
        body@.items("doc_ids"@) is None ==> r.doc_ids is None,
        body@.get("meta_data_filter"@) is None ==> r.metadata_filter is None,
        r.chat_id is None,
        body@.flag("rerank"@) != Some(true) && body@.text("rerank_id"@) is None ==> !r.rerank
            && r.rerank_id is None,
{
    assert(text::views(r.kb_ids@).len() == r.kb_ids@.len());
}

/// What a search leaves out is what the application that it names has stored.
pub proof fn applications_fill_what_is_left_out(
    state: AppState,
    body: Json,
    r: SearchRequest,
    id: Seq<char>,
    app: SearchApp,
)
    requires
        call_ensures(retrieval, (&state, &body), r),
        body@.text("search_id"@) == Some(id),
        text::trimmed(id).len() > 0,
        state.app(id) == Some(app),
    ensures
        body@.number("top_k"@) is None ==> r.top_k == app.top_k,
        body@.numeric("vector_similarity_weight"@) is None ==> r.vector_weight@ == JsonView::Real(
            app.vector_similarity_weight,
        ),
        body@.numeric("similarity_threshold"@) is None ==> r.threshold@ == JsonView::Real(
            app.similarity_threshold,
        ),
        body@.get("kb_ids"@) is None && body@.get("kb_id"@) is None ==> text::views(r.kb_ids@)
            == text::views(app.kb_ids@),
        body@.items("doc_ids"@) is None && app.doc_ids@.len() > 0 ==> (r.doc_ids matches Some(ids)
            && text::views(ids@) == text::views(app.doc_ids@)),
        body@.items("doc_ids"@) is None && app.doc_ids@.len() == 0 ==> r.doc_ids is None,
        body@.get("meta_data_filter"@) is None && !(app.meta_data_filter@ is Null)
            ==> json::opt_json(r.metadata_filter) == Some(app.meta_data_filter@),
        app.rerank ==> r.rerank,
        body@.text("rerank_id"@) is None && text::trimmed(app.rerank_id@).len() > 0 ==> r.rerank
            && text::opt_view(r.rerank_id) == Some(text::trimmed(app.rerank_id@)),
        body@.flag("rerank"@) != Some(true) && body@.text("rerank_id"@) is None && !app.rerank
            && text::trimmed(app.rerank_id@).len() == 0 ==> !r.rerank,
        text::trimmed(app.chat_id@).len() > 0 ==> text::opt_view(r.chat_id) == Some(app.chat_id@),
        text::trimmed(app.chat_id@).len() == 0 ==> r.chat_id is None,
{
}

/// A search is made only where the user may read each of its knowledge bases, and there
/// is one; any other is answered with 400. Where vectors do not count, no model is asked.
pub proof fn searches_are_admitted_base_by_base(
    state: AppState,
    auth: AuthContext,
    kb_ids: Vec<String>,
    by_vector: bool,
    r: Result<Option<ModelSource<'static>>, Reply>,
    i: int,
)
    requires
        call_ensures(admit_search, (&state, &auth, &kb_ids, by_vector), r),
    ensures
        kb_ids@.len() == 0 ==> (r matches Err(a) && reply::tells(
            a@,
            400,
            400,
            "At least one accessible kb_id is required"@,
        )),
        0 <= i < kb_ids@.len() && !access::may_read(state, kb_ids@[i]@, auth) ==> (r matches Err(a)
            && reply::tells(a@, 400, 400, "At least one accessible kb_id is required"@)),
        r matches Ok(model) ==> (model is Some <==> by_vector),
        r matches Err(a) ==> a.status == 400,
{
    let ids = text::views(kb_ids@);
    assert(ids.len() == kb_ids@.len());
    if 0 <= i < kb_ids@.len() {
        assert(ids[i] == kb_ids@[i]@);
    }
    reply::answers_tell_what_they_were_given(
        400,
        400,
        "At least one accessible kb_id is required"@,
        JsonView::Null,
    );
}

/// Readable knowledge bases without a model of their own are searched with the global
/// one, where there is one; without one, only a search without vectors is made.
pub proof fn plain_bases_are_searched_with_the_global_model(
    state: AppState,
    auth: AuthContext,
    kb_ids: Vec<String>,
    by_vector: bool,
    r: Result<Option<ModelSource<'static>>, Reply>,
)
    requires
        call_ensures(admit_search, (&state, &auth, &kb_ids, by_vector), r),
        kb_ids@.len() > 0,
        forall|i: int|
            0 <= i < kb_ids@.len() ==> access::may_read(state, (#[trigger] kb_ids@[i])@, auth),
        forall|i: int|
            0 <= i < kb_ids@.len() ==> text::trimmed(
                state.kb((#[trigger] kb_ids@[i])@)->Some_0.embd_id@,
            ).len() == 0,
    ensures
        !by_vector ==> r == Ok::<Option<ModelSource<'static>>, Reply>(None),
        by_vector && state.embedder ==> (r matches Ok(Some(model)) && model is Global),
        by_vector && !state.embedder ==> (r matches Err(a) && reply::tells(
            a@,
            400,
            400,
            "Embedding is not configured"@,
        )),
{
    let ids = text::views(kb_ids@);
    assert(ids.len() == kb_ids@.len());
    assert forall|i: int| 0 <= i < ids.len() implies access::may_read(state, #[trigger] ids[i], auth)
        && models::kb_binding(state, ids[i]) == Ok::<_, Seq<char>>("default"@) by {
        assert(ids[i] == kb_ids@[i]@);
    }
    models::binding_means_one_vector_space(state, ids, "default"@);
    reply::answers_tell_what_they_were_given(
        400,
        400,
        "Embedding is not configured"@,
        JsonView::Null,
    );
}

/// A search by vectors whose question could not be embedded fails with 500; any other
/// goes on.
pub proof fn questions_without_vectors_fail(by_vector: bool, embedded: bool, r: Option<Reply>)
    requires
        call_ensures(embedding_missing, (by_vector, embedded), r),
    ensures
        by_vector && !embedded ==> (r matches Some(a) && reply::tells(a@, 500, 500, "Embed failed"@)),
        !by_vector ==> r is None,
        embedded ==> r is None,
{
    reply::answers_tell_what_they_were_given(500, 500, "Embed failed"@, JsonView::Null);
}

/// At most 1024 hits are reranked together; without reranking there is no such limit.
pub proof fn reranked_blocks_are_limited(rerank: bool, r: Option<usize>)
    requires
        call_ensures(rerank_limit, (rerank,), r),
    ensures
        rerank ==> r == Some(1024usize),
        !rerank ==> r is None,
{
}

/// A page starts after all the hits of the pages before it, in the block that this
/// position lies in, and blocks start at the multiples of their size.
pub proof fn pages_start_after_the_pages_before(page: u64, top_k: u64, window: u64, r: PagePlace)
    requires
        page >= 1,
        window > 0,
        (page - 1) * top_k <= u64::MAX,
        call_ensures(page_place, (page, top_k, window), r),
    ensures
        r.offset == (page - 1) * top_k,
        r.block_start + r.begin == (page - 1) * top_k,
        r.begin < window,
        r.block_start % window == 0,
        page == 1 ==> r.block_start == 0 && r.begin == 0,
{
    assert((page - 1) * top_k >= 0) by (nonlinear_arith)
        requires
            page >= 1,
    ;
    pages_lie_in_their_block(page, top_k, window);
    if page == 1 {
        assert((page - 1) * top_k == 0) by (nonlinear_arith)
            requires
                page == 1,
        ;
    }
}

/// The positions that count are those of the hits that reach the threshold, every one of
/// them once, in order.
pub proof fn counted_hits_reach_the_threshold(hits: Vec<Hit>, r: Vec<usize>, i: int, j: int)
    requires
        call_ensures(passing_positions, (&hits,), r),
    ensures
        0 <= i < r@.len() ==> r@[i] < hits@.len() && hits@[r@[i] as int].passes,
        0 <= i < j < r@.len() ==> r@[i] < r@[j],
        0 <= i < hits@.len() && hits@[i].passes ==> exists|k: int|
            0 <= k < r@.len() && #[trigger] r@[k] == i,
        r@.len() == hits@.filter(|h: Hit| h.passes).len(),
{
    let all = r@.map_values(|p: usize| p as int);
    lemma_passing(hits@);
    lemma_passing_complete(hits@);
    assert(all == passing(hits@));
    if 0 <= i < r@.len() {
        assert(all[i] == r@[i] as int);
    }
    if 0 <= j < r@.len() {
        assert(all[j] == r@[j] as int);
    }
    if 0 <= i < hits@.len() && hits@[i].passes {
        let k = choose|k: int| 0 <= k < passing(hits@).len() && passing(hits@)[k] == i;
        assert(all[k] == r@[k] as int);
        assert(r@[k] == i);
    }
}

proof fn lemma_passing_complete(hits: Seq<Hit>)
    ensures
        forall|i: int|
            0 <= i < hits.len() && (#[trigger] hits[i]).passes ==> exists|k: int|
                0 <= k < passing(hits).len() && #[trigger] passing(hits)[k] == i,
        forall|i: int, j: int|
            0 <= i < j < passing(hits).len() ==> #[trigger] passing(hits)[i] < #[trigger] passing(
                hits,
            )[j],
        passing(hits).len() == hits.filter(|h: Hit| h.passes).len(),
    decreases hits.len(),
{
    reveal(Seq::filter);
    if hits.len() > 0 {
        let rest = hits.drop_last();
        lemma_passing(rest);
        lemma_passing_complete(rest);
        assert forall|i: int| 0 <= i < hits.len() && (#[trigger] hits[i]).passes implies exists|k: int|
            0 <= k < passing(hits).len() && #[trigger] passing(hits)[k] == i by {
            if i < rest.len() {
                assert(rest[i].passes);
                let k = choose|k: int|
                    0 <= k < passing(rest).len() && #[trigger] passing(rest)[k] == i;
                assert(passing(hits)[k] == i);
            } else {
                assert(passing(hits)[passing(hits).len() - 1] == i);
            }
        }
    }
}

/// The total is the number of hits that reach the threshold.
pub proof fn totals_count_what_reaches_the_threshold(hits: Vec<Hit>, r: usize)
    requires
        call_ensures(total_hits, (&hits,), r),
    ensures
        r == hits@.filter(|h: Hit| h.passes).len(),
{
    lemma_passing_complete(hits@);
}

/// A block holds the hits from its start on, as many as fit, as long as there are any.
pub proof fn blocks_are_cut_from_their_start(
    hits: usize,
    place: PagePlace,
    window: u64,
    r: (usize, usize),
    items: Seq<Hit>,
)
    requires
        call_ensures(block_bounds, (hits, place, window), r),
        items.len() == hits,
    ensures
        items.subrange(r.0 as int, r.1 as int).len() == (if place.block_start >= hits {
            0
        } else if place.block_start + window <= hits {
            window as int
        } else {
            hits - place.block_start
        }),
        forall|k: int|
            0 <= k < r.1 - r.0 ==> #[trigger] items.subrange(r.0 as int, r.1 as int)[k]
                == items[place.block_start + k],
{
}

/// Only what was asked to be reranked is, and only where there are hits. Without a model
/// of its own choice that is done by the global reranker; where there is none, the search
/// is answered with 503.
pub proof fn blocks_are_reranked_on_demand(
    state: AppState,
    request: SearchRequest,
    block_len: usize,
    r: Result<Option<ModelSource<'static>>, Reply>,
)
    requires
        call_ensures(block_reranker, (&state, &request, block_len), r),
    ensures
        !request.rerank || block_len == 0 ==> r == Ok::<Option<ModelSource<'static>>, Reply>(None),
        request.rerank && block_len > 0 && request.rerank_id is None && state.reranker ==> (
        r matches Ok(Some(model)) && model is Global),
        request.rerank && block_len > 0 && request.rerank_id is None && !state.reranker ==> (
        r matches Err(a) && reply::tells(a@, 503, 503, "Reranker is not configured"@)),
        request.rerank && block_len > 0 ==> !(r matches Ok(None)),
{
    reply::answers_tell_what_they_were_given(
        503,
        503,
        "Reranker is not configured"@,
        JsonView::Null,
    );
}

/// A reranker that fails is told with 502, and whether it did not answer or answered
/// nonsense.
pub proof fn failing_rerankers_are_told(fault: RerankFault, r: Reply)
    requires
        call_ensures(rerank_failed, (fault,), r),
    ensures
        fault is Request ==> reply::tells(r@, 502, 502, "Reranker request failed"@),
        fault is Response ==> reply::tells(r@, 502, 502, "Invalid reranker response"@),
{
    reply::answers_tell_what_they_were_given(
        502,
        502,
        "Reranker request failed"@,
        JsonView::Null,
    );
    reply::answers_tell_what_they_were_given(
        502,
        502,
        "Invalid reranker response"@,
        JsonView::Null,
    );
}

proof fn lemma_hit_keys()
    ensures
        "score"@ != "vector_similarity"@,
        "score"@ != "term_similarity"@,
        "score"@ != "content"@,
        "score"@ != "doc_name"@,
        "score"@ != "chunk_id"@,
        "score"@ != "doc_id"@,
        "score"@ != "kb_id"@,
        "score"@ != "highlight"@,
        "score"@ != "document_metadata"@,
        "vector_similarity"@ != "term_similarity"@,
        "vector_similarity"@ != "content"@,
        "vector_similarity"@ != "doc_name"@,
        "vector_similarity"@ != "chunk_id"@,
        "vector_similarity"@ != "doc_id"@,
        "vector_similarity"@ != "kb_id"@,
        "vector_similarity"@ != "highlight"@,
        "vector_similarity"@ != "document_metadata"@,
        "term_similarity"@ != "content"@,
        "term_similarity"@ != "doc_name"@,
        "term_similarity"@ != "chunk_id"@,
        "term_similarity"@ != "doc_id"@,
        "term_similarity"@ != "kb_id"@,
        "term_similarity"@ != "highlight"@,
        "term_similarity"@ != "document_metadata"@,
        "content"@ != "doc_name"@,
        "content"@ != "chunk_id"@,
        "content"@ != "doc_id"@,
        "content"@ != "kb_id"@,
        "content"@ != "highlight"@,
        "content"@ != "document_metadata"@,
        "doc_name"@ != "chunk_id"@,
        "doc_name"@ != "doc_id"@,
        "doc_name"@ != "kb_id"@,
        "doc_name"@ != "highlight"@,
        "doc_name"@ != "document_metadata"@,
        "chunk_id"@ != "doc_id"@,
        "chunk_id"@ != "kb_id"@,
        "chunk_id"@ != "highlight"@,
        "chunk_id"@ != "document_metadata"@,
        "doc_id"@ != "kb_id"@,
        "doc_id"@ != "highlight"@,
        "doc_id"@ != "document_metadata"@,
        "kb_id"@ != "highlight"@,
        "kb_id"@ != "document_metadata"@,
        "highlight"@ != "document_metadata"@,
{
    reveal_strlit("score");
    reveal_strlit("vector_similarity");
    reveal_strlit("term_similarity");
    reveal_strlit("content");
    reveal_strlit("doc_name");
    reveal_strlit("chunk_id");
    reveal_strlit("doc_id");
    reveal_strlit("kb_id");
    reveal_strlit("highlight");
    reveal_strlit("document_metadata");
    assert("score"@.len() != "vector_similarity"@.len());
    assert("score"@.len() != "term_similarity"@.len());
    assert("score"@.len() != "content"@.len());
    assert("score"@.len() != "doc_name"@.len());
    assert("score"@.len() != "chunk_id"@.len());
    assert("score"@.len() != "doc_id"@.len());
    assert("score"@[0] != "kb_id"@[0]);
    assert("score"@.len() != "highlight"@.len());
    assert("score"@.len() != "document_metadata"@.len());
    assert("vector_similarity"@.len() != "term_similarity"@.len());
    assert("vector_similarity"@.len() != "content"@.len());
    assert("vector_similarity"@.len() != "doc_name"@.len());
    assert("vector_similarity"@.len() != "chunk_id"@.len());
    assert("vector_similarity"@.len() != "doc_id"@.len());
    assert("vector_similarity"@.len() != "kb_id"@.len());
    assert("vector_similarity"@.len() != "highlight"@.len());
    assert("vector_similarity"@[0] != "document_metadata"@[0]);
    assert("term_similarity"@.len() != "content"@.len());
    assert("term_similarity"@.len() != "doc_name"@.len());
    assert("term_similarity"@.len() != "chunk_id"@.len());
    assert("term_similarity"@.len() != "doc_id"@.len());
    assert("term_similarity"@.len() != "kb_id"@.len());
    assert("term_similarity"@.len() != "highlight"@.len());
    assert("term_similarity"@.len() != "document_metadata"@.len());
    assert("content"@.len() != "doc_name"@.len());
    assert("content"@.len() != "chunk_id"@.len());
    assert("content"@.len() != "doc_id"@.len());
    assert("content"@.len() != "kb_id"@.len());
    assert("content"@.len() != "highlight"@.len());
    assert("content"@.len() != "document_metadata"@.len());
    assert("doc_name"@[0] != "chunk_id"@[0]);
    assert("doc_name"@.len() != "doc_id"@.len());
    assert("doc_name"@.len() != "kb_id"@.len());
    assert("doc_name"@.len() != "highlight"@.len());
    assert("doc_name"@.len() != "document_metadata"@.len());
    assert("chunk_id"@.len() != "doc_id"@.len());
    assert("chunk_id"@.len() != "kb_id"@.len());
    assert("chunk_id"@.len() != "highlight"@.len());
    assert("chunk_id"@.len() != "document_metadata"@.len());
    assert("doc_id"@.len() != "kb_id"@.len());
    assert("doc_id"@.len() != "highlight"@.len());
    assert("doc_id"@.len() != "document_metadata"@.len());
    assert("kb_id"@.len() != "highlight"@.len());
    assert("kb_id"@.len() != "document_metadata"@.len());
    assert("highlight"@.len() != "document_metadata"@.len());
}

/// A hit is told with its scores, its text, its document and its chunk, each under its
/// own key; what was not asked for is `null`.
pub proof fn hits_are_told_as_they_were_found(hit: Hit, r: Json)
    requires
        call_ensures(hit_json, (&hit,), r),
    ensures
        r@.get("score"@) == Some(JsonView::Real(hit.score)),
        r@.get("vector_similarity"@) == Some(JsonView::Real(hit.vector_score)),
        r@.get("term_similarity"@) == Some(JsonView::Real(hit.term_score)),
        r@.text("content"@) == Some(hit.content@),
        r@.text("doc_name"@) == Some(hit.doc_name@),
        r@.text("chunk_id"@) == Some(hit.chunk_id@),
        hit.doc_id matches Some(id) ==> r@.text("doc_id"@) == Some(id@),
        hit.doc_id is None ==> r@.text("doc_id"@) == Some(Seq::<char>::empty()),
        hit.kb_id matches Some(id) ==> r@.text("kb_id"@) == Some(id@),
        hit.kb_id is None ==> r@.text("kb_id"@) == Some(Seq::<char>::empty()),
        hit.highlight matches Some(h) ==> r@.text("highlight"@) == Some(h@),
        hit.highlight is None ==> r@.get("highlight"@) == Some(JsonView::Null),
        hit.document_metadata matches Some(m) ==> r@.get("document_metadata"@) == Some(m@),
        hit.document_metadata is None ==> r@.get("document_metadata"@) == Some(JsonView::Null),
{
    lemma_hit_keys();
    reveal_with_fuel(json::entry, 11);
}

/// The chunks of a page are the hits that reach the threshold, from the page's place on,
/// one after the other, as many as were asked for or as there are left.
pub proof fn pages_show_the_next_hits(
    block: Vec<Hit>,
    begin: u64,
    top_k: u64,
    r: Vec<Json>,
    positions: Vec<usize>,
    k: int,
)
    requires
        call_ensures(page_results, (&block, begin, top_k), r),
        call_ensures(passing_positions, (&block,), positions),
    ensures
        r@.len() == (if begin >= positions@.len() {
            0
        } else if begin + top_k <= positions@.len() {
            top_k as int
        } else {
            positions@.len() - begin
        }),
        0 <= k < r@.len() ==> r@[k]@.text("chunk_id"@) == Some(
            block@[positions@[begin + k] as int].chunk_id@,
        ) && r@[k]@.text("content"@) == Some(block@[positions@[begin + k] as int].content@),
{
    let all = positions@.map_values(|p: usize| p as int);
    assert(json::item_views(r@).len() == r@.len());
    assert(all.len() == positions@.len());
    if 0 <= k < r@.len() {
        assert(json::item_views(r@)[k] == r@[k]@);
        assert(page_hits(block@, begin, top_k)[k] == hit_view(block@[all[begin + k]]));
        lemma_hit_keys();
        reveal_with_fuel(json::entry, 11);
    }
}

/// The answer to a search is a success that tells the total, the chunks, the documents
/// and the context of the graph that it was given.
pub proof fn search_answers_tell_their_parts(
    total: usize,
    chunks: Vec<Json>,
    doc_aggs: Json,
    graph_context: Vec<String>,
    r: Reply,
)
    requires
        call_ensures(search_reply, (total, chunks, doc_aggs, &graph_context), r),
    ensures
        reply::tells(r@, 200, 0, "ok"@),
        told(r@, "total"@) == Some(JsonView::UInt(total as u64)),
        told(r@, "chunks"@) == Some(JsonView::Array(json::item_views(chunks@))),
        told(r@, "doc_aggs"@) == Some(doc_aggs@),
        told(r@, "graph_context"@) == Some(json::string_array(text::views(graph_context@))),
{
    lemma_told(
        total as nat,
        json::item_views(chunks@),
        doc_aggs@,
        text::views(graph_context@),
    );
    let data = JsonView::Object(
        seq![
            ("total"@, JsonView::UInt(total as u64)),
            ("chunks"@, JsonView::Array(json::item_views(chunks@))),
            ("doc_aggs"@, doc_aggs@),
            ("graph_context"@, json::string_array(text::views(graph_context@))),
        ],
    );
    reply::answers_tell_what_they_were_given(200, 0, "ok"@, data);
}

/// The answer to a search counts every hit that reaches the threshold, wherever its page
/// lies, and shows the part of its block that belongs to the page. The documents are
/// told unless the request does not want them.
pub proof fn answered_searches_count_all_and_show_a_page(
    request: SearchRequest,
    window: u64,
    all: Vec<Hit>,
    block: Vec<Hit>,
    doc_aggs: Json,
    graph_context: Vec<String>,
    r: Reply,
    place: PagePlace,
    page: Vec<Json>,
)
    requires
        request.page >= 1,
        window > 0,
        all@.len() <= u64::MAX,
        call_ensures(
            answer_search,
            (&request, window, &all, &block, doc_aggs, &graph_context),
            r,
        ),
        call_ensures(page_place, (request.page, request.top_k, window), place),
        call_ensures(page_results, (&block, place.begin, request.top_k), page),
    ensures
        reply::tells(r@, 200, 0, "ok"@),
        told(r@, "total"@) matches Some(JsonView::UInt(n)) && n == all@.filter(
            |h: Hit| h.passes,
        ).len(),
        told(r@, "chunks"@) == Some(JsonView::Array(json::item_views(page@))),
        told(r@, "doc_aggs"@) == Some(
            if request.aggregate {
                doc_aggs@
            } else {
                JsonView::Array(Seq::empty())
            },
        ),
        told(r@, "graph_context"@) == Some(json::string_array(text::views(graph_context@))),
{
    lemma_passing_complete(all@);
    lemma_passing(all@);
    let aggs = if request.aggregate {
        doc_aggs@
    } else {
        JsonView::Array(Seq::empty())
    };
    lemma_told(
        candidates(all@).len(),
        page_hits(block@, place.begin, request.top_k),
        aggs,
        text::views(graph_context@),
    );
    let data = JsonView::Object(
        seq![
            ("total"@, JsonView::UInt(candidates(all@).len() as u64)),
            ("chunks"@, JsonView::Array(page_hits(block@, place.begin, request.top_k))),
            ("doc_aggs"@, aggs),
            ("graph_context"@, json::string_array(text::views(graph_context@))),
        ],
    );
    reply::answers_tell_what_they_were_given(200, 0, "ok"@, data);
}

} // verus!
