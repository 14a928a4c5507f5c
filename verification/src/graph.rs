//! Knowledge graphs: building one from the chunks of a knowledge base, and telling
//! what it holds.

use crate::access;
use crate::access::AuthContext;
use crate::datasets;
use crate::json;
use crate::json::{Json, JsonView};
use crate::reply;
use crate::reply::{Reply, ReplyView};
use crate::state::AppState;
use crate::text;
use vstd::prelude::*;

verus! {

/// How many nodes an answer lists.
pub const LISTED_NODES: usize = 200;

/// A node of a graph and the number of edges that it has.
#[derive(Debug)]
pub struct GraphNode {
    pub name: String,
    pub degree: u64,
}

/// The sum of the degrees.
pub open spec fn degree_sum(nodes: Seq<GraphNode>) -> nat
    decreases nodes.len(),
{
    if nodes.len() == 0 {
        0
    } else {
        degree_sum(nodes.drop_last()) + nodes.last().degree as nat
    }
}

/// A node as it is reported.
pub open spec fn node_view(node: GraphNode) -> JsonView {
    JsonView::Object(
        seq![
            ("name"@, JsonView::Str(node.name@)),
            ("type"@, JsonView::Str("entity"@)),
            ("degree"@, JsonView::UInt(node.degree)),
        ],
    )
}

/// The nodes that are listed: the first ones.
pub open spec fn listed_nodes(nodes: Seq<GraphNode>) -> Seq<JsonView> {
    (if nodes.len() <= LISTED_NODES {
        nodes
    } else {
        nodes.take(LISTED_NODES as int)
    }).map_values(|n: GraphNode| node_view(n))
}

proof fn lemma_sum_grows(nodes: Seq<GraphNode>, n: int)
    requires
        0 <= n <= nodes.len(),
    ensures
        degree_sum(nodes.take(n)) <= degree_sum(nodes),
    decreases nodes.len() - n,
{
    if n == nodes.len() {
        assert(nodes.take(n) =~= nodes);
    } else {
        lemma_sum_grows(nodes.drop_last(), n);
        assert(nodes.drop_last().take(n) =~= nodes.take(n));
    }
}

/// The number of edges: every edge counts at both of its ends.
pub fn edge_count(nodes: &Vec<GraphNode>) -> (r: u64)
    requires
        degree_sum(nodes@) <= u64::MAX,
    ensures
        r == degree_sum(nodes@) / 2,
{
    let mut sum: u64 = 0;
    let mut i: usize = 0;
    while i < nodes.len()
        invariant
            i <= nodes@.len(),
            degree_sum(nodes@) <= u64::MAX,
            sum == degree_sum(nodes@.take(i as int)),
        decreases nodes@.len() - i,
    {
        proof {
            assert(nodes@.take(i + 1).drop_last() =~= nodes@.take(i as int));
            assert(nodes@.take(i + 1).last() == nodes@[i as int]);
            lemma_sum_grows(nodes@, i + 1);
        }
        sum = sum + nodes[i].degree;
        i += 1;
    }
    assert(nodes@.take(i as int) =~= nodes@);
    sum / 2
}

fn node_list(nodes: &Vec<GraphNode>) -> (r: Json)
    ensures
        r@ == JsonView::Array(listed_nodes(nodes@)),
{
    let count: usize = if nodes.len() <= LISTED_NODES {
        nodes.len()
    } else {
        LISTED_NODES
    };
    let mut items: Vec<Json> = Vec::new();
    let mut i: usize = 0;
    while i < count
        invariant
            i <= count <= nodes@.len(),
            items@.len() == i,
            forall|k: int| 0 <= k < i ==> (#[trigger] items@[k])@ == node_view(nodes@[k]),
        decreases count - i,
    {
        let e = json::with(json::fields(), "name", json::string(nodes[i].name.as_str()));
        let e = json::with(e, "type", json::string("entity"));
        let e = json::with(e, "degree", Json::UInt(nodes[i].degree));
        assert(json::entry_views(e@) =~= node_view(nodes@[i as int])->Object_0);
        items.push(json::object(e));
        i += 1;
    }
    assert(json::item_views(items@) =~= listed_nodes(nodes@));
    json::array(items)
}

// ── Asking ──────────────────────────────────────────────────────

/// What is told of a graph.
pub open spec fn graph_data(
    node_count: u64,
    edges: nat,
    nodes: Seq<JsonView>,
    context: Seq<Seq<char>>,
) -> JsonView {
    JsonView::Object(
        seq![
            ("nodes"@, JsonView::UInt(node_count)),
            ("edges"@, JsonView::UInt(edges as u64)),
            ("node_list"@, JsonView::Array(nodes)),
            ("context"@, json::string_array(context)),
        ],
    )
}

fn graph_json(node_count: u64, edges: u64, nodes: Json, context: &Vec<String>) -> (r: Json)
    requires
        nodes@ is Array,
    ensures
        r@ == graph_data(node_count, edges as nat, nodes@->Array_0, text::views(context@)),
{
    let e = json::with(json::fields(), "nodes", Json::UInt(node_count));
    let e = json::with(e, "edges", Json::UInt(edges));
    let e = json::with(e, "node_list", nodes);
    let e = json::with(e, "context", json::strings(context));
    assert(json::entry_views(e@) =~= graph_data(
        node_count,
        edges as nat,
        nodes@->Array_0,
        text::views(context@),
    )->Object_0);
    json::object(e)
}

/// Who may ask the graph of the knowledge base; the answer to everybody else.
pub fn graph_access(state: &AppState, dataset_id: &str, auth: &AuthContext) -> (r: Option<Reply>)
    ensures
        match r {
            None => access::may_read(*state, dataset_id@, *auth),
            Some(a) => !access::may_read(*state, dataset_id@, *auth) && a@
                == datasets::not_found_of(),
        },
{
    if access::kb_accessible(state, dataset_id, auth) {
        None
    } else {
        Some(datasets::not_found())
    }
}

/// A graph is searched for what belongs to a question only where there is a question.
pub fn wants_context(body: &Json) -> (r: bool)
    ensures
        r == (text::trimmed(body@.text_or_empty("question"@)).len() > 0),
{
    !text::is_blank(body.text_or_empty("question"))
}

/// The answer to a question to a graph: what the graph holds, and what in it belongs
/// to the question. Without a graph there is nothing to tell.
pub fn query_graphrag(graph: Option<&Vec<GraphNode>>, node_count: u64, context: &Vec<String>) -> (r:
    Reply)
    requires
        graph matches Some(nodes) ==> degree_sum(nodes@) <= u64::MAX,
    ensures
        match graph {
            None => r@ == reply::ok_of(
                "No graph built yet"@,
                graph_data(0, 0, Seq::empty(), Seq::empty()),
            ),
            Some(nodes) => r@ == reply::ok_of(
                "ok"@,
                graph_data(
                    node_count,
                    degree_sum(nodes@) / 2,
                    listed_nodes(nodes@),
                    text::views(context@),
                ),
            ),
        },
{
    match graph {
        None => {
            let none: Vec<Json> = Vec::new();
            assert(json::item_views(none@) =~= Seq::<JsonView>::empty());
            let nothing: Vec<String> = Vec::new();
            assert(text::views(nothing@) =~= Seq::<Seq<char>>::empty());
            reply::ok("No graph built yet", graph_json(0, 0, json::array(none), &nothing))
        },
        Some(nodes) => reply::ok(
            "ok",
            graph_json(node_count, edge_count(nodes), node_list(nodes), context),
        ),
    }
}

// ── Building ────────────────────────────────────────────────────

/// A chunk that a graph is built from. Its document is told by its metadata, or else
/// by the name of its file.
#[derive(Debug)]
pub struct GraphChunk {
    pub kb_id: Option<String>,
    pub doc_id: Option<String>,
    pub doc_name: String,
    pub content: String,
}

/// The chunks of one document.
#[derive(Debug)]
pub struct DocGroup {
    pub doc_id: String,
    pub contents: Vec<String>,
}

/// The document that a chunk belongs to.
pub open spec fn group_key(chunk: GraphChunk) -> Seq<char> {
    match chunk.doc_id {
        Some(id) => id@,
        None => chunk.doc_name@,
    }
}

/// The chunk belongs to the knowledge base.
pub open spec fn in_kb(chunk: GraphChunk, kb: Seq<char>) -> bool {
    text::opt_view(chunk.kb_id) == Some(kb)
}

/// The contents of the chunks of a document in the knowledge base, in order.
pub open spec fn contents_for(chunks: Seq<GraphChunk>, kb: Seq<char>, doc: Seq<char>) -> Seq<
    Seq<char>,
>
    decreases chunks.len(),
{
    if chunks.len() == 0 {
        Seq::empty()
    } else if in_kb(chunks.last(), kb) && group_key(chunks.last()) == doc {
        contents_for(chunks.drop_last(), kb, doc).push(chunks.last().content@)
    } else {
        contents_for(chunks.drop_last(), kb, doc)
    }
}

/// The groups stand in the order of their documents, no document twice.
pub open spec fn in_order(groups: Seq<DocGroup>) -> bool {
    forall|i: int, j: int|
        0 <= i < j < groups.len() ==> text::before(
            (#[trigger] groups[i]).doc_id@,
            (#[trigger] groups[j]).doc_id@,
        )
}

/// The groups hold exactly the chunks of the knowledge base, document by document.
pub open spec fn is_grouping(groups: Seq<DocGroup>, chunks: Seq<GraphChunk>, kb: Seq<char>) -> bool {
    &&& in_order(groups)
    &&& forall|i: int|
        0 <= i < groups.len() ==> text::views((#[trigger] groups[i]).contents@) == contents_for(
            chunks,
            kb,
            groups[i].doc_id@,
        ) && groups[i].contents@.len() > 0
    &&& forall|doc: Seq<char>| #[trigger]
        contents_for(chunks, kb, doc).len() > 0 ==> exists|i: int|
            0 <= i < groups.len() && (#[trigger] groups[i]).doc_id@ == doc
}

/// Puts a content to its document.
fn add_to_group(groups: &mut Vec<DocGroup>, doc: &str, content: &str) -> (at: Ghost<int>)
    requires
        in_order(old(groups)@),
    ensures
        in_order(final(groups)@),
        0 <= at@ < final(groups)@.len(),
        final(groups)@[at@].doc_id@ == doc@,
        if at@ < old(groups)@.len() && old(groups)@[at@].doc_id@ == doc@ {
            &&& final(groups)@.len() == old(groups)@.len()
            &&& text::views(final(groups)@[at@].contents@) == text::views(
                old(groups)@[at@].contents@,
            ).push(content@)
            &&& forall|k: int|
                0 <= k < final(groups)@.len() && k != at@ ==> #[trigger] final(groups)@[k] == old(groups)@[k]
        } else {
            &&& final(groups)@.len() == old(groups)@.len() + 1
            &&& text::views(final(groups)@[at@].contents@) == seq![content@]
            &&& forall|k: int| 0 <= k < old(groups)@.len() ==> (#[trigger] old(groups)@[k]).doc_id@
                != doc@
            &&& forall|k: int| 0 <= k < at@ ==> #[trigger] final(groups)@[k] == old(groups)@[k]
            &&& forall|k: int|
                at@ < k < final(groups)@.len() ==> #[trigger] final(groups)@[k] == old(groups)@[k
                    - 1]
        },
{
    let ghost was = groups@;
    let mut p: usize = 0;
    while p < groups.len() && text::is_before(groups[p].doc_id.as_str(), doc)
        invariant
            p <= groups@.len(),
            groups@ == was,
            was == old(groups)@,
            in_order(was),
            forall|k: int| 0 <= k < p ==> text::before((#[trigger] was[k]).doc_id@, doc@),
        decreases groups@.len() - p,
    {
        p += 1;
    }
    if p < groups.len() && text::same(groups[p].doc_id.as_str(), doc) {
        let mut contents = text::copy_strings(&groups[p].contents);
        let ghost before = text::views(contents@);
        contents.push(content.to_owned());
        assert(text::views(contents@) =~= before.push(content@));
        let doc_id = groups[p].doc_id.clone();
        groups.set(p, DocGroup { doc_id, contents });
        proof {
            assert forall|i: int, j: int| 0 <= i < j < groups@.len() implies text::before(
                (#[trigger] groups@[i]).doc_id@,
                (#[trigger] groups@[j]).doc_id@,
            ) by {
                assert(groups@[i].doc_id@ == was[i].doc_id@);
                assert(groups@[j].doc_id@ == was[j].doc_id@);
                assert(text::before(was[i].doc_id@, was[j].doc_id@));
            }
        }
        return Ghost(p as int);
    }
    proof {
        // The document stands before everything from here on.
        assert forall|k: int| p <= k < was.len() implies text::before(
            doc@,
            (#[trigger] was[k]).doc_id@,
        ) by {
            text::texts_are_ordered(doc@, was[p as int].doc_id@);
            if k > p {
                assert(text::before(was[p as int].doc_id@, was[k].doc_id@));
                text::order_is_transitive(doc@, was[p as int].doc_id@, was[k].doc_id@);
            }
        }
        assert forall|k: int| 0 <= k < was.len() implies (#[trigger] was[k]).doc_id@ != doc@ by {
            text::texts_are_ordered(doc@, doc@);
        }
    }
    let mut contents: Vec<String> = Vec::new();
    contents.push(content.to_owned());
    assert(text::views(contents@) =~= seq![content@]);
    groups.insert(p, DocGroup { doc_id: doc.to_owned(), contents });
    proof {
        let now = groups@;
        assert forall|i: int, j: int| 0 <= i < j < now.len() implies text::before(
            (#[trigger] now[i]).doc_id@,
            (#[trigger] now[j]).doc_id@,
        ) by {
            if i < p && j < p {
                assert(now[i] == was[i] && now[j] == was[j]);
            } else if i < p && j > p {
                assert(now[i] == was[i] && now[j] == was[j - 1]);
            } else if i > p {
                assert(now[i] == was[i - 1] && now[j] == was[j - 1]);
            } else if j == p {
                assert(now[i] == was[i]);
            } else {
                assert(now[j] == was[j - 1]);
            }
        }
    }
    Ghost(p as int)
}

/// Groups the chunks of a knowledge base by their documents, in the order of the
/// documents.
pub fn group_by_document(chunks: &Vec<GraphChunk>, dataset_id: &str) -> (r: Vec<DocGroup>)
    ensures
        is_grouping(r@, chunks@, dataset_id@),
{
    let ghost kb = dataset_id@;
    let mut groups: Vec<DocGroup> = Vec::new();
    let mut i: usize = 0;
    assert(chunks@.take(0) =~= Seq::<GraphChunk>::empty());
    while i < chunks.len()
        invariant
            i <= chunks@.len(),
            kb == dataset_id@,
            is_grouping(groups@, chunks@.take(i as int), kb),
        decreases chunks@.len() - i,
    {
        let chunk = &chunks[i];
        let ghost was = groups@;
        let ghost before = chunks@.take(i as int);
        let ghost now = chunks@.take(i + 1);
        proof {
            assert(now.drop_last() =~= before);
            assert(now.last() == *chunk);
        }
        let inside = match &chunk.kb_id {
            Some(id) => text::same(id.as_str(), dataset_id),
            None => false,
        };
        if inside {
            let doc = match &chunk.doc_id {
                Some(id) => id.as_str(),
                None => chunk.doc_name.as_str(),
            };
            let at = add_to_group(&mut groups, doc, chunk.content.as_str());
            proof {
                lemma_grouping_grows(was, groups@, before, now, kb, at@);
            }
        } else {
            proof {
                assert forall|doc: Seq<char>| #[trigger]
                    contents_for(now, kb, doc) == contents_for(before, kb, doc) by {}
                assert(is_grouping(groups@, now, kb));
            }
        }
        i += 1;
    }
    assert(chunks@.take(i as int) =~= chunks@);
    groups
}

proof fn lemma_grouping_grows(
    was: Seq<DocGroup>,
    groups: Seq<DocGroup>,
    before: Seq<GraphChunk>,
    now: Seq<GraphChunk>,
    kb: Seq<char>,
    at: int,
)
    requires
        is_grouping(was, before, kb),
        now.len() > 0,
        now.drop_last() == before,
        in_kb(now.last(), kb),
        in_order(groups),
        0 <= at < groups.len(),
        groups[at].doc_id@ == group_key(now.last()),
        if at < was.len() && was[at].doc_id@ == group_key(now.last()) {
            &&& groups.len() == was.len()
            &&& text::views(groups[at].contents@) == text::views(was[at].contents@).push(
                now.last().content@,
            )
            &&& forall|k: int| 0 <= k < groups.len() && k != at ==> #[trigger] groups[k] == was[k]
        } else {
            &&& groups.len() == was.len() + 1
            &&& text::views(groups[at].contents@) == seq![now.last().content@]
            &&& forall|k: int|
                0 <= k < was.len() ==> (#[trigger] was[k]).doc_id@ != group_key(now.last())
            &&& forall|k: int| 0 <= k < at ==> #[trigger] groups[k] == was[k]
            &&& forall|k: int| at < k < groups.len() ==> #[trigger] groups[k] == was[k - 1]
        },
    ensures
        is_grouping(groups, now, kb),
{
    let key = group_key(now.last());
    let fresh = !(at < was.len() && was[at].doc_id@ == key);
    if fresh {
        if contents_for(before, kb, key).len() > 0 {
            let k = choose|k: int| 0 <= k < was.len() && (#[trigger] was[k]).doc_id@ == key;
            assert(was[k].doc_id@ != key);
        }
        assert(contents_for(before, kb, key) =~= Seq::<Seq<char>>::empty());
    }
    assert forall|k: int| 0 <= k < groups.len() implies text::views((#[trigger] groups[k]).contents@)
        == contents_for(now, kb, groups[k].doc_id@) && groups[k].contents@.len() > 0 by {
        if k == at {
            assert(text::views(groups[k].contents@).len() == groups[k].contents@.len());
            assert(text::views(groups[k].contents@) =~= contents_for(now, kb, key));
        } else {
            let old_k = if fresh && k > at {
                k - 1
            } else {
                k
            };
            assert(groups[k] == was[old_k]);
            if k < at {
                assert(text::before(groups[k].doc_id@, groups[at].doc_id@));
            } else {
                assert(text::before(groups[at].doc_id@, groups[k].doc_id@));
            }
            text::texts_are_ordered(key, key);
            assert(groups[k].doc_id@ != key);
        }
    }
    assert forall|doc: Seq<char>| #[trigger]
        contents_for(now, kb, doc).len() > 0 implies exists|k: int|
        0 <= k < groups.len() && (#[trigger] groups[k]).doc_id@ == doc by {
        if doc == key {
            assert(groups[at].doc_id@ == doc);
        } else {
            assert(contents_for(before, kb, doc).len() > 0);
            let k = choose|k: int| 0 <= k < was.len() && (#[trigger] was[k]).doc_id@ == doc;
            let new_k = if fresh && k >= at {
                k + 1
            } else {
                k
            };
            assert(groups[new_k].doc_id@ == doc);
        }
    }
}

/// A chunk of the knowledge base is among them.
pub open spec fn has_chunks(chunks: Seq<GraphChunk>, kb: Seq<char>) -> bool {
    exists|i: int| 0 <= i < chunks.len() && in_kb(#[trigger] chunks[i], kb)
}

/// Why no graph is built; nothing where one is.
pub open spec fn build_refusal(
    s: AppState,
    kb: Seq<char>,
    auth: AuthContext,
    chunks: Seq<GraphChunk>,
) -> Option<ReplyView> {
    if !access::may_read(s, kb, auth) {
        Some(datasets::not_found_of())
    } else if !s.llm {
        Some(reply::error_of(400, "LLM is not configured"@))
    } else if !has_chunks(chunks, kb) {
        Some(reply::error_of(400, "No chunks in this knowledge base"@))
    } else {
        None
    }
}

proof fn lemma_chunks_have_contents(chunks: Seq<GraphChunk>, kb: Seq<char>)
    ensures
        has_chunks(chunks, kb) <==> exists|doc: Seq<char>| #[trigger]
            contents_for(chunks, kb, doc).len() > 0,
    decreases chunks.len(),
{
    if chunks.len() > 0 {
        let rest = chunks.drop_last();
        lemma_chunks_have_contents(rest, kb);
        if in_kb(chunks.last(), kb) {
            assert(in_kb(chunks[chunks.len() - 1], kb));
            assert(contents_for(chunks, kb, group_key(chunks.last())).len() > 0);
        } else {
            if has_chunks(chunks, kb) {
                let i = choose|i: int| 0 <= i < chunks.len() && in_kb(#[trigger] chunks[i], kb);
                assert(in_kb(rest[i], kb));
                let doc = choose|doc: Seq<char>| #[trigger] contents_for(rest, kb, doc).len() > 0;
                assert(contents_for(chunks, kb, doc).len() > 0);
            }
            if exists|doc: Seq<char>| #[trigger] contents_for(chunks, kb, doc).len() > 0 {
                let doc = choose|doc: Seq<char>| #[trigger] contents_for(chunks, kb, doc).len() > 0;
                assert(contents_for(rest, kb, doc).len() > 0);
                let i = choose|i: int| 0 <= i < rest.len() && in_kb(#[trigger] rest[i], kb);
                assert(in_kb(chunks[i], kb));
            }
        }
    }
}

/// The documents that a graph is built from, in order, or the answer where none is
/// built. `chunks` are all that the index holds.
pub fn build_graphrag(
    state: &AppState,
    dataset_id: &str,
    auth: &AuthContext,
    chunks: &Vec<GraphChunk>,
) -> (r: Result<Vec<DocGroup>, Reply>)
    ensures
        match build_refusal(*state, dataset_id@, *auth, chunks@) {
            Some(answer) => r matches Err(a) && a@ == answer,
            None => r matches Ok(groups) && groups@.len() > 0 && is_grouping(
                groups@,
                chunks@,
                dataset_id@,
            ),
        },
{
    if !access::kb_accessible(state, dataset_id, auth) {
        return Err(datasets::not_found());
    }
    if !state.llm {
        return Err(reply::api_error(400, "LLM is not configured"));
    }
    let groups = group_by_document(chunks, dataset_id);
    proof {
        lemma_chunks_have_contents(chunks@, dataset_id@);
    }
    if groups.len() == 0 {
        return Err(reply::api_error(400, "No chunks in this knowledge base"));
    }
    proof {
        assert(contents_for(chunks@, dataset_id@, groups@[0].doc_id@).len()
            == groups@[0].contents@.len());
        assert(contents_for(chunks@, dataset_id@, groups@[0].doc_id@).len() > 0);
    }
    Ok(groups)
}

/// The kinds of things that a graph is built of.
pub fn entity_types() -> (r: Vec<String>)
    ensures
        text::views(r@) == seq![
            "organization"@,
            "person"@,
            "location"@,
            "event"@,
            "concept"@,
        ],
{
    let r = vec![
        "organization".to_owned(),
        "person".to_owned(),
        "location".to_owned(),
        "event".to_owned(),
        "concept".to_owned(),
    ];
    assert(text::views(r@) =~= seq![
        "organization"@,
        "person"@,
        "location"@,
        "event"@,
        "concept"@,
    ]);
    r
}

/// The language in which entities are described.
pub fn graph_language() -> (r: &'static str)
    ensures
        r@ == "Chinese"@,
{
    "Chinese"
}

/// How many documents went into a graph.
pub open spec fn built_docs(outcomes: Seq<Option<usize>>) -> nat
    decreases outcomes.len(),
{
    if outcomes.len() == 0 {
        0
    } else {
        built_docs(outcomes.drop_last()) + if outcomes.last() is Some {
            1nat
        } else {
            0
        }
    }
}

/// How many entities went into a graph.
pub open spec fn built_entities(outcomes: Seq<Option<usize>>) -> nat
    decreases outcomes.len(),
{
    if outcomes.len() == 0 {
        0
    } else {
        built_entities(outcomes.drop_last()) + (match outcomes.last() {
            Some(n) => n as nat,
            None => 0,
        })
    }
}

proof fn lemma_entities_grow(outcomes: Seq<Option<usize>>, n: int)
    requires
        0 <= n <= outcomes.len(),
    ensures
        built_entities(outcomes.take(n)) <= built_entities(outcomes),
    decreases outcomes.len() - n,
{
    if n == outcomes.len() {
        assert(outcomes.take(n) =~= outcomes);
    } else {
        lemma_entities_grow(outcomes, n + 1);
        assert(outcomes.take(n + 1).drop_last() =~= outcomes.take(n));
    }
}

/// What is told of a graph that has been built.
pub open spec fn built_of(
    nodes: Seq<GraphNode>,
    node_count: u64,
    outcomes: Seq<Option<usize>>,
) -> ReplyView {
    reply::code_data_of(
        JsonView::Object(
            seq![
                ("nodes"@, JsonView::UInt(node_count)),
                ("edges"@, JsonView::UInt((degree_sum(nodes) / 2) as u64)),
                ("documents"@, JsonView::UInt(built_docs(outcomes) as u64)),
                ("entities"@, JsonView::UInt(built_entities(outcomes) as u64)),
                ("node_list"@, JsonView::Array(listed_nodes(nodes))),
            ],
        ),
    )
}

/// The answer once a graph is built. `outcomes` tells for each document how many
/// entities it gave, or that it could not be read; such a document is left out.
pub fn graph_built(nodes: &Vec<GraphNode>, node_count: u64, outcomes: &Vec<Option<usize>>) -> (r:
    Reply)
    requires
        degree_sum(nodes@) <= u64::MAX,
        built_entities(outcomes@) <= u64::MAX,
    ensures
        r@ == built_of(nodes@, node_count, outcomes@),
{
    let mut documents: u64 = 0;
    let mut entities: u64 = 0;
    let mut i: usize = 0;
    while i < outcomes.len()
        invariant
            i <= outcomes@.len(),
            built_entities(outcomes@) <= u64::MAX,
            documents == built_docs(outcomes@.take(i as int)),
            documents <= i,
            entities == built_entities(outcomes@.take(i as int)),
        decreases outcomes@.len() - i,
    {
        proof {
            assert(outcomes@.take(i + 1).drop_last() =~= outcomes@.take(i as int));
            assert(outcomes@.take(i + 1).last() == outcomes@[i as int]);
            lemma_entities_grow(outcomes@, i + 1);
        }
        if let Some(n) = outcomes[i] {
            documents += 1;
            entities += n as u64;
        }
        i += 1;
    }
    assert(outcomes@.take(i as int) =~= outcomes@);
    let e = json::with(json::fields(), "nodes", Json::UInt(node_count));
    let e = json::with(e, "edges", Json::UInt(edge_count(nodes)));
    let e = json::with(e, "documents", Json::UInt(documents));
    let e = json::with(e, "entities", Json::UInt(entities));
    let e = json::with(e, "node_list", node_list(nodes));
    assert(json::entry_views(e@) =~= seq![
        ("nodes"@, JsonView::UInt(node_count)),
        ("edges"@, JsonView::UInt((degree_sum(nodes@) / 2) as u64)),
        ("documents"@, JsonView::UInt(built_docs(outcomes@) as u64)),
        ("entities"@, JsonView::UInt(built_entities(outcomes@) as u64)),
        ("node_list"@, JsonView::Array(listed_nodes(nodes@))),
    ]);
    reply::code_data(json::object(e))
}

// ── Laws ────────────────────────────────────────────────────────

/// The degrees add up node by node, and every edge counts at both of its ends.
pub proof fn edges_count_at_both_ends(nodes: Vec<GraphNode>, node: GraphNode, r: u64)
    requires
        degree_sum(nodes@) <= u64::MAX,
        call_ensures(edge_count, (&nodes,), r),
    ensures
        degree_sum(Seq::empty()) == 0,
        degree_sum(nodes@.push(node)) == degree_sum(nodes@) + node.degree,
        2 * r == degree_sum(nodes@) || 2 * r + 1 == degree_sum(nodes@),
{
    assert(nodes@.push(node).drop_last() =~= nodes@);
}

proof fn lemma_graph_keys()
    ensures
        "nodes"@ != "edges"@,
        "nodes"@ != "node_list"@,
        "nodes"@ != "context"@,
        "nodes"@ != "documents"@,
        "nodes"@ != "entities"@,
        "edges"@ != "node_list"@,
        "edges"@ != "context"@,
        "edges"@ != "documents"@,
        "edges"@ != "entities"@,
        "node_list"@ != "context"@,
        "node_list"@ != "documents"@,
        "node_list"@ != "entities"@,
        "context"@ != "documents"@,
        "context"@ != "entities"@,
        "documents"@ != "entities"@,
{
    reveal_strlit("nodes");
    reveal_strlit("edges");
    reveal_strlit("node_list");
    reveal_strlit("context");
    reveal_strlit("documents");
    reveal_strlit("entities");
    assert("nodes"@[0] != "edges"@[0]);
    assert("nodes"@.len() != "node_list"@.len());
    assert("nodes"@.len() != "context"@.len());
    assert("nodes"@.len() != "documents"@.len());
    assert("nodes"@.len() != "entities"@.len());
    assert("edges"@.len() != "node_list"@.len());
    assert("edges"@.len() != "context"@.len());
    assert("edges"@.len() != "documents"@.len());
    assert("edges"@.len() != "entities"@.len());
    assert("node_list"@.len() != "context"@.len());
    assert("node_list"@[0] != "documents"@[0]);
    assert("node_list"@.len() != "entities"@.len());
    assert("context"@.len() != "documents"@.len());
    assert("context"@.len() != "entities"@.len());
    assert("documents"@.len() != "entities"@.len());
}

proof fn lemma_node_keys()
    ensures
        "name"@ != "type"@,
        "name"@ != "degree"@,
        "type"@ != "degree"@,
{
    reveal_strlit("name");
    reveal_strlit("type");
    reveal_strlit("degree");
    assert("name"@[0] != "type"@[0]);
    assert("name"@.len() != "degree"@.len());
    assert("type"@.len() != "degree"@.len());
}

/// The row lists the first 200 nodes, each as an entity with its name and its degree.
pub open spec fn lists_nodes(row: Seq<JsonView>, nodes: Seq<GraphNode>) -> bool {
    &&& row.len() == if nodes.len() <= 200 {
        nodes.len()
    } else {
        200
    }
    &&& forall|i: int|
        0 <= i < row.len() ==> {
            &&& (#[trigger] row[i]).text("name"@) == Some(nodes[i].name@)
            &&& row[i].text("type"@) == Some("entity"@)
            &&& row[i].get("degree"@) == Some(JsonView::UInt(nodes[i].degree))
        }
}

proof fn lemma_lists_nodes(nodes: Seq<GraphNode>)
    ensures
        lists_nodes(listed_nodes(nodes), nodes),
{
    let row = listed_nodes(nodes);
    lemma_node_keys();
    reveal_with_fuel(json::entry, 4);
    assert forall|i: int| 0 <= i < row.len() implies {
        &&& (#[trigger] row[i]).text("name"@) == Some(nodes[i].name@)
        &&& row[i].text("type"@) == Some("entity"@)
        &&& row[i].get("degree"@) == Some(JsonView::UInt(nodes[i].degree))
    } by {
        assert(row[i] == node_view(nodes[i]));
    }
}

/// The answer to a question to a graph tells how many nodes and edges it has, lists the
/// first of them, and gives what belongs to the question; without a graph it tells of
/// nothing.
pub proof fn graphs_are_told_by_their_nodes(
    graph: Option<&Vec<GraphNode>>,
    node_count: u64,
    context: Vec<String>,
    r: Reply,
    edges: u64,
)
    requires
        graph matches Some(nodes) ==> degree_sum(nodes@) <= u64::MAX,
        call_ensures(query_graphrag, (graph, node_count, &context), r),
        graph matches Some(nodes) ==> call_ensures(edge_count, (nodes,), edges),
    ensures
        graph is None ==> reply::tells(r@, 200, 0, "No graph built yet"@),
        graph is Some ==> reply::tells(r@, 200, 0, "ok"@),
        r@.body.get("data"@) matches Some(data) && (match graph {
            None => data.get("nodes"@) == Some(JsonView::UInt(0)) && data.get("edges"@) == Some(
                JsonView::UInt(0),
            ) && data.items("node_list"@) == Some(Seq::<JsonView>::empty()) && data.items(
                "context"@,
            ) == Some(Seq::<JsonView>::empty()),
            Some(nodes) => data.get("nodes"@) == Some(JsonView::UInt(node_count)) && data.get(
                "edges"@,
            ) == Some(JsonView::UInt(edges)) && (data.items("node_list"@) matches Some(row)
                && lists_nodes(row, nodes@)) && (data.items("context"@) matches Some(row)
                && row.len() == context@.len() && (forall|i: int|
                0 <= i < row.len() ==> #[trigger] row[i] == JsonView::Str(context@[i]@))),
        }),
{
    lemma_graph_keys();
    reveal_with_fuel(json::entry, 5);
    match graph {
        None => {
            let data = graph_data(0, 0, Seq::empty(), Seq::empty());
            reply::answers_tell_what_they_were_given(200, 0, "No graph built yet"@, data);
            assert(json::string_array(Seq::empty())->Array_0 =~= Seq::<JsonView>::empty());
            assert(data.get("nodes"@) == Some(JsonView::UInt(0)));
        },
        Some(nodes) => {
            let data = graph_data(
                node_count,
                degree_sum(nodes@) / 2,
                listed_nodes(nodes@),
                text::views(context@),
            );
            reply::answers_tell_what_they_were_given(200, 0, "ok"@, data);
            lemma_lists_nodes(nodes@);
            assert(data.get("nodes"@) == Some(JsonView::UInt(node_count)));
        },
    }
}

/// Whoever may read a knowledge base may ask its graph, and nobody else; a graph is
/// searched where there is a question that is not blank.
pub proof fn graphs_are_asked_by_their_readers(
    state: AppState,
    dataset_id: &str,
    auth: AuthContext,
    allowed: bool,
    r: Option<Reply>,
    body: Json,
    wanted: bool,
)
    requires
        call_ensures(access::kb_accessible, (&state, dataset_id, &auth), allowed),
        call_ensures(graph_access, (&state, dataset_id, &auth), r),
        call_ensures(wants_context, (&body,), wanted),
    ensures
        allowed ==> r is None,
        !allowed ==> (r matches Some(a) && reply::tells(a@, 404, 404, "Knowledge base not found"@)),
        body@.text("question"@) is None ==> !wanted,
        body@.text("question"@) matches Some(q) ==> wanted == (text::trimmed(q).len() > 0),
{
    text::trimming_keeps_tight_texts(Seq::empty());
    reply::answers_tell_what_they_were_given(
        404,
        404,
        "Knowledge base not found"@,
        JsonView::Null,
    );
}

/// The chunk is one of the document in the knowledge base: by its metadata, or else by the
/// name of its file.
pub open spec fn belongs(chunk: GraphChunk, kb: Seq<char>, doc: Seq<char>) -> bool {
    &&& chunk.kb_id matches Some(id) && id@ == kb
    &&& match chunk.doc_id {
        Some(id) => id@ == doc,
        None => chunk.doc_name@ == doc,
    }
}

proof fn lemma_contents_for(chunks: Seq<GraphChunk>, kb: Seq<char>, doc: Seq<char>)
    ensures
        contents_for(chunks, kb, doc) == chunks.filter(
            |c: GraphChunk| belongs(c, kb, doc),
        ).map_values(|c: GraphChunk| c.content@),
    decreases chunks.len(),
{
    let p = |c: GraphChunk| belongs(c, kb, doc);
    let f = |c: GraphChunk| c.content@;
    reveal(Seq::filter);
    if chunks.len() > 0 {
        lemma_contents_for(chunks.drop_last(), kb, doc);
        let before = chunks.drop_last().filter(p);
        assert(before.push(chunks.last()).map_values(f) =~= before.map_values(f).push(
            chunks.last().content@,
        ));
    } else {
        assert(chunks.filter(p).map_values(f) =~= Seq::<Seq<char>>::empty());
    }
}

/// The chunks of a knowledge base are grouped by their documents: a group holds the
/// contents of all the chunks of its document, in order, and of no other; the groups
/// stand in the order of their documents; and every chunk of the knowledge base is in
/// one.
pub proof fn chunks_are_grouped_by_their_documents(
    chunks: Vec<GraphChunk>,
    dataset_id: &str,
    kb: Seq<char>,
    r: Vec<DocGroup>,
    i: int,
    j: int,
    doc: Seq<char>,
    k: int,
)
    requires
        call_ensures(group_by_document, (&chunks, dataset_id), r),
        kb == dataset_id@,
        0 <= i < r@.len() ==> doc == r@[i].doc_id@,
    ensures
        0 <= i < r@.len() ==> text::views(r@[i].contents@) == chunks@.filter(
            |c: GraphChunk| belongs(c, kb, doc),
        ).map_values(|c: GraphChunk| c.content@),
        0 <= i < r@.len() ==> r@[i].contents@.len() > 0,
        0 <= i < j < r@.len() ==> text::before(r@[i].doc_id@, r@[j].doc_id@),
        0 <= k < chunks@.len() && belongs(chunks@[k], kb, doc) ==> exists|g: int|
            0 <= g < r@.len() && (#[trigger] r@[g]).doc_id@ == doc,
{
    broadcast use vstd::seq_lib::group_filter_ensures;

    lemma_contents_for(chunks@, kb, doc);
    if 0 <= i < r@.len() {
        assert(text::views(r@[i].contents@) == contents_for(chunks@, kb, r@[i].doc_id@));
    }
    if 0 <= k < chunks@.len() && belongs(chunks@[k], kb, doc) {
        assert(chunks@.filter(|c: GraphChunk| belongs(c, kb, doc)).contains(chunks@[k]));
        assert(contents_for(chunks@, kb, doc).len() > 0);
    }
}

/// A graph is built for whoever may read the knowledge base, with a chat model, from
/// chunks; it is built from the groups of its documents.
pub proof fn graphs_are_built_from_chunks(
    state: AppState,
    dataset_id: &str,
    auth: AuthContext,
    chunks: Vec<GraphChunk>,
    allowed: bool,
    r: Result<Vec<DocGroup>, Reply>,
    i: int,
)
    requires
        call_ensures(access::kb_accessible, (&state, dataset_id, &auth), allowed),
        call_ensures(build_graphrag, (&state, dataset_id, &auth, &chunks), r),
    ensures
        !allowed ==> (r matches Err(a) && reply::tells(a@, 404, 404, "Knowledge base not found"@)),
        allowed && !state.llm ==> (r matches Err(a) && reply::tells(
            a@,
            400,
            400,
            "LLM is not configured"@,
        )),
        allowed && state.llm && (forall|k: int|
            0 <= k < chunks@.len() ==> !((#[trigger] chunks@[k]).kb_id matches Some(id) && id@
                == dataset_id@)) ==> (r matches Err(a) && reply::tells(
            a@,
            400,
            400,
            "No chunks in this knowledge base"@,
        )),
        allowed && state.llm && 0 <= i < chunks@.len() && (chunks@[i].kb_id matches Some(id) && id@
            == dataset_id@) ==> (r matches Ok(groups) && groups@.len() > 0 && is_grouping(
            groups@,
            chunks@,
            dataset_id@,
        )),
{
    reply::answers_tell_what_they_were_given(
        404,
        404,
        "Knowledge base not found"@,
        JsonView::Null,
    );
    reply::answers_tell_what_they_were_given(400, 400, "LLM is not configured"@, JsonView::Null);
    reply::answers_tell_what_they_were_given(
        400,
        400,
        "No chunks in this knowledge base"@,
        JsonView::Null,
    );
    if 0 <= i < chunks@.len() && (chunks@[i].kb_id matches Some(id) && id@ == dataset_id@) {
        assert(in_kb(chunks@[i], dataset_id@));
    }
    if has_chunks(chunks@, dataset_id@) {
        let k = choose|k: int| 0 <= k < chunks@.len() && in_kb(#[trigger] chunks@[k], dataset_id@);
        assert(chunks@[k].kb_id matches Some(id) && id@ == dataset_id@);
    }
}

/// Graphs are built of organizations, persons, locations, events and concepts, described
/// in Chinese.
pub proof fn graphs_are_built_of_five_kinds(kinds: Vec<String>, language: &'static str)
    requires
        call_ensures(entity_types, (), kinds),
        call_ensures(graph_language, (), language),
    ensures
        kinds@.len() == 5,
        kinds@[0]@ == "organization"@,
        kinds@[1]@ == "person"@,
        kinds@[2]@ == "location"@,
        kinds@[3]@ == "event"@,
        kinds@[4]@ == "concept"@,
        language@ == "Chinese"@,
{
    let all = text::views(kinds@);
    assert(all.len() == 5);
    assert(all[0] == kinds@[0]@);
    assert(all[1] == kinds@[1]@);
    assert(all[2] == kinds@[2]@);
    assert(all[3] == kinds@[3]@);
    assert(all[4] == kinds@[4]@);
}

proof fn lemma_built_docs(outcomes: Seq<Option<usize>>)
    ensures
        built_docs(outcomes) == outcomes.filter(|o: Option<usize>| o is Some).len(),
    decreases outcomes.len(),
{
    reveal(Seq::filter);
    if outcomes.len() > 0 {
        lemma_built_docs(outcomes.drop_last());
    }
}

/// Every document that could be read adds its entities, and no other adds any.
pub proof fn entities_add_up_by_document(outcomes: Seq<Option<usize>>, n: usize)
    ensures
        built_entities(Seq::empty()) == 0,
        built_entities(outcomes.push(Some(n))) == built_entities(outcomes) + n,
        built_entities(outcomes.push(None)) == built_entities(outcomes),
{
    assert(outcomes.push(Some(n)).drop_last() =~= outcomes);
    assert(outcomes.push(None).drop_last() =~= outcomes);
}

/// A built graph tells its nodes, its edges, how many documents could be read and how
/// many entities they gave.
pub proof fn built_graphs_tell_what_went_in(
    nodes: Vec<GraphNode>,
    node_count: u64,
    outcomes: Vec<Option<usize>>,
    r: Reply,
    edges: u64,
)
    requires
        degree_sum(nodes@) <= u64::MAX,
        built_entities(outcomes@) <= u64::MAX,
        call_ensures(graph_built, (&nodes, node_count, &outcomes), r),
        call_ensures(edge_count, (&nodes,), edges),
    ensures
        r.status == 200,
        r@.body.get("code"@) == Some(JsonView::UInt(0)),
        r@.body.get("data"@) matches Some(data) && data.get("nodes"@) == Some(
            JsonView::UInt(node_count),
        ) && data.get("edges"@) == Some(JsonView::UInt(edges)) && data.get("documents"@) == Some(
            JsonView::UInt(outcomes@.filter(|o: Option<usize>| o is Some).len() as u64),
        ) && data.get("entities"@) == Some(JsonView::UInt(built_entities(outcomes@) as u64)) && (
        data.items("node_list"@) matches Some(row) && lists_nodes(row, nodes@)),
{
    lemma_graph_keys();
    lemma_built_docs(outcomes@);
    lemma_lists_nodes(nodes@);
    reveal_with_fuel(json::entry, 6);
    let data = JsonView::Object(
        seq![
            ("nodes"@, JsonView::UInt(node_count)),
            ("edges"@, JsonView::UInt((degree_sum(nodes@) / 2) as u64)),
            ("documents"@, JsonView::UInt(built_docs(outcomes@) as u64)),
            ("entities"@, JsonView::UInt(built_entities(outcomes@) as u64)),
            ("node_list"@, JsonView::Array(listed_nodes(nodes@))),
        ],
    );
    reply::answers_tell_what_they_were_given(200, 0, ""@, data);
    assert(data.get("nodes"@) == Some(JsonView::UInt(node_count)));
}

} // verus!
