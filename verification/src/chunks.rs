//! The chunks that a parsed document is indexed under.

use crate::state::DocRecord;
use crate::text;
use vstd::prelude::*;

verus! {

/// A chunk as the parser hands it over. An embedding is carried by the bits of its
/// numbers.
#[derive(Debug)]
pub struct Chunk {
    pub id: String,
    pub content: String,
    pub content_type: String,
    pub embedding: Option<Vec<u32>>,
    pub token_count: usize,
    pub position: usize,
    pub metadata: Vec<(String, String)>,
}

/// A chunk as it stands in the index.
#[derive(Debug)]
pub struct IndexedChunk {
    pub id: String,
    pub doc_name: String,
    pub content: String,
    pub embedding: Vec<u32>,
    pub token_count: usize,
    pub position: usize,
    pub metadata: Vec<(String, String)>,
}

/// A summary of several chunks.
#[derive(Debug)]
pub struct SummaryNode {
    pub id: String,
    pub content: String,
    pub embedding: Vec<u32>,
    pub level: u64,
    pub children: Vec<String>,
}

/// The views of metadata.
pub open spec fn pair_views(pairs: Seq<(String, String)>) -> Seq<(Seq<char>, Seq<char>)> {
    pairs.map_values(|p: (String, String)| (p.0@, p.1@))
}

/// The value under the key. Where the key stands twice, the last one counts.
pub open spec fn value_at(pairs: Seq<(Seq<char>, Seq<char>)>, key: Seq<char>) -> Option<Seq<char>>
    decreases pairs.len(),
{
    if pairs.len() == 0 {
        None
    } else if pairs.last().0 == key {
        Some(pairs.last().1)
    } else {
        value_at(pairs.drop_last(), key)
    }
}

/// The value that a chunk's metadata holds.
pub open spec fn meta(metadata: Vec<(String, String)>, key: Seq<char>) -> Option<Seq<char>> {
    value_at(pair_views(metadata@), key)
}

proof fn lemma_value_push(
    pairs: Seq<(Seq<char>, Seq<char>)>,
    added: (Seq<char>, Seq<char>),
    key: Seq<char>,
)
    ensures
        value_at(pairs.push(added), key) == (if added.0 == key {
            Some(added.1)
        } else {
            value_at(pairs, key)
        }),
{
    assert(pairs.push(added).drop_last() =~= pairs);
}

/// Puts a value under a key, in place of what stood there.
fn set_meta(metadata: &mut Vec<(String, String)>, key: &str, value: &str)
    ensures
        forall|k: Seq<char>| #[trigger]
            meta(*final(metadata), k) == (if k == key@ {
                Some(value@)
            } else {
                meta(*old(metadata), k)
            }),
{
    let ghost before = pair_views(metadata@);
    let mut kept: Vec<(String, String)> = Vec::new();
    let mut i: usize = 0;
    proof {
        assert(before.take(0) =~= Seq::<(Seq<char>, Seq<char>)>::empty());
        assert(pair_views(kept@) =~= Seq::<(Seq<char>, Seq<char>)>::empty());
    }
    while i < metadata.len()
        invariant
            i <= metadata@.len(),
            before == pair_views(metadata@),
            *metadata == *old(metadata),
            forall|k: Seq<char>| k != key@ ==> #[trigger] value_at(pair_views(kept@), k)
                == value_at(before.take(i as int), k),
        decreases metadata@.len() - i,
    {
        let ghost now = pair_views(kept@);
        assert(before[i as int] == (metadata@[i as int].0@, metadata@[i as int].1@));
        proof {
            assert(before.take(i + 1) =~= before.take(i as int).push(before[i as int]));
        }
        if !text::same(metadata[i].0.as_str(), key) {
            kept.push((metadata[i].0.clone(), metadata[i].1.clone()));
            assert(pair_views(kept@) =~= now.push(before[i as int]));
        }
        proof {
            assert forall|k: Seq<char>| k != key@ implies #[trigger] value_at(pair_views(kept@), k)
                == value_at(before.take(i + 1), k) by {
                lemma_value_push(before.take(i as int), before[i as int], k);
                lemma_value_push(now, before[i as int], k);
                assert(value_at(now, k) == value_at(before.take(i as int), k));
            }
        }
        i += 1;
    }
    let ghost now = pair_views(kept@);
    assert(before.take(i as int) =~= before);
    kept.push((key.to_owned(), value.to_owned()));
    proof {
        assert(pair_views(kept@) =~= now.push((key@, value@)));
        assert forall|k: Seq<char>| #[trigger] meta(kept, k) == (if k == key@ {
            Some(value@)
        } else {
            meta(*old(metadata), k)
        }) by {
            lemma_value_push(now, (key@, value@), k);
            if k != key@ {
                assert(value_at(now, k) == value_at(before, k));
            }
        }
    }
    *metadata = kept;
}

fn copy_meta(metadata: &Vec<(String, String)>) -> (r: Vec<(String, String)>)
    ensures
        pair_views(r@) == pair_views(metadata@),
{
    let mut out: Vec<(String, String)> = Vec::new();
    let mut i: usize = 0;
    while i < metadata.len()
        invariant
            i <= metadata@.len(),
            pair_views(out@) == pair_views(metadata@).take(i as int),
        decreases metadata@.len() - i,
    {
        let ghost before = pair_views(out@);
        out.push((metadata[i].0.clone(), metadata[i].1.clone()));
        i += 1;
        assert(pair_views(out@) =~= before.push(pair_views(metadata@)[i - 1]));
        assert(pair_views(out@) =~= pair_views(metadata@).take(i as int));
    }
    assert(pair_views(metadata@).take(i as int) =~= pair_views(metadata@));
    out
}

/// A copy of a vector.
pub fn copy_bits(bits: &Vec<u32>) -> (r: Vec<u32>)
    ensures
        r@ == bits@,
{
    let mut out: Vec<u32> = Vec::new();
    let mut i: usize = 0;
    while i < bits.len()
        invariant
            i <= bits@.len(),
            out@ == bits@.take(i as int),
        decreases bits@.len() - i,
    {
        out.push(bits[i]);
        i += 1;
    }
    assert(bits@.take(i as int) =~= bits@);
    out
}

/// What a chunk's metadata tells once it is indexed for the document.
pub open spec fn tagged(
    doc: DocRecord,
    content_type: Seq<char>,
    metadata: Vec<(String, String)>,
    key: Seq<char>,
) -> Option<Seq<char>> {
    if key == "content_type"@ {
        Some(content_type)
    } else if key == "file_name"@ {
        Some(doc.name@)
    } else if key == "kb_id"@ {
        Some(doc.kb_id@)
    } else if key == "doc_id"@ {
        Some(doc.id@)
    } else {
        meta(metadata, key)
    }
}

/// The chunk stands in the index for the parsed one.
pub open spec fn is_indexed_from(out: IndexedChunk, doc: DocRecord, chunk: Chunk) -> bool {
    &&& out.id@ == chunk.id@
    &&& out.doc_name@ == doc.name@
    &&& out.content@ == chunk.content@
    &&& chunk.embedding is Some
    &&& out.embedding@ == chunk.embedding->Some_0@
    &&& out.token_count == chunk.token_count
    &&& out.position == chunk.position
    &&& forall|key: Seq<char>| #[trigger]
        meta(out.metadata, key) == tagged(doc, chunk.content_type@, chunk.metadata, key)
}

/// Every chunk has been embedded.
pub open spec fn all_embedded(chunks: Seq<Chunk>) -> bool {
    forall|i: int| 0 <= i < chunks.len() ==> (#[trigger] chunks[i]).embedding is Some
}

/// The chunks of a document as they go into the index. All of them have to be
/// embedded.
pub fn index_chunks(doc: &DocRecord, chunks: &Vec<Chunk>) -> (r: Result<Vec<IndexedChunk>, String>)
    ensures
        match r {
            Ok(out) => all_embedded(chunks@) && out@.len() == chunks@.len() && forall|i: int|
                0 <= i < out@.len() ==> is_indexed_from(#[trigger] out@[i], *doc, chunks@[i]),
            Err(e) => !all_embedded(chunks@) && e@
                == "Embedding did not produce vectors for every chunk"@,
        },
{
    let mut out: Vec<IndexedChunk> = Vec::new();
    let mut i: usize = 0;
    while i < chunks.len()
        invariant
            i <= chunks@.len(),
            out@.len() == i,
            forall|k: int| 0 <= k < i ==> (#[trigger] chunks@[k]).embedding is Some,
            forall|k: int| 0 <= k < i ==> is_indexed_from(#[trigger] out@[k], *doc, chunks@[k]),
        decreases chunks@.len() - i,
    {
        let chunk = &chunks[i];
        let embedding = match &chunk.embedding {
            Some(bits) => copy_bits(bits),
            None => {
                assert(chunks@[i as int].embedding is None);
                return Err("Embedding did not produce vectors for every chunk".to_owned());
            },
        };
        let mut metadata = copy_meta(&chunk.metadata);
        let ghost m0 = metadata;
        set_meta(&mut metadata, "doc_id", doc.id.as_str());
        let ghost m1 = metadata;
        set_meta(&mut metadata, "kb_id", doc.kb_id.as_str());
        let ghost m2 = metadata;
        set_meta(&mut metadata, "file_name", doc.name.as_str());
        let ghost m3 = metadata;
        set_meta(&mut metadata, "content_type", chunk.content_type.as_str());
        proof {
            assert forall|key: Seq<char>| #[trigger] meta(metadata, key) == tagged(
                *doc,
                chunk.content_type@,
                chunk.metadata,
                key,
            ) by {
                assert(meta(m0, key) == meta(chunk.metadata, key));
                assert(meta(m1, key) == meta(m1, key) && meta(m2, key) == meta(m2, key) && meta(
                    m3,
                    key,
                ) == meta(m3, key));
            }
        }
        let indexed = IndexedChunk {
            id: chunk.id.clone(),
            doc_name: doc.name.clone(),
            content: chunk.content.clone(),
            embedding,
            token_count: chunk.token_count,
            position: chunk.position,
            metadata,
        };
        assert(is_indexed_from(indexed, *doc, *chunk));
        out.push(indexed);
        i += 1;
    }
    Ok(out)
}

// ── Summaries ───────────────────────────────────────────────────

/// A word starts at position `i`.
pub open spec fn word_starts(s: Seq<char>, i: int) -> bool {
    !text::is_white(s[i]) && (i == 0 || text::is_white(s[i - 1]))
}

/// The number of words: runs of characters with white space between them.
pub open spec fn word_count(s: Seq<char>) -> nat
    decreases s.len(),
{
    if s.len() == 0 {
        0
    } else {
        word_count(s.drop_last()) + if word_starts(s, s.len() - 1) {
            1nat
        } else {
            0
        }
    }
}

/// The number of words.
pub fn count_words(s: &str) -> (r: usize)
    ensures
        r == word_count(s@),
{
    let chars = text::chars_of(s);
    let mut count: usize = 0;
    let mut i: usize = 0;
    while i < chars.len()
        invariant
            chars@ == s@,
            i <= chars.len(),
            count <= i,
            count == word_count(s@.take(i as int)),
        decreases chars@.len() - i,
    {
        proof {
            assert(s@.take(i + 1).drop_last() =~= s@.take(i as int));
            assert(s@.take(i + 1)[i as int] == s@[i as int]);
            if i > 0 {
                assert(s@.take(i + 1)[i - 1] == s@[i - 1]);
            }
        }
        if !text::white(chars[i]) && (i == 0 || text::white(chars[i - 1])) {
            count += 1;
        }
        i += 1;
    }
    assert(s@.take(i as int) =~= s@);
    count
}

/// The positions of the chunks that can be summarised: those with a vector.
pub open spec fn summarised(indexed: Seq<IndexedChunk>) -> Seq<int>
    decreases indexed.len(),
{
    if indexed.len() == 0 {
        Seq::empty()
    } else if indexed.last().embedding@.len() > 0 {
        summarised(indexed.drop_last()).push(indexed.len() - 1)
    } else {
        summarised(indexed.drop_last())
    }
}

/// The positions of the chunks that are summarised; a single one is not worth a
/// summary.
pub fn raptor_source(indexed: &Vec<IndexedChunk>) -> (r: Option<Vec<usize>>)
    ensures
        match r {
            Some(positions) => summarised(indexed@).len() >= 2 && positions@.map_values(
                |p: usize| p as int,
            ) == summarised(indexed@),
            None => summarised(indexed@).len() < 2,
        },
{
    let mut positions: Vec<usize> = Vec::new();
    let mut i: usize = 0;
    assert(positions@.map_values(|p: usize| p as int) =~= Seq::<int>::empty());
    while i < indexed.len()
        invariant
            i <= indexed@.len(),
            positions@.map_values(|p: usize| p as int) == summarised(indexed@.take(i as int)),
        decreases indexed@.len() - i,
    {
        let ghost before = positions@.map_values(|p: usize| p as int);
        assert(indexed@.take(i + 1).drop_last() =~= indexed@.take(i as int));
        assert(indexed@.take(i + 1).last() == indexed@[i as int]);
        if indexed[i].embedding.len() > 0 {
            positions.push(i);
            assert(positions@.map_values(|p: usize| p as int) =~= before.push(i as int));
        }
        i += 1;
    }
    assert(indexed@.take(i as int) =~= indexed@);
    assert(positions@.len() == positions@.map_values(|p: usize| p as int).len());
    if positions.len() < 2 {
        None
    } else {
        Some(positions)
    }
}

/// What a summary's metadata tells.
pub open spec fn summary_meta(doc: DocRecord, node: SummaryNode, key: Seq<char>) -> Option<
    Seq<char>,
> {
    if key == "doc_id"@ {
        Some(doc.id@)
    } else if key == "kb_id"@ {
        Some(doc.kb_id@)
    } else if key == "file_name"@ {
        Some(doc.name@)
    } else if key == "content_type"@ {
        Some("text"@)
    } else if key == "raptor_kwd"@ {
        Some("1"@)
    } else if key == "raptor_layer_int"@ {
        Some(text::decimal(node.level as nat))
    } else if key == "raptor_method"@ {
        Some("extractive"@)
    } else if key == "source_id"@ {
        Some(text::joined(text::views(node.children@), ","@))
    } else {
        None
    }
}

/// The chunk stands in the index for the summary; `position` counts it after the
/// chunks of the document.
pub open spec fn is_summary_of(
    out: IndexedChunk,
    doc: DocRecord,
    node: SummaryNode,
    position: int,
) -> bool {
    &&& out.id@ == doc.id@ + "-raptor-"@ + node.id@
    &&& out.doc_name@ == doc.name@
    &&& out.content@ == node.content@
    &&& out.embedding@ == node.embedding@
    &&& out.token_count == word_count(node.content@)
    &&& out.position == position
    &&& forall|key: Seq<char>| #[trigger] meta(out.metadata, key) == summary_meta(doc, node, key)
}

fn summary_metadata(doc: &DocRecord, node: &SummaryNode) -> (metadata: Vec<(String, String)>)
    ensures
        forall|key: Seq<char>| #[trigger] meta(metadata, key) == summary_meta(*doc, *node, key),
{
    proof {
        reveal_strlit("doc_id");
        reveal_strlit("kb_id");
        reveal_strlit("file_name");
        reveal_strlit("content_type");
        reveal_strlit("raptor_kwd");
        reveal_strlit("raptor_layer_int");
        reveal_strlit("raptor_method");
        reveal_strlit("source_id");
    }
    let mut m: Vec<(String, String)> = Vec::new();
    assert(pair_views(m@) =~= Seq::<(Seq<char>, Seq<char>)>::empty());
    let ghost m0 = m;
    set_meta(&mut m, "source_id", text::join(&node.children, ",").as_str());
    let ghost m1 = m;
    set_meta(&mut m, "raptor_method", "extractive");
    let ghost m2 = m;
    set_meta(&mut m, "raptor_layer_int", text::decimal_of(node.level).as_str());
    let ghost m3 = m;
    set_meta(&mut m, "raptor_kwd", "1");
    let ghost m4 = m;
    set_meta(&mut m, "content_type", "text");
    let ghost m5 = m;
    set_meta(&mut m, "file_name", doc.name.as_str());
    let ghost m6 = m;
    set_meta(&mut m, "kb_id", doc.kb_id.as_str());
    let ghost m7 = m;
    set_meta(&mut m, "doc_id", doc.id.as_str());
    proof {
        assert forall|key: Seq<char>| #[trigger] meta(m, key) == summary_meta(*doc, *node, key) by {
            let a = (meta(m0, key), meta(m1, key), meta(m2, key), meta(m3, key));
            let b = (meta(m4, key), meta(m5, key), meta(m6, key), meta(m7, key));
            assert(meta(m0, key) is None);
            assert(a == a && b == b);
        }
    }
    m
}

/// The summaries of a document as they go into the index after its own chunks. They
/// carry the document's id, so they leave the index together with it.
pub fn build_raptor_chunks(
    doc: &DocRecord,
    indexed: &Vec<IndexedChunk>,
    nodes: &Vec<SummaryNode>,
) -> (r: Vec<IndexedChunk>)
    requires
        indexed@.len() + nodes@.len() <= usize::MAX,
    ensures
        summarised(indexed@).len() < 2 ==> r@.len() == 0,
        summarised(indexed@).len() >= 2 ==> r@.len() == nodes@.len() && forall|i: int|
            0 <= i < r@.len() ==> is_summary_of(
                #[trigger] r@[i],
                *doc,
                nodes@[i],
                indexed@.len() + i,
            ),
{
    let mut out: Vec<IndexedChunk> = Vec::new();
    if raptor_source(indexed).is_none() {
        return out;
    }
    let mut i: usize = 0;
    while i < nodes.len()
        invariant
            i <= nodes@.len(),
            indexed@.len() + nodes@.len() <= usize::MAX,
            out@.len() == i,
            forall|k: int|
                0 <= k < i ==> is_summary_of(
                    #[trigger] out@[k],
                    *doc,
                    nodes@[k],
                    indexed@.len() + k,
                ),
        decreases nodes@.len() - i,
    {
        let node = &nodes[i];
        let chunk = IndexedChunk {
            id: text::concat3(doc.id.as_str(), "-raptor-", node.id.as_str()),
            doc_name: doc.name.clone(),
            content: node.content.clone(),
            embedding: copy_bits(&node.embedding),
            token_count: count_words(node.content.as_str()),
            position: indexed.len() + i,
            metadata: summary_metadata(doc, node),
        };
        assert(is_summary_of(chunk, *doc, *node, indexed@.len() + i));
        out.push(chunk);
        i += 1;
    }
    out
}

// ── Laws ────────────────────────────────────────────────────────

proof fn lemma_meta_keys()
    ensures
        "content_type"@ != "file_name"@,
        "content_type"@ != "kb_id"@,
        "content_type"@ != "doc_id"@,
        "content_type"@ != "raptor_kwd"@,
        "content_type"@ != "raptor_layer_int"@,
        "content_type"@ != "raptor_method"@,
        "content_type"@ != "source_id"@,
        "file_name"@ != "kb_id"@,
        "file_name"@ != "doc_id"@,
        "file_name"@ != "raptor_kwd"@,
        "file_name"@ != "raptor_layer_int"@,
        "file_name"@ != "raptor_method"@,
        "file_name"@ != "source_id"@,
        "kb_id"@ != "doc_id"@,
        "kb_id"@ != "raptor_kwd"@,
        "kb_id"@ != "raptor_layer_int"@,
        "kb_id"@ != "raptor_method"@,
        "kb_id"@ != "source_id"@,
        "doc_id"@ != "raptor_kwd"@,
        "doc_id"@ != "raptor_layer_int"@,
        "doc_id"@ != "raptor_method"@,
        "doc_id"@ != "source_id"@,
        "raptor_kwd"@ != "raptor_layer_int"@,
        "raptor_kwd"@ != "raptor_method"@,
        "raptor_kwd"@ != "source_id"@,
        "raptor_layer_int"@ != "raptor_method"@,
        "raptor_layer_int"@ != "source_id"@,
        "raptor_method"@ != "source_id"@,
{
    reveal_strlit("content_type");
    reveal_strlit("file_name");
    reveal_strlit("kb_id");
    reveal_strlit("doc_id");
    reveal_strlit("raptor_kwd");
    reveal_strlit("raptor_layer_int");
    reveal_strlit("raptor_method");
    reveal_strlit("source_id");
    assert("content_type"@.len() != "file_name"@.len());
    assert("content_type"@.len() != "kb_id"@.len());
    assert("content_type"@.len() != "doc_id"@.len());
    assert("content_type"@.len() != "raptor_kwd"@.len());
    assert("content_type"@.len() != "raptor_layer_int"@.len());
    assert("content_type"@.len() != "raptor_method"@.len());
    assert("content_type"@.len() != "source_id"@.len());
    assert("file_name"@.len() != "kb_id"@.len());
    assert("file_name"@.len() != "doc_id"@.len());
    assert("file_name"@.len() != "raptor_kwd"@.len());
    assert("file_name"@.len() != "raptor_layer_int"@.len());
    assert("file_name"@.len() != "raptor_method"@.len());
    assert("file_name"@[0] != "source_id"@[0]);
    assert("kb_id"@.len() != "doc_id"@.len());
    assert("kb_id"@.len() != "raptor_kwd"@.len());
    assert("kb_id"@.len() != "raptor_layer_int"@.len());
    assert("kb_id"@.len() != "raptor_method"@.len());
    assert("kb_id"@.len() != "source_id"@.len());
    assert("doc_id"@.len() != "raptor_kwd"@.len());
    assert("doc_id"@.len() != "raptor_layer_int"@.len());
    assert("doc_id"@.len() != "raptor_method"@.len());
    assert("doc_id"@.len() != "source_id"@.len());
    assert("raptor_kwd"@.len() != "raptor_layer_int"@.len());
    assert("raptor_kwd"@.len() != "raptor_method"@.len());
    assert("raptor_kwd"@.len() != "source_id"@.len());
    assert("raptor_layer_int"@.len() != "raptor_method"@.len());
    assert("raptor_layer_int"@.len() != "source_id"@.len());
    assert("raptor_method"@.len() != "source_id"@.len());
}

/// Every chunk of a document is indexed as it was parsed, in order, with the name of the
/// document, and tells its document, its knowledge base, its file and its kind; whatever
/// else its metadata told, it tells still. A single chunk without a vector keeps all of
/// them out.
pub proof fn chunks_are_indexed_as_they_were_parsed(
    doc: DocRecord,
    chunks: Vec<Chunk>,
    r: Result<Vec<IndexedChunk>, String>,
    i: int,
    key: Seq<char>,
)
    requires
        call_ensures(index_chunks, (&doc, &chunks), r),
    ensures
        r matches Ok(out) ==> out@.len() == chunks@.len(),
        r is Ok && 0 <= i < chunks@.len() ==> ({
            let out = r->Ok_0@[i];
            let chunk = chunks@[i];
            &&& out.id@ == chunk.id@
            &&& out.doc_name@ == doc.name@
            &&& out.content@ == chunk.content@
            &&& chunk.embedding matches Some(v) && out.embedding@ == v@
            &&& out.token_count == chunk.token_count
            &&& out.position == chunk.position
            &&& meta(out.metadata, "doc_id"@) == Some(doc.id@)
            &&& meta(out.metadata, "kb_id"@) == Some(doc.kb_id@)
            &&& meta(out.metadata, "file_name"@) == Some(doc.name@)
            &&& meta(out.metadata, "content_type"@) == Some(chunk.content_type@)
            &&& key != "doc_id"@ && key != "kb_id"@ && key != "file_name"@ && key
                != "content_type"@ ==> meta(out.metadata, key) == meta(chunk.metadata, key)
        }),
        0 <= i < chunks@.len() && chunks@[i].embedding is None ==> (r matches Err(e) && e@
            == "Embedding did not produce vectors for every chunk"@),
        (forall|k: int| 0 <= k < chunks@.len() ==> (#[trigger] chunks@[k]).embedding is Some) ==> r
            is Ok,
{
    lemma_meta_keys();
    if r is Ok && 0 <= i < chunks@.len() {
        let out = r->Ok_0@[i];
        assert(is_indexed_from(r->Ok_0@[i], doc, chunks@[i]));
        assert(meta(out.metadata, key) == tagged(doc, chunks@[i].content_type@, chunks@[i].metadata, key));
    }
}

/// Metadata tell the last value under a key.
pub proof fn metadata_tell_the_last_value(
    pairs: Seq<(Seq<char>, Seq<char>)>,
    key: Seq<char>,
    value: Seq<char>,
    other: Seq<char>,
)
    ensures
        value_at(pairs.push((key, value)), key) == Some(value),
        other != key ==> value_at(pairs.push((key, value)), other) == value_at(pairs, other),
        value_at(Seq::empty(), key) is None,
{
    lemma_value_push(pairs, (key, value), key);
    lemma_value_push(pairs, (key, value), other);
}

/// A vector is copied number by number.
pub proof fn vectors_are_copied_whole(bits: Vec<u32>, r: Vec<u32>)
    requires
        call_ensures(copy_bits, (&bits,), r),
    ensures
        r@.len() == bits@.len(),
        forall|i: int| 0 <= i < bits@.len() ==> #[trigger] r@[i] == bits@[i],
{
}

proof fn lemma_words_of_parts(a: Seq<char>, w: char, b: Seq<char>)
    requires
        text::is_white(w),
    ensures
        word_count(a + seq![w] + b) == word_count(a) + word_count(b),
    decreases b.len(),
{
    let whole = a + seq![w] + b;
    if b.len() == 0 {
        assert(whole.drop_last() =~= a);
        assert(whole.last() == w);
    } else {
        let rest = b.drop_last();
        lemma_words_of_parts(a, w, rest);
        assert(whole.drop_last() =~= a + seq![w] + rest);
        let n = whole.len() - 1;
        assert(whole[n] == b[b.len() - 1]);
        if b.len() == 1 {
            assert(whole[n - 1] == w);
        } else {
            assert(whole[n - 1] == b[b.len() - 2]);
        }
        assert(word_starts(whole, n) == word_starts(b, b.len() - 1));
    }
}

proof fn lemma_one_word(s: Seq<char>)
    requires
        forall|i: int| 0 <= i < s.len() ==> !text::is_white(#[trigger] s[i]),
    ensures
        word_count(s) == if s.len() == 0 {
            0nat
        } else {
            1nat
        },
    decreases s.len(),
{
    if s.len() > 0 {
        let rest = s.drop_last();
        assert forall|i: int| 0 <= i < rest.len() implies !text::is_white(#[trigger] rest[i]) by {
            assert(rest[i] == s[i]);
        }
        lemma_one_word(rest);
        let n = s.len() - 1;
        assert(!text::is_white(s[n]));
        if n > 0 {
            assert(!text::is_white(s[n - 1]));
        }
    }
}

/// A text without white space is one word, unless it is empty; white space between two
/// texts keeps their words apart.
pub proof fn words_are_counted_between_white_space(
    s: &str,
    n: usize,
    a: &str,
    in_a: usize,
    w: char,
    b: &str,
    in_b: usize,
)
    requires
        call_ensures(count_words, (s,), n),
        call_ensures(count_words, (a,), in_a),
        call_ensures(count_words, (b,), in_b),
        text::is_white(w),
    ensures
        s@.len() == 0 ==> n == 0,
        s@.len() > 0 && (forall|i: int| 0 <= i < s@.len() ==> !text::is_white(#[trigger] s@[i])) ==> n
            == 1,
        s@ == a@ + seq![w] + b@ ==> n == in_a + in_b,
{
    if forall|i: int| 0 <= i < s@.len() ==> !text::is_white(#[trigger] s@[i]) {
        lemma_one_word(s@);
    }
    lemma_words_of_parts(a@, w, b@);
}

/// The places of the chunks with a vector, in order.
pub open spec fn places_with_vectors(indexed: Seq<IndexedChunk>) -> Seq<int> {
    Seq::new(indexed.len(), |i: int| i).filter(|i: int| indexed[i].embedding@.len() > 0)
}

proof fn lemma_summarised(all: Seq<IndexedChunk>, n: int)
    requires
        0 <= n <= all.len(),
    ensures
        summarised(all.take(n)) == Seq::new(n as nat, |i: int| i).filter(
            |i: int| all[i].embedding@.len() > 0,
        ),
    decreases n,
{
    let places = Seq::new(n as nat, |i: int| i);
    let p = |i: int| all[i].embedding@.len() > 0;
    reveal(Seq::filter);
    if n > 0 {
        lemma_summarised(all, n - 1);
        assert(all.take(n).drop_last() =~= all.take(n - 1));
        assert(places.drop_last() =~= Seq::new((n - 1) as nat, |i: int| i));
    } else {
        assert(places =~= Seq::<int>::empty());
        assert(places.filter(p) =~= Seq::<int>::empty());
    }
}

/// Summaries are made of the chunks with a vector, all of them, in order, where there
/// are two at least.
pub proof fn summaries_need_two_vectors(indexed: Vec<IndexedChunk>, r: Option<Vec<usize>>)
    requires
        call_ensures(raptor_source, (&indexed,), r),
    ensures
        r is Some <==> places_with_vectors(indexed@).len() >= 2,
        r matches Some(places) ==> places@.map_values(|p: usize| p as int) == places_with_vectors(
            indexed@,
        ),
{
    lemma_summarised(indexed@, indexed@.len() as int);
    assert(indexed@.take(indexed@.len() as int) =~= indexed@);
}

/// Each summary goes into the index after the chunks of its document, with its own text
/// and vector and an id of its document's, and tells its document, its layer and the
/// chunks that it sums up, and nothing else.
pub proof fn summaries_are_indexed_after_their_chunks(
    doc: DocRecord,
    indexed: Vec<IndexedChunk>,
    nodes: Vec<SummaryNode>,
    source: Option<Vec<usize>>,
    r: Vec<IndexedChunk>,
    i: int,
    content: &str,
    words: usize,
    key: Seq<char>,
)
    requires
        indexed@.len() + nodes@.len() <= usize::MAX,
        call_ensures(raptor_source, (&indexed,), source),
        call_ensures(build_raptor_chunks, (&doc, &indexed, &nodes), r),
        0 <= i < nodes@.len() ==> content@ == nodes@[i].content@,
        call_ensures(count_words, (content,), words),
    ensures
        source is None ==> r@.len() == 0,
        source is Some ==> r@.len() == nodes@.len(),
        source is Some && 0 <= i < nodes@.len() ==> ({
            let out = r@[i];
            let node = nodes@[i];
            &&& out.id@ == doc.id@ + "-raptor-"@ + node.id@
            &&& out.doc_name@ == doc.name@
            &&& out.content@ == node.content@
            &&& out.embedding@ == node.embedding@
            &&& out.token_count == words
            &&& out.position == indexed@.len() + i
            &&& meta(out.metadata, "doc_id"@) == Some(doc.id@)
            &&& meta(out.metadata, "kb_id"@) == Some(doc.kb_id@)
            &&& meta(out.metadata, "file_name"@) == Some(doc.name@)
            &&& meta(out.metadata, "content_type"@) == Some("text"@)
            &&& meta(out.metadata, "raptor_kwd"@) == Some("1"@)
            &&& meta(out.metadata, "raptor_layer_int"@) == Some(text::decimal(node.level as nat))
            &&& meta(out.metadata, "raptor_method"@) == Some("extractive"@)
            &&& meta(out.metadata, "source_id"@) == Some(
                text::joined(text::views(node.children@), ","@),
            )
            &&& key != "doc_id"@ && key != "kb_id"@ && key != "file_name"@ && key
                != "content_type"@ && key != "raptor_kwd"@ && key != "raptor_layer_int"@ && key
                != "raptor_method"@ && key != "source_id"@ ==> meta(out.metadata, key) is None
        }),
{
    lemma_meta_keys();
    if source is Some && 0 <= i < nodes@.len() {
        assert(is_summary_of(r@[i], doc, nodes@[i], indexed@.len() + i));
        assert(meta(r@[i].metadata, key) == summary_meta(doc, nodes@[i], key));
    }
}

} // verus!
