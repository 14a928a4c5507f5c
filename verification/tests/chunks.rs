use rayrag_server::chunks::{
    build_raptor_chunks, count_words, index_chunks, raptor_source, Chunk, IndexedChunk, SummaryNode,
};
use rayrag_server::state::DocRecord;

fn stored_doc(id: &str, kb_id: &str, chunk_count: usize) -> DocRecord {
    DocRecord {
        id: id.into(),
        name: "sample.txt".into(),
        kb_id: kb_id.into(),
        size: 6,
        storage_name: "sample.txt".into(),
        content_hash: "hash".into(),
        indexed_content_hash: String::new(),
        run: "UNSTARTED".into(),
        progress: 0,
        progress_msg: String::new(),
        chunk_count,
        created_at: 1,
        updated_at: 1,
    }
}

fn vector() -> Vec<u32> {
    vec![1.0f32.to_bits(), 0.0f32.to_bits()]
}

fn indexed_chunk(doc_id: &str, kb_id: &str, id: &str) -> IndexedChunk {
    IndexedChunk {
        id: id.into(),
        doc_name: "sample.txt".into(),
        content: "sample".into(),
        embedding: vector(),
        token_count: 1,
        position: 0,
        metadata: vec![("doc_id".into(), doc_id.into()), ("kb_id".into(), kb_id.into())],
    }
}

fn summary(id: &str) -> SummaryNode {
    SummaryNode {
        id: id.into(),
        content: "sample  and\nsample".into(),
        embedding: vector(),
        level: 1,
        children: vec!["one".into(), "two".into()],
    }
}

fn meta<'a>(chunk: &'a IndexedChunk, key: &str) -> Option<&'a str> {
    chunk.metadata.iter().find(|(k, _)| k == key).map(|(_, v)| v.as_str())
}

#[test]
fn raptor_chunks_are_marked_and_replaced_with_the_document() {
    let doc = stored_doc("doc-raptor", "kb-a", 0);
    let source = vec![
        indexed_chunk(&doc.id, &doc.kb_id, "one"),
        indexed_chunk(&doc.id, &doc.kb_id, "two"),
    ];
    let summaries = build_raptor_chunks(&doc, &source, &vec![summary("0")]);
    assert!(!summaries.is_empty());
    assert!(summaries.iter().all(|chunk| {
        meta(chunk, "raptor_kwd") == Some("1")
            && meta(chunk, "raptor_layer_int").is_some()
            && meta(chunk, "doc_id") == Some(doc.id.as_str())
    }));

    let mut engine: Vec<IndexedChunk> = source.into_iter().chain(summaries).collect();
    engine.retain(|chunk| meta(chunk, "doc_id") != Some(doc.id.as_str()));
    engine.push(indexed_chunk(&doc.id, &doc.kb_id, "replacement"));
    assert_eq!(engine.len(), 1);
    assert_eq!(engine[0].id, "replacement");
}

#[test]
fn summaries_tell_what_they_are_made_of() {
    let doc = stored_doc("doc", "kb-a", 0);
    let source = vec![
        indexed_chunk("doc", "kb-a", "one"),
        indexed_chunk("doc", "kb-a", "two"),
    ];
    let out = build_raptor_chunks(&doc, &source, &vec![summary("s0"), summary("s1")]);
    assert_eq!(out.len(), 2);
    assert_eq!(out[1].id, "doc-raptor-s1");
    assert_eq!((out[0].position, out[1].position), (2, 3));
    assert_eq!(out[0].token_count, 3);
    assert_eq!(out[0].doc_name, "sample.txt");
    assert_eq!(out[0].embedding, vector());
    for (key, expected) in [
        ("kb_id", "kb-a"),
        ("file_name", "sample.txt"),
        ("content_type", "text"),
        ("raptor_layer_int", "1"),
        ("raptor_method", "extractive"),
        ("source_id", "one,two"),
    ] {
        assert_eq!(meta(&out[0], key), Some(expected), "{key}");
    }
    assert_eq!(out[0].metadata.len(), 8);
}

#[test]
fn single_chunks_are_not_summarised() {
    let doc = stored_doc("doc", "kb-a", 0);
    let mut bare = indexed_chunk("doc", "kb-a", "two");
    bare.embedding = Vec::new();
    let source = vec![indexed_chunk("doc", "kb-a", "one"), bare];
    assert_eq!(raptor_source(&source), None);
    assert!(build_raptor_chunks(&doc, &source, &vec![summary("0")]).is_empty());
    let three = vec![
        indexed_chunk("doc", "kb-a", "one"),
        indexed_chunk("doc", "kb-a", "two"),
        indexed_chunk("doc", "kb-a", "three"),
    ];
    assert_eq!(raptor_source(&three), Some(vec![0, 1, 2]));
}

#[test]
fn chunks_carry_their_document_into_the_index() {
    let doc = stored_doc("doc", "kb-a", 0);
    let chunk = || Chunk {
        id: "c-1".into(),
        content: "text".into(),
        content_type: "table".into(),
        embedding: Some(vector()),
        token_count: 4,
        position: 7,
        metadata: vec![("page".into(), "2".into()), ("doc_id".into(), "stale".into())],
    };
    let out = index_chunks(&doc, &vec![chunk()]).unwrap();
    assert_eq!(out.len(), 1);
    assert_eq!((out[0].id.as_str(), out[0].content.as_str()), ("c-1", "text"));
    assert_eq!((out[0].token_count, out[0].position), (4, 7));
    assert_eq!(out[0].doc_name, "sample.txt");
    assert_eq!(out[0].embedding, vector());
    for (key, expected) in [
        ("page", "2"),
        ("doc_id", "doc"),
        ("kb_id", "kb-a"),
        ("file_name", "sample.txt"),
        ("content_type", "table"),
    ] {
        assert_eq!(meta(&out[0], key), Some(expected), "{key}");
    }
    let mut missing = chunk();
    missing.embedding = None;
    assert_eq!(
        index_chunks(&doc, &vec![chunk(), missing]).unwrap_err(),
        "Embedding did not produce vectors for every chunk"
    );
}

#[test]
fn words_are_runs_without_white_space() {
    assert_eq!(count_words(""), 0);
    assert_eq!(count_words("  \n\t "), 0);
    assert_eq!(count_words("one"), 1);
    assert_eq!(count_words(" one\u{3000}two  three\n"), 3);
}
