use std::collections::BTreeMap;

use rayrag_server::commit::{
    commit_indexed_document, delete_document_data, persist_index_change, restore_index, Cleanup,
    CommitJob, Step, Undo, Write,
};
use rayrag_server::json::Json;
use rayrag_server::state::{AppState, DocRecord, KnowledgeBase};

fn kb(id: &str) -> KnowledgeBase {
    KnowledgeBase {
        id: id.into(),
        owner_id: "test-user".into(),
        permission: "me".into(),
        embd_id: String::new(),
        parser_config: "{}".into(),
        prompt_config: Json::Null,
        chunk_count: 1,
        doc_count: 1,
    }
}

fn stored_doc(id: &str, kb_id: &str, chunk_count: usize) -> DocRecord {
    DocRecord {
        id: id.into(),
        name: "sample.txt".into(),
        kb_id: kb_id.into(),
        size: 6,
        storage_name: "sample.txt".into(),
        content_hash: "hash".into(),
        indexed_content_hash: String::new(),
        run: "UNSTARTED".into(),
        progress: 0,
        progress_msg: String::new(),
        chunk_count,
        created_at: 1,
        updated_at: 1,
    }
}

fn state(docs: Vec<DocRecord>) -> AppState {
    AppState {
        static_dir: "/srv/static".into(),
        port: 9380,
        users: Vec::new(),
        kbs: vec![kb("kb-a")],
        tenants: Vec::new(),
        llm: false,
        embedder: false,
        reranker: false,
        index_path: "/srv/index.json".into(),
        model_path: String::new(),
        max_upload_bytes: 1024,
        docs,
        search_apps: None,
        tenant_models: Vec::new(),
        memories: Vec::new(),
        register_enabled: 1,
        disable_password_login: false,
    }
}

/// What the stores hold: the chunks and the graph of each document, the counts, the
/// metadata and the records.
#[derive(Clone, Debug, PartialEq)]
struct Stores {
    index: BTreeMap<String, Vec<String>>,
    graphs: BTreeMap<String, String>,
    chunk_count: isize,
    doc_count: isize,
    metadata: BTreeMap<String, String>,
    runs: BTreeMap<String, String>,
}

fn stores(doc_id: &str) -> Stores {
    Stores {
        index: BTreeMap::from([(doc_id.to_string(), vec!["old".to_string()])]),
        graphs: BTreeMap::from([(doc_id.to_string(), "John Smith".to_string())]),
        chunk_count: 1,
        doc_count: 1,
        metadata: BTreeMap::from([(doc_id.to_string(), "year=2026".to_string())]),
        runs: BTreeMap::from([(doc_id.to_string(), "UNSTARTED".to_string())]),
    }
}

impl Stores {
    fn perform(&mut self, write: &Write<String>) {
        match write {
            Write::ReplaceInIndex { doc_id } => {
                let chunks = vec!["new-1".to_string(), "new-2".to_string()];
                self.index.insert(doc_id.clone(), chunks);
            }
            Write::RemoveFromIndex { doc_id } => {
                self.index.remove(doc_id);
            }
            Write::ReplaceGraph { doc_id } => {
                self.graphs.insert(doc_id.clone(), "Google Inc".into());
            }
            Write::RemoveGraph { doc_id } => {
                self.graphs.remove(doc_id);
            }
            Write::AddCounts { chunks, docs, .. } => {
                self.chunk_count += chunks;
                self.doc_count += docs;
            }
            Write::MarkIndexed { doc_id, .. } => {
                self.runs.insert(doc_id.clone(), "DONE".into());
            }
            Write::DeleteMetadata { doc_id, .. } => {
                self.metadata.remove(doc_id);
            }
            Write::DeleteRecord { doc_id } => {
                self.runs.remove(doc_id);
            }
        }
    }

    fn put_back(&mut self, before: &Stores, undo: &Undo<String>) {
        match undo {
            Undo::RestoreMetadata { doc_id, .. } => {
                self.metadata.insert(doc_id.clone(), before.metadata[doc_id].clone());
            }
            Undo::RestoreGraphs => self.graphs = before.graphs.clone(),
            Undo::AddCounts { chunks, docs, .. } => {
                self.chunk_count += chunks;
                self.doc_count += docs;
            }
            Undo::RestoreIndex { index_path, .. } => {
                assert_eq!(index_path, "/srv/index.json");
                self.index = before.index.clone();
            }
        }
    }
}

fn outcome(fails: bool) -> Result<(), String> {
    if fails {
        Err("disk is full".into())
    } else {
        Ok(())
    }
}

/// Runs a commit whose write number `failing` fails.
fn run_commit(job: &CommitJob, world: &mut Stores, failing: usize) -> Result<(), String> {
    let before = world.clone();
    let mut step = job.begin();
    let mut n = 0;
    loop {
        match step {
            Step::Finished => return Ok(()),
            Step::Abort { undo, error } => {
                for change in &undo {
                    world.put_back(&before, change);
                }
                return Err(error);
            }
            Step::Perform(write) => {
                let fails = n == failing;
                if !fails {
                    world.perform(&write);
                }
                step = match n {
                    0 => job.after_index(outcome(fails)),
                    1 => job.after_graph(outcome(fails)),
                    2 => job.after_counts(outcome(fails)),
                    _ => job.after_record(outcome(fails).map(|_| true)),
                };
                n += 1;
            }
        }
    }
}

fn run_deletion(s: &AppState, doc: &DocRecord, world: &mut Stores, failing: usize) -> Result<(), String> {
    let job = delete_document_data(s, doc);
    let before = world.clone();
    let removed = world.index[&doc.id].len();
    let had_metadata = world.metadata.contains_key(&doc.id);
    let mut step = job.begin();
    let mut n = 0;
    loop {
        match step {
            Step::Finished => return Ok(()),
            Step::Abort { undo, error } => {
                for change in &undo {
                    world.put_back(&before, change);
                }
                return Err(error);
            }
            Step::Perform(write) => {
                let fails = n == failing;
                if !fails {
                    world.perform(&write);
                }
                step = match n {
                    0 => job.after_index(outcome(fails).map(|_| removed)),
                    1 => job.after_graph(removed, outcome(fails)),
                    2 => job.after_counts(outcome(fails)),
                    3 => job.after_metadata(removed, outcome(fails)),
                    _ => job.after_record(removed, had_metadata, outcome(fails).map(|_| true)),
                };
                n += 1;
            }
        }
    }
}

#[test]
fn failed_document_metadata_delete_restores_index_and_kb_counts() {
    let doc = stored_doc("doc-delete", "kb-a", 1);
    let s = state(vec![stored_doc("doc-delete", "kb-a", 1)]);
    let mut world = stores("doc-delete");
    let result = run_deletion(&s, &doc, &mut world, 4);
    assert!(result.is_err());
    assert!(world.runs.contains_key("doc-delete"));
    assert_eq!(world.doc_count, 1);
    assert_eq!(world.chunk_count, 1);
    assert_eq!(world.index.len(), 1);
    assert!(!world.graphs.is_empty());
}

#[test]
fn failed_document_metadata_commit_restores_index_and_kb_counts() {
    let doc = stored_doc("doc-commit", "kb-a", 1);
    let s = state(vec![stored_doc("doc-commit", "kb-a", 1)]);
    let job = commit_indexed_document(&s, &doc, false, true, 2, "Indexed 2 chunks").unwrap();
    let mut world = stores("doc-commit");
    assert!(run_commit(&job, &mut world, 3).is_err());
    assert_eq!(world.chunk_count, 1);
    let chunks = &world.index["doc-commit"];
    assert_eq!(chunks.len(), 1);
    assert_eq!(chunks[0], "old");
    assert_eq!(world.runs["doc-commit"], "UNSTARTED");
    assert!(!world.graphs.is_empty());
}

#[test]
fn commits_that_fail_anywhere_change_nothing() {
    let doc = stored_doc("doc", "kb-a", 1);
    let s = state(vec![stored_doc("doc", "kb-a", 1)]);
    let job = commit_indexed_document(&s, &doc, false, true, 2, "Indexed 2 chunks").unwrap();
    let told = [
        "Failed to commit online search index: disk is full",
        "Failed to update GraphRAG artifacts after index commit",
        "Failed to update KB counts after index commit",
        "Failed to mark document as indexed",
    ];
    for (failing, message) in told.iter().enumerate() {
        let mut world = stores("doc");
        assert_eq!(run_commit(&job, &mut world, failing).unwrap_err(), *message);
        assert_eq!(world, stores("doc"));
    }
    let mut world = stores("doc");
    run_commit(&job, &mut world, 9).unwrap();
    assert_eq!(world.chunk_count, 2);
    assert_eq!(world.doc_count, 1);
    assert_eq!(world.index["doc"], ["new-1", "new-2"]);
    assert_eq!(world.graphs["doc"], "Google Inc");
    assert_eq!(world.runs["doc"], "DONE");
}

#[test]
fn deletions_that_fail_anywhere_change_nothing() {
    let doc = stored_doc("doc", "kb-a", 1);
    let s = state(vec![stored_doc("doc", "kb-a", 1)]);
    let told = [
        "Failed to commit online search index: disk is full",
        "Failed to delete GraphRAG document checkpoint",
        "Failed to update KB counts during document deletion",
        "Failed to delete document-level metadata",
        "Failed to delete document metadata",
    ];
    for (failing, message) in told.iter().enumerate() {
        let mut world = stores("doc");
        assert_eq!(run_deletion(&s, &doc, &mut world, failing).unwrap_err(), *message);
        assert_eq!(world, stores("doc"));
    }
    let mut world = stores("doc");
    run_deletion(&s, &doc, &mut world, 9).unwrap();
    assert_eq!((world.chunk_count, world.doc_count), (0, 0));
    assert!(world.index.is_empty() && world.graphs.is_empty());
    assert!(world.metadata.is_empty() && world.runs.is_empty());
}

#[test]
fn records_that_are_gone_stop_a_commit_and_a_deletion() {
    let doc = stored_doc("doc", "kb-a", 3);
    let s = state(vec![stored_doc("doc", "kb-a", 3)]);
    let job = commit_indexed_document(&s, &doc, false, true, 1, "Indexed 1 chunks").unwrap();
    assert_eq!((job.old_count, job.new_count), (3, 1));
    match job.after_graph(Ok(())) {
        Step::Perform(Write::AddCounts { kb_id, chunks, docs }) => {
            assert_eq!((kb_id.as_str(), chunks, docs), ("kb-a", -2, 0));
        }
        other => panic!("{other:?}"),
    }
    match job.after_record(Ok(false)) {
        Step::Abort { undo, error } => {
            assert_eq!(error, "Document metadata disappeared during index commit");
            assert!(matches!(undo[1], Undo::AddCounts { chunks: 2, docs: 0, .. }));
        }
        other => panic!("{other:?}"),
    }
    match delete_document_data(&s, &doc).after_record(3, false, Ok(false)) {
        Step::Abort { undo, error } => {
            assert_eq!(error, "Document metadata was already deleted");
            assert_eq!(undo.len(), 3);
        }
        other => panic!("{other:?}"),
    }
}

#[test]
fn commits_are_refused_without_lease_record_or_base() {
    let doc = stored_doc("doc", "kb-a", 1);
    let told = |s: &AppState, doc: &DocRecord, cancelled: bool, owns: bool| {
        commit_indexed_document(s, doc, cancelled, owns, 1, "m").unwrap_err()
    };
    let s = state(vec![stored_doc("doc", "kb-a", 1)]);
    assert_eq!(told(&s, &doc, true, true), "Task lease lost before index commit");
    assert_eq!(told(&s, &doc, false, false), "Task lease lost before index commit");
    assert_eq!(
        told(&state(Vec::new()), &doc, false, true),
        "Document metadata was deleted before index commit"
    );
    let moved = stored_doc("doc", "kb-b", 1);
    assert_eq!(told(&s, &moved, false, true), "Knowledge base not found before index commit");
    let gone = state(vec![stored_doc("doc", "kb-b", 1)]);
    assert_eq!(told(&gone, &moved, false, true), "Knowledge base not found before index commit");
}

#[test]
fn deleted_documents_lose_their_tasks_and_their_file() {
    let s = state(Vec::new());
    let job = delete_document_data(&s, &stored_doc("doc", "kb-a", 1));
    let cleanup = job.cleanup();
    assert!(matches!(&cleanup[0], Cleanup::CancelTasks { doc_id } if doc_id == "doc"));
    assert!(matches!(
        &cleanup[1],
        Cleanup::RemoveFile { path } if path == "/srv/static/../uploads/sample.txt"
    ));
}

#[test]
fn index_errors_are_told_in_context() {
    assert_eq!(persist_index_change::<usize>(Ok(3)), Ok(3));
    assert_eq!(
        persist_index_change::<usize>(Err("no space".into())).unwrap_err(),
        "Failed to commit online search index: no space"
    );
    assert!(matches!(
        restore_index("/i", "why"),
        Undo::RestoreIndex { index_path, reason } if index_path == "/i" && reason == "why"
    ));
}
