//! Putting a parsed document into the search index, and taking a document out again.
//!
//! Both touch several stores, one after the other, and every store can fail. The
//! functions here say which store is written next and, once a write has failed, what
//! has to be put back and which error is reported. The caller performs the writes
//! under the commit lock and hands the outcomes back.

use crate::path;
use crate::state::{AppState, DocRecord};
use crate::text;
use vstd::prelude::*;

verus! {

/// A change to one of the stores.
#[derive(Debug)]
pub enum Write<S> {
    /// Put the new chunks of the document in place of its old ones, and save the index.
    ReplaceInIndex { doc_id: S },
    /// Take the chunks of the document out, and save the index.
    RemoveFromIndex { doc_id: S },
    /// Put the new graph of the document in place of its old one, or none.
    ReplaceGraph { doc_id: S },
    RemoveGraph { doc_id: S },
    /// Change the counts of a knowledge base.
    AddCounts { kb_id: S, chunks: isize, docs: isize },
    /// Record that the document is indexed.
    MarkIndexed { doc_id: S, content_hash: S, chunk_count: usize, message: S },
    DeleteMetadata { doc_id: S, kb_id: S },
    DeleteRecord { doc_id: S },
}

/// A change that puts back what was there before the first write. Its own outcome
/// changes nothing any more.
#[derive(Debug)]
pub enum Undo<S> {
    RestoreMetadata { doc_id: S, kb_id: S },
    RestoreGraphs,
    AddCounts { kb_id: S, chunks: isize, docs: isize },
    RestoreIndex { index_path: S, reason: S },
}

/// What happens next: another write, the end, or the way back.
#[derive(Debug)]
pub enum Step<S, U> {
    Perform(Write<S>),
    Finished,
    Abort { undo: U, error: S },
}

/// A write, over mathematical values.
pub type WriteView = Write<Seq<char>>;

/// A change that puts something back, over mathematical values.
pub type UndoView = Undo<Seq<char>>;

/// What happens next, over mathematical values.
pub type StepView = Step<Seq<char>, Seq<UndoView>>;

impl View for Write<String> {
    type V = WriteView;

    open spec fn view(&self) -> WriteView {
        match self {
            Write::ReplaceInIndex { doc_id } => Write::ReplaceInIndex { doc_id: doc_id@ },
            Write::RemoveFromIndex { doc_id } => Write::RemoveFromIndex { doc_id: doc_id@ },
            Write::ReplaceGraph { doc_id } => Write::ReplaceGraph { doc_id: doc_id@ },
            Write::RemoveGraph { doc_id } => Write::RemoveGraph { doc_id: doc_id@ },
            Write::AddCounts { kb_id, chunks, docs } => Write::AddCounts {
                kb_id: kb_id@,
                chunks: *chunks,
                docs: *docs,
            },
            Write::MarkIndexed { doc_id, content_hash, chunk_count, message } => Write::MarkIndexed {
                doc_id: doc_id@,
                content_hash: content_hash@,
                chunk_count: *chunk_count,
                message: message@,
            },
            Write::DeleteMetadata { doc_id, kb_id } => Write::DeleteMetadata {
                doc_id: doc_id@,
                kb_id: kb_id@,
            },
            Write::DeleteRecord { doc_id } => Write::DeleteRecord { doc_id: doc_id@ },
        }
    }
}

impl View for Undo<String> {
    type V = UndoView;

    open spec fn view(&self) -> UndoView {
        match self {
            Undo::RestoreMetadata { doc_id, kb_id } => Undo::RestoreMetadata {
                doc_id: doc_id@,
                kb_id: kb_id@,
            },
            Undo::RestoreGraphs => Undo::RestoreGraphs,
            Undo::AddCounts { kb_id, chunks, docs } => Undo::AddCounts {
                kb_id: kb_id@,
                chunks: *chunks,
                docs: *docs,
            },
            Undo::RestoreIndex { index_path, reason } => Undo::RestoreIndex {
                index_path: index_path@,
                reason: reason@,
            },
        }
    }
}

/// The views of a row of changes.
pub open spec fn undo_views(undo: Seq<Undo<String>>) -> Seq<UndoView> {
    undo.map_values(|u: Undo<String>| u@)
}

impl View for Step<String, Vec<Undo<String>>> {
    type V = StepView;

    open spec fn view(&self) -> StepView {
        match self {
            Step::Perform(write) => Step::Perform(write@),
            Step::Finished => Step::Finished,
            Step::Abort { undo, error } => Step::Abort {
                undo: undo_views(undo@),
                error: error@,
            },
        }
    }
}

// ── The index ───────────────────────────────────────────────────

/// The outcome of saving the index, as it is reported.
pub open spec fn index_saved<T>(outcome: Result<T, Seq<char>>) -> Result<T, Seq<char>> {
    match outcome {
        Ok(v) => Ok(v),
        Err(e) => Err("Failed to commit online search index: "@ + e),
    }
}

/// The outcome of saving the index, as it is reported.
pub fn persist_index_change<T>(outcome: Result<T, String>) -> (r: Result<T, String>)
    ensures
        text::outcome_view(r) == index_saved(text::outcome_view(outcome)),
{
    match outcome {
        Ok(v) => Ok(v),
        Err(e) => Err(text::concat("Failed to commit online search index: ", e.as_str())),
    }
}

/// The change that puts the whole index back.
pub fn restore_index(index_path: &str, reason: &str) -> (r: Undo<String>)
    ensures
        r@ == (Undo::RestoreIndex { index_path: index_path@, reason: reason@ }),
{
    Undo::RestoreIndex { index_path: index_path.to_owned(), reason: reason.to_owned() }
}

// ── Putting a document in ───────────────────────────────────────

/// A document that is being put into the index.
#[derive(Debug)]
pub struct CommitJob {
    pub doc_id: String,
    pub kb_id: String,
    pub content_hash: String,
    /// The number of chunks that the document had.
    pub old_count: usize,
    /// The number of chunks that it gets.
    pub new_count: usize,
    pub message: String,
    pub index_path: String,
}

impl CommitJob {
    /// The counts fit the number of things that fit into memory.
    pub open spec fn wf(&self) -> bool {
        self.old_count <= isize::MAX && self.new_count <= isize::MAX
    }

    /// By how much the number of chunks grows.
    pub open spec fn growth(&self) -> int {
        self.new_count - self.old_count
    }

    /// The index is put back for the given reason.
    pub open spec fn undo_index(&self, reason: Seq<char>) -> UndoView {
        Undo::RestoreIndex { index_path: self.index_path@, reason }
    }

    /// The first write.
    pub open spec fn first_write(&self) -> WriteView {
        Write::ReplaceInIndex { doc_id: self.doc_id@ }
    }

    /// What follows the change of the index.
    pub open spec fn index_step(&self, outcome: Result<(), Seq<char>>) -> StepView {
        match index_saved(outcome) {
            Ok(_) => Step::Perform(Write::ReplaceGraph { doc_id: self.doc_id@ }),
            Err(e) => Step::Abort { undo: Seq::empty(), error: e },
        }
    }

    /// What follows the change of the graph.
    pub open spec fn graph_step(&self, outcome: Result<(), Seq<char>>) -> StepView {
        match outcome {
            Ok(_) => Step::Perform(
                Write::AddCounts {
                    kb_id: self.kb_id@,
                    chunks: self.growth() as isize,
                    docs: 0,
                },
            ),
            Err(_) => Step::Abort {
                undo: seq![self.undo_index("Graph checkpoint update failed"@)],
                error: "Failed to update GraphRAG artifacts after index commit"@,
            },
        }
    }

    /// What follows the change of the counts.
    pub open spec fn counts_step(&self, outcome: Result<(), Seq<char>>) -> StepView {
        match outcome {
            Ok(_) => Step::Perform(
                Write::MarkIndexed {
                    doc_id: self.doc_id@,
                    content_hash: self.content_hash@,
                    chunk_count: self.new_count,
                    message: self.message@,
                },
            ),
            Err(_) => Step::Abort {
                undo: seq![
                    UndoView::RestoreGraphs,
                    self.undo_index("KB count update failed"@),
                ],
                error: "Failed to update KB counts after index commit"@,
            },
        }
    }

    /// What follows the change of the document's record: `false` means that there
    /// was no record.
    pub open spec fn record_step(&self, outcome: Result<bool, Seq<char>>) -> StepView {
        let back: UndoView = Undo::AddCounts {
            kb_id: self.kb_id@,
            chunks: (-self.growth()) as isize,
            docs: 0,
        };
        match outcome {
            Ok(true) => Step::Finished,
            Ok(false) => Step::Abort {
                undo: seq![
                    UndoView::RestoreGraphs,
                    back,
                    self.undo_index("Document metadata disappeared during commit"@),
                ],
                error: "Document metadata disappeared during index commit"@,
            },
            Err(_) => Step::Abort {
                undo: seq![
                    UndoView::RestoreGraphs,
                    back,
                    self.undo_index("Document metadata update failed"@),
                ],
                error: "Failed to mark document as indexed"@,
            },
        }
    }

    /// Where the commit begins.
    pub fn begin(&self) -> (r: Step<String, Vec<Undo<String>>>)
        ensures
            r@ == StepView::Perform(self.first_write()),
    {
        Step::Perform(Write::ReplaceInIndex { doc_id: self.doc_id.clone() })
    }

    /// What follows the change of the index.
    pub fn after_index(&self, outcome: Result<(), String>) -> (r: Step<String, Vec<Undo<String>>>)
        ensures
            r@ == self.index_step(text::outcome_view(outcome)),
    {
        match persist_index_change(outcome) {
            Ok(_) => Step::Perform(Write::ReplaceGraph { doc_id: self.doc_id.clone() }),
            Err(error) => {
                let undo: Vec<Undo<String>> = Vec::new();
                assert(undo_views(undo@) =~= Seq::<UndoView>::empty());
                Step::Abort { undo, error }
            },
        }
    }

    /// What follows the change of the graph.
    pub fn after_graph(&self, outcome: Result<(), String>) -> (r: Step<String, Vec<Undo<String>>>)
        requires
            self.wf(),
        ensures
            r@ == self.graph_step(text::outcome_view(outcome)),
    {
        match outcome {
            Ok(_) => Step::Perform(
                Write::AddCounts {
                    kb_id: self.kb_id.clone(),
                    chunks: self.new_count as isize - self.old_count as isize,
                    docs: 0,
                },
            ),
            Err(_) => {
                let undo = vec![
                    restore_index(self.index_path.as_str(), "Graph checkpoint update failed"),
                ];
                assert(undo_views(undo@) =~= self.graph_step(text::outcome_view(outcome))->undo);
                Step::Abort {
                    undo,
                    error: "Failed to update GraphRAG artifacts after index commit".to_owned(),
                }
            },
        }
    }

    /// What follows the change of the counts.
    pub fn after_counts(&self, outcome: Result<(), String>) -> (r: Step<String, Vec<Undo<String>>>)
        ensures
            r@ == self.counts_step(text::outcome_view(outcome)),
    {
        match outcome {
            Ok(_) => Step::Perform(
                Write::MarkIndexed {
                    doc_id: self.doc_id.clone(),
                    content_hash: self.content_hash.clone(),
                    chunk_count: self.new_count,
                    message: self.message.clone(),
                },
            ),
            Err(_) => {
                let undo = vec![
                    Undo::RestoreGraphs,
                    restore_index(self.index_path.as_str(), "KB count update failed"),
                ];
                assert(undo_views(undo@) =~= self.counts_step(text::outcome_view(outcome))->undo);
                Step::Abort {
                    undo,
                    error: "Failed to update KB counts after index commit".to_owned(),
                }
            },
        }
    }

    /// What follows the change of the document's record.
    pub fn after_record(&self, outcome: Result<bool, String>) -> (r: Step<
        String,
        Vec<Undo<String>>,
    >)
        requires
            self.wf(),
        ensures
            r@ == self.record_step(text::outcome_view(outcome)),
    {
        let (reason, error) = match outcome {
            Ok(true) => {
                return Step::Finished;
            },
            Ok(false) => (
                "Document metadata disappeared during commit",
                "Document metadata disappeared during index commit",
            ),
            Err(_) => ("Document metadata update failed", "Failed to mark document as indexed"),
        };
        let chunks: isize = self.old_count as isize - self.new_count as isize;
        let undo = vec![
            Undo::RestoreGraphs,
            Undo::AddCounts { kb_id: self.kb_id.clone(), chunks, docs: 0 },
            restore_index(self.index_path.as_str(), reason),
        ];
        assert(undo_views(undo@) =~= self.record_step(text::outcome_view(outcome))->undo);
        Step::Abort { undo, error: error.to_owned() }
    }
}

/// Why a parsed document may not be put into the index; nothing where it may.
pub open spec fn commit_refusal(
    state: AppState,
    doc: DocRecord,
    cancelled: bool,
    owns_lease: bool,
) -> Option<Seq<char>> {
    if cancelled || !owns_lease {
        Some("Task lease lost before index commit"@)
    } else {
        match state.doc(doc.id@) {
            None => Some("Document metadata was deleted before index commit"@),
            Some(current) => if current.kb_id@ != doc.kb_id@ || state.kb(doc.kb_id@) is None {
                Some("Knowledge base not found before index commit"@)
            } else {
                None
            },
        }
    }
}

/// The job puts the document of the state into the index, with so many chunks.
pub open spec fn is_commit_of(
    job: CommitJob,
    state: AppState,
    doc: DocRecord,
    new_count: usize,
    message: Seq<char>,
) -> bool {
    &&& job.doc_id@ == doc.id@
    &&& job.kb_id@ == doc.kb_id@
    &&& job.content_hash@ == doc.content_hash@
    &&& state.doc(doc.id@) is Some
    &&& job.old_count == state.doc(doc.id@)->Some_0.chunk_count
    &&& job.new_count == new_count
    &&& job.message@ == message
    &&& job.index_path@ == state.index_path@
}

/// Opens the commit of a document that was parsed into `new_count` chunks. The state
/// is what the stores hold under the commit lock.
pub fn commit_indexed_document(
    state: &AppState,
    doc: &DocRecord,
    cancelled: bool,
    owns_lease: bool,
    new_count: usize,
    message: &str,
) -> (r: Result<CommitJob, String>)
    ensures
        match commit_refusal(*state, *doc, cancelled, owns_lease) {
            Some(reason) => r matches Err(e) && e@ == reason,
            None => r matches Ok(job) && is_commit_of(job, *state, *doc, new_count, message@),
        },
{
    if cancelled || !owns_lease {
        return Err("Task lease lost before index commit".to_owned());
    }
    let current = match state.find_doc(doc.id.as_str()) {
        Some(current) => current,
        None => {
            return Err("Document metadata was deleted before index commit".to_owned());
        },
    };
    if !text::same(current.kb_id.as_str(), doc.kb_id.as_str()) || state.find_kb(
        doc.kb_id.as_str(),
    ).is_none() {
        return Err("Knowledge base not found before index commit".to_owned());
    }
    Ok(
        CommitJob {
            doc_id: doc.id.clone(),
            kb_id: doc.kb_id.clone(),
            content_hash: doc.content_hash.clone(),
            old_count: current.chunk_count,
            new_count,
            message: message.to_owned(),
            index_path: state.index_path.clone(),
        },
    )
}

// ── Taking a document out ───────────────────────────────────────

/// A document that is being deleted.
#[derive(Debug)]
pub struct DeleteJob {
    pub doc_id: String,
    pub kb_id: String,
    pub index_path: String,
    /// The path of the document's upload.
    pub path: String,
}

/// What is done once a document is gone. The outcomes change nothing any more.
#[derive(Debug)]
pub enum Cleanup<S> {
    CancelTasks { doc_id: S },
    /// Remove the file, where it exists.
    RemoveFile { path: S },
}

impl DeleteJob {
    /// The index is put back for the given reason.
    pub open spec fn undo_index(&self, reason: Seq<char>) -> UndoView {
        Undo::RestoreIndex { index_path: self.index_path@, reason }
    }

    /// The counts are put back.
    pub open spec fn undo_counts(&self, removed: usize) -> UndoView {
        Undo::AddCounts { kb_id: self.kb_id@, chunks: removed as isize, docs: 1 }
    }

    /// The first write.
    pub open spec fn first_write(&self) -> WriteView {
        Write::RemoveFromIndex { doc_id: self.doc_id@ }
    }

    /// What follows the change of the index. The outcome is the number of chunks
    /// that were taken out.
    pub open spec fn index_step(&self, outcome: Result<usize, Seq<char>>) -> StepView {
        match index_saved(outcome) {
            Ok(_) => Step::Perform(Write::RemoveGraph { doc_id: self.doc_id@ }),
            Err(e) => Step::Abort { undo: Seq::empty(), error: e },
        }
    }

    /// What follows the change of the graph.
    pub open spec fn graph_step(
        &self,
        removed: usize,
        outcome: Result<(), Seq<char>>,
    ) -> StepView {
        match outcome {
            Ok(_) => Step::Perform(
                Write::AddCounts { kb_id: self.kb_id@, chunks: (-removed) as isize, docs: (-1) as isize },
            ),
            Err(_) => Step::Abort {
                undo: seq![self.undo_index("Graph checkpoint deletion failed"@)],
                error: "Failed to delete GraphRAG document checkpoint"@,
            },
        }
    }

    /// What follows the change of the counts.
    pub open spec fn counts_step(&self, outcome: Result<(), Seq<char>>) -> StepView {
        match outcome {
            Ok(_) => Step::Perform(
                Write::DeleteMetadata { doc_id: self.doc_id@, kb_id: self.kb_id@ },
            ),
            Err(_) => Step::Abort {
                undo: seq![
                    UndoView::RestoreGraphs,
                    self.undo_index("KB count update failed during document deletion"@),
                ],
                error: "Failed to update KB counts during document deletion"@,
            },
        }
    }

    /// What follows the deletion of the document's metadata.
    pub open spec fn metadata_step(
        &self,
        removed: usize,
        outcome: Result<(), Seq<char>>,
    ) -> StepView {
        match outcome {
            Ok(_) => Step::Perform(Write::DeleteRecord { doc_id: self.doc_id@ }),
            Err(_) => Step::Abort {
                undo: seq![
                    UndoView::RestoreGraphs,
                    self.undo_counts(removed),
                    self.undo_index("Document metadata store deletion failed"@),
                ],
                error: "Failed to delete document-level metadata"@,
            },
        }
    }

    /// What follows the deletion of the document's record. `had_metadata` tells
    /// whether there was metadata to delete.
    pub open spec fn record_step(
        &self,
        removed: usize,
        had_metadata: bool,
        outcome: Result<bool, Seq<char>>,
    ) -> StepView {
        let metadata: Seq<UndoView> = if had_metadata {
            seq![Undo::RestoreMetadata { doc_id: self.doc_id@, kb_id: self.kb_id@ }]
        } else {
            Seq::empty()
        };
        match outcome {
            Ok(true) => Step::Finished,
            Ok(false) => Step::Abort {
                undo: metadata + seq![
                    UndoView::RestoreGraphs,
                    self.undo_counts(removed),
                    self.undo_index("Document metadata was already missing"@),
                ],
                error: "Document metadata was already deleted"@,
            },
            Err(_) => Step::Abort {
                undo: metadata + seq![
                    UndoView::RestoreGraphs,
                    self.undo_counts(removed),
                    self.undo_index("Document metadata deletion failed"@),
                ],
                error: "Failed to delete document metadata"@,
            },
        }
    }

    /// Where the deletion begins.
    pub fn begin(&self) -> (r: Step<String, Vec<Undo<String>>>)
        ensures
            r@ == StepView::Perform(self.first_write()),
    {
        Step::Perform(Write::RemoveFromIndex { doc_id: self.doc_id.clone() })
    }

    /// What follows the change of the index.
    pub fn after_index(&self, outcome: Result<usize, String>) -> (r: Step<
        String,
        Vec<Undo<String>>,
    >)
        ensures
            r@ == self.index_step(text::outcome_view(outcome)),
    {
        match persist_index_change(outcome) {
            Ok(_) => Step::Perform(Write::RemoveGraph { doc_id: self.doc_id.clone() }),
            Err(error) => {
                let undo: Vec<Undo<String>> = Vec::new();
                assert(undo_views(undo@) =~= Seq::<UndoView>::empty());
                Step::Abort { undo, error }
            },
        }
    }

    /// What follows the change of the graph.
    pub fn after_graph(&self, removed: usize, outcome: Result<(), String>) -> (r: Step<
        String,
        Vec<Undo<String>>,
    >)
        requires
            removed <= isize::MAX,
        ensures
            r@ == self.graph_step(removed, text::outcome_view(outcome)),
    {
        match outcome {
            Ok(_) => Step::Perform(
                Write::AddCounts {
                    kb_id: self.kb_id.clone(),
                    chunks: 0isize - removed as isize,
                    docs: -1,
                },
            ),
            Err(_) => {
                let undo = vec![
                    restore_index(self.index_path.as_str(), "Graph checkpoint deletion failed"),
                ];
                assert(undo_views(undo@) =~= self.graph_step(removed, text::outcome_view(outcome))->undo);
                Step::Abort {
                    undo,
                    error: "Failed to delete GraphRAG document checkpoint".to_owned(),
                }
            },
        }
    }

    /// What follows the change of the counts.
    pub fn after_counts(&self, outcome: Result<(), String>) -> (r: Step<String, Vec<Undo<String>>>)
        ensures
            r@ == self.counts_step(text::outcome_view(outcome)),
    {
        match outcome {
            Ok(_) => Step::Perform(
                Write::DeleteMetadata { doc_id: self.doc_id.clone(), kb_id: self.kb_id.clone() },
            ),
            Err(_) => {
                let undo = vec![
                    Undo::RestoreGraphs,
                    restore_index(
                        self.index_path.as_str(),
                        "KB count update failed during document deletion",
                    ),
                ];
                assert(undo_views(undo@) =~= self.counts_step(text::outcome_view(outcome))->undo);
                Step::Abort {
                    undo,
                    error: "Failed to update KB counts during document deletion".to_owned(),
                }
            },
        }
    }

    /// What follows the deletion of the document's metadata.
    pub fn after_metadata(&self, removed: usize, outcome: Result<(), String>) -> (r: Step<
        String,
        Vec<Undo<String>>,
    >)
        requires
            removed <= isize::MAX,
        ensures
            r@ == self.metadata_step(removed, text::outcome_view(outcome)),
    {
        match outcome {
            Ok(_) => Step::Perform(Write::DeleteRecord { doc_id: self.doc_id.clone() }),
            Err(_) => {
                let undo = vec![
                    Undo::RestoreGraphs,
                    Undo::AddCounts {
                        kb_id: self.kb_id.clone(),
                        chunks: removed as isize,
                        docs: 1,
                    },
                    restore_index(
                        self.index_path.as_str(),
                        "Document metadata store deletion failed",
                    ),
                ];
                assert(undo_views(undo@) =~= self.metadata_step(
                    removed,
                    text::outcome_view(outcome),
                )->undo);
                Step::Abort { undo, error: "Failed to delete document-level metadata".to_owned() }
            },
        }
    }

    /// What follows the deletion of the document's record.
    pub fn after_record(
        &self,
        removed: usize,
        had_metadata: bool,
        outcome: Result<bool, String>,
    ) -> (r: Step<String, Vec<Undo<String>>>)
        requires
            removed <= isize::MAX,
        ensures
            r@ == self.record_step(removed, had_metadata, text::outcome_view(outcome)),
    {
        let (reason, error) = match outcome {
            Ok(true) => {
                return Step::Finished;
            },
            Ok(false) => (
                "Document metadata was already missing",
                "Document metadata was already deleted",
            ),
            Err(_) => ("Document metadata deletion failed", "Failed to delete document metadata"),
        };
        let mut undo: Vec<Undo<String>> = Vec::new();
        if had_metadata {
            undo.push(
                Undo::RestoreMetadata { doc_id: self.doc_id.clone(), kb_id: self.kb_id.clone() },
            );
        }
        undo.push(Undo::RestoreGraphs);
        undo.push(
            Undo::AddCounts { kb_id: self.kb_id.clone(), chunks: removed as isize, docs: 1 },
        );
        undo.push(restore_index(self.index_path.as_str(), reason));
        assert(undo_views(undo@) =~= self.record_step(
            removed,
            had_metadata,
            text::outcome_view(outcome),
        )->undo);
        Step::Abort { undo, error: error.to_owned() }
    }

    /// What is done once the document is gone.
    pub fn cleanup(&self) -> (r: Vec<Cleanup<String>>)
        ensures
            r@.len() == 2,
            r@[0] matches Cleanup::CancelTasks { doc_id } && doc_id@ == self.doc_id@,
            r@[1] matches Cleanup::RemoveFile { path } && path@ == self.path@,
    {
        vec![
            Cleanup::CancelTasks { doc_id: self.doc_id.clone() },
            Cleanup::RemoveFile { path: self.path.clone() },
        ]
    }
}

/// Opens the deletion of a document.
pub fn delete_document_data(state: &AppState, doc: &DocRecord) -> (job: DeleteJob)
    ensures
        job.doc_id@ == doc.id@,
        job.kb_id@ == doc.kb_id@,
        job.index_path@ == state.index_path@,
        job.path@ == path::document_path(*state, *doc),
{
    DeleteJob {
        doc_id: doc.id.clone(),
        kb_id: doc.kb_id.clone(),
        index_path: state.index_path.clone(),
        path: path::document_storage_path(state, doc),
    }
}

// ── What the stores hold ────────────────────────────────────────

/// What the stores hold of documents: the chunks, graph, metadata and record of each
/// document, and the counts of each knowledge base. `C`, `G` and `M` stand for
/// whatever chunks, graphs and metadata are.
#[verifier::ext_equal]
#[verifier::reject_recursive_types(C)]
#[verifier::reject_recursive_types(G)]
#[verifier::reject_recursive_types(M)]
pub struct World<C, G, M> {
    pub index: Map<Seq<char>, C>,
    pub graphs: Map<Seq<char>, G>,
    pub chunk_counts: Map<Seq<char>, int>,
    pub doc_counts: Map<Seq<char>, int>,
    pub metadata: Map<Seq<char>, M>,
    /// The content hash and the number of chunks that a record tells.
    pub records: Map<Seq<char>, (Seq<char>, nat)>,
}

/// The counts with something added for one knowledge base.
pub open spec fn counted(counts: Map<Seq<char>, int>, kb: Seq<char>, change: int) -> Map<
    Seq<char>,
    int,
> {
    if counts.contains_key(kb) {
        counts.insert(kb, counts[kb] + change)
    } else {
        counts
    }
}

/// What the stores hold after a write that was carried out. `chunks` and `graph` are
/// what the document gets.
pub open spec fn written<C, G, M>(
    w: World<C, G, M>,
    write: WriteView,
    chunks: C,
    graph: Option<G>,
) -> World<C, G, M> {
    match write {
        Write::ReplaceInIndex { doc_id } => World { index: w.index.insert(doc_id, chunks), ..w },
        Write::RemoveFromIndex { doc_id } => World { index: w.index.remove(doc_id), ..w },
        Write::ReplaceGraph { doc_id } => World {
            graphs: match graph {
                Some(g) => w.graphs.insert(doc_id, g),
                None => w.graphs.remove(doc_id),
            },
            ..w
        },
        Write::RemoveGraph { doc_id } => World { graphs: w.graphs.remove(doc_id), ..w },
        Write::AddCounts { kb_id, chunks, docs } => World {
            chunk_counts: counted(w.chunk_counts, kb_id, chunks as int),
            doc_counts: counted(w.doc_counts, kb_id, docs as int),
            ..w
        },
        Write::MarkIndexed { doc_id, content_hash, chunk_count, .. } => World {
            records: w.records.insert(doc_id, (content_hash, chunk_count as nat)),
            ..w
        },
        Write::DeleteMetadata { doc_id, .. } => World { metadata: w.metadata.remove(doc_id), ..w },
        Write::DeleteRecord { doc_id } => World { records: w.records.remove(doc_id), ..w },
    }
}

/// What the stores hold after something was put back; `before` is what they held
/// before the first write.
pub open spec fn put_back<C, G, M>(
    w: World<C, G, M>,
    before: World<C, G, M>,
    undo: UndoView,
) -> World<C, G, M> {
    match undo {
        Undo::RestoreMetadata { doc_id, .. } => World {
            metadata: w.metadata.insert(doc_id, before.metadata[doc_id]),
            ..w
        },
        Undo::RestoreGraphs => World { graphs: before.graphs, ..w },
        Undo::AddCounts { kb_id, chunks, docs } => World {
            chunk_counts: counted(w.chunk_counts, kb_id, chunks as int),
            doc_counts: counted(w.doc_counts, kb_id, docs as int),
            ..w
        },
        Undo::RestoreIndex { .. } => World { index: before.index, ..w },
    }
}

/// What the stores hold after everything was put back, in order.
pub open spec fn all_put_back<C, G, M>(
    w: World<C, G, M>,
    before: World<C, G, M>,
    undo: Seq<UndoView>,
) -> World<C, G, M>
    decreases undo.len(),
{
    if undo.len() == 0 {
        w
    } else {
        put_back(all_put_back(w, before, undo.drop_last()), before, undo.last())
    }
}

/// A store that reports anything but success has changed nothing.
pub open spec fn attempted<C, G, M>(
    w: World<C, G, M>,
    write: WriteView,
    carried_out: bool,
    chunks: C,
    graph: Option<G>,
) -> World<C, G, M> {
    if carried_out {
        written(w, write, chunks, graph)
    } else {
        w
    }
}

/// The outcomes of the four writes of a commit. Those behind a failed one are not
/// looked at.
pub struct CommitOutcomes {
    pub index: Result<(), Seq<char>>,
    pub graph: Result<(), Seq<char>>,
    pub counts: Result<(), Seq<char>>,
    pub record: Result<bool, Seq<char>>,
}

/// A whole commit: what the stores hold afterwards, and the result.
pub open spec fn committed<C, G, M>(
    job: CommitJob,
    w: World<C, G, M>,
    chunks: C,
    graph: Option<G>,
    o: CommitOutcomes,
) -> (World<C, G, M>, Result<(), Seq<char>>) {
    let w1 = attempted(w, job.first_write(), o.index is Ok, chunks, graph);
    match job.index_step(o.index) {
        Step::Perform(second) => {
            let w2 = attempted(w1, second, o.graph is Ok, chunks, graph);
            match job.graph_step(o.graph) {
                Step::Perform(third) => {
                    let w3 = attempted(w2, third, o.counts is Ok, chunks, graph);
                    match job.counts_step(o.counts) {
                        Step::Perform(fourth) => {
                            let w4 = attempted(w3, fourth, o.record == Ok::<_, Seq<char>>(true), chunks, graph);
                            match job.record_step(o.record) {
                                Step::Abort { undo, error } => (
                                    all_put_back(w4, w, undo),
                                    Err(error),
                                ),
                                _ => (w4, Ok(())),
                            }
                        },
                        Step::Finished => (w3, Ok(())),
                        Step::Abort { undo, error } => (all_put_back(w3, w, undo), Err(error)),
                    }
                },
                Step::Finished => (w2, Ok(())),
                Step::Abort { undo, error } => (all_put_back(w2, w, undo), Err(error)),
            }
        },
        Step::Finished => (w1, Ok(())),
        Step::Abort { undo, error } => (all_put_back(w1, w, undo), Err(error)),
    }
}

/// A commit that fails leaves the index, the graphs, the counts, the metadata and the
/// records as they were, at whichever store it fails. A store that fails is taken to
/// have changed nothing, and what is put back to be put back.
pub proof fn failed_commit_restores_everything<C, G, M>(
    job: CommitJob,
    w: World<C, G, M>,
    chunks: C,
    graph: Option<G>,
    o: CommitOutcomes,
)
    requires
        job.wf(),
        committed(job, w, chunks, graph, o).1 is Err,
    ensures
        committed(job, w, chunks, graph, o).0 == w,
{
    reveal_with_fuel(all_put_back, 4);
    let after = committed(job, w, chunks, graph, o).0;
    assert(after.index =~= w.index);
    assert(after.graphs =~= w.graphs);
    assert(after.chunk_counts =~= w.chunk_counts);
    assert(after.doc_counts =~= w.doc_counts);
    assert(after =~= w);
}

/// A commit succeeds exactly where every store carries out its write. Then the
/// document has its new chunks, graph and record, its knowledge base counts them in
/// place of the old ones, and nothing else has changed.
pub proof fn successful_commit_changes_one_document<C, G, M>(
    job: CommitJob,
    w: World<C, G, M>,
    chunks: C,
    graph: Option<G>,
    o: CommitOutcomes,
)
    requires
        job.wf(),
        w.chunk_counts.contains_key(job.kb_id@),
        w.doc_counts.contains_key(job.kb_id@),
    ensures
        committed(job, w, chunks, graph, o).1 is Ok <==> o.index is Ok && o.graph is Ok
            && o.counts is Ok && o.record == Ok::<_, Seq<char>>(true),
        committed(job, w, chunks, graph, o).1 is Ok ==> committed(job, w, chunks, graph, o).0 == (
        World {
            index: w.index.insert(job.doc_id@, chunks),
            graphs: match graph {
                Some(g) => w.graphs.insert(job.doc_id@, g),
                None => w.graphs.remove(job.doc_id@),
            },
            chunk_counts: w.chunk_counts.insert(
                job.kb_id@,
                w.chunk_counts[job.kb_id@] + job.growth(),
            ),
            doc_counts: w.doc_counts,
            metadata: w.metadata,
            records: w.records.insert(job.doc_id@, (job.content_hash@, job.new_count as nat)),
        }),
{
    let after = committed(job, w, chunks, graph, o).0;
    if committed(job, w, chunks, graph, o).1 is Ok {
        assert(after.doc_counts =~= w.doc_counts);
    }
}

/// The chunk count of a knowledge base stays the sum of what it counts for the
/// committed document and of what it counts for the others: whatever happens, the
/// difference between the count and the document's own record does not move.
pub proof fn commit_keeps_counts_in_step<C, G, M>(
    job: CommitJob,
    w: World<C, G, M>,
    chunks: C,
    graph: Option<G>,
    o: CommitOutcomes,
)
    requires
        job.wf(),
        w.chunk_counts.contains_key(job.kb_id@),
        w.doc_counts.contains_key(job.kb_id@),
        w.records.contains_key(job.doc_id@),
        w.records[job.doc_id@].1 == job.old_count,
    ensures
        ({
            let after = committed(job, w, chunks, graph, o).0;
            after.chunk_counts[job.kb_id@] - after.records[job.doc_id@].1
                == w.chunk_counts[job.kb_id@] - w.records[job.doc_id@].1
        }),
{
    if committed(job, w, chunks, graph, o).1 is Ok {
        successful_commit_changes_one_document(job, w, chunks, graph, o);
    } else {
        failed_commit_restores_everything(job, w, chunks, graph, o);
    }
}

/// The outcomes of the five writes of a deletion.
pub struct DeleteOutcomes {
    /// The number of chunks that were taken out of the index.
    pub index: Result<usize, Seq<char>>,
    pub graph: Result<(), Seq<char>>,
    pub counts: Result<(), Seq<char>>,
    pub metadata: Result<(), Seq<char>>,
    pub record: Result<bool, Seq<char>>,
}

/// The last write of a deletion, and what follows.
pub open spec fn deleted_last<C, G, M>(
    job: DeleteJob,
    removed: usize,
    before: World<C, G, M>,
    w: World<C, G, M>,
    write: WriteView,
    outcome: Result<bool, Seq<char>>,
) -> (World<C, G, M>, Result<(), Seq<char>>) {
    let w5 = attempted(
        w,
        write,
        outcome == Ok::<_, Seq<char>>(true),
        arbitrary(),
        None,
    );
    match job.record_step(removed, before.metadata.contains_key(job.doc_id@), outcome) {
        Step::Abort { undo, error } => (all_put_back(w5, before, undo), Err(error)),
        _ => (w5, Ok(())),
    }
}

/// A whole deletion: what the stores hold afterwards, and the result.
pub open spec fn deleted<C, G, M>(job: DeleteJob, w: World<C, G, M>, o: DeleteOutcomes) -> (
    World<C, G, M>,
    Result<(), Seq<char>>,
) {
    let w1 = attempted(w, job.first_write(), o.index is Ok, arbitrary(), None);
    let removed = o.index->Ok_0;
    match job.index_step(o.index) {
        Step::Perform(second) => {
            let w2 = attempted(w1, second, o.graph is Ok, arbitrary(), None);
            match job.graph_step(removed, o.graph) {
                Step::Perform(third) => {
                    let w3 = attempted(w2, third, o.counts is Ok, arbitrary(), None);
                    match job.counts_step(o.counts) {
                        Step::Perform(fourth) => {
                            let w4 = attempted(w3, fourth, o.metadata is Ok, arbitrary(), None);
                            match job.metadata_step(removed, o.metadata) {
                                Step::Perform(fifth) => deleted_last(
                                    job,
                                    removed,
                                    w,
                                    w4,
                                    fifth,
                                    o.record,
                                ),
                                Step::Finished => (w4, Ok(())),
                                Step::Abort { undo, error } => (
                                    all_put_back(w4, w, undo),
                                    Err(error),
                                ),
                            }
                        },
                        Step::Finished => (w3, Ok(())),
                        Step::Abort { undo, error } => (all_put_back(w3, w, undo), Err(error)),
                    }
                },
                Step::Finished => (w2, Ok(())),
                Step::Abort { undo, error } => (all_put_back(w2, w, undo), Err(error)),
            }
        },
        Step::Finished => (w1, Ok(())),
        Step::Abort { undo, error } => (all_put_back(w1, w, undo), Err(error)),
    }
}

/// A deletion that fails leaves everything as it was, at whichever store it fails. A
/// store that fails is taken to have changed nothing, and what is put back to be put
/// back.
pub proof fn failed_deletion_restores_everything<C, G, M>(
    job: DeleteJob,
    w: World<C, G, M>,
    o: DeleteOutcomes,
)
    requires
        o.index matches Ok(removed) ==> removed <= isize::MAX,
        deleted(job, w, o).1 is Err,
    ensures
        deleted(job, w, o).0 == w,
{
    reveal_with_fuel(all_put_back, 5);
    let after = deleted(job, w, o).0;
    assert(after.index =~= w.index);
    assert(after.graphs =~= w.graphs);
    assert(after.chunk_counts =~= w.chunk_counts);
    assert(after.doc_counts =~= w.doc_counts);
    assert(after.metadata =~= w.metadata);
    assert(after =~= w);
}

/// A deletion succeeds exactly where every store carries out its write. Then nothing
/// of the document is left, its knowledge base counts neither it nor its chunks, and
/// nothing else has changed.
pub proof fn successful_deletion_removes_one_document<C, G, M>(
    job: DeleteJob,
    w: World<C, G, M>,
    o: DeleteOutcomes,
)
    requires
        o.index matches Ok(removed) ==> removed <= isize::MAX,
        w.chunk_counts.contains_key(job.kb_id@),
        w.doc_counts.contains_key(job.kb_id@),
    ensures
        deleted(job, w, o).1 is Ok <==> o.index is Ok && o.graph is Ok && o.counts is Ok
            && o.metadata is Ok && o.record == Ok::<_, Seq<char>>(true),
        deleted(job, w, o).1 is Ok ==> deleted(job, w, o).0 == (World {
            index: w.index.remove(job.doc_id@),
            graphs: w.graphs.remove(job.doc_id@),
            chunk_counts: w.chunk_counts.insert(
                job.kb_id@,
                w.chunk_counts[job.kb_id@] - o.index->Ok_0,
            ),
            doc_counts: w.doc_counts.insert(job.kb_id@, w.doc_counts[job.kb_id@] - 1),
            metadata: w.metadata.remove(job.doc_id@),
            records: w.records.remove(job.doc_id@),
        }),
{
}

// ── Laws ────────────────────────────────────────────────────────

/// An error of the index is told as such; a success stays what it is.
pub proof fn index_errors_are_told_as_such<T>(outcome: Result<T, String>, r: Result<T, String>)
    requires
        call_ensures(persist_index_change::<T>, (outcome,), r),
    ensures
        outcome matches Ok(v) ==> r == Ok::<T, String>(v),
        outcome matches Err(e) ==> (r matches Err(told) && told@
            == "Failed to commit online search index: "@ + e@),
{
}

/// A document is put into the index by the worker that holds it and was not cancelled,
/// where its record and its knowledge base are there still and belong together. The
/// commit carries what the document is, and the number of chunks that its record has.
pub proof fn commits_need_the_document_and_its_base(
    state: AppState,
    doc: DocRecord,
    cancelled: bool,
    owns_lease: bool,
    new_count: usize,
    message: &str,
    r: Result<CommitJob, String>,
    current: DocRecord,
)
    requires
        call_ensures(
            commit_indexed_document,
            (&state, &doc, cancelled, owns_lease, new_count, message),
            r,
        ),
    ensures
        cancelled || !owns_lease ==> (r matches Err(e) && e@
            == "Task lease lost before index commit"@),
        !cancelled && owns_lease && state.doc(doc.id@) is None ==> (r matches Err(e) && e@
            == "Document metadata was deleted before index commit"@),
        !cancelled && owns_lease && state.doc(doc.id@) == Some(current) && (current.kb_id@
            != doc.kb_id@ || state.kb(doc.kb_id@) is None) ==> (r matches Err(e) && e@
            == "Knowledge base not found before index commit"@),
        !cancelled && owns_lease && state.doc(doc.id@) == Some(current) && current.kb_id@
            == doc.kb_id@ && state.kb(doc.kb_id@) is Some ==> (r matches Ok(job) && job.doc_id@
            == doc.id@ && job.kb_id@ == doc.kb_id@ && job.content_hash@ == doc.content_hash@
            && job.old_count == current.chunk_count && job.new_count == new_count && job.message@
            == message@ && job.index_path@ == state.index_path@),
{
}

/// A commit writes the index, the graph, the counts and the record, in this order; a
/// store that fails ends it with what has to be put back and the reason.
pub proof fn commits_write_store_by_store(
    job: CommitJob,
    first: Step<String, Vec<Undo<String>>>,
    index: Result<(), String>,
    second: Step<String, Vec<Undo<String>>>,
    graph: Result<(), String>,
    third: Step<String, Vec<Undo<String>>>,
    counts: Result<(), String>,
    fourth: Step<String, Vec<Undo<String>>>,
    record: Result<bool, String>,
    last: Step<String, Vec<Undo<String>>>,
)
    requires
        job.wf(),
        call_ensures(CommitJob::begin, (&job,), first),
        call_ensures(CommitJob::after_index, (&job, index), second),
        call_ensures(CommitJob::after_graph, (&job, graph), third),
        call_ensures(CommitJob::after_counts, (&job, counts), fourth),
        call_ensures(CommitJob::after_record, (&job, record), last),
    ensures
        first@ == StepView::Perform(Write::ReplaceInIndex { doc_id: job.doc_id@ }),
        index is Ok ==> second@ == StepView::Perform(Write::ReplaceGraph { doc_id: job.doc_id@ }),
        index matches Err(e) ==> second@ == (StepView::Abort {
            undo: Seq::empty(),
            error: "Failed to commit online search index: "@ + e@,
        }),
        graph is Ok ==> third@ == StepView::Perform(
            Write::AddCounts {
                kb_id: job.kb_id@,
                chunks: (job.new_count - job.old_count) as isize,
                docs: 0,
            },
        ),
        graph is Err ==> third@ == (StepView::Abort {
            undo: seq![
                Undo::RestoreIndex {
                    index_path: job.index_path@,
                    reason: "Graph checkpoint update failed"@,
                },
            ],
            error: "Failed to update GraphRAG artifacts after index commit"@,
        }),
        counts is Ok ==> fourth@ == StepView::Perform(
            Write::MarkIndexed {
                doc_id: job.doc_id@,
                content_hash: job.content_hash@,
                chunk_count: job.new_count,
                message: job.message@,
            },
        ),
        counts is Err ==> fourth@ == (StepView::Abort {
            undo: seq![
                Undo::RestoreGraphs,
                Undo::RestoreIndex {
                    index_path: job.index_path@,
                    reason: "KB count update failed"@,
                },
            ],
            error: "Failed to update KB counts after index commit"@,
        }),
        record matches Ok(true) ==> last@ is Finished,
        record matches Ok(false) ==> last@ == (StepView::Abort {
            undo: seq![
                Undo::RestoreGraphs,
                Undo::AddCounts {
                    kb_id: job.kb_id@,
                    chunks: (job.old_count - job.new_count) as isize,
                    docs: 0,
                },
                Undo::RestoreIndex {
                    index_path: job.index_path@,
                    reason: "Document metadata disappeared during commit"@,
                },
            ],
            error: "Document metadata disappeared during index commit"@,
        }),
        record is Err ==> last@ == (StepView::Abort {
            undo: seq![
                Undo::RestoreGraphs,
                Undo::AddCounts {
                    kb_id: job.kb_id@,
                    chunks: (job.old_count - job.new_count) as isize,
                    docs: 0,
                },
                Undo::RestoreIndex {
                    index_path: job.index_path@,
                    reason: "Document metadata update failed"@,
                },
            ],
            error: "Failed to mark document as indexed"@,
        }),
{
    assert(-job.growth() == job.old_count - job.new_count);
}

/// A deletion is opened for the document itself: its knowledge base, the index, and the
/// place of its upload. Once it is gone its tasks are cancelled and its file is removed.
pub proof fn deletions_are_opened_for_the_document(
    state: AppState,
    doc: DocRecord,
    job: DeleteJob,
    place: String,
    after: Vec<Cleanup<String>>,
    index_path: &str,
    reason: &str,
    undo: Undo<String>,
)
    requires
        call_ensures(delete_document_data, (&state, &doc), job),
        call_ensures(path::document_storage_path, (&state, &doc), place),
        call_ensures(DeleteJob::cleanup, (&job,), after),
        call_ensures(restore_index, (index_path, reason), undo),
    ensures
        job.doc_id@ == doc.id@,
        job.kb_id@ == doc.kb_id@,
        job.index_path@ == state.index_path@,
        job.path@ == place@,
        after@.len() == 2,
        after@[0] matches Cleanup::CancelTasks { doc_id } && doc_id@ == doc.id@,
        after@[1] matches Cleanup::RemoveFile { path } && path@ == place@,
        undo@ == (UndoView::RestoreIndex { index_path: index_path@, reason: reason@ }),
{
}

/// A deletion takes the document out of the index, the graph, the counts, the metadata
/// and the records, in this order; a store that fails ends it with what has to be put
/// back and the reason.
pub proof fn deletions_write_store_by_store(
    job: DeleteJob,
    first: Step<String, Vec<Undo<String>>>,
    index: Result<usize, String>,
    second: Step<String, Vec<Undo<String>>>,
    removed: usize,
    graph: Result<(), String>,
    third: Step<String, Vec<Undo<String>>>,
    counts: Result<(), String>,
    fourth: Step<String, Vec<Undo<String>>>,
    metadata: Result<(), String>,
    fifth: Step<String, Vec<Undo<String>>>,
)
    requires
        removed <= isize::MAX,
        call_ensures(DeleteJob::begin, (&job,), first),
        call_ensures(DeleteJob::after_index, (&job, index), second),
        call_ensures(DeleteJob::after_graph, (&job, removed, graph), third),
        call_ensures(DeleteJob::after_counts, (&job, counts), fourth),
        call_ensures(DeleteJob::after_metadata, (&job, removed, metadata), fifth),
    ensures
        first@ == StepView::Perform(Write::RemoveFromIndex { doc_id: job.doc_id@ }),
        index is Ok ==> second@ == StepView::Perform(Write::RemoveGraph { doc_id: job.doc_id@ }),
        index matches Err(e) ==> second@ == (StepView::Abort {
            undo: Seq::empty(),
            error: "Failed to commit online search index: "@ + e@,
        }),
        graph is Ok ==> third@ == StepView::Perform(
            Write::AddCounts {
                kb_id: job.kb_id@,
                chunks: (-removed) as isize,
                docs: (-1) as isize,
            },
        ),
        graph is Err ==> third@ == (StepView::Abort {
            undo: seq![
                Undo::RestoreIndex {
                    index_path: job.index_path@,
                    reason: "Graph checkpoint deletion failed"@,
                },
            ],
            error: "Failed to delete GraphRAG document checkpoint"@,
        }),
        counts is Ok ==> fourth@ == StepView::Perform(
            Write::DeleteMetadata { doc_id: job.doc_id@, kb_id: job.kb_id@ },
        ),
        counts is Err ==> fourth@ == (StepView::Abort {
            undo: seq![
                Undo::RestoreGraphs,
                Undo::RestoreIndex {
                    index_path: job.index_path@,
                    reason: "KB count update failed during document deletion"@,
                },
            ],
            error: "Failed to update KB counts during document deletion"@,
        }),
        metadata is Ok ==> fifth@ == StepView::Perform(Write::DeleteRecord { doc_id: job.doc_id@ }),
        metadata is Err ==> fifth@ == (StepView::Abort {
            undo: seq![
                Undo::RestoreGraphs,
                Undo::AddCounts { kb_id: job.kb_id@, chunks: removed as isize, docs: 1 },
                Undo::RestoreIndex {
                    index_path: job.index_path@,
                    reason: "Document metadata store deletion failed"@,
                },
            ],
            error: "Failed to delete document-level metadata"@,
        }),
{
}

/// The deletion of the record ends a deletion. Where it fails, or the record is gone
/// already, the metadata come back first where there were any, and then the graphs, the
/// counts and the index.
pub proof fn deletions_end_with_the_record(
    job: DeleteJob,
    removed: usize,
    had_metadata: bool,
    record: Result<bool, String>,
    last: Step<String, Vec<Undo<String>>>,
    reason: Seq<char>,
    error: Seq<char>,
)
    requires
        removed <= isize::MAX,
        call_ensures(DeleteJob::after_record, (&job, removed, had_metadata, record), last),
        record matches Ok(false) ==> reason == "Document metadata was already missing"@ && error
            == "Document metadata was already deleted"@,
        record is Err ==> reason == "Document metadata deletion failed"@ && error
            == "Failed to delete document metadata"@,
    ensures
        record matches Ok(true) ==> last@ is Finished,
        !(record matches Ok(true)) && had_metadata ==> last@ == (StepView::Abort {
            undo: seq![
                Undo::RestoreMetadata { doc_id: job.doc_id@, kb_id: job.kb_id@ },
                Undo::RestoreGraphs,
                Undo::AddCounts { kb_id: job.kb_id@, chunks: removed as isize, docs: 1 },
                Undo::RestoreIndex { index_path: job.index_path@, reason },
            ],
            error,
        }),
        !(record matches Ok(true)) && !had_metadata ==> last@ == (StepView::Abort {
            undo: seq![
                Undo::RestoreGraphs,
                Undo::AddCounts { kb_id: job.kb_id@, chunks: removed as isize, docs: 1 },
                Undo::RestoreIndex { index_path: job.index_path@, reason },
            ],
            error,
        }),
{
    let metadata: Seq<UndoView> = if had_metadata {
        seq![Undo::RestoreMetadata { doc_id: job.doc_id@, kb_id: job.kb_id@ }]
    } else {
        Seq::empty()
    };
    let rest: Seq<UndoView> = seq![
        UndoView::RestoreGraphs,
        Undo::AddCounts { kb_id: job.kb_id@, chunks: removed as isize, docs: 1 },
        Undo::RestoreIndex { index_path: job.index_path@, reason },
    ];
    if had_metadata {
        assert(metadata + rest =~= seq![
            Undo::RestoreMetadata { doc_id: job.doc_id@, kb_id: job.kb_id@ },
            Undo::RestoreGraphs,
            Undo::AddCounts { kb_id: job.kb_id@, chunks: removed as isize, docs: 1 },
            Undo::RestoreIndex { index_path: job.index_path@, reason },
        ]);
    } else {
        assert(metadata + rest =~= rest);
    }
}

} // verus!
