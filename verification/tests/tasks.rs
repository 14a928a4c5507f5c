use rayrag_server::json::Json;
use rayrag_server::models::ModelSource;
use rayrag_server::state::{AppState, DocRecord, KnowledgeBase};
use rayrag_server::tasks::{
    dispatch_pending_document_tasks, dispatch_turn, document_executor_handler, executor_start,
    failed_report, indexed_text, kb_parser_id, parser_or_default, plan_parse, process_document, retry_text,
    retryable_processing_error, Dispatch, DocAction, DocEvent, DocPhase, DocStage, Slot, Turn,
};

fn kb(parser_config: &str) -> KnowledgeBase {
    KnowledgeBase {
        id: "kb".into(),
        owner_id: "owner".into(),
        permission: "me".into(),
        embd_id: String::new(),
        parser_config: parser_config.into(),
        prompt_config: Json::Null,
        chunk_count: 0,
        doc_count: 0,
    }
}

fn state(embedder: bool) -> AppState {
    AppState {
        static_dir: String::new(),
        port: 9380,
        users: Vec::new(),
        kbs: vec![kb(r#"{"chunk_method":"qa"}"#)],
        tenants: Vec::new(),
        llm: false,
        embedder,
        reranker: false,
        index_path: String::new(),
        model_path: String::new(),
        max_upload_bytes: 1024,
        docs: Vec::new(),
        search_apps: None,
        tenant_models: Vec::new(),
        memories: Vec::new(),
        register_enabled: 1,
        disable_password_login: false,
    }
}

fn doc(kb_id: &str) -> DocRecord {
    DocRecord {
        id: "doc".into(),
        name: "a.txt".into(),
        kb_id: kb_id.into(),
        size: 1,
        storage_name: String::new(),
        content_hash: String::new(),
        indexed_content_hash: String::new(),
        run: "UNSTARTED".into(),
        progress: 0,
        progress_msg: String::new(),
        chunk_count: 0,
        created_at: 0,
        updated_at: 0,
    }
}

/// Runs a worker through the events and tells what it does, one line for each action.
fn run(events: Vec<DocEvent<String>>) -> (DocStage<String>, Vec<String>) {
    let mut stage = DocStage::Start;
    let mut told = Vec::new();
    for event in events {
        let (next, actions) = process_document(stage, event);
        stage = next;
        told.extend(actions.iter().map(describe));
    }
    (stage, told)
}

fn describe(action: &DocAction<String>) -> String {
    match action {
        DocAction::Claim { lease_ms, message } => format!("claim {lease_ms} {message}"),
        DocAction::UpdateDocument { run, progress, message } => {
            format!("doc {run} {progress} {message}")
        }
        DocAction::RecordRun { status, error } => format!("log {status} {error}"),
        DocAction::RenewLease { lease_ms } => format!("renew {lease_ms}"),
        DocAction::Commit { message } => format!("commit {message}"),
        DocAction::UpdateTask { status, progress, message } => {
            format!("task {status} {progress} {message}")
        }
        other => format!("{other:?}"),
    }
}

fn failing(error: &str, cancelled: bool, can_retry: bool) -> Vec<String> {
    let (_, told) = run(vec![
        DocEvent::Begun { cancelled: false },
        DocEvent::Claimed(Ok(Some(3))),
        DocEvent::Prepared(Err(error.to_string())),
        DocEvent::Ending { cancelled, can_retry },
        DocEvent::TaskUpdated(Ok(true)),
    ]);
    told[3..].to_vec()
}

#[test]
fn a_document_task_runs_to_its_end() {
    let (stage, told) = run(vec![
        DocEvent::Begun { cancelled: false },
        DocEvent::Claimed(Ok(Some(1))),
        DocEvent::Prepared(Ok(())),
        DocEvent::Heartbeat(Ok(true)),
        DocEvent::Parsed(Ok(())),
        DocEvent::Checked { cancelled: false, owns_lease: true, all_embedded: true },
        DocEvent::Assembled(Ok(12)),
        DocEvent::Rechecked { cancelled: false },
        DocEvent::Renewed(Ok(true)),
        DocEvent::Committed(Ok(())),
    ]);
    assert!(matches!(stage, DocStage::Stopped));
    assert_eq!(
        told,
        [
            "claim 30000 Parsing document",
            "doc RUNNING 5 Parsing document",
            "Prepare",
            "Parse",
            "log done ",
            "CheckLease",
            "Assemble",
            "CheckCancelled",
            "renew 120000",
            "commit Indexed 12 chunks",
            "task done 100 Indexed 12 chunks",
        ]
    );
}

#[test]
fn failed_documents_are_retried_or_closed() {
    assert_eq!(
        failing("timeout", false, true),
        [
            "AskEnding",
            "task pending 0 Attempt 3 failed: timeout; retrying",
            "doc UNSTARTED 0 Attempt 3 failed: timeout; retrying",
        ]
    );
    assert_eq!(
        failing("timeout", false, false),
        ["AskEnding", "task failed 100 timeout", "doc FAILED 100 timeout"]
    );
    assert_eq!(
        failing("Knowledge base not found", false, true),
        [
            "AskEnding",
            "task failed 100 Knowledge base not found",
            "doc FAILED 100 Knowledge base not found",
        ]
    );
    assert_eq!(
        failing("timeout", true, true),
        [
            "AskEnding",
            "task cancelled 100 Processing cancelled",
            "doc CANCELLED 100 Processing cancelled",
        ]
    );
}

#[test]
fn workers_without_a_lease_leave_the_document_alone() {
    let (stage, told) = run(vec![DocEvent::Begun { cancelled: true }]);
    assert!(matches!(stage, DocStage::Stopped));
    assert_eq!(told, ["doc CANCELLED 100 Processing cancelled"]);
    for claimed in [Ok(None), Err("io".to_string())] {
        let (stage, told) =
            run(vec![DocEvent::Begun { cancelled: false }, DocEvent::Claimed(claimed)]);
        assert!(matches!(stage, DocStage::Stopped));
        assert_eq!(told.len(), 1);
    }
    let reporting = DocStage::Reporting {
        run: "FAILED".to_string(),
        progress: 100,
        message: "m".to_string(),
    };
    let (stage, actions) = process_document(reporting, DocEvent::TaskUpdated(Ok(false)));
    assert!(matches!(stage, DocStage::Stopped));
    assert!(actions.is_empty());
}

#[test]
fn faults_on_the_way_fail_the_document_task() {
    let error = |phase: DocPhase, event: DocEvent<String>| {
        match process_document(DocStage::Working { attempt: 1, phase }, event) {
            (DocStage::Failing { error, .. }, actions) => {
                assert!(matches!(actions.last(), Some(DocAction::AskEnding)));
                error
            }
            other => panic!("{other:?}"),
        }
    };
    let checked = |cancelled, owns_lease, all_embedded| DocEvent::Checked {
        cancelled,
        owns_lease,
        all_embedded,
    };
    assert_eq!(error(DocPhase::Checking, checked(true, false, false)), "Processing cancelled");
    assert_eq!(error(DocPhase::Checking, checked(false, false, false)), "Task lease lost");
    assert_eq!(
        error(DocPhase::Checking, checked(false, true, false)),
        "Embedding did not produce vectors for every chunk"
    );
    assert_eq!(error(DocPhase::Parsing, DocEvent::Heartbeat(Ok(false))), "Task lease lost");
    assert_eq!(
        error(DocPhase::Parsing, DocEvent::Heartbeat(Err("io".into()))),
        "Failed to renew task lease"
    );
    assert_eq!(error(DocPhase::Parsing, DocEvent::Parsed(Err("bad pdf".into()))), "bad pdf");
    assert_eq!(
        error(DocPhase::Rechecking(1), DocEvent::Rechecked { cancelled: true }),
        "Processing cancelled"
    );
    assert_eq!(
        error(DocPhase::Renewing(1), DocEvent::Renewed(Ok(false))),
        "Task lease lost before index commit"
    );
    assert_eq!(error(DocPhase::Committing(1), DocEvent::Committed(Err("c".into()))), "c");
}

#[test]
fn processing_errors_that_somebody_has_to_mend_are_final() {
    for message in [
        "Embedding is not configured",
        "Requested embedding model x",
        "Global embedding model is not configured",
        "Provider is disabled: p",
        "Knowledge base not found: kb",
        "Uploaded file is missing",
        "Invalid upload path",
        "Invalid parser configuration: eof",
        "Processing cancelled",
    ] {
        assert!(!retryable_processing_error(message), "{message}");
    }
    assert!(retryable_processing_error("Embedding model timed out"));
    assert!(retryable_processing_error("Task lease lost"));
    assert_eq!(retry_text(2, "x"), "Attempt 2 failed: x; retrying");
    assert_eq!(indexed_text(0), "Indexed 0 chunks");
}

#[test]
fn parsers_come_from_the_settings_of_the_base() {
    assert_eq!(kb_parser_id(&kb(r#"{"chunk_method":"qa"}"#)), "qa");
    assert_eq!(kb_parser_id(&kb(r#"{"chunk_method":3}"#)), "naive");
    assert_eq!(kb_parser_id(&kb("{}")), "naive");
    assert_eq!(kb_parser_id(&kb("not json")), "naive");
    assert_eq!(kb_parser_id(&kb(r#"["chunk_method"]"#)), "naive");
    assert_eq!(parser_or_default(Some("book".into())), "book");
    assert_eq!(parser_or_default(None), "naive");
}

#[test]
fn parses_need_a_base_settings_and_an_embedder() {
    assert_eq!(
        plan_parse(&state(true), &doc("none"), Ok(())).unwrap_err(),
        "Knowledge base not found"
    );
    assert_eq!(
        plan_parse(&state(true), &doc("kb"), Err("eof".into())).unwrap_err(),
        "Invalid parser configuration: eof"
    );
    assert_eq!(
        plan_parse(&state(false), &doc("kb"), Ok(())).unwrap_err(),
        "Embedding is not configured"
    );
    let s = state(true);
    let plan = plan_parse(&s, &doc("kb"), Ok(())).unwrap();
    assert_eq!((plan.owner_id.as_str(), plan.parser_id.as_str()), ("owner", "qa"));
    assert!(matches!(plan.embedder, ModelSource::Global));
    assert!(plan.vision.is_none());
}

#[test]
fn failed_runs_are_reported_by_the_parser() {
    let stages = failed_report("PDF is encrypted");
    assert_eq!(stages.len(), 1);
    let stage = &stages[0];
    assert_eq!(
        (stage.id.as_str(), stage.component.as_str(), stage.title.as_str()),
        ("parser", "Parser", "Parser")
    );
    assert_eq!(f64::from_bits(stage.elapsed_seconds), 0.0);
    let output = |name: &str, key: &str| stage.outputs.get(name).unwrap().text(key);
    assert_eq!(output("output_format", "type"), Some("string"));
    assert_eq!(output("output_format", "value"), Some("text"));
    assert_eq!(output("text", "type"), Some("string"));
    assert_eq!(output("text", "value"), Some("PDF is encrypted"));
    assert_eq!(output("_elapsed_time", "type"), Some("number"));
    let elapsed = stage.outputs.get("_elapsed_time").unwrap().get("value").unwrap();
    assert!(matches!(elapsed, Json::Real(bits) if f64::from_bits(*bits) == 0.0));
}

#[test]
fn executors_report_how_the_task_ended() {
    assert_eq!(executor_start(false, false).unwrap_err(), "Document metadata is missing");
    assert_eq!(executor_start(true, false).unwrap_err(), "Uploaded file is missing");
    let start = executor_start(true, true).unwrap();
    assert_eq!((start.progress, start.message.as_str()), (5, "Parsing document"));
    for status in ["done", "pending", "running"] {
        assert_eq!(document_executor_handler(Some(status)), Ok(()));
    }
    assert_eq!(
        document_executor_handler(Some("cancelled")).unwrap_err(),
        "Processing cancelled"
    );
    assert_eq!(
        document_executor_handler(Some("failed")).unwrap_err(),
        "Document processing failed: failed"
    );
    assert_eq!(document_executor_handler(None).unwrap_err(), "Document processing failed: ");
}

#[test]
fn waiting_tasks_are_dispatched_by_their_type() {
    let close = |kind: &str, doc: bool, file: bool| {
        match dispatch_pending_document_tasks(kind, doc, file) {
            Dispatch::Close { status, progress, message } => {
                assert_eq!(progress, 100, "{kind}");
                format!("{status}: {message}")
            }
            other => format!("{other:?}"),
        }
    };
    assert_eq!(close("memory", false, false), "RunMemory");
    assert_eq!(close("document_parse", true, true), "RunDocument");
    assert_eq!(
        close("document_parse", false, false),
        "failed: Cannot recover task because document metadata is missing"
    );
    assert_eq!(
        close("document_parse", true, false),
        "failed: Cannot recover task because uploaded file is missing"
    );
    assert_eq!(close("mindmap", true, true), "done: place holder");
    assert_eq!(
        close("skill", true, true),
        "failed: Skill generation requires the refactored task executor (TE_RUN_MODE=0)."
    );
    assert_eq!(
        close("raptor", true, true),
        "done: already built inline during document parsing: raptor"
    );
    assert_eq!(
        close("graphrag", true, true),
        "done: already built inline during document parsing: graphrag"
    );
    assert_eq!(close("artifact", true, true), "failed: Unsupported persisted task type");
}

#[test]
fn dispatch_passes_end_without_a_slot() {
    assert!(matches!(dispatch_turn(Slot::Taken, true, "memory", true, true), Turn::Stop));
    assert!(matches!(dispatch_turn(Slot::Closed, true, "memory", true, true), Turn::Stop));
    assert!(matches!(dispatch_turn(Slot::Free, false, "memory", true, true), Turn::Skip));
    assert!(matches!(
        dispatch_turn(Slot::Free, true, "memory", true, true),
        Turn::Act { dispatch: Dispatch::RunMemory, keeps_slot: true }
    ));
    assert!(matches!(
        dispatch_turn(Slot::Free, true, "mindmap", true, true),
        Turn::Act { dispatch: Dispatch::Close { progress: 100, .. }, keeps_slot: false }
    ));
}
