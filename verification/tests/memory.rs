use rayrag_server::memory::{
    clear_memories, clear_next, memory_budget, memory_messages, open_memory_task,
    process_memory_task, reconcile_staged_memory_tasks, retryable_memory_error, source_id,
    update_memory_task_progress, vectors_complete, ClearStep, Extracted, MemoryAction, MemoryEvent,
    MemoryPayload, MemoryPhase, MemoryStage, StagedTask, Verdict,
};
use rayrag_server::state::{AppState, MemoryEntry};

fn memory(id: &str, kinds: &[&str]) -> MemoryEntry {
    MemoryEntry {
        id: id.into(),
        tenant_id: "test-user".into(),
        llm_id: "default".into(),
        memory_type: kinds.iter().map(|kind| kind.to_string()).collect(),
        memory_size: 0,
        forgetting_policy: "FIFO".into(),
    }
}

fn state(memories: Vec<MemoryEntry>) -> AppState {
    AppState {
        static_dir: String::new(),
        port: 9380,
        users: Vec::new(),
        kbs: Vec::new(),
        tenants: Vec::new(),
        llm: false,
        embedder: false,
        reranker: false,
        index_path: String::new(),
        model_path: String::new(),
        max_upload_bytes: 1024,
        docs: Vec::new(),
        search_apps: None,
        tenant_models: Vec::new(),
        memories,
        register_enabled: 1,
        disable_password_login: false,
    }
}

fn staged(id: &str, memory_id: &str, digest: &str) -> StagedTask {
    StagedTask { id: id.into(), memory_id: memory_id.into(), digest: digest.into() }
}

/// Runs a task through the events and collects what it does.
fn run(events: Vec<MemoryEvent<String>>) -> (MemoryStage<String>, Vec<MemoryAction<String>>) {
    let mut stage = MemoryStage::Start;
    let mut actions = Vec::new();
    for event in events {
        let (next, action) = process_memory_task(stage, event);
        stage = next;
        actions.extend(action);
    }
    (stage, actions)
}

fn through(count: usize) -> Vec<MemoryEvent<String>> {
    vec![
        MemoryEvent::Begun,
        MemoryEvent::Claimed(Ok(Some(1))),
        MemoryEvent::Opened(Ok(true)),
        MemoryEvent::Told(Ok(true)),
        MemoryEvent::Extracted(Ok(count)),
        MemoryEvent::Told(Ok(true)),
    ]
}

#[test]
fn memory_task_reconciler_publishes_only_when_raw_and_memory_exist() {
    let s = state(vec![memory("memory", &["raw"])]);
    let messages = vec![("memory".to_string(), 91)];
    let tasks = vec![
        staged("recoverable", "memory", "91"),
        staged("orphan", "memory", "92"),
    ];
    let verdicts = reconcile_staged_memory_tasks(&s, &tasks, &messages);
    assert_eq!(verdicts[0], Verdict::Publish);
    assert_eq!(verdicts[1], Verdict::Discard);
}

#[test]
fn staged_tasks_need_a_number_and_a_memory() {
    let s = state(vec![memory("memory", &["raw"])]);
    let messages = vec![("memory".to_string(), 7), ("gone".to_string(), 7)];
    let tasks = vec![
        staged("a", "memory", "+7"),
        staged("b", "memory", "-7"),
        staged("c", "memory", "seven"),
        staged("d", "gone", "7"),
        staged("e", "memory", "0"),
    ];
    assert_eq!(
        reconcile_staged_memory_tasks(&s, &tasks, &messages),
        [
            Verdict::Publish,
            Verdict::Discard,
            Verdict::Discard,
            Verdict::Discard,
            Verdict::Discard
        ]
    );
}

#[test]
fn digests_are_positive_numbers() {
    assert_eq!(source_id("91"), Some(91));
    assert_eq!(source_id("+5"), Some(5));
    assert_eq!(source_id("9223372036854775807"), Some(i64::MAX));
    assert_eq!(source_id("9223372036854775808"), None);
    for digest in ["", "0", "-1", "1x", "+", "99999999999999999999999999"] {
        assert_eq!(source_id(digest), None, "{digest}");
    }
}

#[test]
fn tasks_open_with_payload_digest_and_memory() {
    let s = state(vec![memory("raw-only", &["raw"]), memory("rich", &["raw", "episodic"])]);
    let told = |has: bool, digest: &str, id: &str| {
        open_memory_task(&s, has, digest, id).unwrap_err()
    };
    assert_eq!(told(false, "x", "none"), "Memory task payload is missing");
    assert_eq!(told(true, "x", "none"), "Invalid Memory task digest: x");
    assert_eq!(told(true, "4", "none"), "Memory not found: none");
    let brief = open_memory_task(&s, true, "4", "rich").unwrap();
    assert_eq!((brief.source_id, brief.memory.id.as_str(), brief.extract), (4, "rich", true));
    assert!(!open_memory_task(&s, true, "4", "raw-only").unwrap().extract);
}

#[test]
fn memory_errors_that_nobody_mends_are_final() {
    for message in [
        "Memory not found: m",
        "Memory task payload is missing",
        "Invalid Memory task digest: x",
        "Chat or image2text model is not configured: m",
        "Provider is disabled",
        "bad memory extraction response",
        "bad memory extraction field",
        "Memory task lease lost",
        "Processing cancelled",
    ] {
        assert!(!retryable_memory_error(message), "{message}");
    }
    assert!(retryable_memory_error("connection reset"));
}

#[test]
fn progress_reports_need_the_lease() {
    assert_eq!(update_memory_task_progress(Ok(true)), Ok(()));
    assert_eq!(update_memory_task_progress(Ok(false)).unwrap_err(), "Memory task lease lost");
    assert_eq!(update_memory_task_progress(Err("io".into())).unwrap_err(), "io");
}

#[test]
fn a_memory_task_runs_to_its_end() {
    let mut events = through(2);
    events.extend([
        MemoryEvent::Told(Ok(true)),
        MemoryEvent::EmbedderChosen(Ok(())),
        MemoryEvent::Told(Ok(true)),
        MemoryEvent::Heartbeat(Ok(true)),
        MemoryEvent::Embedded(Ok(true)),
        MemoryEvent::Told(Ok(true)),
        MemoryEvent::Checked { cancelled: false },
        MemoryEvent::Locked {
            owns_lease: true,
            memory_exists: true,
            children_exist: false,
            memory_id: "m".into(),
        },
        MemoryEvent::Saved(Ok(())),
        MemoryEvent::Told(Ok(true)),
    ]);
    let (stage, actions) = run(events);
    assert!(matches!(stage, MemoryStage::Stopped));
    assert!(matches!(actions[0], MemoryAction::Claim { lease_ms: 30_000, .. }));
    let reports: Vec<(u8, &str)> = actions
        .iter()
        .filter_map(|action| match action {
            MemoryAction::Tell { status, progress, message } => {
                assert_eq!(status, "running");
                Some((*progress, message.as_str()))
            }
            _ => None,
        })
        .collect();
    assert_eq!(
        reports,
        [
            (15, "Prepared prompts and LLM"),
            (35, "Got extracted result from LLM"),
            (50, "Extracted 2 messages from raw dialogue"),
            (65, "Prepared embedding model"),
            (85, "Embedded extracted content"),
            (95, "Saved messages to storage"),
        ]
    );
    assert!(matches!(
        actions.last().unwrap(),
        MemoryAction::UpdateTask { status, progress: 100, message }
            if status == "done" && message == "Message saved successfully"
    ));
}

#[test]
fn memories_are_stored_once_only() {
    let stage = MemoryStage::Working { attempt: 2, phase: MemoryPhase::Locking(3) };
    let locked = MemoryEvent::Locked {
        owns_lease: true,
        memory_exists: true,
        children_exist: true,
        memory_id: "m".into(),
    };
    let (next, action) = process_memory_task(stage, locked);
    assert!(matches!(
        next,
        MemoryStage::Working { attempt: 2, phase: MemoryPhase::TellingSaved(3) }
    ));
    assert!(matches!(action, Some(MemoryAction::Tell { progress: 95, .. })));
}

#[test]
fn memory_tasks_with_nothing_to_distil_are_done() {
    let (_, actions) = run(through(0));
    assert!(matches!(
        actions.last().unwrap(),
        MemoryAction::UpdateTask { status, message, .. }
            if status == "done" && message == "No memory extracted from raw message"
    ));
    let (_, actions) = run(vec![
        MemoryEvent::Begun,
        MemoryEvent::Claimed(Ok(Some(1))),
        MemoryEvent::Opened(Ok(false)),
    ]);
    assert!(matches!(
        actions.last().unwrap(),
        MemoryAction::UpdateTask { message, .. } if message == "Memory does not need extraction"
    ));
    let (stage, actions) = run(vec![MemoryEvent::Begun, MemoryEvent::Claimed(Ok(None))]);
    assert!(matches!(stage, MemoryStage::Stopped));
    assert_eq!(actions.len(), 1);
}

#[test]
fn failed_memory_tasks_are_retried_or_closed() {
    let end = |error: &str, cancelled: bool, can_retry: bool| {
        let (_, actions) = run(vec![
            MemoryEvent::Begun,
            MemoryEvent::Claimed(Ok(Some(2))),
            MemoryEvent::Opened(Err(error.to_string())),
            MemoryEvent::Ending { cancelled, can_retry },
        ]);
        match actions.into_iter().last().unwrap() {
            MemoryAction::UpdateTask { status, progress, message } => (status, progress, message),
            other => panic!("{other:?}"),
        }
    };
    let told = |status: &str, progress: u8, message: &str| {
        (status.to_string(), progress, message.to_string())
    };
    assert_eq!(
        end("timeout", false, true),
        told("pending", 0, "Attempt 2 failed: timeout; retrying")
    );
    assert_eq!(end("timeout", false, false), told("failed", 100, "timeout"));
    assert_eq!(
        end("Memory not found: m", false, true),
        told("failed", 100, "Memory not found: m")
    );
    assert_eq!(end("timeout", true, true), told("cancelled", 100, "Processing cancelled"));
}

#[test]
fn faults_on_the_way_fail_the_memory_task() {
    let working = |phase: MemoryPhase| MemoryStage::Working { attempt: 1, phase };
    let error = |phase: MemoryPhase, event: MemoryEvent<String>| {
        match process_memory_task(working(phase), event) {
            (MemoryStage::Failing { error, .. }, Some(MemoryAction::AskEnding)) => error,
            other => panic!("{other:?}"),
        }
    };
    let locked = |owns_lease: bool, memory_exists: bool| MemoryEvent::Locked {
        owns_lease,
        memory_exists,
        children_exist: false,
        memory_id: "m".into(),
    };
    assert_eq!(
        error(MemoryPhase::Embedding(2), MemoryEvent::Embedded(Ok(false))),
        "Embedding model returned an invalid vector batch"
    );
    assert_eq!(
        error(MemoryPhase::Checking(2), MemoryEvent::Checked { cancelled: true }),
        "Processing cancelled"
    );
    assert_eq!(error(MemoryPhase::Locking(2), locked(false, true)), "Memory task lease lost");
    assert_eq!(error(MemoryPhase::Locking(2), locked(true, false)), "Memory not found: m");
    assert_eq!(
        error(MemoryPhase::Extracting, MemoryEvent::Heartbeat(Ok(false))),
        "Memory task lease lost"
    );
    assert_eq!(error(MemoryPhase::TellingPrompts, MemoryEvent::Told(Err("io".into()))), "io");
}

#[test]
fn distilled_messages_carry_their_source() {
    let extracted = vec![Extracted {
        message_type: "semantic".into(),
        content: "likes tea".into(),
        valid_at: "2026-08-12 10:00:00".into(),
        invalid_at: None,
    }];
    let payload = MemoryPayload {
        user_id: "user".into(),
        agent_id: "agent".into(),
        session_id: "session".into(),
        user_input: "input".into(),
        agent_response: "response".into(),
    };
    let bits = 1.0f32.to_bits();
    let rows = memory_messages(&extracted, &vec![vec![bits]], &vec![12], 91, "memory", &payload);
    assert_eq!(rows.len(), 1);
    let row = &rows[0];
    assert_eq!((row.message_id, row.source_id, row.zone_id, row.status), (12, 91, 0, true));
    assert_eq!((row.memory_id.as_str(), row.agent_id.as_str()), ("memory", "agent"));
    assert_eq!((row.message_type.as_str(), row.content.as_str()), ("semantic", "likes tea"));
    assert_eq!(row.forget_at, None);
    assert_eq!(row.content_embed, [bits]);
    assert!(vectors_complete(1, &vec![vec![bits]]));
    assert!(!vectors_complete(1, &vec![vec![]]));
    assert!(!vectors_complete(2, &vec![vec![bits]]));
}

#[test]
fn empty_budgets_are_unlimited() {
    assert_eq!(memory_budget(0), usize::MAX);
    assert_eq!(memory_budget(5), 5);
}

#[test]
fn memories_are_cleared_after_their_tasks_and_messages() {
    let order: Vec<String> =
        (0..5).map(|done| format!("{:?}", clear_next(2, done, Ok(())))).collect();
    assert_eq!(
        order,
        [
            "CancelTasks(0)",
            "DeleteMessages(0)",
            "CancelTasks(1)",
            "DeleteMessages(1)",
            "DeleteMemories"
        ]
    );
    assert!(matches!(clear_next(2, 1, Err("io".into())), ClearStep::Fail(e) if e == "io"));
    let reply = clear_memories(Ok(2));
    assert_eq!(reply.status, 200);
    assert_eq!(reply.body.text("message"), Some("Cleared 2 memories"));
    assert_eq!(reply.body.get("data").unwrap().number("deleted"), Some(2));
    let failed = clear_memories(Err("io".into()));
    assert_eq!((failed.status, failed.body.text("message")), (500, Some("io")));
}
