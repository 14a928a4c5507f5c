//! Running document tasks: what a worker does with a claimed task, step by step, and
//! what the dispatcher does with a waiting one.

use crate::json;
use crate::json::{Json, JsonView};
use crate::models;
use crate::models::{ModelSource, SourceView, VisionConfig, VisionView};
use crate::state::{AppState, DocRecord, KnowledgeBase};
use crate::text;
use vstd::prelude::*;

verus! {

/// How long a worker holds a task before it has to renew its lease.
pub const TASK_LEASE_DURATION_MS: u64 = 30_000;

/// How often a worker renews its lease.
pub const TASK_LEASE_RENEW_INTERVAL_MS: u64 = 10_000;

/// How often the dispatcher looks for waiting tasks.
pub const TASK_DISPATCH_INTERVAL_MS: u64 = 5_000;

/// How long a worker holds a task while it commits.
pub const TASK_COMMIT_LEASE_DURATION_MS: u64 = 120_000;

// ── Errors ──────────────────────────────────────────────────────

/// Trying again may help.
pub open spec fn is_retryable(message: Seq<char>) -> bool {
    &&& !text::occurs_in("Embedding is not configured"@, message)
    &&& !text::occurs_in("Requested embedding model"@, message)
    &&& !text::occurs_in("Global embedding model"@, message)
    &&& !text::occurs_in("Provider is disabled"@, message)
    &&& !text::occurs_in("Knowledge base not found"@, message)
    &&& !text::occurs_in("Uploaded file is missing"@, message)
    &&& !text::occurs_in("Invalid upload path"@, message)
    &&& !text::occurs_in("Invalid parser configuration"@, message)
    &&& !text::occurs_in("Processing cancelled"@, message)
}

/// Trying again may help: the error tells of nothing that somebody has to mend first.
pub fn retryable_processing_error(message: &str) -> (r: bool)
    ensures
        r == is_retryable(message@),
{
    !text::contains(message, "Embedding is not configured") && !text::contains(
        message,
        "Requested embedding model",
    ) && !text::contains(message, "Global embedding model") && !text::contains(
        message,
        "Provider is disabled",
    ) && !text::contains(message, "Knowledge base not found") && !text::contains(
        message,
        "Uploaded file is missing",
    ) && !text::contains(message, "Invalid upload path") && !text::contains(
        message,
        "Invalid parser configuration",
    ) && !text::contains(message, "Processing cancelled")
}

// ── The parser of a knowledge base ──────────────────────────────

/// The string that the JSON object in the text holds under the key; nothing where the
/// text is no JSON object, or holds no string there.
pub uninterp spec fn json_text_member(json: Seq<char>, key: Seq<char>) -> Option<Seq<char>>;

/// `serde_json::from_str` into a `serde_json::Value`, and the string member of what
/// comes out: a function of the text and the key alone.
#[verifier::external_body]
fn text_member(json: &str, key: &str) -> (r: Option<String>)
    ensures
        text::opt_view(r) == json_text_member(json@, key@),
{
    let value = serde_json::from_str::<serde_json::Value>(json).ok()?;
    value.get(key).and_then(serde_json::Value::as_str).map(str::to_string)
}

/// The method, or `naive` where none is set.
pub open spec fn method_or_naive(method: Option<Seq<char>>) -> Seq<char> {
    match method {
        Some(m) => m,
        None => "naive"@,
    }
}

/// The method, or `naive` where none is set.
pub fn parser_or_default(method: Option<String>) -> (r: String)
    ensures
        r@ == method_or_naive(text::opt_view(method)),
{
    match method {
        Some(m) => m,
        None => "naive".to_owned(),
    }
}

/// How the documents of a knowledge base are cut into chunks: the method in its
/// parser settings.
pub fn kb_parser_id(kb: &KnowledgeBase) -> (r: String)
    ensures
        r@ == method_or_naive(json_text_member(kb.parser_config@, "chunk_method"@)),
{
    parser_or_default(text_member(kb.parser_config.as_str(), "chunk_method"))
}

// ── What a parse needs ──────────────────────────────────────────

/// What a document is parsed with.
#[derive(Debug)]
pub struct ParsePlan<'a> {
    pub owner_id: String,
    pub parser_id: String,
    pub embedder: ModelSource<'a>,
    /// Images are described where there is a model for it.
    pub vision: Option<VisionConfig>,
}

/// What a document is parsed with, over mathematical values.
pub struct PlanView {
    pub owner_id: Seq<char>,
    pub parser_id: Seq<char>,
    pub embedder: SourceView,
    pub vision: Option<VisionView>,
}

impl<'a> View for ParsePlan<'a> {
    type V = PlanView;

    open spec fn view(&self) -> PlanView {
        PlanView {
            owner_id: self.owner_id@,
            parser_id: self.parser_id@,
            embedder: self.embedder@,
            vision: match self.vision {
                Some(v) => Some(v@),
                None => None,
            },
        }
    }
}

/// What the document is parsed with, or why it cannot be parsed. `config` tells
/// whether the parser settings could be read.
pub open spec fn plan_of(s: AppState, doc: DocRecord, config: Result<(), Seq<char>>) -> Result<
    PlanView,
    Seq<char>,
> {
    match s.kb(doc.kb_id@) {
        None => Err("Knowledge base not found"@),
        Some(kb) => match config {
            Err(reason) => Err("Invalid parser configuration: "@ + reason),
            Ok(_) => match models::embedder_of(s, seq![doc.kb_id@]) {
                Err(reason) => Err(reason),
                Ok(embedder) => Ok(
                    PlanView {
                        owner_id: kb.owner_id@,
                        parser_id: method_or_naive(
                            json_text_member(kb.parser_config@, "chunk_method"@),
                        ),
                        embedder,
                        vision: match models::vision_of(s, seq![doc.kb_id@]) {
                            Ok(vision) => vision,
                            Err(_) => None,
                        },
                    },
                ),
            },
        },
    }
}

/// What the document is parsed with, or why it cannot be parsed. Without a model for
/// images it is parsed all the same.
pub fn plan_parse<'a>(state: &'a AppState, doc: &DocRecord, config: Result<(), String>) -> (r:
    Result<ParsePlan<'a>, String>)
    ensures
        match r {
            Ok(plan) => plan_of(
                *state,
                *doc,
                text::outcome_view(config),
            ) == Ok::<_, Seq<char>>(plan@),
            Err(reason) => plan_of(
                *state,
                *doc,
                text::outcome_view(config),
            ) == Err::<PlanView, _>(reason@),
        },
{
    let kb = match state.find_kb(doc.kb_id.as_str()) {
        Some(kb) => kb,
        None => {
            return Err("Knowledge base not found".to_owned());
        },
    };
    if let Err(reason) = config {
        return Err(text::concat("Invalid parser configuration: ", reason.as_str()));
    }
    let kb_ids = vec![doc.kb_id.clone()];
    assert(text::views(kb_ids@) =~= seq![doc.kb_id@]);
    let embedder = match models::kb_embedder_for(state, &kb_ids) {
        Ok(embedder) => embedder,
        Err(reason) => {
            return Err(reason);
        },
    };
    let vision = match models::kb_vision_for(state, &kb_ids) {
        Ok(vision) => vision,
        Err(_) => None,
    };
    Ok(
        ParsePlan {
            owner_id: kb.owner_id.clone(),
            parser_id: kb_parser_id(kb),
            embedder,
            vision,
        },
    )
}

// ── A document task ─────────────────────────────────────────────

/// Where a worker stands with a document task.
#[derive(Debug)]
pub enum DocStage<S> {
    /// The task has been picked up.
    Start,
    /// The lease has been asked for.
    Claiming,
    /// The lease is held; `attempt` counts the tries.
    Working { attempt: u32, phase: DocPhase },
    /// The work has failed, and it is asked what becomes of the task.
    Failing { attempt: u32, error: S },
    /// The task is being updated; the document follows only where the lease was still
    /// held.
    Reporting { run: S, progress: u8, message: S },
    Stopped,
}

/// How far the work has come.
#[derive(Clone, Copy, Debug, PartialEq, Eq, Structural)]
pub enum DocPhase {
    /// The parse is being set up.
    Preparing,
    Parsing,
    /// The lease and the vectors are checked.
    Checking,
    /// The chunks are made ready for the index.
    Assembling,
    /// It is asked once more whether the task was cancelled; so many chunks are ready.
    Rechecking(usize),
    /// The lease for the commit is asked for.
    Renewing(usize),
    Committing(usize),
}

/// What a worker learns.
#[derive(Debug)]
pub enum DocEvent<S> {
    Begun { cancelled: bool },
    /// The lease: the number of the attempt, or none where somebody else holds it.
    Claimed(Result<Option<u32>, S>),
    Prepared(Result<(), S>),
    Parsed(Result<(), S>),
    Checked { cancelled: bool, owns_lease: bool, all_embedded: bool },
    Assembled(Result<usize, S>),
    Rechecked { cancelled: bool },
    Renewed(Result<bool, S>),
    Committed(Result<(), S>),
    /// The regular renewal of the lease, while the work goes on.
    Heartbeat(Result<bool, S>),
    Ending { cancelled: bool, can_retry: bool },
    TaskUpdated(Result<bool, S>),
}

/// What the ingestion log tells of one stage of a run.
#[derive(Debug)]
pub struct StageReport {
    pub id: String,
    pub component: String,
    pub title: String,
    /// The bits of a double.
    pub elapsed_seconds: u64,
    pub outputs: Json,
}

/// A value with the name of its type.
pub open spec fn typed_of(kind: Seq<char>, value: JsonView) -> JsonView {
    JsonView::Object(seq![("type"@, JsonView::Str(kind)), ("value"@, value)])
}

/// What the parser gave in a run that failed: the reason as its text, after no time.
pub open spec fn failed_outputs(error: Seq<char>) -> JsonView {
    JsonView::Object(
        seq![
            ("output_format"@, typed_of("string"@, JsonView::Str("text"@))),
            ("text"@, typed_of("string"@, JsonView::Str(error))),
            ("_elapsed_time"@, typed_of("number"@, JsonView::Real(0))),
        ],
    )
}

fn typed(kind: &str, value: Json) -> (r: Json)
    ensures
        r@ == typed_of(kind@, value@),
{
    let e = json::with(json::fields(), "type", json::string(kind));
    let e = json::with(e, "value", value);
    assert(json::entry_views(e@) =~= typed_of(kind@, value@)->Object_0);
    json::object(e)
}

/// The report of a run that failed: one stage, the parser, which gave the reason.
pub fn failed_report(error: &str) -> (r: Vec<StageReport>)
    ensures
        r@.len() == 1,
        r@[0].id@ == "parser"@,
        r@[0].component@ == "Parser"@,
        r@[0].title@ == "Parser"@,
        r@[0].elapsed_seconds == 0,
        r@[0].outputs@ == failed_outputs(error@),
{
    let e = json::with(json::fields(), "output_format", typed("string", json::string("text")));
    let e = json::with(e, "text", typed("string", json::string(error)));
    let e = json::with(e, "_elapsed_time", typed("number", Json::Real(0)));
    assert(json::entry_views(e@) =~= failed_outputs(error@)->Object_0);
    vec![
        StageReport {
            id: "parser".to_owned(),
            component: "Parser".to_owned(),
            title: "Parser".to_owned(),
            elapsed_seconds: 0,
            outputs: json::object(e),
        },
    ]
}

/// What a worker does.
#[derive(Debug)]
pub enum DocAction<S> {
    Claim { lease_ms: u64, message: S },
    UpdateDocument { run: S, progress: u8, message: S },
    Prepare,
    Parse,
    /// Write the run into the ingestion log. A run that failed has the report of
    /// [`failed_report`].
    RecordRun { status: S, error: S },
    CheckLease,
    Assemble,
    CheckCancelled,
    RenewLease { lease_ms: u64 },
    Commit { message: S },
    /// Ask whether the task was cancelled and whether it may be tried again.
    AskEnding,
    UpdateTask { status: S, progress: u8, message: S },
}

impl View for DocStage<String> {
    type V = DocStage<Seq<char>>;

    open spec fn view(&self) -> DocStage<Seq<char>> {
        match self {
            DocStage::Start => DocStage::Start,
            DocStage::Claiming => DocStage::Claiming,
            DocStage::Working { attempt, phase } => DocStage::Working {
                attempt: *attempt,
                phase: *phase,
            },
            DocStage::Failing { attempt, error } => DocStage::Failing {
                attempt: *attempt,
                error: error@,
            },
            DocStage::Reporting { run, progress, message } => DocStage::Reporting {
                run: run@,
                progress: *progress,
                message: message@,
            },
            DocStage::Stopped => DocStage::Stopped,
        }
    }
}

impl View for DocEvent<String> {
    type V = DocEvent<Seq<char>>;

    open spec fn view(&self) -> DocEvent<Seq<char>> {
        match self {
            DocEvent::Begun { cancelled } => DocEvent::Begun { cancelled: *cancelled },
            DocEvent::Claimed(r) => DocEvent::Claimed(text::outcome_view(*r)),
            DocEvent::Prepared(r) => DocEvent::Prepared(text::outcome_view(*r)),
            DocEvent::Parsed(r) => DocEvent::Parsed(text::outcome_view(*r)),
            DocEvent::Checked { cancelled, owns_lease, all_embedded } => DocEvent::Checked {
                cancelled: *cancelled,
                owns_lease: *owns_lease,
                all_embedded: *all_embedded,
            },
            DocEvent::Assembled(r) => DocEvent::Assembled(text::outcome_view(*r)),
            DocEvent::Rechecked { cancelled } => DocEvent::Rechecked { cancelled: *cancelled },
            DocEvent::Renewed(r) => DocEvent::Renewed(text::outcome_view(*r)),
            DocEvent::Committed(r) => DocEvent::Committed(text::outcome_view(*r)),
            DocEvent::Heartbeat(r) => DocEvent::Heartbeat(text::outcome_view(*r)),
            DocEvent::Ending { cancelled, can_retry } => DocEvent::Ending {
                cancelled: *cancelled,
                can_retry: *can_retry,
            },
            DocEvent::TaskUpdated(r) => DocEvent::TaskUpdated(text::outcome_view(*r)),
        }
    }
}

impl View for DocAction<String> {
    type V = DocAction<Seq<char>>;

    open spec fn view(&self) -> DocAction<Seq<char>> {
        match self {
            DocAction::Claim { lease_ms, message } => DocAction::Claim {
                lease_ms: *lease_ms,
                message: message@,
            },
            DocAction::UpdateDocument { run, progress, message } => DocAction::UpdateDocument {
                run: run@,
                progress: *progress,
                message: message@,
            },
            DocAction::Prepare => DocAction::Prepare,
            DocAction::Parse => DocAction::Parse,
            DocAction::RecordRun { status, error } => DocAction::RecordRun {
                status: status@,
                error: error@,
            },
            DocAction::CheckLease => DocAction::CheckLease,
            DocAction::Assemble => DocAction::Assemble,
            DocAction::CheckCancelled => DocAction::CheckCancelled,
            DocAction::RenewLease { lease_ms } => DocAction::RenewLease { lease_ms: *lease_ms },
            DocAction::Commit { message } => DocAction::Commit { message: message@ },
            DocAction::AskEnding => DocAction::AskEnding,
            DocAction::UpdateTask { status, progress, message } => DocAction::UpdateTask {
                status: status@,
                progress: *progress,
                message: message@,
            },
        }
    }
}

/// The views of a row of actions.
pub open spec fn action_views(actions: Seq<DocAction<String>>) -> Seq<DocAction<Seq<char>>> {
    actions.map_values(|a: DocAction<String>| a@)
}

/// A stage and what is done on the way into it.
pub type DocMove = (DocStage<Seq<char>>, Seq<DocAction<Seq<char>>>);

/// Nothing happens.
pub open spec fn stay(stage: DocStage<Seq<char>>) -> DocMove {
    (stage, Seq::empty())
}

/// The work has failed.
pub open spec fn fail(attempt: u32, error: Seq<char>) -> DocMove {
    (DocStage::Failing { attempt, error }, seq![DocAction::AskEnding])
}

/// The work goes on.
pub open spec fn go_on(
    attempt: u32,
    phase: DocPhase,
    actions: Seq<DocAction<Seq<char>>>,
) -> DocMove {
    (DocStage::Working { attempt, phase }, actions)
}

/// What a finished run tells.
pub open spec fn indexed_message(count: usize) -> Seq<char> {
    "Indexed "@ + text::decimal(count as nat) + " chunks"@
}

/// What a run tells that is tried again.
pub open spec fn retry_message(attempt: u32, error: Seq<char>) -> Seq<char> {
    "Attempt "@ + text::decimal(attempt as nat) + " failed: "@ + error + "; retrying"@
}

/// The move of a worker that holds the lease.
pub open spec fn work_move(attempt: u32, phase: DocPhase, event: DocEvent<Seq<char>>) -> DocMove {
    match (phase, event) {
        (_, DocEvent::Heartbeat(Ok(true))) => stay(DocStage::Working { attempt, phase }),
        (_, DocEvent::Heartbeat(Ok(false))) => fail(attempt, "Task lease lost"@),
        (_, DocEvent::Heartbeat(Err(_))) => fail(attempt, "Failed to renew task lease"@),
        (DocPhase::Preparing, DocEvent::Prepared(Ok(_))) => go_on(
            attempt,
            DocPhase::Parsing,
            seq![DocAction::Parse],
        ),
        (DocPhase::Preparing, DocEvent::Prepared(Err(e))) => fail(attempt, e),
        (DocPhase::Parsing, DocEvent::Parsed(Ok(_))) => go_on(
            attempt,
            DocPhase::Checking,
            seq![
                DocAction::RecordRun { status: "done"@, error: Seq::empty() },
                DocAction::CheckLease,
            ],
        ),
        (DocPhase::Parsing, DocEvent::Parsed(Err(e))) => (
            DocStage::Failing { attempt, error: e },
            seq![DocAction::RecordRun { status: "failed"@, error: e }, DocAction::AskEnding],
        ),
        (DocPhase::Checking, DocEvent::Checked { cancelled, owns_lease, all_embedded }) => {
            if cancelled {
                fail(attempt, "Processing cancelled"@)
            } else if !owns_lease {
                fail(attempt, "Task lease lost"@)
            } else if !all_embedded {
                fail(attempt, "Embedding did not produce vectors for every chunk"@)
            } else {
                go_on(attempt, DocPhase::Assembling, seq![DocAction::Assemble])
            }
        },
        (DocPhase::Assembling, DocEvent::Assembled(Ok(n))) => go_on(
            attempt,
            DocPhase::Rechecking(n),
            seq![DocAction::CheckCancelled],
        ),
        (DocPhase::Assembling, DocEvent::Assembled(Err(e))) => fail(attempt, e),
        (DocPhase::Rechecking(n), DocEvent::Rechecked { cancelled }) => {
            if cancelled {
                fail(attempt, "Processing cancelled"@)
            } else {
                go_on(
                    attempt,
                    DocPhase::Renewing(n),
                    seq![DocAction::RenewLease { lease_ms: TASK_COMMIT_LEASE_DURATION_MS }],
                )
            }
        },
        (DocPhase::Renewing(n), DocEvent::Renewed(Ok(true))) => go_on(
            attempt,
            DocPhase::Committing(n),
            seq![DocAction::Commit { message: indexed_message(n) }],
        ),
        (DocPhase::Renewing(n), DocEvent::Renewed(Ok(false))) => fail(
            attempt,
            "Task lease lost before index commit"@,
        ),
        (DocPhase::Renewing(n), DocEvent::Renewed(Err(e))) => fail(attempt, e),
        (DocPhase::Committing(n), DocEvent::Committed(Ok(_))) => (
            DocStage::Stopped,
            seq![
                DocAction::UpdateTask {
                    status: "done"@,
                    progress: 100,
                    message: indexed_message(n),
                },
            ],
        ),
        (DocPhase::Committing(n), DocEvent::Committed(Err(e))) => fail(attempt, e),
        _ => stay(DocStage::Working { attempt, phase }),
    }
}

/// The move of a worker whose work has failed.
pub open spec fn ending_move(
    attempt: u32,
    error: Seq<char>,
    cancelled: bool,
    can_retry: bool,
) -> DocMove {
    if cancelled {
        (
            DocStage::Stopped,
            seq![
                DocAction::UpdateTask {
                    status: "cancelled"@,
                    progress: 100,
                    message: "Processing cancelled"@,
                },
                DocAction::UpdateDocument {
                    run: "CANCELLED"@,
                    progress: 100,
                    message: "Processing cancelled"@,
                },
            ],
        )
    } else if is_retryable(error) && can_retry {
        let message = retry_message(attempt, error);
        (
            DocStage::Reporting { run: "UNSTARTED"@, progress: 0, message },
            seq![DocAction::UpdateTask { status: "pending"@, progress: 0, message }],
        )
    } else {
        (
            DocStage::Reporting { run: "FAILED"@, progress: 100, message: error },
            seq![DocAction::UpdateTask { status: "failed"@, progress: 100, message: error }],
        )
    }
}

/// The move of a worker.
pub open spec fn doc_move(stage: DocStage<Seq<char>>, event: DocEvent<Seq<char>>) -> DocMove {
    match (stage, event) {
        (DocStage::Start, DocEvent::Begun { cancelled }) => {
            if cancelled {
                (
                    DocStage::Stopped,
                    seq![
                        DocAction::UpdateDocument {
                            run: "CANCELLED"@,
                            progress: 100,
                            message: "Processing cancelled"@,
                        },
                    ],
                )
            } else {
                (
                    DocStage::Claiming,
                    seq![
                        DocAction::Claim {
                            lease_ms: TASK_LEASE_DURATION_MS,
                            message: "Parsing document"@,
                        },
                    ],
                )
            }
        },
        (DocStage::Claiming, DocEvent::Claimed(Ok(Some(attempt)))) => (
            DocStage::Working { attempt, phase: DocPhase::Preparing },
            seq![
                DocAction::UpdateDocument {
                    run: "RUNNING"@,
                    progress: 5,
                    message: "Parsing document"@,
                },
                DocAction::Prepare,
            ],
        ),
        (DocStage::Claiming, DocEvent::Claimed(_)) => stay(DocStage::Stopped),
        (DocStage::Working { attempt, phase }, e) => work_move(attempt, phase, e),
        (DocStage::Failing { attempt, error }, DocEvent::Ending { cancelled, can_retry }) => {
            ending_move(attempt, error, cancelled, can_retry)
        },
        (
            DocStage::Reporting { run, progress, message },
            DocEvent::TaskUpdated(Ok(true)),
        ) => (
            DocStage::Stopped,
            seq![DocAction::UpdateDocument { run, progress, message }],
        ),
        (DocStage::Reporting { .. }, DocEvent::TaskUpdated(_)) => stay(DocStage::Stopped),
        (s, _) => stay(s),
    }
}

/// What a finished run tells.
pub fn indexed_text(count: usize) -> (r: String)
    ensures
        r@ == indexed_message(count),
{
    text::concat3("Indexed ", text::decimal_of(count as u64).as_str(), " chunks")
}

/// What a run tells that is tried again.
pub fn retry_text(attempt: u32, error: &str) -> (r: String)
    ensures
        r@ == retry_message(attempt, error@),
{
    let head = text::concat3("Attempt ", text::decimal_of(attempt as u64).as_str(), " failed: ");
    text::concat3(head.as_str(), error, "; retrying")
}

fn one(action: DocAction<String>) -> (r: Vec<DocAction<String>>)
    ensures
        action_views(r@) == seq![action@],
{
    let r = vec![action];
    assert(action_views(r@) =~= seq![action@]);
    r
}

fn two(first: DocAction<String>, second: DocAction<String>) -> (r: Vec<DocAction<String>>)
    ensures
        action_views(r@) == seq![first@, second@],
{
    let r = vec![first, second];
    assert(action_views(r@) =~= seq![first@, second@]);
    r
}

fn nothing() -> (r: Vec<DocAction<String>>)
    ensures
        action_views(r@) == Seq::<DocAction<Seq<char>>>::empty(),
{
    let r: Vec<DocAction<String>> = Vec::new();
    assert(action_views(r@) =~= Seq::<DocAction<Seq<char>>>::empty());
    r
}

fn failed(attempt: u32, error: String) -> (r: (DocStage<String>, Vec<DocAction<String>>))
    ensures
        (r.0@, action_views(r.1@)) == fail(attempt, error@),
{
    (DocStage::Failing { attempt, error }, one(DocAction::AskEnding))
}

fn work(attempt: u32, phase: DocPhase, event: DocEvent<String>) -> (r: (
    DocStage<String>,
    Vec<DocAction<String>>,
))
    ensures
        (r.0@, action_views(r.1@)) == work_move(attempt, phase, event@),
{
    match (phase, event) {
        (_, DocEvent::Heartbeat(Ok(held))) => {
            if held {
                (DocStage::Working { attempt, phase }, nothing())
            } else {
                failed(attempt, "Task lease lost".to_owned())
            }
        },
        (_, DocEvent::Heartbeat(Err(_))) => failed(
            attempt,
            "Failed to renew task lease".to_owned(),
        ),
        (DocPhase::Preparing, DocEvent::Prepared(Ok(_))) => (
            DocStage::Working { attempt, phase: DocPhase::Parsing },
            one(DocAction::Parse),
        ),
        (DocPhase::Preparing, DocEvent::Prepared(Err(e))) => failed(attempt, e),
        (DocPhase::Parsing, DocEvent::Parsed(Ok(_))) => {
            let error = String::new();
            assert(error@ =~= Seq::<char>::empty());
            (
                DocStage::Working { attempt, phase: DocPhase::Checking },
                two(
                    DocAction::RecordRun { status: "done".to_owned(), error },
                    DocAction::CheckLease,
                ),
            )
        },
        (DocPhase::Parsing, DocEvent::Parsed(Err(e))) => {
            let error = e.clone();
            (
                DocStage::Failing { attempt, error },
                two(
                    DocAction::RecordRun { status: "failed".to_owned(), error: e },
                    DocAction::AskEnding,
                ),
            )
        },
        (DocPhase::Checking, DocEvent::Checked { cancelled, owns_lease, all_embedded }) => {
            if cancelled {
                failed(attempt, "Processing cancelled".to_owned())
            } else if !owns_lease {
                failed(attempt, "Task lease lost".to_owned())
            } else if !all_embedded {
                failed(attempt, "Embedding did not produce vectors for every chunk".to_owned())
            } else {
                (
                    DocStage::Working { attempt, phase: DocPhase::Assembling },
                    one(DocAction::Assemble),
                )
            }
        },
        (DocPhase::Assembling, DocEvent::Assembled(Ok(n))) => (
            DocStage::Working { attempt, phase: DocPhase::Rechecking(n) },
            one(DocAction::CheckCancelled),
        ),
        (DocPhase::Assembling, DocEvent::Assembled(Err(e))) => failed(attempt, e),
        (DocPhase::Rechecking(n), DocEvent::Rechecked { cancelled }) => {
            if cancelled {
                failed(attempt, "Processing cancelled".to_owned())
            } else {
                (
                    DocStage::Working { attempt, phase: DocPhase::Renewing(n) },
                    one(DocAction::RenewLease { lease_ms: TASK_COMMIT_LEASE_DURATION_MS }),
                )
            }
        },
        (DocPhase::Renewing(n), DocEvent::Renewed(Ok(held))) => {
            if held {
                (
                    DocStage::Working { attempt, phase: DocPhase::Committing(n) },
                    one(DocAction::Commit { message: indexed_text(n) }),
                )
            } else {
                failed(attempt, "Task lease lost before index commit".to_owned())
            }
        },
        (DocPhase::Renewing(n), DocEvent::Renewed(Err(e))) => failed(attempt, e),
        (DocPhase::Committing(n), DocEvent::Committed(Ok(_))) => (
            DocStage::Stopped,
            one(
                DocAction::UpdateTask {
                    status: "done".to_owned(),
                    progress: 100,
                    message: indexed_text(n),
                },
            ),
        ),
        (DocPhase::Committing(n), DocEvent::Committed(Err(e))) => failed(attempt, e),
        _ => (DocStage::Working { attempt, phase }, nothing()),
    }
}

fn end(attempt: u32, error: String, cancelled: bool, can_retry: bool) -> (r: (
    DocStage<String>,
    Vec<DocAction<String>>,
))
    ensures
        (r.0@, action_views(r.1@)) == ending_move(attempt, error@, cancelled, can_retry),
{
    if cancelled {
        return (
            DocStage::Stopped,
            two(
                DocAction::UpdateTask {
                    status: "cancelled".to_owned(),
                    progress: 100,
                    message: "Processing cancelled".to_owned(),
                },
                DocAction::UpdateDocument {
                    run: "CANCELLED".to_owned(),
                    progress: 100,
                    message: "Processing cancelled".to_owned(),
                },
            ),
        );
    }
    if retryable_processing_error(error.as_str()) && can_retry {
        let message = retry_text(attempt, error.as_str());
        let told = message.clone();
        return (
            DocStage::Reporting { run: "UNSTARTED".to_owned(), progress: 0, message },
            one(
                DocAction::UpdateTask { status: "pending".to_owned(), progress: 0, message: told },
            ),
        );
    }
    let told = error.clone();
    (
        DocStage::Reporting { run: "FAILED".to_owned(), progress: 100, message: error },
        one(DocAction::UpdateTask { status: "failed".to_owned(), progress: 100, message: told }),
    )
}

/// What a worker does with a document task: from where it stands and what it has
/// learned to where it stands next and what it does. Anything that it could not have
/// learned there changes nothing.
pub fn process_document(stage: DocStage<String>, event: DocEvent<String>) -> (r: (
    DocStage<String>,
    Vec<DocAction<String>>,
))
    ensures
        (r.0@, action_views(r.1@)) == doc_move(stage@, event@),
{
    match (stage, event) {
        (DocStage::Start, DocEvent::Begun { cancelled }) => {
            if cancelled {
                (
                    DocStage::Stopped,
                    one(
                        DocAction::UpdateDocument {
                            run: "CANCELLED".to_owned(),
                            progress: 100,
                            message: "Processing cancelled".to_owned(),
                        },
                    ),
                )
            } else {
                (
                    DocStage::Claiming,
                    one(
                        DocAction::Claim {
                            lease_ms: TASK_LEASE_DURATION_MS,
                            message: "Parsing document".to_owned(),
                        },
                    ),
                )
            }
        },
        (DocStage::Claiming, DocEvent::Claimed(claim)) => match claim {
            Ok(Some(attempt)) => (
                DocStage::Working { attempt, phase: DocPhase::Preparing },
                two(
                    DocAction::UpdateDocument {
                        run: "RUNNING".to_owned(),
                        progress: 5,
                        message: "Parsing document".to_owned(),
                    },
                    DocAction::Prepare,
                ),
            ),
            _ => (DocStage::Stopped, nothing()),
        },
        (DocStage::Working { attempt, phase }, e) => work(attempt, phase, e),
        (DocStage::Failing { attempt, error }, DocEvent::Ending { cancelled, can_retry }) => end(
            attempt,
            error,
            cancelled,
            can_retry,
        ),
        (DocStage::Reporting { run, progress, message }, DocEvent::TaskUpdated(outcome)) => {
            match outcome {
                Ok(true) => (
                    DocStage::Stopped,
                    one(DocAction::UpdateDocument { run, progress, message }),
                ),
                _ => (DocStage::Stopped, nothing()),
            }
        },
        (s, _) => (s, nothing()),
    }
}

/// The actions of a move hold a commit.
pub open spec fn commits(actions: Seq<DocAction<Seq<char>>>) -> bool {
    exists|i: int| 0 <= i < actions.len() && (#[trigger] actions[i]) is Commit
}

/// A document goes into the index only right after its worker has renewed the lease,
/// with the number of chunks that were made ready; a worker that has lost the lease
/// never commits.
pub proof fn commits_need_a_fresh_lease(stage: DocStage<Seq<char>>, event: DocEvent<Seq<char>>)
    requires
        commits(doc_move(stage, event).1),
    ensures
        event == DocEvent::Renewed(Ok::<_, Seq<char>>(true)),
        stage matches DocStage::Working { phase, .. } && phase is Renewing && doc_move(
            stage,
            event,
        ).1 == seq![DocAction::Commit { message: indexed_message(phase->Renewing_0) }],
{
    let actions = doc_move(stage, event).1;
    let i = choose|i: int| 0 <= i < actions.len() && (#[trigger] actions[i]) is Commit;
    assert(actions[i] is Commit);
}

/// How far a phase is.
pub open spec fn rank(phase: DocPhase) -> nat {
    match phase {
        DocPhase::Preparing => 0,
        DocPhase::Parsing => 1,
        DocPhase::Checking => 2,
        DocPhase::Assembling => 3,
        DocPhase::Rechecking(_) => 4,
        DocPhase::Renewing(_) => 5,
        DocPhase::Committing(_) => 6,
    }
}

/// Work on a document only goes forward: whatever a worker learns, it stays where it
/// is without doing anything, or it comes one phase further, or it leaves the work. So
/// a document is parsed once and committed once in an attempt.
pub proof fn document_work_goes_forward(
    attempt: u32,
    phase: DocPhase,
    event: DocEvent<Seq<char>>,
)
    ensures
        ({
            let moved = doc_move(DocStage::Working { attempt, phase }, event);
            match moved.0 {
                DocStage::Working { attempt: a, phase: p } => a == attempt && (p == phase
                    && moved.1.len() == 0 || rank(p) == rank(phase) + 1),
                DocStage::Failing { attempt: a, .. } => a == attempt,
                DocStage::Stopped => true,
                _ => false,
            }
        }),
{
}

/// A worker that has stopped does nothing more, whatever it still learns.
pub proof fn stopped_workers_stay_stopped(event: DocEvent<Seq<char>>)
    ensures
        doc_move(DocStage::Stopped, event) == stay(DocStage::Stopped),
{
}

/// What becomes of a task that failed: a cancelled one is cancelled whatever the
/// error, one whose error can pass waits for another try while it has tries left, and
/// any other has failed.
pub proof fn failures_end_one_way(
    attempt: u32,
    error: Seq<char>,
    cancelled: bool,
    can_retry: bool,
)
    ensures
        ({
            let actions = doc_move(
                DocStage::Failing { attempt, error },
                DocEvent::Ending { cancelled, can_retry },
            ).1;
            &&& actions.len() >= 1
            &&& actions[0] is UpdateTask
            &&& actions[0]->UpdateTask_status == (if cancelled {
                "cancelled"@
            } else if is_retryable(error) && can_retry {
                "pending"@
            } else {
                "failed"@
            })
        }),
{
}

/// An error that tells of a cancellation, or of settings that somebody has to mend, is
/// never tried again.
pub proof fn hopeless_errors_are_not_retried(error: Seq<char>, before: Seq<char>, after: Seq<char>)
    requires
        error == before + "Invalid parser configuration"@ + after || error == before
            + "Knowledge base not found"@ + after || error == before + "Processing cancelled"@
            + after || error == before + "Embedding is not configured"@ + after,
    ensures
        !is_retryable(error),
{
    if error == before + "Invalid parser configuration"@ + after {
        lemma_occurs("Invalid parser configuration"@, before, after);
    } else if error == before + "Knowledge base not found"@ + after {
        lemma_occurs("Knowledge base not found"@, before, after);
    } else if error == before + "Processing cancelled"@ + after {
        lemma_occurs("Processing cancelled"@, before, after);
    } else {
        lemma_occurs("Embedding is not configured"@, before, after);
    }
}

proof fn lemma_occurs(needle: Seq<char>, before: Seq<char>, after: Seq<char>)
    ensures
        text::occurs_in(needle, before + needle + after),
{
    let all = before + needle + after;
    let k = before.len() as int;
    assert(all.subrange(k, k + needle.len() as int) =~= needle);
    assert(text::occurs_at(needle, all, k));
}

// ── The executor ────────────────────────────────────────────────

/// What the executor tells of a task that it starts.
#[derive(Debug)]
pub struct ExecStart {
    /// Per cent.
    pub progress: u8,
    pub message: String,
}

/// What the executor tells of a task that it starts, or why it does not run the task:
/// its document or its upload is gone.
pub fn executor_start(doc_exists: bool, file_exists: bool) -> (r: Result<ExecStart, String>)
    ensures
        match r {
            Ok(start) => doc_exists && file_exists && start.progress == 5 && start.message@
                == "Parsing document"@,
            Err(reason) => (!doc_exists && reason@ == "Document metadata is missing"@) || (
            doc_exists && !file_exists && reason@ == "Uploaded file is missing"@),
        },
{
    if !doc_exists {
        Err("Document metadata is missing".to_owned())
    } else if !file_exists {
        Err("Uploaded file is missing".to_owned())
    } else {
        Ok(ExecStart { progress: 5, message: "Parsing document".to_owned() })
    }
}

/// What the executor makes of the status that a task has after its run.
pub open spec fn executor_outcome(status: Option<Seq<char>>) -> Result<(), Seq<char>> {
    let status = match status {
        Some(s) => s,
        None => Seq::empty(),
    };
    if status == "done"@ || status == "pending"@ || status == "running"@ {
        Ok(())
    } else if status == "cancelled"@ {
        Err("Processing cancelled"@)
    } else {
        Err("Document processing failed: "@ + status)
    }
}

/// What the executor makes of the status that a task has after its run. A task that
/// waits again, or that another worker runs, is done for this submission; every error
/// is final here, since the queue itself tries again.
pub fn document_executor_handler(status: Option<&str>) -> (r: Result<(), String>)
    ensures
        text::outcome_view(r) == executor_outcome(text::opt_str_view(status)),
{
    let status = match status {
        Some(s) => s,
        None => {
            proof {
                reveal_strlit("");
                assert(""@ =~= Seq::<char>::empty());
            }
            ""
        },
    };
    if text::same(status, "done") || text::same(status, "pending") || text::same(
        status,
        "running",
    ) {
        Ok(())
    } else if text::same(status, "cancelled") {
        Err("Processing cancelled".to_owned())
    } else {
        Err(text::concat("Document processing failed: ", status))
    }
}

// ── The dispatcher ──────────────────────────────────────────────

/// How far a task has come that the dispatcher closes, in per cent.
pub const CLOSED_PROGRESS: u8 = 100;

/// What the dispatcher does with a waiting task.
#[derive(Debug)]
pub enum Dispatch<S> {
    /// Run it as a memory task.
    RunMemory,
    /// Run it as a document task.
    RunDocument,
    /// It is over: its status, its progress in per cent, and a message are noted, and no
    /// worker starts.
    Close { status: S, progress: u8, message: S },
}

impl View for Dispatch<String> {
    type V = Dispatch<Seq<char>>;

    open spec fn view(&self) -> Dispatch<Seq<char>> {
        match self {
            Dispatch::RunMemory => Dispatch::RunMemory,
            Dispatch::RunDocument => Dispatch::RunDocument,
            Dispatch::Close { status, progress, message } => Dispatch::Close {
                status: status@,
                progress: *progress,
                message: message@,
            },
        }
    }
}

/// A task is closed with its whole way behind it, whether it is done or has failed.
pub open spec fn closed(status: Seq<char>, message: Seq<char>) -> Dispatch<Seq<char>> {
    Dispatch::Close { status, progress: 100, message }
}

/// What the dispatcher does with a waiting task. `doc_exists` and `file_exists` tell of
/// the task's document and its upload.
pub open spec fn dispatch_of(task_type: Seq<char>, doc_exists: bool, file_exists: bool) -> Dispatch<
    Seq<char>,
> {
    if task_type == "memory"@ {
        Dispatch::RunMemory
    } else if task_type == "document_parse"@ {
        if !doc_exists {
            closed("failed"@, "Cannot recover task because document metadata is missing"@)
        } else if !file_exists {
            closed("failed"@, "Cannot recover task because uploaded file is missing"@)
        } else {
            Dispatch::RunDocument
        }
    } else if task_type == "mindmap"@ {
        closed("done"@, "place holder"@)
    } else if task_type == "skill"@ {
        closed(
            "failed"@,
            "Skill generation requires the refactored task executor (TE_RUN_MODE=0)."@,
        )
    } else if task_type == "raptor"@ || task_type == "graphrag"@ {
        closed("done"@, "already built inline during document parsing: "@ + task_type)
    } else {
        closed("failed"@, "Unsupported persisted task type"@)
    }
}

fn close(status: &str, message: &str) -> (r: Dispatch<String>)
    ensures
        r@ == closed(status@, message@),
{
    Dispatch::Close {
        status: status.to_owned(),
        progress: CLOSED_PROGRESS,
        message: message.to_owned(),
    }
}

/// What the dispatcher does with a waiting task.
pub fn dispatch_pending_document_tasks(
    task_type: &str,
    doc_exists: bool,
    file_exists: bool,
) -> (r: Dispatch<String>)
    ensures
        r@ == dispatch_of(task_type@, doc_exists, file_exists),
{
    if text::same(task_type, "memory") {
        Dispatch::RunMemory
    } else if text::same(task_type, "document_parse") {
        if !doc_exists {
            close("failed", "Cannot recover task because document metadata is missing")
        } else if !file_exists {
            close("failed", "Cannot recover task because uploaded file is missing")
        } else {
            Dispatch::RunDocument
        }
    } else if text::same(task_type, "mindmap") {
        close("done", "place holder")
    } else if text::same(task_type, "skill") {
        close(
            "failed",
            "Skill generation requires the refactored task executor (TE_RUN_MODE=0).",
        )
    } else if text::same(task_type, "raptor") || text::same(task_type, "graphrag") {
        let message = text::concat("already built inline during document parsing: ", task_type);
        close("done", message.as_str())
    } else {
        close("failed", "Unsupported persisted task type")
    }
}

/// Whether a worker slot could be had.
#[derive(Clone, Copy, Debug, PartialEq, Eq, Structural)]
pub enum Slot {
    Free,
    Taken,
    Closed,
}

/// What the dispatcher does about the next waiting task.
#[derive(Debug)]
pub enum Turn<S> {
    /// The pass is over: the rest wait for the next one.
    Stop,
    /// Someone else has the task; its slot is given back.
    Skip,
    /// The task is dealt with. It keeps its slot only while a worker runs it.
    Act { dispatch: Dispatch<S>, keeps_slot: bool },
}

impl View for Turn<String> {
    type V = Turn<Seq<char>>;

    open spec fn view(&self) -> Turn<Seq<char>> {
        match *self {
            Turn::Stop => Turn::Stop,
            Turn::Skip => Turn::Skip,
            Turn::Act { dispatch, keeps_slot } => Turn::Act { dispatch: dispatch@, keeps_slot },
        }
    }
}

/// What the dispatcher does about the next waiting task, by the slot that it got, by
/// whether it could take the task for itself, and by what the task asks for.
pub fn dispatch_turn(
    slot: Slot,
    taken: bool,
    task_type: &str,
    doc_exists: bool,
    file_exists: bool,
) -> (r: Turn<String>)
    ensures
        r@ == (if slot != Slot::Free {
            Turn::Stop
        } else if !taken {
            Turn::Skip
        } else {
            let dispatch = dispatch_of(task_type@, doc_exists, file_exists);
            Turn::Act { dispatch, keeps_slot: !(dispatch is Close) }
        }),
{
    match slot {
        Slot::Free => {
            if !taken {
                return Turn::Skip;
            }
            let dispatch = dispatch_pending_document_tasks(task_type, doc_exists, file_exists);
            let keeps_slot = match dispatch {
                Dispatch::Close { .. } => false,
                _ => true,
            };
            Turn::Act { dispatch, keeps_slot }
        },
        _ => Turn::Stop,
    }
}

// ── Laws ────────────────────────────────────────────────────────

/// A lease outlives two renewals that come late, and the dispatcher looks six times in
/// its course; a commit is given four times as long.
pub proof fn leases_outlive_their_renewals()
    ensures
        TASK_LEASE_DURATION_MS == 30 * 1000,
        TASK_LEASE_DURATION_MS == 3 * TASK_LEASE_RENEW_INTERVAL_MS,
        TASK_LEASE_DURATION_MS == 6 * TASK_DISPATCH_INTERVAL_MS,
        TASK_COMMIT_LEASE_DURATION_MS == 4 * TASK_LEASE_DURATION_MS,
{
}

/// An error that tells of something that somebody has to mend is not tried again,
/// whatever else it tells; every other error is.
pub proof fn hopeless_errors_are_final(
    message: &str,
    before: Seq<char>,
    after: Seq<char>,
    r: bool,
)
    requires
        call_ensures(retryable_processing_error, (message,), r),
    ensures
        message@ == before + "Embedding is not configured"@ + after ==> !r,
        message@ == before + "Requested embedding model"@ + after ==> !r,
        message@ == before + "Global embedding model"@ + after ==> !r,
        message@ == before + "Provider is disabled"@ + after ==> !r,
        message@ == before + "Knowledge base not found"@ + after ==> !r,
        message@ == before + "Uploaded file is missing"@ + after ==> !r,
        message@ == before + "Invalid upload path"@ + after ==> !r,
        message@ == before + "Invalid parser configuration"@ + after ==> !r,
        message@ == before + "Processing cancelled"@ + after ==> !r,
        !text::occurs_in("Embedding is not configured"@, message@) && !text::occurs_in("Requested embedding model"@, message@) && !text::occurs_in("Global embedding model"@, message@) && !text::occurs_in("Provider is disabled"@, message@) && !text::occurs_in("Knowledge base not found"@, message@) && !text::occurs_in("Uploaded file is missing"@, message@) && !text::occurs_in("Invalid upload path"@, message@) && !text::occurs_in("Invalid parser configuration"@, message@) && !text::occurs_in("Processing cancelled"@, message@) ==> r,
{
    text::occurrences_are_runs("Embedding is not configured"@, before, after, message@);
    text::occurrences_are_runs("Requested embedding model"@, before, after, message@);
    text::occurrences_are_runs("Global embedding model"@, before, after, message@);
    text::occurrences_are_runs("Provider is disabled"@, before, after, message@);
    text::occurrences_are_runs("Knowledge base not found"@, before, after, message@);
    text::occurrences_are_runs("Uploaded file is missing"@, before, after, message@);
    text::occurrences_are_runs("Invalid upload path"@, before, after, message@);
    text::occurrences_are_runs("Invalid parser configuration"@, before, after, message@);
    text::occurrences_are_runs("Processing cancelled"@, before, after, message@);
}

/// Documents are cut by the method that is set, and by `naive` where none is.
pub proof fn documents_are_cut_by_the_method_that_is_set(
    method: Option<String>,
    chosen: String,
    kb: KnowledgeBase,
    r: String,
)
    requires
        call_ensures(parser_or_default, (method,), chosen),
        call_ensures(kb_parser_id, (&kb,), r),
        text::opt_view(method) == json_text_member(kb.parser_config@, "chunk_method"@),
    ensures
        method is None ==> chosen@ == "naive"@,
        method matches Some(m) ==> chosen@ == m@,
        r@ == chosen@,
{
}

/// A document is parsed with what its knowledge base is set up with: its owner, its
/// method, its embedding model, and a model for images where there is one that can be
/// used. Without a knowledge base, with settings that cannot be read, or without an
/// embedding model it is not parsed.
pub proof fn documents_are_parsed_as_their_base_is_set_up(
    state: AppState,
    doc: DocRecord,
    config: Result<(), String>,
    r: Result<ParsePlan<'static>, String>,
    ids: Vec<String>,
    embedder: Result<ModelSource<'static>, String>,
    vision: Result<Option<VisionConfig>, String>,
    kb: KnowledgeBase,
    method: String,
)
    requires
        call_ensures(plan_parse, (&state, &doc, config), r),
        ids@.len() == 1,
        ids@[0]@ == doc.kb_id@,
        call_ensures(models::kb_embedder_for, (&state, &ids), embedder),
        call_ensures(models::kb_vision_for, (&state, &ids), vision),
        call_ensures(kb_parser_id, (&kb,), method),
    ensures
        state.kb(doc.kb_id@) is None ==> (r matches Err(e) && e@ == "Knowledge base not found"@),
        state.kb(doc.kb_id@) == Some(kb) ==> match (config, embedder) {
            (Err(reason), _) => r matches Err(e) && e@ == "Invalid parser configuration: "@
                + reason@,
            (Ok(_), Err(reason)) => r matches Err(e) && e@ == reason@,
            (Ok(_), Ok(source)) => r matches Ok(plan) && plan.owner_id@ == kb.owner_id@
                && plan.parser_id@ == method@ && plan.embedder@ == source@ && (match vision {
                Ok(Some(v)) => plan.vision matches Some(w) && w@ == v@,
                _ => plan.vision is None,
            }),
        },
{
    assert(text::views(ids@) =~= seq![doc.kb_id@]);
}

/// A series of moves: where the worker stands at the end, and all that it did on the
/// way.
pub open spec fn doc_moves(stage: DocStage<Seq<char>>, events: Seq<DocEvent<Seq<char>>>) -> DocMove
    decreases events.len(),
{
    if events.len() == 0 {
        (stage, Seq::empty())
    } else {
        let before = doc_moves(stage, events.drop_last());
        let moved = doc_move(before.0, events.last());
        (moved.0, before.1 + moved.1)
    }
}

proof fn lemma_doc_moves_push(
    stage: DocStage<Seq<char>>,
    events: Seq<DocEvent<Seq<char>>>,
    event: DocEvent<Seq<char>>,
)
    ensures
        doc_moves(stage, events.push(event)) == (
            doc_move(doc_moves(stage, events).0, event).0,
            doc_moves(stage, events).1 + doc_move(doc_moves(stage, events).0, event).1,
        ),
{
    assert(events.push(event).drop_last() =~= events);
}

/// What a worker learns on the way through a task on which everything goes well.
pub open spec fn smooth_events(attempt: u32, n: usize) -> Seq<DocEvent<Seq<char>>> {
    seq![
        DocEvent::Begun { cancelled: false },
        DocEvent::Claimed(Ok(Some(attempt))),
        DocEvent::Prepared(Ok(())),
        DocEvent::Parsed(Ok(())),
        DocEvent::Checked { cancelled: false, owns_lease: true, all_embedded: true },
        DocEvent::Assembled(Ok(n)),
        DocEvent::Rechecked { cancelled: false },
        DocEvent::Renewed(Ok(true)),
        DocEvent::Committed(Ok(())),
    ]
}

/// A document task on which everything goes well: the worker claims it, sets up the
/// parse, parses, notes the run, checks its lease, makes the chunks ready, asks whether
/// the task was cancelled, renews its lease for the commit, and commits; in the end the
/// task is done.
pub proof fn document_tasks_run_to_their_end(attempt: u32, n: usize)
    ensures
        doc_moves(DocStage::Start, smooth_events(attempt, n)).0 is Stopped,
        doc_moves(DocStage::Start, smooth_events(attempt, n)).1 == seq![
        DocAction::Claim { lease_ms: 30_000, message: "Parsing document"@ },
        DocAction::UpdateDocument { run: "RUNNING"@, progress: 5, message: "Parsing document"@ },
        DocAction::Prepare,
        DocAction::Parse,
        DocAction::RecordRun { status: "done"@, error: Seq::empty() },
        DocAction::CheckLease,
        DocAction::Assemble,
        DocAction::CheckCancelled,
        DocAction::RenewLease { lease_ms: 120_000 },
        DocAction::Commit { message: "Indexed "@ + text::decimal(n as nat) + " chunks"@ },
        DocAction::UpdateTask {
            status: "done"@,
            progress: 100,
            message: "Indexed "@ + text::decimal(n as nat) + " chunks"@,
        },
    ],
{
    let e0: Seq<DocEvent<Seq<char>>> = Seq::empty();
    let e1 = e0.push(DocEvent::Begun { cancelled: false });
    lemma_doc_moves_push(DocStage::Start, e0, DocEvent::Begun { cancelled: false });
    let e2 = e1.push(DocEvent::Claimed(Ok(Some(attempt))));
    lemma_doc_moves_push(DocStage::Start, e1, DocEvent::Claimed(Ok(Some(attempt))));
    let e3 = e2.push(DocEvent::Prepared(Ok(())));
    lemma_doc_moves_push(DocStage::Start, e2, DocEvent::Prepared(Ok(())));
    let e4 = e3.push(DocEvent::Parsed(Ok(())));
    lemma_doc_moves_push(DocStage::Start, e3, DocEvent::Parsed(Ok(())));
    let e5 = e4.push(DocEvent::Checked { cancelled: false, owns_lease: true, all_embedded: true });
    lemma_doc_moves_push(DocStage::Start, e4, DocEvent::Checked { cancelled: false, owns_lease: true, all_embedded: true });
    let e6 = e5.push(DocEvent::Assembled(Ok(n)));
    lemma_doc_moves_push(DocStage::Start, e5, DocEvent::Assembled(Ok(n)));
    let e7 = e6.push(DocEvent::Rechecked { cancelled: false });
    lemma_doc_moves_push(DocStage::Start, e6, DocEvent::Rechecked { cancelled: false });
    let e8 = e7.push(DocEvent::Renewed(Ok(true)));
    lemma_doc_moves_push(DocStage::Start, e7, DocEvent::Renewed(Ok(true)));
    let e9 = e8.push(DocEvent::Committed(Ok(())));
    lemma_doc_moves_push(DocStage::Start, e8, DocEvent::Committed(Ok(())));
    assert(smooth_events(attempt, n) =~= e9);
    let done: Seq<DocAction<Seq<char>>> = seq![
        DocAction::Claim { lease_ms: 30_000, message: "Parsing document"@ },
        DocAction::UpdateDocument { run: "RUNNING"@, progress: 5, message: "Parsing document"@ },
        DocAction::Prepare,
        DocAction::Parse,
        DocAction::RecordRun { status: "done"@, error: Seq::empty() },
        DocAction::CheckLease,
        DocAction::Assemble,
        DocAction::CheckCancelled,
        DocAction::RenewLease { lease_ms: 120_000 },
        DocAction::Commit { message: "Indexed "@ + text::decimal(n as nat) + " chunks"@ },
        DocAction::UpdateTask {
            status: "done"@,
            progress: 100,
            message: "Indexed "@ + text::decimal(n as nat) + " chunks"@,
        },
    ];
    assert(doc_moves(DocStage::Start, e9).1 =~= done);
}

/// A worker does what its moves say.
pub proof fn document_workers_follow_their_moves(
    stage: DocStage<String>,
    event: DocEvent<String>,
    r: (DocStage<String>, Vec<DocAction<String>>),
)
    requires
        call_ensures(process_document, (stage, event), r),
    ensures
        r.0@ == doc_move(stage@, event@).0,
        action_views(r.1@) == doc_move(stage@, event@).1,
{
}

/// The worker gives the work up for this reason, and asks what becomes of the task.
pub open spec fn gives_up(moved: DocMove, attempt: u32, reason: Seq<char>) -> bool {
    &&& moved.0 == DocStage::Failing { attempt, error: reason }
    &&& moved.1 == seq![DocAction::<Seq<char>>::AskEnding]
}

/// Whatever goes wrong, the work is given up for a reason that tells what went wrong; a
/// parse that failed is noted as a run as well.
pub proof fn document_failures_tell_their_reason(
    attempt: u32,
    phase: DocPhase,
    n: usize,
    reason: Seq<char>,
    cancelled: bool,
    owns_lease: bool,
    all_embedded: bool,
)
    ensures
        ({
            let at = |p: DocPhase, e: DocEvent<Seq<char>>|
                doc_move(DocStage::Working { attempt, phase: p }, e);
            let lost = Err::<(), Seq<char>>(reason);
            &&& gives_up(at(phase, DocEvent::Heartbeat(Ok(false))), attempt, "Task lease lost"@)
            &&& gives_up(
                at(phase, DocEvent::Heartbeat(Err(reason))),
                attempt,
                "Failed to renew task lease"@,
            )
            &&& gives_up(at(DocPhase::Preparing, DocEvent::Prepared(lost)), attempt, reason)
            &&& gives_up(at(DocPhase::Assembling, DocEvent::Assembled(Err(reason))), attempt, reason)
            &&& gives_up(at(DocPhase::Renewing(n), DocEvent::Renewed(Err(reason))), attempt, reason)
            &&& gives_up(
                at(DocPhase::Renewing(n), DocEvent::Renewed(Ok(false))),
                attempt,
                "Task lease lost before index commit"@,
            )
            &&& gives_up(at(DocPhase::Committing(n), DocEvent::Committed(lost)), attempt, reason)
            &&& gives_up(
                at(DocPhase::Rechecking(n), DocEvent::Rechecked { cancelled: true }),
                attempt,
                "Processing cancelled"@,
            )
            &&& at(DocPhase::Parsing, DocEvent::Parsed(lost)) == (
                DocStage::Failing { attempt, error: reason },
                seq![
                    DocAction::RecordRun { status: "failed"@, error: reason },
                    DocAction::AskEnding,
                ],
            )
            &&& cancelled ==> gives_up(
                at(
                    DocPhase::Checking,
                    DocEvent::Checked { cancelled, owns_lease, all_embedded },
                ),
                attempt,
                "Processing cancelled"@,
            )
            &&& !cancelled && !owns_lease ==> gives_up(
                at(
                    DocPhase::Checking,
                    DocEvent::Checked { cancelled, owns_lease, all_embedded },
                ),
                attempt,
                "Task lease lost"@,
            )
            &&& !cancelled && owns_lease && !all_embedded ==> gives_up(
                at(
                    DocPhase::Checking,
                    DocEvent::Checked { cancelled, owns_lease, all_embedded },
                ),
                attempt,
                "Embedding did not produce vectors for every chunk"@,
            )
        }),
{
}

/// A renewal that works changes nothing; a task that was cancelled before it started, or
/// that somebody else holds, is not worked on.
pub proof fn document_tasks_without_work_are_left(
    attempt: u32,
    phase: DocPhase,
    reason: Seq<char>,
)
    ensures
        doc_move(DocStage::Working { attempt, phase }, DocEvent::Heartbeat(Ok(true))) == (
            DocStage::<Seq<char>>::Working { attempt, phase },
            Seq::<DocAction<Seq<char>>>::empty(),
        ),
        doc_move(DocStage::Start, DocEvent::Begun { cancelled: true }) == (
            DocStage::<Seq<char>>::Stopped,
            seq![
                DocAction::UpdateDocument {
                    run: "CANCELLED"@,
                    progress: 100,
                    message: "Processing cancelled"@,
                },
            ],
        ),
        doc_move(DocStage::Claiming, DocEvent::Claimed(Ok(None))) == (
            DocStage::<Seq<char>>::Stopped,
            Seq::<DocAction<Seq<char>>>::empty(),
        ),
        doc_move(DocStage::Claiming, DocEvent::Claimed(Err(reason))) == (
            DocStage::<Seq<char>>::Stopped,
            Seq::<DocAction<Seq<char>>>::empty(),
        ),
{
}

/// A task that failed ends in one of three ways, and so does its document once the task
/// is noted: both are cancelled, both wait for another try from the start, or both have
/// failed for the reason.
pub proof fn failed_document_tasks_end_with_their_document(
    attempt: u32,
    error: &str,
    cancelled: bool,
    can_retry: bool,
    passing: bool,
)
    requires
        call_ensures(retryable_processing_error, (error,), passing),
    ensures
        ({
            let ended = doc_move(
                DocStage::Failing { attempt, error: error@ },
                DocEvent::Ending { cancelled, can_retry },
            );
            let noted = doc_move(ended.0, DocEvent::TaskUpdated(Ok(true)));
            let again = "Attempt "@ + text::decimal(attempt as nat) + " failed: "@ + error@
                + "; retrying"@;
            &&& cancelled ==> ended == (
                DocStage::<Seq<char>>::Stopped,
                seq![
                    DocAction::UpdateTask {
                        status: "cancelled"@,
                        progress: 100,
                        message: "Processing cancelled"@,
                    },
                    DocAction::UpdateDocument {
                        run: "CANCELLED"@,
                        progress: 100,
                        message: "Processing cancelled"@,
                    },
                ],
            )
            &&& !cancelled && passing && can_retry ==> ended.1 == seq![
                DocAction::UpdateTask { status: "pending"@, progress: 0, message: again },
            ] && noted == (
                DocStage::<Seq<char>>::Stopped,
                seq![
                    DocAction::UpdateDocument { run: "UNSTARTED"@, progress: 0, message: again },
                ],
            )
            &&& !cancelled && !(passing && can_retry) ==> ended.1 == seq![
                DocAction::UpdateTask { status: "failed"@, progress: 100, message: error@ },
            ] && noted == (
                DocStage::<Seq<char>>::Stopped,
                seq![
                    DocAction::UpdateDocument {
                        run: "FAILED"@,
                        progress: 100,
                        message: error@,
                    },
                ],
            )
            &&& !cancelled ==> doc_move(ended.0, DocEvent::TaskUpdated(Ok(false))) == (
                DocStage::<Seq<char>>::Stopped,
                Seq::<DocAction<Seq<char>>>::empty(),
            )
        }),
{
}

proof fn lemma_report_keys()
    ensures
        "output_format"@ != "text"@,
        "output_format"@ != "_elapsed_time"@,
        "output_format"@ != "type"@,
        "output_format"@ != "value"@,
        "text"@ != "_elapsed_time"@,
        "text"@ != "type"@,
        "text"@ != "value"@,
        "_elapsed_time"@ != "type"@,
        "_elapsed_time"@ != "value"@,
        "type"@ != "value"@,
{
    reveal_strlit("output_format");
    reveal_strlit("text");
    reveal_strlit("_elapsed_time");
    reveal_strlit("type");
    reveal_strlit("value");
    assert("output_format"@.len() != "text"@.len());
    assert("output_format"@[0] != "_elapsed_time"@[0]);
    assert("output_format"@.len() != "type"@.len());
    assert("output_format"@.len() != "value"@.len());
    assert("text"@.len() != "_elapsed_time"@.len());
    assert("text"@[1] != "type"@[1]);
    assert("text"@.len() != "value"@.len());
    assert("_elapsed_time"@.len() != "type"@.len());
    assert("_elapsed_time"@.len() != "value"@.len());
    assert("type"@.len() != "value"@.len());
}

/// The report of a run that failed tells of the parser alone, whose text is the reason,
/// after no time.
pub proof fn failed_runs_are_reported_by_their_reason(error: &str, r: Vec<StageReport>)
    requires
        call_ensures(failed_report, (error,), r),
    ensures
        r@.len() == 1,
        r@[0].id@ == "parser"@,
        r@[0].component@ == "Parser"@,
        r@[0].title@ == "Parser"@,
        r@[0].elapsed_seconds == 0,
        r@[0].outputs@.get("text"@) matches Some(t) && t.text("type"@) == Some("string"@) && t.text(
            "value"@,
        ) == Some(error@),
        r@[0].outputs@.get("output_format"@) matches Some(t) && t.text("type"@) == Some("string"@)
            && t.text("value"@) == Some("text"@),
        r@[0].outputs@.get("_elapsed_time"@) matches Some(t) && t.text("type"@) == Some("number"@)
            && t.get("value"@) == Some(JsonView::Real(0)),
{
    lemma_report_keys();
    reveal_with_fuel(json::entry, 4);
}

/// The executor starts a task whose document and upload are there, and tells so; of the
/// others it tells what is missing.
pub proof fn executors_start_what_is_there(
    doc_exists: bool,
    file_exists: bool,
    r: Result<ExecStart, String>,
)
    requires
        call_ensures(executor_start, (doc_exists, file_exists), r),
    ensures
        doc_exists && file_exists ==> (r matches Ok(start) && start.progress == 5 && start.message@
            == "Parsing document"@),
        !doc_exists ==> (r matches Err(e) && e@ == "Document metadata is missing"@),
        doc_exists && !file_exists ==> (r matches Err(e) && e@ == "Uploaded file is missing"@),
{
}

proof fn lemma_states_differ()
    ensures
        "done"@ != "pending"@,
        "done"@ != "running"@,
        "done"@ != "cancelled"@,
        "pending"@ != "running"@,
        "pending"@ != "cancelled"@,
        "running"@ != "cancelled"@,
{
    reveal_strlit("done");
    reveal_strlit("pending");
    reveal_strlit("running");
    reveal_strlit("cancelled");
    assert("done"@.len() != "pending"@.len());
    assert("done"@.len() != "running"@.len());
    assert("done"@.len() != "cancelled"@.len());
    assert("pending"@[0] != "running"@[0]);
    assert("pending"@.len() != "cancelled"@.len());
    assert("running"@.len() != "cancelled"@.len());
}

/// After its run a task that is done, that waits again or that somebody runs is settled;
/// a cancelled one and one in any other state have failed, and the state is told.
pub proof fn executors_settle_what_goes_on(status: Option<&str>, r: Result<(), String>)
    requires
        call_ensures(document_executor_handler, (status,), r),
    ensures
        status matches Some(s) ==> (r is Ok <==> s@ == "done"@ || s@ == "pending"@ || s@
            == "running"@),
        status matches Some(s) ==> s@ == "cancelled"@ ==> (r matches Err(e) && e@
            == "Processing cancelled"@),
        status matches Some(s) ==> s@ != "done"@ && s@ != "pending"@ && s@ != "running"@ && s@
            != "cancelled"@ ==> (r matches Err(e) && e@ == "Document processing failed: "@ + s@),
        status is None ==> (r matches Err(e) && e@ == "Document processing failed: "@),
{
    lemma_states_differ();
    reveal_strlit("done");
    reveal_strlit("pending");
    reveal_strlit("running");
    reveal_strlit("cancelled");
    assert("Document processing failed: "@ + Seq::<char>::empty()
        =~= "Document processing failed: "@);
}

/// The dispatcher closes the task with this status and this message, its whole way
/// behind it.
pub open spec fn closes(d: Dispatch<String>, status: Seq<char>, message: Seq<char>) -> bool {
    d matches Dispatch::Close { status: s, progress, message: m } && s@ == status && progress
        == 100 && m@ == message
}

proof fn lemma_task_types_differ()
    ensures
        "memory"@ != "document_parse"@,
        "memory"@ != "mindmap"@,
        "memory"@ != "skill"@,
        "memory"@ != "raptor"@,
        "memory"@ != "graphrag"@,
        "document_parse"@ != "mindmap"@,
        "document_parse"@ != "skill"@,
        "document_parse"@ != "raptor"@,
        "document_parse"@ != "graphrag"@,
        "mindmap"@ != "skill"@,
        "mindmap"@ != "raptor"@,
        "mindmap"@ != "graphrag"@,
        "skill"@ != "raptor"@,
        "skill"@ != "graphrag"@,
        "raptor"@ != "graphrag"@,
{
    reveal_strlit("memory");
    reveal_strlit("document_parse");
    reveal_strlit("mindmap");
    reveal_strlit("skill");
    reveal_strlit("raptor");
    reveal_strlit("graphrag");
    assert("memory"@.len() != "document_parse"@.len());
    assert("memory"@.len() != "mindmap"@.len());
    assert("memory"@.len() != "skill"@.len());
    assert("memory"@[0] != "raptor"@[0]);
    assert("memory"@.len() != "graphrag"@.len());
    assert("document_parse"@.len() != "mindmap"@.len());
    assert("document_parse"@.len() != "skill"@.len());
    assert("document_parse"@.len() != "raptor"@.len());
    assert("document_parse"@.len() != "graphrag"@.len());
    assert("mindmap"@.len() != "skill"@.len());
    assert("mindmap"@.len() != "raptor"@.len());
    assert("mindmap"@.len() != "graphrag"@.len());
    assert("skill"@.len() != "raptor"@.len());
    assert("skill"@.len() != "graphrag"@.len());
    assert("raptor"@.len() != "graphrag"@.len());
}

/// The dispatcher runs memory tasks, and document tasks whose document and upload are
/// there; every other task is closed, and told why.
pub proof fn tasks_are_dispatched_by_their_type(
    task_type: &str,
    doc_exists: bool,
    file_exists: bool,
    r: Dispatch<String>,
)
    requires
        call_ensures(dispatch_pending_document_tasks, (task_type, doc_exists, file_exists), r),
    ensures
        task_type@ == "memory"@ <==> r is RunMemory,
        task_type@ == "document_parse"@ && doc_exists && file_exists <==> r is RunDocument,
        task_type@ == "document_parse"@ && !doc_exists ==> closes(
            r,
            "failed"@,
            "Cannot recover task because document metadata is missing"@,
        ),
        task_type@ == "document_parse"@ && doc_exists && !file_exists ==> closes(
            r,
            "failed"@,
            "Cannot recover task because uploaded file is missing"@,
        ),
        task_type@ == "mindmap"@ ==> closes(r, "done"@, "place holder"@),
        task_type@ == "skill"@ ==> closes(
            r,
            "failed"@,
            "Skill generation requires the refactored task executor (TE_RUN_MODE=0)."@,
        ),
        task_type@ == "raptor"@ || task_type@ == "graphrag"@ ==> closes(
            r,
            "done"@,
            "already built inline during document parsing: "@ + task_type@,
        ),
        task_type@ != "memory"@ && task_type@ != "document_parse"@ && task_type@ != "mindmap"@
            && task_type@ != "skill"@ && task_type@ != "raptor"@ && task_type@ != "graphrag"@
            ==> closes(r, "failed"@, "Unsupported persisted task type"@),
{
    lemma_task_types_differ();
}

/// The dispatcher's pass is over where no slot is free; a task that somebody else has
/// taken is left; any other is dealt with, and keeps its slot exactly where a worker
/// runs it.
pub proof fn slots_are_kept_by_running_tasks(
    slot: Slot,
    taken: bool,
    task_type: &str,
    doc_exists: bool,
    file_exists: bool,
    d: Dispatch<String>,
    r: Turn<String>,
)
    requires
        call_ensures(dispatch_turn, (slot, taken, task_type, doc_exists, file_exists), r),
        call_ensures(dispatch_pending_document_tasks, (task_type, doc_exists, file_exists), d),
    ensures
        slot is Taken || slot is Closed ==> r is Stop,
        slot is Free && !taken ==> r is Skip,
        slot is Free && taken ==> (r matches Turn::Act { dispatch, keeps_slot } && dispatch@ == d@
            && keeps_slot == (d is RunMemory || d is RunDocument)),
{
}

/// A finished run tells how many chunks it indexed, and one that is tried again which
/// attempt failed and why.
pub proof fn runs_tell_what_they_did(
    count: usize,
    indexed: String,
    attempt: u32,
    error: &str,
    retry: String,
)
    requires
        call_ensures(indexed_text, (count,), indexed),
        call_ensures(retry_text, (attempt, error), retry),
    ensures
        indexed@ == "Indexed "@ + text::decimal(count as nat) + " chunks"@,
        retry@ == "Attempt "@ + text::decimal(attempt as nat) + " failed: "@ + error@
            + "; retrying"@,
{
}

/// The worker may learn this in the phase.
pub open spec fn is_due(phase: DocPhase, event: DocEvent<Seq<char>>) -> bool {
    match event {
        DocEvent::Heartbeat(renewed) => renewed != Ok::<bool, Seq<char>>(true),
        DocEvent::Prepared(_) => phase is Preparing,
        DocEvent::Parsed(_) => phase is Parsing,
        DocEvent::Checked { .. } => phase is Checking,
        DocEvent::Assembled(_) => phase is Assembling,
        DocEvent::Rechecked { .. } => phase is Rechecking,
        DocEvent::Renewed(_) => phase is Renewing,
        DocEvent::Committed(_) => phase is Committing,
        _ => false,
    }
}

/// Anything that a worker could not have learned where it stands changes nothing: neither
/// before it starts, nor while it works, nor once the work has failed or is reported.
pub proof fn document_workers_ignore_what_is_not_due(
    attempt: u32,
    phase: DocPhase,
    error: Seq<char>,
    run: Seq<char>,
    progress: u8,
    event: DocEvent<Seq<char>>,
)
    ensures
        !is_due(phase, event) ==> doc_move(DocStage::Working { attempt, phase }, event) == (
            DocStage::<Seq<char>>::Working { attempt, phase },
            Seq::<DocAction<Seq<char>>>::empty(),
        ),
        !(event is Begun) ==> doc_move(DocStage::Start, event) == (
            DocStage::<Seq<char>>::Start,
            Seq::<DocAction<Seq<char>>>::empty(),
        ),
        !(event is Claimed) ==> doc_move(DocStage::Claiming, event) == (
            DocStage::<Seq<char>>::Claiming,
            Seq::<DocAction<Seq<char>>>::empty(),
        ),
        !(event is Ending) ==> doc_move(DocStage::Failing { attempt, error }, event) == (
            DocStage::<Seq<char>>::Failing { attempt, error },
            Seq::<DocAction<Seq<char>>>::empty(),
        ),
        !(event is TaskUpdated) ==> doc_move(
            DocStage::Reporting { run, progress, message: error },
            event,
        ) == (
            DocStage::<Seq<char>>::Reporting { run, progress, message: error },
            Seq::<DocAction<Seq<char>>>::empty(),
        ),
{
}

} // verus!
