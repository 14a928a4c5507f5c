//! Distilling conversations into memories: what a worker does with a memory task,
//! which staged tasks are let through, and what is stored in the end.

use crate::reply;
use crate::reply::{Reply, ReplyView};
use crate::json;
use crate::json::{Json, JsonView};
use crate::state::{AppState, MemoryEntry};
use crate::tasks;
use crate::text;
use vstd::prelude::*;

verus! {

// ── Errors ──────────────────────────────────────────────────────

/// Trying again may help.
pub open spec fn is_retryable(message: Seq<char>) -> bool {
    &&& !text::occurs_in("Memory not found"@, message)
    &&& !text::occurs_in("Memory task payload is missing"@, message)
    &&& !text::occurs_in("Invalid Memory task digest"@, message)
    &&& !text::occurs_in("model is not configured"@, message)
    &&& !text::occurs_in("Provider is disabled"@, message)
    &&& !text::occurs_in("memory extraction response"@, message)
    &&& !text::occurs_in("memory extraction field"@, message)
    &&& !text::occurs_in("Memory task lease lost"@, message)
    &&& !text::occurs_in("Processing cancelled"@, message)
}

/// Trying again may help.
pub fn retryable_memory_error(message: &str) -> (r: bool)
    ensures
        r == is_retryable(message@),
{
    !text::contains(message, "Memory not found") && !text::contains(
        message,
        "Memory task payload is missing",
    ) && !text::contains(message, "Invalid Memory task digest") && !text::contains(
        message,
        "model is not configured",
    ) && !text::contains(message, "Provider is disabled") && !text::contains(
        message,
        "memory extraction response",
    ) && !text::contains(message, "memory extraction field") && !text::contains(
        message,
        "Memory task lease lost",
    ) && !text::contains(message, "Processing cancelled")
}

// ── The source of a task ────────────────────────────────────────

/// The message that a task distils: the digest as a positive number.
pub open spec fn source_of(digest: Seq<char>) -> Option<i64> {
    match text::unsigned_value(digest) {
        Some(v) => if 0 < v <= i64::MAX {
            Some(v as i64)
        } else {
            None
        },
        None => None,
    }
}

/// The message that a task distils: the digest as a positive number.
pub fn source_id(digest: &str) -> (r: Option<i64>)
    ensures
        r == source_of(digest@),
{
    match text::parse_u64(digest) {
        Some(v) => if v > 0 && v <= 0x7fff_ffff_ffff_ffff {
            Some(v as i64)
        } else {
            None
        },
        None => None,
    }
}

/// The kind of memory is distilled from what was said.
pub open spec fn is_extracted(kind: Seq<char>) -> bool {
    kind == "semantic"@ || kind == "episodic"@ || kind == "procedural"@
}

/// The memory holds a kind that is distilled.
pub open spec fn needs_extraction(kinds: Seq<Seq<char>>) -> bool {
    exists|i: int| 0 <= i < kinds.len() && is_extracted(#[trigger] kinds[i])
}

fn wants_extraction(kinds: &Vec<String>) -> (r: bool)
    ensures
        r == needs_extraction(text::views(kinds@)),
{
    let ghost all = text::views(kinds@);
    let mut i: usize = 0;
    while i < kinds.len()
        invariant
            i <= kinds@.len(),
            all == text::views(kinds@),
            forall|k: int| 0 <= k < i ==> !is_extracted(#[trigger] all[k]),
        decreases kinds@.len() - i,
    {
        assert(all[i as int] == kinds@[i as int]@);
        let kind = kinds[i].as_str();
        if text::same(kind, "semantic") || text::same(kind, "episodic") || text::same(
            kind,
            "procedural",
        ) {
            return true;
        }
        i += 1;
    }
    false
}

/// What a task starts from.
#[derive(Debug)]
pub struct MemoryBrief<'a> {
    pub source_id: i64,
    pub memory: &'a MemoryEntry,
    /// Something has to be distilled.
    pub extract: bool,
}

/// Why a task cannot start; nothing where it can.
pub open spec fn brief_refusal(s: AppState, has_payload: bool, digest: Seq<char>, id: Seq<char>) -> Option<
    Seq<char>,
> {
    if !has_payload {
        Some("Memory task payload is missing"@)
    } else if source_of(digest) is None {
        Some("Invalid Memory task digest: "@ + digest)
    } else if s.memory(id) is None {
        Some("Memory not found: "@ + id)
    } else {
        None
    }
}

/// What a task starts from, or why it cannot start.
pub fn open_memory_task<'a>(
    state: &'a AppState,
    has_payload: bool,
    digest: &str,
    memory_id: &str,
) -> (r: Result<MemoryBrief<'a>, String>)
    ensures
        match brief_refusal(*state, has_payload, digest@, memory_id@) {
            Some(reason) => r matches Err(e) && e@ == reason,
            None => r matches Ok(brief) && Some(brief.source_id) == source_of(digest@)
                && state.memory(memory_id@) == Some(*brief.memory) && brief.extract
                == needs_extraction(text::views(brief.memory.memory_type@)),
        },
{
    if !has_payload {
        return Err("Memory task payload is missing".to_owned());
    }
    let source_id = match source_id(digest) {
        Some(id) => id,
        None => {
            return Err(text::concat("Invalid Memory task digest: ", digest));
        },
    };
    let memory = match state.find_memory(memory_id) {
        Some(memory) => memory,
        None => {
            return Err(text::concat("Memory not found: ", memory_id));
        },
    };
    let extract = wants_extraction(&memory.memory_type);
    Ok(MemoryBrief { source_id, memory, extract })
}

/// The outcome of a progress report: a worker that has lost its lease stops.
pub fn update_memory_task_progress(outcome: Result<bool, String>) -> (r: Result<(), String>)
    ensures
        match outcome {
            Ok(true) => r is Ok,
            Ok(false) => r matches Err(e) && e@ == "Memory task lease lost"@,
            Err(reason) => r matches Err(e) && e@ == reason@,
        },
{
    match outcome {
        Ok(true) => Ok(()),
        Ok(false) => Err("Memory task lease lost".to_owned()),
        Err(reason) => Err(reason),
    }
}

// ── A memory task ───────────────────────────────────────────────

/// How far a worker has come with a memory task. The numbers count what was distilled.
#[derive(Clone, Copy, Debug, PartialEq, Eq, Structural)]
pub enum MemoryPhase {
    /// The payload and the memory are looked up.
    Opening,
    /// It is reported that the model is being chosen.
    TellingPrompts,
    /// The model is chosen and asked.
    Extracting,
    TellingExtracted(usize),
    TellingCount(usize),
    /// The embedding model is chosen.
    ChoosingEmbedder(usize),
    TellingEmbedder(usize),
    Embedding(usize),
    TellingEmbedded(usize),
    /// It is asked whether the task was cancelled.
    Checking(usize),
    /// Under the commit lock it is asked whether everything is still as it was.
    Locking(usize),
    Saving(usize),
    TellingSaved(usize),
}

/// Where a worker stands with a memory task.
#[derive(Debug)]
pub enum MemoryStage<S> {
    Start,
    Claiming,
    Working { attempt: u32, phase: MemoryPhase },
    Failing { attempt: u32, error: S },
    Stopped,
}

/// What a worker learns.
#[derive(Debug)]
pub enum MemoryEvent<S> {
    Begun,
    Claimed(Result<Option<u32>, S>),
    /// Whether something has to be distilled.
    Opened(Result<bool, S>),
    /// The outcome of a progress report.
    Told(Result<bool, S>),
    /// How many messages were distilled.
    Extracted(Result<usize, S>),
    EmbedderChosen(Result<(), S>),
    /// Whether there is a vector for every message.
    Embedded(Result<bool, S>),
    Checked { cancelled: bool },
    /// What holds under the commit lock: the lease, the memory, and whether the message
    /// was distilled before.
    Locked { owns_lease: bool, memory_exists: bool, children_exist: bool, memory_id: S },
    Saved(Result<(), S>),
    Heartbeat(Result<bool, S>),
    Ending { cancelled: bool, can_retry: bool },
}

/// What a worker does.
#[derive(Debug)]
pub enum MemoryAction<S> {
    Claim { lease_ms: u64, message: S },
    Open,
    /// Report how far the task has come, in per cent.
    Tell { status: S, progress: u8, message: S },
    Extract,
    ChooseEmbedder,
    Embed,
    CheckCancelled,
    /// Take the commit lock and look.
    Lock,
    /// Store the messages, still under the lock.
    Save,
    AskEnding,
    UpdateTask { status: S, progress: u8, message: S },
}

impl View for MemoryStage<String> {
    type V = MemoryStage<Seq<char>>;

    open spec fn view(&self) -> MemoryStage<Seq<char>> {
        match self {
            MemoryStage::Start => MemoryStage::Start,
            MemoryStage::Claiming => MemoryStage::Claiming,
            MemoryStage::Working { attempt, phase } => MemoryStage::Working {
                attempt: *attempt,
                phase: *phase,
            },
            MemoryStage::Failing { attempt, error } => MemoryStage::Failing {
                attempt: *attempt,
                error: error@,
            },
            MemoryStage::Stopped => MemoryStage::Stopped,
        }
    }
}

impl View for MemoryEvent<String> {
    type V = MemoryEvent<Seq<char>>;

    open spec fn view(&self) -> MemoryEvent<Seq<char>> {
        match self {
            MemoryEvent::Begun => MemoryEvent::Begun,
            MemoryEvent::Claimed(r) => MemoryEvent::Claimed(text::outcome_view(*r)),
            MemoryEvent::Opened(r) => MemoryEvent::Opened(text::outcome_view(*r)),
            MemoryEvent::Told(r) => MemoryEvent::Told(text::outcome_view(*r)),
            MemoryEvent::Extracted(r) => MemoryEvent::Extracted(text::outcome_view(*r)),
            MemoryEvent::EmbedderChosen(r) => MemoryEvent::EmbedderChosen(text::outcome_view(*r)),
            MemoryEvent::Embedded(r) => MemoryEvent::Embedded(text::outcome_view(*r)),
            MemoryEvent::Checked { cancelled } => MemoryEvent::Checked { cancelled: *cancelled },
            MemoryEvent::Locked { owns_lease, memory_exists, children_exist, memory_id } => {
                MemoryEvent::Locked {
                    owns_lease: *owns_lease,
                    memory_exists: *memory_exists,
                    children_exist: *children_exist,
                    memory_id: memory_id@,
                }
            },
            MemoryEvent::Saved(r) => MemoryEvent::Saved(text::outcome_view(*r)),
            MemoryEvent::Heartbeat(r) => MemoryEvent::Heartbeat(text::outcome_view(*r)),
            MemoryEvent::Ending { cancelled, can_retry } => MemoryEvent::Ending {
                cancelled: *cancelled,
                can_retry: *can_retry,
            },
        }
    }
}

impl View for MemoryAction<String> {
    type V = MemoryAction<Seq<char>>;

    open spec fn view(&self) -> MemoryAction<Seq<char>> {
        match self {
            MemoryAction::Claim { lease_ms, message } => MemoryAction::Claim {
                lease_ms: *lease_ms,
                message: message@,
            },
            MemoryAction::Open => MemoryAction::Open,
            MemoryAction::Tell { status, progress, message } => MemoryAction::Tell {
                status: status@,
                progress: *progress,
                message: message@,
            },
            MemoryAction::Extract => MemoryAction::Extract,
            MemoryAction::ChooseEmbedder => MemoryAction::ChooseEmbedder,
            MemoryAction::Embed => MemoryAction::Embed,
            MemoryAction::CheckCancelled => MemoryAction::CheckCancelled,
            MemoryAction::Lock => MemoryAction::Lock,
            MemoryAction::Save => MemoryAction::Save,
            MemoryAction::AskEnding => MemoryAction::AskEnding,
            MemoryAction::UpdateTask { status, progress, message } => MemoryAction::UpdateTask {
                status: status@,
                progress: *progress,
                message: message@,
            },
        }
    }
}

/// The views of a possible action.
pub open spec fn action_view(action: Option<MemoryAction<String>>) -> Option<
    MemoryAction<Seq<char>>,
> {
    match action {
        Some(a) => Some(a@),
        None => None,
    }
}

/// A stage and what is done on the way into it.
pub type MemoryMove = (MemoryStage<Seq<char>>, Option<MemoryAction<Seq<char>>>);

/// The work has failed.
pub open spec fn fail(attempt: u32, error: Seq<char>) -> MemoryMove {
    (MemoryStage::Failing { attempt, error }, Some(MemoryAction::AskEnding))
}

/// The work goes on.
pub open spec fn go_on(
    attempt: u32,
    phase: MemoryPhase,
    action: MemoryAction<Seq<char>>,
) -> MemoryMove {
    (MemoryStage::Working { attempt, phase }, Some(action))
}

/// The task is done.
pub open spec fn finish(message: Seq<char>) -> MemoryMove {
    (
        MemoryStage::Stopped,
        Some(MemoryAction::UpdateTask { status: "done"@, progress: 100, message }),
    )
}

/// A progress report.
pub open spec fn tell(progress: u8, message: Seq<char>) -> MemoryAction<Seq<char>> {
    MemoryAction::Tell { status: "running"@, progress, message }
}

/// What a progress report tells of the messages.
pub open spec fn count_message(n: usize) -> Seq<char> {
    "Extracted "@ + text::decimal(n as nat) + " messages from raw dialogue"@
}

/// The move once a progress report has gone out.
pub open spec fn told_move(attempt: u32, phase: MemoryPhase) -> MemoryMove {
    match phase {
        MemoryPhase::TellingPrompts => go_on(
            attempt,
            MemoryPhase::Extracting,
            MemoryAction::Extract,
        ),
        MemoryPhase::TellingExtracted(n) => if n == 0 {
            finish("No memory extracted from raw message"@)
        } else {
            go_on(attempt, MemoryPhase::TellingCount(n), tell(50, count_message(n)))
        },
        MemoryPhase::TellingCount(n) => go_on(
            attempt,
            MemoryPhase::ChoosingEmbedder(n),
            MemoryAction::ChooseEmbedder,
        ),
        MemoryPhase::TellingEmbedder(n) => go_on(
            attempt,
            MemoryPhase::Embedding(n),
            MemoryAction::Embed,
        ),
        MemoryPhase::TellingEmbedded(n) => go_on(
            attempt,
            MemoryPhase::Checking(n),
            MemoryAction::CheckCancelled,
        ),
        MemoryPhase::TellingSaved(n) => finish("Message saved successfully"@),
        _ => (MemoryStage::Working { attempt, phase }, None),
    }
}

/// A progress report is under way.
pub open spec fn is_telling(phase: MemoryPhase) -> bool {
    phase is TellingPrompts || phase is TellingExtracted || phase is TellingCount
        || phase is TellingEmbedder || phase is TellingEmbedded || phase is TellingSaved
}

/// The move of a worker that holds the lease.
pub open spec fn work_move(
    attempt: u32,
    phase: MemoryPhase,
    event: MemoryEvent<Seq<char>>,
) -> MemoryMove {
    let same: MemoryMove = (MemoryStage::Working { attempt, phase }, None);
    match event {
        MemoryEvent::Heartbeat(Ok(true)) => same,
        MemoryEvent::Heartbeat(Ok(false)) => fail(attempt, "Memory task lease lost"@),
        MemoryEvent::Heartbeat(Err(e)) => fail(attempt, e),
        MemoryEvent::Told(outcome) => if !is_telling(phase) {
            same
        } else {
            match outcome {
                Ok(true) => told_move(attempt, phase),
                Ok(false) => fail(attempt, "Memory task lease lost"@),
                Err(e) => fail(attempt, e),
            }
        },
        MemoryEvent::Opened(outcome) => if phase != MemoryPhase::Opening {
            same
        } else {
            match outcome {
                Err(e) => fail(attempt, e),
                Ok(false) => finish("Memory does not need extraction"@),
                Ok(true) => go_on(
                    attempt,
                    MemoryPhase::TellingPrompts,
                    tell(15, "Prepared prompts and LLM"@),
                ),
            }
        },
        MemoryEvent::Extracted(outcome) => if phase != MemoryPhase::Extracting {
            same
        } else {
            match outcome {
                Err(e) => fail(attempt, e),
                Ok(n) => go_on(
                    attempt,
                    MemoryPhase::TellingExtracted(n),
                    tell(35, "Got extracted result from LLM"@),
                ),
            }
        },
        MemoryEvent::EmbedderChosen(outcome) => match (phase, outcome) {
            (MemoryPhase::ChoosingEmbedder(n), Ok(_)) => go_on(
                attempt,
                MemoryPhase::TellingEmbedder(n),
                tell(65, "Prepared embedding model"@),
            ),
            (MemoryPhase::ChoosingEmbedder(n), Err(e)) => fail(attempt, e),
            _ => same,
        },
        MemoryEvent::Embedded(outcome) => match (phase, outcome) {
            (MemoryPhase::Embedding(n), Ok(true)) => go_on(
                attempt,
                MemoryPhase::TellingEmbedded(n),
                tell(85, "Embedded extracted content"@),
            ),
            (MemoryPhase::Embedding(n), Ok(false)) => fail(
                attempt,
                "Embedding model returned an invalid vector batch"@,
            ),
            (MemoryPhase::Embedding(n), Err(e)) => fail(attempt, e),
            _ => same,
        },
        MemoryEvent::Checked { cancelled } => match phase {
            MemoryPhase::Checking(n) => if cancelled {
                fail(attempt, "Processing cancelled"@)
            } else {
                go_on(attempt, MemoryPhase::Locking(n), MemoryAction::Lock)
            },
            _ => same,
        },
        MemoryEvent::Locked { owns_lease, memory_exists, children_exist, memory_id } => {
            match phase {
                MemoryPhase::Locking(n) => if !owns_lease {
                    fail(attempt, "Memory task lease lost"@)
                } else if !memory_exists {
                    fail(attempt, "Memory not found: "@ + memory_id)
                } else if children_exist {
                    go_on(
                        attempt,
                        MemoryPhase::TellingSaved(n),
                        tell(95, "Saved messages to storage"@),
                    )
                } else {
                    go_on(attempt, MemoryPhase::Saving(n), MemoryAction::Save)
                },
                _ => same,
            }
        },
        MemoryEvent::Saved(outcome) => match (phase, outcome) {
            (MemoryPhase::Saving(n), Ok(_)) => go_on(
                attempt,
                MemoryPhase::TellingSaved(n),
                tell(95, "Saved messages to storage"@),
            ),
            (MemoryPhase::Saving(n), Err(e)) => fail(attempt, e),
            _ => same,
        },
        _ => same,
    }
}

/// The move of a worker whose work has failed.
pub open spec fn ending_move(
    attempt: u32,
    error: Seq<char>,
    cancelled: bool,
    can_retry: bool,
) -> MemoryMove {
    (
        MemoryStage::Stopped,
        Some(
            if cancelled {
                MemoryAction::UpdateTask {
                    status: "cancelled"@,
                    progress: 100,
                    message: "Processing cancelled"@,
                }
            } else if is_retryable(error) && can_retry {
                MemoryAction::UpdateTask {
                    status: "pending"@,
                    progress: 0,
                    message: tasks::retry_message(attempt, error),
                }
            } else {
                MemoryAction::UpdateTask { status: "failed"@, progress: 100, message: error }
            },
        ),
    )
}

/// The move of a worker.
pub open spec fn memory_move(
    stage: MemoryStage<Seq<char>>,
    event: MemoryEvent<Seq<char>>,
) -> MemoryMove {
    match (stage, event) {
        (MemoryStage::Start, MemoryEvent::Begun) => (
            MemoryStage::Claiming,
            Some(
                MemoryAction::Claim {
                    lease_ms: tasks::TASK_LEASE_DURATION_MS,
                    message: "Preparing Memory extraction"@,
                },
            ),
        ),
        (MemoryStage::Claiming, MemoryEvent::Claimed(Ok(Some(attempt)))) => go_on(
            attempt,
            MemoryPhase::Opening,
            MemoryAction::Open,
        ),
        (MemoryStage::Claiming, MemoryEvent::Claimed(_)) => (MemoryStage::Stopped, None),
        (MemoryStage::Working { attempt, phase }, e) => work_move(attempt, phase, e),
        (MemoryStage::Failing { attempt, error }, MemoryEvent::Ending { cancelled, can_retry }) => {
            ending_move(attempt, error, cancelled, can_retry)
        },
        (s, _) => (s, None),
    }
}

fn failed(attempt: u32, error: String) -> (r: (MemoryStage<String>, Option<MemoryAction<String>>))
    ensures
        (r.0@, action_view(r.1)) == fail(attempt, error@),
{
    (MemoryStage::Failing { attempt, error }, Some(MemoryAction::AskEnding))
}

fn next(attempt: u32, phase: MemoryPhase, action: MemoryAction<String>) -> (r: (
    MemoryStage<String>,
    Option<MemoryAction<String>>,
))
    ensures
        (r.0@, action_view(r.1)) == go_on(attempt, phase, action@),
{
    (MemoryStage::Working { attempt, phase }, Some(action))
}

fn report(progress: u8, message: &str) -> (r: MemoryAction<String>)
    ensures
        r@ == tell(progress, message@),
{
    MemoryAction::Tell { status: "running".to_owned(), progress, message: message.to_owned() }
}

fn finished(message: &str) -> (r: (MemoryStage<String>, Option<MemoryAction<String>>))
    ensures
        (r.0@, action_view(r.1)) == finish(message@),
{
    (
        MemoryStage::Stopped,
        Some(
            MemoryAction::UpdateTask {
                status: "done".to_owned(),
                progress: 100,
                message: message.to_owned(),
            },
        ),
    )
}

fn told(attempt: u32, phase: MemoryPhase) -> (r: (
    MemoryStage<String>,
    Option<MemoryAction<String>>,
))
    ensures
        (r.0@, action_view(r.1)) == told_move(attempt, phase),
{
    match phase {
        MemoryPhase::TellingPrompts => next(
            attempt,
            MemoryPhase::Extracting,
            MemoryAction::Extract,
        ),
        MemoryPhase::TellingExtracted(n) => {
            if n == 0 {
                finished("No memory extracted from raw message")
            } else {
                let message = text::concat3(
                    "Extracted ",
                    text::decimal_of(n as u64).as_str(),
                    " messages from raw dialogue",
                );
                next(attempt, MemoryPhase::TellingCount(n), report(50, message.as_str()))
            }
        },
        MemoryPhase::TellingCount(n) => next(
            attempt,
            MemoryPhase::ChoosingEmbedder(n),
            MemoryAction::ChooseEmbedder,
        ),
        MemoryPhase::TellingEmbedder(n) => next(
            attempt,
            MemoryPhase::Embedding(n),
            MemoryAction::Embed,
        ),
        MemoryPhase::TellingEmbedded(n) => next(
            attempt,
            MemoryPhase::Checking(n),
            MemoryAction::CheckCancelled,
        ),
        MemoryPhase::TellingSaved(_) => finished("Message saved successfully"),
        _ => (MemoryStage::Working { attempt, phase }, None),
    }
}

fn telling(phase: MemoryPhase) -> (r: bool)
    ensures
        r == is_telling(phase),
{
    match phase {
        MemoryPhase::TellingPrompts | MemoryPhase::TellingExtracted(_)
        | MemoryPhase::TellingCount(_) | MemoryPhase::TellingEmbedder(_)
        | MemoryPhase::TellingEmbedded(_) | MemoryPhase::TellingSaved(_) => true,
        _ => false,
    }
}

fn work(attempt: u32, phase: MemoryPhase, event: MemoryEvent<String>) -> (r: (
    MemoryStage<String>,
    Option<MemoryAction<String>>,
))
    ensures
        (r.0@, action_view(r.1)) == work_move(attempt, phase, event@),
{
    match (phase, event) {
        (_, MemoryEvent::Heartbeat(Ok(held))) => {
            if held {
                (MemoryStage::Working { attempt, phase }, None)
            } else {
                failed(attempt, "Memory task lease lost".to_owned())
            }
        },
        (_, MemoryEvent::Heartbeat(Err(e))) => failed(attempt, e),
        (_, MemoryEvent::Told(outcome)) => {
            if !telling(phase) {
                return (MemoryStage::Working { attempt, phase }, None);
            }
            match update_memory_task_progress(outcome) {
                Ok(_) => told(attempt, phase),
                Err(e) => failed(attempt, e),
            }
        },
        (MemoryPhase::Opening, MemoryEvent::Opened(outcome)) => match outcome {
            Err(e) => failed(attempt, e),
            Ok(extract) => if extract {
                next(
                    attempt,
                    MemoryPhase::TellingPrompts,
                    report(15, "Prepared prompts and LLM"),
                )
            } else {
                finished("Memory does not need extraction")
            },
        },
        (MemoryPhase::Extracting, MemoryEvent::Extracted(outcome)) => match outcome {
            Err(e) => failed(attempt, e),
            Ok(n) => next(
                attempt,
                MemoryPhase::TellingExtracted(n),
                report(35, "Got extracted result from LLM"),
            ),
        },
        (MemoryPhase::ChoosingEmbedder(n), MemoryEvent::EmbedderChosen(outcome)) => {
            match outcome {
                Ok(_) => next(
                    attempt,
                    MemoryPhase::TellingEmbedder(n),
                    report(65, "Prepared embedding model"),
                ),
                Err(e) => failed(attempt, e),
            }
        },
        (MemoryPhase::Embedding(n), MemoryEvent::Embedded(outcome)) => match outcome {
            Err(e) => failed(attempt, e),
            Ok(complete) => if complete {
                next(
                    attempt,
                    MemoryPhase::TellingEmbedded(n),
                    report(85, "Embedded extracted content"),
                )
            } else {
                failed(attempt, "Embedding model returned an invalid vector batch".to_owned())
            },
        },
        (MemoryPhase::Checking(n), MemoryEvent::Checked { cancelled }) => {
            if cancelled {
                failed(attempt, "Processing cancelled".to_owned())
            } else {
                next(attempt, MemoryPhase::Locking(n), MemoryAction::Lock)
            }
        },
        (
            MemoryPhase::Locking(n),
            MemoryEvent::Locked { owns_lease, memory_exists, children_exist, memory_id },
        ) => {
            if !owns_lease {
                failed(attempt, "Memory task lease lost".to_owned())
            } else if !memory_exists {
                failed(attempt, text::concat("Memory not found: ", memory_id.as_str()))
            } else if children_exist {
                next(
                    attempt,
                    MemoryPhase::TellingSaved(n),
                    report(95, "Saved messages to storage"),
                )
            } else {
                next(attempt, MemoryPhase::Saving(n), MemoryAction::Save)
            }
        },
        (MemoryPhase::Saving(n), MemoryEvent::Saved(outcome)) => match outcome {
            Ok(_) => next(
                attempt,
                MemoryPhase::TellingSaved(n),
                report(95, "Saved messages to storage"),
            ),
            Err(e) => failed(attempt, e),
        },
        _ => (MemoryStage::Working { attempt, phase }, None),
    }
}

fn end(attempt: u32, error: String, cancelled: bool, can_retry: bool) -> (r: (
    MemoryStage<String>,
    Option<MemoryAction<String>>,
))
    ensures
        (r.0@, action_view(r.1)) == ending_move(attempt, error@, cancelled, can_retry),
{
    let action = if cancelled {
        MemoryAction::UpdateTask {
            status: "cancelled".to_owned(),
            progress: 100,
            message: "Processing cancelled".to_owned(),
        }
    } else if retryable_memory_error(error.as_str()) && can_retry {
        MemoryAction::UpdateTask {
            status: "pending".to_owned(),
            progress: 0,
            message: tasks::retry_text(attempt, error.as_str()),
        }
    } else {
        MemoryAction::UpdateTask { status: "failed".to_owned(), progress: 100, message: error }
    };
    (MemoryStage::Stopped, Some(action))
}

/// What a worker does with a memory task: from where it stands and what it has learned
/// to where it stands next and what it does. Anything that it could not have learned
/// there changes nothing.
pub fn process_memory_task(stage: MemoryStage<String>, event: MemoryEvent<String>) -> (r: (
    MemoryStage<String>,
    Option<MemoryAction<String>>,
))
    ensures
        (r.0@, action_view(r.1)) == memory_move(stage@, event@),
{
    match (stage, event) {
        (MemoryStage::Start, MemoryEvent::Begun) => (
            MemoryStage::Claiming,
            Some(
                MemoryAction::Claim {
                    lease_ms: tasks::TASK_LEASE_DURATION_MS,
                    message: "Preparing Memory extraction".to_owned(),
                },
            ),
        ),
        (MemoryStage::Claiming, MemoryEvent::Claimed(claim)) => match claim {
            Ok(Some(attempt)) => next(attempt, MemoryPhase::Opening, MemoryAction::Open),
            _ => (MemoryStage::Stopped, None),
        },
        (MemoryStage::Working { attempt, phase }, e) => work(attempt, phase, e),
        (MemoryStage::Failing { attempt, error }, MemoryEvent::Ending { cancelled, can_retry }) => {
            end(attempt, error, cancelled, can_retry)
        },
        (s, _) => (s, None),
    }
}

/// How far a phase is along the way.
pub open spec fn rank(phase: MemoryPhase) -> nat {
    match phase {
        MemoryPhase::Opening => 0,
        MemoryPhase::TellingPrompts => 1,
        MemoryPhase::Extracting => 2,
        MemoryPhase::TellingExtracted(_) => 3,
        MemoryPhase::TellingCount(_) => 4,
        MemoryPhase::ChoosingEmbedder(_) => 5,
        MemoryPhase::TellingEmbedder(_) => 6,
        MemoryPhase::Embedding(_) => 7,
        MemoryPhase::TellingEmbedded(_) => 8,
        MemoryPhase::Checking(_) => 9,
        MemoryPhase::Locking(_) => 10,
        MemoryPhase::Saving(_) => 11,
        MemoryPhase::TellingSaved(_) => 12,
    }
}

/// Work on a memory task only goes forward: whatever a worker learns, it stays where
/// it is without doing anything, or it comes further, or it leaves the work.
pub proof fn memory_work_goes_forward(
    attempt: u32,
    phase: MemoryPhase,
    event: MemoryEvent<Seq<char>>,
)
    ensures
        ({
            let moved = memory_move(MemoryStage::Working { attempt, phase }, event);
            match moved.0 {
                MemoryStage::Working { attempt: a, phase: p } => a == attempt && (p == phase
                    && moved.1 is None || rank(p) > rank(phase)),
                MemoryStage::Failing { attempt: a, .. } => a == attempt,
                MemoryStage::Stopped => true,
                _ => false,
            }
        }),
{
}

/// Messages are stored only under the commit lock, by a worker that still holds the
/// lease, for a memory that is still there, and only where nothing was stored for the
/// same message before: a task that runs twice stores once.
pub proof fn memories_are_saved_once(stage: MemoryStage<Seq<char>>, event: MemoryEvent<Seq<char>>)
    requires
        memory_move(stage, event).1 == Some(MemoryAction::<Seq<char>>::Save),
    ensures
        event matches MemoryEvent::Locked { owns_lease, memory_exists, children_exist, .. }
            && owns_lease && memory_exists && !children_exist,
{
}

// ── Staged tasks ────────────────────────────────────────────────

/// A task that was staged together with the message that it distils.
#[derive(Debug)]
pub struct StagedTask {
    pub id: String,
    pub memory_id: String,
    pub digest: String,
}

/// What becomes of a staged task.
#[derive(Clone, Copy, Debug, PartialEq, Eq, Structural)]
pub enum Verdict {
    Publish,
    Discard,
}

/// A message of a memory is stored.
pub open spec fn is_stored(messages: Seq<(Seq<char>, i64)>, memory: Seq<char>, message: i64) -> bool {
    messages.contains((memory, message))
}

/// The views of the stored messages: the memory and the number of each.
pub open spec fn message_views(messages: Seq<(String, i64)>) -> Seq<(Seq<char>, i64)> {
    messages.map_values(|m: (String, i64)| (m.0@, m.1))
}

/// What becomes of a staged task: it is let through where its message and its memory
/// are there.
pub open spec fn verdict_of(
    s: AppState,
    messages: Seq<(Seq<char>, i64)>,
    memory: Seq<char>,
    digest: Seq<char>,
) -> Verdict {
    if source_of(digest) is Some && is_stored(messages, memory, source_of(digest)->Some_0)
        && s.memory(memory) is Some {
        Verdict::Publish
    } else {
        Verdict::Discard
    }
}

fn message_stored(messages: &Vec<(String, i64)>, memory: &str, message: i64) -> (r: bool)
    ensures
        r == is_stored(message_views(messages@), memory@, message),
{
    let ghost all = message_views(messages@);
    let mut i: usize = 0;
    while i < messages.len()
        invariant
            i <= messages@.len(),
            all == message_views(messages@),
            forall|k: int| 0 <= k < i ==> #[trigger] all[k] != (memory@, message),
        decreases messages@.len() - i,
    {
        assert(all[i as int] == (messages@[i as int].0@, messages@[i as int].1));
        if messages[i].1 == message && text::same(messages[i].0.as_str(), memory) {
            return true;
        }
        i += 1;
    }
    false
}

/// What becomes of the staged tasks, in order. `messages` are the stored ones, under
/// the commit lock.
pub fn reconcile_staged_memory_tasks(
    state: &AppState,
    staged: &Vec<StagedTask>,
    messages: &Vec<(String, i64)>,
) -> (r: Vec<Verdict>)
    ensures
        r@.len() == staged@.len(),
        forall|i: int|
            0 <= i < r@.len() ==> #[trigger] r@[i] == verdict_of(
                *state,
                message_views(messages@),
                staged@[i].memory_id@,
                staged@[i].digest@,
            ),
{
    let mut out: Vec<Verdict> = Vec::new();
    let mut i: usize = 0;
    while i < staged.len()
        invariant
            i <= staged@.len(),
            out@.len() == i,
            forall|k: int|
                0 <= k < i ==> #[trigger] out@[k] == verdict_of(
                    *state,
                    message_views(messages@),
                    staged@[k].memory_id@,
                    staged@[k].digest@,
                ),
        decreases staged@.len() - i,
    {
        let task = &staged[i];
        let raw_exists = match source_id(task.digest.as_str()) {
            Some(id) => message_stored(messages, task.memory_id.as_str(), id),
            None => false,
        };
        if raw_exists && state.find_memory(task.memory_id.as_str()).is_some() {
            out.push(Verdict::Publish);
        } else {
            out.push(Verdict::Discard);
        }
        i += 1;
    }
    out
}

// ── What is stored ──────────────────────────────────────────────

/// Something that was distilled from a conversation.
#[derive(Debug)]
pub struct Extracted {
    pub message_type: String,
    pub content: String,
    pub valid_at: String,
    pub invalid_at: Option<String>,
}

/// Who took part in the conversation.
#[derive(Debug)]
pub struct MemoryPayload {
    pub user_id: String,
    pub agent_id: String,
    pub session_id: String,
    pub user_input: String,
    pub agent_response: String,
}

/// A stored message. Its vector is carried by the bits of its numbers.
#[derive(Debug)]
pub struct MemoryMessage {
    pub message_id: i64,
    pub message_type: String,
    pub source_id: i64,
    pub memory_id: String,
    pub user_id: String,
    pub agent_id: String,
    pub session_id: String,
    pub content: String,
    pub valid_at: String,
    pub invalid_at: Option<String>,
    pub forget_at: Option<String>,
    pub status: bool,
    pub zone_id: i64,
    pub content_embed: Vec<u32>,
}

/// There is a vector for every message, and none is empty.
pub open spec fn is_complete(count: nat, vectors: Seq<Vec<u32>>) -> bool {
    vectors.len() == count && forall|i: int|
        0 <= i < vectors.len() ==> (#[trigger] vectors[i])@.len() > 0
}

/// There is a vector for every message, and none is empty.
pub fn vectors_complete(count: usize, vectors: &Vec<Vec<u32>>) -> (r: bool)
    ensures
        r == is_complete(count as nat, vectors@),
{
    if vectors.len() != count {
        return false;
    }
    let mut i: usize = 0;
    while i < vectors.len()
        invariant
            i <= vectors@.len(),
            forall|k: int| 0 <= k < i ==> (#[trigger] vectors@[k])@.len() > 0,
        decreases vectors@.len() - i,
    {
        if vectors[i].len() == 0 {
            assert(vectors@[i as int]@.len() == 0);
            return false;
        }
        i += 1;
    }
    true
}

/// The message holds what was distilled.
pub open spec fn is_message_of(
    m: MemoryMessage,
    item: Extracted,
    vector: Seq<u32>,
    id: i64,
    source: i64,
    memory: Seq<char>,
    payload: MemoryPayload,
) -> bool {
    &&& m.message_id == id
    &&& m.message_type@ == item.message_type@
    &&& m.source_id == source
    &&& m.memory_id@ == memory
    &&& m.user_id@ == payload.user_id@
    &&& m.agent_id@ == payload.agent_id@
    &&& m.session_id@ == payload.session_id@
    &&& m.content@ == item.content@
    &&& m.valid_at@ == item.valid_at@
    &&& text::opt_view(m.invalid_at) == text::opt_view(item.invalid_at)
    &&& m.forget_at is None
    &&& m.status
    &&& m.zone_id == 0
    &&& m.content_embed@ == vector
}

/// The messages that are stored for what was distilled, each with its number and its
/// vector.
pub fn memory_messages(
    extracted: &Vec<Extracted>,
    vectors: &Vec<Vec<u32>>,
    ids: &Vec<i64>,
    source: i64,
    memory_id: &str,
    payload: &MemoryPayload,
) -> (r: Vec<MemoryMessage>)
    requires
        vectors@.len() == extracted@.len(),
        ids@.len() == extracted@.len(),
    ensures
        r@.len() == extracted@.len(),
        forall|i: int|
            0 <= i < r@.len() ==> is_message_of(
                #[trigger] r@[i],
                extracted@[i],
                vectors@[i]@,
                ids@[i],
                source,
                memory_id@,
                *payload,
            ),
{
    let mut out: Vec<MemoryMessage> = Vec::new();
    let mut i: usize = 0;
    while i < extracted.len()
        invariant
            i <= extracted@.len(),
            vectors@.len() == extracted@.len(),
            ids@.len() == extracted@.len(),
            out@.len() == i,
            forall|k: int|
                0 <= k < i ==> is_message_of(
                    #[trigger] out@[k],
                    extracted@[k],
                    vectors@[k]@,
                    ids@[k],
                    source,
                    memory_id@,
                    *payload,
                ),
        decreases extracted@.len() - i,
    {
        let item = &extracted[i];
        let invalid_at = match &item.invalid_at {
            Some(at) => Some(at.clone()),
            None => None,
        };
        let message = MemoryMessage {
            message_id: ids[i],
            message_type: item.message_type.clone(),
            source_id: source,
            memory_id: memory_id.to_owned(),
            user_id: payload.user_id.clone(),
            agent_id: payload.agent_id.clone(),
            session_id: payload.session_id.clone(),
            content: item.content.clone(),
            valid_at: item.valid_at.clone(),
            invalid_at,
            forget_at: None,
            status: true,
            zone_id: 0,
            content_embed: crate::chunks::copy_bits(&vectors[i]),
        };
        assert(is_message_of(
            message,
            *item,
            vectors@[i as int]@,
            ids@[i as int],
            source,
            memory_id@,
            *payload,
        ));
        out.push(message);
        i += 1;
    }
    out
}

/// How much a memory may hold; zero stands for no limit.
pub fn memory_budget(memory_size: usize) -> (r: usize)
    ensures
        r == (if memory_size == 0 {
            usize::MAX
        } else {
            memory_size
        }),
{
    if memory_size == 0 {
        usize::MAX
    } else {
        memory_size
    }
}

// ── Clearing ────────────────────────────────────────────────────

/// What comes next while the memories of a user are cleared.
#[derive(Debug)]
pub enum ClearStep<S> {
    /// Cancel the tasks of the memory at this position.
    CancelTasks(usize),
    /// Delete the messages of the memory at this position.
    DeleteMessages(usize),
    /// Delete the memories themselves.
    DeleteMemories,
    Fail(S),
}

/// What comes next once `done` writes are through and the last outcome is this. There
/// are two for each of the memories.
pub fn clear_next(memories: usize, done: usize, outcome: Result<(), String>) -> (r: ClearStep<
    String,
>)
    ensures
        match outcome {
            Err(reason) => r matches ClearStep::Fail(e) && e@ == reason@,
            Ok(_) => if done / 2 >= memories {
                r is DeleteMemories
            } else if done % 2 == 0 {
                r == ClearStep::<String>::CancelTasks((done / 2) as usize)
            } else {
                r == ClearStep::<String>::DeleteMessages((done / 2) as usize)
            },
        },
{
    match outcome {
        Err(reason) => ClearStep::Fail(reason),
        Ok(_) => if done / 2 >= memories {
            ClearStep::DeleteMemories
        } else if done % 2 == 0 {
            ClearStep::CancelTasks(done / 2)
        } else {
            ClearStep::DeleteMessages(done / 2)
        },
    }
}

/// The answer once all memories of a user are cleared: how many there were.
pub open spec fn cleared_of(outcome: Result<u64, Seq<char>>) -> ReplyView {
    match outcome {
        Ok(count) => reply::ok_of(
            "Cleared "@ + text::decimal(count as nat) + " memories"@,
            JsonView::Object(seq![("deleted"@, JsonView::UInt(count))]),
        ),
        Err(reason) => reply::error_of(500, reason),
    }
}

/// The answer once all memories of a user are cleared. The tasks and the messages of
/// every memory go first; the first store that fails decides.
pub fn clear_memories(outcome: Result<u64, String>) -> (r: Reply)
    ensures
        r@ == cleared_of(text::outcome_view(outcome)),
{
    match outcome {
        Ok(count) => {
            let message = text::concat3(
                "Cleared ",
                text::decimal_of(count).as_str(),
                " memories",
            );
            let entries = json::with(json::fields(), "deleted", Json::UInt(count));
            assert(json::entry_views(entries@) =~= seq![("deleted"@, JsonView::UInt(count))]);
            reply::ok(message.as_str(), json::object(entries))
        },
        Err(reason) => reply::api_error(500, reason.as_str()),
    }
}

// ── What a memory task is for ───────────────────────────────────

/// A memory that holds a semantic, an episodic or a procedural kind is distilled into; a
/// memory with none of these kinds is not. A task starts from the message that its digest
/// numbers and from the memory that it names.
pub proof fn memories_of_distilled_kinds_are_distilled(
    state: AppState,
    has_payload: bool,
    digest: &str,
    memory_id: &str,
    r: Result<MemoryBrief<'static>, String>,
)
    requires
        call_ensures(open_memory_task, (&state, has_payload, digest, memory_id), r),
    ensures
        r matches Ok(brief) ==> {
            let kinds = text::views(brief.memory.memory_type@);
            &&& kinds.contains("semantic"@) ==> brief.extract
            &&& kinds.contains("episodic"@) ==> brief.extract
            &&& kinds.contains("procedural"@) ==> brief.extract
            &&& !kinds.contains("semantic"@) && !kinds.contains("episodic"@) && !kinds.contains(
                "procedural"@,
            ) ==> !brief.extract
            &&& state.memory(memory_id@) == Some(*brief.memory)
        },
{
    if let Ok(brief) = r {
        let kinds = text::views(brief.memory.memory_type@);
        if kinds.contains("semantic"@) {
            let k = choose|k: int| 0 <= k < kinds.len() && kinds[k] == "semantic"@;
            assert(is_extracted(kinds[k]));
        }
        if kinds.contains("episodic"@) {
            let k = choose|k: int| 0 <= k < kinds.len() && kinds[k] == "episodic"@;
            assert(is_extracted(kinds[k]));
        }
        if kinds.contains("procedural"@) {
            let k = choose|k: int| 0 <= k < kinds.len() && kinds[k] == "procedural"@;
            assert(is_extracted(kinds[k]));
        }
    }
}

/// The digest of a task is the positive number of a message in decimal notation. Zero,
/// a number that is too large, and anything that is no number name no message.
pub proof fn digests_number_messages(digest: &str, r: Option<i64>, n: nat)
    requires
        call_ensures(source_id, (digest,), r),
    ensures
        digest@ == text::decimal(n) && 0 < n <= i64::MAX ==> r == Some(n as i64),
        digest@ == text::decimal(n) && (n == 0 || n > i64::MAX) ==> r is None,
        text::unsigned_value(digest@) is None ==> r is None,
{
    text::decimal_reads_back(n);
}

/// A task cannot start without its payload, without a message or without its memory, and
/// tells the first of these that is missing; with all three it starts.
pub proof fn tasks_tell_what_is_missing(
    state: AppState,
    has_payload: bool,
    digest: &str,
    memory_id: &str,
    source: Option<i64>,
    r: Result<MemoryBrief<'static>, String>,
)
    requires
        call_ensures(open_memory_task, (&state, has_payload, digest, memory_id), r),
        call_ensures(source_id, (digest,), source),
    ensures
        !has_payload ==> (r matches Err(e) && e@ == "Memory task payload is missing"@),
        has_payload && source is None ==> (r matches Err(e) && e@ == "Invalid Memory task digest: "@
            + digest@),
        has_payload && source is Some && state.memory(memory_id@) is None ==> (r matches Err(e)
            && e@ == "Memory not found: "@ + memory_id@),
        has_payload && source is Some && state.memory(memory_id@) is Some ==> (r matches Ok(brief)
            && Some(brief.source_id) == source),
{
}

/// An error is final where it tells of something that another try cannot mend: a memory,
/// a payload or a digest that is missing or wrong, a model or a provider that is not
/// there, an answer that cannot be read, a lost lease, or a cancellation. Any other error
/// is worth another try.
pub proof fn hopeless_memory_errors_are_final(
    message: &str,
    r: bool,
    before: Seq<char>,
    after: Seq<char>,
)
    requires
        call_ensures(retryable_memory_error, (message,), r),
    ensures
        message@ == before + "Memory not found"@ + after ==> !r,
        message@ == before + "Memory task payload is missing"@ + after ==> !r,
        message@ == before + "Invalid Memory task digest"@ + after ==> !r,
        message@ == before + "model is not configured"@ + after ==> !r,
        message@ == before + "Provider is disabled"@ + after ==> !r,
        message@ == before + "memory extraction response"@ + after ==> !r,
        message@ == before + "memory extraction field"@ + after ==> !r,
        message@ == before + "Memory task lease lost"@ + after ==> !r,
        message@ == before + "Processing cancelled"@ + after ==> !r,
        r || text::occurs_in("Memory not found"@, message@) || text::occurs_in("Memory task payload is missing"@, message@) || text::occurs_in("Invalid Memory task digest"@, message@) || text::occurs_in("model is not configured"@, message@) || text::occurs_in("Provider is disabled"@, message@) || text::occurs_in("memory extraction response"@, message@) || text::occurs_in("memory extraction field"@, message@) || text::occurs_in("Memory task lease lost"@, message@) || text::occurs_in("Processing cancelled"@, message@),
{
    text::occurrences_are_runs("Memory not found"@, before, after, message@);
    text::occurrences_are_runs("Memory task payload is missing"@, before, after, message@);
    text::occurrences_are_runs("Invalid Memory task digest"@, before, after, message@);
    text::occurrences_are_runs("model is not configured"@, before, after, message@);
    text::occurrences_are_runs("Provider is disabled"@, before, after, message@);
    text::occurrences_are_runs("memory extraction response"@, before, after, message@);
    text::occurrences_are_runs("memory extraction field"@, before, after, message@);
    text::occurrences_are_runs("Memory task lease lost"@, before, after, message@);
    text::occurrences_are_runs("Processing cancelled"@, before, after, message@);
}

/// A worker whose report is taken goes on; one that has lost its lease stops, and so does
/// one whose report fails, with the reason.
pub proof fn reports_tell_whether_to_go_on(
    outcome: Result<bool, String>,
    r: Result<(), String>,
)
    requires
        call_ensures(update_memory_task_progress, (outcome,), r),
    ensures
        outcome matches Ok(true) ==> r is Ok,
        outcome matches Ok(false) ==> (r matches Err(e) && e@ == "Memory task lease lost"@),
        outcome matches Err(reason) ==> (r matches Err(e) && e@ == reason@),
{
}

/// A series of moves: where the worker stands at the end, and what it did on the way.
pub open spec fn moves(
    stage: MemoryStage<Seq<char>>,
    events: Seq<MemoryEvent<Seq<char>>>,
) -> (MemoryStage<Seq<char>>, Seq<Option<MemoryAction<Seq<char>>>>)
    decreases events.len(),
{
    if events.len() == 0 {
        (stage, Seq::empty())
    } else {
        let before = moves(stage, events.drop_last());
        let moved = memory_move(before.0, events.last());
        (moved.0, before.1.push(moved.1))
    }
}

proof fn lemma_moves_push(
    stage: MemoryStage<Seq<char>>,
    events: Seq<MemoryEvent<Seq<char>>>,
    event: MemoryEvent<Seq<char>>,
)
    ensures
        moves(stage, events.push(event)).0 == memory_move(moves(stage, events).0, event).0,
        moves(stage, events.push(event)).1 == moves(stage, events).1.push(
            memory_move(moves(stage, events).0, event).1,
        ),
{
    assert(events.push(event).drop_last() =~= events);
}

/// A memory task on which everything goes well: the worker claims it, looks it up, has
/// the model distil the message, embeds what came out, and stores it under the lock,
/// telling how far it is on the way; in the end the task is done.
pub proof fn memory_tasks_run_to_their_end(attempt: u32, n: usize, id: Seq<char>)
    requires
        n > 0,
    ensures
        ({
            let events: Seq<MemoryEvent<Seq<char>>> = seq![
            MemoryEvent::Begun,
            MemoryEvent::Claimed(Ok(Some(attempt))),
            MemoryEvent::Opened(Ok(true)),
            MemoryEvent::Told(Ok(true)),
            MemoryEvent::Extracted(Ok(n)),
            MemoryEvent::Told(Ok(true)),
            MemoryEvent::Told(Ok(true)),
            MemoryEvent::EmbedderChosen(Ok(())),
            MemoryEvent::Told(Ok(true)),
            MemoryEvent::Embedded(Ok(true)),
            MemoryEvent::Told(Ok(true)),
            MemoryEvent::Checked { cancelled: false },
            MemoryEvent::Locked { owns_lease: true, memory_exists: true, children_exist: false, memory_id: id },
            MemoryEvent::Saved(Ok(())),
            MemoryEvent::Told(Ok(true)),
            ];
            moves(MemoryStage::Start, events) == (MemoryStage::<Seq<char>>::Stopped, seq![
                Some(MemoryAction::Claim { lease_ms: 30_000, message: "Preparing Memory extraction"@ }),
                Some(MemoryAction::Open),
                Some(MemoryAction::Tell { status: "running"@, progress: 15, message: "Prepared prompts and LLM"@ }),
                Some(MemoryAction::Extract),
                Some(MemoryAction::Tell { status: "running"@, progress: 35, message: "Got extracted result from LLM"@ }),
                Some(MemoryAction::Tell { status: "running"@, progress: 50, message: "Extracted "@ + text::decimal(n as nat) + " messages from raw dialogue"@ }),
                Some(MemoryAction::ChooseEmbedder),
                Some(MemoryAction::Tell { status: "running"@, progress: 65, message: "Prepared embedding model"@ }),
                Some(MemoryAction::Embed),
                Some(MemoryAction::Tell { status: "running"@, progress: 85, message: "Embedded extracted content"@ }),
                Some(MemoryAction::CheckCancelled),
                Some(MemoryAction::Lock),
                Some(MemoryAction::Save),
                Some(MemoryAction::Tell { status: "running"@, progress: 95, message: "Saved messages to storage"@ }),
                Some(MemoryAction::UpdateTask { status: "done"@, progress: 100, message: "Message saved successfully"@ }),
            ])
        }),
{
    let e0: Seq<MemoryEvent<Seq<char>>> = Seq::empty();
    let e1 = e0.push(MemoryEvent::Begun);
    lemma_moves_push(MemoryStage::Start, e0, MemoryEvent::Begun);
    let e2 = e1.push(MemoryEvent::Claimed(Ok(Some(attempt))));
    lemma_moves_push(MemoryStage::Start, e1, MemoryEvent::Claimed(Ok(Some(attempt))));
    let e3 = e2.push(MemoryEvent::Opened(Ok(true)));
    lemma_moves_push(MemoryStage::Start, e2, MemoryEvent::Opened(Ok(true)));
    let e4 = e3.push(MemoryEvent::Told(Ok(true)));
    lemma_moves_push(MemoryStage::Start, e3, MemoryEvent::Told(Ok(true)));
    let e5 = e4.push(MemoryEvent::Extracted(Ok(n)));
    lemma_moves_push(MemoryStage::Start, e4, MemoryEvent::Extracted(Ok(n)));
    let e6 = e5.push(MemoryEvent::Told(Ok(true)));
    lemma_moves_push(MemoryStage::Start, e5, MemoryEvent::Told(Ok(true)));
    let e7 = e6.push(MemoryEvent::Told(Ok(true)));
    lemma_moves_push(MemoryStage::Start, e6, MemoryEvent::Told(Ok(true)));
    let e8 = e7.push(MemoryEvent::EmbedderChosen(Ok(())));
    lemma_moves_push(MemoryStage::Start, e7, MemoryEvent::EmbedderChosen(Ok(())));
    let e9 = e8.push(MemoryEvent::Told(Ok(true)));
    lemma_moves_push(MemoryStage::Start, e8, MemoryEvent::Told(Ok(true)));
    let e10 = e9.push(MemoryEvent::Embedded(Ok(true)));
    lemma_moves_push(MemoryStage::Start, e9, MemoryEvent::Embedded(Ok(true)));
    let e11 = e10.push(MemoryEvent::Told(Ok(true)));
    lemma_moves_push(MemoryStage::Start, e10, MemoryEvent::Told(Ok(true)));
    let e12 = e11.push(MemoryEvent::Checked { cancelled: false });
    lemma_moves_push(MemoryStage::Start, e11, MemoryEvent::Checked { cancelled: false });
    let e13 = e12.push(MemoryEvent::Locked { owns_lease: true, memory_exists: true, children_exist: false, memory_id: id });
    lemma_moves_push(MemoryStage::Start, e12, MemoryEvent::Locked { owns_lease: true, memory_exists: true, children_exist: false, memory_id: id });
    let e14 = e13.push(MemoryEvent::Saved(Ok(())));
    lemma_moves_push(MemoryStage::Start, e13, MemoryEvent::Saved(Ok(())));
    let e15 = e14.push(MemoryEvent::Told(Ok(true)));
    lemma_moves_push(MemoryStage::Start, e14, MemoryEvent::Told(Ok(true)));
    let events: Seq<MemoryEvent<Seq<char>>> = seq![
            MemoryEvent::Begun,
            MemoryEvent::Claimed(Ok(Some(attempt))),
            MemoryEvent::Opened(Ok(true)),
            MemoryEvent::Told(Ok(true)),
            MemoryEvent::Extracted(Ok(n)),
            MemoryEvent::Told(Ok(true)),
            MemoryEvent::Told(Ok(true)),
            MemoryEvent::EmbedderChosen(Ok(())),
            MemoryEvent::Told(Ok(true)),
            MemoryEvent::Embedded(Ok(true)),
            MemoryEvent::Told(Ok(true)),
            MemoryEvent::Checked { cancelled: false },
            MemoryEvent::Locked { owns_lease: true, memory_exists: true, children_exist: false, memory_id: id },
            MemoryEvent::Saved(Ok(())),
            MemoryEvent::Told(Ok(true)),
    ];
    assert(events =~= e15);
    let actions: Seq<Option<MemoryAction<Seq<char>>>> = seq![
                Some(MemoryAction::Claim { lease_ms: 30_000, message: "Preparing Memory extraction"@ }),
                Some(MemoryAction::Open),
                Some(MemoryAction::Tell { status: "running"@, progress: 15, message: "Prepared prompts and LLM"@ }),
                Some(MemoryAction::Extract),
                Some(MemoryAction::Tell { status: "running"@, progress: 35, message: "Got extracted result from LLM"@ }),
                Some(MemoryAction::Tell { status: "running"@, progress: 50, message: "Extracted "@ + text::decimal(n as nat) + " messages from raw dialogue"@ }),
                Some(MemoryAction::ChooseEmbedder),
                Some(MemoryAction::Tell { status: "running"@, progress: 65, message: "Prepared embedding model"@ }),
                Some(MemoryAction::Embed),
                Some(MemoryAction::Tell { status: "running"@, progress: 85, message: "Embedded extracted content"@ }),
                Some(MemoryAction::CheckCancelled),
                Some(MemoryAction::Lock),
                Some(MemoryAction::Save),
                Some(MemoryAction::Tell { status: "running"@, progress: 95, message: "Saved messages to storage"@ }),
                Some(MemoryAction::UpdateTask { status: "done"@, progress: 100, message: "Message saved successfully"@ }),
    ];
    assert(moves(MemoryStage::Start, events).1 =~= actions);
}

/// A worker does what its moves say.
pub proof fn memory_workers_follow_their_moves(
    stage: MemoryStage<String>,
    event: MemoryEvent<String>,
    r: (MemoryStage<String>, Option<MemoryAction<String>>),
)
    requires
        call_ensures(process_memory_task, (stage, event), r),
    ensures
        r.0@ == memory_move(stage@, event@).0,
        action_view(r.1) == memory_move(stage@, event@).1,
{
}

/// Whatever fails on the way fails the task with its reason: the lookup, the model, the
/// embedding, the storing, a report, or the renewal of the lease. A lost lease, a
/// cancellation, a memory that is gone and vectors that do not fit are told as such.
pub proof fn memory_failures_tell_their_reason(
    attempt: u32,
    n: usize,
    phase: MemoryPhase,
    reason: Seq<char>,
    id: Seq<char>,
    exists_still: bool,
    children: bool,
)
    ensures
        ({
            let at = |p: MemoryPhase| MemoryStage::<Seq<char>>::Working { attempt, phase: p };
            let failing = |e: Seq<char>|
                (
                    MemoryStage::Failing { attempt, error: e },
                    Some(MemoryAction::<Seq<char>>::AskEnding),
                );
            &&& memory_move(at(MemoryPhase::Opening), MemoryEvent::Opened(Err(reason))) == failing(
                reason,
            )
            &&& memory_move(at(MemoryPhase::Extracting), MemoryEvent::Extracted(Err(reason)))
                == failing(reason)
            &&& memory_move(
                at(MemoryPhase::ChoosingEmbedder(n)),
                MemoryEvent::EmbedderChosen(Err(reason)),
            ) == failing(reason)
            &&& memory_move(at(MemoryPhase::Embedding(n)), MemoryEvent::Embedded(Err(reason)))
                == failing(reason)
            &&& memory_move(at(MemoryPhase::Saving(n)), MemoryEvent::Saved(Err(reason))) == failing(
                reason,
            )
            &&& memory_move(at(phase), MemoryEvent::Heartbeat(Err(reason))) == failing(reason)
            &&& memory_move(at(phase), MemoryEvent::Heartbeat(Ok(false))) == failing(
                "Memory task lease lost"@,
            )
            &&& phase is TellingPrompts || phase is TellingExtracted || phase is TellingCount
                || phase is TellingEmbedder || phase is TellingEmbedded || phase is TellingSaved
                ==> memory_move(at(phase), MemoryEvent::Told(Ok(false))) == failing(
                "Memory task lease lost"@,
            ) && memory_move(at(phase), MemoryEvent::Told(Err(reason))) == failing(reason)
            &&& memory_move(at(MemoryPhase::Embedding(n)), MemoryEvent::Embedded(Ok(false)))
                == failing("Embedding model returned an invalid vector batch"@)
            &&& memory_move(at(MemoryPhase::Checking(n)), MemoryEvent::Checked { cancelled: true })
                == failing("Processing cancelled"@)
            &&& memory_move(
                at(MemoryPhase::Locking(n)),
                MemoryEvent::Locked {
                    owns_lease: false,
                    memory_exists: exists_still,
                    children_exist: children,
                    memory_id: id,
                },
            ) == failing("Memory task lease lost"@)
            &&& memory_move(
                at(MemoryPhase::Locking(n)),
                MemoryEvent::Locked {
                    owns_lease: true,
                    memory_exists: false,
                    children_exist: children,
                    memory_id: id,
                },
            ) == failing("Memory not found: "@ + id)
        }),
{
}

/// A task with nothing to distil, or out of which nothing came, is done at once. A task
/// that somebody else holds, or that could not be claimed, is left alone. A message that
/// was distilled before is not stored again, and the task is done all the same.
pub proof fn memory_tasks_without_work_are_done(
    attempt: u32,
    n: usize,
    reason: Seq<char>,
    id: Seq<char>,
)
    ensures
        memory_move(
            MemoryStage::Working { attempt, phase: MemoryPhase::Opening },
            MemoryEvent::Opened(Ok(false)),
        ) == (
            MemoryStage::<Seq<char>>::Stopped,
            Some(
                MemoryAction::UpdateTask {
                    status: "done"@,
                    progress: 100,
                    message: "Memory does not need extraction"@,
                },
            ),
        ),
        memory_move(
            MemoryStage::Working { attempt, phase: MemoryPhase::TellingExtracted(0) },
            MemoryEvent::Told(Ok(true)),
        ) == (
            MemoryStage::<Seq<char>>::Stopped,
            Some(
                MemoryAction::UpdateTask {
                    status: "done"@,
                    progress: 100,
                    message: "No memory extracted from raw message"@,
                },
            ),
        ),
        memory_move(MemoryStage::Claiming, MemoryEvent::Claimed(Ok(None))) == (
            MemoryStage::<Seq<char>>::Stopped,
            None::<MemoryAction<Seq<char>>>,
        ),
        memory_move(MemoryStage::Claiming, MemoryEvent::Claimed(Err(reason))) == (
            MemoryStage::<Seq<char>>::Stopped,
            None::<MemoryAction<Seq<char>>>,
        ),
        memory_move(
            MemoryStage::Working { attempt, phase: MemoryPhase::Locking(n) },
            MemoryEvent::Locked {
                owns_lease: true,
                memory_exists: true,
                children_exist: true,
                memory_id: id,
            },
        ) == (
            MemoryStage::<Seq<char>>::Working { attempt, phase: MemoryPhase::TellingSaved(n) },
            Some(
                MemoryAction::Tell {
                    status: "running"@,
                    progress: 95,
                    message: "Saved messages to storage"@,
                },
            ),
        ),
{
}

/// What becomes of a memory task that failed: a cancelled one is cancelled; one whose
/// error is worth another try waits, with the attempt and the error told, as long as it
/// has tries left; any other has failed with its error.
pub proof fn failed_memory_tasks_end_one_way(
    attempt: u32,
    error: String,
    cancelled: bool,
    can_retry: bool,
    retryable: bool,
    message: &str,
)
    requires
        message@ == error@,
        call_ensures(retryable_memory_error, (message,), retryable),
    ensures
        ({
            let moved = memory_move(
                MemoryStage::Failing { attempt, error: error@ },
                MemoryEvent::Ending { cancelled, can_retry },
            );
            &&& moved.0 is Stopped
            &&& cancelled ==> moved.1 == Some(
                MemoryAction::UpdateTask {
                    status: "cancelled"@,
                    progress: 100,
                    message: "Processing cancelled"@,
                },
            )
            &&& !cancelled && retryable && can_retry ==> moved.1 == Some(
                MemoryAction::UpdateTask {
                    status: "pending"@,
                    progress: 0,
                    message: "Attempt "@ + text::decimal(attempt as nat) + " failed: "@ + error@
                        + "; retrying"@,
                },
            )
            &&& !cancelled && !(retryable && can_retry) ==> moved.1 == Some(
                MemoryAction::UpdateTask { status: "failed"@, progress: 100, message: error@ },
            )
        }),
{
}

/// A staged task is published exactly where its memory is there and the message that its
/// digest numbers is stored in that memory; otherwise it is discarded.
pub proof fn staged_tasks_need_their_message_and_memory(
    state: AppState,
    staged: Vec<StagedTask>,
    messages: Vec<(String, i64)>,
    r: Vec<Verdict>,
    i: int,
    k: int,
    n: nat,
)
    requires
        call_ensures(reconcile_staged_memory_tasks, (&state, &staged, &messages), r),
        0 <= i < staged@.len(),
        staged@[i].digest@ == text::decimal(n),
        0 < n <= i64::MAX,
    ensures
        r@.len() == staged@.len(),
        state.memory(staged@[i].memory_id@) is Some && 0 <= k < messages@.len()
            && messages@[k].0@ == staged@[i].memory_id@ && messages@[k].1 == n ==> r@[i]
            == Verdict::Publish,
        state.memory(staged@[i].memory_id@) is None ==> r@[i] == Verdict::Discard,
        (forall|j: int|
            0 <= j < messages@.len() ==> (#[trigger] messages@[j]).0@ != staged@[i].memory_id@
                || messages@[j].1 != n) ==> r@[i] == Verdict::Discard,
{
    text::decimal_reads_back(n);
    let all = message_views(messages@);
    let wanted = (staged@[i].memory_id@, n as i64);
    assert(r@[i] == verdict_of(state, all, staged@[i].memory_id@, staged@[i].digest@));
    if 0 <= k < messages@.len() && messages@[k].0@ == staged@[i].memory_id@ && messages@[k].1 == n {
        assert(all[k] == wanted);
        assert(all.contains(wanted));
    }
    if forall|j: int|
        0 <= j < messages@.len() ==> (#[trigger] messages@[j]).0@ != staged@[i].memory_id@
            || messages@[j].1 != n {
        if all.contains(wanted) {
            let j = choose|j: int| 0 <= j < all.len() && all[j] == wanted;
            assert(messages@[j].0@ == staged@[i].memory_id@ && messages@[j].1 == n);
        }
    }
}

/// A digest that numbers no message discards its task.
pub proof fn staged_tasks_without_a_number_are_discarded(
    state: AppState,
    staged: Vec<StagedTask>,
    messages: Vec<(String, i64)>,
    r: Vec<Verdict>,
    i: int,
)
    requires
        call_ensures(reconcile_staged_memory_tasks, (&state, &staged, &messages), r),
        0 <= i < staged@.len(),
        text::unsigned_value(staged@[i].digest@) is None,
    ensures
        r@[i] == Verdict::Discard,
{
    assert(r@[i] == verdict_of(
        state,
        message_views(messages@),
        staged@[i].memory_id@,
        staged@[i].digest@,
    ));
}

/// Vectors are complete where there is one for each message and each has a number at
/// least.
pub proof fn every_message_needs_a_vector(
    count: usize,
    vectors: Vec<Vec<u32>>,
    r: bool,
    i: int,
)
    requires
        call_ensures(vectors_complete, (count, &vectors), r),
    ensures
        vectors@.len() != count ==> !r,
        0 <= i < vectors@.len() && vectors@[i]@.len() == 0 ==> !r,
        vectors@.len() == count && (forall|k: int|
            0 <= k < vectors@.len() ==> (#[trigger] vectors@[k])@.len() > 0) ==> r,
{
}

/// What is stored of a conversation: for each thing that was distilled one message, with
/// its text, its kind, its times and its vector, under its own number, for the message
/// and the memory that it comes from and the people who took part. It is in force and is
/// not forgotten.
pub proof fn distilled_things_are_stored_one_by_one(
    extracted: Vec<Extracted>,
    vectors: Vec<Vec<u32>>,
    ids: Vec<i64>,
    source: i64,
    memory_id: &str,
    payload: MemoryPayload,
    r: Vec<MemoryMessage>,
    i: int,
)
    requires
        vectors@.len() == extracted@.len(),
        ids@.len() == extracted@.len(),
        call_ensures(
            memory_messages,
            (&extracted, &vectors, &ids, source, memory_id, &payload),
            r,
        ),
        0 <= i < extracted@.len(),
    ensures
        r@.len() == extracted@.len(),
        r@[i].message_id == ids@[i],
        r@[i].message_type@ == extracted@[i].message_type@,
        r@[i].source_id == source,
        r@[i].memory_id@ == memory_id@,
        r@[i].user_id@ == payload.user_id@,
        r@[i].agent_id@ == payload.agent_id@,
        r@[i].session_id@ == payload.session_id@,
        r@[i].content@ == extracted@[i].content@,
        r@[i].valid_at@ == extracted@[i].valid_at@,
        text::opt_view(r@[i].invalid_at) == text::opt_view(extracted@[i].invalid_at),
        r@[i].forget_at is None,
        r@[i].status,
        r@[i].zone_id == 0,
        r@[i].content_embed@ == vectors@[i]@,
{
    assert(is_message_of(
        r@[i],
        extracted@[i],
        vectors@[i]@,
        ids@[i],
        source,
        memory_id@,
        payload,
    ));
}

/// A memory holds as much as its size says; a size of zero sets no limit.
pub proof fn budgets_are_sizes(memory_size: usize, r: usize)
    requires
        call_ensures(memory_budget, (memory_size,), r),
    ensures
        memory_size > 0 ==> r == memory_size,
        memory_size == 0 ==> r == usize::MAX,
{
}

/// Clearing goes through the memories one by one: first the tasks of a memory are
/// cancelled, and then its messages are deleted. The memories themselves go last, and
/// nothing goes on after a failure.
pub proof fn clearing_goes_memory_by_memory(
    memories: usize,
    i: usize,
    first: ClearStep<String>,
    second: ClearStep<String>,
    last: ClearStep<String>,
    reason: String,
    stop: ClearStep<String>,
)
    requires
        i < memories,
        2 * memories <= usize::MAX,
        call_ensures(clear_next, (memories, (2 * i) as usize, Ok::<(), String>(())), first),
        call_ensures(clear_next, (memories, (2 * i + 1) as usize, Ok::<(), String>(())), second),
        call_ensures(clear_next, (memories, (2 * memories) as usize, Ok::<(), String>(())), last),
        call_ensures(clear_next, (memories, (2 * i) as usize, Err::<(), String>(reason)), stop),
    ensures
        first == ClearStep::<String>::CancelTasks(i),
        second == ClearStep::<String>::DeleteMessages(i),
        last is DeleteMemories,
        stop matches ClearStep::Fail(e) && e@ == reason@,
{
}

/// The answer tells how many memories were cleared, or the reason why they were not.
pub proof fn clearing_tells_how_many_there_were(outcome: Result<u64, String>, r: Reply)
    requires
        call_ensures(clear_memories, (outcome,), r),
    ensures
        outcome matches Ok(count) ==> reply::tells(
            r@,
            200,
            0,
            "Cleared "@ + text::decimal(count as nat) + " memories"@,
        ) && (r@.body.get("data"@) matches Some(data) && data.number("deleted"@) == Some(count)),
        outcome matches Err(reason) ==> reply::tells(r@, 500, 500, reason@),
{
    if let Ok(count) = outcome {
        let data = JsonView::Object(seq![("deleted"@, JsonView::UInt(count))]);
        reply::answers_tell_what_they_were_given(
            200,
            0,
            "Cleared "@ + text::decimal(count as nat) + " memories"@,
            data,
        );
        reveal_with_fuel(json::entry, 2);
    }
    if let Err(reason) = outcome {
        reply::answers_tell_what_they_were_given(500, 500, reason@, JsonView::Null);
    }
}

/// The worker may learn this in the phase.
pub open spec fn is_due(phase: MemoryPhase, event: MemoryEvent<Seq<char>>) -> bool {
    match event {
        MemoryEvent::Heartbeat(renewed) => renewed != Ok::<bool, Seq<char>>(true),
        MemoryEvent::Told(_) => phase is TellingPrompts || phase is TellingExtracted || phase
            is TellingCount || phase is TellingEmbedder || phase is TellingEmbedded || phase
            is TellingSaved,
        MemoryEvent::Opened(_) => phase is Opening,
        MemoryEvent::Extracted(_) => phase is Extracting,
        MemoryEvent::EmbedderChosen(_) => phase is ChoosingEmbedder,
        MemoryEvent::Embedded(_) => phase is Embedding,
        MemoryEvent::Checked { .. } => phase is Checking,
        MemoryEvent::Locked { .. } => phase is Locking,
        MemoryEvent::Saved(_) => phase is Saving,
        _ => false,
    }
}

/// Anything that a worker could not have learned where it stands changes nothing: neither
/// before it starts, nor while it works, nor once the work has failed or is over.
pub proof fn memory_workers_ignore_what_is_not_due(
    attempt: u32,
    phase: MemoryPhase,
    error: Seq<char>,
    event: MemoryEvent<Seq<char>>,
)
    ensures
        !is_due(phase, event) ==> memory_move(MemoryStage::Working { attempt, phase }, event) == (
            MemoryStage::<Seq<char>>::Working { attempt, phase },
            None::<MemoryAction<Seq<char>>>,
        ),
        !(event is Begun) ==> memory_move(MemoryStage::Start, event) == (
            MemoryStage::<Seq<char>>::Start,
            None::<MemoryAction<Seq<char>>>,
        ),
        !(event is Claimed) ==> memory_move(MemoryStage::Claiming, event) == (
            MemoryStage::<Seq<char>>::Claiming,
            None::<MemoryAction<Seq<char>>>,
        ),
        !(event is Ending) ==> memory_move(MemoryStage::Failing { attempt, error }, event) == (
            MemoryStage::<Seq<char>>::Failing { attempt, error },
            None::<MemoryAction<Seq<char>>>,
        ),
        memory_move(MemoryStage::Stopped, event) == (
            MemoryStage::<Seq<char>>::Stopped,
            None::<MemoryAction<Seq<char>>>,
        ),
{
}

} // verus!
