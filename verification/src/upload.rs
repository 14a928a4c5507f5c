//! Taking in uploads: storing a file, registering it as a document, and queueing the
//! document for parsing.

use crate::access;
use crate::access::AuthContext;
use crate::commit;
use crate::datasets;
use crate::hash;
use crate::json;
use crate::json::{Json, JsonView};
use crate::path;
use crate::reply;
use crate::reply::{ApiResponse, Reply, ReplyView};
use crate::state::{AppState, DocRecord, DocView};
use crate::text;
use vstd::prelude::*;
use xxhash_rust::xxh3::Xxh3;

verus! {

/// How large an upload may be where nothing else is configured.
pub const DEFAULT_MAX_UPLOAD_BYTES: usize = 67_108_864;

/// How many files one request may carry.
pub const MAX_DOCUMENTS_PER_UPLOAD: usize = 32;

/// What a request may carry besides its files.
pub const MULTIPART_OVERHEAD_BYTES: usize = 1_048_576;

// ── Storing a file ──────────────────────────────────────────────

/// A file that has been stored.
#[derive(Debug)]
pub struct PersistedUpload {
    pub name: String,
    pub storage_name: String,
    pub path: String,
    pub size: usize,
    pub content_hash: String,
    /// The file is removed again unless something comes to own it.
    pub cleanup_on_drop: bool,
}

impl PersistedUpload {
    /// Hands the file over: from now on it stays.
    pub fn commit(self) -> (r: PersistedUpload)
        ensures
            r == (PersistedUpload { cleanup_on_drop: false, ..self }),
    {
        PersistedUpload {
            name: self.name,
            storage_name: self.storage_name,
            path: self.path,
            size: self.size,
            content_hash: self.content_hash,
            cleanup_on_drop: false,
        }
    }
}

/// Where a file is going to be stored.
#[derive(Debug)]
pub struct UploadPlan<S> {
    pub name: S,
    pub storage_name: S,
    pub final_path: S,
    /// The file is written here first.
    pub temp_path: S,
}

impl View for UploadPlan<String> {
    type V = UploadPlan<Seq<char>>;

    open spec fn view(&self) -> UploadPlan<Seq<char>> {
        UploadPlan {
            name: self.name@,
            storage_name: self.storage_name@,
            final_path: self.final_path@,
            temp_path: self.temp_path@,
        }
    }
}

/// The name that an upload comes with; one without a name is called `uploaded`.
pub open spec fn given_name(file_name: Option<Seq<char>>) -> Seq<char> {
    match file_name {
        Some(name) => name,
        None => "uploaded"@,
    }
}

/// The name that an upload comes with.
pub fn name_or_default<'a>(file_name: Option<&'a str>) -> (r: &'a str)
    ensures
        r@ == given_name(text::opt_str_view(file_name)),
{
    match file_name {
        Some(name) => name,
        None => "uploaded",
    }
}

/// Where the file is going to be stored.
pub open spec fn plan_of(
    name: Seq<char>,
    destination: Seq<char>,
    storage_id: Seq<char>,
    temp_id: Seq<char>,
) -> UploadPlan<Seq<char>> {
    UploadPlan {
        name,
        storage_name: path::stored_as(storage_id, name),
        final_path: path::below(destination, path::stored_as(storage_id, name)),
        temp_path: path::below(destination, ".upload-"@ + temp_id + ".tmp"@),
    }
}

/// Where the file of a form field is going to be stored, or why it is not. `temp_id`
/// is fresh.
pub fn plan_upload(
    file_name: Option<&str>,
    media_type_known: bool,
    destination: &str,
    storage_id: &str,
    temp_id: &str,
) -> (r: Result<UploadPlan<String>, String>)
    ensures
        ({
            let name = text::trimmed(given_name(text::opt_str_view(file_name)));
            match r {
                Ok(plan) => path::is_upload_name(name) && media_type_known && plan@ == plan_of(
                    name,
                    destination@,
                    storage_id@,
                    temp_id@,
                ),
                Err(e) => (e@ == "Invalid filename"@ && !path::is_upload_name(name)) || (e@
                    == "Unsupported file type"@ && path::is_upload_name(name)
                    && !media_type_known),
            }
        }),
{
    let name = match path::safe_upload_name(name_or_default(file_name), media_type_known) {
        Ok(name) => name,
        Err(reason) => {
            return Err(reason);
        },
    };
    let storage_name = path::storage_name(storage_id, name.as_str());
    let final_path = path::join(destination, storage_name.as_str());
    let temp_name = text::concat3(".upload-", temp_id, ".tmp");
    let temp_path = path::join(destination, temp_name.as_str());
    Ok(UploadPlan { name, storage_name, final_path, temp_path })
}

/// A stored file is never overwritten.
pub fn destination_free(exists: bool) -> (r: Result<(), String>)
    ensures
        match r {
            Ok(_) => !exists,
            Err(e) => exists && e@ == "Upload destination already exists"@,
        },
{
    if exists {
        Err("Upload destination already exists".to_owned())
    } else {
        Ok(())
    }
}

/// How much of a file has come in.
pub struct UploadProgress {
    size: usize,
    max_bytes: usize,
    hasher: Xxh3,
}

impl UploadProgress {
    /// What has come in so far.
    pub closed spec fn content(&self) -> Seq<u8> {
        hash::fed(self.hasher)
    }

    /// How large the file may be.
    pub closed spec fn limit(&self) -> usize {
        self.max_bytes
    }

    /// The size is that of what has come in, and within the limit; the hash is one
    /// without a seed.
    pub closed spec fn wf(&self) -> bool {
        &&& self.size == self.content().len()
        &&& self.size <= self.max_bytes
        &&& hash::unseeded(self.hasher)
    }

    /// Nothing has come in.
    pub fn new(max_bytes: usize) -> (r: UploadProgress)
        ensures
            r.wf(),
            r.content() == Seq::<u8>::empty(),
            r.limit() == max_bytes,
    {
        UploadProgress { size: 0, max_bytes, hasher: Xxh3::new() }
    }

    /// Takes the next part of the file, unless the file gets too large with it. After
    /// a refusal the file is given up.
    pub fn accept(&mut self, chunk: &[u8]) -> (r: Result<(), String>)
        requires
            old(self).wf(),
        ensures
            final(self).limit() == old(self).limit(),
            ({
                let size = old(self).content().len() + chunk@.len();
                match r {
                    Ok(_) => size <= old(self).limit() && final(self).wf()
                        && final(self).content() == old(self).content() + chunk@,
                    Err(e) => *final(self) == *old(self) && if size > usize::MAX {
                        e@ == "Uploaded file is too large"@
                    } else {
                        size > old(self).limit() && e@
                            == "Uploaded file exceeds the configured size limit"@
                    },
                }
            }),
    {
        match self.size.checked_add(chunk.len()) {
            None => Err("Uploaded file is too large".to_owned()),
            Some(size) => {
                if size > self.max_bytes {
                    return Err("Uploaded file exceeds the configured size limit".to_owned());
                }
                self.size = size;
                self.hasher.update(chunk);
                Ok(())
            },
        }
    }

    /// How large what has come in is.
    pub fn size(&self) -> (r: usize)
        requires
            self.wf(),
        ensures
            r == self.content().len(),
    {
        self.size
    }

    /// The size and the hash of the whole file, unless it is empty.
    pub fn finish(&self) -> (r: Result<(usize, String), String>)
        requires
            self.wf(),
        ensures
            match r {
                Ok((size, content_hash)) => self.content().len() > 0 && size == self.content().len()
                    && content_hash@ == hash::hash_text(self.content()),
                Err(e) => self.content().len() == 0 && e@ == "Uploaded file is empty"@,
            },
    {
        if self.size == 0 {
            return Err("Uploaded file is empty".to_owned());
        }
        Ok((self.size, hash::digest_text(self.hasher.digest128())))
    }
}

/// The file once it is in its place.
pub fn stored(plan: UploadPlan<String>, size: usize, content_hash: String) -> (r: PersistedUpload)
    ensures
        r.name@ == plan.name@,
        r.storage_name@ == plan.storage_name@,
        r.path@ == plan.final_path@,
        r.size == size,
        r.content_hash@ == content_hash@,
        r.cleanup_on_drop,
{
    PersistedUpload {
        name: plan.name,
        storage_name: plan.storage_name,
        path: plan.final_path,
        size,
        content_hash,
        cleanup_on_drop: true,
    }
}

/// A file that is not taken: why, and what is taken back.
#[derive(Debug)]
pub struct RefusedUpload {
    pub error: String,
    pub undo: Vec<RegisterUndo<String>>,
}

/// What is taken back where a file could not be stored: what was written so far, and
/// the file itself, which may be in its place already.
pub open spec fn undo_upload(plan: UploadPlan<Seq<char>>) -> Seq<RegisterUndo<Seq<char>>> {
    seq![
        RegisterUndo::RemoveFile { path: plan.temp_path },
        RegisterUndo::RemoveFile { path: plan.final_path },
    ]
}

/// What comes of a file whose content was written, by how the writing ended: with the
/// size and the hash of the content, or with a reason to refuse the file.
pub fn persist_upload_field(
    plan: UploadPlan<String>,
    outcome: Result<(usize, String), String>,
) -> (r: Result<PersistedUpload, RefusedUpload>)
    ensures
        match outcome {
            Ok((size, content_hash)) => r matches Ok(upload) && upload.name@ == plan.name@
                && upload.storage_name@ == plan.storage_name@ && upload.path@ == plan.final_path@
                && upload.size == size && upload.content_hash@ == content_hash@
                && upload.cleanup_on_drop,
            Err(reason) => r matches Err(refused) && refused.error@ == reason@
                && register_undo_views(refused.undo@) == undo_upload(plan@),
        },
{
    match outcome {
        Ok((size, content_hash)) => Ok(stored(plan, size, content_hash)),
        Err(error) => {
            let ghost planned = plan@;
            let undo = vec![
                RegisterUndo::RemoveFile { path: plan.temp_path },
                RegisterUndo::RemoveFile { path: plan.final_path },
            ];
            assert(register_undo_views(undo@) =~= undo_upload(planned));
            Err(RefusedUpload { error, undo })
        },
    }
}

// ── One file ────────────────────────────────────────────────────

/// What is done with a field of a form.
#[derive(Debug)]
pub enum FieldAction<S> {
    Skip,
    Store,
    Refuse(S),
}

/// What is done with a field of a form that carries a single file: fields other than
/// `file` do not count.
pub fn persist_single_upload(field: Option<&str>, have_upload: bool) -> (r: FieldAction<String>)
    ensures
        match r {
            FieldAction::Skip => text::opt_str_view(field) != Some("file"@),
            FieldAction::Store => text::opt_str_view(field) == Some("file"@) && !have_upload,
            FieldAction::Refuse(e) => text::opt_str_view(field) == Some("file"@) && have_upload
                && e@ == "Only one multipart file is allowed"@,
        },
{
    if !is_file_field(field) {
        FieldAction::Skip
    } else if have_upload {
        FieldAction::Refuse("Only one multipart file is allowed".to_owned())
    } else {
        FieldAction::Store
    }
}

/// The file of a form that carries a single one, once all fields are read.
pub fn single_upload(upload: Option<PersistedUpload>) -> (r: Result<PersistedUpload, String>)
    ensures
        match upload {
            Some(u) => r == Ok::<_, String>(u),
            None => r matches Err(e) && e@ == "multipart field 'file' is required"@,
        },
{
    match upload {
        Some(u) => Ok(u),
        None => Err("multipart field 'file' is required".to_owned()),
    }
}

fn is_file_field(field: Option<&str>) -> (r: bool)
    ensures
        r == (text::opt_str_view(field) == Some("file"@)),
{
    match field {
        Some(name) => text::same(name, "file"),
        None => false,
    }
}

// ── Several files ───────────────────────────────────────────────

/// A file that was not taken in.
#[derive(Debug)]
pub struct Failure {
    pub name: String,
    pub message: String,
}

/// The files of one request: what became of each.
#[derive(Debug)]
pub struct UploadBatch {
    pub succeeded: Vec<Json>,
    pub failed: Vec<Failure>,
    pub file_count: usize,
}

/// A failure as it is reported.
pub open spec fn failure_view(f: Failure) -> JsonView {
    JsonView::Object(
        seq![("name"@, JsonView::Str(f.name@)), ("message"@, JsonView::Str(f.message@))],
    )
}

/// The failures as they are reported.
pub open spec fn failure_views(failed: Seq<Failure>) -> Seq<JsonView> {
    failed.map_values(|f: Failure| failure_view(f))
}

/// The status of an answer that tells of several files.
pub open spec fn batch_status(succeeded: nat, failed: nat) -> u16 {
    if failed == 0 {
        202
    } else if succeeded == 0 {
        400
    } else {
        207
    }
}

impl UploadBatch {
    /// Every file that counts has succeeded or failed.
    pub open spec fn wf(&self) -> bool {
        self.file_count == self.succeeded@.len() + self.failed@.len()
    }

    /// Nothing has come yet.
    pub fn new() -> (r: UploadBatch)
        ensures
            r.wf(),
            r.file_count == 0,
    {
        UploadBatch { succeeded: Vec::new(), failed: Vec::new(), file_count: 0 }
    }

    /// What is done with the next field. A file beyond the limit fails at once; a
    /// file that is stored is counted once its outcome is known.
    pub fn next_field(&mut self, field: Option<&str>, file_name: Option<&str>) -> (r: FieldAction<
        String,
    >)
        requires
            old(self).wf(),
            old(self).file_count < usize::MAX,
        ensures
            final(self).wf(),
            match r {
                FieldAction::Skip => {
                    &&& text::opt_str_view(field) != Some("file"@)
                    &&& *final(self) == *old(self)
                },
                FieldAction::Store => {
                    &&& text::opt_str_view(field) == Some("file"@)
                    &&& old(self).file_count < MAX_DOCUMENTS_PER_UPLOAD
                    &&& *final(self) == *old(self)
                },
                FieldAction::Refuse(e) => {
                    &&& text::opt_str_view(field) == Some("file"@)
                    &&& old(self).file_count >= MAX_DOCUMENTS_PER_UPLOAD
                    &&& e@ == "At most 32 files are allowed"@
                    &&& final(self).succeeded@ == old(self).succeeded@
                    &&& final(self).failed@.len() == old(self).failed@.len() + 1
                    &&& final(self).failed@.drop_last() == old(self).failed@
                    &&& final(self).failed@.last().name@ == given_name(
                        text::opt_str_view(file_name),
                    )
                    &&& final(self).failed@.last().message@ == e@
                },
            },
    {
        if !is_file_field(field) {
            return FieldAction::Skip;
        }
        if self.file_count < MAX_DOCUMENTS_PER_UPLOAD {
            return FieldAction::Store;
        }
        let message = "At most 32 files are allowed";
        self.record(name_or_default(file_name), Err(message.to_owned()));
        FieldAction::Refuse(message.to_owned())
    }

    /// Notes what became of a file.
    pub fn record(&mut self, name: &str, outcome: Result<Json, String>)
        requires
            old(self).wf(),
            old(self).file_count < usize::MAX,
        ensures
            final(self).wf(),
            final(self).file_count == old(self).file_count + 1,
            match outcome {
                Ok(data) => {
                    &&& final(self).succeeded@ == old(self).succeeded@.push(data)
                    &&& final(self).failed@ == old(self).failed@
                },
                Err(message) => {
                    &&& final(self).succeeded@ == old(self).succeeded@
                    &&& final(self).failed@.len() == old(self).failed@.len() + 1
                    &&& final(self).failed@.drop_last() == old(self).failed@
                    &&& final(self).failed@.last().name@ == name@
                    &&& final(self).failed@.last().message@ == message@
                },
            },
    {
        self.file_count = self.file_count + 1;
        match outcome {
            Ok(data) => {
                self.succeeded.push(data);
            },
            Err(message) => {
                let ghost before = self.failed@;
                self.failed.push(Failure { name: name.to_owned(), message });
                assert(self.failed@.drop_last() =~= before);
            },
        }
    }

    /// The answer once all fields are read.
    pub open spec fn answer(&self) -> ReplyView {
        let s = json::item_views(self.succeeded@);
        let f = self.failed@;
        if self.file_count == 0 {
            reply::error_of(400, "multipart field 'file' is required"@)
        } else if self.file_count == 1 && f.len() == 0 {
            reply::reply_of(
                202,
                0,
                "Uploaded "@ + (match s[0].text("name"@) {
                    Some(name) => name,
                    None => "document"@,
                }),
                Some(s[0]),
            )
        } else if self.file_count == 1 {
            reply::error_of(400, f[0].message@)
        } else {
            let status = batch_status(s.len(), f.len());
            reply::reply_of(
                status,
                if f.len() == 0 {
                    0
                } else {
                    status as i32
                },
                text::decimal(s.len()) + " uploaded, "@ + text::decimal(f.len()) + " failed"@,
                Some(
                    JsonView::Object(
                        seq![
                            ("succeeded"@, JsonView::Array(s)),
                            ("failed"@, JsonView::Array(failure_views(f))),
                        ],
                    ),
                ),
            )
        }
    }

    /// The answer once all fields are read.
    pub fn finish(self) -> (r: Reply)
        requires
            self.wf(),
        ensures
            r@ == self.answer(),
    {
        if self.file_count == 0 {
            return reply::api_error(400, "multipart field 'file' is required");
        }
        if self.file_count == 1 && self.failed.len() == 0 {
            assert(json::item_views(self.succeeded@)[0] == self.succeeded@[0]@);
            let data = self.succeeded[0].copy();
            let name = match data.text("name") {
                Some(name) => name,
                None => "document",
            };
            let message = text::concat("Uploaded ", name);
            return ApiResponse { code: 0, message, data: Some(data) }.with_status(202);
        }
        if self.file_count == 1 {
            return reply::api_error(400, self.failed[0].message.as_str());
        }
        let failed_count: usize = self.failed.len();
        let ok_count: usize = self.succeeded.len();
        let status: u16 = if failed_count == 0 {
            202
        } else if ok_count == 0 {
            400
        } else {
            207
        };
        let mut message = text::concat(
            text::decimal_of(ok_count as u64).as_str(),
            " uploaded, ",
        );
        message = text::concat3(
            message.as_str(),
            text::decimal_of(failed_count as u64).as_str(),
            " failed",
        );
        let failures = failure_array(&self.failed);
        let entries = json::with(json::fields(), "succeeded", json::array(self.succeeded));
        let entries = json::with(entries, "failed", failures);
        assert(json::entry_views(entries@) =~= seq![
            ("succeeded"@, JsonView::Array(json::item_views(self.succeeded@))),
            ("failed"@, JsonView::Array(failure_views(self.failed@))),
        ]);
        let code: i32 = if failed_count == 0 {
            0
        } else {
            status as i32
        };
        ApiResponse { code, message, data: Some(json::object(entries)) }.with_status(status)
    }
}

fn failure_array(failed: &Vec<Failure>) -> (r: Json)
    ensures
        r@ == JsonView::Array(failure_views(failed@)),
{
    let mut items: Vec<Json> = Vec::new();
    let mut i: usize = 0;
    while i < failed.len()
        invariant
            i <= failed@.len(),
            items@.len() == i,
            forall|k: int| 0 <= k < i ==> (#[trigger] items@[k])@ == failure_view(failed@[k]),
        decreases failed@.len() - i,
    {
        let entries = json::with(json::fields(), "name", json::string(failed[i].name.as_str()));
        let entries = json::with(entries, "message", json::string(failed[i].message.as_str()));
        assert(json::entry_views(entries@) =~= failure_view(failed@[i as int])->Object_0);
        items.push(json::object(entries));
        i += 1;
    }
    assert(json::item_views(items@) =~= failure_views(failed@));
    json::array(items)
}

/// Who may upload into the knowledge base; the answer to everybody else.
pub fn upload_document(state: &AppState, dataset_id: &str, auth: &AuthContext) -> (r: Result<
    UploadBatch,
    Reply,
>)
    ensures
        match r {
            Ok(batch) => access::may_manage(*state, dataset_id@, *auth) && batch.wf()
                && batch.file_count == 0,
            Err(answer) => !access::may_manage(*state, dataset_id@, *auth) && answer@
                == datasets::not_found_of(),
        },
{
    if !access::kb_manageable(state, dataset_id, auth) {
        return Err(datasets::not_found());
    }
    Ok(UploadBatch::new())
}

/// A request is accepted as a whole exactly where every one of its files is; the code
/// in the body is then zero, and else the status.
pub proof fn batches_report_every_failure(b: UploadBatch)
    requires
        b.wf(),
        b.file_count > 0,
    ensures
        b.answer().status == 202 <==> b.failed@.len() == 0,
        b.answer().status == 207 ==> b.failed@.len() > 0 && b.succeeded@.len() > 0,
{
    assert(json::item_views(b.succeeded@).len() == b.succeeded@.len());
}

// ── Queueing a document ─────────────────────────────────────────

/// A document that is queued for parsing.
#[derive(Debug)]
pub struct QueueJob {
    pub owner_id: String,
    pub title: String,
    pub doc_id: String,
    pub kb_id: String,
    pub name: String,
    pub priority: i32,
}

/// A task as it is handed to the workers. The page range is the whole document.
#[derive(Debug)]
pub struct ExecTask {
    pub id: String,
    pub doc_id: String,
    pub kb_id: String,
    pub name: String,
    pub priority: i32,
    pub from_page: i64,
    pub to_page: i64,
    pub attempts: u32,
    pub max_retries: u32,
    /// Per cent.
    pub progress: u8,
    pub message: String,
    pub created_at: u64,
}

/// What comes next on the way into the queue.
#[derive(Debug)]
pub enum QueueStep {
    /// Note in the document's record that it waits: its state, its progress in per
    /// cent, and a message.
    MarkQueued { doc_id: String, run: String, progress: u8, message: String },
    /// Hand the task to the workers; the way into the queue ends here.
    Submit(ExecTask),
    /// Take the task back, where there is one, and fail.
    Fail { cancel: Option<String>, error: String },
}

/// The task of a job.
pub open spec fn is_task_of(t: ExecTask, job: QueueJob, task_id: Seq<char>, now: u64) -> bool {
    &&& t.id@ == task_id
    &&& t.doc_id@ == job.doc_id@
    &&& t.kb_id@ == job.kb_id@
    &&& t.name@ == job.name@
    &&& t.priority == job.priority
    &&& t.from_page == 0
    &&& t.to_page == -1
    &&& t.attempts == 0
    &&& t.max_retries == 2
    &&& t.progress == 0
    &&& t.message@ == "Queued for parsing"@
    &&& t.created_at == now
}

/// Opens the way of a document into the queue: its upload has to be there.
pub fn queue_document_processing(
    owner_id: &str,
    doc: &DocRecord,
    priority: i32,
    file_exists: bool,
) -> (r: Result<QueueJob, String>)
    ensures
        match r {
            Ok(job) => file_exists && job.owner_id@ == owner_id@ && job.title@ == "Parse "@
                + doc.name@ && job.doc_id@ == doc.id@ && job.kb_id@ == doc.kb_id@ && job.name@
                == doc.name@ && job.priority == priority,
            Err(e) => !file_exists && e@ == "Uploaded file is missing"@,
        },
{
    if !file_exists {
        return Err("Uploaded file is missing".to_owned());
    }
    Ok(
        QueueJob {
            owner_id: owner_id.to_owned(),
            title: text::concat("Parse ", doc.name.as_str()),
            doc_id: doc.id.clone(),
            kb_id: doc.kb_id.clone(),
            name: doc.name.clone(),
            priority,
        },
    )
}

impl QueueJob {
    fn task(&self, task_id: String, now: u64) -> (r: ExecTask)
        ensures
            is_task_of(r, *self, task_id@, now),
    {
        ExecTask {
            id: task_id,
            doc_id: self.doc_id.clone(),
            kb_id: self.kb_id.clone(),
            name: self.name.clone(),
            priority: self.priority,
            from_page: 0,
            to_page: -1,
            attempts: 0,
            max_retries: 2,
            progress: 0,
            message: "Queued for parsing".to_owned(),
            created_at: now,
        }
    }

    /// What follows the entry into the task queue. The outcome is the id of the task
    /// and whether it is a new one: a document has one waiting task at most.
    pub fn after_push(&self, outcome: Result<(String, bool), String>, now: u64) -> (r: QueueStep)
        ensures
            match outcome {
                Err(reason) => r matches QueueStep::Fail { cancel, error } && cancel is None
                    && error@ == reason@,
                Ok((task_id, true)) => r matches QueueStep::MarkQueued {
                    doc_id,
                    run,
                    progress,
                    message,
                } && doc_id@ == self.doc_id@ && run@ == "UNSTARTED"@ && progress == 0 && message@
                    == "Queued for parsing"@,
                Ok((task_id, false)) => r matches QueueStep::Submit(t) && is_task_of(
                    t,
                    *self,
                    task_id@,
                    now,
                ),
            },
    {
        match outcome {
            Err(error) => QueueStep::Fail { cancel: None, error },
            Ok((task_id, created)) => if created {
                QueueStep::MarkQueued {
                    doc_id: self.doc_id.clone(),
                    run: "UNSTARTED".to_owned(),
                    progress: 0,
                    message: "Queued for parsing".to_owned(),
                }
            } else {
                QueueStep::Submit(self.task(task_id, now))
            },
        }
    }

    /// What follows the note in the document's record. A task that was new and could
    /// not be noted is taken back.
    pub fn after_mark(&self, task_id: String, outcome: Result<(), String>, now: u64) -> (r:
        QueueStep)
        ensures
            match outcome {
                Ok(_) => r matches QueueStep::Submit(t) && is_task_of(t, *self, task_id@, now),
                Err(reason) => r matches QueueStep::Fail { cancel, error } && text::opt_view(cancel)
                    == Some(task_id@) && error@ == reason@,
            },
    {
        match outcome {
            Ok(_) => QueueStep::Submit(self.task(task_id, now)),
            Err(error) => QueueStep::Fail { cancel: Some(task_id), error },
        }
    }
}

// ── Registering a document ──────────────────────────────────────

/// A document that is registered: its file is stored, its record is written next, the
/// knowledge base counts it, and it is queued for parsing.
#[derive(Debug)]
pub struct RegisterJob {
    pub owner_id: String,
    pub dataset_id: String,
    pub doc_id: String,
    /// Where the file is stored.
    pub path: String,
    /// The priority in the queue.
    pub priority: i32,
    /// The record: the new one, and once it is stored, as the store has it. The store
    /// may rename the document.
    pub doc: DocRecord,
}

/// A document that is registered, over mathematical values.
pub struct RegisterView {
    pub owner_id: Seq<char>,
    pub dataset_id: Seq<char>,
    pub doc_id: Seq<char>,
    pub path: Seq<char>,
    pub priority: i32,
    pub doc: DocView,
}

impl View for RegisterJob {
    type V = RegisterView;

    open spec fn view(&self) -> RegisterView {
        RegisterView {
            owner_id: self.owner_id@,
            dataset_id: self.dataset_id@,
            doc_id: self.doc_id@,
            path: self.path@,
            priority: self.priority,
            doc: self.doc@,
        }
    }
}

/// What comes next on the way into a knowledge base.
#[derive(Debug)]
pub enum RegisterStep<S, D, J, U> {
    StoreRecord { doc: D },
    /// Change the counts of the knowledge base.
    AddCounts { kb_id: S, chunks: isize, docs: isize },
    /// Queue the document for parsing.
    Queue { owner_id: S, doc: D, priority: i32 },
    /// The file stays, and this is told of the document.
    Finished { told: J },
    /// Take back what was done, and fail.
    Abort { undo: U, error: S },
}

/// What comes next, as it is handed out.
pub type RegisterNext = RegisterStep<String, DocRecord, Json, Vec<RegisterUndo<String>>>;

/// What comes next, over mathematical values.
pub type RegisterStepView = RegisterStep<
    Seq<char>,
    DocView,
    JsonView,
    Seq<RegisterUndo<Seq<char>>>,
>;

impl View for RegisterNext {
    type V = RegisterStepView;

    open spec fn view(&self) -> RegisterStepView {
        match self {
            RegisterStep::StoreRecord { doc } => RegisterStep::StoreRecord { doc: doc@ },
            RegisterStep::AddCounts { kb_id, chunks, docs } => RegisterStep::AddCounts {
                kb_id: kb_id@,
                chunks: *chunks,
                docs: *docs,
            },
            RegisterStep::Queue { owner_id, doc, priority } => RegisterStep::Queue {
                owner_id: owner_id@,
                doc: doc@,
                priority: *priority,
            },
            RegisterStep::Finished { told } => RegisterStep::Finished { told: told@ },
            RegisterStep::Abort { undo, error } => RegisterStep::Abort {
                undo: register_undo_views(undo@),
                error: error@,
            },
        }
    }
}

/// The record of a document whose file has just been stored.
pub open spec fn new_record(
    dataset_id: Seq<char>,
    doc_id: Seq<char>,
    upload: PersistedUpload,
    now: u64,
) -> DocView {
    DocView {
        id: doc_id,
        name: upload.name@,
        kb_id: dataset_id,
        size: upload.size,
        storage_name: upload.storage_name@,
        content_hash: upload.content_hash@,
        indexed_content_hash: Seq::empty(),
        run: "UNSTARTED"@,
        progress: 0,
        progress_msg: "Uploaded; awaiting parse"@,
        chunk_count: 0,
        created_at: now,
        updated_at: now,
    }
}

/// Opens the way of a stored file into the knowledge base.
pub fn register_document_upload(
    owner_id: &str,
    dataset_id: &str,
    doc_id: &str,
    upload: &PersistedUpload,
    priority: i32,
    now: u64,
) -> (job: RegisterJob)
    ensures
        job@ == (RegisterView {
            owner_id: owner_id@,
            dataset_id: dataset_id@,
            doc_id: doc_id@,
            path: upload.path@,
            priority,
            doc: new_record(dataset_id@, doc_id@, *upload, now),
        }),
{
    let indexed_content_hash = String::new();
    assert(indexed_content_hash@ =~= Seq::<char>::empty());
    RegisterJob {
        owner_id: owner_id.to_owned(),
        dataset_id: dataset_id.to_owned(),
        doc_id: doc_id.to_owned(),
        path: upload.path.clone(),
        priority,
        doc: DocRecord {
            id: doc_id.to_owned(),
            name: upload.name.clone(),
            kb_id: dataset_id.to_owned(),
            size: upload.size,
            storage_name: upload.storage_name.clone(),
            content_hash: upload.content_hash.clone(),
            indexed_content_hash,
            run: "UNSTARTED".to_owned(),
            progress: 0,
            progress_msg: "Uploaded; awaiting parse".to_owned(),
            chunk_count: 0,
            created_at: now,
            updated_at: now,
        },
    }
}

/// A change that takes back a part of a registration. Its own outcome changes
/// nothing any more.
#[derive(Debug)]
pub enum RegisterUndo<S> {
    DeleteRecord { doc_id: S },
    AddCounts { kb_id: S, docs: isize },
    RemoveFile { path: S },
}

impl View for RegisterUndo<String> {
    type V = RegisterUndo<Seq<char>>;

    open spec fn view(&self) -> RegisterUndo<Seq<char>> {
        match self {
            RegisterUndo::DeleteRecord { doc_id } => RegisterUndo::DeleteRecord { doc_id: doc_id@ },
            RegisterUndo::AddCounts { kb_id, docs } => RegisterUndo::AddCounts {
                kb_id: kb_id@,
                docs: *docs,
            },
            RegisterUndo::RemoveFile { path } => RegisterUndo::RemoveFile { path: path@ },
        }
    }
}

/// The views of a row of changes.
pub open spec fn register_undo_views(undo: Seq<RegisterUndo<String>>) -> Seq<
    RegisterUndo<Seq<char>>,
> {
    undo.map_values(|u: RegisterUndo<String>| u@)
}

/// What is taken back where the record could not be stored: the file.
pub open spec fn undo_file(path: Seq<char>) -> Seq<RegisterUndo<Seq<char>>> {
    seq![RegisterUndo::RemoveFile { path }]
}

/// What is taken back where the knowledge base could not count the document.
pub open spec fn undo_record(doc_id: Seq<char>, path: Seq<char>) -> Seq<RegisterUndo<Seq<char>>> {
    seq![RegisterUndo::DeleteRecord { doc_id }, RegisterUndo::RemoveFile { path }]
}

/// What is taken back where the document could not be queued.
pub open spec fn undo_counts(doc_id: Seq<char>, kb_id: Seq<char>, path: Seq<char>) -> Seq<
    RegisterUndo<Seq<char>>,
> {
    seq![
        RegisterUndo::DeleteRecord { doc_id },
        RegisterUndo::AddCounts { kb_id, docs: (-1) as isize },
        RegisterUndo::RemoveFile { path },
    ]
}

/// What is told of a registered document. The store may have renamed it.
pub open spec fn registered_of(doc_id: Seq<char>, doc: DocView, task_id: Seq<char>) -> JsonView {
    JsonView::Object(
        seq![
            ("id"@, JsonView::Str(doc_id)),
            ("name"@, JsonView::Str(doc.name)),
            ("chunks"@, JsonView::UInt(0)),
            ("run"@, JsonView::Str(doc.run)),
            ("task_id"@, JsonView::Str(task_id)),
            ("content_hash"@, JsonView::Str(doc.content_hash)),
        ],
    )
}

fn registered(doc_id: &str, doc: &DocRecord, task_id: &str) -> (r: Json)
    ensures
        r@ == registered_of(doc_id@, doc@, task_id@),
{
    let entries = json::with(json::fields(), "id", json::string(doc_id));
    let entries = json::with(entries, "name", json::string(doc.name.as_str()));
    let entries = json::with(entries, "chunks", Json::UInt(0));
    let entries = json::with(entries, "run", json::string(doc.run.as_str()));
    let entries = json::with(entries, "task_id", json::string(task_id));
    let entries = json::with(entries, "content_hash", json::string(doc.content_hash.as_str()));
    assert(json::entry_views(entries@) =~= registered_of(doc_id@, doc@, task_id@)->Object_0);
    json::object(entries)
}

impl RegisterView {
    /// The first step: the record is stored.
    pub open spec fn first_step(self) -> RegisterStepView {
        RegisterStep::StoreRecord { doc: self.doc }
    }

    /// What follows the storing of the record: the knowledge base counts the document,
    /// or the file goes.
    pub open spec fn record_step(self, outcome: Result<DocView, Seq<char>>) -> RegisterStepView {
        match outcome {
            Ok(_) => RegisterStep::AddCounts { kb_id: self.dataset_id, chunks: 0, docs: 1 },
            Err(error) => RegisterStep::Abort { undo: undo_file(self.path), error },
        }
    }

    /// The job once its record is stored: it goes on with what the store has.
    pub open spec fn recorded(self, outcome: Result<DocView, Seq<char>>) -> RegisterView {
        match outcome {
            Ok(doc) => RegisterView { doc, ..self },
            Err(_) => self,
        }
    }

    /// What follows the counting: the stored document is queued, or the record and the
    /// file go.
    pub open spec fn counts_step(self, outcome: Result<(), Seq<char>>) -> RegisterStepView {
        match outcome {
            Ok(_) => RegisterStep::Queue {
                owner_id: self.owner_id,
                doc: self.doc,
                priority: self.priority,
            },
            Err(error) => RegisterStep::Abort { undo: undo_record(self.doc_id, self.path), error },
        }
    }

    /// What follows the queueing, whose outcome is the id of the task: the document is
    /// told, or the record, the count and the file go.
    pub open spec fn queue_step(self, outcome: Result<Seq<char>, Seq<char>>) -> RegisterStepView {
        match outcome {
            Ok(task_id) => RegisterStep::Finished {
                told: registered_of(self.doc_id, self.doc, task_id),
            },
            Err(error) => RegisterStep::Abort {
                undo: undo_counts(self.doc_id, self.dataset_id, self.path),
                error,
            },
        }
    }
}

/// The view of what came of storing a record.
pub open spec fn stored_view(outcome: Result<DocRecord, String>) -> Result<DocView, Seq<char>> {
    match outcome {
        Ok(doc) => Ok(doc@),
        Err(e) => Err(e@),
    }
}

/// The view of what came of queueing a document.
pub open spec fn queued_view(outcome: Result<String, String>) -> Result<Seq<char>, Seq<char>> {
    match outcome {
        Ok(task_id) => Ok(task_id@),
        Err(e) => Err(e@),
    }
}

impl RegisterJob {
    /// The first step: the record is stored.
    pub fn begin(&self) -> (r: RegisterNext)
        ensures
            r@ == self@.first_step(),
    {
        RegisterStep::StoreRecord { doc: self.doc.copy() }
    }

    /// What follows the storing of the record.
    pub fn after_record(&mut self, outcome: Result<DocRecord, String>) -> (r: RegisterNext)
        ensures
            r@ == old(self)@.record_step(stored_view(outcome)),
            final(self)@ == old(self)@.recorded(stored_view(outcome)),
    {
        match outcome {
            Ok(doc) => {
                self.doc = doc;
                RegisterStep::AddCounts { kb_id: self.dataset_id.clone(), chunks: 0, docs: 1 }
            },
            Err(error) => {
                let undo = vec![RegisterUndo::RemoveFile { path: self.path.clone() }];
                assert(register_undo_views(undo@) =~= undo_file(self.path@));
                RegisterStep::Abort { undo, error }
            },
        }
    }

    /// What follows the counting.
    pub fn after_counts(&self, outcome: Result<(), String>) -> (r: RegisterNext)
        ensures
            r@ == self@.counts_step(text::outcome_view(outcome)),
    {
        match outcome {
            Ok(_) => RegisterStep::Queue {
                owner_id: self.owner_id.clone(),
                doc: self.doc.copy(),
                priority: self.priority,
            },
            Err(error) => {
                let undo = vec![
                    RegisterUndo::DeleteRecord { doc_id: self.doc_id.clone() },
                    RegisterUndo::RemoveFile { path: self.path.clone() },
                ];
                assert(register_undo_views(undo@) =~= undo_record(self.doc_id@, self.path@));
                RegisterStep::Abort { undo, error }
            },
        }
    }

    /// What follows the queueing.
    pub fn after_queue(&self, outcome: Result<String, String>) -> (r: RegisterNext)
        ensures
            r@ == self@.queue_step(queued_view(outcome)),
    {
        match outcome {
            Ok(task_id) => RegisterStep::Finished {
                told: registered(self.doc_id.as_str(), &self.doc, task_id.as_str()),
            },
            Err(error) => {
                let docs: isize = -1;
                let undo = vec![
                    RegisterUndo::DeleteRecord { doc_id: self.doc_id.clone() },
                    RegisterUndo::AddCounts { kb_id: self.dataset_id.clone(), docs },
                    RegisterUndo::RemoveFile { path: self.path.clone() },
                ];
                assert(register_undo_views(undo@) =~= undo_counts(
                    self.doc_id@,
                    self.dataset_id@,
                    self.path@,
                ));
                RegisterStep::Abort { undo, error }
            },
        }
    }
}

/// What a registration touches: the records, the number of documents of each
/// knowledge base, and the stored files.
#[verifier::ext_equal]
pub struct Shelf {
    pub records: Set<Seq<char>>,
    pub doc_counts: Map<Seq<char>, int>,
    pub files: Set<Seq<char>>,
}

/// What is there after something was taken back.
pub open spec fn taken_back(shelf: Shelf, undo: RegisterUndo<Seq<char>>) -> Shelf {
    match undo {
        RegisterUndo::DeleteRecord { doc_id } => Shelf {
            records: shelf.records.remove(doc_id),
            ..shelf
        },
        RegisterUndo::AddCounts { kb_id, docs } => Shelf {
            doc_counts: commit::counted(shelf.doc_counts, kb_id, docs as int),
            ..shelf
        },
        RegisterUndo::RemoveFile { path } => Shelf { files: shelf.files.remove(path), ..shelf },
    }
}

/// What is there after everything was taken back, in order.
pub open spec fn all_taken_back(shelf: Shelf, undo: Seq<RegisterUndo<Seq<char>>>) -> Shelf
    decreases undo.len(),
{
    if undo.len() == 0 {
        shelf
    } else {
        taken_back(all_taken_back(shelf, undo.drop_last()), undo.last())
    }
}

/// A file that is refused leaves nothing behind, however far its storing came: of the
/// two places where it may stand, `left` are those where it does.
pub proof fn refused_uploads_leave_nothing(
    before: Shelf,
    plan: UploadPlan<Seq<char>>,
    left: Set<Seq<char>>,
)
    requires
        !before.files.contains(plan.temp_path),
        !before.files.contains(plan.final_path),
        forall|path: Seq<char>| #[trigger]
            left.contains(path) ==> path == plan.temp_path || path == plan.final_path,
    ensures
        all_taken_back(
            Shelf { files: before.files.union(left), ..before },
            undo_upload(plan),
        ) == before,
{
    reveal_with_fuel(all_taken_back, 3);
    let after = all_taken_back(
        Shelf { files: before.files.union(left), ..before },
        undo_upload(plan),
    );
    assert(after.files =~= before.files);
    assert(after =~= before);
}

/// What is there after a step, where the write that it asks for worked.
pub open spec fn performed(shelf: Shelf, step: RegisterStepView, doc_id: Seq<char>) -> Shelf {
    match step {
        RegisterStep::StoreRecord { .. } => Shelf {
            records: shelf.records.insert(doc_id),
            ..shelf
        },
        RegisterStep::AddCounts { kb_id, docs, .. } => Shelf {
            doc_counts: commit::counted(shelf.doc_counts, kb_id, docs as int),
            ..shelf
        },
        RegisterStep::Abort { undo, .. } => all_taken_back(shelf, undo),
        _ => shelf,
    }
}

/// How a registration goes, by what comes of its three writes: the last step, and what
/// is there once that step is done. `stored` is what is there with the file in place; a
/// write that fails changes nothing.
pub open spec fn registration(
    job: RegisterView,
    stored: Shelf,
    record: Result<DocView, Seq<char>>,
    counts: Result<(), Seq<char>>,
    queue: Result<Seq<char>, Seq<char>>,
) -> (RegisterStepView, Shelf) {
    let second = job.record_step(record);
    if second is Abort {
        (second, performed(stored, second, job.doc_id))
    } else {
        let recorded = performed(stored, job.first_step(), job.doc_id);
        let known = job.recorded(record);
        let third = known.counts_step(counts);
        if third is Abort {
            (third, performed(recorded, third, job.doc_id))
        } else {
            let counted = performed(recorded, second, job.doc_id);
            let last = known.queue_step(queue);
            (last, performed(counted, last, job.doc_id))
        }
    }
}

/// A registration ends in a document exactly where all three writes worked: there are
/// then a record, a count and the file more. One that fails tells the first failure,
/// and leaves neither a record, nor a count, nor the file behind.
pub proof fn failed_registration_leaves_nothing(
    job: RegisterView,
    before: Shelf,
    record: Result<DocView, Seq<char>>,
    counts: Result<(), Seq<char>>,
    queue: Result<Seq<char>, Seq<char>>,
)
    requires
        !before.records.contains(job.doc_id),
        !before.files.contains(job.path),
    ensures
        ({
            let stored = Shelf { files: before.files.insert(job.path), ..before };
            let (last, after) = registration(job, stored, record, counts, queue);
            match (record, counts, queue) {
                (Ok(doc), Ok(_), Ok(task_id)) => {
                    &&& last == RegisterStepView::Finished {
                        told: registered_of(job.doc_id, doc, task_id),
                    }
                    &&& after == Shelf {
                        records: before.records.insert(job.doc_id),
                        doc_counts: commit::counted(before.doc_counts, job.dataset_id, 1),
                        files: before.files.insert(job.path),
                    }
                },
                (Err(reason), _, _) => fails_with(last, reason) && after == before,
                (_, Err(reason), _) => fails_with(last, reason) && after == before,
                (_, _, Err(reason)) => fails_with(last, reason) && after == before,
            }
        }),
{
    reveal_with_fuel(all_taken_back, 4);
    let stored = Shelf { files: before.files.insert(job.path), ..before };
    let (last, after) = registration(job, stored, record, counts, queue);
    if last is Abort {
        assert(after.records =~= before.records);
        assert(after.doc_counts =~= before.doc_counts);
        assert(after.files =~= before.files);
        assert(after =~= before);
    }
}

/// The step takes things back and tells the reason.
pub open spec fn fails_with(step: RegisterStepView, reason: Seq<char>) -> bool {
    step matches RegisterStep::Abort { error, .. } && error == reason
}

// ── Laws ────────────────────────────────────────────────────────

/// Uploads are limited to 64 mebibytes where nothing else is configured, and a request
/// to 32 files and a mebibyte besides them.
pub proof fn uploads_are_limited()
    ensures
        DEFAULT_MAX_UPLOAD_BYTES == 64 * 1024 * 1024,
        MULTIPART_OVERHEAD_BYTES == 1024 * 1024,
        MAX_DOCUMENTS_PER_UPLOAD == 32,
{
}

/// A file that is handed over stays, and is the file that it was.
pub proof fn handed_over_files_stay(upload: PersistedUpload, r: PersistedUpload)
    requires
        call_ensures(PersistedUpload::commit, (upload,), r),
    ensures
        !r.cleanup_on_drop,
        r.name == upload.name,
        r.storage_name == upload.storage_name,
        r.path == upload.path,
        r.size == upload.size,
        r.content_hash == upload.content_hash,
{
}

/// An upload without a name is called `uploaded`. It is stored below the destination,
/// under the name that its id gives it, and written to a hidden place there first; a name
/// that is not taken is refused for the same reason as anywhere.
pub proof fn uploads_are_planned_below_their_destination(
    file_name: Option<&str>,
    media_type_known: bool,
    destination: &str,
    storage_id: &str,
    temp_id: &str,
    named: &str,
    name: &str,
    checked: Result<String, String>,
    stored_name: String,
    below_it: &str,
    place: String,
    hidden: &str,
    temp_place: String,
    r: Result<UploadPlan<String>, String>,
)
    requires
        call_ensures(
            plan_upload,
            (file_name, media_type_known, destination, storage_id, temp_id),
            r,
        ),
        call_ensures(name_or_default, (file_name,), named),
        call_ensures(path::safe_upload_name, (named, media_type_known), checked),
        checked matches Ok(n) ==> n@ == name@,
        call_ensures(path::storage_name, (storage_id, name), stored_name),
        below_it@ == stored_name@,
        call_ensures(path::join, (destination, below_it), place),
        hidden@ == ".upload-"@ + temp_id@ + ".tmp"@,
        call_ensures(path::join, (destination, hidden), temp_place),
    ensures
        file_name is None ==> named@ == "uploaded"@,
        file_name matches Some(n) ==> named@ == n@,
        checked matches Err(e) ==> (r matches Err(f) && f@ == e@),
        checked is Ok ==> (r matches Ok(plan) && plan.name@ == name@ && plan.storage_name@
            == stored_name@ && plan.final_path@ == place@ && plan.temp_path@ == temp_place@),
{
    reveal_strlit("Invalid filename");
    reveal_strlit("Unsupported file type");
    assert("Invalid filename"@.len() != "Unsupported file type"@.len());
}

/// A place that is taken is not written to.
pub proof fn stored_files_are_not_overwritten(exists: bool, r: Result<(), String>)
    requires
        call_ensures(destination_free, (exists,), r),
    ensures
        exists ==> (r matches Err(e) && e@ == "Upload destination already exists"@),
        !exists ==> r is Ok,
{
}

/// A file grows by what comes in, in order, up to its limit and not beyond it; what does
/// not fit changes nothing.
pub proof fn uploads_grow_up_to_their_limit(
    progress: &mut UploadProgress,
    chunk: &[u8],
    r: Result<(), String>,
)
    requires
        old(progress).wf(),
        call_ensures(UploadProgress::accept, (progress, chunk), r),
    ensures
        final(progress).limit() == old(progress).limit(),
        ({
            let size = old(progress).content().len() + chunk@.len();
            &&& size <= old(progress).limit() ==> r is Ok && final(progress).wf()
                && final(progress).content() == old(progress).content() + chunk@
            &&& old(progress).limit() < size <= usize::MAX ==> (r matches Err(e) && e@
                == "Uploaded file exceeds the configured size limit"@)
            &&& size > usize::MAX ==> (r matches Err(e) && e@ == "Uploaded file is too large"@)
            &&& size > old(progress).limit() ==> final(progress).content() == old(
                progress,
            ).content()
        }),
{
}

/// A file starts empty; an empty one is refused, and of any other its size and its hash
/// are told.
pub proof fn uploads_are_told_by_size_and_hash(
    max_bytes: usize,
    fresh: UploadProgress,
    progress: UploadProgress,
    size: usize,
    r: Result<(usize, String), String>,
    bytes: &[u8],
    hashed: String,
)
    requires
        call_ensures(UploadProgress::new, (max_bytes,), fresh),
        progress.wf(),
        call_ensures(UploadProgress::size, (&progress,), size),
        call_ensures(UploadProgress::finish, (&progress,), r),
        bytes@ == progress.content(),
        call_ensures(hash::server_xxh3_hash, (bytes,), hashed),
    ensures
        fresh.wf(),
        fresh.content().len() == 0,
        fresh.limit() == max_bytes,
        size == progress.content().len(),
        progress.content().len() == 0 ==> (r matches Err(e) && e@ == "Uploaded file is empty"@),
        progress.content().len() > 0 ==> (r matches Ok((n, h)) && n == progress.content().len()
            && h@ == hashed@),
{
}

/// A file that was written is stored as it was planned, and goes again unless something
/// comes to own it. One that was not takes back both places that it may stand at.
pub proof fn written_files_are_stored_as_planned(
    plan: UploadPlan<String>,
    outcome: Result<(usize, String), String>,
    r: Result<PersistedUpload, RefusedUpload>,
    size: usize,
    content_hash: String,
    u: PersistedUpload,
)
    requires
        call_ensures(persist_upload_field, (plan, outcome), r),
        call_ensures(stored, (plan, size, content_hash), u),
    ensures
        outcome matches Ok((n, h)) ==> (r matches Ok(upload) && upload.name@ == plan.name@
            && upload.storage_name@ == plan.storage_name@ && upload.path@ == plan.final_path@
            && upload.size == n && upload.content_hash@ == h@ && upload.cleanup_on_drop),
        outcome matches Err(reason) ==> (r matches Err(refused) && refused.error@ == reason@
            && register_undo_views(refused.undo@) == seq![
            RegisterUndo::RemoveFile { path: plan.temp_path@ },
            RegisterUndo::RemoveFile { path: plan.final_path@ },
        ]),
        u.name@ == plan.name@,
        u.storage_name@ == plan.storage_name@,
        u.path@ == plan.final_path@,
        u.size == size,
        u.content_hash@ == content_hash@,
        u.cleanup_on_drop,
{
}

/// Of a form with a single file, the first field `file` is stored, a second one is
/// refused, and every other field is passed over; without any the form is refused.
pub proof fn single_uploads_take_one_file(
    field: Option<&str>,
    have_upload: bool,
    r: FieldAction<String>,
    upload: Option<PersistedUpload>,
    taken: Result<PersistedUpload, String>,
)
    requires
        call_ensures(persist_single_upload, (field, have_upload), r),
        call_ensures(single_upload, (upload,), taken),
    ensures
        !(field matches Some(f) && f@ == "file"@) ==> r is Skip,
        field matches Some(f) ==> f@ == "file"@ ==> if have_upload {
            r matches FieldAction::Refuse(e) && e@ == "Only one multipart file is allowed"@
        } else {
            r is Store
        },
        upload matches Some(u) ==> taken == Ok::<_, String>(u),
        upload is None ==> (taken matches Err(e) && e@ == "multipart field 'file' is required"@),
{
}

/// Of a form with several files, each field `file` is stored until there are 32; any
/// further one fails under its name, and every other field is passed over.
pub proof fn batches_take_thirty_two_files(
    batch: &mut UploadBatch,
    field: Option<&str>,
    file_name: Option<&str>,
    named: &str,
    r: FieldAction<String>,
)
    requires
        old(batch).wf(),
        old(batch).file_count < usize::MAX,
        call_ensures(UploadBatch::next_field, (batch, field, file_name), r),
        call_ensures(name_or_default, (file_name,), named),
    ensures
        final(batch).wf(),
        !(field matches Some(f) && f@ == "file"@) ==> r is Skip && *final(batch) == *old(batch),
        field matches Some(f) ==> f@ == "file"@ && old(batch).file_count < 32 ==> r is Store
            && *final(batch) == *old(batch),
        field matches Some(f) ==> f@ == "file"@ && old(batch).file_count >= 32 ==> (
        r matches FieldAction::Refuse(e) && e@ == "At most 32 files are allowed"@
            && final(batch).failed@.len() == old(batch).failed@.len() + 1
            && final(batch).failed@.last().name@ == named@ && final(batch).failed@.last().message@
            == e@ && final(batch).succeeded@ == old(batch).succeeded@ && final(batch).file_count
            == old(batch).file_count + 1),
{
}

/// Every file that was stored or not is noted where it belongs, after those before it.
pub proof fn batches_note_what_became_of_each_file(
    batch: &mut UploadBatch,
    name: &str,
    outcome: Result<Json, String>,
    r: (),
)
    requires
        old(batch).wf(),
        old(batch).file_count < usize::MAX,
        call_ensures(UploadBatch::record, (batch, name, outcome), r),
    ensures
        final(batch).wf(),
        final(batch).file_count == old(batch).file_count + 1,
        outcome matches Ok(data) ==> final(batch).succeeded@ == old(batch).succeeded@.push(data)
            && final(batch).failed@ == old(batch).failed@,
        outcome matches Err(message) ==> final(batch).succeeded@ == old(batch).succeeded@
            && final(batch).failed@.len() == old(batch).failed@.len() + 1
            && final(batch).failed@.last().name@ == name@ && final(batch).failed@.last().message@
            == message@ && (forall|i: int|
            0 <= i < old(batch).failed@.len() ==> final(batch).failed@[i] == #[trigger] old(
                batch,
            ).failed@[i]),
{
    if outcome is Err {
        assert forall|i: int| 0 <= i < old(batch).failed@.len() implies final(batch).failed@[i]
            == #[trigger] old(batch).failed@[i] by {
            assert(final(batch).failed@.drop_last()[i] == old(batch).failed@[i]);
        }
    }
}

proof fn lemma_batch_keys()
    ensures
        "succeeded"@ != "failed"@,
        "succeeded"@ != "name"@,
        "succeeded"@ != "message"@,
        "failed"@ != "name"@,
        "failed"@ != "message"@,
        "name"@ != "message"@,
{
    reveal_strlit("succeeded");
    reveal_strlit("failed");
    reveal_strlit("name");
    reveal_strlit("message");
    assert("succeeded"@.len() != "failed"@.len());
    assert("succeeded"@.len() != "name"@.len());
    assert("succeeded"@.len() != "message"@.len());
    assert("failed"@.len() != "name"@.len());
    assert("failed"@.len() != "message"@.len());
    assert("name"@.len() != "message"@.len());
}

/// The answer to an upload tells of every file: none, a single one that was stored, a
/// single one that was not, or several, with those that were stored and those that were
/// not, each by its name and the reason.
pub proof fn uploads_are_answered_file_by_file(batch: UploadBatch, r: Reply, i: int)
    requires
        batch.wf(),
        call_ensures(UploadBatch::finish, (batch,), r),
    ensures
        batch.file_count == 0 ==> reply::tells(
            r@,
            400,
            400,
            "multipart field 'file' is required"@,
        ),
        batch.file_count == 1 && batch.failed@.len() == 0 ==> r@.body.get("data"@) == Some(
            batch.succeeded@[0]@,
        ),
        batch.file_count == 1 && batch.failed@.len() == 0 ==> match batch.succeeded@[0]@.text(
            "name"@,
        ) {
            Some(name) => reply::tells(r@, 202, 0, "Uploaded "@ + name),
            None => reply::tells(r@, 202, 0, "Uploaded "@ + "document"@),
        },
        batch.file_count == 1 && batch.failed@.len() == 1 ==> reply::tells(
            r@,
            400,
            400,
            batch.failed@[0].message@,
        ),
        batch.file_count > 1 ==> {
            let message = text::decimal(batch.succeeded@.len()) + " uploaded, "@ + text::decimal(
                batch.failed@.len(),
            ) + " failed"@;
            &&& batch.failed@.len() == 0 ==> reply::tells(r@, 202, 0, message)
            &&& batch.failed@.len() > 0 && batch.succeeded@.len() == 0 ==> reply::tells(
                r@,
                400,
                400,
                message,
            )
            &&& batch.failed@.len() > 0 && batch.succeeded@.len() > 0 ==> reply::tells(
                r@,
                207,
                207,
                message,
            )
        },
        batch.file_count > 1 ==> (r@.body.get("data"@) matches Some(data) && data.items(
            "succeeded"@,
        ) == Some(json::item_views(batch.succeeded@)) && (data.items("failed"@) matches Some(
            failed,
        ) && failed.len() == batch.failed@.len() && (0 <= i < failed.len() ==> failed[i].text(
            "name"@,
        ) == Some(batch.failed@[i].name@) && failed[i].text("message"@) == Some(
            batch.failed@[i].message@,
        )))),
{
    lemma_batch_keys();
    reveal_with_fuel(json::entry, 3);
    let s = json::item_views(batch.succeeded@);
    let f = batch.failed@;
    if batch.file_count == 0 {
        reply::answers_tell_what_they_were_given(
            400,
            400,
            "multipart field 'file' is required"@,
            JsonView::Null,
        );
    } else if batch.file_count == 1 && f.len() == 0 {
        assert(s[0] == batch.succeeded@[0]@);
        match s[0].text("name"@) {
            Some(name) => {
                reply::answers_tell_what_they_were_given(202, 0, "Uploaded "@ + name, s[0]);
            },
            None => {
                reply::answers_tell_what_they_were_given(202, 0, "Uploaded "@ + "document"@, s[0]);
            },
        }
    } else if batch.file_count == 1 {
        reply::answers_tell_what_they_were_given(400, 400, f[0].message@, JsonView::Null);
    } else {
        let message = text::decimal(s.len()) + " uploaded, "@ + text::decimal(f.len())
            + " failed"@;
        let data = JsonView::Object(
            seq![
                ("succeeded"@, JsonView::Array(s)),
                ("failed"@, JsonView::Array(failure_views(f))),
            ],
        );
        reply::answers_tell_what_they_were_given(202, 0, message, data);
        reply::answers_tell_what_they_were_given(400, 400, message, data);
        reply::answers_tell_what_they_were_given(207, 207, message, data);
        assert(data.items("succeeded"@) == Some(s));
        assert(data.items("failed"@) == Some(failure_views(f)));
        if 0 <= i < f.len() {
            assert(failure_views(f)[i] == failure_view(f[i]));
            assert(failure_view(f[i]).text("name"@) == Some(f[i].name@));
            assert(failure_view(f[i]).text("message"@) == Some(f[i].message@));
        }
    }
}

/// Whoever manages a knowledge base may upload into it, and nobody else; an upload starts
/// with no file.
pub proof fn uploads_are_for_managers(
    state: AppState,
    dataset_id: &str,
    auth: AuthContext,
    manages: bool,
    r: Result<UploadBatch, Reply>,
    fresh: UploadBatch,
)
    requires
        call_ensures(access::kb_manageable, (&state, dataset_id, &auth), manages),
        call_ensures(upload_document, (&state, dataset_id, &auth), r),
        call_ensures(UploadBatch::new, (), fresh),
    ensures
        manages ==> (r matches Ok(batch) && batch.wf() && batch.file_count == 0),
        !manages ==> (r matches Err(a) && reply::tells(a@, 404, 404, "Knowledge base not found"@)),
        fresh.succeeded@.len() == 0,
        fresh.failed@.len() == 0,
{
    reply::answers_tell_what_they_were_given(
        404,
        404,
        "Knowledge base not found"@,
        JsonView::Null,
    );
}

/// The task of a document covers all of its pages and is tried twice more; it waits, and
/// nothing of it is done.
pub open spec fn waits(t: ExecTask, task_id: Seq<char>, job: QueueJob, now: u64) -> bool {
    &&& t.id@ == task_id
    &&& t.doc_id@ == job.doc_id@
    &&& t.kb_id@ == job.kb_id@
    &&& t.name@ == job.name@
    &&& t.priority == job.priority
    &&& t.from_page == 0
    &&& t.to_page == -1
    &&& t.attempts == 0
    &&& t.max_retries == 2
    &&& t.progress == 0
    &&& t.message@ == "Queued for parsing"@
    &&& t.created_at == now
}

/// A document whose upload is there goes into the queue under its own name: a new task is
/// noted in its record first, and then it is handed to the workers; a task that waits
/// already is handed over as it is. One that could not be noted is taken back.
pub proof fn documents_are_queued_step_by_step(
    owner_id: &str,
    doc: DocRecord,
    priority: i32,
    file_exists: bool,
    opened: Result<QueueJob, String>,
    job: QueueJob,
    pushed: Result<(String, bool), String>,
    now: u64,
    next: QueueStep,
    task_id: String,
    marked: Result<(), String>,
    last: QueueStep,
)
    requires
        call_ensures(queue_document_processing, (owner_id, &doc, priority, file_exists), opened),
        call_ensures(QueueJob::after_push, (&job, pushed, now), next),
        call_ensures(QueueJob::after_mark, (&job, task_id, marked, now), last),
    ensures
        !file_exists ==> (opened matches Err(e) && e@ == "Uploaded file is missing"@),
        file_exists ==> (opened matches Ok(j) && j.owner_id@ == owner_id@ && j.title@ == "Parse "@
            + doc.name@ && j.doc_id@ == doc.id@ && j.kb_id@ == doc.kb_id@ && j.name@ == doc.name@
            && j.priority == priority),
        pushed matches Err(reason) ==> (next matches QueueStep::Fail { cancel, error } && cancel
            is None && error@ == reason@),
        pushed matches Ok((id, true)) ==> (next matches QueueStep::MarkQueued {
            doc_id,
            run,
            progress,
            message,
        } && doc_id@ == job.doc_id@ && run@ == "UNSTARTED"@ && progress == 0 && message@
            == "Queued for parsing"@),
        pushed matches Ok((id, false)) ==> (next matches QueueStep::Submit(t) && waits(
            t,
            id@,
            job,
            now,
        )),
        marked is Ok ==> (last matches QueueStep::Submit(t) && waits(t, task_id@, job, now)),
        marked matches Err(reason) ==> (last matches QueueStep::Fail { cancel, error }
            && text::opt_view(cancel) == Some(task_id@) && error@ == reason@),
{
}

/// The record of a new document tells its file, and that it waits to be parsed.
pub proof fn new_documents_wait_to_be_parsed(
    owner_id: &str,
    dataset_id: &str,
    doc_id: &str,
    upload: PersistedUpload,
    priority: i32,
    now: u64,
    job: RegisterJob,
    first: RegisterNext,
)
    requires
        call_ensures(
            register_document_upload,
            (owner_id, dataset_id, doc_id, &upload, priority, now),
            job,
        ),
        call_ensures(RegisterJob::begin, (&job,), first),
    ensures
        job.owner_id@ == owner_id@,
        job.dataset_id@ == dataset_id@,
        job.doc_id@ == doc_id@,
        job.path@ == upload.path@,
        job.priority == priority,
        first matches RegisterStep::StoreRecord { doc } && doc.id@ == doc_id@ && doc.kb_id@
            == dataset_id@ && doc.name@ == upload.name@ && doc.size == upload.size
            && doc.storage_name@ == upload.storage_name@ && doc.content_hash@
            == upload.content_hash@ && doc.indexed_content_hash@.len() == 0 && doc.run@
            == "UNSTARTED"@ && doc.progress == 0 && doc.progress_msg@
            == "Uploaded; awaiting parse"@ && doc.chunk_count == 0 && doc.created_at == now
            && doc.updated_at == now,
{
    assert(first@ == job@.first_step());
    assert(first is StoreRecord);
    match first {
        RegisterStep::StoreRecord { doc } => {
            assert(doc@ == job@.doc);
        },
        _ => {},
    }
}

proof fn lemma_told_keys()
    ensures
        "id"@ != "name"@,
        "id"@ != "chunks"@,
        "id"@ != "run"@,
        "id"@ != "task_id"@,
        "id"@ != "content_hash"@,
        "name"@ != "chunks"@,
        "name"@ != "run"@,
        "name"@ != "task_id"@,
        "name"@ != "content_hash"@,
        "chunks"@ != "run"@,
        "chunks"@ != "task_id"@,
        "chunks"@ != "content_hash"@,
        "run"@ != "task_id"@,
        "run"@ != "content_hash"@,
        "task_id"@ != "content_hash"@,
{
    reveal_strlit("id");
    reveal_strlit("name");
    reveal_strlit("chunks");
    reveal_strlit("run");
    reveal_strlit("task_id");
    reveal_strlit("content_hash");
    assert("id"@.len() != "name"@.len());
    assert("id"@.len() != "chunks"@.len());
    assert("id"@.len() != "run"@.len());
    assert("id"@.len() != "task_id"@.len());
    assert("id"@.len() != "content_hash"@.len());
    assert("name"@.len() != "chunks"@.len());
    assert("name"@.len() != "run"@.len());
    assert("name"@.len() != "task_id"@.len());
    assert("name"@.len() != "content_hash"@.len());
    assert("chunks"@.len() != "run"@.len());
    assert("chunks"@.len() != "task_id"@.len());
    assert("chunks"@.len() != "content_hash"@.len());
    assert("run"@.len() != "task_id"@.len());
    assert("run"@.len() != "content_hash"@.len());
    assert("task_id"@.len() != "content_hash"@.len());
}

/// A document is registered step by step: its record is stored, the knowledge base counts
/// one document more, the stored record is queued, and then the document is told as the
/// store has it. Where a step fails, what was done before it is taken back.
pub proof fn documents_are_registered_step_by_step(
    job: &mut RegisterJob,
    record: Result<DocRecord, String>,
    second: RegisterNext,
    known: RegisterJob,
    counts: Result<(), String>,
    third: RegisterNext,
    queue: Result<String, String>,
    last: RegisterNext,
)
    requires
        call_ensures(RegisterJob::after_record, (job, record), second),
        call_ensures(RegisterJob::after_counts, (&known, counts), third),
        call_ensures(RegisterJob::after_queue, (&known, queue), last),
    ensures
        record matches Ok(doc) ==> final(job).doc@ == doc@,
        record is Err ==> final(job).doc@ == old(job).doc@,
        final(job).doc_id@ == old(job).doc_id@,
        final(job).dataset_id@ == old(job).dataset_id@,
        final(job).owner_id@ == old(job).owner_id@,
        final(job).path@ == old(job).path@,
        final(job).priority == old(job).priority,
        record is Ok ==> second@ == (RegisterStepView::AddCounts {
            kb_id: old(job).dataset_id@,
            chunks: 0,
            docs: 1,
        }),
        record matches Err(reason) ==> second@ == (RegisterStepView::Abort {
            undo: seq![RegisterUndo::RemoveFile { path: old(job).path@ }],
            error: reason@,
        }),
        counts is Ok ==> third@ == (RegisterStepView::Queue {
            owner_id: known.owner_id@,
            doc: known.doc@,
            priority: known.priority,
        }),
        counts matches Err(reason) ==> third@ == (RegisterStepView::Abort {
            undo: seq![
                RegisterUndo::DeleteRecord { doc_id: known.doc_id@ },
                RegisterUndo::RemoveFile { path: known.path@ },
            ],
            error: reason@,
        }),
        queue matches Ok(task_id) ==> (last@ matches RegisterStep::Finished { told } && told.text(
            "id"@,
        ) == Some(known.doc_id@) && told.text("name"@) == Some(known.doc.name@) && told.get(
            "chunks"@,
        ) == Some(JsonView::UInt(0)) && told.text("run"@) == Some(known.doc.run@) && told.text(
            "task_id"@,
        ) == Some(task_id@) && told.text("content_hash"@) == Some(known.doc.content_hash@)),
        queue matches Err(reason) ==> last@ == (RegisterStepView::Abort {
            undo: seq![
                RegisterUndo::DeleteRecord { doc_id: known.doc_id@ },
                RegisterUndo::AddCounts { kb_id: known.dataset_id@, docs: (-1) as isize },
                RegisterUndo::RemoveFile { path: known.path@ },
            ],
            error: reason@,
        }),
{
    assert(final(job)@ == old(job)@.recorded(stored_view(record)));
    assert(final(job)@.doc == final(job).doc@);
    assert(final(job)@.doc_id == final(job).doc_id@);
    lemma_told_keys();
    reveal_with_fuel(json::entry, 7);
}

} // verus!
