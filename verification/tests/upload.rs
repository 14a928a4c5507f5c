use std::io::Write;

use rayrag_server::access::AuthContext;
use rayrag_server::container::{any_below, container_matches, validate_upload, validate_zip_container};
use rayrag_server::json::Json;
use rayrag_server::path::safe_upload_name;
use rayrag_server::state::{AppState, DocRecord, KnowledgeBase};
use rayrag_server::upload::{
    destination_free, persist_single_upload, persist_upload_field, plan_upload,
    queue_document_processing, register_document_upload, single_upload, stored, upload_document,
    FieldAction, PersistedUpload, QueueStep, RefusedUpload, RegisterJob, RegisterNext, RegisterStep,
    RegisterUndo, UploadBatch, UploadProgress, MAX_DOCUMENTS_PER_UPLOAD,
};
use serde_json::Value;

fn value(json: &Json) -> Value {
    match json {
        Json::Null => Value::Null,
        Json::Bool(b) => Value::Bool(*b),
        Json::UInt(n) => Value::from(*n),
        Json::NegInt(n) => Value::from(*n),
        Json::Real(bits) => Value::from(f64::from_bits(*bits)),
        Json::Str(s) => Value::String(s.clone()),
        Json::Array(items) => Value::Array(items.iter().map(value).collect()),
        Json::Object(entries) => {
            Value::Object(entries.iter().map(|(k, v)| (k.clone(), value(v))).collect())
        }
    }
}

fn state() -> AppState {
    AppState {
        static_dir: "/srv/static".into(),
        port: 9380,
        users: Vec::new(),
        kbs: vec![KnowledgeBase {
            id: "kb".into(),
            owner_id: "test-user".into(),
            permission: "me".into(),
            embd_id: String::new(),
            parser_config: "{}".into(),
            prompt_config: Json::Null,
            chunk_count: 0,
            doc_count: 0,
        }],
        tenants: Vec::new(),
        llm: false,
        embedder: false,
        reranker: false,
        index_path: String::new(),
        model_path: String::new(),
        max_upload_bytes: 4,
        docs: Vec::new(),
        search_apps: None,
        tenant_models: Vec::new(),
        memories: Vec::new(),
        register_enabled: 1,
        disable_password_login: false,
    }
}

fn auth(user: &str) -> AuthContext {
    AuthContext { user_id: user.into(), is_admin: false, token: String::new() }
}

fn upload(name: &str) -> PersistedUpload {
    let plan = plan_upload(Some(name), true, "/srv/uploads", "doc-1", "t-1").unwrap();
    stored(plan, 12, "00ff".into())
}

fn file_data(name: &str) -> Json {
    Json::Object(vec![("name".into(), Json::Str(name.into()))])
}

fn archive(entries: &[(&str, &str)]) -> Vec<u8> {
    let mut writer = zip::ZipWriter::new(std::io::Cursor::new(Vec::new()));
    for (name, content) in entries {
        writer.start_file(*name, zip::write::SimpleFileOptions::default()).unwrap();
        writer.write_all(content.as_bytes()).unwrap();
    }
    writer.finish().unwrap().into_inner()
}

#[test]
fn uploads_are_stored_under_their_document() {
    let plan = plan_upload(Some(" Sample.TXT "), true, "/srv/uploads", "doc-1", "t-1").unwrap();
    assert_eq!(plan.name, "Sample.TXT");
    assert_eq!(plan.storage_name, "doc-1.txt");
    assert_eq!(plan.final_path, "/srv/uploads/doc-1.txt");
    assert_eq!(plan.temp_path, "/srv/uploads/.upload-t-1.tmp");
    let bare = plan_upload(None, true, "/srv/uploads", "doc-1", "t-1").unwrap();
    assert_eq!((bare.name.as_str(), bare.storage_name.as_str()), ("uploaded", "doc-1"));
    assert_eq!(destination_free(false), Ok(()));
    assert_eq!(destination_free(true).unwrap_err(), "Upload destination already exists");
}

#[test]
fn upload_names_are_single_file_names() {
    for name in ["../escape.txt", "a/b.txt", "/a.txt", ".", "..", "", "   ", "a\0b.txt", "a.txt/"] {
        assert_eq!(safe_upload_name(name, true).unwrap_err(), "Invalid filename", "{name:?}");
    }
    assert_eq!(safe_upload_name(&"x".repeat(256), true).unwrap_err(), "Invalid filename");
    assert_eq!(safe_upload_name(&"é".repeat(128), true).unwrap_err(), "Invalid filename");
    assert!(safe_upload_name(&"x".repeat(255), true).is_ok());
    assert_eq!(safe_upload_name("a.xyz", false).unwrap_err(), "Unsupported file type");
    assert_eq!(safe_upload_name(" a.txt\n", true).unwrap(), "a.txt");
}

#[test]
fn uploads_are_counted_and_hashed_part_by_part() {
    let mut whole = UploadProgress::new(64);
    whole.accept(b"hello rayrag").unwrap();
    let mut parts = UploadProgress::new(64);
    parts.accept(b"hello ").unwrap();
    parts.accept(b"").unwrap();
    parts.accept(b"rayrag").unwrap();
    let (size, hash) = parts.finish().unwrap();
    assert_eq!(size, 12);
    assert_eq!(hash.len(), 32);
    assert!(hash.chars().all(|c| c.is_ascii_hexdigit()));
    assert_eq!(whole.finish().unwrap(), (size, hash.clone()));
    assert_eq!(
        hash,
        format!("{:032x}", xxhash_rust::xxh3::xxh3_128(b"hello rayrag"))
    );
}

#[test]
fn empty_and_oversized_uploads_are_refused() {
    assert_eq!(UploadProgress::new(4).finish().unwrap_err(), "Uploaded file is empty");
    let mut progress = UploadProgress::new(4);
    progress.accept(b"1234").unwrap();
    assert_eq!(
        progress.accept(b"5").unwrap_err(),
        "Uploaded file exceeds the configured size limit"
    );
    assert_eq!(progress.size(), 4);
}

#[test]
fn single_forms_carry_one_file() {
    assert!(matches!(persist_single_upload(Some("note"), false), FieldAction::Skip));
    assert!(matches!(persist_single_upload(None, true), FieldAction::Skip));
    assert!(matches!(persist_single_upload(Some("file"), false), FieldAction::Store));
    assert!(matches!(
        persist_single_upload(Some("file"), true),
        FieldAction::Refuse(e) if e == "Only one multipart file is allowed"
    ));
    assert_eq!(single_upload(None).unwrap_err(), "multipart field 'file' is required");
    assert_eq!(single_upload(Some(upload("a.txt"))).unwrap().name, "a.txt");
}

#[test]
fn committed_uploads_are_kept() {
    let fresh = upload("a.txt");
    assert!(fresh.cleanup_on_drop);
    let kept = fresh.commit();
    assert!(!kept.cleanup_on_drop);
    assert_eq!((kept.name.as_str(), kept.size), ("a.txt", 12));
}

#[test]
fn batches_answer_for_one_file() {
    let empty = UploadBatch::new().finish();
    assert_eq!(empty.status, 400);
    assert_eq!(empty.body.text("message"), Some("multipart field 'file' is required"));

    let mut good = UploadBatch::new();
    good.record("sample.txt", Ok(file_data("sample(1).txt")));
    let reply = good.finish();
    assert_eq!(reply.status, 202);
    assert_eq!(
        value(&reply.body).to_string(),
        r#"{"code":0,"data":{"name":"sample(1).txt"},"message":"Uploaded sample(1).txt"}"#
    );

    let mut bad = UploadBatch::new();
    bad.record("a.txt", Err("Uploaded file is empty".into()));
    let reply = bad.finish();
    assert_eq!(reply.status, 400);
    assert_eq!(reply.body.number("code"), Some(400));
    assert_eq!(reply.body.text("message"), Some("Uploaded file is empty"));
}

#[test]
fn batches_answer_for_each_of_several_files() {
    let mut mixed = UploadBatch::new();
    mixed.record("good.txt", Ok(file_data("good.txt")));
    mixed.record("fake.pdf", Err("File content does not match its extension".into()));
    let reply = mixed.finish();
    assert_eq!(reply.status, 207);
    let body = value(&reply.body);
    assert_eq!(body["code"], 207);
    assert_eq!(body["message"], "1 uploaded, 1 failed");
    assert_eq!(body["data"]["succeeded"][0]["name"], "good.txt");
    assert_eq!(body["data"]["failed"][0]["name"], "fake.pdf");
    assert_eq!(
        body["data"]["failed"][0]["message"],
        "File content does not match its extension"
    );

    let mut both = UploadBatch::new();
    both.record("one.txt", Ok(file_data("one.txt")));
    both.record("two.txt", Ok(file_data("two.txt")));
    let reply = both.finish();
    assert_eq!((reply.status, reply.body.number("code")), (202, Some(0)));
    assert_eq!(value(&reply.body)["data"]["succeeded"].as_array().unwrap().len(), 2);

    let mut none = UploadBatch::new();
    none.record("a", Err("x".into()));
    none.record("b", Err("y".into()));
    assert_eq!(none.finish().status, 400);
}

#[test]
fn requests_carry_at_most_so_many_files() {
    let mut batch = UploadBatch::new();
    assert!(matches!(batch.next_field(Some("note"), None), FieldAction::Skip));
    for _ in 0..MAX_DOCUMENTS_PER_UPLOAD {
        assert!(matches!(batch.next_field(Some("file"), Some("a.txt")), FieldAction::Store));
        batch.record("a.txt", Ok(file_data("a.txt")));
    }
    assert!(matches!(
        batch.next_field(Some("file"), None),
        FieldAction::Refuse(e) if e == "At most 32 files are allowed"
    ));
    assert_eq!(batch.file_count, 33);
    assert_eq!(batch.failed[0].name, "uploaded");
    assert_eq!(batch.finish().status, 207);
}

#[test]
fn uploads_need_a_base_that_one_manages() {
    let s = state();
    assert!(upload_document(&s, "kb", &auth("test-user")).is_ok());
    let refused = upload_document(&s, "kb", &auth("other")).unwrap_err();
    assert_eq!(refused.status, 404);
    assert_eq!(refused.body.text("message"), Some("Knowledge base not found"));
}

fn registering() -> RegisterJob {
    register_document_upload("test-user", "kb", "doc-1", &upload("a.txt"), 3, 99)
}

/// The job once the store has its record, under another name.
fn recorded() -> RegisterJob {
    let mut job = registering();
    let renamed = DocRecord { name: "a(1).txt".into(), ..job.doc.copy() };
    assert!(matches!(
        job.after_record(Ok(renamed)),
        RegisterStep::AddCounts { kb_id, chunks: 0, docs: 1 } if kb_id == "kb"
    ));
    job
}

#[test]
fn registered_documents_are_told_with_their_task() {
    let doc = match registering().begin() {
        RegisterStep::StoreRecord { doc } => doc,
        other => panic!("{other:?}"),
    };
    assert_eq!((doc.id.as_str(), doc.kb_id.as_str(), doc.name.as_str()), ("doc-1", "kb", "a.txt"));
    assert_eq!((doc.run.as_str(), doc.progress, doc.chunk_count), ("UNSTARTED", 0, 0));
    assert_eq!(doc.progress_msg, "Uploaded; awaiting parse");
    assert_eq!((doc.created_at, doc.updated_at, doc.size), (99, 99, 12));
    assert_eq!(doc.storage_name, "doc-1.txt");
    assert_eq!((doc.content_hash.as_str(), doc.indexed_content_hash.as_str()), ("00ff", ""));
    let job = recorded();
    match job.after_counts(Ok(())) {
        RegisterStep::Queue { owner_id, doc, priority } => {
            assert_eq!((owner_id.as_str(), doc.name.as_str()), ("test-user", "a(1).txt"));
            assert_eq!((doc.id.as_str(), priority), ("doc-1", 3));
        }
        other => panic!("{other:?}"),
    }
    match job.after_queue(Ok("task-1".into())) {
        RegisterStep::Finished { told } => assert_eq!(
            value(&told).to_string(),
            r#"{"chunks":0,"content_hash":"00ff","id":"doc-1","name":"a(1).txt","run":"UNSTARTED","task_id":"task-1"}"#
        ),
        other => panic!("{other:?}"),
    }
}

#[test]
fn failed_registrations_are_taken_back() {
    let undo = |step: RegisterNext, reason: &str| match step {
        RegisterStep::Abort { undo, error } => {
            assert_eq!(error, reason);
            undo
        }
        other => panic!("{other:?}"),
    };
    assert!(matches!(
        &undo(registering().after_record(Err("full".into())), "full")[..],
        [RegisterUndo::RemoveFile { path }] if path == "/srv/uploads/doc-1.txt"
    ));
    assert!(matches!(
        &undo(recorded().after_counts(Err("gone".into())), "gone")[..],
        [RegisterUndo::DeleteRecord { doc_id }, RegisterUndo::RemoveFile { path }]
            if doc_id == "doc-1" && path == "/srv/uploads/doc-1.txt"
    ));
    assert!(matches!(
        &undo(recorded().after_queue(Err("io".into())), "io")[..],
        [
            RegisterUndo::DeleteRecord { doc_id },
            RegisterUndo::AddCounts { kb_id, docs: -1 },
            RegisterUndo::RemoveFile { path }
        ] if doc_id == "doc-1" && kb_id == "kb" && path == "/srv/uploads/doc-1.txt"
    ));
}

/// Takes in a file as a form field is taken in: part by part, checked, and then kept or
/// given up.
fn take_in(name: &str, content: &[u8], max_bytes: usize) -> Result<PersistedUpload, RefusedUpload> {
    let plan = plan_upload(Some(name), true, "/srv/uploads", "doc-1", "t-1").unwrap();
    let mut progress = UploadProgress::new(max_bytes);
    let outcome = progress
        .accept(content)
        .and_then(|()| progress.finish())
        .and_then(|stored| validate_upload(&plan.name, content).map(|()| stored));
    persist_upload_field(plan, outcome)
}

#[test]
fn refused_uploads_are_taken_back() {
    let refused: [(&str, &[u8], usize, &str); 3] = [
        ("large.txt", b"12345", 4, "/srv/uploads/doc-1.txt"),
        ("empty.txt", b"", 64 * 1024 * 1024, "/srv/uploads/doc-1.txt"),
        ("fake.pdf", b"this is not a pdf", 64 * 1024 * 1024, "/srv/uploads/doc-1.pdf"),
    ];
    for (name, content, max_bytes, final_path) in refused {
        let refused = take_in(name, content, max_bytes).unwrap_err();
        let mut files = vec![
            "/srv/uploads/.upload-t-1.tmp".to_string(),
            final_path.to_string(),
            "/srv/uploads/other.txt".to_string(),
        ];
        for change in refused.undo {
            match change {
                RegisterUndo::RemoveFile { path } => files.retain(|file| *file != path),
                other => panic!("{other:?}"),
            }
        }
        assert_eq!(files, ["/srv/uploads/other.txt"], "{name}: {}", refused.error);
    }
    let kept = take_in("a.txt", b"1234", 4).unwrap();
    assert_eq!((kept.name.as_str(), kept.path.as_str()), ("a.txt", "/srv/uploads/doc-1.txt"));
    assert_eq!((kept.size, kept.cleanup_on_drop), (4, true));
    assert_eq!(
        kept.content_hash,
        format!("{:032x}", xxhash_rust::xxh3::xxh3_128(b"1234"))
    );
}

#[test]
fn documents_are_queued_once() {
    let doc = registering().doc;
    assert_eq!(
        queue_document_processing("test-user", &doc, 1, false).unwrap_err(),
        "Uploaded file is missing"
    );
    let job = queue_document_processing("test-user", &doc, 1, true).unwrap();
    assert_eq!((job.title.as_str(), job.owner_id.as_str()), ("Parse a.txt", "test-user"));
    assert!(matches!(
        job.after_push(Ok(("task".into(), true)), 5),
        QueueStep::MarkQueued { doc_id, run, progress, message }
            if doc_id == "doc-1"
                && run == "UNSTARTED"
                && progress == 0
                && message == "Queued for parsing"
    ));
    match job.after_push(Ok(("task".into(), false)), 5) {
        QueueStep::Submit(task) => {
            assert_eq!((task.id.as_str(), task.doc_id.as_str()), ("task", "doc-1"));
            assert_eq!((task.from_page, task.to_page), (0, -1));
            assert_eq!((task.attempts, task.max_retries, task.created_at), (0, 2, 5));
            assert_eq!(task.message, "Queued for parsing");
        }
        other => panic!("{other:?}"),
    }
    assert!(matches!(
        job.after_push(Err("full".into()), 5),
        QueueStep::Fail { cancel: None, error } if error == "full"
    ));
    assert!(matches!(job.after_mark("task".into(), Ok(()), 5), QueueStep::Submit(_)));
    assert!(matches!(
        job.after_mark("task".into(), Err("io".into()), 5),
        QueueStep::Fail { cancel: Some(id), error } if id == "task" && error == "io"
    ));
}

#[test]
fn contents_match_their_extension() {
    let good: [(&str, &[u8]); 16] = [
        ("a.pdf", b"%PDF-1.7"),
        ("a.PNG", b"\x89PNG\r\n\x1a\n...."),
        ("a.jpg", b"\xff\xd8\xff\xe0"),
        ("a.jpeg", b"\xff\xd8\xff"),
        ("a.gif", b"GIF87a"),
        ("a.gif", b"GIF89a!"),
        ("a.webp", b"RIFF0000WEBPVP8 "),
        ("a.bmp", b"BM"),
        ("a.tif", b"II*\0"),
        ("a.tiff", b"MM\0*"),
        ("a.tif", b"II+\0"),
        ("a.tif", b"MM\0+"),
        ("a.json", b" {\"a\": [1, 2.5]} "),
        ("a.txt", "h\u{e9}llo".as_bytes()),
        ("a.yml", b""),
        ("a.log", b"line\n"),
    ];
    for (name, content) in good {
        assert_eq!(validate_upload(name, content), Ok(()), "{name}");
    }
    let bad: [(&str, &[u8]); 11] = [
        ("fake.pdf", b"this is not a pdf"),
        ("a.webp", b"RIFF0000WEB"),
        ("a.webp", b"RIFF0000JPEG"),
        ("a.png", b"\x89PNG"),
        ("a.json", b"{"),
        ("a.json", b"{} x"),
        ("a.txt", b"a\0b"),
        ("a.txt", b"\xc3"),
        ("a.md", b"\xff"),
        ("a.exe", b"MZ"),
        ("noextension", b"text"),
    ];
    for (name, content) in bad {
        assert_eq!(
            validate_upload(name, content).unwrap_err(),
            "File content does not match its extension",
            "{name}"
        );
    }
}

#[test]
fn archives_are_documents_of_their_kind() {
    let docx = archive(&[("[Content_Types].xml", "<t/>"), ("word/document.xml", "<w/>")]);
    assert_eq!(validate_upload("a.docx", &docx), Ok(()));
    assert!(validate_upload("a.xlsx", &docx).is_err());
    assert!(validate_zip_container("docx", &docx));
    assert!(!validate_zip_container("zip", &docx));
    let xlsx = archive(&[("[Content_Types].xml", ""), ("xl/workbook.xml", "")]);
    assert!(validate_zip_container("xlsx", &xlsx) && !validate_zip_container("pptx", &xlsx));
    let pptx = archive(&[("[Content_Types].xml", ""), ("ppt/slide.xml", "")]);
    assert!(validate_zip_container("pptx", &pptx));
    let untyped = archive(&[("word/document.xml", "")]);
    assert!(!validate_zip_container("docx", &untyped));
    let epub = archive(&[("mimetype", "application/epub+zip\n")]);
    assert_eq!(validate_upload("a.epub", &epub), Ok(()));
    assert!(!validate_zip_container("epub", &archive(&[("mimetype", "text/plain")])));
    assert!(!validate_zip_container("epub", &docx));
    assert!(validate_upload("broken.docx", b"PK\\x03\\x04not-a-real-docx").is_err());
    assert!(validate_upload("broken.docx", b"PK\x03\x04not-a-real-docx").is_err());
}

#[test]
fn archives_are_told_by_their_entries() {
    let names = || Some(vec!["[Content_Types].xml".to_string(), "word/a".to_string()]);
    assert!(container_matches("docx", names(), true, None));
    assert!(!container_matches("docx", names(), false, None));
    assert!(!container_matches("docx", None, true, None));
    assert!(container_matches("epub", names(), false, Some(" application/epub+zip ".into())));
    assert!(!container_matches("epub", names(), true, None));
    assert!(any_below(&names().unwrap(), "word/"));
    assert!(!any_below(&names().unwrap(), "Word/"));
}
