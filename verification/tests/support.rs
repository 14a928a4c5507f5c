use rayrag_server::clock::{clock_reading, new_id, unix_ms, worker_id};
use rayrag_server::config::{
    body_limit, data_path, embedder_config, llm_config, max_concurrent_document_tasks,
    max_upload_bytes, reranker_config,
};
use rayrag_server::files::{copied, copy_file, rename_file, renamed, FileRecord};
use rayrag_server::hash::{digest_text, server_xxh3_hash};
use rayrag_server::json::{self, Json};
use rayrag_server::mirror::{repair_outcome, MirrorRepair, RepairOutcome};
use rayrag_server::path::{extension, file_name, file_physical_path, join};
use rayrag_server::reply::{api_error, ok, plain, ret_code_response, ApiResponse};
use rayrag_server::text;
use rayrag_server::textscan::{validate_utf8_text, TextScan};

fn file(id: &str, name: &str) -> FileRecord {
    FileRecord { id: id.into(), name: name.into(), created_at: 1 }
}

fn named(name: &str) -> Json {
    Json::Object(vec![("name".into(), Json::Str(name.into()))])
}

fn strings(list: &[&str]) -> Vec<String> {
    list.iter().map(|s| s.to_string()).collect()
}

#[test]
fn texts_are_trimmed_by_unicode() {
    assert_eq!(text::trim(" \u{3000}a b\u{a0}\n"), "a b");
    assert_eq!(text::trim("\t \r"), "");
    assert!(text::is_blank("\u{2003}"));
    assert_eq!(text::filled(Some("  x ")), Some("x"));
    assert_eq!(text::filled(Some("   ")), None);
    // The zero width space is no white space.
    assert_eq!(text::trim("\u{200b}"), "\u{200b}");
    for code in 0..0x3100u32 {
        if let Some(c) = char::from_u32(code) {
            assert_eq!(text::white(c), c.is_whitespace(), "{code:x}");
        }
    }
}

#[test]
fn texts_are_split_and_joined() {
    assert_eq!(text::split("a,,b,", ','), ["a", "", "b", ""]);
    assert_eq!(text::split("", ','), [""]);
    assert_eq!(text::join(&strings(&["a", "b", "c"]), ", "), "a, b, c");
    assert_eq!(text::join(&Vec::new(), ", "), "");
    assert_eq!(text::split_once("a b c", ' '), Some(("a", "b c")));
    assert_eq!(text::split_once("abc", ' '), None);
    assert_eq!(text::strip_prefix("rayrag_token=1", "rayrag_token="), Some("1"));
    assert_eq!(text::strip_prefix("ray", "rayrag"), None);
    assert!(text::contains("héllo wörld", "lo w") && !text::contains("abc", "ac"));
    assert!(text::contains("abc", ""));
    assert_eq!(text::to_lower("ÀBC-d"), "Àbc-d");
    assert_eq!(text::byte_len("é"), 2);
    assert_eq!(text::concat3("a", "é", "c"), "aéc");
}

#[test]
fn texts_are_ordered_by_their_characters() {
    assert!(text::is_before("A.txt", "doc"));
    assert!(text::is_before("a", "ab"));
    assert!(!text::is_before("ab", "ab"));
    assert!(!text::is_before("b", "ab"));
}

#[test]
fn numbers_are_read_and_written() {
    assert_eq!(text::decimal_of(0), "0");
    assert_eq!(text::decimal_of(u64::MAX), "18446744073709551615");
    assert_eq!(text::parse_u64("18446744073709551615"), Some(u64::MAX));
    assert_eq!(text::parse_u64("18446744073709551616"), None);
    assert_eq!(text::parse_u64("+007"), Some(7));
    for bad in ["", "+", "-1", "1 ", "++1", "0x1"] {
        assert_eq!(text::parse_u64(bad), None, "{bad:?}");
    }
}

#[test]
fn objects_answer_with_their_last_entry() {
    let value = Json::Object(vec![
        ("a".into(), Json::UInt(1)),
        ("b".into(), Json::Str("x".into())),
        ("a".into(), Json::UInt(2)),
    ]);
    assert_eq!(value.number("a"), Some(2));
    assert_eq!(value.text("b"), Some("x"));
    assert_eq!(value.text("a"), None);
    assert_eq!(value.flag("a"), None);
    assert!(value.get("c").is_none());
    assert_eq!(value.text_or_empty("c"), "");
    assert!(Json::Null.get("a").is_none());
    let mut entries = json::fields();
    json::put(&mut entries, "k", Json::Bool(true));
    json::put(&mut entries, "k", Json::Bool(false));
    assert_eq!(json::object(entries).flag("k"), Some(false));
    let mixed = vec![Json::Str("a".into()), Json::Null, Json::Str("b".into())];
    assert_eq!(json::strings_among(&mixed), ["a", "b"]);
    let copy = Json::Array(vec![value.copy()]).copy();
    assert_eq!(format!("{copy:?}"), format!("{:?}", Json::Array(vec![value])));
}

#[test]
fn replies_have_their_shape() {
    let error = api_error(404, "gone");
    assert_eq!((error.status, error.body.number("code")), (404, Some(404)));
    assert!(error.body.get("data").unwrap().is_null());
    let coded = ret_code_response(-3, "m");
    assert_eq!(coded.status, 200);
    assert!(matches!(coded.body.get("code"), Some(Json::NegInt(-3))));
    assert!(coded.body.get("data").is_none());
    assert_eq!(ok("ok", Json::UInt(1)).body.number("data"), Some(1));
    assert_eq!(plain(401, 401, "m").body.text("message"), Some("m"));
    let body = ApiResponse { code: 0, message: "m".into(), data: None };
    assert_eq!(body.with_status(201).status, 201);
}

#[test]
fn paths_name_their_file() {
    assert_eq!(file_name("a/b/./").as_deref(), Some("b"));
    assert_eq!(file_name("a/.."), None);
    assert_eq!(file_name("/"), None);
    assert_eq!(extension("a/B.TaR.Gz"), "gz");
    assert_eq!(extension(".hidden"), "");
    assert_eq!(extension("a."), "");
    assert_eq!(extension("archive.d/file"), "");
    assert_eq!(join("/data", "x"), "/data/x");
    assert_eq!(join("/data/", "x"), "/data/x");
    assert_eq!(join("", "x"), "x");
    assert_eq!(join("/data", "/x"), "/x");
    assert_eq!(file_physical_path("/data", "id", "Report.PDF"), "/data/id.pdf");
    assert_eq!(file_physical_path("/data", "id", "README"), "/data/id");
    for (path, name) in [("a/B.TaR.Gz", "x"), ("a/..", "y.z"), ("", ""), ("...", ".a.b")] {
        let std_path = std::path::Path::new(path);
        assert_eq!(file_name(path).as_deref(), std_path.file_name().and_then(|n| n.to_str()));
        let joined = std_path.join(name);
        assert_eq!(join(path, name), joined.to_str().unwrap());
        let end = std::path::Path::new(name).extension().and_then(|e| e.to_str()).unwrap_or("");
        assert_eq!(extension(name), end.to_ascii_lowercase());
    }
}

#[test]
fn files_are_renamed_in_place_while_their_extension_stays() {
    let files = vec![file("f1", "a.txt"), file("f2", "b.txt")];
    let plan = rename_file(&files, "/data", "f1", &named(" c.TXT ")).unwrap();
    assert_eq!(plan.name, "c.TXT");
    assert!(!plan.moves);
    let plan = rename_file(&files, "/data", "f1", &named("c.md")).unwrap();
    assert!(plan.moves);
    assert_eq!((plan.old_path.as_str(), plan.new_path.as_str()), ("/data/f1.txt", "/data/f1.md"));
    let answered = |id: &str, body: &Json| {
        let reply = rename_file(&files, "/data", id, body).unwrap_err();
        let message = reply.body.text_or_empty("message").to_string();
        (reply.status, reply.body.number("code"), message)
    };
    assert_eq!(answered("f1", &named("  ")), (200, Some(400), "name is required".into()));
    assert_eq!(answered("f1", &Json::Null), (200, Some(400), "name is required".into()));
    assert_eq!(answered("f9", &named("x")), (200, Some(404), "File not found".into()));
    assert_eq!(answered("f1", &named("a.txt")), (200, Some(0), String::new()));
    assert_eq!(renamed(Ok(())).body.flag("data"), Some(true));
    assert_eq!(renamed(Err("io".into())).body.number("code"), Some(500));
}

#[test]
fn files_are_copied_under_a_new_id() {
    let files = vec![file("f1", "a.TXT")];
    let plan = copy_file(&files, "/data", "f1", "f2", 9).unwrap();
    assert_eq!((plan.copy.id.as_str(), plan.copy.name.as_str()), ("f2", "a.TXT"));
    assert_eq!(plan.copy.created_at, 9);
    assert_eq!((plan.source.as_str(), plan.target.as_str()), ("/data/f1.txt", "/data/f2.txt"));
    let missing = copy_file(&files, "/data", "f9", "f2", 9).unwrap_err();
    assert_eq!(missing.body.text("message"), Some("File not found"));
    assert_eq!(copied(Ok(Json::UInt(1))).body.number("data"), Some(1));
    assert_eq!(copied(Err("io".into())).body.text("message"), Some("io"));
}

#[test]
fn settings_fall_back_to_their_defaults() {
    assert_eq!(max_upload_bytes(None), 64 * 1024 * 1024);
    assert_eq!(max_upload_bytes(Some("4096")), 4096);
    for bad in ["0", "-1", "many", ""] {
        assert_eq!(max_upload_bytes(Some(bad)), 64 * 1024 * 1024, "{bad:?}");
    }
    assert_eq!(max_concurrent_document_tasks(None, Some(6)), 6);
    assert_eq!(max_concurrent_document_tasks(Some("2"), Some(6)), 2);
    assert_eq!(max_concurrent_document_tasks(Some("0"), Some(6)), 6);
    // A machine that cannot be measured.
    assert_eq!(max_concurrent_document_tasks(None, None), 4);
    assert_eq!(max_concurrent_document_tasks(Some("many"), None), 4);
    assert_eq!(max_concurrent_document_tasks(Some("3"), None), 3);
    assert_eq!(body_limit(1000), 32 * 1000 + 1024 * 1024);
    assert_eq!(body_limit(usize::MAX), usize::MAX);
    assert_eq!(data_path("/srv/static", "users.json"), "/srv/static/../users.json");
}

#[test]
fn global_models_are_configured_by_settings() {
    let llm = llm_config(None, Some("e-key"), None, None).unwrap();
    assert_eq!(llm.api_key, "e-key");
    assert_eq!(llm.api_base, "https://api.minimaxi.com/v1");
    assert_eq!(llm.model, "MiniMax-M3");
    let own = llm_config(Some("key"), Some("e-key"), Some("http://l"), Some("m")).unwrap();
    assert_eq!((own.api_key.as_str(), own.model.as_str()), ("key", "m"));
    assert!(llm_config(None, None, Some("http://l"), Some("m")).is_none());
    assert!(embedder_config(Some("http://e"), Some(""), Some("m")).is_some());
    assert!(embedder_config(Some(""), Some("k"), Some("m")).is_none());
    assert!(embedder_config(Some("http://e"), Some("k"), Some("")).is_none());
    assert!(embedder_config(Some("http://e"), None, Some("m")).is_none());
    let none = reranker_config(None, Some(""));
    assert!(!none.enabled && none.api_base.is_empty() && none.api_key.is_none());
    assert!(!reranker_config(Some("  "), None).enabled);
    let some = reranker_config(Some("http://r"), Some("k"));
    assert!(some.enabled);
    assert_eq!(some.api_key.as_deref(), Some("k"));
}

#[test]
fn mirrors_are_repaired_one_owner_at_a_time() {
    let mut repair = MirrorRepair::new(true);
    let drifted = strings(&["a", "b", "c"]);
    assert_eq!(repair.start_mirror_repair(&drifted).as_deref(), Some("a"));
    repair.note("a", RepairOutcome::Written { still_drifted: false });
    assert_eq!(repair.start_mirror_repair(&drifted).as_deref(), Some("a"));
    repair.note("a", RepairOutcome::Failed);
    repair.note("b", RepairOutcome::Impossible);
    assert_eq!(repair.start_mirror_repair(&drifted).as_deref(), Some("c"));
    repair.note("c", RepairOutcome::Written { still_drifted: true });
    assert_eq!(repair.start_mirror_repair(&drifted), None);
    assert_eq!(repair.start_mirror_repair(&strings(&["a", "d"])).as_deref(), Some("d"));
    // Where there is no mirror, nothing is repaired.
    let none = MirrorRepair::new(false);
    assert_eq!(none.start_mirror_repair(&drifted), None);
    assert_eq!(
        repair_outcome("a", Ok(true), Some(&strings(&["a"]))),
        RepairOutcome::Written { still_drifted: true }
    );
    assert_eq!(
        repair_outcome("a", Ok(true), None),
        RepairOutcome::Written { still_drifted: false }
    );
    assert_eq!(repair_outcome("a", Ok(false), None), RepairOutcome::Impossible);
    assert_eq!(repair_outcome("a", Err("io".into()), None), RepairOutcome::Failed);
}

#[test]
fn hashes_are_written_in_hexadecimal() {
    assert_eq!(digest_text(0), "0".repeat(32));
    assert_eq!(digest_text(0xabc), format!("{}abc", "0".repeat(29)));
    assert_eq!(digest_text(u128::MAX), "f".repeat(32));
    // The hash of no bytes, as the algorithm is published.
    assert_eq!(server_xxh3_hash(b""), "99aa06d3014798d86001c324468d497f");
    assert_eq!(
        server_xxh3_hash(b"rayrag"),
        format!("{:032x}", xxhash_rust::xxh3::xxh3_128(b"rayrag"))
    );
}

#[test]
fn identifiers_are_fresh() {
    let id = new_id();
    assert_eq!(id.len(), 36);
    assert_eq!(id.split('-').map(|part| part.len()).collect::<Vec<_>>(), [8, 4, 4, 4, 12]);
    assert_ne!(id, new_id());
    assert!(worker_id("rayrag-worker-").starts_with("rayrag-worker-"));
}

#[test]
fn clocks_count_from_the_epoch() {
    assert_eq!(clock_reading(None), 0);
    assert_eq!(clock_reading(Some(12)), 12);
    assert_eq!(clock_reading(Some(u64::MAX as u128 + 5)), 4);
    let now = std::time::SystemTime::now()
        .duration_since(std::time::UNIX_EPOCH)
        .unwrap()
        .as_millis() as u64;
    let read = unix_ms();
    assert!(read >= now && read < now + 60_000);
}

#[test]
fn texts_are_told_from_bytes_across_blocks() {
    let whole = |blocks: &[&[u8]]| {
        validate_utf8_text(&blocks.iter().map(|b| b.to_vec()).collect())
    };
    assert!(whole(&[]));
    assert!(whole(&[b"plain", b" text"]));
    assert!(whole(&[b"\xe4\xb8", b"\xad"]));
    assert!(whole(&[b"\xf0", b"\x9f", b"\x98", b"\x80"]));
    assert!(!whole(&[b"\xe4\xb8"]));
    assert!(!whole(&[b"a\0"]));
    assert!(!whole(&[b"\xc0\xaf"]));
    assert!(!whole(&[b"\xed\xa0\x80"]));
    assert!(!whole(&[b"\xf4\x90\x80\x80"]));
    assert!(!whole(&[b"ok", b"\xff", b"ok"]));
    let mut scan = TextScan::new();
    assert!(scan.feed(b"\xc3"));
    assert!(!scan.finish());
    assert!(scan.feed(b"\xa9"));
    assert!(scan.finish());
    assert!(!scan.feed(b"\0"));
    assert!(!scan.feed(b"fine"));
    assert!(!scan.finish());
}
