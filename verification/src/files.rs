//! Renaming and copying files of the file manager.

use crate::json::{Json, JsonView};
use crate::path;
use crate::reply;
use crate::reply::{Reply, ReplyView};
use crate::text;
use vstd::prelude::*;

verus! {

/// A file of the file manager.
#[derive(Debug)]
pub struct FileRecord {
    pub id: String,
    pub name: String,
    pub created_at: u64,
}

/// The ids of the files, in order.
pub open spec fn file_ids(files: Seq<FileRecord>) -> Seq<Seq<char>> {
    files.map_values(|f: FileRecord| f.id@)
}

/// The file with the id, among those that the user sees.
pub open spec fn file_of(files: Seq<FileRecord>, id: Seq<char>) -> Option<FileRecord> {
    match text::first_at(file_ids(files), id) {
        Some(i) => Some(files[i]),
        None => None,
    }
}

fn find_file<'a>(files: &'a Vec<FileRecord>, id: &str) -> (r: Option<&'a FileRecord>)
    ensures
        match r {
            Some(f) => file_of(files@, id@) == Some(*f),
            None => file_of(files@, id@) is None,
        },
{
    let mut i: usize = 0;
    while i < files.len()
        invariant
            i <= files@.len(),
            forall|k: int| 0 <= k < i ==> #[trigger] file_ids(files@)[k] != id@,
        decreases files@.len() - i,
    {
        if text::same(files[i].id.as_str(), id) {
            proof {
                text::lemma_first_at(file_ids(files@), id@, i as int);
            }
            return Some(&files[i]);
        }
        i += 1;
    }
    proof {
        text::lemma_first_exists(file_ids(files@), id@);
    }
    None
}

/// The answer where the user sees no such file.
pub open spec fn no_file_of() -> ReplyView {
    reply::code_message_of(404, "File not found"@)
}

/// The answer to a request that has been carried out.
pub open spec fn done_of() -> ReplyView {
    reply::code_data_of(JsonView::Bool(true))
}

/// How a file is renamed.
#[derive(Debug)]
pub struct Renaming {
    pub name: String,
    pub old_path: String,
    pub new_path: String,
    /// The stored file has to move, where it exists.
    pub moves: bool,
}

/// How a file is renamed: its stored file moves only where its extension changes.
/// Where nothing is to be done, or nothing can be, it is answered at once.
pub fn rename_file(files: &Vec<FileRecord>, data_dir: &str, file_id: &str, body: &Json) -> (r:
    Result<Renaming, Reply>)
    ensures
        match text::filled_view(body@.text("name"@)) {
            None => r matches Err(a) && a@ == reply::code_message_of(400, "name is required"@),
            Some(name) => match file_of(files@, file_id@) {
                None => r matches Err(a) && a@ == no_file_of(),
                Some(file) => if file.name@ == name {
                    r matches Err(a) && a@ == done_of()
                } else {
                    r matches Ok(plan) && plan.name@ == name && plan.old_path@ == path::below(
                        data_dir@,
                        path::stored_as(file_id@, file.name@),
                    ) && plan.new_path@ == path::below(
                        data_dir@,
                        path::stored_as(file_id@, name),
                    ) && plan.moves == (plan.old_path@ != plan.new_path@)
                },
            },
        },
{
    let name = match text::filled(body.text("name")) {
        Some(name) => name,
        None => {
            return Err(reply::ret_code_response(400, "name is required"));
        },
    };
    let file = match find_file(files, file_id) {
        Some(file) => file,
        None => {
            return Err(reply::ret_code_response(404, "File not found"));
        },
    };
    if text::same(file.name.as_str(), name) {
        return Err(reply::code_data(Json::Bool(true)));
    }
    let old_path = path::file_physical_path(data_dir, file_id, file.name.as_str());
    let new_path = path::file_physical_path(data_dir, file_id, name);
    let moves = !text::same(old_path.as_str(), new_path.as_str());
    Ok(Renaming { name: name.to_owned(), old_path, new_path, moves })
}

/// The answer once the record of a file is stored, or is not.
pub fn renamed(outcome: Result<(), String>) -> (r: Reply)
    ensures
        match outcome {
            Ok(_) => r@ == done_of(),
            Err(reason) => r@ == reply::code_message_of(500, reason@),
        },
{
    match outcome {
        Ok(_) => reply::code_data(Json::Bool(true)),
        Err(reason) => reply::ret_code_response(500, reason.as_str()),
    }
}

/// A file keeps its place as long as its extension stays the same.
pub proof fn renaming_keeps_the_place(
    data_dir: Seq<char>,
    id: Seq<char>,
    old_name: Seq<char>,
    new_name: Seq<char>,
)
    requires
        path::extension_of(old_name) == path::extension_of(new_name),
    ensures
        path::below(data_dir, path::stored_as(id, old_name)) == path::below(
            data_dir,
            path::stored_as(id, new_name),
        ),
{
}

/// How a file is copied.
#[derive(Debug)]
pub struct Copying {
    /// The new record; the store may rename it.
    pub copy: FileRecord,
    pub source: String,
    pub target: String,
}

/// How a file is copied under a new id, or the answer where there is none.
pub fn copy_file(files: &Vec<FileRecord>, data_dir: &str, file_id: &str, new_id: &str, now: u64) -> (r:
    Result<Copying, Reply>)
    ensures
        match file_of(files@, file_id@) {
            None => r matches Err(a) && a@ == no_file_of(),
            Some(file) => r matches Ok(plan) && plan.copy.id@ == new_id@ && plan.copy.name@
                == file.name@ && plan.copy.created_at == now && plan.source@ == path::below(
                data_dir@,
                path::stored_as(file_id@, file.name@),
            ) && plan.target@ == path::below(data_dir@, path::stored_as(new_id@, file.name@)),
        },
{
    let file = match find_file(files, file_id) {
        Some(file) => file,
        None => {
            return Err(reply::ret_code_response(404, "File not found"));
        },
    };
    Ok(
        Copying {
            copy: FileRecord {
                id: new_id.to_owned(),
                name: file.name.clone(),
                created_at: now,
            },
            source: path::file_physical_path(data_dir, file_id, file.name.as_str()),
            target: path::file_physical_path(data_dir, new_id, file.name.as_str()),
        },
    )
}

/// The answer once the copy of a file is stored, or is not.
pub fn copied(outcome: Result<Json, String>) -> (r: Reply)
    ensures
        match outcome {
            Ok(record) => r@ == reply::code_data_of(record@),
            Err(reason) => r@ == reply::code_message_of(500, reason@),
        },
{
    match outcome {
        Ok(record) => reply::code_data(record),
        Err(reason) => reply::ret_code_response(500, reason.as_str()),
    }
}

// ── Laws ────────────────────────────────────────────────────────

/// A file is found by its id: the first of those that carry it.
pub proof fn files_are_found_by_their_id(files: Seq<FileRecord>, id: Seq<char>, i: int)
    ensures
        0 <= i < files.len() && files[i].id@ == id && (forall|j: int|
            0 <= j < i ==> (#[trigger] files[j]).id@ != id) ==> file_of(files, id) == Some(files[i]),
        (forall|j: int| 0 <= j < files.len() ==> (#[trigger] files[j]).id@ != id) ==> file_of(files, id)
            is None,
{
    let ids = file_ids(files);
    assert forall|j: int| 0 <= j < files.len() implies #[trigger] ids[j] == files[j].id@ by {}
    if 0 <= i < files.len() && files[i].id@ == id && (forall|j: int|
        0 <= j < i ==> (#[trigger] files[j]).id@ != id) {
        assert forall|j: int| 0 <= j < i implies #[trigger] ids[j] != id by {
            assert(ids[j] == files[j].id@);
        }
        assert(text::is_first(ids, id, i));
        text::lemma_first_at(ids, id, i);
    }
    if forall|j: int| 0 <= j < files.len() ==> (#[trigger] files[j]).id@ != id {
        if text::first_at(ids, id) is Some {
            let k = choose|k: int| text::is_first(ids, id, k);
            assert(ids[k] == files[k].id@);
        }
    }
}

/// A file is renamed to what is asked for, without white space around it. It needs a
/// name, it has to be there, and a name that it has already changes nothing. Its stored
/// file moves from the place of its old name to that of its new one, where they differ.
pub proof fn files_are_renamed_to_what_is_asked_for(
    files: Vec<FileRecord>,
    data_dir: &str,
    file_id: &str,
    body: Json,
    r: Result<Renaming, Reply>,
    file: FileRecord,
    old_name: &str,
    new_name: &str,
    old_place: String,
    new_place: String,
)
    requires
        call_ensures(rename_file, (&files, data_dir, file_id, &body), r),
        old_name@ == file.name@,
        body@.text("name"@) matches Some(n) ==> new_name@ == text::trimmed(n),
        call_ensures(path::file_physical_path, (data_dir, file_id, old_name), old_place),
        call_ensures(path::file_physical_path, (data_dir, file_id, new_name), new_place),
    ensures
        body@.text("name"@) is None || text::trimmed(body@.text("name"@)->Some_0).len() == 0 ==> (
        r matches Err(a) && reply::tells(a@, 200, 400, "name is required"@)),
        body@.text("name"@) is Some && new_name@.len() > 0 && file_of(files@, file_id@) is None ==> (
        r matches Err(a) && reply::tells(a@, 200, 404, "File not found"@)),
        body@.text("name"@) is Some && new_name@.len() > 0 && file_of(files@, file_id@) == Some(file)
            && new_name@ == file.name@ ==> (r matches Err(a) && a.status == 200 && a@.body.get(
            "code"@,
        ) == Some(JsonView::UInt(0)) && a@.body.get("data"@) == Some(JsonView::Bool(true))),
        body@.text("name"@) is Some && new_name@.len() > 0 && file_of(files@, file_id@) == Some(file)
            && new_name@ != file.name@ ==> (r matches Ok(plan) && plan.name@ == new_name@
            && plan.old_path@ == old_place@ && plan.new_path@ == new_place@ && plan.moves == (
        old_place@ != new_place@)),
{
    reply::answers_tell_what_they_were_given(200, 400, "name is required"@, JsonView::Bool(true));
    reply::answers_tell_what_they_were_given(200, 404, "File not found"@, JsonView::Bool(true));
}

/// A copy carries the name of its file, its own id and the present time; it is copied
/// from the place of the file to its own.
pub proof fn copies_carry_the_name_of_their_file(
    files: Vec<FileRecord>,
    data_dir: &str,
    file_id: &str,
    new_id: &str,
    now: u64,
    r: Result<Copying, Reply>,
    file: FileRecord,
    name: &str,
    source: String,
    target: String,
)
    requires
        call_ensures(copy_file, (&files, data_dir, file_id, new_id, now), r),
        name@ == file.name@,
        call_ensures(path::file_physical_path, (data_dir, file_id, name), source),
        call_ensures(path::file_physical_path, (data_dir, new_id, name), target),
    ensures
        file_of(files@, file_id@) is None ==> (r matches Err(a) && reply::tells(
            a@,
            200,
            404,
            "File not found"@,
        )),
        file_of(files@, file_id@) == Some(file) ==> (r matches Ok(plan) && plan.copy.id@ == new_id@
            && plan.copy.name@ == file.name@ && plan.copy.created_at == now && plan.source@
            == source@ && plan.target@ == target@),
{
    reply::answers_tell_what_they_were_given(200, 404, "File not found"@, JsonView::Bool(true));
}

/// What came of a renaming or a copy is told: success, or why it failed.
pub proof fn outcomes_of_files_are_told(
    stored: Result<(), String>,
    stored_answer: Reply,
    copy: Result<Json, String>,
    copy_answer: Reply,
)
    requires
        call_ensures(renamed, (stored,), stored_answer),
        call_ensures(copied, (copy,), copy_answer),
    ensures
        stored is Ok ==> stored_answer.status == 200 && stored_answer@.body.get("code"@) == Some(
            JsonView::UInt(0),
        ) && stored_answer@.body.get("data"@) == Some(JsonView::Bool(true)),
        stored matches Err(reason) ==> reply::tells(stored_answer@, 200, 500, reason@),
        copy matches Ok(record) ==> copy_answer.status == 200 && copy_answer@.body.get("code"@)
            == Some(JsonView::UInt(0)) && copy_answer@.body.get("data"@) == Some(record@),
        copy matches Err(reason) ==> reply::tells(copy_answer@, 200, 500, reason@),
{
    match stored {
        Ok(_) => reply::answers_tell_what_they_were_given(200, 0, ""@, JsonView::Bool(true)),
        Err(e) => reply::answers_tell_what_they_were_given(200, 500, e@, JsonView::Null),
    }
    match copy {
        Ok(record) => reply::answers_tell_what_they_were_given(200, 0, ""@, record@),
        Err(e) => reply::answers_tell_what_they_were_given(200, 500, e@, JsonView::Null),
    }
}

} // verus!
