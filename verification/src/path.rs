//! Names of stored files.
//!
//! Paths are texts with `/` between their segments. An empty segment and a segment
//! `.` stand for nothing; a segment `..` names a parent.

use crate::state::{AppState, DocRecord};
use crate::text;
use vstd::prelude::*;

verus! {

/// The last segment that stands for a file.
pub open spec fn last_name(segments: Seq<Seq<char>>) -> Option<Seq<char>>
    decreases segments.len(),
{
    if segments.len() == 0 {
        None
    } else if segments.last() == Seq::<char>::empty() || segments.last() == seq!['.'] {
        last_name(segments.drop_last())
    } else if segments.last() == seq!['.', '.'] {
        None
    } else {
        Some(segments.last())
    }
}

/// The file that a path ends in.
pub open spec fn file_name_of(path: Seq<char>) -> Option<Seq<char>> {
    last_name(text::pieces(path, '/'))
}

/// `i` is the position of the last dot of `name`.
pub open spec fn is_last_dot(name: Seq<char>, i: int) -> bool {
    0 <= i < name.len() && name[i] == '.' && forall|j: int|
        i < j < name.len() ==> #[trigger] name[j] != '.'
}

/// What follows the last dot of a file's name, unless the name starts with it.
pub open spec fn suffix_of(name: Seq<char>) -> Option<Seq<char>> {
    if exists|i: int| 0 < i && is_last_dot(name, i) {
        let i = choose|i: int| 0 < i && is_last_dot(name, i);
        Some(name.skip(i + 1))
    } else {
        None
    }
}

/// The extension of the file that a path ends in, in lower case; nothing where it
/// has none.
pub open spec fn extension_of(path: Seq<char>) -> Seq<char> {
    match file_name_of(path) {
        Some(name) => match suffix_of(name) {
            Some(suffix) => text::lowered(suffix),
            None => Seq::empty(),
        },
        None => Seq::empty(),
    }
}

/// The name under which the file `name` with the given id is stored.
pub open spec fn stored_as(id: Seq<char>, name: Seq<char>) -> Seq<char> {
    if extension_of(name).len() == 0 {
        id
    } else {
        id + seq!['.'] + extension_of(name)
    }
}

/// `tail` below `base`. A tail that starts at the root stands alone.
pub open spec fn below(base: Seq<char>, tail: Seq<char>) -> Seq<char> {
    if tail.len() > 0 && tail[0] == '/' {
        tail
    } else if base.len() == 0 || base.last() == '/' {
        base + tail
    } else {
        base + seq!['/'] + tail
    }
}

proof fn lemma_suffix(name: Seq<char>, i: int)
    requires
        is_last_dot(name, i),
    ensures
        suffix_of(name) == (if i > 0 {
            Some(name.skip(i + 1))
        } else {
            None
        }),
{
    assert forall|j: int| is_last_dot(name, j) implies j == i by {
        if j < i {
            assert(name[i] != '.');
        } else if i < j {
            assert(name[j] != '.');
        }
    }
}

/// The file that a path ends in.
pub fn file_name(path: &str) -> (r: Option<String>)
    ensures
        text::opt_view(r) == file_name_of(path@),
{
    proof {
        reveal_strlit(".");
        reveal_strlit("..");
        assert("."@ =~= seq!['.']);
        assert(".."@ =~= seq!['.', '.']);
    }
    let segments = text::split(path, '/');
    let ghost all = text::views(segments@);
    let mut n: usize = segments.len();
    assert(all.take(n as int) =~= all);
    while n > 0
        invariant
            n <= segments@.len(),
            all == text::views(segments@),
            all == text::pieces(path@, '/'),
            "."@ == seq!['.'],
            ".."@ == seq!['.', '.'],
            last_name(all.take(n as int)) == file_name_of(path@),
        decreases n,
    {
        let last = segments[n - 1].as_str();
        assert(all.take(n as int).last() == last@);
        assert(all.take(n as int).drop_last() =~= all.take(n - 1));
        assert(last@.len() == 0 ==> last@ =~= Seq::<char>::empty());
        if last.is_empty() || text::same(last, ".") {
            n -= 1;
        } else if text::same(last, "..") {
            return None;
        } else {
            return Some(last.to_owned());
        }
    }
    None
}

/// What follows the last dot of a file's name, unless the name starts with it.
fn suffix(name: &str) -> (r: Option<String>)
    ensures
        text::opt_view(r) == suffix_of(name@),
{
    let chars = text::chars_of(name);
    let mut n: usize = chars.len();
    while n > 0
        invariant
            n <= chars@.len(),
            chars@ == name@,
            forall|j: int| n <= j < chars@.len() ==> #[trigger] name@[j] != '.',
        decreases n,
    {
        if chars[n - 1] == '.' {
            proof {
                lemma_suffix(name@, n - 1);
            }
            if n == 1 {
                return None;
            }
            assert(name@.subrange(n as int, name@.len() as int) =~= name@.skip(n as int));
            return Some(text::string_of(&chars, n, chars.len()));
        }
        n -= 1;
    }
    None
}

/// The extension of the file that a path ends in, in lower case; empty where it has
/// none.
pub fn extension(path: &str) -> (r: String)
    ensures
        r@ == extension_of(path@),
{
    match file_name(path) {
        Some(name) => match suffix(name.as_str()) {
            Some(end) => text::to_lower(end.as_str()),
            None => String::new(),
        },
        None => String::new(),
    }
}

/// `tail` below `base`. A tail that starts at the root stands alone.
pub fn join(base: &str, tail: &str) -> (r: String)
    ensures
        r@ == below(base@, tail@),
{
    let b = text::chars_of(base);
    let t = text::chars_of(tail);
    if t.len() > 0 && t[0] == '/' {
        return tail.to_owned();
    }
    if b.len() == 0 || b[b.len() - 1] == '/' {
        return text::concat(base, tail);
    }
    proof {
        reveal_strlit("/");
        assert("/"@ =~= seq!['/']);
    }
    text::concat3(base, "/", tail)
}

/// The name under which the file `name` with the given id is stored.
pub fn storage_name(id: &str, name: &str) -> (r: String)
    ensures
        r@ == stored_as(id@, name@),
{
    let end = extension(name);
    if end.as_str().is_empty() {
        id.to_owned()
    } else {
        proof {
            reveal_strlit(".");
            assert("."@ =~= seq!['.']);
        }
        text::concat3(id, ".", end.as_str())
    }
}

/// The path of a file of the file manager.
pub fn file_physical_path(data_dir: &str, id: &str, name: &str) -> (r: String)
    ensures
        r@ == below(data_dir@, stored_as(id@, name@)),
{
    join(data_dir, storage_name(id, name).as_str())
}

/// The directory that uploads are stored in.
pub open spec fn uploads_of(state: AppState) -> Seq<char> {
    below(state.static_dir@, "../uploads"@)
}

/// The path of a document's upload.
pub open spec fn document_path(state: AppState, doc: DocRecord) -> Seq<char> {
    below(
        uploads_of(state),
        if doc.storage_name@.len() == 0 {
            doc.id@
        } else {
            doc.storage_name@
        },
    )
}

/// The directory that uploads are stored in.
pub fn upload_dir(state: &AppState) -> (r: String)
    ensures
        r@ == uploads_of(*state),
{
    join(state.static_dir.as_str(), "../uploads")
}

/// The path of a document's upload. A record without a storage name is stored under
/// its id.
pub fn document_storage_path(state: &AppState, doc: &DocRecord) -> (r: String)
    ensures
        r@ == document_path(*state, *doc),
{
    let name = if doc.storage_name.as_str().is_empty() {
        doc.id.as_str()
    } else {
        doc.storage_name.as_str()
    };
    join(upload_dir(state).as_str(), name)
}

/// The name may be given to an upload: it is a single file name of at most 255 bytes.
pub open spec fn is_upload_name(name: Seq<char>) -> bool {
    &&& name.len() > 0
    &&& text::bytes_of(name) <= 255
    &&& !name.contains('\0')
    &&& !name.contains('/')
    &&& name != seq!['.']
    &&& name != seq!['.', '.']
}

/// The trimmed name of an upload. `media_type_known` says whether the parsers know a
/// media type for it.
pub fn safe_upload_name(name: &str, media_type_known: bool) -> (r: Result<String, String>)
    ensures
        match r {
            Ok(n) => is_upload_name(text::trimmed(name@)) && media_type_known && n@
                == text::trimmed(name@),
            Err(e) => (e@ == "Invalid filename"@ && !is_upload_name(text::trimmed(name@))) || (e@
                == "Unsupported file type"@ && is_upload_name(text::trimmed(name@))
                && !media_type_known),
        },
{
    let name = text::trim(name);
    if name.is_empty() || text::byte_len(name) > 255 || text::contains_char(name, '\0') {
        return Err("Invalid filename".to_owned());
    }
    proof {
        reveal_strlit(".");
        reveal_strlit("..");
        assert("."@ =~= seq!['.']);
        assert(".."@ =~= seq!['.', '.']);
    }
    if text::contains_char(name, '/') || text::same(name, ".") || text::same(name, "..") {
        return Err("Invalid filename".to_owned());
    }
    if !media_type_known {
        return Err("Unsupported file type".to_owned());
    }
    Ok(name.to_owned())
}

proof fn lemma_whole_piece(s: Seq<char>, sep: char)
    requires
        !s.contains(sep),
    ensures
        text::pieces(s, sep) == seq![s],
    decreases s.len(),
{
    if s.len() > 0 {
        assert(!s.drop_last().contains(sep)) by {
            assert forall|k: int| 0 <= k < s.drop_last().len() implies s.drop_last()[k] != sep by {
                assert(s[k] == s.drop_last()[k]);
                assert(s.contains(s[k]));
            }
        }
        lemma_whole_piece(s.drop_last(), sep);
        assert(s.contains(s.last()));
        assert(s.drop_last().push(s.last()) =~= s);
        assert(text::pieces(s, sep) =~= seq![s]);
    }
}

/// The name of an accepted upload is the whole of its path: it names a file, in no
/// directory.
pub proof fn upload_names_stay_in_their_directory(name: Seq<char>)
    requires
        is_upload_name(name),
    ensures
        file_name_of(name) == Some(name),
        forall|dir: Seq<char>| dir.is_prefix_of(#[trigger] below(dir, name)),
{
    lemma_whole_piece(name, '/');
    assert(text::pieces(name, '/').last() == name);
    assert forall|dir: Seq<char>| dir.is_prefix_of(#[trigger] below(dir, name)) by {
        assert(name.contains(name[0]));
        assert(below(dir, name).take(dir.len() as int) =~= dir);
    }
}

/// Files with different ids are stored under different names, whatever they are
/// called, where an id holds no dot.
pub proof fn stored_names_are_distinct(
    a: Seq<char>,
    b: Seq<char>,
    name_a: Seq<char>,
    name_b: Seq<char>,
)
    requires
        !a.contains('.'),
        !b.contains('.'),
        stored_as(a, name_a) == stored_as(b, name_b),
    ensures
        a == b,
{
    let s = stored_as(a, name_a);
    assert forall|k: int| 0 <= k < a.len() implies s[k] != '.' by {
        assert(s[k] == a[k]);
        assert(a.contains(a[k]));
    }
    assert forall|k: int| 0 <= k < b.len() implies s[k] != '.' by {
        assert(s[k] == b[k]);
        assert(b.contains(b[k]));
    }
    if a.len() < b.len() {
        assert(s[a.len() as int] == '.');
    } else if b.len() < a.len() {
        assert(s[b.len() as int] == '.');
    }
    assert(a =~= s.take(a.len() as int));
    assert(b =~= s.take(b.len() as int));
}

// ── What names and places are for ───────────────────────────────

/// The extension of a file is what follows the last dot of its name, in lower case; a
/// name without a dot, or with one only in front, has none. Directories do not count.
pub proof fn extensions_follow_the_last_dot(
    stem: Seq<char>,
    ext: Seq<char>,
    path: &str,
    r: String,
)
    requires
        call_ensures(extension, (path,), r),
        !stem.contains('/'),
        !ext.contains('/'),
        !ext.contains('.'),
    ensures
        path@ == stem + seq!['.'] + ext && stem.len() > 0 && ext.len() > 0 ==> r@ == text::lowered(
            ext,
        ),
        path@ == ext ==> r@.len() == 0,
        path@ == seq!['.'] + ext ==> r@.len() == 0,
{
    if path@ == stem + seq!['.'] + ext && stem.len() > 0 && ext.len() > 0 {
        let name = stem + seq!['.'] + ext;
        if name.contains('/') {
            let k = choose|k: int| 0 <= k < name.len() && name[k] == '/';
            if k < stem.len() {
                assert(stem[k] == '/');
            } else if k > stem.len() {
                assert(ext[k - stem.len() - 1] == '/');
            }
        }
        lemma_whole_piece(name, '/');
        let n = stem.len() as int;
        assert forall|j: int| n < j < name.len() implies #[trigger] name[j] != '.' by {
            assert(name[j] == ext[j - n - 1]);
        }
        assert(is_last_dot(name, n));
        lemma_suffix(name, n);
        assert(name.skip(n + 1) =~= ext);
        assert(name[n] == '.');
        if name == seq!['.', '.'] {
            assert(ext[0] == name[1]);
        }
        reveal_with_fuel(last_name, 2);
        assert(file_name_of(name) == Some(name));
    }
    if path@ == ext {
        lemma_whole_piece(ext, '/');
        reveal_with_fuel(last_name, 2);
        assert(seq![ext].drop_last() =~= Seq::<Seq<char>>::empty());
        if exists|i: int| 0 < i && is_last_dot(ext, i) {
            let i = choose|i: int| 0 < i && is_last_dot(ext, i);
            assert(ext[i] == '.');
        }
    }
    if path@ == seq!['.'] + ext {
        let name = seq!['.'] + ext;
        if name.contains('/') {
            let k = choose|k: int| 0 <= k < name.len() && name[k] == '/';
            assert(ext[k - 1] == '/');
        }
        lemma_whole_piece(name, '/');
        reveal_with_fuel(last_name, 2);
        assert(seq![name].drop_last() =~= Seq::<Seq<char>>::empty());
        assert forall|j: int| 0 < j < name.len() implies #[trigger] name[j] != '.' by {
            assert(name[j] == ext[j - 1]);
        }
        assert(is_last_dot(name, 0));
        lemma_suffix(name, 0);
    }
}

/// A file is stored under its id, with the extension of its name where it has one; a
/// document's upload lies in the directory of uploads, under its storage name, or under
/// its id where the record is older than that.
pub proof fn files_are_stored_under_their_id(
    state: AppState,
    doc: DocRecord,
    id: &str,
    name: &str,
    ext: String,
    stored: String,
    dir: String,
    place: String,
)
    requires
        call_ensures(extension, (name,), ext),
        call_ensures(storage_name, (id, name), stored),
        call_ensures(upload_dir, (&state,), dir),
        call_ensures(document_storage_path, (&state, &doc), place),
        state.static_dir@.len() > 0,
        state.static_dir@.last() != '/',
    ensures
        ext@.len() == 0 ==> stored@ == id@,
        ext@.len() > 0 ==> stored@ == id@ + seq!['.'] + ext@,
        dir@ == state.static_dir@ + "/../uploads"@,
        doc.storage_name@.len() > 0 && doc.storage_name@[0] != '/' ==> place@ == dir@ + seq!['/']
            + doc.storage_name@,
        doc.storage_name@.len() == 0 && doc.id@.len() > 0 && doc.id@[0] != '/' ==> place@ == dir@
            + seq!['/'] + doc.id@,
{
    reveal_strlit("../uploads");
    reveal_strlit("/../uploads");
    assert(state.static_dir@ + seq!['/'] + "../uploads"@ =~= state.static_dir@ + "/../uploads"@);
    assert(dir@.last() == 's');
}

/// A tail goes below its base with one slash between them; a tail that starts at the
/// root stands alone.
pub proof fn tails_go_below_their_base(base: &str, tail: &str, r: String)
    requires
        call_ensures(join, (base, tail), r),
    ensures
        tail@.len() > 0 && tail@[0] == '/' ==> r@ == tail@,
        (tail@.len() == 0 || tail@[0] != '/') && base@.len() > 0 && base@.last() != '/' ==> r@
            == base@ + seq!['/'] + tail@,
        (tail@.len() == 0 || tail@[0] != '/') && (base@.len() == 0 || base@.last() == '/') ==> r@
            == base@ + tail@,
{
}

/// The file of the file manager is stored below its directory, under its id.
pub proof fn managed_files_lie_in_their_directory(
    data_dir: &str,
    id: &str,
    name: &str,
    stored: String,
    below_it: &str,
    r: String,
    place: String,
)
    requires
        call_ensures(file_physical_path, (data_dir, id, name), r),
        call_ensures(storage_name, (id, name), stored),
        below_it@ == stored@,
        call_ensures(join, (data_dir, below_it), place),
    ensures
        r@ == place@,
{
}

/// An upload keeps its name without white space around it. An empty name, a name over
/// 255 bytes, one that holds a slash or a zero, and the names of the directory and its
/// parent are invalid; of the others, those of an unknown media type are unsupported, and
/// the rest are taken.
pub proof fn upload_names_are_checked(name: &str, known: bool, r: Result<String, String>)
    requires
        call_ensures(safe_upload_name, (name, known), r),
    ensures
        ({
            let trimmed = text::trimmed(name@);
            let invalid = trimmed.len() == 0 || vstd::utf8::encode_utf8(trimmed).len() > 255
                || trimmed.contains('/') || trimmed.contains('\0') || trimmed == seq!['.']
                || trimmed == seq!['.', '.'];
            &&& invalid ==> (r matches Err(e) && e@ == "Invalid filename"@)
            &&& !invalid && !known ==> (r matches Err(e) && e@ == "Unsupported file type"@)
            &&& !invalid && known ==> (r matches Ok(n) && n@ == trimmed)
        }),
{
    reveal_strlit("Invalid filename");
    reveal_strlit("Unsupported file type");
    assert("Invalid filename"@.len() != "Unsupported file type"@.len());
}

} // verus!
