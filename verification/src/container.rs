//! Does the content of an upload match its extension?

use crate::path;
use crate::text;
use crate::textscan;
use vstd::prelude::*;

verus! {

// ── Zip archives and JSON documents ─────────────────────────────

/// The names of the entries of a zip archive, in the archive's order; nothing where
/// the bytes are no archive that can be opened.
pub uninterp spec fn zip_names(bytes: Seq<u8>) -> Option<Seq<Seq<char>>>;

/// The entry of the archive can be opened.
pub uninterp spec fn zip_opens(bytes: Seq<u8>, name: Seq<char>) -> bool;

/// The text of the entry of the archive; nothing where it cannot be opened, cannot be
/// unpacked, or is no text.
pub uninterp spec fn zip_text(bytes: Seq<u8>, name: Seq<char>) -> Option<Seq<char>>;

/// The bytes are one JSON document.
pub uninterp spec fn json_document(bytes: Seq<u8>) -> bool;

/// The view of an optional row of strings.
pub open spec fn opt_views(o: Option<Vec<String>>) -> Option<Seq<Seq<char>>> {
    match o {
        Some(v) => Some(text::views(v@)),
        None => None,
    }
}

/// `zip::ZipArchive::file_names` of the archive that `ZipArchive::new` finds in the
/// bytes: a function of the bytes alone.
#[verifier::external_body]
fn entry_names(bytes: &[u8]) -> (r: Option<Vec<String>>)
    ensures
        opt_views(r) == zip_names(bytes@),
{
    let archive = zip::ZipArchive::new(std::io::Cursor::new(bytes)).ok()?;
    Some(archive.file_names().map(|name| name.to_string()).collect())
}

/// `zip::ZipArchive::by_name` on the archive in the bytes: whether it succeeds is a
/// function of the bytes and the name alone.
#[verifier::external_body]
fn entry_opens(bytes: &[u8], name: &str) -> (r: bool)
    ensures
        r == zip_opens(bytes@, name@),
{
    match zip::ZipArchive::new(std::io::Cursor::new(bytes)) {
        Ok(mut archive) => archive.by_name(name).is_ok(),
        Err(_) => false,
    }
}

/// Reading the `zip::read::ZipFile` that `ZipArchive::by_name` opens in the bytes to
/// its end as text: what comes out is a function of the bytes and the name alone.
#[verifier::external_body]
fn entry_text(bytes: &[u8], name: &str) -> (r: Option<String>)
    ensures
        text::opt_view(r) == zip_text(bytes@, name@),
{
    let mut archive = zip::ZipArchive::new(std::io::Cursor::new(bytes)).ok()?;
    let mut file = archive.by_name(name).ok()?;
    std::io::read_to_string(&mut file).ok()
}

/// `serde_json::from_reader` into a `serde_json::Value`: whether it succeeds is a
/// function of the bytes alone.
#[verifier::external_body]
fn is_json(bytes: &[u8]) -> (r: bool)
    ensures
        r == json_document(bytes@),
{
    serde_json::from_reader::<_, serde_json::Value>(bytes).is_ok()
}

/// A name starts with the prefix.
pub open spec fn some_below(names: Seq<Seq<char>>, prefix: Seq<char>) -> bool {
    exists|i: int| 0 <= i < names.len() && prefix.is_prefix_of(#[trigger] names[i])
}

/// A name starts with the prefix.
pub fn any_below(names: &Vec<String>, prefix: &str) -> (r: bool)
    ensures
        r == some_below(text::views(names@), prefix@),
{
    let ghost all = text::views(names@);
    let mut i: usize = 0;
    while i < names.len()
        invariant
            i <= names@.len(),
            all == text::views(names@),
            forall|k: int| 0 <= k < i ==> !prefix@.is_prefix_of(#[trigger] all[k]),
        decreases names@.len() - i,
    {
        assert(all[i as int] == names@[i as int]@);
        if text::has_prefix(names[i].as_str(), prefix) {
            return true;
        }
        i += 1;
    }
    false
}

/// What makes an archive a document of its kind.
pub open spec fn is_container(
    extension: Seq<char>,
    names: Option<Seq<Seq<char>>>,
    has_types: bool,
    mimetype: Option<Seq<char>>,
) -> bool {
    match names {
        None => false,
        Some(names) => if extension == "docx"@ {
            has_types && some_below(names, "word/"@)
        } else if extension == "xlsx"@ {
            has_types && some_below(names, "xl/"@)
        } else if extension == "pptx"@ {
            has_types && some_below(names, "ppt/"@)
        } else if extension == "epub"@ {
            mimetype matches Some(t) && text::trimmed(t) == "application/epub+zip"@
        } else {
            false
        },
    }
}

/// What makes an archive a document of its kind: `names` are its entries, `has_types`
/// tells whether its list of content types opens, `mimetype` is the text of its entry
/// of that name.
pub fn container_matches(
    extension: &str,
    names: Option<Vec<String>>,
    has_types: bool,
    mimetype: Option<String>,
) -> (r: bool)
    ensures
        r == is_container(extension@, opt_views(names), has_types, text::opt_view(mimetype)),
{
    let names = match names {
        Some(names) => names,
        None => {
            return false;
        },
    };
    proof {
        reveal_strlit("docx");
        reveal_strlit("xlsx");
        reveal_strlit("pptx");
        reveal_strlit("epub");
    }
    if text::same(extension, "docx") {
        has_types && any_below(&names, "word/")
    } else if text::same(extension, "xlsx") {
        has_types && any_below(&names, "xl/")
    } else if text::same(extension, "pptx") {
        has_types && any_below(&names, "ppt/")
    } else if text::same(extension, "epub") {
        match mimetype {
            Some(t) => text::same(text::trim(t.as_str()), "application/epub+zip"),
            None => false,
        }
    } else {
        false
    }
}

/// The bytes are an archive of the kind that the extension tells.
pub open spec fn zip_container(extension: Seq<char>, bytes: Seq<u8>) -> bool {
    is_container(
        extension,
        zip_names(bytes),
        zip_opens(bytes, "[Content_Types].xml"@),
        zip_text(bytes, "mimetype"@),
    )
}

/// The bytes are an archive of the kind that the extension tells.
pub fn validate_zip_container(extension: &str, bytes: &[u8]) -> (r: bool)
    ensures
        r == zip_container(extension@, bytes@),
{
    container_matches(
        extension,
        entry_names(bytes),
        entry_opens(bytes, "[Content_Types].xml"),
        entry_text(bytes, "mimetype"),
    )
}

// ── Signatures ──────────────────────────────────────────────────

/// The content starts with the bytes.
pub open spec fn starts(content: Seq<u8>, signature: Seq<u8>) -> bool {
    signature.is_prefix_of(content)
}

fn starts_with(content: &[u8], signature: Vec<u8>) -> (r: bool)
    ensures
        r == starts(content@, signature@),
{
    if signature.len() > content.len() {
        return false;
    }
    let mut i: usize = 0;
    while i < signature.len()
        invariant
            i <= signature@.len() <= content@.len(),
            forall|k: int| 0 <= k < i ==> content@[k] == signature@[k],
        decreases signature@.len() - i,
    {
        if content[i] != signature[i] {
            assert(content@.take(signature@.len() as int)[i as int] != signature@[i as int]);
            return false;
        }
        i += 1;
    }
    assert(content@.take(signature@.len() as int) =~= signature@);
    true
}

/// The content starts as a zip archive does: with an entry, with an empty directory,
/// or as a part of a split archive.
pub open spec fn looks_zipped(content: Seq<u8>) -> bool {
    starts(content, seq![0x50u8, 0x4b, 3, 4]) || starts(content, seq![0x50u8, 0x4b, 5, 6])
        || starts(content, seq![0x50u8, 0x4b, 7, 8])
}

/// The content starts as an image of the kind that the extension tells; nothing where
/// the extension is that of no image.
pub open spec fn image_fits(extension: Seq<char>, content: Seq<u8>) -> Option<bool> {
    if extension == "png"@ {
        Some(starts(content, seq![0x89u8, 0x50, 0x4e, 0x47, 0x0d, 0x0a, 0x1a, 0x0a]))
    } else if extension == "jpg"@ || extension == "jpeg"@ {
        Some(starts(content, seq![0xffu8, 0xd8, 0xff]))
    } else if extension == "gif"@ {
        Some(
            starts(content, seq![0x47u8, 0x49, 0x46, 0x38, 0x37, 0x61]) || starts(
                content,
                seq![0x47u8, 0x49, 0x46, 0x38, 0x39, 0x61],
            ),
        )
    } else if extension == "webp"@ {
        Some(
            content.len() >= 12 && starts(content, seq![0x52u8, 0x49, 0x46, 0x46]) && starts(
                content.skip(8),
                seq![0x57u8, 0x45, 0x42, 0x50],
            ),
        )
    } else if extension == "bmp"@ {
        Some(starts(content, seq![0x42u8, 0x4d]))
    } else if extension == "tif"@ || extension == "tiff"@ {
        Some(
            starts(content, seq![0x49u8, 0x49, 0x2a, 0]) || starts(
                content,
                seq![0x4du8, 0x4d, 0, 0x2a],
            ) || starts(content, seq![0x49u8, 0x49, 0x2b, 0]) || starts(
                content,
                seq![0x4du8, 0x4d, 0, 0x2b],
            ),
        )
    } else {
        None
    }
}

/// The extension is that of a text.
pub open spec fn is_text_extension(extension: Seq<char>) -> bool {
    ||| extension == "txt"@
    ||| extension == "md"@
    ||| extension == "markdown"@
    ||| extension == "html"@
    ||| extension == "htm"@
    ||| extension == "csv"@
    ||| extension == "svg"@
    ||| extension == "xml"@
    ||| extension == "yaml"@
    ||| extension == "yml"@
    ||| extension == "toml"@
    ||| extension == "log"@
}

/// The extension is that of a document in a zip archive.
pub open spec fn is_zip_extension(extension: Seq<char>) -> bool {
    extension == "docx"@ || extension == "xlsx"@ || extension == "pptx"@ || extension == "epub"@
}

/// The content is of the kind that the extension tells.
pub open spec fn content_fits(extension: Seq<char>, content: Seq<u8>) -> bool {
    if extension == "pdf"@ {
        starts(content, seq![0x25u8, 0x50, 0x44, 0x46, 0x2d])
    } else if is_zip_extension(extension) {
        looks_zipped(content) && zip_container(extension, content)
    } else if extension == "json"@ {
        json_document(content)
    } else if is_text_extension(extension) {
        textscan::is_text(content)
    } else {
        image_fits(extension, content) == Some(true)
    }
}

fn image_matches(extension: &str, content: &[u8]) -> (r: Option<bool>)
    ensures
        r == image_fits(extension@, content@),
{
    if text::same(extension, "png") {
        Some(starts_with(content, vec![0x89u8, 0x50, 0x4e, 0x47, 0x0d, 0x0a, 0x1a, 0x0a]))
    } else if text::same(extension, "jpg") || text::same(extension, "jpeg") {
        Some(starts_with(content, vec![0xffu8, 0xd8, 0xff]))
    } else if text::same(extension, "gif") {
        Some(
            starts_with(content, vec![0x47u8, 0x49, 0x46, 0x38, 0x37, 0x61]) || starts_with(
                content,
                vec![0x47u8, 0x49, 0x46, 0x38, 0x39, 0x61],
            ),
        )
    } else if text::same(extension, "webp") {
        let fits = content.len() >= 12 && starts_with(content, vec![0x52u8, 0x49, 0x46, 0x46])
            && content[8] == 0x57 && content[9] == 0x45 && content[10] == 0x42 && content[11]
            == 0x50;
        proof {
            let tail = content@.skip(8);
            if content@.len() >= 12 {
                assert(tail.take(4) =~= seq![tail[0], tail[1], tail[2], tail[3]]);
                let wanted = seq![0x57u8, 0x45, 0x42, 0x50];
                if starts(tail, wanted) {
                    assert(tail.take(4)[0] == wanted[0]);
                    assert(tail.take(4)[1] == wanted[1]);
                    assert(tail.take(4)[2] == wanted[2]);
                    assert(tail.take(4)[3] == wanted[3]);
                }
                if tail[0] == 0x57 && tail[1] == 0x45 && tail[2] == 0x42 && tail[3] == 0x50 {
                    assert(tail.take(4) =~= wanted);
                }
            }
        }
        Some(fits)
    } else if text::same(extension, "bmp") {
        Some(starts_with(content, vec![0x42u8, 0x4d]))
    } else if text::same(extension, "tif") || text::same(extension, "tiff") {
        Some(
            starts_with(content, vec![0x49u8, 0x49, 0x2a, 0]) || starts_with(
                content,
                vec![0x4du8, 0x4d, 0, 0x2a],
            ) || starts_with(content, vec![0x49u8, 0x49, 0x2b, 0]) || starts_with(
                content,
                vec![0x4du8, 0x4d, 0, 0x2b],
            ),
        )
    } else {
        None
    }
}

fn text_extension(extension: &str) -> (r: bool)
    ensures
        r == is_text_extension(extension@),
{
    text::same(extension, "txt") || text::same(extension, "md") || text::same(
        extension,
        "markdown",
    ) || text::same(extension, "html") || text::same(extension, "htm") || text::same(
        extension,
        "csv",
    ) || text::same(extension, "svg") || text::same(extension, "xml") || text::same(
        extension,
        "yaml",
    ) || text::same(extension, "yml") || text::same(extension, "toml") || text::same(
        extension,
        "log",
    )
}

/// The content is a text.
fn holds_text(content: &[u8]) -> (r: bool)
    ensures
        r == textscan::is_text(content@),
{
    let mut scan = textscan::TextScan::new();
    scan.feed(content);
    assert(scan.seen() =~= content@);
    scan.finish()
}

/// The content is of the kind that the extension of the name tells.
pub fn validate_upload(name: &str, content: &[u8]) -> (r: Result<(), String>)
    ensures
        match r {
            Ok(_) => content_fits(path::extension_of(name@), content@),
            Err(e) => !content_fits(path::extension_of(name@), content@) && e@
                == "File content does not match its extension"@,
        },
{
    let extension = path::extension(name);
    let extension = extension.as_str();
    let valid = if text::same(extension, "pdf") {
        starts_with(content, vec![0x25u8, 0x50, 0x44, 0x46, 0x2d])
    } else if text::same(extension, "docx") || text::same(extension, "xlsx") || text::same(
        extension,
        "pptx",
    ) || text::same(extension, "epub") {
        (starts_with(content, vec![0x50u8, 0x4b, 3, 4]) || starts_with(
            content,
            vec![0x50u8, 0x4b, 5, 6],
        ) || starts_with(content, vec![0x50u8, 0x4b, 7, 8])) && validate_zip_container(
            extension,
            content,
        )
    } else if text::same(extension, "json") {
        is_json(content)
    } else if text_extension(extension) {
        holds_text(content)
    } else {
        match image_matches(extension, content) {
            Some(fits) => fits,
            None => false,
        }
    };
    if valid {
        Ok(())
    } else {
        Err("File content does not match its extension".to_owned())
    }
}

/// A file without an extension, or with one that is not known, is never accepted.
pub proof fn unknown_extensions_are_refused(extension: Seq<char>, content: Seq<u8>)
    requires
        extension != "pdf"@,
        !is_zip_extension(extension),
        extension != "json"@,
        !is_text_extension(extension),
        image_fits(extension, content) is None,
    ensures
        !content_fits(extension, content),
{
}

// ── What a check is for ─────────────────────────────────────────

proof fn lemma_extensions_differ()
    ensures
        "txt"@ != "md"@,
        "txt"@ != "markdown"@,
        "txt"@ != "html"@,
        "txt"@ != "htm"@,
        "txt"@ != "csv"@,
        "txt"@ != "svg"@,
        "txt"@ != "xml"@,
        "txt"@ != "yaml"@,
        "txt"@ != "yml"@,
        "txt"@ != "toml"@,
        "txt"@ != "log"@,
        "txt"@ != "pdf"@,
        "txt"@ != "json"@,
        "txt"@ != "docx"@,
        "txt"@ != "xlsx"@,
        "txt"@ != "pptx"@,
        "txt"@ != "epub"@,
        "txt"@ != "png"@,
        "txt"@ != "jpg"@,
        "txt"@ != "jpeg"@,
        "txt"@ != "gif"@,
        "txt"@ != "webp"@,
        "txt"@ != "bmp"@,
        "txt"@ != "tif"@,
        "txt"@ != "tiff"@,
        "md"@ != "markdown"@,
        "md"@ != "html"@,
        "md"@ != "htm"@,
        "md"@ != "csv"@,
        "md"@ != "svg"@,
        "md"@ != "xml"@,
        "md"@ != "yaml"@,
        "md"@ != "yml"@,
        "md"@ != "toml"@,
        "md"@ != "log"@,
        "md"@ != "pdf"@,
        "md"@ != "json"@,
        "md"@ != "docx"@,
        "md"@ != "xlsx"@,
        "md"@ != "pptx"@,
        "md"@ != "epub"@,
        "md"@ != "png"@,
        "md"@ != "jpg"@,
        "md"@ != "jpeg"@,
        "md"@ != "gif"@,
        "md"@ != "webp"@,
        "md"@ != "bmp"@,
        "md"@ != "tif"@,
        "md"@ != "tiff"@,
        "markdown"@ != "html"@,
        "markdown"@ != "htm"@,
        "markdown"@ != "csv"@,
        "markdown"@ != "svg"@,
        "markdown"@ != "xml"@,
        "markdown"@ != "yaml"@,
        "markdown"@ != "yml"@,
        "markdown"@ != "toml"@,
        "markdown"@ != "log"@,
        "markdown"@ != "pdf"@,
        "markdown"@ != "json"@,
        "markdown"@ != "docx"@,
        "markdown"@ != "xlsx"@,
        "markdown"@ != "pptx"@,
        "markdown"@ != "epub"@,
        "markdown"@ != "png"@,
        "markdown"@ != "jpg"@,
        "markdown"@ != "jpeg"@,
        "markdown"@ != "gif"@,
        "markdown"@ != "webp"@,
        "markdown"@ != "bmp"@,
        "markdown"@ != "tif"@,
        "markdown"@ != "tiff"@,
        "html"@ != "htm"@,
        "html"@ != "csv"@,
        "html"@ != "svg"@,
        "html"@ != "xml"@,
        "html"@ != "yaml"@,
        "html"@ != "yml"@,
        "html"@ != "toml"@,
        "html"@ != "log"@,
        "html"@ != "pdf"@,
        "html"@ != "json"@,
        "html"@ != "docx"@,
        "html"@ != "xlsx"@,
        "html"@ != "pptx"@,
        "html"@ != "epub"@,
        "html"@ != "png"@,
        "html"@ != "jpg"@,
        "html"@ != "jpeg"@,
        "html"@ != "gif"@,
        "html"@ != "webp"@,
        "html"@ != "bmp"@,
        "html"@ != "tif"@,
        "html"@ != "tiff"@,
        "htm"@ != "csv"@,
        "htm"@ != "svg"@,
        "htm"@ != "xml"@,
        "htm"@ != "yaml"@,
        "htm"@ != "yml"@,
        "htm"@ != "toml"@,
        "htm"@ != "log"@,
        "htm"@ != "pdf"@,
        "htm"@ != "json"@,
        "htm"@ != "docx"@,
        "htm"@ != "xlsx"@,
        "htm"@ != "pptx"@,
        "htm"@ != "epub"@,
        "htm"@ != "png"@,
        "htm"@ != "jpg"@,
        "htm"@ != "jpeg"@,
        "htm"@ != "gif"@,
        "htm"@ != "webp"@,
        "htm"@ != "bmp"@,
        "htm"@ != "tif"@,
        "htm"@ != "tiff"@,
        "csv"@ != "svg"@,
        "csv"@ != "xml"@,
        "csv"@ != "yaml"@,
        "csv"@ != "yml"@,
        "csv"@ != "toml"@,
        "csv"@ != "log"@,
        "csv"@ != "pdf"@,
        "csv"@ != "json"@,
        "csv"@ != "docx"@,
        "csv"@ != "xlsx"@,
        "csv"@ != "pptx"@,
        "csv"@ != "epub"@,
        "csv"@ != "png"@,
        "csv"@ != "jpg"@,
        "csv"@ != "jpeg"@,
        "csv"@ != "gif"@,
        "csv"@ != "webp"@,
        "csv"@ != "bmp"@,
        "csv"@ != "tif"@,
        "csv"@ != "tiff"@,
        "svg"@ != "xml"@,
        "svg"@ != "yaml"@,
        "svg"@ != "yml"@,
        "svg"@ != "toml"@,
        "svg"@ != "log"@,
        "svg"@ != "pdf"@,
        "svg"@ != "json"@,
        "svg"@ != "docx"@,
        "svg"@ != "xlsx"@,
        "svg"@ != "pptx"@,
        "svg"@ != "epub"@,
        "svg"@ != "png"@,
        "svg"@ != "jpg"@,
        "svg"@ != "jpeg"@,
        "svg"@ != "gif"@,
        "svg"@ != "webp"@,
        "svg"@ != "bmp"@,
        "svg"@ != "tif"@,
        "svg"@ != "tiff"@,
        "xml"@ != "yaml"@,
        "xml"@ != "yml"@,
        "xml"@ != "toml"@,
        "xml"@ != "log"@,
        "xml"@ != "pdf"@,
        "xml"@ != "json"@,
        "xml"@ != "docx"@,
        "xml"@ != "xlsx"@,
        "xml"@ != "pptx"@,
        "xml"@ != "epub"@,
        "xml"@ != "png"@,
        "xml"@ != "jpg"@,
        "xml"@ != "jpeg"@,
        "xml"@ != "gif"@,
        "xml"@ != "webp"@,
        "xml"@ != "bmp"@,
        "xml"@ != "tif"@,
        "xml"@ != "tiff"@,
        "yaml"@ != "yml"@,
        "yaml"@ != "toml"@,
        "yaml"@ != "log"@,
        "yaml"@ != "pdf"@,
        "yaml"@ != "json"@,
        "yaml"@ != "docx"@,
        "yaml"@ != "xlsx"@,
        "yaml"@ != "pptx"@,
        "yaml"@ != "epub"@,
        "yaml"@ != "png"@,
        "yaml"@ != "jpg"@,
        "yaml"@ != "jpeg"@,
        "yaml"@ != "gif"@,
        "yaml"@ != "webp"@,
        "yaml"@ != "bmp"@,
        "yaml"@ != "tif"@,
        "yaml"@ != "tiff"@,
        "yml"@ != "toml"@,
        "yml"@ != "log"@,
        "yml"@ != "pdf"@,
        "yml"@ != "json"@,
        "yml"@ != "docx"@,
        "yml"@ != "xlsx"@,
        "yml"@ != "pptx"@,
        "yml"@ != "epub"@,
        "yml"@ != "png"@,
        "yml"@ != "jpg"@,
        "yml"@ != "jpeg"@,
        "yml"@ != "gif"@,
        "yml"@ != "webp"@,
        "yml"@ != "bmp"@,
        "yml"@ != "tif"@,
        "yml"@ != "tiff"@,
        "toml"@ != "log"@,
        "toml"@ != "pdf"@,
        "toml"@ != "json"@,
        "toml"@ != "docx"@,
        "toml"@ != "xlsx"@,
        "toml"@ != "pptx"@,
        "toml"@ != "epub"@,
        "toml"@ != "png"@,
        "toml"@ != "jpg"@,
        "toml"@ != "jpeg"@,
        "toml"@ != "gif"@,
        "toml"@ != "webp"@,
        "toml"@ != "bmp"@,
        "toml"@ != "tif"@,
        "toml"@ != "tiff"@,
        "log"@ != "pdf"@,
        "log"@ != "json"@,
        "log"@ != "docx"@,
        "log"@ != "xlsx"@,
        "log"@ != "pptx"@,
        "log"@ != "epub"@,
        "log"@ != "png"@,
        "log"@ != "jpg"@,
        "log"@ != "jpeg"@,
        "log"@ != "gif"@,
        "log"@ != "webp"@,
        "log"@ != "bmp"@,
        "log"@ != "tif"@,
        "log"@ != "tiff"@,
        "pdf"@ != "json"@,
        "pdf"@ != "docx"@,
        "pdf"@ != "xlsx"@,
        "pdf"@ != "pptx"@,
        "pdf"@ != "epub"@,
        "pdf"@ != "png"@,
        "pdf"@ != "jpg"@,
        "pdf"@ != "jpeg"@,
        "pdf"@ != "gif"@,
        "pdf"@ != "webp"@,
        "pdf"@ != "bmp"@,
        "pdf"@ != "tif"@,
        "pdf"@ != "tiff"@,
        "json"@ != "docx"@,
        "json"@ != "xlsx"@,
        "json"@ != "pptx"@,
        "json"@ != "epub"@,
        "json"@ != "png"@,
        "json"@ != "jpg"@,
        "json"@ != "jpeg"@,
        "json"@ != "gif"@,
        "json"@ != "webp"@,
        "json"@ != "bmp"@,
        "json"@ != "tif"@,
        "json"@ != "tiff"@,
        "docx"@ != "xlsx"@,
        "docx"@ != "pptx"@,
        "docx"@ != "epub"@,
        "docx"@ != "png"@,
        "docx"@ != "jpg"@,
        "docx"@ != "jpeg"@,
        "docx"@ != "gif"@,
        "docx"@ != "webp"@,
        "docx"@ != "bmp"@,
        "docx"@ != "tif"@,
        "docx"@ != "tiff"@,
        "xlsx"@ != "pptx"@,
        "xlsx"@ != "epub"@,
        "xlsx"@ != "png"@,
        "xlsx"@ != "jpg"@,
        "xlsx"@ != "jpeg"@,
        "xlsx"@ != "gif"@,
        "xlsx"@ != "webp"@,
        "xlsx"@ != "bmp"@,
        "xlsx"@ != "tif"@,
        "xlsx"@ != "tiff"@,
        "pptx"@ != "epub"@,
        "pptx"@ != "png"@,
        "pptx"@ != "jpg"@,
        "pptx"@ != "jpeg"@,
        "pptx"@ != "gif"@,
        "pptx"@ != "webp"@,
        "pptx"@ != "bmp"@,
        "pptx"@ != "tif"@,
        "pptx"@ != "tiff"@,
        "epub"@ != "png"@,
        "epub"@ != "jpg"@,
        "epub"@ != "jpeg"@,
        "epub"@ != "gif"@,
        "epub"@ != "webp"@,
        "epub"@ != "bmp"@,
        "epub"@ != "tif"@,
        "epub"@ != "tiff"@,
        "png"@ != "jpg"@,
        "png"@ != "jpeg"@,
        "png"@ != "gif"@,
        "png"@ != "webp"@,
        "png"@ != "bmp"@,
        "png"@ != "tif"@,
        "png"@ != "tiff"@,
        "jpg"@ != "jpeg"@,
        "jpg"@ != "gif"@,
        "jpg"@ != "webp"@,
        "jpg"@ != "bmp"@,
        "jpg"@ != "tif"@,
        "jpg"@ != "tiff"@,
        "jpeg"@ != "gif"@,
        "jpeg"@ != "webp"@,
        "jpeg"@ != "bmp"@,
        "jpeg"@ != "tif"@,
        "jpeg"@ != "tiff"@,
        "gif"@ != "webp"@,
        "gif"@ != "bmp"@,
        "gif"@ != "tif"@,
        "gif"@ != "tiff"@,
        "webp"@ != "bmp"@,
        "webp"@ != "tif"@,
        "webp"@ != "tiff"@,
        "bmp"@ != "tif"@,
        "bmp"@ != "tiff"@,
        "tif"@ != "tiff"@,
{
    reveal_strlit("txt");
    reveal_strlit("md");
    reveal_strlit("markdown");
    reveal_strlit("html");
    reveal_strlit("htm");
    reveal_strlit("csv");
    reveal_strlit("svg");
    reveal_strlit("xml");
    reveal_strlit("yaml");
    reveal_strlit("yml");
    reveal_strlit("toml");
    reveal_strlit("log");
    reveal_strlit("pdf");
    reveal_strlit("json");
    reveal_strlit("docx");
    reveal_strlit("xlsx");
    reveal_strlit("pptx");
    reveal_strlit("epub");
    reveal_strlit("png");
    reveal_strlit("jpg");
    reveal_strlit("jpeg");
    reveal_strlit("gif");
    reveal_strlit("webp");
    reveal_strlit("bmp");
    reveal_strlit("tif");
    reveal_strlit("tiff");
    assert("txt"@.len() != "md"@.len());
    assert("txt"@.len() != "markdown"@.len());
    assert("txt"@.len() != "html"@.len());
    assert("txt"@[0] != "htm"@[0]);
    assert("txt"@[0] != "csv"@[0]);
    assert("txt"@[0] != "svg"@[0]);
    assert("txt"@[0] != "xml"@[0]);
    assert("txt"@.len() != "yaml"@.len());
    assert("txt"@[0] != "yml"@[0]);
    assert("txt"@.len() != "toml"@.len());
    assert("txt"@[0] != "log"@[0]);
    assert("txt"@[0] != "pdf"@[0]);
    assert("txt"@.len() != "json"@.len());
    assert("txt"@.len() != "docx"@.len());
    assert("txt"@.len() != "xlsx"@.len());
    assert("txt"@.len() != "pptx"@.len());
    assert("txt"@.len() != "epub"@.len());
    assert("txt"@[0] != "png"@[0]);
    assert("txt"@[0] != "jpg"@[0]);
    assert("txt"@.len() != "jpeg"@.len());
    assert("txt"@[0] != "gif"@[0]);
    assert("txt"@.len() != "webp"@.len());
    assert("txt"@[0] != "bmp"@[0]);
    assert("txt"@[1] != "tif"@[1]);
    assert("txt"@.len() != "tiff"@.len());
    assert("md"@.len() != "markdown"@.len());
    assert("md"@.len() != "html"@.len());
    assert("md"@.len() != "htm"@.len());
    assert("md"@.len() != "csv"@.len());
    assert("md"@.len() != "svg"@.len());
    assert("md"@.len() != "xml"@.len());
    assert("md"@.len() != "yaml"@.len());
    assert("md"@.len() != "yml"@.len());
    assert("md"@.len() != "toml"@.len());
    assert("md"@.len() != "log"@.len());
    assert("md"@.len() != "pdf"@.len());
    assert("md"@.len() != "json"@.len());
    assert("md"@.len() != "docx"@.len());
    assert("md"@.len() != "xlsx"@.len());
    assert("md"@.len() != "pptx"@.len());
    assert("md"@.len() != "epub"@.len());
    assert("md"@.len() != "png"@.len());
    assert("md"@.len() != "jpg"@.len());
    assert("md"@.len() != "jpeg"@.len());
    assert("md"@.len() != "gif"@.len());
    assert("md"@.len() != "webp"@.len());
    assert("md"@.len() != "bmp"@.len());
    assert("md"@.len() != "tif"@.len());
    assert("md"@.len() != "tiff"@.len());
    assert("markdown"@.len() != "html"@.len());
    assert("markdown"@.len() != "htm"@.len());
    assert("markdown"@.len() != "csv"@.len());
    assert("markdown"@.len() != "svg"@.len());
    assert("markdown"@.len() != "xml"@.len());
    assert("markdown"@.len() != "yaml"@.len());
    assert("markdown"@.len() != "yml"@.len());
    assert("markdown"@.len() != "toml"@.len());
    assert("markdown"@.len() != "log"@.len());
    assert("markdown"@.len() != "pdf"@.len());
    assert("markdown"@.len() != "json"@.len());
    assert("markdown"@.len() != "docx"@.len());
    assert("markdown"@.len() != "xlsx"@.len());
    assert("markdown"@.len() != "pptx"@.len());
    assert("markdown"@.len() != "epub"@.len());
    assert("markdown"@.len() != "png"@.len());
    assert("markdown"@.len() != "jpg"@.len());
    assert("markdown"@.len() != "jpeg"@.len());
    assert("markdown"@.len() != "gif"@.len());
    assert("markdown"@.len() != "webp"@.len());
    assert("markdown"@.len() != "bmp"@.len());
    assert("markdown"@.len() != "tif"@.len());
    assert("markdown"@.len() != "tiff"@.len());
    assert("html"@.len() != "htm"@.len());
    assert("html"@.len() != "csv"@.len());
    assert("html"@.len() != "svg"@.len());
    assert("html"@.len() != "xml"@.len());
    assert("html"@[0] != "yaml"@[0]);
    assert("html"@.len() != "yml"@.len());
    assert("html"@[0] != "toml"@[0]);
    assert("html"@.len() != "log"@.len());
    assert("html"@.len() != "pdf"@.len());
    assert("html"@[0] != "json"@[0]);
    assert("html"@[0] != "docx"@[0]);
    assert("html"@[0] != "xlsx"@[0]);
    assert("html"@[0] != "pptx"@[0]);
    assert("html"@[0] != "epub"@[0]);
    assert("html"@.len() != "png"@.len());
    assert("html"@.len() != "jpg"@.len());
    assert("html"@[0] != "jpeg"@[0]);
    assert("html"@.len() != "gif"@.len());
    assert("html"@[0] != "webp"@[0]);
    assert("html"@.len() != "bmp"@.len());
    assert("html"@.len() != "tif"@.len());
    assert("html"@[0] != "tiff"@[0]);
    assert("htm"@[0] != "csv"@[0]);
    assert("htm"@[0] != "svg"@[0]);
    assert("htm"@[0] != "xml"@[0]);
    assert("htm"@.len() != "yaml"@.len());
    assert("htm"@[0] != "yml"@[0]);
    assert("htm"@.len() != "toml"@.len());
    assert("htm"@[0] != "log"@[0]);
    assert("htm"@[0] != "pdf"@[0]);
    assert("htm"@.len() != "json"@.len());
    assert("htm"@.len() != "docx"@.len());
    assert("htm"@.len() != "xlsx"@.len());
    assert("htm"@.len() != "pptx"@.len());
    assert("htm"@.len() != "epub"@.len());
    assert("htm"@[0] != "png"@[0]);
    assert("htm"@[0] != "jpg"@[0]);
    assert("htm"@.len() != "jpeg"@.len());
    assert("htm"@[0] != "gif"@[0]);
    assert("htm"@.len() != "webp"@.len());
    assert("htm"@[0] != "bmp"@[0]);
    assert("htm"@[0] != "tif"@[0]);
    assert("htm"@.len() != "tiff"@.len());
    assert("csv"@[0] != "svg"@[0]);
    assert("csv"@[0] != "xml"@[0]);
    assert("csv"@.len() != "yaml"@.len());
    assert("csv"@[0] != "yml"@[0]);
    assert("csv"@.len() != "toml"@.len());
    assert("csv"@[0] != "log"@[0]);
    assert("csv"@[0] != "pdf"@[0]);
    assert("csv"@.len() != "json"@.len());
    assert("csv"@.len() != "docx"@.len());
    assert("csv"@.len() != "xlsx"@.len());
    assert("csv"@.len() != "pptx"@.len());
    assert("csv"@.len() != "epub"@.len());
    assert("csv"@[0] != "png"@[0]);
    assert("csv"@[0] != "jpg"@[0]);
    assert("csv"@.len() != "jpeg"@.len());
    assert("csv"@[0] != "gif"@[0]);
    assert("csv"@.len() != "webp"@.len());
    assert("csv"@[0] != "bmp"@[0]);
    assert("csv"@[0] != "tif"@[0]);
    assert("csv"@.len() != "tiff"@.len());
    assert("svg"@[0] != "xml"@[0]);
    assert("svg"@.len() != "yaml"@.len());
    assert("svg"@[0] != "yml"@[0]);
    assert("svg"@.len() != "toml"@.len());
    assert("svg"@[0] != "log"@[0]);
    assert("svg"@[0] != "pdf"@[0]);
    assert("svg"@.len() != "json"@.len());
    assert("svg"@.len() != "docx"@.len());
    assert("svg"@.len() != "xlsx"@.len());
    assert("svg"@.len() != "pptx"@.len());
    assert("svg"@.len() != "epub"@.len());
    assert("svg"@[0] != "png"@[0]);
    assert("svg"@[0] != "jpg"@[0]);
    assert("svg"@.len() != "jpeg"@.len());
    assert("svg"@[0] != "gif"@[0]);
    assert("svg"@.len() != "webp"@.len());
    assert("svg"@[0] != "bmp"@[0]);
    assert("svg"@[0] != "tif"@[0]);
    assert("svg"@.len() != "tiff"@.len());
    assert("xml"@.len() != "yaml"@.len());
    assert("xml"@[0] != "yml"@[0]);
    assert("xml"@.len() != "toml"@.len());
    assert("xml"@[0] != "log"@[0]);
    assert("xml"@[0] != "pdf"@[0]);
    assert("xml"@.len() != "json"@.len());
    assert("xml"@.len() != "docx"@.len());
    assert("xml"@.len() != "xlsx"@.len());
    assert("xml"@.len() != "pptx"@.len());
    assert("xml"@.len() != "epub"@.len());
    assert("xml"@[0] != "png"@[0]);
    assert("xml"@[0] != "jpg"@[0]);
    assert("xml"@.len() != "jpeg"@.len());
    assert("xml"@[0] != "gif"@[0]);
    assert("xml"@.len() != "webp"@.len());
    assert("xml"@[0] != "bmp"@[0]);
    assert("xml"@[0] != "tif"@[0]);
    assert("xml"@.len() != "tiff"@.len());
    assert("yaml"@.len() != "yml"@.len());
    assert("yaml"@[0] != "toml"@[0]);
    assert("yaml"@.len() != "log"@.len());
    assert("yaml"@.len() != "pdf"@.len());
    assert("yaml"@[0] != "json"@[0]);
    assert("yaml"@[0] != "docx"@[0]);
    assert("yaml"@[0] != "xlsx"@[0]);
    assert("yaml"@[0] != "pptx"@[0]);
    assert("yaml"@[0] != "epub"@[0]);
    assert("yaml"@.len() != "png"@.len());
    assert("yaml"@.len() != "jpg"@.len());
    assert("yaml"@[0] != "jpeg"@[0]);
    assert("yaml"@.len() != "gif"@.len());
    assert("yaml"@[0] != "webp"@[0]);
    assert("yaml"@.len() != "bmp"@.len());
    assert("yaml"@.len() != "tif"@.len());
    assert("yaml"@[0] != "tiff"@[0]);
    assert("yml"@.len() != "toml"@.len());
    assert("yml"@[0] != "log"@[0]);
    assert("yml"@[0] != "pdf"@[0]);
    assert("yml"@.len() != "json"@.len());
    assert("yml"@.len() != "docx"@.len());
    assert("yml"@.len() != "xlsx"@.len());
    assert("yml"@.len() != "pptx"@.len());
    assert("yml"@.len() != "epub"@.len());
    assert("yml"@[0] != "png"@[0]);
    assert("yml"@[0] != "jpg"@[0]);
    assert("yml"@.len() != "jpeg"@.len());
    assert("yml"@[0] != "gif"@[0]);
    assert("yml"@.len() != "webp"@.len());
    assert("yml"@[0] != "bmp"@[0]);
    assert("yml"@[0] != "tif"@[0]);
    assert("yml"@.len() != "tiff"@.len());
    assert("toml"@.len() != "log"@.len());
    assert("toml"@.len() != "pdf"@.len());
    assert("toml"@[0] != "json"@[0]);
    assert("toml"@[0] != "docx"@[0]);
    assert("toml"@[0] != "xlsx"@[0]);
    assert("toml"@[0] != "pptx"@[0]);
    assert("toml"@[0] != "epub"@[0]);
    assert("toml"@.len() != "png"@.len());
    assert("toml"@.len() != "jpg"@.len());
    assert("toml"@[0] != "jpeg"@[0]);
    assert("toml"@.len() != "gif"@.len());
    assert("toml"@[0] != "webp"@[0]);
    assert("toml"@.len() != "bmp"@.len());
    assert("toml"@.len() != "tif"@.len());
    assert("toml"@[1] != "tiff"@[1]);
    assert("log"@[0] != "pdf"@[0]);
    assert("log"@.len() != "json"@.len());
    assert("log"@.len() != "docx"@.len());
    assert("log"@.len() != "xlsx"@.len());
    assert("log"@.len() != "pptx"@.len());
    assert("log"@.len() != "epub"@.len());
    assert("log"@[0] != "png"@[0]);
    assert("log"@[0] != "jpg"@[0]);
    assert("log"@.len() != "jpeg"@.len());
    assert("log"@[0] != "gif"@[0]);
    assert("log"@.len() != "webp"@.len());
    assert("log"@[0] != "bmp"@[0]);
    assert("log"@[0] != "tif"@[0]);
    assert("log"@.len() != "tiff"@.len());
    assert("pdf"@.len() != "json"@.len());
    assert("pdf"@.len() != "docx"@.len());
    assert("pdf"@.len() != "xlsx"@.len());
    assert("pdf"@.len() != "pptx"@.len());
    assert("pdf"@.len() != "epub"@.len());
    assert("pdf"@[1] != "png"@[1]);
    assert("pdf"@[0] != "jpg"@[0]);
    assert("pdf"@.len() != "jpeg"@.len());
    assert("pdf"@[0] != "gif"@[0]);
    assert("pdf"@.len() != "webp"@.len());
    assert("pdf"@[0] != "bmp"@[0]);
    assert("pdf"@[0] != "tif"@[0]);
    assert("pdf"@.len() != "tiff"@.len());
    assert("json"@[0] != "docx"@[0]);
    assert("json"@[0] != "xlsx"@[0]);
    assert("json"@[0] != "pptx"@[0]);
    assert("json"@[0] != "epub"@[0]);
    assert("json"@.len() != "png"@.len());
    assert("json"@.len() != "jpg"@.len());
    assert("json"@[1] != "jpeg"@[1]);
    assert("json"@.len() != "gif"@.len());
    assert("json"@[0] != "webp"@[0]);
    assert("json"@.len() != "bmp"@.len());
    assert("json"@.len() != "tif"@.len());
    assert("json"@[0] != "tiff"@[0]);
    assert("docx"@[0] != "xlsx"@[0]);
    assert("docx"@[0] != "pptx"@[0]);
    assert("docx"@[0] != "epub"@[0]);
    assert("docx"@.len() != "png"@.len());
    assert("docx"@.len() != "jpg"@.len());
    assert("docx"@[0] != "jpeg"@[0]);
    assert("docx"@.len() != "gif"@.len());
    assert("docx"@[0] != "webp"@[0]);
    assert("docx"@.len() != "bmp"@.len());
    assert("docx"@.len() != "tif"@.len());
    assert("docx"@[0] != "tiff"@[0]);
    assert("xlsx"@[0] != "pptx"@[0]);
    assert("xlsx"@[0] != "epub"@[0]);
    assert("xlsx"@.len() != "png"@.len());
    assert("xlsx"@.len() != "jpg"@.len());
    assert("xlsx"@[0] != "jpeg"@[0]);
    assert("xlsx"@.len() != "gif"@.len());
    assert("xlsx"@[0] != "webp"@[0]);
    assert("xlsx"@.len() != "bmp"@.len());
    assert("xlsx"@.len() != "tif"@.len());
    assert("xlsx"@[0] != "tiff"@[0]);
    assert("pptx"@[0] != "epub"@[0]);
    assert("pptx"@.len() != "png"@.len());
    assert("pptx"@.len() != "jpg"@.len());
    assert("pptx"@[0] != "jpeg"@[0]);
    assert("pptx"@.len() != "gif"@.len());
    assert("pptx"@[0] != "webp"@[0]);
    assert("pptx"@.len() != "bmp"@.len());
    assert("pptx"@.len() != "tif"@.len());
    assert("pptx"@[0] != "tiff"@[0]);
    assert("epub"@.len() != "png"@.len());
    assert("epub"@.len() != "jpg"@.len());
    assert("epub"@[0] != "jpeg"@[0]);
    assert("epub"@.len() != "gif"@.len());
    assert("epub"@[0] != "webp"@[0]);
    assert("epub"@.len() != "bmp"@.len());
    assert("epub"@.len() != "tif"@.len());
    assert("epub"@[0] != "tiff"@[0]);
    assert("png"@[0] != "jpg"@[0]);
    assert("png"@.len() != "jpeg"@.len());
    assert("png"@[0] != "gif"@[0]);
    assert("png"@.len() != "webp"@.len());
    assert("png"@[0] != "bmp"@[0]);
    assert("png"@[0] != "tif"@[0]);
    assert("png"@.len() != "tiff"@.len());
    assert("jpg"@.len() != "jpeg"@.len());
    assert("jpg"@[0] != "gif"@[0]);
    assert("jpg"@.len() != "webp"@.len());
    assert("jpg"@[0] != "bmp"@[0]);
    assert("jpg"@[0] != "tif"@[0]);
    assert("jpg"@.len() != "tiff"@.len());
    assert("jpeg"@.len() != "gif"@.len());
    assert("jpeg"@[0] != "webp"@[0]);
    assert("jpeg"@.len() != "bmp"@.len());
    assert("jpeg"@.len() != "tif"@.len());
    assert("jpeg"@[0] != "tiff"@[0]);
    assert("gif"@.len() != "webp"@.len());
    assert("gif"@[0] != "bmp"@[0]);
    assert("gif"@[0] != "tif"@[0]);
    assert("gif"@.len() != "tiff"@.len());
    assert("webp"@.len() != "bmp"@.len());
    assert("webp"@.len() != "tif"@.len());
    assert("webp"@[0] != "tiff"@[0]);
    assert("bmp"@[0] != "tif"@[0]);
    assert("bmp"@.len() != "tiff"@.len());
    assert("tif"@.len() != "tiff"@.len());
}

/// A file that is called by the extension of a text is taken exactly where its content is
/// text; that goes for plain texts, Markdown, HTML, tables, drawings, markup and settings
/// alike.
pub proof fn texts_are_taken_under_every_text_extension(
    name: &str,
    content: &[u8],
    r: Result<(), String>,
)
    requires
        call_ensures(validate_upload, (name, content), r),
    ensures
        path::extension_of(name@) == "txt"@ ==> (r is Ok <==> textscan::is_text(content@)),
        path::extension_of(name@) == "md"@ ==> (r is Ok <==> textscan::is_text(content@)),
        path::extension_of(name@) == "markdown"@ ==> (r is Ok <==> textscan::is_text(content@)),
        path::extension_of(name@) == "html"@ ==> (r is Ok <==> textscan::is_text(content@)),
        path::extension_of(name@) == "htm"@ ==> (r is Ok <==> textscan::is_text(content@)),
        path::extension_of(name@) == "csv"@ ==> (r is Ok <==> textscan::is_text(content@)),
        path::extension_of(name@) == "svg"@ ==> (r is Ok <==> textscan::is_text(content@)),
        path::extension_of(name@) == "xml"@ ==> (r is Ok <==> textscan::is_text(content@)),
        path::extension_of(name@) == "yaml"@ ==> (r is Ok <==> textscan::is_text(content@)),
        path::extension_of(name@) == "yml"@ ==> (r is Ok <==> textscan::is_text(content@)),
        path::extension_of(name@) == "toml"@ ==> (r is Ok <==> textscan::is_text(content@)),
        path::extension_of(name@) == "log"@ ==> (r is Ok <==> textscan::is_text(content@)),
        r matches Err(e) ==> e@ == "File content does not match its extension"@,
{
    lemma_extensions_differ();
}

/// The content starts with these bytes and goes on with whatever follows.
pub open spec fn begins(content: Seq<u8>, bytes: Seq<u8>) -> bool {
    exists|rest: Seq<u8>| #[trigger] (bytes + rest) == content
}

proof fn lemma_begins(content: Seq<u8>, bytes: Seq<u8>)
    ensures
        begins(content, bytes) <==> starts(content, bytes),
{
    if begins(content, bytes) {
        let rest = choose|rest: Seq<u8>| #[trigger] (bytes + rest) == content;
        assert(content.take(bytes.len() as int) =~= bytes);
        assert(bytes.is_prefix_of(content));
    }
    if starts(content, bytes) {
        assert(bytes + content.skip(bytes.len() as int) =~= content);
    }
}

/// A PDF or an image is taken exactly where it begins with the bytes that its kind begins
/// with; a JSON file where it is a JSON document.
pub proof fn signatures_decide_on_images_and_documents(
    name: &str,
    content: &[u8],
    r: Result<(), String>,
)
    requires
        call_ensures(validate_upload, (name, content), r),
    ensures
        path::extension_of(name@) == "pdf"@ ==> (r is Ok <==> begins(content@, seq![0x25u8, 0x50, 0x44, 0x46, 0x2d])),
        path::extension_of(name@) == "json"@ ==> (r is Ok <==> json_document(content@)),
        path::extension_of(name@) == "png"@ ==> (r is Ok <==> begins(
            content@,
            seq![0x89u8, 0x50, 0x4e, 0x47, 0xd, 0xa, 0x1a, 0xa],
        )),
        path::extension_of(name@) == "jpg"@ || path::extension_of(name@) == "jpeg"@ ==> (r is Ok
            <==> begins(content@, seq![0xffu8, 0xd8, 0xff])),
        path::extension_of(name@) == "gif"@ ==> (r is Ok <==> begins(
            content@,
            seq![0x47u8, 0x49, 0x46, 0x38, 0x37, 0x61],
        ) || begins(content@, seq![0x47u8, 0x49, 0x46, 0x38, 0x39, 0x61])),
        path::extension_of(name@) == "webp"@ ==> (r is Ok <==> content@.len() >= 12 && begins(
            content@,
            seq![0x52u8, 0x49, 0x46, 0x46],
        ) && begins(content@.skip(8), seq![0x57u8, 0x45, 0x42, 0x50])),
        path::extension_of(name@) == "bmp"@ ==> (r is Ok <==> begins(content@, seq![0x42u8, 0x4d])),
        path::extension_of(name@) == "tif"@ || path::extension_of(name@) == "tiff"@ ==> (r is Ok
            <==> begins(content@, seq![0x49u8, 0x49, 0x2a, 0x0]) || begins(
            content@,
            seq![0x4du8, 0x4d, 0x0, 0x2a],
        ) || begins(content@, seq![0x49u8, 0x49, 0x2b, 0x0]) || begins(
            content@,
            seq![0x4du8, 0x4d, 0x0, 0x2b],
        )),
{
    lemma_extensions_differ();
    lemma_begins(content@, seq![0x25u8, 0x50, 0x44, 0x46, 0x2d]);
    lemma_begins(content@, seq![0x89u8, 0x50, 0x4e, 0x47, 0xd, 0xa, 0x1a, 0xa]);
    lemma_begins(content@, seq![0xffu8, 0xd8, 0xff]);
    lemma_begins(content@, seq![0x47u8, 0x49, 0x46, 0x38, 0x37, 0x61]);
    lemma_begins(content@, seq![0x47u8, 0x49, 0x46, 0x38, 0x39, 0x61]);
    lemma_begins(content@, seq![0x52u8, 0x49, 0x46, 0x46]);
    lemma_begins(content@, seq![0x42u8, 0x4d]);
    lemma_begins(content@, seq![0x49u8, 0x49, 0x2a, 0x0]);
    lemma_begins(content@, seq![0x4du8, 0x4d, 0x0, 0x2a]);
    lemma_begins(content@, seq![0x49u8, 0x49, 0x2b, 0x0]);
    lemma_begins(content@, seq![0x4du8, 0x4d, 0x0, 0x2b]);
    lemma_begins(content@.skip(8), seq![0x57u8, 0x45, 0x42, 0x50]);
}

/// An office document is taken where it is a zip archive with a list of content types and
/// an entry below the directory of its kind, an electronic book where its entry
/// `mimetype` says so; each has to begin as an archive does.
pub proof fn archives_are_taken_by_what_they_hold(
    name: &str,
    content: &[u8],
    r: Result<(), String>,
    names: Seq<Seq<char>>,
    i: int,
)
    requires
        call_ensures(validate_upload, (name, content), r),
        zip_names(content@) == Some(names),
        begins(content@, seq![0x50u8, 0x4b, 0x3, 0x4]) || begins(content@, seq![0x50u8, 0x4b, 0x5, 0x6]) || begins(
            content@,
            seq![0x50u8, 0x4b, 0x7, 0x8],
        ),
    ensures
        path::extension_of(name@) == "docx"@ && zip_opens(content@, "[Content_Types].xml"@) && 0 <= i
            < names.len() && "word/"@.is_prefix_of(names[i]) ==> r is Ok,
        path::extension_of(name@) == "docx"@ && !zip_opens(content@, "[Content_Types].xml"@) ==> r
            is Err,
        path::extension_of(name@) == "docx"@ && (forall|k: int|
            0 <= k < names.len() ==> !"word/"@.is_prefix_of(#[trigger] names[k])) ==> r is Err,
        path::extension_of(name@) == "xlsx"@ && zip_opens(content@, "[Content_Types].xml"@) && 0 <= i
            < names.len() && "xl/"@.is_prefix_of(names[i]) ==> r is Ok,
        path::extension_of(name@) == "xlsx"@ && !zip_opens(content@, "[Content_Types].xml"@) ==> r
            is Err,
        path::extension_of(name@) == "xlsx"@ && (forall|k: int|
            0 <= k < names.len() ==> !"xl/"@.is_prefix_of(#[trigger] names[k])) ==> r is Err,
        path::extension_of(name@) == "pptx"@ && zip_opens(content@, "[Content_Types].xml"@) && 0 <= i
            < names.len() && "ppt/"@.is_prefix_of(names[i]) ==> r is Ok,
        path::extension_of(name@) == "pptx"@ && !zip_opens(content@, "[Content_Types].xml"@) ==> r
            is Err,
        path::extension_of(name@) == "pptx"@ && (forall|k: int|
            0 <= k < names.len() ==> !"ppt/"@.is_prefix_of(#[trigger] names[k])) ==> r is Err,
        path::extension_of(name@) == "epub"@ ==> (r is Ok <==> (zip_text(
            content@,
            "mimetype"@,
        ) matches Some(t) && text::trimmed(t) == "application/epub+zip"@)),
{
    lemma_extensions_differ();
    lemma_begins(content@, seq![0x50u8, 0x4b, 0x3, 0x4]);
    lemma_begins(content@, seq![0x50u8, 0x4b, 0x5, 0x6]);
    lemma_begins(content@, seq![0x50u8, 0x4b, 0x7, 0x8]);
}

/// A document that is no archive, or does not begin as one, is refused.
pub proof fn broken_archives_are_refused(name: &str, content: &[u8], r: Result<(), String>)
    requires
        call_ensures(validate_upload, (name, content), r),
        path::extension_of(name@) == "docx"@ || path::extension_of(name@) == "xlsx"@
            || path::extension_of(name@) == "pptx"@ || path::extension_of(name@) == "epub"@,
        zip_names(content@) is None || !(begins(content@, seq![0x50u8, 0x4b, 0x3, 0x4]) || begins(
            content@,
            seq![0x50u8, 0x4b, 0x5, 0x6],
        ) || begins(content@, seq![0x50u8, 0x4b, 0x7, 0x8])),
    ensures
        r is Err,
{
    lemma_extensions_differ();
    lemma_begins(content@, seq![0x50u8, 0x4b, 0x3, 0x4]);
    lemma_begins(content@, seq![0x50u8, 0x4b, 0x5, 0x6]);
    lemma_begins(content@, seq![0x50u8, 0x4b, 0x7, 0x8]);
}

/// A file with any other extension, or with none, is refused whatever it holds.
pub proof fn other_extensions_are_refused(name: &str, content: &[u8], r: Result<(), String>)
    requires
        call_ensures(validate_upload, (name, content), r),
        path::extension_of(name@) != "txt"@,
        path::extension_of(name@) != "md"@,
        path::extension_of(name@) != "markdown"@,
        path::extension_of(name@) != "html"@,
        path::extension_of(name@) != "htm"@,
        path::extension_of(name@) != "csv"@,
        path::extension_of(name@) != "svg"@,
        path::extension_of(name@) != "xml"@,
        path::extension_of(name@) != "yaml"@,
        path::extension_of(name@) != "yml"@,
        path::extension_of(name@) != "toml"@,
        path::extension_of(name@) != "log"@,
        path::extension_of(name@) != "pdf"@,
        path::extension_of(name@) != "json"@,
        path::extension_of(name@) != "docx"@,
        path::extension_of(name@) != "xlsx"@,
        path::extension_of(name@) != "pptx"@,
        path::extension_of(name@) != "epub"@,
        path::extension_of(name@) != "png"@,
        path::extension_of(name@) != "jpg"@,
        path::extension_of(name@) != "jpeg"@,
        path::extension_of(name@) != "gif"@,
        path::extension_of(name@) != "webp"@,
        path::extension_of(name@) != "bmp"@,
        path::extension_of(name@) != "tif"@,
        path::extension_of(name@) != "tiff"@,
    ensures
        r is Err,
{
}

/// An archive is judged by what it holds, however that was found out.
pub proof fn archives_are_judged_by_their_entries(
    extension: &str,
    names: Option<Vec<String>>,
    has_types: bool,
    mimetype: Option<String>,
    r: bool,
    prefix: &str,
    listed: Vec<String>,
    below: bool,
)
    requires
        call_ensures(container_matches, (extension, names, has_types, mimetype), r),
        call_ensures(any_below, (&listed, prefix), below),
        names is Some ==> names == Some(listed),
    ensures
        names is None ==> !r,
        extension@ == "docx"@ && prefix@ == "word/"@ && names is Some ==> r == (has_types && below),
        extension@ == "xlsx"@ && prefix@ == "xl/"@ && names is Some ==> r == (has_types && below),
        extension@ == "pptx"@ && prefix@ == "ppt/"@ && names is Some ==> r == (has_types && below),
        extension@ == "epub"@ && names is Some ==> r == (mimetype matches Some(t) && text::trimmed(
            t@,
        ) == "application/epub+zip"@),
        extension@ != "docx"@ && extension@ != "xlsx"@ && extension@ != "pptx"@ && extension@
            != "epub"@ ==> !r,
{
    lemma_extensions_differ();
}

/// A name lies below a directory where it starts with it.
pub proof fn entries_lie_below_their_prefix(names: Vec<String>, prefix: &str, r: bool, i: int)
    requires
        call_ensures(any_below, (&names, prefix), r),
    ensures
        0 <= i < names@.len() && prefix@.is_prefix_of(names@[i]@) ==> r,
        (forall|k: int| 0 <= k < names@.len() ==> !prefix@.is_prefix_of((#[trigger] names@[k])@)) ==> !r,
{
    let all = text::views(names@);
    if 0 <= i < names@.len() && prefix@.is_prefix_of(names@[i]@) {
        assert(all[i] == names@[i]@);
    }
    if forall|k: int| 0 <= k < names@.len() ==> !prefix@.is_prefix_of((#[trigger] names@[k])@) {
        assert forall|k: int| 0 <= k < all.len() implies !prefix@.is_prefix_of(#[trigger] all[k]) by {
            assert(all[k] == names@[k]@);
        }
    }
}

} // verus!
