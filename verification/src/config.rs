//! What the server is started with.

use crate::text;
use crate::upload;
use vstd::prelude::*;

verus! {

/// How many documents may be parsed at once where the machine tells nothing.
pub const DEFAULT_MAX_CONCURRENT_DOCUMENT_TASKS: usize = 4;

/// The positive number that a setting tells.
pub open spec fn positive(value: Option<Seq<char>>) -> Option<usize> {
    match value {
        None => None,
        Some(s) => match text::unsigned_value(s) {
            Some(v) => if 0 < v <= usize::MAX {
                Some(v as usize)
            } else {
                None
            },
            None => None,
        },
    }
}

fn positive_setting(value: Option<&str>) -> (r: Option<usize>)
    ensures
        r == positive(text::opt_str_view(value)),
{
    match value {
        None => None,
        Some(s) => match text::parse_u64(s) {
            Some(v) => if v > 0 && v <= usize::MAX as u64 {
                Some(v as usize)
            } else {
                None
            },
            None => None,
        },
    }
}

/// How large an upload may be: what is set, or else the default. A setting that is no
/// positive number does not count.
pub fn max_upload_bytes(setting: Option<&str>) -> (r: usize)
    ensures
        r == (match positive(text::opt_str_view(setting)) {
            Some(n) => n,
            None => upload::DEFAULT_MAX_UPLOAD_BYTES,
        }),
{
    match positive_setting(setting) {
        Some(n) => n,
        None => upload::DEFAULT_MAX_UPLOAD_BYTES,
    }
}

/// How many documents may be parsed at once: what is set, or else what was derived
/// from the machine, or else the default where the machine could not be measured.
pub fn max_concurrent_document_tasks(setting: Option<&str>, derived: Option<usize>) -> (r: usize)
    ensures
        r == (match (positive(text::opt_str_view(setting)), derived) {
            (Some(n), _) => n,
            (None, Some(n)) => n,
            (None, None) => DEFAULT_MAX_CONCURRENT_DOCUMENT_TASKS,
        }),
{
    match (positive_setting(setting), derived) {
        (Some(n), _) => n,
        (None, Some(n)) => n,
        (None, None) => DEFAULT_MAX_CONCURRENT_DOCUMENT_TASKS,
    }
}

/// The number, or the largest one where it does not fit.
pub open spec fn saturated(n: int) -> int {
    if n <= usize::MAX {
        n
    } else {
        usize::MAX as int
    }
}

/// How large a request may be, by how large an upload may be.
pub open spec fn limit_of(max_upload_bytes: usize) -> int {
    saturated(
        saturated(max_upload_bytes * upload::MAX_DOCUMENTS_PER_UPLOAD)
            + upload::MULTIPART_OVERHEAD_BYTES,
    )
}

/// How large a request may be: the largest files, as many as one request may carry,
/// and what comes around them. A limit that does not fit is the largest number.
pub fn body_limit(max_upload_bytes: usize) -> (r: usize)
    ensures
        r == limit_of(max_upload_bytes),
{
    let files: usize = match max_upload_bytes.checked_mul(upload::MAX_DOCUMENTS_PER_UPLOAD) {
        Some(n) => n,
        None => usize::MAX,
    };
    match files.checked_add(upload::MULTIPART_OVERHEAD_BYTES) {
        Some(n) => n,
        None => usize::MAX,
    }
}

/// A request that carries as many files as it may, each as large as it may be, and not
/// too much around them, is not over the limit, unless it is over what can be counted.
pub proof fn full_requests_fit(max_upload_bytes: usize, sizes: Seq<usize>, around: nat)
    requires
        sizes.len() <= upload::MAX_DOCUMENTS_PER_UPLOAD,
        forall|i: int| 0 <= i < sizes.len() ==> (#[trigger] sizes[i]) <= max_upload_bytes,
        around <= upload::MULTIPART_OVERHEAD_BYTES,
        total(sizes) + around <= usize::MAX,
    ensures
        total(sizes) + around <= limit_of(max_upload_bytes),
{
    lemma_total(sizes, max_upload_bytes as int);
    let n = sizes.len() as int;
    let m = max_upload_bytes as int;
    assert(n * m <= m * 32) by (nonlinear_arith)
        requires
            n <= 32,
            m >= 0,
    ;
}

/// The sum of the sizes.
pub open spec fn total(sizes: Seq<usize>) -> int
    decreases sizes.len(),
{
    if sizes.len() == 0 {
        0
    } else {
        total(sizes.drop_last()) + sizes.last()
    }
}

proof fn lemma_total(sizes: Seq<usize>, m: int)
    requires
        forall|i: int| 0 <= i < sizes.len() ==> (#[trigger] sizes[i]) <= m,
    ensures
        total(sizes) <= sizes.len() * m,
    decreases sizes.len(),
{
    if sizes.len() > 0 {
        assert forall|i: int| 0 <= i < sizes.drop_last().len() implies (
        #[trigger] sizes.drop_last()[i]) <= m by {
            assert(sizes[i] <= m);
        }
        lemma_total(sizes.drop_last(), m);
        let n = sizes.len() as int;
        assert((n - 1) * m + m == n * m) by (nonlinear_arith);
    }
}

/// The path of a file next to the directory of static files.
pub fn data_path(static_dir: &str, name: &str) -> (r: String)
    ensures
        r@ == static_dir@ + "/../"@ + name@,
{
    text::concat3(static_dir, "/../", name)
}

/// A model that is reached over the network.
#[derive(Debug)]
pub struct ModelConfig {
    pub api_base: String,
    pub api_key: String,
    pub model: String,
}

fn or_default(value: Option<&str>, default: &str) -> (r: String)
    ensures
        r@ == (match value {
            Some(v) => v@,
            None => default@,
        }),
{
    match value {
        Some(v) => v.to_owned(),
        None => default.to_owned(),
    }
}

/// The global chat model: there is one where there is a key, its own or that of the
/// embedding model.
pub fn llm_config(
    llm_key: Option<&str>,
    embed_key: Option<&str>,
    api_base: Option<&str>,
    model: Option<&str>,
) -> (r: Option<ModelConfig>)
    ensures
        match r {
            Some(c) => (match llm_key {
                Some(key) => c.api_key@ == key@,
                None => embed_key matches Some(key) && c.api_key@ == key@,
            }) && c.api_base@ == (match api_base {
                Some(b) => b@,
                None => "https://api.minimaxi.com/v1"@,
            }) && c.model@ == (match model {
                Some(m) => m@,
                None => "MiniMax-M3"@,
            }),
            None => llm_key is None && embed_key is None,
        },
{
    let key = match llm_key {
        Some(key) => key,
        None => match embed_key {
            Some(key) => key,
            None => {
                return None;
            },
        },
    };
    Some(
        ModelConfig {
            api_base: or_default(api_base, "https://api.minimaxi.com/v1"),
            api_key: key.to_owned(),
            model: or_default(model, "MiniMax-M3"),
        },
    )
}

/// The global embedding model: there is one where its address, its key and its name
/// are set, the address and the name not empty.
pub fn embedder_config(api_base: Option<&str>, api_key: Option<&str>, model: Option<&str>) -> (r:
    Option<ModelConfig>)
    ensures
        match (api_base, api_key, model) {
            (Some(b), Some(k), Some(m)) => if b@.len() > 0 && m@.len() > 0 {
                r matches Some(c) && c.api_base@ == b@ && c.api_key@ == k@ && c.model@ == m@
            } else {
                r is None
            },
            _ => r is None,
        },
{
    match (api_base, api_key, model) {
        (Some(b), Some(k), Some(m)) => {
            if b.is_empty() || m.is_empty() {
                None
            } else {
                Some(
                    ModelConfig {
                        api_base: b.to_owned(),
                        api_key: k.to_owned(),
                        model: m.to_owned(),
                    },
                )
            }
        },
        _ => None,
    }
}

/// How hits are reranked by default.
#[derive(Debug)]
pub struct RerankerConfig {
    pub enabled: bool,
    pub api_base: String,
    pub api_key: Option<String>,
}

/// How hits are reranked by default: not at all without an address.
pub fn reranker_config(api_base: Option<&str>, api_key: Option<&str>) -> (r: RerankerConfig)
    ensures
        r.enabled == (api_base matches Some(b) && text::trimmed(b@).len() > 0),
        r.api_base@ == (match api_base {
            Some(b) => b@,
            None => Seq::<char>::empty(),
        }),
        text::opt_view(r.api_key) == (match api_key {
            Some(k) => if k@.len() > 0 {
                Some(k@)
            } else {
                None
            },
            None => None,
        }),
{
    let enabled = match api_base {
        Some(b) => !text::is_blank(b),
        None => false,
    };
    proof {
        reveal_strlit("");
        assert(""@ =~= Seq::<char>::empty());
    }
    let key = match api_key {
        Some(k) => if k.is_empty() {
            None
        } else {
            Some(k.to_owned())
        },
        None => None,
    };
    RerankerConfig { enabled, api_base: or_default(api_base, ""), api_key: key }
}

// ── Laws ────────────────────────────────────────────────────────

/// A setting that tells a positive number counts; without one, or with anything else, the
/// default does: 64 mebibytes for an upload, and for the documents that are parsed at
/// once what the machine tells, or four.
pub proof fn settings_count_where_they_tell_a_number(
    setting: Option<&str>,
    derived: Option<usize>,
    bytes: usize,
    tasks: usize,
)
    requires
        call_ensures(max_upload_bytes, (setting,), bytes),
        call_ensures(max_concurrent_document_tasks, (setting, derived), tasks),
    ensures
        ({
            let told = match setting {
                Some(s) => text::unsigned_value(s@),
                None => None,
            };
            &&& told matches Some(n) ==> 0 < n <= usize::MAX ==> bytes == n && tasks == n
            &&& told is None || told == Some(0nat) || told->Some_0 > usize::MAX ==> bytes == 64 * 1024
                * 1024 && match derived {
                Some(n) => tasks == n,
                None => tasks == 4,
            }
        }),
{
}

/// A request may be as large as 32 of the largest uploads and a mebibyte; where that
/// cannot be counted, as large as can be.
pub proof fn requests_hold_thirty_two_uploads(max_upload_bytes: usize, r: usize)
    requires
        call_ensures(body_limit, (max_upload_bytes,), r),
    ensures
        max_upload_bytes * 32 + 1024 * 1024 <= usize::MAX ==> r == max_upload_bytes * 32 + 1024
            * 1024,
        max_upload_bytes * 32 + 1024 * 1024 > usize::MAX ==> r == usize::MAX,
{
}

/// The data of the server lie next to its static files.
pub proof fn data_lie_next_to_static_files(static_dir: &str, name: &str, r: String)
    requires
        call_ensures(data_path, (static_dir, name), r),
    ensures
        r@ == static_dir@ + seq!['/', '.', '.', '/'] + name@,
{
    reveal_strlit("/../");
    assert("/../"@ =~= seq!['/', '.', '.', '/']);
}

/// A chat model is there with a key of its own or with that of the embedding model, its
/// own first; an embedding model with an address, a key and a name; a reranker with an
/// address. What is told of them is taken as it is.
pub proof fn models_are_configured_by_their_keys(
    llm_key: Option<&str>,
    embed_key: Option<&str>,
    api_base: Option<&str>,
    model: Option<&str>,
    llm: Option<ModelConfig>,
    embedder: Option<ModelConfig>,
    reranker: RerankerConfig,
)
    requires
        call_ensures(llm_config, (llm_key, embed_key, api_base, model), llm),
        call_ensures(embedder_config, (api_base, embed_key, model), embedder),
        call_ensures(reranker_config, (api_base, embed_key), reranker),
    ensures
        llm is Some <==> llm_key is Some || embed_key is Some,
        llm matches Some(c) ==> (llm_key matches Some(k) ==> c.api_key@ == k@),
        llm matches Some(c) ==> (llm_key is None ==> embed_key is Some && c.api_key@
            == embed_key->Some_0@),
        llm matches Some(c) ==> (api_base matches Some(b) ==> c.api_base@ == b@),
        llm matches Some(c) ==> (api_base is None ==> c.api_base@ == "https://api.minimaxi.com/v1"@),
        llm matches Some(c) ==> (model matches Some(m) ==> c.model@ == m@),
        llm matches Some(c) ==> (model is None ==> c.model@ == "MiniMax-M3"@),
        embedder is Some <==> api_base is Some && embed_key is Some && model is Some
            && api_base->Some_0@.len() > 0 && model->Some_0@.len() > 0,
        embedder matches Some(c) ==> c.api_base@ == api_base->Some_0@ && c.api_key@
            == embed_key->Some_0@ && c.model@ == model->Some_0@,
        reranker.enabled <==> api_base is Some && text::trimmed(api_base->Some_0@).len() > 0,
        api_base matches Some(b) ==> reranker.api_base@ == b@,
        api_base is None ==> reranker.api_base@.len() == 0,
        embed_key matches Some(k) ==> (k@.len() > 0 ==> text::opt_view(reranker.api_key) == Some(k@)),
        embed_key is None || embed_key->Some_0@.len() == 0 ==> reranker.api_key is None,
{
}

} // verus!
