//! The records that the handlers decide on, as plain values.

use crate::json::Json;
use crate::text;
use vstd::prelude::*;

verus! {

/// An account.
#[derive(Debug)]
pub struct UserRecord {
    pub id: String,
    pub nickname: String,
    pub email: String,
    pub avatar: Json,
    pub timezone: Json,
    pub role: Json,
    pub created_at: Json,
}

/// A knowledge base.
#[derive(Debug)]
pub struct KnowledgeBase {
    pub id: String,
    /// The user whose personal tenant owns the knowledge base; empty where nobody does.
    pub owner_id: String,
    /// `me` or `team`.
    pub permission: String,
    /// The embedding model that the knowledge base is bound to; empty stands for the default.
    pub embd_id: String,
    /// The parser settings, as JSON text.
    pub parser_config: String,
    pub prompt_config: Json,
    pub chunk_count: usize,
    pub doc_count: usize,
}

/// What one user may do in one tenant.
#[derive(Debug)]
pub struct Membership {
    pub tenant_id: String,
    pub user_id: String,
    /// The user may manage what the tenant owns.
    pub manages: bool,
}

/// What a model can be asked to do.
#[derive(Clone, Copy, Debug, PartialEq, Eq, Structural)]
pub enum ModelCapability {
    Chat,
    Embedding,
    Rerank,
    ImageToText,
}

/// A model of a tenant, ready to be called.
#[derive(Debug)]
pub struct ResolvedModel {
    pub id: String,
    pub model_name: String,
    pub api_base: String,
    pub api_key: Option<String>,
}

/// What choosing a model gives: a model, none, or the reason why it cannot be used.
#[derive(Debug)]
pub enum ModelChoice {
    Model(ResolvedModel),
    Unset,
    Refused(String),
}

/// One row of the table of models: what a selector chooses for a tenant. Without a
/// selector it is the tenant's default.
#[derive(Debug)]
pub struct ModelRow {
    pub tenant_id: String,
    pub capability: ModelCapability,
    pub selector: Option<String>,
    pub choice: ModelChoice,
}

/// A document of a knowledge base.
#[derive(Debug)]
pub struct DocRecord {
    pub id: String,
    pub name: String,
    pub kb_id: String,
    pub size: usize,
    /// The name under which the upload is stored; empty for records that are older than it.
    pub storage_name: String,
    pub content_hash: String,
    pub indexed_content_hash: String,
    pub run: String,
    /// Per cent.
    pub progress: u8,
    pub progress_msg: String,
    pub chunk_count: usize,
    pub created_at: u64,
    pub updated_at: u64,
}

/// A document of a knowledge base, over mathematical values.
pub struct DocView {
    pub id: Seq<char>,
    pub name: Seq<char>,
    pub kb_id: Seq<char>,
    pub size: usize,
    pub storage_name: Seq<char>,
    pub content_hash: Seq<char>,
    pub indexed_content_hash: Seq<char>,
    pub run: Seq<char>,
    pub progress: u8,
    pub progress_msg: Seq<char>,
    pub chunk_count: usize,
    pub created_at: u64,
    pub updated_at: u64,
}

impl View for DocRecord {
    type V = DocView;

    open spec fn view(&self) -> DocView {
        DocView {
            id: self.id@,
            name: self.name@,
            kb_id: self.kb_id@,
            size: self.size,
            storage_name: self.storage_name@,
            content_hash: self.content_hash@,
            indexed_content_hash: self.indexed_content_hash@,
            run: self.run@,
            progress: self.progress,
            progress_msg: self.progress_msg@,
            chunk_count: self.chunk_count,
            created_at: self.created_at,
            updated_at: self.updated_at,
        }
    }
}

impl DocRecord {
    /// A copy of the record.
    pub fn copy(&self) -> (r: DocRecord)
        ensures
            r@ == self@,
    {
        DocRecord {
            id: self.id.clone(),
            name: self.name.clone(),
            kb_id: self.kb_id.clone(),
            size: self.size,
            storage_name: self.storage_name.clone(),
            content_hash: self.content_hash.clone(),
            indexed_content_hash: self.indexed_content_hash.clone(),
            run: self.run.clone(),
            progress: self.progress,
            progress_msg: self.progress_msg.clone(),
            chunk_count: self.chunk_count,
            created_at: self.created_at,
            updated_at: self.updated_at,
        }
    }
}

/// A saved search application.
#[derive(Debug)]
pub struct SearchApp {
    pub id: String,
    pub top_k: u64,
    pub rerank: bool,
    pub rerank_id: String,
    /// The bits of a double, as is the next one.
    pub vector_similarity_weight: u64,
    pub similarity_threshold: u64,
    pub kb_ids: Vec<String>,
    pub doc_ids: Vec<String>,
    pub meta_data_filter: Json,
    pub chat_id: String,
}

/// A memory that conversations are distilled into.
#[derive(Debug)]
pub struct MemoryEntry {
    pub id: String,
    pub tenant_id: String,
    pub llm_id: String,
    pub memory_type: Vec<String>,
    pub memory_size: u64,
    pub forgetting_policy: String,
}

/// What the server knows when it decides. The tables hold what the stores hold.
#[derive(Debug)]
pub struct AppState {
    pub static_dir: String,
    pub port: u16,
    pub users: Vec<UserRecord>,
    pub kbs: Vec<KnowledgeBase>,
    pub tenants: Vec<Membership>,
    /// A global chat model is configured.
    pub llm: bool,
    /// A global embedding model is configured.
    pub embedder: bool,
    /// A global reranker is configured.
    pub reranker: bool,
    pub index_path: String,
    pub model_path: String,
    pub max_upload_bytes: usize,
    pub docs: Vec<DocRecord>,
    pub search_apps: Option<Vec<SearchApp>>,
    pub tenant_models: Vec<ModelRow>,
    pub memories: Vec<MemoryEntry>,
    /// Zero where nobody may sign up.
    pub register_enabled: i64,
    pub disable_password_login: bool,
}

// ── Lookups ─────────────────────────────────────────────────────

/// The ids of the knowledge bases, in order.
pub open spec fn kb_ids(rows: Seq<KnowledgeBase>) -> Seq<Seq<char>> {
    rows.map_values(|row: KnowledgeBase| row.id@)
}

/// The ids of the memories, in order.
pub open spec fn memory_ids(rows: Seq<MemoryEntry>) -> Seq<Seq<char>> {
    rows.map_values(|row: MemoryEntry| row.id@)
}

/// The ids of the documents, in order.
pub open spec fn doc_ids(rows: Seq<DocRecord>) -> Seq<Seq<char>> {
    rows.map_values(|row: DocRecord| row.id@)
}

/// The ids of the search applications, in order.
pub open spec fn app_ids(rows: Seq<SearchApp>) -> Seq<Seq<char>> {
    rows.map_values(|row: SearchApp| row.id@)
}

/// The addresses of the accounts, in order.
pub open spec fn user_emails(rows: Seq<UserRecord>) -> Seq<Seq<char>> {
    rows.map_values(|row: UserRecord| row.email@)
}

/// The ids of the accounts, in order.
pub open spec fn user_ids(rows: Seq<UserRecord>) -> Seq<Seq<char>> {
    rows.map_values(|row: UserRecord| row.id@)
}

/// The user belongs to the tenant.
pub open spec fn is_member(rows: Seq<Membership>, tenant: Seq<char>, user: Seq<char>) -> bool {
    exists|i: int| 0 <= i < rows.len() && member_row(#[trigger] rows[i], tenant, user)
}

/// The user may manage what the tenant owns.
pub open spec fn can_manage(rows: Seq<Membership>, tenant: Seq<char>, user: Seq<char>) -> bool {
    exists|i: int|
        0 <= i < rows.len() && member_row(#[trigger] rows[i], tenant, user) && rows[i].manages
}

/// The row is about the user in the tenant.
pub open spec fn member_row(row: Membership, tenant: Seq<char>, user: Seq<char>) -> bool {
    row.tenant_id@ == tenant && row.user_id@ == user
}

/// The choice over mathematical values.
pub enum ChoiceView {
    Model {
        id: Seq<char>,
        model_name: Seq<char>,
        api_base: Seq<char>,
        api_key: Option<Seq<char>>,
    },
    Unset,
    Refused(Seq<char>),
}

impl View for ModelChoice {
    type V = ChoiceView;

    open spec fn view(&self) -> ChoiceView {
        match self {
            ModelChoice::Model(m) => ChoiceView::Model {
                id: m.id@,
                model_name: m.model_name@,
                api_base: m.api_base@,
                api_key: text::opt_view(m.api_key),
            },
            ModelChoice::Unset => ChoiceView::Unset,
            ModelChoice::Refused(reason) => ChoiceView::Refused(reason@),
        }
    }
}

/// The row answers the question.
pub open spec fn row_answers(
    row: ModelRow,
    tenant: Seq<char>,
    capability: ModelCapability,
    selector: Option<Seq<char>>,
) -> bool {
    row.tenant_id@ == tenant && row.capability == capability && text::opt_view(row.selector)
        == selector
}

/// What the table chooses: the first row that answers, or nothing.
pub open spec fn choice(
    rows: Seq<ModelRow>,
    tenant: Seq<char>,
    capability: ModelCapability,
    selector: Option<Seq<char>>,
) -> ChoiceView
    decreases rows.len(),
{
    if rows.len() == 0 {
        ChoiceView::Unset
    } else if row_answers(rows[0], tenant, capability, selector) {
        rows[0].choice@
    } else {
        choice(rows.drop_first(), tenant, capability, selector)
    }
}

impl AppState {
    /// The knowledge base with the id.
    pub open spec fn kb(&self, id: Seq<char>) -> Option<KnowledgeBase> {
        match text::first_at(kb_ids(self.kbs@), id) {
            Some(i) => Some(self.kbs@[i]),
            None => None,
        }
    }

    /// The memory with the id.
    pub open spec fn memory(&self, id: Seq<char>) -> Option<MemoryEntry> {
        match text::first_at(memory_ids(self.memories@), id) {
            Some(i) => Some(self.memories@[i]),
            None => None,
        }
    }

    /// The document with the id.
    pub open spec fn doc(&self, id: Seq<char>) -> Option<DocRecord> {
        match text::first_at(doc_ids(self.docs@), id) {
            Some(i) => Some(self.docs@[i]),
            None => None,
        }
    }

    /// The account with the address.
    pub open spec fn user_by_email(&self, email: Seq<char>) -> Option<UserRecord> {
        match text::first_at(user_emails(self.users@), email) {
            Some(i) => Some(self.users@[i]),
            None => None,
        }
    }

    /// The account with the id.
    pub open spec fn user(&self, id: Seq<char>) -> Option<UserRecord> {
        match text::first_at(user_ids(self.users@), id) {
            Some(i) => Some(self.users@[i]),
            None => None,
        }
    }

    /// The search application with the id.
    pub open spec fn app(&self, id: Seq<char>) -> Option<SearchApp> {
        match self.search_apps {
            Some(apps) => match text::first_at(app_ids(apps@), id) {
                Some(i) => Some(apps@[i]),
                None => None,
            },
            None => None,
        }
    }

    /// Finds the knowledge base with the id.
    pub fn find_kb<'a>(&'a self, id: &str) -> (r: Option<&'a KnowledgeBase>)
        ensures
            match r {
                Some(kb) => self.kb(id@) == Some(*kb),
                None => self.kb(id@) is None,
            },
    {
        let mut i: usize = 0;
        while i < self.kbs.len()
            invariant
                i <= self.kbs@.len(),
                forall|k: int| 0 <= k < i ==> #[trigger] kb_ids(self.kbs@)[k] != id@,
            decreases self.kbs@.len() - i,
        {
            if text::same(self.kbs[i].id.as_str(), id) {
                proof {
                    text::lemma_first_at(kb_ids(self.kbs@), id@, i as int);
                }
                return Some(&self.kbs[i]);
            }
            i += 1;
        }
        proof {
            text::lemma_first_exists(kb_ids(self.kbs@), id@);
        }
        None
    }

    /// Finds the memory with the id.
    pub fn find_memory<'a>(&'a self, id: &str) -> (r: Option<&'a MemoryEntry>)
        ensures
            match r {
                Some(memory) => self.memory(id@) == Some(*memory),
                None => self.memory(id@) is None,
            },
    {
        let mut i: usize = 0;
        while i < self.memories.len()
            invariant
                i <= self.memories@.len(),
                forall|k: int| 0 <= k < i ==> #[trigger] memory_ids(self.memories@)[k] != id@,
            decreases self.memories@.len() - i,
        {
            if text::same(self.memories[i].id.as_str(), id) {
                proof {
                    text::lemma_first_at(memory_ids(self.memories@), id@, i as int);
                }
                return Some(&self.memories[i]);
            }
            i += 1;
        }
        proof {
            text::lemma_first_exists(memory_ids(self.memories@), id@);
        }
        None
    }

    /// Finds the document with the id.
    pub fn find_doc<'a>(&'a self, id: &str) -> (r: Option<&'a DocRecord>)
        ensures
            match r {
                Some(doc) => self.doc(id@) == Some(*doc),
                None => self.doc(id@) is None,
            },
    {
        let mut i: usize = 0;
        while i < self.docs.len()
            invariant
                i <= self.docs@.len(),
                forall|k: int| 0 <= k < i ==> #[trigger] doc_ids(self.docs@)[k] != id@,
            decreases self.docs@.len() - i,
        {
            if text::same(self.docs[i].id.as_str(), id) {
                proof {
                    text::lemma_first_at(doc_ids(self.docs@), id@, i as int);
                }
                return Some(&self.docs[i]);
            }
            i += 1;
        }
        proof {
            text::lemma_first_exists(doc_ids(self.docs@), id@);
        }
        None
    }

    /// Finds the account with the address.
    pub fn find_user_by_email<'a>(&'a self, email: &str) -> (r: Option<&'a UserRecord>)
        ensures
            match r {
                Some(user) => self.user_by_email(email@) == Some(*user),
                None => self.user_by_email(email@) is None,
            },
    {
        let mut i: usize = 0;
        while i < self.users.len()
            invariant
                i <= self.users@.len(),
                forall|k: int| 0 <= k < i ==> #[trigger] user_emails(self.users@)[k] != email@,
            decreases self.users@.len() - i,
        {
            if text::same(self.users[i].email.as_str(), email) {
                proof {
                    text::lemma_first_at(user_emails(self.users@), email@, i as int);
                }
                return Some(&self.users[i]);
            }
            i += 1;
        }
        proof {
            text::lemma_first_exists(user_emails(self.users@), email@);
        }
        None
    }

    /// Finds the account with the id.
    pub fn find_user<'a>(&'a self, id: &str) -> (r: Option<&'a UserRecord>)
        ensures
            match r {
                Some(user) => self.user(id@) == Some(*user),
                None => self.user(id@) is None,
            },
    {
        let mut i: usize = 0;
        while i < self.users.len()
            invariant
                i <= self.users@.len(),
                forall|k: int| 0 <= k < i ==> #[trigger] user_ids(self.users@)[k] != id@,
            decreases self.users@.len() - i,
        {
            if text::same(self.users[i].id.as_str(), id) {
                proof {
                    text::lemma_first_at(user_ids(self.users@), id@, i as int);
                }
                return Some(&self.users[i]);
            }
            i += 1;
        }
        proof {
            text::lemma_first_exists(user_ids(self.users@), id@);
        }
        None
    }

    /// Finds the search application with the id.
    pub fn find_app<'a>(&'a self, id: &str) -> (r: Option<&'a SearchApp>)
        ensures
            match r {
                Some(app) => self.app(id@) == Some(*app),
                None => self.app(id@) is None,
            },
    {
        let apps = match &self.search_apps {
            Some(apps) => apps,
            None => {
                return None;
            },
        };
        let mut i: usize = 0;
        while i < apps.len()
            invariant
                i <= apps@.len(),
                self.search_apps == Some(*apps),
                forall|k: int| 0 <= k < i ==> #[trigger] app_ids(apps@)[k] != id@,
            decreases apps@.len() - i,
        {
            if text::same(apps[i].id.as_str(), id) {
                proof {
                    text::lemma_first_at(app_ids(apps@), id@, i as int);
                }
                return Some(&apps[i]);
            }
            i += 1;
        }
        proof {
            text::lemma_first_exists(app_ids(apps@), id@);
        }
        None
    }

    /// The user belongs to the tenant.
    pub fn member(&self, tenant: &str, user: &str) -> (r: bool)
        ensures
            r == is_member(self.tenants@, tenant@, user@),
    {
        let mut i: usize = 0;
        while i < self.tenants.len()
            invariant
                i <= self.tenants@.len(),
                forall|k: int|
                    0 <= k < i ==> !member_row(#[trigger] self.tenants@[k], tenant@, user@),
            decreases self.tenants@.len() - i,
        {
            if text::same(self.tenants[i].tenant_id.as_str(), tenant) && text::same(
                self.tenants[i].user_id.as_str(),
                user,
            ) {
                assert(member_row(self.tenants@[i as int], tenant@, user@));
                return true;
            }
            i += 1;
        }
        false
    }

    /// The user may manage what the tenant owns.
    pub fn manager(&self, tenant: &str, user: &str) -> (r: bool)
        ensures
            r == can_manage(self.tenants@, tenant@, user@),
    {
        let mut i: usize = 0;
        while i < self.tenants.len()
            invariant
                i <= self.tenants@.len(),
                forall|k: int|
                    0 <= k < i ==> !(member_row(#[trigger] self.tenants@[k], tenant@, user@)
                        && self.tenants@[k].manages),
            decreases self.tenants@.len() - i,
        {
            if self.tenants[i].manages && text::same(self.tenants[i].tenant_id.as_str(), tenant)
                && text::same(self.tenants[i].user_id.as_str(), user) {
                assert(member_row(self.tenants@[i as int], tenant@, user@));
                return true;
            }
            i += 1;
        }
        false
    }

    /// What the table of models chooses.
    pub fn resolve<'a>(
        &'a self,
        tenant: &str,
        capability: ModelCapability,
        selector: Option<&str>,
    ) -> (r: Option<&'a ModelChoice>)
        ensures
            match r {
                Some(chosen) => chosen@ == choice(
                    self.tenant_models@,
                    tenant@,
                    capability,
                    text::opt_str_view(selector),
                ),
                None => choice(
                    self.tenant_models@,
                    tenant@,
                    capability,
                    text::opt_str_view(selector),
                ) is Unset,
            },
    {
        let ghost wanted = text::opt_str_view(selector);
        let mut i: usize = 0;
        assert(self.tenant_models@.skip(0) =~= self.tenant_models@);
        while i < self.tenant_models.len()
            invariant
                i <= self.tenant_models@.len(),
                wanted == text::opt_str_view(selector),
                choice(self.tenant_models@, tenant@, capability, wanted) == choice(
                    self.tenant_models@.skip(i as int),
                    tenant@,
                    capability,
                    wanted,
                ),
            decreases self.tenant_models@.len() - i,
        {
            let row = &self.tenant_models[i];
            assert(self.tenant_models@.skip(i as int).drop_first() =~= self.tenant_models@.skip(
                i + 1,
            ));
            let same_selector = match (&row.selector, selector) {
                (Some(a), Some(b)) => text::same(a.as_str(), b),
                (None, None) => true,
                _ => false,
            };
            if row.capability == capability && same_selector && text::same(
                row.tenant_id.as_str(),
                tenant,
            ) {
                return Some(&row.choice);
            }
            i += 1;
        }
        None
    }
}

/// A lookup gives a knowledge base with the id that was asked for.
pub proof fn lookups_keep_the_id(state: AppState, id: Seq<char>)
    ensures
        state.kb(id) matches Some(kb) ==> kb.id@ == id,
{
    text::lemma_first_exists(kb_ids(state.kbs@), id);
}

// ── Laws ────────────────────────────────────────────────────────

/// The knowledge base with the id is the first row that has it; without such a row there is
/// none.
pub proof fn knowledge_bases_are_found_by_their_id(
    state: AppState,
    id: &str,
    r: Option<&KnowledgeBase>,
    i: int,
)
    requires
        call_ensures(AppState::find_kb, (&state, id), r),
    ensures
        0 <= i < state.kbs@.len() && state.kbs@[i].id@ == id@ && (forall|j: int|
            0 <= j < i ==> (#[trigger] state.kbs@[j]).id@ != id@) ==> r == Some(
            &state.kbs@[i],
        ),
        (forall|j: int|
            0 <= j < state.kbs@.len() ==> (#[trigger] state.kbs@[j]).id@ != id@) ==> r
            is None,
{
    let keys = kb_ids(state.kbs@);
    text::lemma_first_exists(keys, id@);
    if 0 <= i < state.kbs@.len() && state.kbs@[i].id@ == id@ && (forall|j: int|
        0 <= j < i ==> (#[trigger] state.kbs@[j]).id@ != id@) {
        assert forall|j: int| 0 <= j < i implies #[trigger] keys[j] != id@ by {
            assert(keys[j] == state.kbs@[j].id@);
        }
        assert(text::is_first(keys, id@, i));
        text::lemma_first_at(keys, id@, i);
    }
    if forall|j: int| 0 <= j < state.kbs@.len() ==> (#[trigger] state.kbs@[j]).id@ != id@ {
        assert forall|j: int| 0 <= j < keys.len() implies #[trigger] keys[j] != id@ by {
            assert(keys[j] == state.kbs@[j].id@);
        }
        assert(!keys.contains(id@));
    }
}

/// The memory with the id is the first row that has it; without such a row there is
/// none.
pub proof fn memories_are_found_by_their_id(
    state: AppState,
    id: &str,
    r: Option<&MemoryEntry>,
    i: int,
)
    requires
        call_ensures(AppState::find_memory, (&state, id), r),
    ensures
        0 <= i < state.memories@.len() && state.memories@[i].id@ == id@ && (forall|j: int|
            0 <= j < i ==> (#[trigger] state.memories@[j]).id@ != id@) ==> r == Some(
            &state.memories@[i],
        ),
        (forall|j: int|
            0 <= j < state.memories@.len() ==> (#[trigger] state.memories@[j]).id@ != id@) ==> r
            is None,
{
    let keys = memory_ids(state.memories@);
    text::lemma_first_exists(keys, id@);
    if 0 <= i < state.memories@.len() && state.memories@[i].id@ == id@ && (forall|j: int|
        0 <= j < i ==> (#[trigger] state.memories@[j]).id@ != id@) {
        assert forall|j: int| 0 <= j < i implies #[trigger] keys[j] != id@ by {
            assert(keys[j] == state.memories@[j].id@);
        }
        assert(text::is_first(keys, id@, i));
        text::lemma_first_at(keys, id@, i);
    }
    if forall|j: int| 0 <= j < state.memories@.len() ==> (#[trigger] state.memories@[j]).id@ != id@ {
        assert forall|j: int| 0 <= j < keys.len() implies #[trigger] keys[j] != id@ by {
            assert(keys[j] == state.memories@[j].id@);
        }
        assert(!keys.contains(id@));
    }
}

/// The document with the id is the first row that has it; without such a row there is
/// none.
pub proof fn documents_are_found_by_their_id(
    state: AppState,
    id: &str,
    r: Option<&DocRecord>,
    i: int,
)
    requires
        call_ensures(AppState::find_doc, (&state, id), r),
    ensures
        0 <= i < state.docs@.len() && state.docs@[i].id@ == id@ && (forall|j: int|
            0 <= j < i ==> (#[trigger] state.docs@[j]).id@ != id@) ==> r == Some(
            &state.docs@[i],
        ),
        (forall|j: int|
            0 <= j < state.docs@.len() ==> (#[trigger] state.docs@[j]).id@ != id@) ==> r
            is None,
{
    let keys = doc_ids(state.docs@);
    text::lemma_first_exists(keys, id@);
    if 0 <= i < state.docs@.len() && state.docs@[i].id@ == id@ && (forall|j: int|
        0 <= j < i ==> (#[trigger] state.docs@[j]).id@ != id@) {
        assert forall|j: int| 0 <= j < i implies #[trigger] keys[j] != id@ by {
            assert(keys[j] == state.docs@[j].id@);
        }
        assert(text::is_first(keys, id@, i));
        text::lemma_first_at(keys, id@, i);
    }
    if forall|j: int| 0 <= j < state.docs@.len() ==> (#[trigger] state.docs@[j]).id@ != id@ {
        assert forall|j: int| 0 <= j < keys.len() implies #[trigger] keys[j] != id@ by {
            assert(keys[j] == state.docs@[j].id@);
        }
        assert(!keys.contains(id@));
    }
}

/// The account with the address is the first row that has it; without such a row there is
/// none.
pub proof fn addresses_are_found_by_their_address(
    state: AppState,
    email: &str,
    r: Option<&UserRecord>,
    i: int,
)
    requires
        call_ensures(AppState::find_user_by_email, (&state, email), r),
    ensures
        0 <= i < state.users@.len() && state.users@[i].email@ == email@ && (forall|j: int|
            0 <= j < i ==> (#[trigger] state.users@[j]).email@ != email@) ==> r == Some(
            &state.users@[i],
        ),
        (forall|j: int|
            0 <= j < state.users@.len() ==> (#[trigger] state.users@[j]).email@ != email@) ==> r
            is None,
{
    let keys = user_emails(state.users@);
    text::lemma_first_exists(keys, email@);
    if 0 <= i < state.users@.len() && state.users@[i].email@ == email@ && (forall|j: int|
        0 <= j < i ==> (#[trigger] state.users@[j]).email@ != email@) {
        assert forall|j: int| 0 <= j < i implies #[trigger] keys[j] != email@ by {
            assert(keys[j] == state.users@[j].email@);
        }
        assert(text::is_first(keys, email@, i));
        text::lemma_first_at(keys, email@, i);
    }
    if forall|j: int| 0 <= j < state.users@.len() ==> (#[trigger] state.users@[j]).email@ != email@ {
        assert forall|j: int| 0 <= j < keys.len() implies #[trigger] keys[j] != email@ by {
            assert(keys[j] == state.users@[j].email@);
        }
        assert(!keys.contains(email@));
    }
}

/// The account with the id is the first row that has it; without such a row there is
/// none.
pub proof fn accounts_are_found_by_their_id(
    state: AppState,
    id: &str,
    r: Option<&UserRecord>,
    i: int,
)
    requires
        call_ensures(AppState::find_user, (&state, id), r),
    ensures
        0 <= i < state.users@.len() && state.users@[i].id@ == id@ && (forall|j: int|
            0 <= j < i ==> (#[trigger] state.users@[j]).id@ != id@) ==> r == Some(
            &state.users@[i],
        ),
        (forall|j: int|
            0 <= j < state.users@.len() ==> (#[trigger] state.users@[j]).id@ != id@) ==> r
            is None,
{
    let keys = user_ids(state.users@);
    text::lemma_first_exists(keys, id@);
    if 0 <= i < state.users@.len() && state.users@[i].id@ == id@ && (forall|j: int|
        0 <= j < i ==> (#[trigger] state.users@[j]).id@ != id@) {
        assert forall|j: int| 0 <= j < i implies #[trigger] keys[j] != id@ by {
            assert(keys[j] == state.users@[j].id@);
        }
        assert(text::is_first(keys, id@, i));
        text::lemma_first_at(keys, id@, i);
    }
    if forall|j: int| 0 <= j < state.users@.len() ==> (#[trigger] state.users@[j]).id@ != id@ {
        assert forall|j: int| 0 <= j < keys.len() implies #[trigger] keys[j] != id@ by {
            assert(keys[j] == state.users@[j].id@);
        }
        assert(!keys.contains(id@));
    }
}

/// The search application with the id is the first saved one that has it; without such
/// a one there is none.
pub proof fn applications_are_found_by_their_id(
    state: AppState,
    id: &str,
    r: Option<&SearchApp>,
    apps: Vec<SearchApp>,
    i: int,
)
    requires
        call_ensures(AppState::find_app, (&state, id), r),
    ensures
        state.search_apps == Some(apps) && 0 <= i < apps@.len() && apps@[i].id@ == id@ && (forall|
            j: int,
        |
            0 <= j < i ==> (#[trigger] apps@[j]).id@ != id@) ==> r == Some(&apps@[i]),
        state.search_apps == Some(apps) && (forall|j: int|
            0 <= j < apps@.len() ==> (#[trigger] apps@[j]).id@ != id@) ==> r is None,
        state.search_apps is None ==> r is None,
{
    let keys = app_ids(apps@);
    text::lemma_first_exists(keys, id@);
    if state.search_apps == Some(apps) {
        if 0 <= i < apps@.len() && apps@[i].id@ == id@ && (forall|j: int|
            0 <= j < i ==> (#[trigger] apps@[j]).id@ != id@) {
            assert forall|j: int| 0 <= j < i implies #[trigger] keys[j] != id@ by {
                assert(keys[j] == apps@[j].id@);
            }
            assert(text::is_first(keys, id@, i));
            text::lemma_first_at(keys, id@, i);
        }
        if forall|j: int| 0 <= j < apps@.len() ==> (#[trigger] apps@[j]).id@ != id@ {
            assert forall|j: int| 0 <= j < keys.len() implies #[trigger] keys[j] != id@ by {
                assert(keys[j] == apps@[j].id@);
            }
            assert(!keys.contains(id@));
        }
    }
}

/// A row of the tenants makes a member of the user that it names in the tenant that it
/// names, and a manager where it says so; nothing else does.
pub proof fn memberships_are_rows(
    state: AppState,
    tenant: &str,
    user: &str,
    member: bool,
    manager: bool,
    i: int,
)
    requires
        call_ensures(AppState::member, (&state, tenant, user), member),
        call_ensures(AppState::manager, (&state, tenant, user), manager),
    ensures
        0 <= i < state.tenants@.len() && state.tenants@[i].tenant_id@ == tenant@
            && state.tenants@[i].user_id@ == user@ ==> member && (state.tenants@[i].manages ==> manager),
        (forall|j: int|
            0 <= j < state.tenants@.len() ==> (#[trigger] state.tenants@[j]).tenant_id@ != tenant@
                || state.tenants@[j].user_id@ != user@) ==> !member && !manager,
        (forall|j: int|
            0 <= j < state.tenants@.len() ==> !(#[trigger] state.tenants@[j]).manages) ==> !manager,
{
    if 0 <= i < state.tenants@.len() && state.tenants@[i].tenant_id@ == tenant@
        && state.tenants@[i].user_id@ == user@ {
        assert(member_row(state.tenants@[i], tenant@, user@));
    }
}

/// A model is chosen by the first row for the tenant, the capability and the selector;
/// rows for other tenants, other capabilities or other selectors choose nothing.
pub proof fn models_are_chosen_by_their_row(
    rows: Seq<ModelRow>,
    tenant: Seq<char>,
    capability: ModelCapability,
    selector: Option<Seq<char>>,
    i: int,
)
    ensures
        0 <= i < rows.len() && rows[i].tenant_id@ == tenant && rows[i].capability == capability
            && text::opt_view(rows[i].selector) == selector && (forall|j: int|
            0 <= j < i ==> (#[trigger] rows[j]).tenant_id@ != tenant || rows[j].capability
                != capability || text::opt_view(rows[j].selector) != selector) ==> choice(
            rows,
            tenant,
            capability,
            selector,
        ) == rows[i].choice@,
        (forall|j: int|
            0 <= j < rows.len() ==> (#[trigger] rows[j]).tenant_id@ != tenant || rows[j].capability
                != capability || text::opt_view(rows[j].selector) != selector) ==> choice(
            rows,
            tenant,
            capability,
            selector,
        ) is Unset,
    decreases rows.len(),
{
    if rows.len() > 0 {
        let rest = rows.drop_first();
        models_are_chosen_by_their_row(rest, tenant, capability, selector, i - 1);
        if forall|j: int|
            0 <= j < rows.len() ==> (#[trigger] rows[j]).tenant_id@ != tenant || rows[j].capability
                != capability || text::opt_view(rows[j].selector) != selector {
            assert(rows[0].tenant_id@ != tenant || rows[0].capability != capability
                || text::opt_view(rows[0].selector) != selector);
            assert forall|j: int| 0 <= j < rest.len() implies (#[trigger] rest[j]).tenant_id@ != tenant
                || rest[j].capability != capability || text::opt_view(rest[j].selector)
                != selector by {
                assert(rest[j] == rows[j + 1]);
            }
        }
        if 0 < i < rows.len() && (forall|j: int|
            0 <= j < i ==> (#[trigger] rows[j]).tenant_id@ != tenant || rows[j].capability
                != capability || text::opt_view(rows[j].selector) != selector) {
            assert(rows[0].tenant_id@ != tenant || rows[0].capability != capability
                || text::opt_view(rows[0].selector) != selector);
            assert(rest[i - 1] == rows[i]);
            assert forall|j: int| 0 <= j < i - 1 implies (#[trigger] rest[j]).tenant_id@ != tenant
                || rest[j].capability != capability || text::opt_view(rest[j].selector)
                != selector by {
                assert(rest[j] == rows[j + 1]);
            }
        }
    }
}

/// A copy of a document's record tells whatever the record tells.
pub proof fn records_are_copied_whole(doc: DocRecord, r: DocRecord)
    requires
        call_ensures(DocRecord::copy, (&doc,), r),
    ensures
        r.id@ == doc.id@,
        r.name@ == doc.name@,
        r.kb_id@ == doc.kb_id@,
        r.size == doc.size,
        r.storage_name@ == doc.storage_name@,
        r.content_hash@ == doc.content_hash@,
        r.indexed_content_hash@ == doc.indexed_content_hash@,
        r.run@ == doc.run@,
        r.progress == doc.progress,
        r.progress_msg@ == doc.progress_msg@,
        r.chunk_count == doc.chunk_count,
        r.created_at == doc.created_at,
        r.updated_at == doc.updated_at,
{
    assert(r@ == doc@);
    assert(r@.id == r.id@ && doc@.id == doc.id@);
}

} // verus!
