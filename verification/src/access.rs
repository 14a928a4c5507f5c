//! Who may do what: the public endpoints, the credentials of a request, and the
//! knowledge bases that a user may read or manage.

use crate::reply;
use crate::reply::Reply;
use crate::state;
use crate::state::AppState;
use crate::text;
use vstd::prelude::*;

verus! {

/// The user on whose behalf a request is served.
#[derive(Clone, Debug)]
pub struct AuthContext {
    pub user_id: String,
    pub is_admin: bool,
    /// The credential that the request presented, so that exactly it can be revoked.
    pub token: String,
}

// ── Knowledge bases ─────────────────────────────────────────────

/// The user may read the knowledge base.
pub open spec fn may_read(s: AppState, kb_id: Seq<char>, auth: AuthContext) -> bool {
    match s.kb(kb_id) {
        None => false,
        Some(kb) => {
            ||| kb.owner_id@ == auth.user_id@
            ||| kb.permission@ == "team"@ && state::is_member(
                s.tenants@,
                kb.owner_id@,
                auth.user_id@,
            )
            ||| auth.is_admin && kb.owner_id@.len() == 0
        },
    }
}

/// The user may manage the knowledge base.
pub open spec fn may_manage(s: AppState, kb_id: Seq<char>, auth: AuthContext) -> bool {
    match s.kb(kb_id) {
        None => false,
        Some(kb) => {
            ||| kb.owner_id@ == auth.user_id@
            ||| state::can_manage(s.tenants@, kb.owner_id@, auth.user_id@)
            ||| auth.is_admin && kb.owner_id@.len() == 0
        },
    }
}

/// The user may read the knowledge base: it is theirs, or it is shared with a team
/// that they belong to, or it belongs to nobody and they administer the server.
pub fn kb_accessible(state: &AppState, kb_id: &str, auth: &AuthContext) -> (r: bool)
    ensures
        r == may_read(*state, kb_id@, *auth),
{
    match state.find_kb(kb_id) {
        None => false,
        Some(kb) => text::same(kb.owner_id.as_str(), auth.user_id.as_str()) || (text::same(
            kb.permission.as_str(),
            "team",
        ) && state.member(kb.owner_id.as_str(), auth.user_id.as_str())) || (auth.is_admin
            && kb.owner_id.as_str().is_empty()),
    }
}

/// The user may manage the knowledge base: it is theirs, or they manage the tenant
/// that owns it, or it belongs to nobody and they administer the server.
pub fn kb_manageable(state: &AppState, kb_id: &str, auth: &AuthContext) -> (r: bool)
    ensures
        r == may_manage(*state, kb_id@, *auth),
{
    match state.find_kb(kb_id) {
        None => false,
        Some(kb) => text::same(kb.owner_id.as_str(), auth.user_id.as_str()) || state.manager(
            kb.owner_id.as_str(),
            auth.user_id.as_str(),
        ) || (auth.is_admin && kb.owner_id.as_str().is_empty()),
    }
}

/// There is a knowledge base at least, and the user may read every one of them.
pub open spec fn may_read_all(s: AppState, ids: Seq<Seq<char>>, auth: AuthContext) -> bool {
    ids.len() > 0 && forall|i: int| 0 <= i < ids.len() ==> may_read(s, #[trigger] ids[i], auth)
}

/// There is a knowledge base at least, and the user may read every one of them.
pub fn all_kbs_accessible(state: &AppState, kb_ids: &Vec<String>, auth: &AuthContext) -> (r: bool)
    ensures
        r == may_read_all(*state, text::views(kb_ids@), *auth),
{
    let ghost ids = text::views(kb_ids@);
    if kb_ids.len() == 0 {
        return false;
    }
    let mut i: usize = 0;
    while i < kb_ids.len()
        invariant
            i <= kb_ids@.len(),
            ids == text::views(kb_ids@),
            forall|k: int| 0 <= k < i ==> may_read(*state, #[trigger] ids[k], *auth),
        decreases kb_ids@.len() - i,
    {
        assert(ids[i as int] == kb_ids@[i as int]@);
        if !kb_accessible(state, kb_ids[i].as_str(), auth) {
            return false;
        }
        i += 1;
    }
    true
}

/// The knowledge bases that the user may read, in order.
pub open spec fn readable(s: AppState, ids: Seq<Seq<char>>, auth: AuthContext) -> Seq<Seq<char>> {
    ids.filter(|id: Seq<char>| may_read(s, id, auth))
}

/// The ids of the knowledge bases that the user may read, in order.
pub fn accessible_kbs(state: &AppState, auth: &AuthContext) -> (r: Vec<String>)
    ensures
        text::views(r@) == readable(*state, state::kb_ids(state.kbs@), *auth),
{
    let ghost ids = state::kb_ids(state.kbs@);
    let ghost keep = |id: Seq<char>| may_read(*state, id, *auth);
    let mut out: Vec<String> = Vec::new();
    let mut i: usize = 0;
    assert(ids.take(0) =~= Seq::<Seq<char>>::empty());
    proof {
        reveal(Seq::filter);
    }
    assert(text::views(out@) =~= ids.take(0).filter(keep));
    while i < state.kbs.len()
        invariant
            i <= state.kbs@.len(),
            ids == state::kb_ids(state.kbs@),
            keep == (|id: Seq<char>| may_read(*state, id, *auth)),
            text::views(out@) == ids.take(i as int).filter(keep),
        decreases state.kbs@.len() - i,
    {
        let ghost before = text::views(out@);
        let id = state.kbs[i].id.as_str();
        assert(ids[i as int] == id@);
        proof {
            reveal(Seq::filter);
            assert(ids.take(i + 1).drop_last() =~= ids.take(i as int));
            assert(ids.take(i + 1).last() == id@);
        }
        if kb_accessible(state, id, auth) {
            out.push(id.to_owned());
            assert(text::views(out@) =~= before.push(id@));
        }
        i += 1;
    }
    assert(ids.take(i as int) =~= ids);
    out
}

/// A user who owns a knowledge base may read and manage it, whatever its permission.
pub proof fn owners_keep_access(s: AppState, kb_id: Seq<char>, auth: AuthContext)
    requires
        s.kb(kb_id) matches Some(kb) && kb.owner_id@ == auth.user_id@,
    ensures
        may_read(s, kb_id, auth),
        may_manage(s, kb_id, auth),
{
}

/// A member of the owner's team who may not manage the tenant reads a shared
/// knowledge base without managing it; a user who is no member does neither.
pub proof fn members_read_without_managing(s: AppState, kb_id: Seq<char>, auth: AuthContext)
    requires
        s.kb(kb_id) matches Some(kb) && kb.permission@ == "team"@ && kb.owner_id@ != auth.user_id@
            && kb.owner_id@.len() > 0 && !state::can_manage(
            s.tenants@,
            kb.owner_id@,
            auth.user_id@,
        ),
    ensures
        !may_manage(s, kb_id, auth),
        may_read(s, kb_id, auth) <==> state::is_member(
            s.tenants@,
            s.kb(kb_id)->Some_0.owner_id@,
            auth.user_id@,
        ),
{
}

// ── Public endpoints ────────────────────────────────────────────

/// The segment of a pattern stands for any segment of a path.
pub open spec fn is_placeholder(segment: Seq<char>) -> bool {
    segment.len() > 2 && segment[0] == '{' && segment.last() == '}'
}

/// The segments agree one by one.
pub open spec fn segments_match(pattern: Seq<Seq<char>>, path: Seq<Seq<char>>) -> bool {
    pattern.len() == path.len() && forall|i: int|
        0 <= i < pattern.len() ==> is_placeholder(#[trigger] pattern[i]) || pattern[i] == path[i]
}

/// The path follows the pattern, segment by segment.
pub open spec fn matches_pattern(pattern: Seq<char>, path: Seq<char>) -> bool {
    segments_match(text::pieces(pattern, '/'), text::pieces(path, '/'))
}

fn placeholder(segment: &str) -> (r: bool)
    ensures
        r == is_placeholder(segment@),
{
    let chars = text::chars_of(segment);
    chars.len() > 2 && chars[0] == '{' && chars[chars.len() - 1] == '}'
}

/// The path follows the pattern, in which `{name}` stands for any single segment.
pub fn path_matches_pattern(pattern: &str, path: &str) -> (r: bool)
    ensures
        r == matches_pattern(pattern@, path@),
{
    let expected = text::split(pattern, '/');
    let actual = text::split(path, '/');
    let ghost e = text::views(expected@);
    let ghost a = text::views(actual@);
    assert(e.len() == expected@.len() && a.len() == actual@.len());
    if expected.len() != actual.len() {
        return false;
    }
    let mut i: usize = 0;
    while i < expected.len()
        invariant
            i <= expected@.len(),
            expected@.len() == actual@.len(),
            e == text::views(expected@),
            a == text::views(actual@),
            e == text::pieces(pattern@, '/'),
            a == text::pieces(path@, '/'),
            forall|k: int| 0 <= k < i ==> is_placeholder(#[trigger] e[k]) || e[k] == a[k],
        decreases expected@.len() - i,
    {
        assert(e[i as int] == expected@[i as int]@);
        assert(a[i as int] == actual@[i as int]@);
        if !placeholder(expected[i].as_str()) && !text::same(
            expected[i].as_str(),
            actual[i].as_str(),
        ) {
            return false;
        }
        i += 1;
    }
    true
}

/// The path needs no credential.
pub open spec fn is_public_path(path: Seq<char>) -> bool {
    ||| matches_pattern("/api/v1/auth/login"@, path)
    ||| matches_pattern("/api/v1/admin/login"@, path)
    ||| matches_pattern("/api/v1/user/register"@, path)
    ||| matches_pattern("/api/v1/version"@, path)
    ||| matches_pattern("/api/v1/system/password-public-key"@, path)
    ||| matches_pattern("/api/v1/system/healthz"@, path)
    ||| matches_pattern("/api/v1/system/version"@, path)
    ||| matches_pattern("/api/v1/system/config"@, path)
    ||| matches_pattern("/api/v1/setup/status"@, path)
    ||| matches_pattern("/api/v1/auth/login/channels"@, path)
    ||| matches_pattern("/api/v1/auth/login/{channel}"@, path)
    ||| matches_pattern("/api/v1/auth/oauth/{channel}/callback"@, path)
    ||| matches_pattern("/api/v1/channels/{account_id}/webhook/inbound"@, path)
    ||| matches_pattern("/api/v1/channels/{account_id}/feishu/event"@, path)
    ||| "/api/v1/chatbots/"@.is_prefix_of(path)
}

/// The path needs no credential: it is how a credential is obtained, it tells what
/// the login page has to know, or it is called by somebody who has none.
pub fn public_api_path(path: &str) -> (r: bool)
    ensures
        r == is_public_path(path@),
{
    // The console obtains its token from the admin login.
    path_matches_pattern("/api/v1/auth/login", path) || path_matches_pattern(
        "/api/v1/admin/login",
        path,
    ) || path_matches_pattern("/api/v1/user/register", path) || path_matches_pattern(
        "/api/v1/version",
        path,
    ) || path_matches_pattern("/api/v1/system/password-public-key", path) || path_matches_pattern(
        "/api/v1/system/healthz",
        path,
    ) || path_matches_pattern("/api/v1/system/version", path) || path_matches_pattern(
        "/api/v1/system/config",
        path,
    ) || path_matches_pattern("/api/v1/setup/status", path) || path_matches_pattern(
        "/api/v1/auth/login/channels",
        path,
    ) || path_matches_pattern("/api/v1/auth/login/{channel}", path) || path_matches_pattern(
        "/api/v1/auth/oauth/{channel}/callback",
        path,
    )
    // Webhooks of chat platforms carry no token of this server.
     || path_matches_pattern("/api/v1/channels/{account_id}/webhook/inbound", path)
        || path_matches_pattern("/api/v1/channels/{account_id}/feishu/event", path)
    // Shared chats are read without an account.
     || text::has_prefix(path, "/api/v1/chatbots/")
}

/// The request needs no credential. Signing up shares its path with the list of
/// users, so there the method decides.
pub open spec fn is_public_request(method: Seq<char>, path: Seq<char>) -> bool {
    (method == "POST"@ && path == "/api/v1/users"@) || is_public_path(path)
}

/// The request needs no credential.
pub fn public_api_request(method: &str, path: &str) -> (r: bool)
    ensures
        r == is_public_request(method@, path@),
{
    (text::same(method, "POST") && text::same(path, "/api/v1/users")) || public_api_path(path)
}

/// A pattern without placeholders matches itself and nothing else.
pub proof fn literal_patterns_match_only_themselves(pattern: Seq<char>, path: Seq<char>)
    requires
        !pattern.contains('{'),
    ensures
        matches_pattern(pattern, path) <==> pattern == path,
{
    let p = text::pieces(pattern, '/');
    let a = text::pieces(path, '/');
    assert forall|i: int| 0 <= i < p.len() implies !is_placeholder(#[trigger] p[i]) by {
        lemma_piece_inside(pattern, '/', i);
    }
    if matches_pattern(pattern, path) {
        assert(p =~= a);
        text::pieces_join_back(pattern, '/');
        text::pieces_join_back(path, '/');
    }
}

/// The characters of a piece are characters of the text.
proof fn lemma_piece_inside(s: Seq<char>, sep: char, i: int)
    requires
        0 <= i < text::pieces(s, sep).len(),
    ensures
        forall|k: int|
            0 <= k < text::pieces(s, sep)[i].len() ==> s.contains(
                #[trigger] text::pieces(s, sep)[i][k],
            ),
    decreases s.len(),
{
    if s.len() > 0 {
        let before = text::pieces(s.drop_last(), sep);
        text::lemma_pieces_nonempty(s.drop_last(), sep);
        let piece = text::pieces(s, sep)[i];
        assert forall|k: int| 0 <= k < piece.len() implies s.contains(#[trigger] piece[k]) by {
            if i < before.len() && k < before[i].len() {
                lemma_piece_inside(s.drop_last(), sep, i);
                let c = before[i][k];
                assert(s.drop_last().contains(c));
                let j = choose|j: int| 0 <= j < s.drop_last().len() && s.drop_last()[j] == c;
                assert(s[j] == c);
            } else {
                assert(piece[k] == s.last());
                assert(s[s.len() - 1] == s.last());
            }
        }
    }
}

/// A placeholder stands for one segment: a path that matches has as many segments as
/// the pattern.
pub proof fn matching_paths_have_as_many_segments(pattern: Seq<char>, path: Seq<char>)
    requires
        matches_pattern(pattern, path),
    ensures
        text::pieces(pattern, '/').len() == text::pieces(path, '/').len(),
{
}

// ── Credentials ─────────────────────────────────────────────────

/// The token of an `Authorization` header: what follows the scheme `bearer`.
pub open spec fn bearer_token(header: Option<Seq<char>>) -> Option<Seq<char>> {
    match header {
        None => None,
        Some(value) => match text::cut_once(value, ' ') {
            Some((scheme, token)) => if text::lowered(scheme) == "bearer"@ && token.len() > 0 {
                Some(token)
            } else {
                None
            },
            None => None,
        },
    }
}

/// The token in the parts of a `Cookie` header: the first that carries one.
pub open spec fn cookie_token(parts: Seq<Seq<char>>) -> Option<Seq<char>>
    decreases parts.len(),
{
    if parts.len() == 0 {
        None
    } else {
        match text::after_prefix(text::trimmed(parts[0]), "rayrag_token="@) {
            Some(token) => Some(token),
            None => cookie_token(parts.drop_first()),
        }
    }
}

/// The credential of a request: the bearer token, or else the cookie.
pub open spec fn credential_of(header: Option<Seq<char>>, cookie: Option<Seq<char>>) -> Option<
    Seq<char>,
> {
    match bearer_token(header) {
        Some(token) => Some(token),
        None => match cookie {
            Some(value) => cookie_token(text::pieces(value, ';')),
            None => None,
        },
    }
}

/// The credential of a request: the bearer token, or else the cookie that the login
/// page has left for page loads.
pub fn credential(header: Option<&str>, cookie: Option<&str>) -> (r: Option<String>)
    ensures
        text::opt_view(r) == credential_of(text::opt_str_view(header), text::opt_str_view(cookie)),
{
    if let Some(value) = header {
        if let Some((scheme, token)) = text::split_once(value, ' ') {
            if text::same(text::to_lower(scheme).as_str(), "bearer") && !token.is_empty() {
                return Some(token.to_owned());
            }
        }
    }
    let value = match cookie {
        Some(value) => value,
        None => {
            return None;
        },
    };
    let parts = text::split(value, ';');
    let ghost all = text::views(parts@);
    let mut i: usize = 0;
    assert(all.skip(0) =~= all);
    while i < parts.len()
        invariant
            i <= parts@.len(),
            all == text::views(parts@),
            credential_of(text::opt_str_view(header), text::opt_str_view(cookie)) == cookie_token(
                all.skip(i as int),
            ),
        decreases parts@.len() - i,
    {
        assert(all.skip(i as int)[0] == parts@[i as int]@);
        assert(all.skip(i as int).drop_first() =~= all.skip(i + 1));
        if let Some(token) = text::strip_prefix(text::trim(parts[i].as_str()), "rayrag_token=") {
            return Some(token.to_owned());
        }
        i += 1;
    }
    None
}

/// What a request needs before it is served.
#[derive(Debug)]
pub enum Gate {
    /// Nothing.
    Open,
    /// A user for the credential.
    Check(String),
    /// It is answered at once.
    Refuse(Reply),
}

/// A request that has to show who sends it.
pub open spec fn needs_credential(method: Seq<char>, path: Seq<char>) -> bool {
    method != "OPTIONS"@ && "/api/v1/"@.is_prefix_of(path) && !is_public_request(method, path)
}

/// The answer to a request without a valid credential.
pub open spec fn unauthorized_of() -> reply::ReplyView {
    reply::reply_of(401, 401, "Unauthorized"@, None)
}

/// The answer to a request without a valid credential.
pub fn unauthorized() -> (r: Reply)
    ensures
        r@ == unauthorized_of(),
{
    reply::plain(401, 401, "Unauthorized")
}

/// What a request needs before it is served.
pub fn require_api_auth(
    method: &str,
    path: &str,
    header: Option<&str>,
    cookie: Option<&str>,
) -> (r: Gate)
    ensures
        ({
            let token = credential_of(text::opt_str_view(header), text::opt_str_view(cookie));
            match r {
                Gate::Open => !needs_credential(method@, path@),
                Gate::Check(t) => needs_credential(method@, path@) && token == Some(t@),
                Gate::Refuse(answer) => needs_credential(method@, path@) && token is None && answer@
                    == unauthorized_of(),
            }
        }),
{
    if text::same(method, "OPTIONS") || !text::has_prefix(path, "/api/v1/") || public_api_request(
        method,
        path,
    ) {
        return Gate::Open;
    }
    match credential(header, cookie) {
        Some(token) => Gate::Check(token),
        None => Gate::Refuse(unauthorized()),
    }
}

/// The user that a credential stands for: that of the session, or else the owner of
/// the shared token, while the account is there.
pub open spec fn user_of(
    s: AppState,
    session: Option<Seq<char>>,
    beta_tenant: Option<Seq<char>>,
) -> Option<Seq<char>> {
    match session {
        Some(user) => Some(user),
        None => match beta_tenant {
            Some(tenant) => if s.user(tenant) is Some {
                Some(tenant)
            } else {
                None
            },
            None => None,
        },
    }
}

/// The user that a credential stands for. `session` is the user whose session the
/// credential opens, `beta_tenant` the tenant whose shared token it is; a personal
/// tenant has the id of its owner.
pub fn authenticated_user(
    state: &AppState,
    session: Option<String>,
    beta_tenant: Option<String>,
) -> (r: Option<String>)
    ensures
        text::opt_view(r) == user_of(*state, text::opt_view(session), text::opt_view(beta_tenant)),
{
    if let Some(user) = session {
        return Some(user);
    }
    match beta_tenant {
        Some(tenant) => {
            if state.find_user(tenant.as_str()).is_some() {
                Some(tenant)
            } else {
                None
            }
        },
        None => None,
    }
}

/// Lets a request in as the user, or answers it.
pub fn grant(user: Option<String>, is_admin: bool, token: &str) -> (r: Result<AuthContext, Reply>)
    ensures
        match (user, r) {
            (Some(id), Ok(auth)) => auth.user_id@ == id@ && auth.is_admin == is_admin && auth.token@
                == token@,
            (None, Err(answer)) => answer@ == unauthorized_of(),
            _ => false,
        },
{
    match user {
        Some(user_id) => Ok(AuthContext { user_id, is_admin, token: token.to_owned() }),
        None => Err(unauthorized()),
    }
}

// ── Who gets in ─────────────────────────────────────────────────

/// A knowledge base that nobody has stored is nobody's to read or to manage.
pub proof fn unknown_bases_are_closed(
    state: AppState,
    kb_id: &str,
    auth: AuthContext,
    reads: bool,
    manages: bool,
)
    requires
        call_ensures(kb_accessible, (&state, kb_id, &auth), reads),
        call_ensures(kb_manageable, (&state, kb_id, &auth), manages),
        forall|j: int| 0 <= j < state.kbs@.len() ==> (#[trigger] state.kbs@[j]).id@ != kb_id@,
    ensures
        !reads,
        !manages,
{
    let keys = state::kb_ids(state.kbs@);
    text::lemma_first_exists(keys, kb_id@);
    assert forall|j: int| 0 <= j < keys.len() implies #[trigger] keys[j] != kb_id@ by {
        assert(keys[j] == state.kbs@[j].id@);
    }
    assert(!keys.contains(kb_id@));
}

/// A knowledge base is read and managed by its owner. Somebody else who belongs to the
/// owner's tenant reads it where it is shared with the team, and only there, and manages
/// it where they manage the tenant. Whoever has no row in the tenant does neither; only
/// what belongs to nobody is open to those who administer the server.
pub proof fn access_follows_ownership_and_membership(
    state: AppState,
    kb_id: &str,
    auth: AuthContext,
    reads: bool,
    manages: bool,
    kb: state::KnowledgeBase,
    row: int,
)
    requires
        call_ensures(kb_accessible, (&state, kb_id, &auth), reads),
        call_ensures(kb_manageable, (&state, kb_id, &auth), manages),
        state.kb(kb_id@) == Some(kb),
    ensures
        kb.owner_id@ == auth.user_id@ ==> reads && manages,
        0 <= row < state.tenants@.len() && state.tenants@[row].tenant_id@ == kb.owner_id@
            && state.tenants@[row].user_id@ == auth.user_id@ ==> (kb.permission@ == "team"@ ==> reads)
            && (state.tenants@[row].manages ==> manages),
        kb.owner_id@ != auth.user_id@ && kb.owner_id@.len() > 0 && kb.permission@ != "team"@ ==> !reads,
        kb.owner_id@ != auth.user_id@ && kb.owner_id@.len() > 0 && (forall|j: int|
            0 <= j < state.tenants@.len() ==> (#[trigger] state.tenants@[j]).tenant_id@
                != kb.owner_id@ || state.tenants@[j].user_id@ != auth.user_id@) ==> !reads && !manages,
        kb.owner_id@ != auth.user_id@ && kb.owner_id@.len() > 0 && (forall|j: int|
            0 <= j < state.tenants@.len() ==> !(#[trigger] state.tenants@[j]).manages) ==> !manages,
        kb.owner_id@.len() == 0 && auth.is_admin ==> reads && manages,
{
    if 0 <= row < state.tenants@.len() && state.tenants@[row].tenant_id@ == kb.owner_id@
        && state.tenants@[row].user_id@ == auth.user_id@ {
        assert(state::member_row(state.tenants@[row], kb.owner_id@, auth.user_id@));
    }
}

/// Several knowledge bases may be searched together where there is one at least and the
/// user may read each of them; one that they may not read closes all.
pub proof fn one_closed_base_closes_all(
    state: AppState,
    kb_ids: Vec<String>,
    auth: AuthContext,
    all: bool,
    i: int,
    id: &str,
    one: bool,
)
    requires
        call_ensures(all_kbs_accessible, (&state, &kb_ids, &auth), all),
        call_ensures(kb_accessible, (&state, id, &auth), one),
    ensures
        kb_ids@.len() == 0 ==> !all,
        0 <= i < kb_ids@.len() && kb_ids@[i]@ == id@ && !one ==> !all,
        kb_ids@.len() == 1 && kb_ids@[0]@ == id@ ==> all == one,
        kb_ids@.len() > 0 && (forall|k: int|
            0 <= k < kb_ids@.len() ==> may_read(state, (#[trigger] kb_ids@[k])@, auth)) ==> all,
{
    let ids = text::views(kb_ids@);
    assert(ids.len() == kb_ids@.len());
    if 0 <= i < kb_ids@.len() {
        assert(ids[i] == kb_ids@[i]@);
    }
    if kb_ids@.len() > 0 {
        assert(ids[0] == kb_ids@[0]@);
    }
}

/// The knowledge bases that a user is shown are exactly those stored ones that they may
/// read.
pub proof fn shown_bases_are_the_readable_ones(
    state: AppState,
    auth: AuthContext,
    r: Vec<String>,
    i: int,
)
    requires
        call_ensures(accessible_kbs, (&state, &auth), r),
    ensures
        0 <= i < state.kbs@.len() ==> (text::views(r@).contains(state.kbs@[i].id@) <==> may_read(
            state,
            state.kbs@[i].id@,
            auth,
        )),
        r@.len() <= state.kbs@.len(),
{
    broadcast use vstd::seq_lib::group_filter_ensures;

    let ids = state::kb_ids(state.kbs@);
    assert(text::views(r@).len() == r@.len());
    if 0 <= i < state.kbs@.len() {
        assert(ids[i] == state.kbs@[i].id@);
        assert(ids.contains(ids[i]));
        let all = text::views(r@);
        if all.contains(ids[i]) {
            let k = choose|k: int| 0 <= k < all.len() && all[k] == ids[i];
            assert(may_read(state, all[k], auth));
        }
    }
}

/// The pieces of a text without braces are no placeholders.
proof fn lemma_no_placeholders(s: Seq<char>, i: int)
    requires
        !s.contains('{'),
        0 <= i < text::pieces(s, '/').len(),
    ensures
        !is_placeholder(text::pieces(s, '/')[i]),
{
    lemma_piece_inside(s, '/', i);
    let piece = text::pieces(s, '/')[i];
    if piece.len() > 0 {
        assert(s.contains(piece[0]));
    }
}

/// A placeholder at the end of a pattern stands for one segment of whatever kind.
pub proof fn placeholders_stand_for_one_segment(
    head: Seq<char>,
    name: Seq<char>,
    path: Seq<char>,
    segment: Seq<char>,
)
    requires
        !head.contains('{'),
        is_placeholder(name),
        !name.contains('/'),
    ensures
        matches_pattern(head + seq!['/'] + name, path) ==> exists|s: Seq<char>|
            #[trigger] (head + seq!['/'] + s) == path && !s.contains('/'),
        !segment.contains('/') ==> matches_pattern(
            head + seq!['/'] + name,
            head + seq!['/'] + segment,
        ),
{
    let slash = seq!['/'];
    let pattern = head + slash + name;
    text::pieces_of_a_whole_are_those_of_its_parts(head, name, '/');
    text::whole_texts_are_one_piece(name, '/');
    text::lemma_pieces_nonempty(head, '/');
    let heads = text::pieces(head, '/');
    assert forall|i: int| 0 <= i < heads.len() implies !is_placeholder(#[trigger] heads[i]) by {
        lemma_no_placeholders(head, i);
    }
    let patterns = text::pieces(pattern, '/');
    if matches_pattern(pattern, path) {
        let q = text::pieces(path, '/');
        text::pieces_join_back(path, '/');
        text::pieces_join_back(head, '/');
        let s = q.last();
        assert forall|i: int| 0 <= i < heads.len() implies q[i] == heads[i] by {
            assert(patterns[i] == heads[i]);
        }
        assert(q =~= heads + seq![s]);
        text::joined_rows_are_joined_texts(heads, seq![s], slash);
        assert(head + slash + s == path);
        assert(q[q.len() - 1] == s);
    }
    if !segment.contains('/') {
        text::pieces_of_a_whole_are_those_of_its_parts(head, segment, '/');
        text::whole_texts_are_one_piece(segment, '/');
        let q = text::pieces(head + slash + segment, '/');
        assert forall|i: int| 0 <= i < patterns.len() implies is_placeholder(#[trigger] patterns[i])
            || patterns[i] == q[i] by {
            if i < heads.len() {
                assert(patterns[i] == heads[i]);
                assert(q[i] == heads[i]);
            } else {
                assert(patterns[i] == name);
            }
        }
    }
}

/// A placeholder between two fixed parts of a pattern stands for one segment of whatever
/// kind.
pub proof fn inner_placeholders_stand_for_one_segment(
    head: Seq<char>,
    name: Seq<char>,
    tail: Seq<char>,
    path: Seq<char>,
    segment: Seq<char>,
)
    requires
        !head.contains('{'),
        is_placeholder(name),
        !name.contains('/'),
        !tail.contains('{'),
    ensures
        matches_pattern(head + seq!['/'] + name + seq!['/'] + tail, path) ==> exists|s: Seq<char>|
            #[trigger] (head + seq!['/'] + s + seq!['/'] + tail) == path && !s.contains('/'),
        !segment.contains('/') ==> matches_pattern(
            head + seq!['/'] + name + seq!['/'] + tail,
            head + seq!['/'] + segment + seq!['/'] + tail,
        ),
{
    let slash = seq!['/'];
    let front = head + slash + name;
    let pattern = front + slash + tail;
    text::pieces_of_a_whole_are_those_of_its_parts(head, name, '/');
    text::whole_texts_are_one_piece(name, '/');
    text::pieces_of_a_whole_are_those_of_its_parts(front, tail, '/');
    text::lemma_pieces_nonempty(head, '/');
    text::lemma_pieces_nonempty(tail, '/');
    let heads = text::pieces(head, '/');
    let tails = text::pieces(tail, '/');
    let n = heads.len() as int;
    assert forall|i: int| 0 <= i < heads.len() implies !is_placeholder(#[trigger] heads[i]) by {
        lemma_no_placeholders(head, i);
    }
    assert forall|i: int| 0 <= i < tails.len() implies !is_placeholder(#[trigger] tails[i]) by {
        lemma_no_placeholders(tail, i);
    }
    let patterns = text::pieces(pattern, '/');
    assert(patterns =~= heads + seq![name] + tails);
    if matches_pattern(pattern, path) {
        let q = text::pieces(path, '/');
        text::pieces_join_back(path, '/');
        text::pieces_join_back(head, '/');
        text::pieces_join_back(tail, '/');
        let s = q[n];
        assert forall|i: int| 0 <= i < q.len() && i != n implies q[i] == patterns[i] by {
            if i < n {
                assert(patterns[i] == heads[i]);
            } else {
                assert(patterns[i] == tails[i - n - 1]);
            }
        }
        assert(q =~= heads + seq![s] + tails);
        text::joined_rows_are_joined_texts(heads, seq![s], slash);
        text::joined_rows_are_joined_texts(heads + seq![s], tails, slash);
        assert(head + slash + s + slash + tail == path);
    }
    if !segment.contains('/') {
        text::pieces_of_a_whole_are_those_of_its_parts(head, segment, '/');
        text::whole_texts_are_one_piece(segment, '/');
        text::pieces_of_a_whole_are_those_of_its_parts(head + slash + segment, tail, '/');
        let q = text::pieces(head + slash + segment + slash + tail, '/');
        assert(q =~= heads + seq![segment] + tails);
        assert forall|i: int| 0 <= i < patterns.len() implies is_placeholder(#[trigger] patterns[i])
            || patterns[i] == q[i] by {
            if i == n {
                assert(patterns[i] == name);
            } else {
                assert(patterns[i] == q[i]);
            }
        }
    }
}

/// The paths that need no credential are a fixed list; three kinds of them have one
/// segment of whatever kind at the end or in the middle, and one kind any end. Every
/// other path needs one.
pub proof fn public_paths_are_a_fixed_list(path: &str, r: bool)
    requires
        call_ensures(public_api_path, (path,), r),
    ensures
        r <==> {
            ||| path@ == "/api/v1/auth/login"@
            ||| path@ == "/api/v1/admin/login"@
            ||| path@ == "/api/v1/user/register"@
            ||| path@ == "/api/v1/version"@
            ||| path@ == "/api/v1/system/password-public-key"@
            ||| path@ == "/api/v1/system/healthz"@
            ||| path@ == "/api/v1/system/version"@
            ||| path@ == "/api/v1/system/config"@
            ||| path@ == "/api/v1/setup/status"@
            ||| path@ == "/api/v1/auth/login/channels"@
            ||| exists|s: Seq<char>| #[trigger]
                ("/api/v1/auth/login"@ + seq!['/'] + s) == path@ && !s.contains('/')
            ||| exists|s: Seq<char>| #[trigger]
                ("/api/v1/auth/oauth"@ + seq!['/'] + s + seq!['/'] + "callback"@) == path@
                    && !s.contains('/')
            ||| exists|s: Seq<char>| #[trigger]
                ("/api/v1/channels"@ + seq!['/'] + s + seq!['/'] + "webhook/inbound"@) == path@
                    && !s.contains('/')
            ||| exists|s: Seq<char>| #[trigger]
                ("/api/v1/channels"@ + seq!['/'] + s + seq!['/'] + "feishu/event"@) == path@
                    && !s.contains('/')
            ||| "/api/v1/chatbots/"@.is_prefix_of(path@)
        },
{
    assert(matches_pattern("/api/v1/auth/login"@, path@) <==> path@ == "/api/v1/auth/login"@) by {
        reveal_strlit("/api/v1/auth/login");
        literal_patterns_match_only_themselves("/api/v1/auth/login"@, path@);
    }
    assert(matches_pattern("/api/v1/admin/login"@, path@) <==> path@ == "/api/v1/admin/login"@) by {
        reveal_strlit("/api/v1/admin/login");
        literal_patterns_match_only_themselves("/api/v1/admin/login"@, path@);
    }
    assert(matches_pattern("/api/v1/user/register"@, path@) <==> path@ == "/api/v1/user/register"@) by {
        reveal_strlit("/api/v1/user/register");
        literal_patterns_match_only_themselves("/api/v1/user/register"@, path@);
    }
    assert(matches_pattern("/api/v1/version"@, path@) <==> path@ == "/api/v1/version"@) by {
        reveal_strlit("/api/v1/version");
        literal_patterns_match_only_themselves("/api/v1/version"@, path@);
    }
    assert(matches_pattern("/api/v1/system/password-public-key"@, path@) <==> path@ == "/api/v1/system/password-public-key"@) by {
        reveal_strlit("/api/v1/system/password-public-key");
        literal_patterns_match_only_themselves("/api/v1/system/password-public-key"@, path@);
    }
    assert(matches_pattern("/api/v1/system/healthz"@, path@) <==> path@ == "/api/v1/system/healthz"@) by {
        reveal_strlit("/api/v1/system/healthz");
        literal_patterns_match_only_themselves("/api/v1/system/healthz"@, path@);
    }
    assert(matches_pattern("/api/v1/system/version"@, path@) <==> path@ == "/api/v1/system/version"@) by {
        reveal_strlit("/api/v1/system/version");
        literal_patterns_match_only_themselves("/api/v1/system/version"@, path@);
    }
    assert(matches_pattern("/api/v1/system/config"@, path@) <==> path@ == "/api/v1/system/config"@) by {
        reveal_strlit("/api/v1/system/config");
        literal_patterns_match_only_themselves("/api/v1/system/config"@, path@);
    }
    assert(matches_pattern("/api/v1/setup/status"@, path@) <==> path@ == "/api/v1/setup/status"@) by {
        reveal_strlit("/api/v1/setup/status");
        literal_patterns_match_only_themselves("/api/v1/setup/status"@, path@);
    }
    assert(matches_pattern("/api/v1/auth/login/channels"@, path@) <==> path@ == "/api/v1/auth/login/channels"@) by {
        reveal_strlit("/api/v1/auth/login/channels");
        literal_patterns_match_only_themselves("/api/v1/auth/login/channels"@, path@);
    }
    assert({
        matches_pattern("/api/v1/auth/login/{channel}"@, path@) <==> exists|s: Seq<char>| #[trigger]
            ("/api/v1/auth/login"@ + seq!['/'] + s) == path@ && !s.contains('/')
    }) by {
        reveal_strlit("/api/v1/auth/login");
        reveal_strlit("{channel}");
        reveal_strlit("/api/v1/auth/login/{channel}");
        assert("/api/v1/auth/login"@ + seq!['/'] + "{channel}"@ =~= "/api/v1/auth/login/{channel}"@);
        placeholders_stand_for_one_segment("/api/v1/auth/login"@, "{channel}"@, path@, Seq::empty());
        assert forall|s: Seq<char>| #[trigger] ("/api/v1/auth/login"@ + seq!['/'] + s) == path@ && !s.contains('/') implies matches_pattern(
            "/api/v1/auth/login/{channel}"@,
            path@,
        ) by {
            placeholders_stand_for_one_segment("/api/v1/auth/login"@, "{channel}"@, path@, s);
        }
    }
    assert({
        matches_pattern("/api/v1/auth/oauth/{channel}/callback"@, path@) <==> exists|s: Seq<char>| #[trigger]
            ("/api/v1/auth/oauth"@ + seq!['/'] + s + seq!['/'] + "callback"@) == path@ && !s.contains('/')
    }) by {
        reveal_strlit("/api/v1/auth/oauth");
        reveal_strlit("{channel}");
        reveal_strlit("/api/v1/auth/oauth/{channel}/callback");
        reveal_strlit("callback");
        assert("/api/v1/auth/oauth"@ + seq!['/'] + "{channel}"@ + seq!['/'] + "callback"@ =~= "/api/v1/auth/oauth/{channel}/callback"@);
        inner_placeholders_stand_for_one_segment("/api/v1/auth/oauth"@, "{channel}"@, "callback"@, path@, Seq::empty());
        assert forall|s: Seq<char>| #[trigger] ("/api/v1/auth/oauth"@ + seq!['/'] + s + seq!['/'] + "callback"@) == path@ && !s.contains('/') implies matches_pattern(
            "/api/v1/auth/oauth/{channel}/callback"@,
            path@,
        ) by {
            inner_placeholders_stand_for_one_segment("/api/v1/auth/oauth"@, "{channel}"@, "callback"@, path@, s);
        }
    }
    assert({
        matches_pattern("/api/v1/channels/{account_id}/webhook/inbound"@, path@) <==> exists|s: Seq<char>| #[trigger]
            ("/api/v1/channels"@ + seq!['/'] + s + seq!['/'] + "webhook/inbound"@) == path@ && !s.contains('/')
    }) by {
        reveal_strlit("/api/v1/channels");
        reveal_strlit("{account_id}");
        reveal_strlit("/api/v1/channels/{account_id}/webhook/inbound");
        reveal_strlit("webhook/inbound");
        assert("/api/v1/channels"@ + seq!['/'] + "{account_id}"@ + seq!['/'] + "webhook/inbound"@ =~= "/api/v1/channels/{account_id}/webhook/inbound"@);
        inner_placeholders_stand_for_one_segment("/api/v1/channels"@, "{account_id}"@, "webhook/inbound"@, path@, Seq::empty());
        assert forall|s: Seq<char>| #[trigger] ("/api/v1/channels"@ + seq!['/'] + s + seq!['/'] + "webhook/inbound"@) == path@ && !s.contains('/') implies matches_pattern(
            "/api/v1/channels/{account_id}/webhook/inbound"@,
            path@,
        ) by {
            inner_placeholders_stand_for_one_segment("/api/v1/channels"@, "{account_id}"@, "webhook/inbound"@, path@, s);
        }
    }
    assert({
        matches_pattern("/api/v1/channels/{account_id}/feishu/event"@, path@) <==> exists|s: Seq<char>| #[trigger]
            ("/api/v1/channels"@ + seq!['/'] + s + seq!['/'] + "feishu/event"@) == path@ && !s.contains('/')
    }) by {
        reveal_strlit("/api/v1/channels");
        reveal_strlit("{account_id}");
        reveal_strlit("/api/v1/channels/{account_id}/feishu/event");
        reveal_strlit("feishu/event");
        assert("/api/v1/channels"@ + seq!['/'] + "{account_id}"@ + seq!['/'] + "feishu/event"@ =~= "/api/v1/channels/{account_id}/feishu/event"@);
        inner_placeholders_stand_for_one_segment("/api/v1/channels"@, "{account_id}"@, "feishu/event"@, path@, Seq::empty());
        assert forall|s: Seq<char>| #[trigger] ("/api/v1/channels"@ + seq!['/'] + s + seq!['/'] + "feishu/event"@) == path@ && !s.contains('/') implies matches_pattern(
            "/api/v1/channels/{account_id}/feishu/event"@,
            path@,
        ) by {
            inner_placeholders_stand_for_one_segment("/api/v1/channels"@, "{account_id}"@, "feishu/event"@, path@, s);
        }
    }
}

/// A request for a path of the interface is let through without a credential exactly
/// where it only asks for the options, signs somebody up, or has a public path. Any
/// other is answered with 401 unless it carries a credential, and a request for anything
/// else is let through.
pub proof fn gates_ask_for_credentials(
    method: &str,
    path: &str,
    header: Option<&str>,
    cookie: Option<&str>,
    gate: Gate,
    public: bool,
    found: Option<String>,
)
    requires
        call_ensures(require_api_auth, (method, path, header, cookie), gate),
        call_ensures(public_api_path, (path,), public),
        call_ensures(credential, (header, cookie), found),
    ensures
        !"/api/v1/"@.is_prefix_of(path@) ==> gate is Open,
        method@ == "OPTIONS"@ ==> gate is Open,
        public ==> gate is Open,
        method@ == "POST"@ && path@ == "/api/v1/users"@ ==> gate is Open,
        "/api/v1/"@.is_prefix_of(path@) && method@ != "OPTIONS"@ && !public && !(method@ == "POST"@
            && path@ == "/api/v1/users"@) ==> match found {
            Some(token) => gate matches Gate::Check(t) && t@ == token@,
            None => gate matches Gate::Refuse(answer) && answer.status == 401,
        },
{
}

/// The credential of a request is what follows `bearer` and a blank in its header, in
/// whatever case that word is written; only a request without such a header is asked for
/// the cookie.
pub proof fn bearer_tokens_come_first(
    header: Option<&str>,
    cookie: Option<&str>,
    r: Option<String>,
    scheme: Seq<char>,
    token: Seq<char>,
)
    requires
        call_ensures(credential, (header, cookie), r),
    ensures
        text::opt_str_view(header) == Some(scheme + seq![' '] + token) && !scheme.contains(' ')
            && text::lowered(scheme) == "bearer"@ && token.len() > 0 ==> text::opt_view(r) == Some(
            token,
        ),
        header is None && cookie is None ==> r is None,
        text::opt_str_view(header) == Some(scheme + seq![' '] + token) && !scheme.contains(' ')
            && text::lowered(scheme) != "bearer"@ && cookie is None ==> r is None,
{
    if text::opt_str_view(header) == Some(scheme + seq![' '] + token) && !scheme.contains(' ') {
        let value = scheme + seq![' '] + token;
        text::cuts_are_made_at_the_first_separator(value, ' ');
        assert(value[scheme.len() as int] == ' ');
        match text::cut_once(value, ' ') {
            Some((head, tail)) => {
                let whole = head + seq![' '] + tail;
                assert(whole[head.len() as int] == ' ');
                if head.len() < scheme.len() {
                    assert(scheme[head.len() as int] == value[head.len() as int]);
                }
                if scheme.len() < head.len() {
                    assert(head[scheme.len() as int] == value[scheme.len() as int]);
                }
                assert(head.len() == scheme.len());
                assert(head =~= value.take(head.len() as int));
                assert(scheme =~= value.take(head.len() as int));
                assert(tail =~= value.skip(head.len() as int + 1));
                assert(token =~= value.skip(head.len() as int + 1));
            },
            None => {
                assert(value.contains(' '));
            },
        }
    }
}

/// The token of a cookie is what follows `rayrag_token=` in the first part that has it;
/// other parts are passed over.
pub proof fn cookies_are_read_part_by_part(parts: Seq<Seq<char>>, part: Seq<char>, token: Seq<char>)
    ensures
        text::trimmed(part) == "rayrag_token="@ + token ==> cookie_token(seq![part] + parts) == Some(
            token,
        ),
        !"rayrag_token="@.is_prefix_of(text::trimmed(part)) ==> cookie_token(seq![part] + parts)
            == cookie_token(parts),
        cookie_token(Seq::<Seq<char>>::empty()) is None,
{
    let all = seq![part] + parts;
    assert(all.drop_first() =~= parts);
    assert(all[0] == part);
    text::prefixes_are_completed(text::trimmed(part), "rayrag_token="@, token);
}

/// The cookie is read where the header carries no token.
pub proof fn cookies_stand_in_for_headers(cookie: &str, r: Option<String>)
    requires
        call_ensures(credential, (None::<&str>, Some(cookie)), r),
    ensures
        text::opt_view(r) == cookie_token(text::pieces(cookie@, ';')),
{
}

/// A credential stands for the user of its session; a shared token for its tenant, as
/// long as that account is there; nothing stands for nobody.
pub proof fn credentials_stand_for_accounts(
    state: AppState,
    session: Option<String>,
    beta_tenant: Option<String>,
    r: Option<String>,
)
    requires
        call_ensures(authenticated_user, (&state, session, beta_tenant), r),
    ensures
        session matches Some(user) ==> (r matches Some(id) && id@ == user@),
        session is None && beta_tenant is None ==> r is None,
        session is None ==> (beta_tenant matches Some(tenant) ==> if state.user(tenant@) is Some {
            r matches Some(id) && id@ == tenant@
        } else {
            r is None
        }),
{
}

/// A request is served as the user that its credential stands for, with that credential
/// and no more rights than the user has; without a user it is answered with 401.
pub proof fn requests_are_served_as_their_user(
    user: Option<String>,
    is_admin: bool,
    token: &str,
    r: Result<AuthContext, Reply>,
)
    requires
        call_ensures(grant, (user, is_admin, token), r),
    ensures
        user matches Some(id) ==> (r matches Ok(auth) && auth.user_id@ == id@ && auth.is_admin
            == is_admin && auth.token@ == token@),
        user is None ==> (r matches Err(answer) && answer.status == 401),
{
}

/// A segment of a pattern stands for any segment exactly where it is a name in braces.
pub proof fn placeholders_are_names_in_braces(
    name: Seq<char>,
    segment: Seq<char>,
    pattern: &str,
    path: &str,
    r: bool,
)
    requires
        call_ensures(path_matches_pattern, (pattern, path), r),
    ensures
        name.len() > 0 ==> is_placeholder(seq!['{'] + name + seq!['}']),
        is_placeholder(segment) ==> segment.len() > 2 && segment[0] == '{' && segment.last() == '}',
        r == matches_pattern(pattern@, path@),
{
}

/// A request needs no credential where it signs somebody up, or where its path is public;
/// listing the users, which has the same path, needs one.
pub proof fn signing_up_needs_no_credential(method: &str, path: &str, open: bool, r: bool)
    requires
        call_ensures(public_api_path, (path,), open),
        call_ensures(public_api_request, (method, path), r),
    ensures
        r <==> open || (method@ == "POST"@ && path@ == "/api/v1/users"@),
{
}

} // verus!
