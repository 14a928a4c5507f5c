use rayrag_server::access::{
    accessible_kbs, all_kbs_accessible, authenticated_user, credential, grant, kb_accessible,
    kb_manageable, path_matches_pattern, public_api_path, public_api_request, require_api_auth,
    AuthContext, Gate,
};
use rayrag_server::json::Json;
use rayrag_server::state::{AppState, KnowledgeBase, Membership, UserRecord};

fn kb(id: &str, owner: &str, permission: &str) -> KnowledgeBase {
    KnowledgeBase {
        id: id.into(),
        owner_id: owner.into(),
        permission: permission.into(),
        embd_id: String::new(),
        parser_config: "{}".into(),
        prompt_config: Json::Null,
        chunk_count: 0,
        doc_count: 0,
    }
}

fn member(tenant: &str, user: &str, manages: bool) -> Membership {
    Membership { tenant_id: tenant.into(), user_id: user.into(), manages }
}

fn user(id: &str) -> UserRecord {
    UserRecord {
        id: id.into(),
        nickname: id.into(),
        email: format!("{id}@example.com"),
        avatar: Json::Null,
        timezone: Json::Null,
        role: Json::Null,
        created_at: Json::Null,
    }
}

fn state(kbs: Vec<KnowledgeBase>, tenants: Vec<Membership>) -> AppState {
    AppState {
        static_dir: "/srv/static".into(),
        port: 9380,
        users: vec![user("owner")],
        kbs,
        tenants,
        llm: false,
        embedder: false,
        reranker: false,
        index_path: "/srv/index.json".into(),
        model_path: String::new(),
        max_upload_bytes: 1024,
        docs: Vec::new(),
        search_apps: None,
        tenant_models: Vec::new(),
        memories: Vec::new(),
        register_enabled: 1,
        disable_password_login: false,
    }
}

fn auth(user: &str, is_admin: bool) -> AuthContext {
    AuthContext { user_id: user.into(), is_admin, token: "token".into() }
}

#[test]
fn public_api_path_matches_dynamic_segments() {
    // Literal endpoints keep working.
    for path in [
        "/api/v1/auth/login",
        "/api/v1/user/register",
        "/api/v1/version",
        "/api/v1/system/healthz",
        "/api/v1/system/version",
        "/api/v1/system/config",
        "/api/v1/auth/login/channels",
        "/api/v1/chatbots/abc/info",
    ] {
        assert!(public_api_path(path), "{path} must stay public");
    }
    // Single-segment placeholders now match the concrete request path.
    for path in [
        "/api/v1/auth/login/github",
        "/api/v1/auth/login/oidc",
        "/api/v1/channels/42/webhook/inbound",
        "/api/v1/channels/42/feishu/event",
    ] {
        assert!(public_api_path(path), "{path} must stay public");
    }
    // Everything else still requires a token.
    for path in [
        "/api/v1/channels/42",
        "/api/v1/auth/login/github/callback",
        "/api/v1/users/me",
        "/api/v1/datasets",
    ] {
        assert!(!public_api_path(path), "{path} must require auth");
    }
}

#[test]
fn remaining_public_endpoints_are_public() {
    for path in [
        "/api/v1/admin/login",
        "/api/v1/system/password-public-key",
        "/api/v1/setup/status",
        "/api/v1/auth/oauth/github/callback",
        "/api/v1/chatbots/",
    ] {
        assert!(public_api_path(path), "{path} must stay public");
    }
    assert!(!public_api_path("/api/v1/chatbots"));
    assert!(!public_api_path("/api/v1/version/"));
}

#[test]
fn placeholders_match_one_segment_each() {
    assert!(path_matches_pattern("/a/{x}/b", "/a/1/b"));
    assert!(path_matches_pattern("/a/{x}/b", "/a//b"));
    assert!(!path_matches_pattern("/a/{x}/b", "/a/1/2/b"));
    assert!(!path_matches_pattern("/a/{x}", "/a"));
    // An empty placeholder is no placeholder.
    assert!(!path_matches_pattern("/a/{}", "/a/1"));
    assert!(path_matches_pattern("/a/{}", "/a/{}"));
    assert!(path_matches_pattern("/a", "/a"));
    assert!(!path_matches_pattern("/a", "/A"));
}

#[test]
fn signing_up_is_public_by_its_method() {
    assert!(public_api_request("POST", "/api/v1/users"));
    assert!(!public_api_request("GET", "/api/v1/users"));
    assert!(public_api_request("GET", "/api/v1/version"));
}

#[test]
fn credentials_come_from_the_header_or_the_cookie() {
    assert_eq!(credential(Some("Bearer abc"), None).as_deref(), Some("abc"));
    assert_eq!(credential(Some("bEARER a b"), None).as_deref(), Some("a b"));
    assert_eq!(credential(Some("Basic abc"), None), None);
    assert_eq!(credential(Some("Bearer "), None), None);
    assert_eq!(credential(Some("Bearer"), None), None);
    assert_eq!(
        credential(None, Some("theme=dark; rayrag_token=xyz; rayrag_token=late")).as_deref(),
        Some("xyz")
    );
    assert_eq!(
        credential(Some("Bearer abc"), Some("rayrag_token=xyz")).as_deref(),
        Some("abc")
    );
    assert_eq!(
        credential(Some("Basic abc"), Some("rayrag_token=xyz")).as_deref(),
        Some("xyz")
    );
    assert_eq!(credential(None, Some("rayrag_token=")).as_deref(), Some(""));
    assert_eq!(credential(None, Some("other=1")), None);
}

#[test]
fn the_gate_lets_public_requests_through() {
    assert!(matches!(require_api_auth("GET", "/api/v1/system/healthz", None, None), Gate::Open));
    assert!(matches!(require_api_auth("OPTIONS", "/api/v1/datasets", None, None), Gate::Open));
    assert!(matches!(require_api_auth("GET", "/dashboard", None, None), Gate::Open));
    assert!(matches!(require_api_auth("POST", "/api/v1/users", None, None), Gate::Open));
    match require_api_auth("GET", "/api/v1/datasets", Some("Bearer t-1"), None) {
        Gate::Check(token) => assert_eq!(token, "t-1"),
        other => panic!("{other:?}"),
    }
    match require_api_auth("GET", "/api/v1/users", None, None) {
        Gate::Refuse(reply) => {
            assert_eq!(reply.status, 401);
            assert_eq!(reply.body.text("message"), Some("Unauthorized"));
            assert_eq!(reply.body.number("code"), Some(401));
            assert!(reply.body.get("data").unwrap().is_null());
        }
        other => panic!("{other:?}"),
    }
}

#[test]
fn sessions_come_before_share_secrets() {
    let s = state(Vec::new(), Vec::new());
    let session = authenticated_user(&s, Some("u".into()), Some("owner".into()));
    assert_eq!(session.as_deref(), Some("u"));
    let beta = authenticated_user(&s, None, Some("owner".into()));
    assert_eq!(beta.as_deref(), Some("owner"));
    // The tenant of a share secret must still be a live account.
    assert_eq!(authenticated_user(&s, None, Some("gone".into())), None);
    assert_eq!(authenticated_user(&s, None, None), None);
}

#[test]
fn grants_keep_the_presented_token() {
    let context = grant(Some("u".into()), true, "secret").unwrap();
    assert_eq!(context.user_id, "u");
    assert!(context.is_admin);
    assert_eq!(context.token, "secret");
    assert_eq!(grant(None, true, "secret").unwrap_err().status, 401);
}

#[test]
fn members_read_team_bases_without_managing_them() {
    let s = state(
        vec![kb("shared", "owner", "team"), kb("mine", "owner", "me")],
        vec![member("owner", "friend", false), member("owner", "deputy", true)],
    );
    assert!(kb_accessible(&s, "shared", &auth("friend", false)));
    assert!(!kb_manageable(&s, "shared", &auth("friend", false)));
    assert!(!kb_accessible(&s, "mine", &auth("friend", false)));
    assert!(kb_manageable(&s, "shared", &auth("deputy", false)));
    for id in ["shared", "mine"] {
        assert!(kb_accessible(&s, id, &auth("owner", false)));
        assert!(kb_manageable(&s, id, &auth("owner", false)));
        assert!(!kb_accessible(&s, id, &auth("stranger", false)));
        assert!(!kb_manageable(&s, id, &auth("stranger", false)));
    }
    assert!(!kb_accessible(&s, "unknown", &auth("owner", true)));
    assert!(!kb_manageable(&s, "unknown", &auth("owner", true)));
    assert_eq!(accessible_kbs(&s, &auth("friend", false)), vec!["shared".to_string()]);
    assert_eq!(accessible_kbs(&s, &auth("owner", false)), vec!["shared", "mine"]);
}

#[test]
fn administrators_manage_only_what_nobody_owns() {
    let s = state(vec![kb("legacy", "", "me"), kb("owned", "owner", "me")], Vec::new());
    assert!(kb_manageable(&s, "legacy", &auth("root", true)));
    assert!(kb_accessible(&s, "legacy", &auth("root", true)));
    assert!(!kb_manageable(&s, "owned", &auth("root", true)));
    assert!(!kb_manageable(&s, "legacy", &auth("user", false)));
}

#[test]
fn a_row_of_bases_is_accessible_when_each_is() {
    let s = state(vec![kb("a", "owner", "me"), kb("b", "other", "me")], Vec::new());
    let owner = auth("owner", false);
    assert!(all_kbs_accessible(&s, &vec!["a".into()], &owner));
    assert!(!all_kbs_accessible(&s, &vec!["a".into(), "b".into()], &owner));
    assert!(!all_kbs_accessible(&s, &Vec::new(), &owner));
}
