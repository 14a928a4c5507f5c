use rayrag_server::access::AuthContext;
use rayrag_server::account::{
    api_key_reply, change_password, component_catalog, login, login_fields,
    parse_component_categories, password_fields, password_public_key, registration_failed,
    self_api_keys, user_add, user_info, welcome, SelfApiKey,
};
use rayrag_server::json::Json;
use rayrag_server::reply::Reply;
use rayrag_server::state::{AppState, UserRecord};
use serde_json::Value;

fn value(json: &Json) -> Value {
    match json {
        Json::Null => Value::Null,
        Json::Bool(b) => Value::Bool(*b),
        Json::UInt(n) => Value::from(*n),
        Json::NegInt(n) => Value::from(*n),
        Json::Real(bits) => Value::from(f64::from_bits(*bits)),
        Json::Str(s) => Value::String(s.clone()),
        Json::Array(items) => Value::Array(items.iter().map(value).collect()),
        Json::Object(entries) => {
            Value::Object(entries.iter().map(|(k, v)| (k.clone(), value(v))).collect())
        }
    }
}

fn object(entries: &[(&str, &str)]) -> Json {
    Json::Object(entries.iter().map(|(k, v)| (k.to_string(), Json::Str(v.to_string()))).collect())
}

fn user(id: &str, nickname: &str, email: &str) -> UserRecord {
    UserRecord {
        id: id.into(),
        nickname: nickname.into(),
        email: email.into(),
        avatar: Json::Null,
        timezone: Json::Str("UTC".into()),
        role: Json::Str("user".into()),
        created_at: Json::UInt(7),
    }
}

fn state() -> AppState {
    AppState {
        static_dir: String::new(),
        port: 9380,
        users: vec![user("u-1", "Newcomer", "newcomer@example.com")],
        kbs: Vec::new(),
        tenants: Vec::new(),
        llm: false,
        embedder: false,
        reranker: false,
        index_path: String::new(),
        model_path: String::new(),
        max_upload_bytes: 1024,
        docs: Vec::new(),
        search_apps: None,
        tenant_models: Vec::new(),
        memories: Vec::new(),
        register_enabled: 1,
        disable_password_login: false,
    }
}

fn auth(user: &str) -> AuthContext {
    AuthContext { user_id: user.into(), is_admin: false, token: String::new() }
}

fn told(reply: &Reply) -> (u16, String) {
    (reply.status, value(&reply.body).to_string())
}

fn sign_up(nickname: &str, email: &str) -> Json {
    object(&[("nickname", nickname), ("email", email), ("password", "a long enough password")])
}

#[test]
fn sign_ups_are_checked_in_order() {
    let mut s = state();
    let refusal = |s: &AppState, body: &Json, valid: bool, name: Result<String, String>| {
        told(&user_add(s, body, valid, name).unwrap_err())
    };
    let named = |name: &str| Ok::<String, String>(name.to_string());
    assert_eq!(
        refusal(&s, &object(&[]), false, named("")),
        (
            200,
            r#"{"code":101,"message":"required argument are missing: nickname,email,password; "}"#
                .into()
        )
    );
    assert_eq!(
        refusal(&s, &object(&[("nickname", "N")]), false, named("N")),
        (
            200,
            r#"{"code":101,"message":"required argument are missing: email,password; "}"#.into()
        )
    );
    assert_eq!(
        refusal(&s, &sign_up("Newcomer", "nope"), false, named("Newcomer")),
        (200, r#"{"code":103,"message":"Invalid email address: nope!"}"#.into())
    );
    assert_eq!(
        refusal(&s, &sign_up("Newcomer", "newcomer@example.com"), true, named("Newcomer")),
        (
            200,
            r#"{"code":103,"message":"Email: newcomer@example.com has already registered!"}"#
                .into()
        )
    );
    assert_eq!(
        refusal(
            &s,
            &sign_up("bad/name", "nickname@example.com"),
            true,
            Err("Nickname contains invalid characters.".into())
        ),
        (200, r#"{"code":101,"message":"Nickname contains invalid characters."}"#.into())
    );
    s.register_enabled = 0;
    assert_eq!(
        refusal(&s, &sign_up("Newcomer", "new@example.com"), true, named("Newcomer")),
        (200, r#"{"code":103,"message":"User registration is disabled!"}"#.into())
    );
}

#[test]
fn newcomers_are_welcomed_without_their_password() {
    let body = sign_up("Alias User", " alias@example.com ");
    let who = user_add(&state(), &body, true, Ok("Alias User".into())).unwrap();
    assert_eq!((who.nickname.as_str(), who.email.as_str()), ("Alias User", "alias@example.com"));
    assert_eq!(who.password, "a long enough password");
    let reply = welcome(&user("u-2", "Alias User", "alias@example.com"), Some("token"));
    assert_eq!(
        told(&reply),
        (
            200,
            [
                r#"{"code":0,"data":{"access_token":"token","avatar":null,"created_at":7,"#,
                r#""email":"alias@example.com","id":"u-2","nickname":"Alias User","role":"user","#,
                r#""timezone":"UTC"},"message":"Alias User, welcome aboard!"}"#
            ]
            .concat()
        )
    );
    assert_eq!(
        told(&registration_failed("disk is full")),
        (200, r#"{"code":100,"message":"disk is full"}"#.into())
    );
}

#[test]
fn sign_ins_tell_the_session() {
    let body = object(&[("email", "newcomer@example.com")]);
    assert_eq!(login_fields(&body), ("newcomer@example.com", ""));
    assert_eq!(
        told(&login(&state(), "newcomer@example.com", Some("t"))),
        (
            200,
            r#"{"code":0,"data":{"access_token":"t","user_id":"u-1"},"message":"ok"}"#.into()
        )
    );
    assert_eq!(
        told(&login(&state(), "gone@example.com", Some("t"))),
        (200, r#"{"code":0,"data":{"access_token":"t","user_id":null},"message":"ok"}"#.into())
    );
    assert_eq!(
        told(&login(&state(), "newcomer@example.com", None)),
        (401, r#"{"code":401,"data":null,"message":"Invalid credentials"}"#.into())
    );
}

#[test]
fn accounts_tell_of_themselves() {
    let reply = user_info(&state(), &auth("u-1"));
    assert_eq!(value(&reply.body)["data"]["email"], "newcomer@example.com");
    assert_eq!(value(&reply.body)["data"]["created_at"], 7);
    assert_eq!(
        told(&user_info(&state(), &auth("gone"))),
        (401, r#"{"code":401,"data":null,"message":"Unauthorized"}"#.into())
    );
}

#[test]
fn password_keys_are_told_with_their_encoding() {
    let none = value(&password_public_key(None).body);
    assert_eq!(none["data"]["enabled"], false);
    assert!(none["data"]["public_key"].is_null());
    assert_eq!(none["data"]["algorithm"], "RSAES-PKCS1-v1_5");
    let some = value(&password_public_key(Some("PEM")).body);
    assert_eq!(some["data"]["enabled"], true);
    assert_eq!(some["data"]["public_key"], "PEM");
    assert_eq!(some["data"]["encoding"], "base64(RSA(base64(UTF-8)))");
}

#[test]
fn passwords_are_changed_or_not() {
    let body = object(&[("current_password", "a"), ("new_password", "b")]);
    assert_eq!(password_fields(&body), ("a", "b"));
    assert_eq!(password_fields(&Json::Null), ("", ""));
    assert_eq!(told(&change_password(Ok(()))), (200, r#"{"code":0,"message":"ok"}"#.into()));
    assert_eq!(
        told(&change_password(Err("too short".into()))),
        (200, r#"{"code":400,"message":"too short"}"#.into())
    );
}

#[test]
fn api_keys_belong_to_their_user() {
    let mut keys = self_api_keys();
    let key = |token: &str| SelfApiKey {
        token: token.into(),
        create_time: 5,
        create_date: "2026-08-12".into(),
    };
    keys.add_key("u-1", key("sk-a"));
    keys.add_key("u-2", key("sk-b"));
    keys.add_key("u-1", key("sk-c"));
    assert_eq!(
        told(&keys.list_my_api_keys(&auth("u-2"))),
        (
            200,
            [
                r#"{"code":0,"data":[{"create_date":"2026-08-12","create_time":5,"#,
                r#""token":"sk-b"}]}"#
            ]
            .concat()
        )
    );
    // Nobody revokes the key of another user.
    let done = (200, r#"{"code":0,"data":true}"#.to_string());
    assert_eq!(told(&keys.delete_my_api_key(&auth("u-2"), "sk-a")), done);
    assert_eq!(keys.rows.len(), 3);
    assert_eq!(told(&keys.delete_my_api_key(&auth("u-1"), "sk-a")), done);
    let left = value(&keys.list_my_api_keys(&auth("u-1")).body);
    assert_eq!(left["data"].as_array().unwrap().len(), 1);
    assert_eq!(left["data"][0]["token"], "sk-c");
    assert_eq!(
        told(&api_key_reply("sk-x")),
        (200, r#"{"code":0,"data":{"api_key":"sk-x"}}"#.into())
    );
}

#[test]
fn generated_keys_are_fresh_and_dated() {
    let mut keys = self_api_keys();
    let first = value(&keys.generate_my_api_key(&auth("u-1")).body);
    let second = value(&keys.generate_my_api_key(&auth("u-1")).body);
    let token = first["data"]["api_key"].as_str().unwrap();
    assert!(token.starts_with("sk-"));
    assert_eq!(token.len(), 39);
    assert_ne!(token, second["data"]["api_key"].as_str().unwrap());
    let (owner, row) = &keys.rows[0];
    assert_eq!((owner.as_str(), row.token.as_str()), ("u-1", token));
    assert!(row.create_time > 1_600_000_000_000);
    assert!(row.create_date.contains('T') && row.create_date.ends_with("+00:00"));
}

#[test]
fn categories_are_read_from_a_list() {
    let known = vec!["llm".to_string(), "tool".to_string()];
    let read = |raw: Option<&str>| parse_component_categories(raw, &known);
    assert_eq!(read(None), Ok(Vec::new()));
    assert_eq!(read(Some("  ")), Ok(Vec::new()));
    assert_eq!(
        read(Some(" LLM , ,tool,llm")),
        Ok(vec!["llm".to_string(), "tool".to_string(), "llm".to_string()])
    );
    assert_eq!(read(Some("llm,Bogus,other")).unwrap_err(), "unknown category: bogus");
    assert_eq!(
        told(&component_catalog(Err("unknown category: bogus".into()))),
        (400, r#"{"code":400,"data":null,"message":"unknown category: bogus"}"#.into())
    );
    assert_eq!(
        told(&component_catalog(Ok(Json::Array(Vec::new())))),
        (200, r#"{"code":0,"data":[],"message":"success"}"#.into())
    );
}
