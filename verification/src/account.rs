//! Accounts: signing in and up, passwords, personal API keys, and the catalog of
//! components.

use crate::access;
use crate::access::AuthContext;
use crate::clock;
use crate::json;
use crate::json::{Json, JsonView};
use crate::reply;
use crate::reply::{Reply, ReplyView};
use crate::state::{AppState, UserRecord};
use crate::text;
use std::time::SystemTime;
use vstd::prelude::*;

verus! {

/// An argument is missing or wrong.
pub const ARGUMENT_ERROR: i32 = 101;

/// The request is refused as things stand.
pub const OPERATING_ERROR: i32 = 103;

/// Something went wrong on the way.
pub const EXCEPTION_ERROR: i32 = 100;

// ── Signing in ──────────────────────────────────────────────────

/// What is told of the key that passwords are encrypted with on their way.
pub open spec fn public_key_fields(key: Option<Seq<char>>) -> Seq<(Seq<char>, JsonView)> {
    seq![
        ("enabled"@, JsonView::Bool(key is Some)),
        ("algorithm"@, JsonView::Str("RSAES-PKCS1-v1_5"@)),
        ("encoding"@, JsonView::Str("base64(RSA(base64(UTF-8)))"@)),
        (
            "public_key"@,
            match key {
                Some(k) => JsonView::Str(k),
                None => JsonView::Null,
            },
        ),
    ]
}

/// Tells the key that passwords are encrypted with on their way.
pub fn password_public_key(key: Option<&str>) -> (r: Reply)
    ensures
        r@ == reply::ok_of(
            "ok"@,
            JsonView::Object(public_key_fields(text::opt_str_view(key))),
        ),
{
    let value = match key {
        Some(k) => json::string(k),
        None => Json::Null,
    };
    let e = json::with(json::fields(), "enabled", Json::Bool(key.is_some()));
    let e = json::with(e, "algorithm", json::string("RSAES-PKCS1-v1_5"));
    let e = json::with(e, "encoding", json::string("base64(RSA(base64(UTF-8)))"));
    let e = json::with(e, "public_key", value);
    assert(json::entry_views(e@) =~= public_key_fields(text::opt_str_view(key)));
    reply::ok("ok", json::object(e))
}

/// The address and the password of a request; what is missing is empty.
pub fn login_fields<'a>(body: &'a Json) -> (r: (&'a str, &'a str))
    ensures
        r.0@ == body@.text_or_empty("email"@),
        r.1@ == body@.text_or_empty("password"@),
{
    (body.text_or_empty("email"), body.text_or_empty("password"))
}

/// The answer to a sign-in. `token` is the session that the password opened, where it
/// opened one.
pub open spec fn login_of(s: AppState, email: Seq<char>, token: Option<Seq<char>>) -> ReplyView {
    match token {
        Some(t) => reply::ok_of(
            "ok"@,
            JsonView::Object(
                seq![
                    ("access_token"@, JsonView::Str(t)),
                    (
                        "user_id"@,
                        match s.user_by_email(email) {
                            Some(user) => JsonView::Str(user.id@),
                            None => JsonView::Null,
                        },
                    ),
                ],
            ),
        ),
        None => reply::reply_of(401, 401, "Invalid credentials"@, None),
    }
}

/// The answer to a sign-in. A wrong password, an unknown address and a store that
/// fails are told apart by nothing.
pub fn login(state: &AppState, email: &str, token: Option<&str>) -> (r: Reply)
    ensures
        r@ == login_of(*state, email@, text::opt_str_view(token)),
{
    match token {
        Some(t) => {
            let user_id = match state.find_user_by_email(email) {
                Some(user) => json::string(user.id.as_str()),
                None => Json::Null,
            };
            let e = json::with(json::fields(), "access_token", json::string(t));
            let e = json::with(e, "user_id", user_id);
            assert(json::entry_views(e@) =~= seq![
                ("access_token"@, JsonView::Str(t@)),
                (
                    "user_id"@,
                    match state.user_by_email(email@) {
                        Some(user) => JsonView::Str(user.id@),
                        None => JsonView::Null,
                    },
                ),
            ]);
            reply::ok("ok", json::object(e))
        },
        None => reply::plain(401, 401, "Invalid credentials"),
    }
}

// ── Signing up ──────────────────────────────────────────────────

/// The arguments that are missing, in order.
pub open spec fn missing_of(body: JsonView) -> Seq<Seq<char>> {
    let a = if body.get("nickname"@) is None {
        seq!["nickname"@]
    } else {
        Seq::empty()
    };
    let b = if body.get("email"@) is None {
        a.push("email"@)
    } else {
        a
    };
    if body.get("password"@) is None {
        b.push("password"@)
    } else {
        b
    }
}

/// Why nobody is signed up; nothing where somebody is. `email_valid` judges the
/// trimmed address, `nickname` the nickname.
pub open spec fn sign_up_refusal(
    s: AppState,
    body: JsonView,
    email_valid: bool,
    nickname: Result<Seq<char>, Seq<char>>,
) -> Option<ReplyView> {
    let email = text::trimmed(body.text_or_empty("email"@));
    let missing = missing_of(body);
    if missing.len() > 0 {
        Some(
            reply::code_message_of(
                ARGUMENT_ERROR,
                "required argument are missing: "@ + text::joined(missing, ","@) + "; "@,
            ),
        )
    } else if s.register_enabled == 0 {
        Some(reply::code_message_of(OPERATING_ERROR, "User registration is disabled!"@))
    } else if !email_valid {
        Some(
            reply::code_message_of(OPERATING_ERROR, "Invalid email address: "@ + email + "!"@),
        )
    } else if s.user_by_email(email) is Some {
        Some(
            reply::code_message_of(
                OPERATING_ERROR,
                "Email: "@ + email + " has already registered!"@,
            ),
        )
    } else {
        match nickname {
            Err(reason) => Some(reply::code_message_of(ARGUMENT_ERROR, reason)),
            Ok(_) => None,
        }
    }
}

/// Somebody who signs up.
#[derive(Debug)]
pub struct Registration {
    pub nickname: String,
    pub email: String,
    pub password: String,
}

fn missing_arguments(body: &Json) -> (r: Vec<String>)
    ensures
        text::views(r@) == missing_of(body@),
{
    let mut out: Vec<String> = Vec::new();
    if body.get("nickname").is_none() {
        out.push("nickname".to_owned());
    }
    if body.get("email").is_none() {
        out.push("email".to_owned());
    }
    if body.get("password").is_none() {
        out.push("password".to_owned());
    }
    assert(text::views(out@) =~= missing_of(body@));
    out
}

/// Somebody who signs up, or the answer to a request that signs nobody up: arguments
/// come first, then the switch, the address, whether it is taken, and the nickname.
pub fn user_add(
    state: &AppState,
    body: &Json,
    email_valid: bool,
    nickname: Result<String, String>,
) -> (r: Result<Registration, Reply>)
    ensures
        match sign_up_refusal(*state, body@, email_valid, crate::models::text_view(nickname)) {
            Some(answer) => r matches Err(a) && a@ == answer,
            None => r matches Ok(who) && nickname matches Ok(name) && who.nickname@ == name@
                && who.email@ == text::trimmed(body@.text_or_empty("email"@)) && who.password@
                == body@.text_or_empty("password"@),
        },
{
    let missing = missing_arguments(body);
    assert(missing@.len() == text::views(missing@).len());
    if missing.len() > 0 {
        let listed = text::join(&missing, ",");
        let message = text::concat3("required argument are missing: ", listed.as_str(), "; ");
        return Err(reply::ret_code_response(ARGUMENT_ERROR, message.as_str()));
    }
    if state.register_enabled == 0 {
        return Err(
            reply::ret_code_response(OPERATING_ERROR, "User registration is disabled!"),
        );
    }
    let email = text::trim(body.text_or_empty("email"));
    if !email_valid {
        let message = text::concat3("Invalid email address: ", email, "!");
        return Err(reply::ret_code_response(OPERATING_ERROR, message.as_str()));
    }
    if state.find_user_by_email(email).is_some() {
        let message = text::concat3("Email: ", email, " has already registered!");
        return Err(reply::ret_code_response(OPERATING_ERROR, message.as_str()));
    }
    match nickname {
        Err(reason) => Err(reply::ret_code_response(ARGUMENT_ERROR, reason.as_str())),
        Ok(nickname) => Ok(
            Registration {
                nickname,
                email: email.to_owned(),
                password: body.text_or_empty("password").to_owned(),
            },
        ),
    }
}

/// What an account tells of itself. Its password is not among it.
pub open spec fn user_fields(user: UserRecord) -> Seq<(Seq<char>, JsonView)> {
    seq![
        ("id"@, JsonView::Str(user.id@)),
        ("nickname"@, JsonView::Str(user.nickname@)),
        ("email"@, JsonView::Str(user.email@)),
        ("avatar"@, user.avatar@),
        ("timezone"@, user.timezone@),
        ("role"@, user.role@),
        ("created_at"@, user.created_at@),
    ]
}

fn user_entries(user: &UserRecord) -> (r: Vec<(String, Json)>)
    ensures
        json::entry_views(r@) == user_fields(*user),
{
    let e = json::with(json::fields(), "id", json::string(user.id.as_str()));
    let e = json::with(e, "nickname", json::string(user.nickname.as_str()));
    let e = json::with(e, "email", json::string(user.email.as_str()));
    let e = json::with(e, "avatar", user.avatar.copy());
    let e = json::with(e, "timezone", user.timezone.copy());
    let e = json::with(e, "role", user.role.copy());
    let e = json::with(e, "created_at", user.created_at.copy());
    assert(json::entry_views(e@) =~= user_fields(*user));
    e
}

/// The answer to somebody who has signed up.
pub open spec fn welcome_of(user: UserRecord, token: Option<Seq<char>>) -> ReplyView {
    reply::ok_of(
        user.nickname@ + ", welcome aboard!"@,
        JsonView::Object(
            user_fields(user).push(
                (
                    "access_token"@,
                    match token {
                        Some(t) => JsonView::Str(t),
                        None => JsonView::Null,
                    },
                ),
            ),
        ),
    )
}

/// The answer to somebody who has signed up; the token also goes into a header of the
/// answer.
pub fn welcome(user: &UserRecord, token: Option<&str>) -> (r: Reply)
    ensures
        r@ == welcome_of(*user, text::opt_str_view(token)),
{
    let value = match token {
        Some(t) => json::string(t),
        None => Json::Null,
    };
    let entries = json::with(user_entries(user), "access_token", value);
    let message = text::concat(user.nickname.as_str(), ", welcome aboard!");
    reply::ok(message.as_str(), json::object(entries))
}

/// The answer where the store could not sign somebody up.
pub fn registration_failed(message: &str) -> (r: Reply)
    ensures
        r@ == reply::code_message_of(EXCEPTION_ERROR, message@),
{
    reply::ret_code_response(EXCEPTION_ERROR, message)
}

/// Nobody signs up while the switch is off, and no address is used twice, whatever
/// else the request holds.
pub proof fn sign_up_respects_switch_and_addresses(
    s: AppState,
    body: JsonView,
    email_valid: bool,
    nickname: Result<Seq<char>, Seq<char>>,
)
    ensures
        s.register_enabled == 0 ==> sign_up_refusal(s, body, email_valid, nickname) is Some,
        s.user_by_email(text::trimmed(body.text_or_empty("email"@))) is Some ==> sign_up_refusal(
            s,
            body,
            email_valid,
            nickname,
        ) is Some,
{
}

// ── The user ────────────────────────────────────────────────────

/// What a user learns of their own account.
pub fn user_info(state: &AppState, auth: &AuthContext) -> (r: Reply)
    ensures
        match state.user(auth.user_id@) {
            Some(user) => r@ == reply::ok_of("ok"@, JsonView::Object(user_fields(user))),
            None => r@ == access::unauthorized_of(),
        },
{
    match state.find_user(auth.user_id.as_str()) {
        Some(user) => reply::ok("ok", json::object(user_entries(user))),
        None => access::unauthorized(),
    }
}

/// The present and the new password of a request; what is missing is empty.
pub fn password_fields<'a>(body: &'a Json) -> (r: (&'a str, &'a str))
    ensures
        r.0@ == body@.text_or_empty("current_password"@),
        r.1@ == body@.text_or_empty("new_password"@),
{
    (body.text_or_empty("current_password"), body.text_or_empty("new_password"))
}

/// The answer to a change of password.
pub fn change_password(outcome: Result<(), String>) -> (r: Reply)
    ensures
        match outcome {
            Ok(_) => r@ == reply::code_message_of(0, "ok"@),
            Err(reason) => r@ == reply::code_message_of(400, reason@),
        },
{
    match outcome {
        Ok(_) => reply::ret_code_response(0, "ok"),
        Err(reason) => reply::ret_code_response(400, reason.as_str()),
    }
}

// ── Personal API keys ───────────────────────────────────────────

/// A personal API key.
#[derive(Debug)]
pub struct SelfApiKey {
    pub token: String,
    pub create_time: u64,
    pub create_date: String,
}

/// A personal API key, over mathematical values.
pub struct KeyView {
    pub token: Seq<char>,
    pub create_time: u64,
    pub create_date: Seq<char>,
}

impl View for SelfApiKey {
    type V = KeyView;

    open spec fn view(&self) -> KeyView {
        KeyView {
            token: self.token@,
            create_time: self.create_time,
            create_date: self.create_date@,
        }
    }
}

/// The keys of all users, in the order in which they were made.
#[derive(Debug)]
pub struct ApiKeyTable {
    pub rows: Vec<(String, SelfApiKey)>,
}

/// The keys of one user, in order.
pub open spec fn keys_in(rows: Seq<(String, SelfApiKey)>, user: Seq<char>) -> Seq<KeyView>
    decreases rows.len(),
{
    if rows.len() == 0 {
        Seq::empty()
    } else if rows.last().0@ == user {
        keys_in(rows.drop_last(), user).push(rows.last().1@)
    } else {
        keys_in(rows.drop_last(), user)
    }
}

/// The keys without those that carry the token.
pub open spec fn without_token(keys: Seq<KeyView>, token: Seq<char>) -> Seq<KeyView>
    decreases keys.len(),
{
    if keys.len() == 0 {
        Seq::empty()
    } else if keys.last().token == token {
        without_token(keys.drop_last(), token)
    } else {
        without_token(keys.drop_last(), token).push(keys.last())
    }
}

/// A key as it is listed.
pub open spec fn key_json(key: KeyView) -> JsonView {
    JsonView::Object(
        seq![
            ("token"@, JsonView::Str(key.token)),
            ("create_time"@, JsonView::UInt(key.create_time)),
            ("create_date"@, JsonView::Str(key.create_date)),
        ],
    )
}

/// The table of keys that a server starts with.
pub fn self_api_keys() -> (r: ApiKeyTable)
    ensures
        forall|user: Seq<char>| #[trigger] r.keys(user) == Seq::<KeyView>::empty(),
{
    ApiKeyTable { rows: Vec::new() }
}

impl ApiKeyTable {
    /// The keys of one user, in order.
    pub open spec fn keys(&self, user: Seq<char>) -> Seq<KeyView> {
        keys_in(self.rows@, user)
    }

    /// Adds a key.
    pub fn add_key(&mut self, user: &str, key: SelfApiKey)
        ensures
            forall|other: Seq<char>| #[trigger]
                final(self).keys(other) == (if other == user@ {
                    old(self).keys(other).push(key@)
                } else {
                    old(self).keys(other)
                }),
            final(self).keys(user@) == old(self).keys(user@).push(key@),
            forall|other: Seq<char>|
                other != user@ ==> #[trigger] final(self).keys(other) == old(self).keys(other),
    {
        let ghost before = self.rows@;
        self.rows.push((user.to_owned(), key));
        assert(self.rows@.drop_last() =~= before);
    }

    /// Takes a key of the user out of the table.
    pub fn delete_my_api_key(&mut self, auth: &AuthContext, token: &str) -> (r: Reply)
        ensures
            r@ == reply::code_data_of(JsonView::Bool(true)),
            forall|other: Seq<char>| #[trigger]
                final(self).keys(other) == (if other == auth.user_id@ {
                    without_token(old(self).keys(other), token@)
                } else {
                    old(self).keys(other)
                }),
            final(self).keys(auth.user_id@) == without_token(
                old(self).keys(auth.user_id@),
                token@,
            ),
            forall|other: Seq<char>|
                other != auth.user_id@ ==> #[trigger] final(self).keys(other) == old(self).keys(
                    other,
                ),
    {
        let ghost all = self.rows@;
        let user = auth.user_id.as_str();
        let mut kept: Vec<(String, SelfApiKey)> = Vec::new();
        let mut i: usize = 0;
        assert(all.take(0) =~= Seq::<(String, SelfApiKey)>::empty());
        while i < self.rows.len()
            invariant
                i <= self.rows@.len(),
                all == self.rows@,
                user@ == auth.user_id@,
                all == old(self).rows@,
                forall|other: Seq<char>| #[trigger]
                    keys_in(kept@, other) == (if other == user@ {
                        without_token(keys_in(all.take(i as int), other), token@)
                    } else {
                        keys_in(all.take(i as int), other)
                    }),
            decreases self.rows@.len() - i,
        {
            let row = &self.rows[i];
            let ghost before = kept@;
            proof {
                assert(all.take(i + 1).drop_last() =~= all.take(i as int));
                assert(all.take(i + 1).last() == *row);
            }
            if !(text::same(row.0.as_str(), user) && text::same(row.1.token.as_str(), token)) {
                let key = SelfApiKey {
                    token: row.1.token.clone(),
                    create_time: row.1.create_time,
                    create_date: row.1.create_date.clone(),
                };
                kept.push((row.0.clone(), key));
                assert(kept@.drop_last() =~= before);
            }
            proof {
                assert forall|other: Seq<char>| #[trigger]
                    keys_in(kept@, other) == (if other == user@ {
                        without_token(keys_in(all.take(i + 1), other), token@)
                    } else {
                        keys_in(all.take(i + 1), other)
                    }) by {
                    let was = keys_in(all.take(i as int), other);
                    assert(was.push(row.1@).drop_last() =~= was);
                    assert(keys_in(before, other) == (if other == user@ {
                        without_token(was, token@)
                    } else {
                        was
                    }));
                }
            }
            i += 1;
        }
        assert(all.take(i as int) =~= all);
        self.rows = kept;
        reply::code_data(Json::Bool(true))
    }

    /// The keys of the user, as they are listed.
    pub fn list_my_api_keys(&self, auth: &AuthContext) -> (r: Reply)
        ensures
            r@ == reply::code_data_of(
                JsonView::Array(
                    self.keys(auth.user_id@).map_values(|key: KeyView| key_json(key)),
                ),
            ),
    {
        let ghost all = self.rows@;
        let ghost user = auth.user_id@;
        let mut items: Vec<Json> = Vec::new();
        let mut i: usize = 0;
        assert(all.take(0) =~= Seq::<(String, SelfApiKey)>::empty());
        assert(json::item_views(items@) =~= keys_in(all.take(0), user).map_values(
            |key: KeyView| key_json(key),
        ));
        while i < self.rows.len()
            invariant
                i <= self.rows@.len(),
                all == self.rows@,
                user == auth.user_id@,
                json::item_views(items@) == keys_in(all.take(i as int), user).map_values(
                    |key: KeyView| key_json(key),
                ),
            decreases self.rows@.len() - i,
        {
            let row = &self.rows[i];
            let ghost before = json::item_views(items@);
            let ghost was = keys_in(all.take(i as int), user);
            proof {
                assert(all.take(i + 1).drop_last() =~= all.take(i as int));
                assert(all.take(i + 1).last() == *row);
            }
            if text::same(row.0.as_str(), auth.user_id.as_str()) {
                let e = json::with(json::fields(), "token", json::string(row.1.token.as_str()));
                let e = json::with(e, "create_time", Json::UInt(row.1.create_time));
                let e = json::with(
                    e,
                    "create_date",
                    json::string(row.1.create_date.as_str()),
                );
                assert(json::entry_views(e@) =~= key_json(row.1@)->Object_0);
                items.push(json::object(e));
                assert(json::item_views(items@) =~= before.push(key_json(row.1@)));
                assert(was.push(row.1@).map_values(|key: KeyView| key_json(key))
                    =~= was.map_values(|key: KeyView| key_json(key)).push(key_json(row.1@)));
            }
            i += 1;
        }
        assert(all.take(i as int) =~= all);
        reply::code_data(json::array(items))
    }

    /// Makes a key for the user. Which one is left to chance, and when it was made to
    /// the clock.
    pub fn generate_my_api_key(&mut self, auth: &AuthContext) -> (r: Reply)
        ensures
            exists|key: KeyView| #[trigger]
                is_new_key(key) && r@ == key_answer(key.token) && final(self).keys(auth.user_id@)
                    == old(self).keys(auth.user_id@).push(key),
            forall|other: Seq<char>|
                other != auth.user_id@ ==> #[trigger] final(self).keys(other) == old(self).keys(
                    other,
                ),
    {
        let id = clock::fresh_id();
        let token = text::concat("sk-", id.as_str());
        let now: u64 = clock::unix_ms();
        let date = clock::utc_date();
        let ghost key = KeyView { token: token@, create_time: now, create_date: date@ };
        let answer = api_key_reply(token.as_str());
        proof {
            reveal_strlit("sk-");
            assert(token@.skip(3) =~= id@);
            assert(token@.take(3) =~= "sk-"@);
            assert(is_new_key(key));
        }
        self.add_key(
            auth.user_id.as_str(),
            SelfApiKey { token, create_time: now, create_date: date },
        );
        answer
    }
}

/// The key is one that the server makes: `sk-` and an identifier, made at some reading
/// of the clock.
pub open spec fn is_new_key(key: KeyView) -> bool {
    &&& "sk-"@.is_prefix_of(key.token)
    &&& clock::is_id(key.token.skip(3))
    &&& exists|t: SystemTime| key.create_time == #[trigger] clock::reading_at(t)
}

/// The answer that tells a new key.
pub open spec fn key_answer(token: Seq<char>) -> ReplyView {
    reply::code_data_of(JsonView::Object(seq![("api_key"@, JsonView::Str(token))]))
}

/// The answer that tells a new key.
pub fn api_key_reply(token: &str) -> (r: Reply)
    ensures
        r@ == key_answer(token@),
{
    let e = json::with(json::fields(), "api_key", json::string(token));
    assert(json::entry_views(e@) =~= seq![("api_key"@, JsonView::Str(token@))]);
    reply::code_data(json::object(e))
}

proof fn lemma_without_absent(keys: Seq<KeyView>, token: Seq<char>)
    requires
        forall|i: int| 0 <= i < keys.len() ==> (#[trigger] keys[i]).token != token,
    ensures
        without_token(keys, token) == keys,
    decreases keys.len(),
{
    if keys.len() > 0 {
        assert(keys[keys.len() - 1].token != token);
        assert forall|i: int| 0 <= i < keys.drop_last().len() implies (
        #[trigger] keys.drop_last()[i]).token != token by {
            assert(keys[i].token != token);
        }
        lemma_without_absent(keys.drop_last(), token);
        assert(keys.drop_last().push(keys.last()) =~= keys);
    } else {
        assert(keys =~= Seq::<KeyView>::empty());
    }
}

/// Revoking a key that has just been made leaves the keys as they were before it, and
/// no key with a revoked token is left.
pub proof fn revoking_undoes_making(keys: Seq<KeyView>, key: KeyView)
    requires
        forall|i: int| 0 <= i < keys.len() ==> (#[trigger] keys[i]).token != key.token,
    ensures
        without_token(keys.push(key), key.token) == keys,
{
    lemma_without_absent(keys, key.token);
    assert(keys.push(key).drop_last() =~= keys);
}

// ── Components ──────────────────────────────────────────────────

/// The categories that a text names: its parts between commas, trimmed and in lower
/// case, without empty ones.
pub open spec fn category_parts(parts: Seq<Seq<char>>) -> Seq<Seq<char>>
    decreases parts.len(),
{
    if parts.len() == 0 {
        Seq::empty()
    } else {
        let part = text::lowered(text::trimmed(parts.last()));
        if part.len() == 0 {
            category_parts(parts.drop_last())
        } else {
            category_parts(parts.drop_last()).push(part)
        }
    }
}

/// The categories that a query names; none for a blank one.
pub open spec fn categories_named(raw: Option<Seq<char>>) -> Seq<Seq<char>> {
    match text::filled_view(raw) {
        Some(list) => category_parts(text::pieces(list, ',')),
        None => Seq::empty(),
    }
}

/// The first that is not known.
pub open spec fn first_unknown(names: Seq<Seq<char>>, known: Seq<Seq<char>>) -> Option<Seq<char>>
    decreases names.len(),
{
    if names.len() == 0 {
        None
    } else {
        match first_unknown(names.drop_last(), known) {
            Some(name) => Some(name),
            None => if known.contains(names.last()) {
                None
            } else {
                Some(names.last())
            },
        }
    }
}

/// The categories that a query names, where all of them are among the known ones.
pub fn parse_component_categories(raw: Option<&str>, known: &Vec<String>) -> (r: Result<
    Vec<String>,
    String,
>)
    ensures
        ({
            let names = categories_named(text::opt_str_view(raw));
            match first_unknown(names, text::views(known@)) {
                Some(name) => r matches Err(e) && e@ == "unknown category: "@ + name,
                None => r matches Ok(list) && text::views(list@) == names,
            }
        }),
{
    let mut out: Vec<String> = Vec::new();
    assert(text::views(out@) =~= Seq::<Seq<char>>::empty());
    let list = match text::filled(raw) {
        Some(list) => list,
        None => {
            return Ok(out);
        },
    };
    let parts = text::split(list, ',');
    let ghost all = text::views(parts@);
    let ghost know = text::views(known@);
    let ghost names = categories_named(text::opt_str_view(raw));
    let mut i: usize = 0;
    assert(all.take(0) =~= Seq::<Seq<char>>::empty());
    while i < parts.len()
        invariant
            i <= parts@.len(),
            all == text::views(parts@),
            know == text::views(known@),
            names == category_parts(all),
            names == categories_named(text::opt_str_view(raw)),
            text::views(out@) == category_parts(all.take(i as int)),
            first_unknown(category_parts(all.take(i as int)), know) is None,
        decreases parts@.len() - i,
    {
        let ghost before = text::views(out@);
        proof {
            assert(all.take(i + 1).drop_last() =~= all.take(i as int));
            assert(all.take(i + 1).last() == parts@[i as int]@);
        }
        let part = text::to_lower(text::trim(parts[i].as_str()));
        if !part.as_str().is_empty() {
            proof {
                assert(before.push(part@).drop_last() =~= before);
            }
            if !text::listed(known, part.as_str()) {
                proof {
                    lemma_unknown_stays(all, i + 1, know);
                    assert(all.take(all.len() as int) =~= all);
                }
                return Err(text::concat("unknown category: ", part.as_str()));
            }
            out.push(part);
            assert(text::views(out@) =~= before.push(part@));
        }
        i += 1;
    }
    assert(all.take(i as int) =~= all);
    Ok(out)
}

proof fn lemma_unknown_stays(parts: Seq<Seq<char>>, n: int, known: Seq<Seq<char>>)
    requires
        0 <= n <= parts.len(),
        first_unknown(category_parts(parts.take(n)), known) is Some,
    ensures
        first_unknown(category_parts(parts), known) == first_unknown(
            category_parts(parts.take(n)),
            known,
        ),
    decreases parts.len() - n,
{
    if n == parts.len() {
        assert(parts.take(n) =~= parts);
    } else {
        assert(parts.drop_last().take(n) =~= parts.take(n));
        lemma_unknown_stays(parts.drop_last(), n, known);
        let shorter = category_parts(parts.drop_last());
        let part = text::lowered(text::trimmed(parts.last()));
        assert(shorter.push(part).drop_last() =~= shorter);
    }
}

/// The answer to a query for components: what the categories hold, or which of them is
/// unknown.
pub fn component_catalog(outcome: Result<Json, String>) -> (r: Reply)
    ensures
        match outcome {
            Ok(components) => r@ == reply::ok_of("success"@, components@),
            Err(message) => r@ == reply::error_of(400, message@),
        },
{
    match outcome {
        Ok(components) => reply::ok("success", components),
        Err(message) => reply::api_error(400, message.as_str()),
    }
}

// ── Laws ────────────────────────────────────────────────────────

proof fn lemma_account_keys()
    ensures
        "enabled"@ != "algorithm"@,
        "enabled"@ != "encoding"@,
        "enabled"@ != "public_key"@,
        "enabled"@ != "access_token"@,
        "enabled"@ != "user_id"@,
        "algorithm"@ != "encoding"@,
        "algorithm"@ != "public_key"@,
        "algorithm"@ != "access_token"@,
        "algorithm"@ != "user_id"@,
        "encoding"@ != "public_key"@,
        "encoding"@ != "access_token"@,
        "encoding"@ != "user_id"@,
        "public_key"@ != "access_token"@,
        "public_key"@ != "user_id"@,
        "access_token"@ != "user_id"@,
{
    reveal_strlit("enabled");
    reveal_strlit("algorithm");
    reveal_strlit("encoding");
    reveal_strlit("public_key");
    reveal_strlit("access_token");
    reveal_strlit("user_id");
    assert("enabled"@.len() != "algorithm"@.len());
    assert("enabled"@.len() != "encoding"@.len());
    assert("enabled"@.len() != "public_key"@.len());
    assert("enabled"@.len() != "access_token"@.len());
    assert("enabled"@[0] != "user_id"@[0]);
    assert("algorithm"@.len() != "encoding"@.len());
    assert("algorithm"@.len() != "public_key"@.len());
    assert("algorithm"@.len() != "access_token"@.len());
    assert("algorithm"@.len() != "user_id"@.len());
    assert("encoding"@.len() != "public_key"@.len());
    assert("encoding"@.len() != "access_token"@.len());
    assert("encoding"@.len() != "user_id"@.len());
    assert("public_key"@.len() != "access_token"@.len());
    assert("public_key"@.len() != "user_id"@.len());
    assert("access_token"@.len() != "user_id"@.len());
}

proof fn lemma_user_keys()
    ensures
        "id"@ != "nickname"@,
        "id"@ != "email"@,
        "id"@ != "avatar"@,
        "id"@ != "timezone"@,
        "id"@ != "role"@,
        "id"@ != "created_at"@,
        "id"@ != "access_token"@,
        "nickname"@ != "email"@,
        "nickname"@ != "avatar"@,
        "nickname"@ != "timezone"@,
        "nickname"@ != "role"@,
        "nickname"@ != "created_at"@,
        "nickname"@ != "access_token"@,
        "email"@ != "avatar"@,
        "email"@ != "timezone"@,
        "email"@ != "role"@,
        "email"@ != "created_at"@,
        "email"@ != "access_token"@,
        "avatar"@ != "timezone"@,
        "avatar"@ != "role"@,
        "avatar"@ != "created_at"@,
        "avatar"@ != "access_token"@,
        "timezone"@ != "role"@,
        "timezone"@ != "created_at"@,
        "timezone"@ != "access_token"@,
        "role"@ != "created_at"@,
        "role"@ != "access_token"@,
        "created_at"@ != "access_token"@,
{
    reveal_strlit("id");
    reveal_strlit("nickname");
    reveal_strlit("email");
    reveal_strlit("avatar");
    reveal_strlit("timezone");
    reveal_strlit("role");
    reveal_strlit("created_at");
    reveal_strlit("access_token");
    assert("id"@.len() != "nickname"@.len());
    assert("id"@.len() != "email"@.len());
    assert("id"@.len() != "avatar"@.len());
    assert("id"@.len() != "timezone"@.len());
    assert("id"@.len() != "role"@.len());
    assert("id"@.len() != "created_at"@.len());
    assert("id"@.len() != "access_token"@.len());
    assert("nickname"@.len() != "email"@.len());
    assert("nickname"@.len() != "avatar"@.len());
    assert("nickname"@[0] != "timezone"@[0]);
    assert("nickname"@.len() != "role"@.len());
    assert("nickname"@.len() != "created_at"@.len());
    assert("nickname"@.len() != "access_token"@.len());
    assert("email"@.len() != "avatar"@.len());
    assert("email"@.len() != "timezone"@.len());
    assert("email"@.len() != "role"@.len());
    assert("email"@.len() != "created_at"@.len());
    assert("email"@.len() != "access_token"@.len());
    assert("avatar"@.len() != "timezone"@.len());
    assert("avatar"@.len() != "role"@.len());
    assert("avatar"@.len() != "created_at"@.len());
    assert("avatar"@.len() != "access_token"@.len());
    assert("timezone"@.len() != "role"@.len());
    assert("timezone"@.len() != "created_at"@.len());
    assert("timezone"@.len() != "access_token"@.len());
    assert("role"@.len() != "created_at"@.len());
    assert("role"@.len() != "access_token"@.len());
    assert("created_at"@.len() != "access_token"@.len());
}

proof fn lemma_key_keys()
    ensures
        "token"@ != "create_time"@,
        "token"@ != "create_date"@,
        "token"@ != "api_key"@,
        "create_time"@ != "create_date"@,
        "create_time"@ != "api_key"@,
        "create_date"@ != "api_key"@,
{
    reveal_strlit("token");
    reveal_strlit("create_time");
    reveal_strlit("create_date");
    reveal_strlit("api_key");
    assert("token"@.len() != "create_time"@.len());
    assert("token"@.len() != "create_date"@.len());
    assert("token"@.len() != "api_key"@.len());
    assert("create_time"@[7] != "create_date"@[7]);
    assert("create_time"@.len() != "api_key"@.len());
    assert("create_date"@.len() != "api_key"@.len());
}

/// The key for passwords is told where there is one, with how it is used.
pub proof fn keys_for_passwords_are_told(key: Option<&str>, r: Reply)
    requires
        call_ensures(password_public_key, (key,), r),
    ensures
        reply::tells(r@, 200, 0, "ok"@),
        r@.body.get("data"@) matches Some(data) && data.get("enabled"@) == Some(
            JsonView::Bool(key is Some),
        ) && data.text("algorithm"@) == Some("RSAES-PKCS1-v1_5"@) && data.text("encoding"@) == Some(
            "base64(RSA(base64(UTF-8)))"@,
        ) && (key matches Some(k) ==> data.text("public_key"@) == Some(k@)) && (key is None
            ==> data.get("public_key"@) == Some(JsonView::Null)),
{
    let data = JsonView::Object(public_key_fields(text::opt_str_view(key)));
    reply::answers_tell_what_they_were_given(200, 0, "ok"@, data);
    lemma_account_keys();
    reveal_with_fuel(json::entry, 5);
    assert(data.get("enabled"@) == Some(JsonView::Bool(key is Some)));
}

/// A request to sign in is read as it tells, and what it does not tell is empty.
pub proof fn sign_ins_are_read_as_they_tell(
    body: Json,
    fields: (&'static str, &'static str),
    change: (&'static str, &'static str),
)
    requires
        call_ensures(login_fields, (&body,), fields),
        call_ensures(password_fields, (&body,), change),
    ensures
        body@.text("email"@) matches Some(s) ==> fields.0@ == s,
        body@.text("email"@) is None ==> fields.0@.len() == 0,
        body@.text("password"@) matches Some(s) ==> fields.1@ == s,
        body@.text("password"@) is None ==> fields.1@.len() == 0,
        body@.text("current_password"@) matches Some(s) ==> change.0@ == s,
        body@.text("current_password"@) is None ==> change.0@.len() == 0,
        body@.text("new_password"@) matches Some(s) ==> change.1@ == s,
        body@.text("new_password"@) is None ==> change.1@.len() == 0,
{
}

/// Whoever signs in is told the session and their own id; whoever does not learns only
/// that.
pub proof fn sign_ins_tell_the_session(
    state: AppState,
    email: &str,
    token: Option<&str>,
    r: Reply,
)
    requires
        call_ensures(login, (&state, email, token), r),
    ensures
        token is None ==> reply::tells(r@, 401, 401, "Invalid credentials"@) && r@.body.get("data"@)
            == Some(JsonView::Null),
        token matches Some(t) ==> reply::tells(r@, 200, 0, "ok"@) && (r@.body.get(
            "data"@,
        ) matches Some(data) && data.text("access_token"@) == Some(t@) && match state.user_by_email(
            email@,
        ) {
            Some(user) => data.text("user_id"@) == Some(user.id@),
            None => data.get("user_id"@) == Some(JsonView::Null),
        }),
{
    lemma_account_keys();
    reveal_with_fuel(json::entry, 3);
    match token {
        Some(t) => {
            let data = JsonView::Object(
                seq![
                    ("access_token"@, JsonView::Str(t@)),
                    (
                        "user_id"@,
                        match state.user_by_email(email@) {
                            Some(user) => JsonView::Str(user.id@),
                            None => JsonView::Null,
                        },
                    ),
                ],
            );
            reply::answers_tell_what_they_were_given(200, 0, "ok"@, data);
            assert(data.text("access_token"@) == Some(t@));
        },
        None => {
            reply::answers_tell_what_they_were_given(
                401,
                401,
                "Invalid credentials"@,
                JsonView::Null,
            );
        },
    }
}

/// A request that lacks an argument is told which, in order.
pub proof fn missing_arguments_are_told(
    state: AppState,
    body: Json,
    email_valid: bool,
    nickname: Result<String, String>,
    r: Result<Registration, Reply>,
    named: bool,
    addressed: bool,
    locked: bool,
)
    requires
        call_ensures(user_add, (&state, &body, email_valid, nickname), r),
        named == body@.get("nickname"@) is Some,
        addressed == body@.get("email"@) is Some,
        locked == body@.get("password"@) is Some,
    ensures
        r is Ok ==> named && addressed && locked,
        !named && addressed && locked ==> (r matches Err(a) && reply::tells(
            a@,
            200,
            101,
            "required argument are missing: "@ + "nickname"@ + "; "@,
        )),
        named && !addressed && locked ==> (r matches Err(a) && reply::tells(
            a@,
            200,
            101,
            "required argument are missing: "@ + "email"@ + "; "@,
        )),
        named && addressed && !locked ==> (r matches Err(a) && reply::tells(
            a@,
            200,
            101,
            "required argument are missing: "@ + "password"@ + "; "@,
        )),
        !named && !addressed && locked ==> (r matches Err(a) && reply::tells(
            a@,
            200,
            101,
            "required argument are missing: "@ + ("nickname"@ + ","@ + "email"@) + "; "@,
        )),
        !named && addressed && !locked ==> (r matches Err(a) && reply::tells(
            a@,
            200,
            101,
            "required argument are missing: "@ + ("nickname"@ + ","@ + "password"@) + "; "@,
        )),
        named && !addressed && !locked ==> (r matches Err(a) && reply::tells(
            a@,
            200,
            101,
            "required argument are missing: "@ + ("email"@ + ","@ + "password"@) + "; "@,
        )),
        !named && !addressed && !locked ==> (r matches Err(a) && reply::tells(
            a@,
            200,
            101,
            "required argument are missing: "@ + ("nickname"@ + ","@ + "email"@ + ","@
                + "password"@) + "; "@,
        )),
{
    let missing = missing_of(body@);
    let one = |s: Seq<char>| seq![s];
    text::joining_puts_parts_in_order(Seq::empty(), "nickname"@, ","@);
    text::joining_puts_parts_in_order(Seq::empty(), "email"@, ","@);
    text::joining_puts_parts_in_order(Seq::empty(), "password"@, ","@);
    text::joining_puts_parts_in_order(one("nickname"@), "email"@, ","@);
    text::joining_puts_parts_in_order(one("nickname"@), "password"@, ","@);
    text::joining_puts_parts_in_order(one("email"@), "password"@, ","@);
    text::joining_puts_parts_in_order(one("nickname"@).push("email"@), "password"@, ","@);
    assert(Seq::<Seq<char>>::empty().push("email"@) =~= one("email"@));
    assert(Seq::<Seq<char>>::empty().push("password"@) =~= one("password"@));
    reply::answers_tell_what_they_were_given(
        200,
        101,
        "required argument are missing: "@ + text::joined(missing, ","@) + "; "@,
        JsonView::Null,
    );
}

/// With all its arguments a request signs somebody up as it tells, unless signing up is
/// switched off, the address is none, somebody has it already, or the nickname is none;
/// the first of these is told.
pub proof fn sign_ups_are_refused_for_a_reason(
    state: AppState,
    body: Json,
    email_valid: bool,
    nickname: Result<String, String>,
    r: Result<Registration, Reply>,
    email: Seq<char>,
    taken: bool,
)
    requires
        call_ensures(user_add, (&state, &body, email_valid, nickname), r),
        body@.get("nickname"@) is Some,
        body@.get("email"@) is Some,
        body@.get("password"@) is Some,
        body@.text("email"@) matches Some(e) ==> email == text::trimmed(e),
        body@.text("email"@) is None ==> email.len() == 0,
        taken == state.user_by_email(email) is Some,
    ensures
        state.register_enabled == 0 ==> (r matches Err(a) && reply::tells(
            a@,
            200,
            103,
            "User registration is disabled!"@,
        )),
        state.register_enabled != 0 && !email_valid ==> (r matches Err(a) && reply::tells(
            a@,
            200,
            103,
            "Invalid email address: "@ + email + "!"@,
        )),
        state.register_enabled != 0 && email_valid && taken ==> (r matches Err(a) && reply::tells(
            a@,
            200,
            103,
            "Email: "@ + email + " has already registered!"@,
        )),
        state.register_enabled != 0 && email_valid && !taken ==> match nickname {
            Err(reason) => r matches Err(a) && reply::tells(a@, 200, 101, reason@),
            Ok(name) => r matches Ok(who) && who.nickname@ == name@ && who.email@ == email && (
            body@.text("password"@) matches Some(p) ==> who.password@ == p),
        },
{
    text::trimming_keeps_tight_texts(Seq::empty());
    assert(email == text::trimmed(body@.text_or_empty("email"@)));
    assert(missing_of(body@) =~= Seq::empty());
    reply::answers_tell_what_they_were_given(
        200,
        103,
        "User registration is disabled!"@,
        JsonView::Null,
    );
    reply::answers_tell_what_they_were_given(
        200,
        103,
        "Invalid email address: "@ + email + "!"@,
        JsonView::Null,
    );
    reply::answers_tell_what_they_were_given(
        200,
        103,
        "Email: "@ + email + " has already registered!"@,
        JsonView::Null,
    );
    match nickname {
        Err(reason) => reply::answers_tell_what_they_were_given(200, 101, reason@, JsonView::Null),
        Ok(_) => {},
    }
}

/// The data tell the account.
pub open spec fn tells_account(data: JsonView, user: UserRecord) -> bool {
    &&& data.text("id"@) == Some(user.id@)
    &&& data.text("nickname"@) == Some(user.nickname@)
    &&& data.text("email"@) == Some(user.email@)
    &&& data.get("avatar"@) == Some(user.avatar@)
    &&& data.get("timezone"@) == Some(user.timezone@)
    &&& data.get("role"@) == Some(user.role@)
    &&& data.get("created_at"@) == Some(user.created_at@)
    &&& data.get("password"@) is None
}

proof fn lemma_password_is_no_key()
    ensures
        "password"@ != "id"@,
        "password"@ != "nickname"@,
        "password"@ != "email"@,
        "password"@ != "avatar"@,
        "password"@ != "timezone"@,
        "password"@ != "role"@,
        "password"@ != "created_at"@,
        "password"@ != "access_token"@,
{
    reveal_strlit("password");
    reveal_strlit("id");
    reveal_strlit("nickname");
    reveal_strlit("email");
    reveal_strlit("avatar");
    reveal_strlit("timezone");
    reveal_strlit("role");
    reveal_strlit("created_at");
    reveal_strlit("access_token");
    assert("password"@[0] != "nickname"@[0]);
    assert("password"@[0] != "timezone"@[0]);
    assert("password"@.len() != "id"@.len());
    assert("password"@.len() != "email"@.len());
    assert("password"@.len() != "avatar"@.len());
    assert("password"@.len() != "role"@.len());
    assert("password"@.len() != "created_at"@.len());
    assert("password"@.len() != "access_token"@.len());
}

proof fn lemma_account_told(user: UserRecord)
    ensures
        tells_account(JsonView::Object(user_fields(user)), user),
{
    lemma_user_keys();
    lemma_password_is_no_key();
    let fields = user_fields(user);
    reveal_with_fuel(json::entry, 8);
    assert(fields.len() == 7);
}

proof fn lemma_account_extended(user: UserRecord, session: JsonView)
    ensures
        tells_account(
            JsonView::Object(user_fields(user).push(("access_token"@, session))),
            user,
        ),
        JsonView::Object(user_fields(user).push(("access_token"@, session))).get("access_token"@)
            == Some(session),
{
    lemma_account_told(user);
    lemma_user_keys();
    lemma_password_is_no_key();
    let fields = user_fields(user).push(("access_token"@, session));
    assert(fields.drop_last() =~= user_fields(user));
}

/// An account is told to whoever has just signed up, with the session, and to its own
/// user; its password never is. A user without an account is not authorized.
pub proof fn accounts_are_told_to_their_users(
    user: UserRecord,
    token: Option<&str>,
    welcomed: Reply,
    state: AppState,
    auth: AuthContext,
    info: Reply,
    refusal: Reply,
)
    requires
        call_ensures(welcome, (&user, token), welcomed),
        call_ensures(user_info, (&state, &auth), info),
        call_ensures(access::unauthorized, (), refusal),
    ensures
        reply::tells(welcomed@, 200, 0, user.nickname@ + ", welcome aboard!"@),
        welcomed@.body.get("data"@) matches Some(data) && tells_account(data, user) && (
        token matches Some(t) ==> data.text("access_token"@) == Some(t@)) && (token is None
            ==> data.get("access_token"@) == Some(JsonView::Null)),
        state.user(auth.user_id@) matches Some(own) ==> reply::tells(info@, 200, 0, "ok"@) && (
        info@.body.get("data"@) matches Some(data) && tells_account(data, own)),
        state.user(auth.user_id@) is None ==> info@ == refusal@,
{
    let session = match token {
        Some(t) => JsonView::Str(t@),
        None => JsonView::Null,
    };
    lemma_account_extended(user, session);
    reply::answers_tell_what_they_were_given(
        200,
        0,
        user.nickname@ + ", welcome aboard!"@,
        JsonView::Object(user_fields(user).push(("access_token"@, session))),
    );
    match state.user(auth.user_id@) {
        Some(own) => {
            lemma_account_told(own);
            reply::answers_tell_what_they_were_given(
                200,
                0,
                "ok"@,
                JsonView::Object(user_fields(own)),
            );
        },
        None => {},
    }
}

/// What came of a registration, a change of password or a query for components is told.
pub proof fn outcomes_of_accounts_are_told(
    message: &str,
    failed: Reply,
    changed: Result<(), String>,
    change_answer: Reply,
    components: Result<Json, String>,
    catalog: Reply,
)
    requires
        call_ensures(registration_failed, (message,), failed),
        call_ensures(change_password, (changed,), change_answer),
        call_ensures(component_catalog, (components,), catalog),
    ensures
        reply::tells(failed@, 200, 100, message@),
        changed is Ok ==> reply::tells(change_answer@, 200, 0, "ok"@),
        changed matches Err(reason) ==> reply::tells(change_answer@, 200, 400, reason@),
        components matches Ok(c) ==> reply::tells(catalog@, 200, 0, "success"@) && catalog@.body.get(
            "data"@,
        ) == Some(c@),
        components matches Err(reason) ==> reply::tells(catalog@, 400, 400, reason@),
{
    reply::answers_tell_what_they_were_given(200, 100, message@, JsonView::Null);
    reply::answers_tell_what_they_were_given(200, 0, "ok"@, JsonView::Null);
    match changed {
        Ok(_) => {},
        Err(e) => reply::answers_tell_what_they_were_given(200, 400, e@, JsonView::Null),
    }
    match components {
        Ok(c) => reply::answers_tell_what_they_were_given(200, 0, "success"@, c@),
        Err(e) => reply::answers_tell_what_they_were_given(400, 400, e@, JsonView::Null),
    }
}

proof fn lemma_without_token(keys: Seq<KeyView>, token: Seq<char>)
    ensures
        without_token(keys, token) == keys.filter(|k: KeyView| k.token != token),
    decreases keys.len(),
{
    reveal(Seq::filter);
    if keys.len() > 0 {
        lemma_without_token(keys.drop_last(), token);
    }
}

/// A key that is added is the last of its user's keys, and nobody else's keys change.
pub proof fn keys_are_added_to_their_user(
    table: &mut ApiKeyTable,
    user: &str,
    key: SelfApiKey,
    r: (),
    other: Seq<char>,
)
    requires
        call_ensures(ApiKeyTable::add_key, (table, user, key), r),
    ensures
        final(table).keys(user@) == old(table).keys(user@).push(key@),
        other != user@ ==> final(table).keys(other) == old(table).keys(other),
{
}

/// Exactly the keys with the token go, of this user alone, and the answer says so.
pub proof fn keys_are_deleted_by_their_token(
    table: &mut ApiKeyTable,
    auth: AuthContext,
    token: &str,
    revoked: Seq<char>,
    r: Reply,
    other: Seq<char>,
)
    requires
        call_ensures(ApiKeyTable::delete_my_api_key, (table, &auth, token), r),
        revoked == token@,
    ensures
        r.status == 200,
        r@.body.get("code"@) == Some(JsonView::UInt(0)),
        r@.body.get("data"@) == Some(JsonView::Bool(true)),
        final(table).keys(auth.user_id@) == old(table).keys(auth.user_id@).filter(
            |k: KeyView| k.token != revoked,
        ),
        other != auth.user_id@ ==> final(table).keys(other) == old(table).keys(other),
{
    lemma_without_token(old(table).keys(auth.user_id@), revoked);
    reply::answers_tell_what_they_were_given(200, 0, ""@, JsonView::Bool(true));
}

/// A user is listed all of their keys and nobody else's, in order, each with its token
/// and when it was made. A table starts with none.
pub proof fn keys_are_listed_to_their_user(
    fresh: ApiKeyTable,
    table: ApiKeyTable,
    auth: AuthContext,
    r: Reply,
    i: int,
)
    requires
        call_ensures(self_api_keys, (), fresh),
        call_ensures(ApiKeyTable::list_my_api_keys, (&table, &auth), r),
    ensures
        fresh.keys(auth.user_id@).len() == 0,
        r.status == 200,
        r@.body.get("code"@) == Some(JsonView::UInt(0)),
        r@.body.get("data"@) matches Some(JsonView::Array(rows)) && rows.len() == table.keys(
            auth.user_id@,
        ).len() && (0 <= i < rows.len() ==> {
            let key = table.keys(auth.user_id@)[i];
            &&& rows[i].text("token"@) == Some(key.token)
            &&& rows[i].get("create_time"@) == Some(JsonView::UInt(key.create_time))
            &&& rows[i].text("create_date"@) == Some(key.create_date)
        }),
{
    lemma_key_keys();
    reveal_with_fuel(json::entry, 4);
    let keys = table.keys(auth.user_id@);
    let rows = keys.map_values(|key: KeyView| key_json(key));
    reply::answers_tell_what_they_were_given(200, 0, ""@, JsonView::Array(rows));
    if 0 <= i < rows.len() {
        assert(rows[i] == key_json(keys[i]));
        assert(rows[i].text("token"@) == Some(keys[i].token));
    }
}

proof fn lemma_keys_in(rows: Seq<(String, SelfApiKey)>, user: Seq<char>)
    ensures
        keys_in(rows, user) == rows.filter(
            |row: (String, SelfApiKey)| row.0@ == user,
        ).map_values(|row: (String, SelfApiKey)| row.1@),
    decreases rows.len(),
{
    let p = |row: (String, SelfApiKey)| row.0@ == user;
    let f = |row: (String, SelfApiKey)| row.1@;
    reveal(Seq::filter);
    if rows.len() > 0 {
        lemma_keys_in(rows.drop_last(), user);
        let before = rows.drop_last().filter(p);
        assert(before.push(rows.last()).map_values(f) =~= before.map_values(f).push(
            rows.last().1@,
        ));
    } else {
        assert(rows.filter(p).map_values(f) =~= Seq::<KeyView>::empty());
    }
}

/// The keys of a user are the rows of the table that carry their id, in order.
pub proof fn keys_are_rows_of_the_table(table: ApiKeyTable, user: Seq<char>)
    ensures
        table.keys(user) == table.rows@.filter(
            |row: (String, SelfApiKey)| row.0@ == user,
        ).map_values(|row: (String, SelfApiKey)| row.1@),
{
    lemma_keys_in(table.rows@, user);
}

/// A key that is made is told, and is the last of its user's keys: `sk-` and an
/// identifier, 39 characters in all. Nobody else's keys change.
pub proof fn keys_that_are_made_are_told(
    table: &mut ApiKeyTable,
    auth: AuthContext,
    r: Reply,
    other: Seq<char>,
)
    requires
        call_ensures(ApiKeyTable::generate_my_api_key, (table, &auth), r),
    ensures
        final(table).keys(auth.user_id@).len() == old(table).keys(auth.user_id@).len() + 1,
        final(table).keys(auth.user_id@).drop_last() == old(table).keys(auth.user_id@),
        ({
            let key = final(table).keys(auth.user_id@).last();
            &&& key.token.len() == 39
            &&& key.token.take(3) == seq!['s', 'k', '-']
            &&& clock::is_id(key.token.skip(3))
            &&& r.status == 200
            &&& r@.body.get("code"@) == Some(JsonView::UInt(0))
            &&& r@.body.get("data"@) matches Some(data) && data.text("api_key"@) == Some(key.token)
        }),
        other != auth.user_id@ ==> final(table).keys(other) == old(table).keys(other),
{
    reveal_strlit("sk-");
    reveal_with_fuel(json::entry, 2);
    let key = choose|key: KeyView| #[trigger]
        is_new_key(key) && r@ == key_answer(key.token) && final(table).keys(auth.user_id@) == old(
            table,
        ).keys(auth.user_id@).push(key);
    assert(final(table).keys(auth.user_id@).last() == key);
    assert(old(table).keys(auth.user_id@).push(key).drop_last() =~= old(table).keys(auth.user_id@));
    assert("sk-"@ =~= seq!['s', 'k', '-']);
    assert(key.token.take(3) =~= "sk-"@);
    let data = JsonView::Object(seq![("api_key"@, JsonView::Str(key.token))]);
    reply::answers_tell_what_they_were_given(200, 0, ""@, data);
    assert(data.text("api_key"@) == Some(key.token));
}

proof fn lemma_category_parts(parts: Seq<Seq<char>>)
    ensures
        category_parts(parts) == parts.map_values(
            |part: Seq<char>| text::lowered(text::trimmed(part)),
        ).filter(|part: Seq<char>| part.len() > 0),
    decreases parts.len(),
{
    let f = |part: Seq<char>| text::lowered(text::trimmed(part));
    let p = |part: Seq<char>| part.len() > 0;
    reveal(Seq::filter);
    if parts.len() > 0 {
        lemma_category_parts(parts.drop_last());
        assert(parts.map_values(f).drop_last() =~= parts.drop_last().map_values(f));
        assert(parts.map_values(f).last() == f(parts.last()));
    } else {
        assert(parts.map_values(f) =~= Seq::<Seq<char>>::empty());
        assert(parts.map_values(f).filter(p) =~= Seq::<Seq<char>>::empty());
    }
}

proof fn lemma_first_unknown(names: Seq<Seq<char>>, known: Seq<Seq<char>>, i: int)
    ensures
        (forall|k: int| 0 <= k < names.len() ==> known.contains(#[trigger] names[k])) ==> first_unknown(
            names,
            known,
        ) is None,
        0 <= i < names.len() && !known.contains(names[i]) && (forall|k: int|
            0 <= k < i ==> known.contains(#[trigger] names[k])) ==> first_unknown(names, known)
            == Some(names[i]),
    decreases names.len(),
{
    if names.len() > 0 {
        let rest = names.drop_last();
        lemma_first_unknown(rest, known, i);
        if forall|k: int| 0 <= k < names.len() ==> known.contains(#[trigger] names[k]) {
            assert forall|k: int| 0 <= k < rest.len() implies known.contains(#[trigger] rest[k]) by {
                assert(rest[k] == names[k]);
            }
            assert(known.contains(names[names.len() - 1]));
        }
        if 0 <= i < names.len() && !known.contains(names[i]) && (forall|k: int|
            0 <= k < i ==> known.contains(#[trigger] names[k])) {
            assert forall|k: int| 0 <= k < i && k < rest.len() implies known.contains(
                #[trigger] rest[k],
            ) by {
                assert(rest[k] == names[k]);
            }
            if i < rest.len() {
                assert(rest[i] == names[i]);
            } else {
                assert forall|k: int| 0 <= k < rest.len() implies known.contains(
                    #[trigger] rest[k],
                ) by {
                    assert(rest[k] == names[k]);
                }
                lemma_first_unknown(rest, known, 0);
                assert(names.last() == names[i]);
            }
        }
    }
}

/// The categories of a query are its parts between commas, trimmed, in lower case and
/// without empty ones. Where all of them are known they come out in order; the first that
/// is not is told. A query without any names none.
pub proof fn categories_are_named_between_commas(
    raw: Option<&str>,
    known: Vec<String>,
    r: Result<Vec<String>, String>,
    names: Seq<Seq<char>>,
    i: int,
)
    requires
        call_ensures(parse_component_categories, (raw, &known), r),
        raw matches Some(s) ==> names == text::pieces(text::trimmed(s@), ',').map_values(
            |part: Seq<char>| text::lowered(text::trimmed(part)),
        ).filter(|part: Seq<char>| part.len() > 0),
    ensures
        raw is None || text::trimmed(raw->Some_0@).len() == 0 ==> (r matches Ok(list) && list@.len()
            == 0),
        raw is Some && text::trimmed(raw->Some_0@).len() > 0 && (forall|k: int|
            0 <= k < names.len() ==> text::views(known@).contains(#[trigger] names[k])) ==> (
        r matches Ok(list) && text::views(list@) == names),
        raw is Some && text::trimmed(raw->Some_0@).len() > 0 && 0 <= i < names.len() && !text::views(
            known@,
        ).contains(names[i]) && (forall|k: int|
            0 <= k < i ==> text::views(known@).contains(#[trigger] names[k])) ==> (
        r matches Err(e) && e@ == "unknown category: "@ + names[i]),
{
    let all = text::views(known@);
    if raw is Some && text::trimmed(raw->Some_0@).len() > 0 {
        lemma_category_parts(text::pieces(text::trimmed(raw->Some_0@), ','));
        lemma_first_unknown(names, all, i);
    } else {
        let none: Seq<Seq<char>> = Seq::empty();
        lemma_first_unknown(none, all, 0);
        assert(r is Ok);
        assert(text::views(r->Ok_0@).len() == r->Ok_0@.len());
    }
}

} // verus!
