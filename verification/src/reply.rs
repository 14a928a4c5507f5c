//! Answers to requests: a status and a body.

use crate::json;
use crate::json::{Json, JsonView};
use vstd::prelude::*;

verus! {

/// The usual shape of an answer's body.
#[derive(Debug)]
pub struct ApiResponse {
    pub code: i32,
    pub message: String,
    pub data: Option<Json>,
}

/// What is sent back for a request.
#[derive(Debug)]
pub struct Reply {
    pub status: u16,
    pub body: Json,
}

/// What is sent back, over mathematical values.
pub struct ReplyView {
    pub status: u16,
    pub body: JsonView,
}

impl View for Reply {
    type V = ReplyView;

    open spec fn view(&self) -> ReplyView {
        ReplyView { status: self.status, body: self.body@ }
    }
}

/// The JSON number of a code.
pub open spec fn code_number(code: i32) -> JsonView {
    if code >= 0 {
        JsonView::UInt(code as u64)
    } else {
        JsonView::NegInt(code as i64)
    }
}

/// The body with `code`, `message` and `data`, where missing data is `null`.
pub open spec fn body_of(code: i32, message: Seq<char>, data: Option<JsonView>) -> JsonView {
    JsonView::Object(
        seq![
            ("code"@, code_number(code)),
            ("message"@, JsonView::Str(message)),
            (
                "data"@,
                match data {
                    Some(d) => d,
                    None => JsonView::Null,
                },
            ),
        ],
    )
}

/// The answer with that body.
pub open spec fn reply_of(
    status: u16,
    code: i32,
    message: Seq<char>,
    data: Option<JsonView>,
) -> ReplyView {
    ReplyView { status, body: body_of(code, message, data) }
}

/// A success with data.
pub open spec fn ok_of(message: Seq<char>, data: JsonView) -> ReplyView {
    reply_of(200, 0, message, Some(data))
}

/// An error answer repeats its status as its code and carries no data.
pub open spec fn error_of(status: u16, message: Seq<char>) -> ReplyView {
    reply_of(status, status as i32, message, None)
}

/// The body with `code` and `message` alone, sent as a success.
pub open spec fn code_message_of(code: i32, message: Seq<char>) -> ReplyView {
    ReplyView {
        status: 200,
        body: JsonView::Object(
            seq![("code"@, code_number(code)), ("message"@, JsonView::Str(message))],
        ),
    }
}

/// The body with a zero `code` and `data` alone.
pub open spec fn code_data_of(data: JsonView) -> ReplyView {
    ReplyView {
        status: 200,
        body: JsonView::Object(seq![("code"@, code_number(0)), ("data"@, data)]),
    }
}

fn number(code: i32) -> (r: Json)
    ensures
        r@ == code_number(code),
{
    if code >= 0 {
        Json::UInt(code as u64)
    } else {
        Json::NegInt(code as i64)
    }
}

impl ApiResponse {
    /// The answer with this body.
    pub fn with_status(self, status: u16) -> (r: Reply)
        ensures
            r@ == reply_of(status, self.code, self.message@, json::opt_json(self.data)),
    {
        let data = match self.data {
            Some(d) => d,
            None => Json::Null,
        };
        let entries = json::with(json::fields(), "code", number(self.code));
        let entries = json::with(entries, "message", Json::Str(self.message));
        let entries = json::with(entries, "data", data);
        assert(json::entry_views(entries@) =~= body_of(
            self.code,
            self.message@,
            json::opt_json(self.data),
        )->Object_0);
        Reply { status, body: json::object(entries) }
    }
}

/// A success with data.
pub fn ok(message: &str, data: Json) -> (r: Reply)
    ensures
        r@ == ok_of(message@, data@),
{
    ApiResponse { code: 0, message: message.to_owned(), data: Some(data) }.with_status(200)
}

/// An answer without data.
pub fn plain(status: u16, code: i32, message: &str) -> (r: Reply)
    ensures
        r@ == reply_of(status, code, message@, None),
{
    ApiResponse { code, message: message.to_owned(), data: None }.with_status(status)
}

/// An error answer repeats its status as its code and carries no data.
pub fn api_error(status: u16, message: &str) -> (r: Reply)
    ensures
        r@ == error_of(status, message@),
{
    plain(status, status as i32, message)
}

/// A failure that is told by its code alone: the status is that of a success, and
/// there is no data.
pub fn ret_code_response(code: i32, message: &str) -> (r: Reply)
    ensures
        r@ == code_message_of(code, message@),
{
    let entries = json::with(json::fields(), "code", number(code));
    let entries = json::with(entries, "message", json::string(message));
    assert(json::entry_views(entries@) =~= code_message_of(code, message@).body->Object_0);
    Reply { status: 200, body: json::object(entries) }
}

/// A success that carries its data without a message.
pub fn code_data(data: Json) -> (r: Reply)
    ensures
        r@ == code_data_of(data@),
{
    let entries = json::with(json::fields(), "code", number(0));
    let entries = json::with(entries, "data", data);
    assert(json::entry_views(entries@) =~= code_data_of(data@).body->Object_0);
    Reply { status: 200, body: json::object(entries) }
}

/// A client tells an error by the code in the body, which agrees with the status;
/// only a success has the code zero. A failure that is told by its code alone carries
/// no data at all.
pub proof fn errors_are_never_taken_for_success(
    status: u16,
    code: i32,
    message: Seq<char>,
    data: JsonView,
)
    requires
        status != 0,
    ensures
        code_message_of(code, message).body.get("code"@) == Some(code_number(code)),
        code_message_of(code, message).body.get("data"@) is None,
        code_data_of(data).body.get("code"@) == Some(JsonView::UInt(0)),
        code_data_of(data).body.get("data"@) == Some(data),
        error_of(status, message).body.get("code"@) == Some(JsonView::UInt(status as u64)),
        error_of(status, message).body.get("data"@) == Some(JsonView::Null),
        ok_of(message, data).body.get("code"@) == Some(JsonView::UInt(0)),
        ok_of(message, data).body.get("data"@) == Some(data),
{
    reveal_strlit("code");
    reveal_strlit("message");
    reveal_strlit("data");
    assert("code"@.len() == 4 && "data"@.len() == 4 && "message"@.len() == 7);
    assert("code"@[0] != "data"@[0]);
    reveal_with_fuel(json::entry, 4);
}

/// The answer has the status, and its body tells the code and the message.
pub open spec fn tells(answer: ReplyView, status: u16, code: i32, message: Seq<char>) -> bool {
    &&& answer.status == status
    &&& answer.body.get("code"@) == Some(
        if code >= 0 {
            JsonView::UInt(code as u64)
        } else {
            JsonView::NegInt(code as i64)
        },
    )
    &&& answer.body.get("message"@) == Some(JsonView::Str(message))
}

proof fn lemma_keys_differ()
    ensures
        "code"@ != "message"@,
        "code"@ != "data"@,
        "message"@ != "data"@,
{
    reveal_strlit("code");
    reveal_strlit("message");
    reveal_strlit("data");
    assert("code"@[0] != "data"@[0]);
    assert("message"@.len() != "data"@.len());
    assert("message"@.len() != "code"@.len());
}

/// An answer tells its status, its code, its message and its data, each under its own
/// key.
pub proof fn answers_tell_what_they_were_given(
    status: u16,
    code: i32,
    message: Seq<char>,
    data: JsonView,
)
    ensures
        tells(reply_of(status, code, message, None), status, code, message),
        reply_of(status, code, message, None).body.get("data"@) == Some(JsonView::Null),
        tells(reply_of(status, code, message, Some(data)), status, code, message),
        reply_of(status, code, message, Some(data)).body.get("data"@) == Some(data),
        tells(ok_of(message, data), 200, 0, message),
        ok_of(message, data).body.get("data"@) == Some(data),
        tells(error_of(status, message), status, status as i32, message),
        tells(code_message_of(code, message), 200, code, message),
        code_data_of(data).status == 200,
        code_data_of(data).body.get("code"@) == Some(JsonView::UInt(0)),
        code_data_of(data).body.get("data"@) == Some(data),
{
    lemma_keys_differ();
    reveal_with_fuel(json::entry, 4);
}

/// What the handlers answer with is what they were given.
pub proof fn handlers_answer_what_they_were_given(
    status: u16,
    code: i32,
    message: &str,
    data: Json,
    good: Reply,
    bare: Reply,
    error: Reply,
    coded: Reply,
    silent: Reply,
)
    requires
        call_ensures(ok, (message, data), good),
        call_ensures(plain, (status, code, message), bare),
        call_ensures(api_error, (status, message), error),
        call_ensures(ret_code_response, (code, message), coded),
        call_ensures(code_data, (data,), silent),
    ensures
        tells(good@, 200, 0, message@),
        good@.body.get("data"@) == Some(data@),
        tells(bare@, status, code, message@),
        tells(error@, status, status as i32, message@),
        error@.body.get("data"@) == Some(JsonView::Null),
        tells(coded@, 200, code, message@),
        coded@.body.get("data"@) is None,
        silent.status == 200,
        silent@.body.get("code"@) == Some(JsonView::UInt(0)),
        silent@.body.get("data"@) == Some(data@),
{
    answers_tell_what_they_were_given(status, code, message@, data@);
    lemma_keys_differ();
    reveal_with_fuel(json::entry, 4);
}

} // verus!
