//! Requests and responses of the session protocol: one JSON object per line.
//!
//! A request is `{"id": <u64 optional>, "method": "<string>", "params": <any>}`.
//! A response exists only for a request that carried an `id`, and is either
//! `{"id": N, "result": <any>}` or `{"id": N, "error": "<string>"}`.

use crate::json::{
    as_string, as_u64, json_as_str, json_as_u64, json_contents, json_member, json_parse,
    json_string_text, json_text, member, parse_value, string_text, value_text,
};
use crate::text::{append_chars, from_chars, to_chars, trim, trim_chars};
use vstd::prelude::*;
use vstd::string::{StrSliceExecFns, StringSliceAdditionalSpecFns};

verus! {

/// A request as it was read from one line.
#[derive(Clone, Debug, PartialEq)]
pub struct Request {
    /// The number that the response will carry; `None` where the client
    /// expects no response.
    pub id: Option<u64>,
    /// The method's name; empty where the line names none.
    pub method: String,
    /// The parameters; `None` where the line has none, which the dispatch
    /// interface is handed as JSON `null`.
    pub params: Option<serde_json::Value>,
}

/// The mathematical value of a [`Request`].
pub struct RequestView {
    pub id: Option<u64>,
    pub method: Seq<char>,
    pub params: Option<Seq<char>>,
}

impl View for Request {
    type V = RequestView;

    open spec fn view(&self) -> RequestView {
        RequestView {
            id: self.id,
            method: self.method@,
            params: match self.params {
                Some(value) => Some(json_contents(value)),
                None => None,
            },
        }
    }
}

/// The request that a JSON message with these contents stands for: `id` is
/// the member of that name where it is an unsigned integer, `method` the
/// member of that name where it is a string, `params` the member of that name.
pub open spec fn request_of(message: Seq<char>) -> RequestView {
    RequestView {
        id: match json_member(message, "id"@) {
            Some(inner) => json_as_u64(inner),
            None => None,
        },
        method: match json_member(message, "method"@) {
            Some(inner) => match json_as_str(inner) {
                Some(name) => name,
                None => Seq::empty(),
            },
            None => Seq::empty(),
        },
        params: json_member(message, "params"@),
    }
}

/// The request on a line of input, if there is one: a line that is blank
/// after trimming holds none, nor does one that is not JSON.
pub open spec fn decoded(line: Seq<char>) -> Option<RequestView> {
    if trim(line).len() == 0 {
        None
    } else {
        match json_parse(trim(line)) {
            Some(message) => Some(request_of(message)),
            None => None,
        }
    }
}

/// The token that an `auth` request presents: the member `token` of its
/// parameters, where that is a string.
pub open spec fn auth_token(params: Option<Seq<char>>) -> Option<Seq<char>> {
    match params {
        Some(contents) => match json_member(contents, "token"@) {
            Some(inner) => json_as_str(inner),
            None => None,
        },
        None => None,
    }
}

/// The decimal digit `d`.
pub open spec fn digit(d: nat) -> char {
    if d == 0 {
        '0'
    } else if d == 1 {
        '1'
    } else if d == 2 {
        '2'
    } else if d == 3 {
        '3'
    } else if d == 4 {
        '4'
    } else if d == 5 {
        '5'
    } else if d == 6 {
        '6'
    } else if d == 7 {
        '7'
    } else if d == 8 {
        '8'
    } else {
        '9'
    }
}

/// `n` in decimal, without leading zeros.
pub open spec fn decimal(n: nat) -> Seq<char>
    decreases n,
{
    if n < 10 {
        seq![digit(n)]
    } else {
        decimal(n / 10).push(digit(n % 10))
    }
}

/// The line that answers request `id` with a result, `payload` being the
/// result's JSON text.
pub open spec fn result_response(id: u64, payload: Seq<char>) -> Seq<char> {
    "{\"id\":"@ + decimal(id as nat) + ",\"result\":"@ + payload + "}"@
}

/// The line that answers request `id` with an error, `literal` being the
/// message's JSON string literal.
pub open spec fn error_response(id: u64, literal: Seq<char>) -> Seq<char> {
    "{\"id\":"@ + decimal(id as nat) + ",\"error\":"@ + literal + "}"@
}

/// The literal that stands for a payload that could not be written as JSON.
pub open spec fn unwritable() -> Seq<char> {
    "\"serialization failed\""@
}

/// The line that reports `message` as the error of request `id`.
pub open spec fn error_line(id: u64, message: Seq<char>) -> Seq<char> {
    match json_string_text(message) {
        Some(literal) => error_response(id, literal),
        None => error_response(id, unwritable()),
    }
}

/// The line that reports a value with these contents as the result of request
/// `id`.
pub open spec fn result_line(id: u64, contents: Seq<char>) -> Seq<char> {
    match json_text(contents) {
        Some(payload) => result_response(id, payload),
        None => error_response(id, unwritable()),
    }
}

/// The result of a successful `auth`.
pub open spec fn ok_payload() -> Seq<char> {
    "{\"ok\":true}"@
}

/// The digit `d` as a character.
pub fn digit_char(d: u64) -> (c: char)
    requires
        d < 10,
    ensures
        c == digit(d as nat),
{
    if d == 0 {
        '0'
    } else if d == 1 {
        '1'
    } else if d == 2 {
        '2'
    } else if d == 3 {
        '3'
    } else if d == 4 {
        '4'
    } else if d == 5 {
        '5'
    } else if d == 6 {
        '6'
    } else if d == 7 {
        '7'
    } else if d == 8 {
        '8'
    } else {
        '9'
    }
}

/// Appends `n` in decimal to `out`.
pub fn push_decimal(out: &mut Vec<char>, n: u64)
    ensures
        final(out)@ == old(out)@ + decimal(n as nat),
    decreases n,
{
    if n >= 10 {
        push_decimal(out, n / 10);
    }
    out.push(digit_char(n % 10));
}

/// The response line `{"id":<id>,"<field>":<payload>}`.
fn response_line(id: u64, field: &str, payload: &str) -> (line: String)
    ensures
        line@ == "{\"id\":"@ + decimal(id as nat) + ",\""@ + field@ + "\":"@ + payload@ + "}"@,
{
    let mut out = to_chars("{\"id\":");
    push_decimal(&mut out, id);
    let comma = to_chars(",\"");
    append_chars(&mut out, comma.as_slice());
    let name = to_chars(field);
    append_chars(&mut out, name.as_slice());
    let colon = to_chars("\":");
    append_chars(&mut out, colon.as_slice());
    let body = to_chars(payload);
    append_chars(&mut out, body.as_slice());
    let close = to_chars("}");
    append_chars(&mut out, close.as_slice());
    from_chars(out.as_slice())
}

/// The error response for request `id`, given the JSON string literal of the
/// message, or `None` where the message could not be written as one.
pub fn frame_error(id: u64, literal: Option<String>) -> (line: String)
    ensures
        line@ == match literal {
            Some(text) => error_response(id, text@),
            None => error_response(id, unwritable()),
        },
{
    proof {
        lemma_field_names();
    }
    match literal {
        Some(text) => response_line(id, "error", text.as_str()),
        None => response_line(id, "error", "\"serialization failed\""),
    }
}

/// The response for request `id`, given the JSON text of the result, or
/// `None` where the result could not be written.
pub fn frame_result(id: u64, payload: Option<String>) -> (line: String)
    ensures
        line@ == match payload {
            Some(text) => result_response(id, text@),
            None => error_response(id, unwritable()),
        },
{
    proof {
        lemma_field_names();
    }
    match payload {
        Some(text) => response_line(id, "result", text.as_str()),
        None => response_line(id, "error", "\"serialization failed\""),
    }
}

/// How the opening of a response is spelled, field by field.
proof fn lemma_field_names()
    ensures
        ",\""@ + "error"@ + "\":"@ == ",\"error\":"@,
        ",\""@ + "result"@ + "\":"@ == ",\"result\":"@,
{
    reveal_strlit(",\"");
    reveal_strlit("error");
    reveal_strlit("result");
    reveal_strlit("\":");
    reveal_strlit(",\"error\":");
    reveal_strlit(",\"result\":");
}

/// The error response to a request: none where the request carried no `id`.
pub fn build_error_response(id: Option<u64>, message: &str) -> (response: Option<String>)
    ensures
        match id {
            Some(n) => response matches Some(line) && line@ == error_line(n, message@),
            None => response is None,
        },
{
    match id {
        Some(n) => Some(frame_error(n, string_text(message))),
        None => None,
    }
}

/// The response that carries a result: none where the request carried no
/// `id`.
pub fn build_result_response(id: Option<u64>, result: &serde_json::Value) -> (response: Option<
    String,
>)
    ensures
        match id {
            Some(n) => response matches Some(line) && line@ == result_line(
                n,
                json_contents(*result),
            ),
            None => response is None,
        },
{
    match id {
        Some(n) => Some(frame_result(n, value_text(result))),
        None => None,
    }
}

/// The response to a successful `auth`: none where the request carried no
/// `id`.
pub fn build_ok_response(id: Option<u64>) -> (response: Option<String>)
    ensures
        match id {
            Some(n) => response matches Some(line) && line@ == result_response(n, ok_payload()),
            None => response is None,
        },
{
    match id {
        Some(n) => Some(frame_result(n, Some(from_chars(to_chars("{\"ok\":true}").as_slice())))),
        None => None,
    }
}

/// The token that the parameters of an `auth` request present.
pub fn parse_auth_token(params: &Option<serde_json::Value>) -> (token: Option<String>)
    ensures
        match token {
            Some(t) => auth_token(params_view(*params)) == Some(t@),
            None => auth_token(params_view(*params)) is None,
        },
{
    match params {
        Some(value) => match member(value, "token") {
            Some(inner) => as_string(&inner),
            None => None,
        },
        None => None,
    }
}

/// The contents of optional parameters.
pub open spec fn params_view(params: Option<serde_json::Value>) -> Option<Seq<char>> {
    match params {
        Some(value) => Some(json_contents(value)),
        None => None,
    }
}

/// The request that a parsed message stands for.
pub fn request_from_message(message: &serde_json::Value) -> (request: Request)
    ensures
        request@ == request_of(json_contents(*message)),
{
    let id = match member(message, "id") {
        Some(inner) => as_u64(&inner),
        None => None,
    };
    let method = match member(message, "method") {
        Some(inner) => match as_string(&inner) {
            Some(name) => name,
            None => String::new(),
        },
        None => String::new(),
    };
    let params = member(message, "params");
    Request { id, method, params }
}

/// Reads one line of input: `None` where the line is blank or is not JSON,
/// which the protocol passes over in silence.
pub fn decode_line(line: &str) -> (request: Option<Request>)
    ensures
        match request {
            Some(r) => decoded(line@) == Some(r@),
            None => decoded(line@) is None,
        },
{
    let chars = to_chars(line);
    let trimmed = trim_chars(chars.as_slice());
    if trimmed.len() == 0 {
        return None;
    }
    let text = from_chars(trimmed.as_slice());
    match parse_value(text.as_str()) {
        Some(message) => Some(request_from_message(&message)),
        None => None,
    }
}

/// A message as it goes onto the wire: its bytes, and one line feed.
pub fn frame_line(message: &str) -> (bytes: Vec<u8>)
    ensures
        bytes@ == message.spec_bytes().push(0x0au8),
{
    let mut bytes = message.as_bytes_vec();
    bytes.push(0x0a);
    bytes
}

} // verus!
