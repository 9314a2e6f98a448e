//! JSON-RPC 2.0 envelopes: validating one incoming request line and building
//! error replies.
use vstd::prelude::*;

use super::request::{parse_request, spec_parse_request, Request, RequestView};
use crate::json::{
    as_text, from_i64, get_member, json_document, json_text, lookup, lookup_index, member,
    number_from_i64, parse_json_document, JsonNumber, JsonValue,
};
use crate::text::{owned, str_eq};

verus! {

pub const PARSE_ERROR: i64 = -32700;

pub const INVALID_REQUEST: i64 = -32600;

pub const METHOD_NOT_FOUND: i64 = -32601;

pub const INVALID_PARAMS: i64 = -32602;

pub const INTERNAL_ERROR: i64 = -32603;

pub const DOMAIN_ERROR: i64 = -32000;

/// A request that passed envelope and parameter validation.
#[derive(Debug)]
pub struct ValidatedRequest {
    pub id: JsonValue,
    pub request: Request,
}

/// A request that failed validation, with the id to answer under.
#[derive(Debug)]
pub struct RequestError {
    pub id: JsonValue,
    pub error: RpcError,
}

#[derive(Debug)]
pub struct RpcError {
    pub code: i64,
    pub message: &'static str,
    pub data: Option<ErrorData>,
}

#[derive(Debug)]
pub struct ErrorData {
    pub domain_code: &'static str,
    pub detail: String,
}

/// `e` is an error with `code` and `message` and no data.
pub open spec fn is_plain_error(e: RpcError, code: i64, message: &'static str) -> bool {
    e.code == code && e.message == message && e.data is None
}

/// `e` is an error with `code`, `message`, and data holding `domain_code` and `detail`.
pub open spec fn is_data_error(
    e: RpcError,
    code: i64,
    message: &'static str,
    domain_code: &'static str,
    detail: Seq<char>,
) -> bool {
    &&& e.code == code
    &&& e.message == message
    &&& e.data matches Some(d) && d.domain_code == domain_code && d.detail@ == detail
}

/// `e` is what `RpcError::invalid_params(detail)` builds.
pub open spec fn is_invalid_params(e: RpcError, detail: Seq<char>) -> bool {
    is_data_error(e, INVALID_PARAMS, "Invalid params", "INVALID_PARAMS", detail)
}

impl RpcError {
    pub fn parse_error() -> (e: Self)
        ensures
            is_plain_error(e, PARSE_ERROR, "Parse error"),
    {
        RpcError { code: PARSE_ERROR, message: "Parse error", data: None }
    }

    pub fn invalid_request() -> (e: Self)
        ensures
            is_plain_error(e, INVALID_REQUEST, "Invalid Request"),
    {
        RpcError { code: INVALID_REQUEST, message: "Invalid Request", data: None }
    }

    pub fn method_not_found() -> (e: Self)
        ensures
            is_plain_error(e, METHOD_NOT_FOUND, "Method not found"),
    {
        RpcError { code: METHOD_NOT_FOUND, message: "Method not found", data: None }
    }

    pub fn invalid_params(detail: String) -> (e: Self)
        ensures
            is_invalid_params(e, detail@),
    {
        RpcError {
            code: INVALID_PARAMS,
            message: "Invalid params",
            data: Some(ErrorData { domain_code: "INVALID_PARAMS", detail }),
        }
    }

    pub fn domain(domain_code: &'static str, detail: String) -> (e: Self)
        ensures
            is_data_error(e, DOMAIN_ERROR, "Core error", domain_code, detail@),
    {
        RpcError {
            code: DOMAIN_ERROR,
            message: "Core error",
            data: Some(ErrorData { domain_code, detail }),
        }
    }

    pub fn internal() -> (e: Self)
        ensures
            is_plain_error(e, INTERNAL_ERROR, "Internal error"),
    {
        RpcError { code: INTERNAL_ERROR, message: "Internal error", data: None }
    }
}

/// A JSON-RPC id is null, a string, or an integer.
pub open spec fn is_request_id(v: JsonValue) -> bool {
    match v {
        JsonValue::Null => true,
        JsonValue::String(_) => true,
        JsonValue::Number(n) => n != JsonNumber::Float,
        _ => false,
    }
}

/// Two ids are the same value.
pub open spec fn same_id(a: JsonValue, b: JsonValue) -> bool {
    match (a, b) {
        (JsonValue::Null, JsonValue::Null) => true,
        (JsonValue::String(x), JsonValue::String(y)) => x@ == y@,
        (JsonValue::Number(x), JsonValue::Number(y)) => x == y,
        _ => false,
    }
}

/// What validating one request line gives: the id and request, or the id to
/// answer under and the error. `document` is the parsed line, `None` when the
/// line is not JSON.
pub open spec fn line_outcome(document: Option<JsonValue>) -> LineOutcome {
    match document {
        None => LineOutcome::Rejected { code: PARSE_ERROR },
        Some(doc) => match doc {
            JsonValue::Object(entries) => {
                let id = lookup(entries@, "id"@);
                let method = as_text(lookup(entries@, "method"@));
                if as_text(lookup(entries@, "jsonrpc"@)) != Some("2.0"@) {
                    LineOutcome::Rejected { code: INVALID_REQUEST }
                } else if !(id matches Some(i) && is_request_id(i)) {
                    LineOutcome::Rejected { code: INVALID_REQUEST }
                } else if method is None {
                    LineOutcome::Rejected { code: INVALID_REQUEST }
                } else {
                    let params = match lookup(entries@, "params"@) {
                        Some(p) => p,
                        None => JsonValue::Null,
                    };
                    match spec_parse_request(method->0, params) {
                        Ok(request) => LineOutcome::Accepted { request },
                        Err(detail) => LineOutcome::InvalidParams { detail },
                    }
                }
            },
            _ => LineOutcome::Rejected { code: INVALID_REQUEST },
        },
    }
}

/// The shape of the answer to one request line.
pub enum LineOutcome {
    /// Rejected before the id could be trusted: answered with a null id.
    Rejected { code: i64 },
    /// The parameters are invalid; answered under the request's own id.
    InvalidParams { detail: Seq<char> },
    Accepted { request: RequestView },
}

/// The id member of a document that is an object.
pub open spec fn document_id(document: Option<JsonValue>) -> JsonValue {
    match document {
        Some(JsonValue::Object(entries)) => match lookup(entries@, "id"@) {
            Some(id) => id,
            None => JsonValue::Null,
        },
        _ => JsonValue::Null,
    }
}

/// `r` is what validating the parsed line `document` gives: rejections
/// with a null id and their code; invalid parameters under the request's own
/// id; an accepted request with its id.
pub open spec fn answers_line(document: Option<JsonValue>, r: Result<ValidatedRequest, RequestError>) -> bool {
    match (line_outcome(document), r) {
        (LineOutcome::Rejected { code }, Err(e)) => e.id is Null && e.error.code == code
            && e.error.data is None,
        (LineOutcome::InvalidParams { detail }, Err(e)) => same_id(e.id, document_id(document))
            && is_request_id(e.id) && is_invalid_params(e.error, detail),
        (LineOutcome::Accepted { request }, Ok(v)) => same_id(v.id, document_id(document))
            && is_request_id(v.id) && v.request@ == request,
        _ => false,
    }
}

/// Parses one request line as JSON and validates it (`parse_document`).
pub fn parse_line(line: &str) -> (r: Result<ValidatedRequest, RequestError>)
    ensures
        answers_line(json_document(line@), r),
{
    parse_document(parse_json_document(line))
}

fn request_error(id: JsonValue, error: RpcError) -> (r: RequestError)
    ensures
        r.id == id,
        r.error == error,
{
    RequestError { id, error }
}

fn valid_request_id(id: &JsonValue) -> (r: bool)
    ensures
        r == is_request_id(*id),
{
    match id {
        JsonValue::Null => true,
        JsonValue::String(_) => true,
        JsonValue::Number(n) => match n {
            JsonNumber::Float => false,
            _ => true,
        },
        _ => false,
    }
}

/// A copy of a valid request id.
fn copy_id(id: &JsonValue) -> (r: JsonValue)
    requires
        is_request_id(*id),
    ensures
        same_id(r, *id),
        is_request_id(r),
{
    match id {
        JsonValue::String(s) => JsonValue::String(s.clone()),
        JsonValue::Number(n) => JsonValue::Number(*n),
        _ => JsonValue::Null,
    }
}

/// Validates one request line already parsed as JSON (`None` when the line
/// is not JSON): the envelope must be an object with `"jsonrpc": "2.0"`, an
/// id that is null, a string or an integer, and a string method; then the
/// method's parameters are validated. Errors found before the id is trusted
/// are answered with a null id; invalid parameters keep the request's id.
pub fn parse_document(document: Option<JsonValue>) -> (r: Result<ValidatedRequest, RequestError>)
    ensures
        answers_line(document, r),
{
    let doc = match document {
        None => return Err(request_error(JsonValue::Null, RpcError::parse_error())),
        Some(doc) => doc,
    };
    let entries = match doc {
        JsonValue::Object(entries) => entries,
        _ => return Err(request_error(JsonValue::Null, RpcError::invalid_request())),
    };
    let version_ok = match get_member(&entries, "jsonrpc") {
        Some(JsonValue::String(v)) => str_eq(v.as_str(), "2.0"),
        _ => false,
    };
    if !version_ok {
        return Err(request_error(JsonValue::Null, RpcError::invalid_request()));
    }
    let id = match get_member(&entries, "id") {
        Some(id) => {
            if valid_request_id(id) {
                copy_id(id)
            } else {
                return Err(request_error(JsonValue::Null, RpcError::invalid_request()));
            }
        },
        None => return Err(request_error(JsonValue::Null, RpcError::invalid_request())),
    };
    let method = match get_member(&entries, "method") {
        Some(JsonValue::String(m)) => m.clone(),
        _ => return Err(request_error(JsonValue::Null, RpcError::invalid_request())),
    };
    let params = match crate::json::take_member(entries, "params") {
        Some(p) => p,
        None => JsonValue::Null,
    };
    match parse_request(method.as_str(), params) {
        Ok(request) => Ok(ValidatedRequest { id, request }),
        Err(error) => Err(request_error(id, error)),
    }
}


/// The `error` reply for a request, as `{"jsonrpc": "2.0", "id": id, "error":
/// {"code", "message", "data"?}}`, where `data` holds `domain_code` and
/// `detail` when the error carries them.
pub fn failure(id: JsonValue, error: RpcError) -> (r: JsonValue)
    ensures
        is_failure_reply(r, id, error),
{
    let mut body: Vec<(String, JsonValue)> = Vec::new();
    body.push((owned("code"), JsonValue::Number(number_from_i64(error.code))));
    body.push((owned("message"), json_text(error.message)));
    match error.data {
        Some(data) => {
            let mut fields: Vec<(String, JsonValue)> = Vec::new();
            fields.push((owned("domain_code"), json_text(data.domain_code)));
            fields.push((owned("detail"), JsonValue::String(data.detail)));
            body.push((owned("data"), JsonValue::Object(fields)));
        },
        None => {},
    }
    let mut reply: Vec<(String, JsonValue)> = Vec::new();
    reply.push((owned("jsonrpc"), json_text("2.0")));
    reply.push((owned("id"), id));
    reply.push((owned("error"), JsonValue::Object(body)));
    JsonValue::Object(reply)
}

/// `v` is a string value with text `t`.
pub open spec fn is_text(v: JsonValue, t: Seq<char>) -> bool {
    v matches JsonValue::String(s) && s@ == t
}

/// The shape `failure(id, error)` builds.
pub open spec fn is_failure_reply(r: JsonValue, id: JsonValue, error: RpcError) -> bool {
    &&& r matches JsonValue::Object(reply)
    &&& reply@.len() == 3
    &&& reply@[0].0@ == "jsonrpc"@ && is_text(reply@[0].1, "2.0"@)
    &&& reply@[1].0@ == "id"@ && reply@[1].1 == id
    &&& reply@[2].0@ == "error"@
    &&& reply@[2].1 matches JsonValue::Object(body)
    &&& body@[0].0@ == "code"@ && body@[0].1 == JsonValue::Number(from_i64(error.code))
    &&& body@[1].0@ == "message"@ && is_text(body@[1].1, error.message@)
    &&& match error.data {
        None => body@.len() == 2,
        Some(data) => {
            &&& body@.len() == 3
            &&& body@[2].0@ == "data"@
            &&& body@[2].1 matches JsonValue::Object(fields)
            &&& fields@.len() == 2
            &&& fields@[0].0@ == "domain_code"@ && is_text(fields@[0].1, data.domain_code@)
            &&& fields@[1].0@ == "detail"@ && is_text(fields@[1].1, data.detail@)
        },
    }
}

/// The `error` reply with a null id.
pub fn failure_without_id(error: RpcError) -> (r: JsonValue)
    ensures
        is_failure_reply(r, JsonValue::Null, error),
{
    failure(JsonValue::Null, error)
}

} // verus!
