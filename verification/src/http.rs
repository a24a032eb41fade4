//! Routing and request handling.
//!
//! `handle` is the whole per-request decision: it maps a method, a path
//! and a raw query component to either an immediate response or to the
//! order to write the received code to the destination file.  The file
//! write itself is I/O and happens outside the library; its result is
//! turned back into a response by `write_result_response`.

use vstd::prelude::*;
use vstd::string::StringExecFns;
use crate::query::{code_of_query, extract_code, QueryParse};

verus! {

/// The request methods the router distinguishes: `GET` and the rest.
#[derive(PartialEq, Eq, Structural, Clone, Copy, Debug)]
pub enum Method {
    Get,
    Other,
}

/// A response: an HTTP status code and a plain-text body.
pub struct Response {
    pub status: u16,
    pub body: String,
}

/// The abstract value of a `Response`.
pub struct ResponseModel {
    pub status: u16,
    pub body: Seq<char>,
}

impl View for Response {
    type V = ResponseModel;

    open spec fn view(&self) -> ResponseModel {
        ResponseModel { status: self.status, body: self.body@ }
    }
}

/// What one request leads to: an immediate response, or a write of the
/// received code bytes over the destination file.
pub enum Outcome {
    Reply(Response),
    WriteCode(Vec<u8>),
}

/// The abstract value of an `Outcome`.
pub enum OutcomeModel {
    Reply(ResponseModel),
    WriteCode(Seq<u8>),
}

impl View for Outcome {
    type V = OutcomeModel;

    open spec fn view(&self) -> OutcomeModel {
        match self {
            Outcome::Reply(r) => OutcomeModel::Reply(r@),
            Outcome::WriteCode(c) => OutcomeModel::WriteCode(c@),
        }
    }
}

/// A reply outcome, as one spec-level value.
pub open spec fn reply_model(status: u16, body: Seq<char>) -> OutcomeModel {
    OutcomeModel::Reply(ResponseModel { status, body })
}

/// The bytes of the path `/googleapi/auth`.
pub open spec fn auth_path() -> Seq<u8> {
    seq![
        0x2fu8,
        0x67u8,
        0x6fu8,
        0x6fu8,
        0x67u8,
        0x6cu8,
        0x65u8,
        0x61u8,
        0x70u8,
        0x69u8,
        0x2fu8,
        0x61u8,
        0x75u8,
        0x74u8,
        0x68u8,
    ]
}

/// The bytes of the path `/`.
pub open spec fn root_path() -> Seq<u8> {
    seq![0x2fu8]
}

/// The bytes of the path `/favicon.ico`.
pub open spec fn favicon_path() -> Seq<u8> {
    seq![
        0x2fu8,
        0x66u8,
        0x61u8,
        0x76u8,
        0x69u8,
        0x63u8,
        0x6fu8,
        0x6eu8,
        0x2eu8,
        0x69u8,
        0x63u8,
        0x6fu8,
    ]
}

/// Body of the reply to `GET /`.
pub open spec fn hello_body() -> Seq<char> {
    "Hello, World!"@
}

/// Body of the reply after a successful write of the code.
pub open spec fn success_body() -> Seq<char> {
    "Code written to file"@
}

/// Body of the reply when the query carries no `code` key.
pub open spec fn no_code_body() -> Seq<char> {
    "No code provided"@
}

/// Body of the reply to a query with invalid percent-encoding.
pub open spec fn malformed_body() -> Seq<char> {
    "Invalid query string"@
}

/// The empty body.
pub open spec fn empty_body() -> Seq<char> {
    Seq::empty()
}

/// Body of the reply after a failed write: a fixed prefix followed by
/// the error detail.
pub open spec fn write_error_body(detail: Seq<char>) -> Seq<char> {
    "Error writing code to file: "@ + detail
}

/// The routing table and the callback handler in one step: what a
/// request with the given method, path and raw query leads to.
///
/// `GET /googleapi/auth` inspects the query: a malformed query is
/// rejected with status 400, a missing `code` is answered with status
/// 200 and `No code provided`, and a present `code` orders its decoded
/// bytes written to the destination file.  `GET /` and
/// `GET /favicon.ico` have fixed 200 replies; every other method or
/// path gets 404 with an empty body.
pub open spec fn handle_spec(m: Method, path: Seq<u8>, query: Seq<u8>) -> OutcomeModel {
    if m == Method::Get && path == auth_path() {
        match code_of_query(query) {
            Option::None => reply_model(400, malformed_body()),
            Option::Some(Option::None) => reply_model(200, no_code_body()),
            Option::Some(Option::Some(c)) => OutcomeModel::WriteCode(c),
        }
    } else if m == Method::Get && path == root_path() {
        reply_model(200, hello_body())
    } else if m == Method::Get && path == favicon_path() {
        reply_model(200, empty_body())
    } else {
        reply_model(404, empty_body())
    }
}

/// The bytes of `/googleapi/auth`, as a vector.
fn auth_path_bytes() -> (r: Vec<u8>)
    ensures
        r@ == auth_path(),
{
    let mut v: Vec<u8> = Vec::new();
    v.push(0x2f);
    v.push(0x67);
    v.push(0x6f);
    v.push(0x6f);
    v.push(0x67);
    v.push(0x6c);
    v.push(0x65);
    v.push(0x61);
    v.push(0x70);
    v.push(0x69);
    v.push(0x2f);
    v.push(0x61);
    v.push(0x75);
    v.push(0x74);
    v.push(0x68);
    proof {
        assert(v@ =~= auth_path());
    }
    v
}

/// The bytes of `/`, as a vector.
fn root_path_bytes() -> (r: Vec<u8>)
    ensures
        r@ == root_path(),
{
    let mut v: Vec<u8> = Vec::new();
    v.push(0x2f);
    proof {
        assert(v@ =~= root_path());
    }
    v
}

/// The bytes of `/favicon.ico`, as a vector.
fn favicon_path_bytes() -> (r: Vec<u8>)
    ensures
        r@ == favicon_path(),
{
    let mut v: Vec<u8> = Vec::new();
    v.push(0x2f);
    v.push(0x66);
    v.push(0x61);
    v.push(0x76);
    v.push(0x69);
    v.push(0x63);
    v.push(0x6f);
    v.push(0x6e);
    v.push(0x2e);
    v.push(0x69);
    v.push(0x63);
    v.push(0x6f);
    proof {
        assert(v@ =~= favicon_path());
    }
    v
}

/// Handles one request: routes it and, on the callback path, extracts
/// the `code` parameter from the raw query bytes.
pub fn handle(m: Method, path: &[u8], query: &[u8]) -> (r: Outcome)
    ensures
        r@ == handle_spec(m, path@, query@),
{
    let is_get = m == Method::Get;
    if is_get && crate::query::bytes_eq(path, auth_path_bytes().as_slice()) {
        match extract_code(query) {
            QueryParse::Malformed => Outcome::Reply(
                Response { status: 400, body: "Invalid query string".to_owned() },
            ),
            QueryParse::NoCode => Outcome::Reply(
                Response { status: 200, body: "No code provided".to_owned() },
            ),
            QueryParse::Code(c) => Outcome::WriteCode(c),
        }
    } else if is_get && crate::query::bytes_eq(path, root_path_bytes().as_slice()) {
        Outcome::Reply(Response { status: 200, body: "Hello, World!".to_owned() })
    } else if is_get && crate::query::bytes_eq(path, favicon_path_bytes().as_slice()) {
        Outcome::Reply(Response { status: 200, body: String::new() })
    } else {
        Outcome::Reply(Response { status: 404, body: String::new() })
    }
}

/// Turns the result of the file write back into the response the
/// original caller sees: status 200 either way, with either the fixed
/// success body or the error detail appended to a fixed prefix.
pub fn write_result_response(result: Result<(), String>) -> (r: Response)
    ensures
        r@.status == 200,
        match result {
            Ok(u) => r@.body == success_body(),
            Err(detail) => r@.body == write_error_body(detail@),
        },
{
    match result {
        Ok(u) => Response { status: 200, body: "Code written to file".to_owned() },
        Err(detail) => {
            let mut body = "Error writing code to file: ".to_owned();
            body.append(detail.as_str());
            Response { status: 200, body }
        },
    }
}

} // verus!
