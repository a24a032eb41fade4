//! Tests of the request-handling path: routing, query parsing, and the
//! responses around the file write.

use code_receiver::http::{handle, write_result_response, Method, Outcome};
use code_receiver::persist::DestinationFile;
use code_receiver::query::{extract_code, percent_decode, QueryParse};

fn reply_of(outcome: Outcome) -> (u16, String) {
    match outcome {
        Outcome::Reply(r) => (r.status, r.body),
        Outcome::WriteCode(_) => panic!("expected a reply, got a write order"),
    }
}

fn write_of(outcome: Outcome) -> Vec<u8> {
    match outcome {
        Outcome::Reply(r) => panic!("expected a write order, got reply {} {:?}", r.status, r.body),
        Outcome::WriteCode(c) => c,
    }
}

#[test]
fn root_is_hello_world() {
    let (status, body) = reply_of(handle(Method::Get, b"/", b""));
    assert_eq!(status, 200);
    assert_eq!(body, "Hello, World!");
}

#[test]
fn favicon_is_empty_ok() {
    let (status, body) = reply_of(handle(Method::Get, b"/favicon.ico", b""));
    assert_eq!(status, 200);
    assert_eq!(body, "");
}

#[test]
fn unknown_path_is_not_found() {
    let (status, body) = reply_of(handle(Method::Get, b"/unknown/path", b""));
    assert_eq!(status, 404);
    assert_eq!(body, "");
}

#[test]
fn non_get_is_not_found() {
    let (status, body) = reply_of(handle(Method::Other, b"/", b""));
    assert_eq!(status, 404);
    assert_eq!(body, "");
    let (status, body) = reply_of(handle(Method::Other, b"/googleapi/auth", b"code=x"));
    assert_eq!(status, 404);
    assert_eq!(body, "");
}

#[test]
fn callback_with_code_orders_exactly_that_write() {
    let code = write_of(handle(Method::Get, b"/googleapi/auth", b"code=first"));
    assert_eq!(code, b"first");
}

#[test]
fn callback_without_code_is_no_code_provided() {
    let (status, body) = reply_of(handle(Method::Get, b"/googleapi/auth", b""));
    assert_eq!(status, 200);
    assert_eq!(body, "No code provided");
    let (status, body) = reply_of(handle(Method::Get, b"/googleapi/auth", b"state=xyz"));
    assert_eq!(status, 200);
    assert_eq!(body, "No code provided");
}

#[test]
fn callback_with_bad_escape_is_rejected() {
    let (status, body) = reply_of(handle(Method::Get, b"/googleapi/auth", b"code=%zz"));
    assert_eq!(status, 400);
    assert_eq!(body, "Invalid query string");
    let (status, _) = reply_of(handle(Method::Get, b"/googleapi/auth", b"code=%4"));
    assert_eq!(status, 400);
}

#[test]
fn code_value_is_percent_decoded() {
    let code = write_of(handle(Method::Get, b"/googleapi/auth", b"code=a%2Fb+c"));
    assert_eq!(code, b"a/b c");
}

#[test]
fn last_code_key_wins() {
    let code = write_of(handle(Method::Get, b"/googleapi/auth", b"code=first&code=second"));
    assert_eq!(code, b"second");
}

#[test]
fn code_among_other_keys_is_found() {
    let code = write_of(handle(
        Method::Get,
        b"/googleapi/auth",
        b"state=abc&code=XYZ&scope=email",
    ));
    assert_eq!(code, b"XYZ");
}

#[test]
fn empty_segments_are_skipped() {
    match extract_code(b"&&code=x&") {
        QueryParse::Code(c) => assert_eq!(c, b"x"),
        _ => panic!("code not found"),
    }
}

#[test]
fn key_without_equals_has_empty_value() {
    match extract_code(b"code") {
        QueryParse::Code(c) => assert_eq!(c, b""),
        _ => panic!("code not found"),
    }
}

#[test]
fn extract_code_reports_malformed_query() {
    assert!(matches!(extract_code(b"a=%g1"), QueryParse::Malformed));
    assert!(matches!(extract_code(b"%"), QueryParse::Malformed));
}

#[test]
fn percent_decode_exact_values() {
    assert_eq!(percent_decode(b"%41%62c"), Some(b"Abc".to_vec()));
    assert_eq!(percent_decode(b"a+b"), Some(b"a b".to_vec()));
    assert_eq!(percent_decode(b""), Some(Vec::new()));
    assert_eq!(percent_decode(b"%FF"), Some(vec![0xff]));
    assert_eq!(percent_decode(b"%4"), None);
    assert_eq!(percent_decode(b"%zz"), None);
}

#[test]
fn successful_write_response() {
    let r = write_result_response(Ok(()));
    assert_eq!(r.status, 200);
    assert_eq!(r.body, "Code written to file");
}

#[test]
fn failed_write_response_carries_detail() {
    let r = write_result_response(Err(String::from("permission denied")));
    assert_eq!(r.status, 200);
    assert_eq!(r.body, "Error writing code to file: permission denied");
}

#[test]
fn second_write_fully_overwrites_first() {
    let mut file = DestinationFile::new();
    file.overwrite(b"first");
    file.overwrite(b"second");
    assert_eq!(file.content, b"second");
}

#[test]
fn overwrite_leaves_no_remnant_of_longer_content() {
    let mut file = DestinationFile::new();
    file.overwrite(b"a much longer earlier code value");
    file.overwrite(b"x");
    assert_eq!(file.content, b"x");
}
