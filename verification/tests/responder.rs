use minihttp::form::form_response;
use minihttp::handler::{plan_request, RequestAction};
use minihttp::headers::{content_length_of, continue_header_read, header_complete, next_chunk_len};
use minihttp::response::response_builder;
use minihttp::tokens::tokenize;

const HTML_PRE: &str =
    "<!DOCTYPE html><html><head><title>Hello</title></head><body><h1>Hello, World!</h1><p>";
const HTML_POST: &str = "</p></body></html>";

/// The full response the server emits for a given message text.
fn expected_response(msg: &str) -> Vec<u8> {
    let body = format!("{}{}{}", HTML_PRE, msg, HTML_POST);
    let resp = format!(
        "HTTP/1.1 200 OK\r\nContent-Type: text/html; charset=UTF-8\r\nContent-Length: {}\r\nDate: Mon, 12 Aug 2024 10:15:30 GMT\r\nServer: CustomRustServer/0.1\r\n\r\n{}",
        body.len(),
        body
    );
    resp.into_bytes()
}

fn bytes(s: &str) -> Vec<u8> {
    s.as_bytes().to_vec()
}

#[test]
fn get_request_echoes_request_line() {
    let req = bytes("GET /foo HTTP/1.1\r\nHost: localhost:3000\r\nContent-Type: text/plain\r\n\r\n");
    match plan_request(&req) {
        RequestAction::Respond(resp) => {
            let expected = expected_response(
                "This is a GET request with /foo path and the http version is: HTTP/1.1",
            );
            assert_eq!(resp, expected);
        }
        _ => panic!("expected an immediate response"),
    }
}

#[test]
fn post_json_takes_default_branch() {
    let req = bytes("POST /api HTTP/1.1\r\nHost: x\r\nContent-Type: application/json\r\n\r\n");
    match plan_request(&req) {
        RequestAction::Respond(resp) => {
            let expected = expected_response(
                "This is a POST request with /api path and the http version is: HTTP/1.1",
            );
            assert_eq!(resp, expected);
        }
        _ => panic!("expected an immediate response"),
    }
}

#[test]
fn post_form_reads_declared_body() {
    let req = bytes(
        "POST /submit HTTP/1.1\r\nHost: x\r\nContent-Type: text/plain\r\nContent-Length: 16\r\n\r\n",
    );
    match plan_request(&req) {
        RequestAction::ReadBody(n) => assert_eq!(n, 16),
        _ => panic!("expected a body read"),
    }
}

#[test]
fn short_request_is_rejected() {
    let req = bytes("GET /foo HTTP/1.1\r\n\r\n");
    assert!(matches!(plan_request(&req), RequestAction::Reject));
    let empty = Vec::new();
    assert!(matches!(plan_request(&empty), RequestAction::Reject));
}

#[test]
fn form_body_transforms_second_segment() {
    let resp = form_response(&bytes("key=val; foo bar")).expect("transformation is defined");
    let expected =
        expected_response("You are sending a form data with this info: foo, value=bar");
    assert_eq!(resp, expected);
}

#[test]
fn form_body_takes_second_of_many_segments() {
    let resp = form_response(&bytes("a=1; b=2 3; c=4")).expect("transformation is defined");
    let expected =
        expected_response("You are sending a form data with this info: b=2, value=3");
    assert_eq!(resp, expected);
}

#[test]
fn form_body_without_separator_yields_empty_info() {
    let resp = form_response(&bytes("hello world")).expect("transformation is defined");
    let expected = expected_response("You are sending a form data with this info: ");
    assert_eq!(resp, expected);
}

#[test]
fn form_body_with_short_segment_is_undefined() {
    assert!(form_response(&bytes("x; single")).is_none());
    assert!(form_response(&bytes("x; ")).is_none());
}

#[test]
fn form_body_with_invalid_utf8_is_decoded_leniently() {
    let mut body = bytes("k; t");
    body.push(0xFF);
    body.extend_from_slice(b"1 t2");
    let resp = form_response(&body).expect("transformation is defined");
    let decoded = String::from_utf8_lossy(&body).into_owned();
    let first_token = decoded.split("; ").nth(1).unwrap().split_whitespace().next().unwrap();
    assert_eq!(first_token, "t\u{FFFD}1");
    let expected = expected_response(&format!(
        "You are sending a form data with this info: {}, value=t2",
        first_token
    ));
    assert_eq!(resp, expected);
}

#[test]
fn content_length_is_parsed_from_its_header_line() {
    let req = bytes("POST / HTTP/1.1\r\nHost: x\r\nContent-Length: 42\r\n\r\n");
    assert_eq!(content_length_of(&req), 42);
}

#[test]
fn content_length_defaults_to_zero() {
    assert_eq!(content_length_of(&bytes("POST / HTTP/1.1\r\nHost: x\r\n\r\n")), 0);
    assert_eq!(content_length_of(&bytes("Content-Length: abc\r\n\r\n")), 0);
    assert_eq!(content_length_of(&bytes("Content-Length: 7 \r\n\r\n")), 0);
    assert_eq!(content_length_of(&bytes("content-length: 5\r\n\r\n")), 0);
    assert_eq!(content_length_of(&bytes("Content-Length:5\r\n\r\n")), 0);
    assert_eq!(
        content_length_of(&bytes("Content-Length: 99999999999999999999999999\r\n\r\n")),
        0
    );
    assert_eq!(content_length_of(&Vec::new()), 0);
}

#[test]
fn content_length_takes_first_match_and_splits_on_colon_space() {
    let req = bytes("Content-Length: 7: x\r\nContent-Length: 9\r\n\r\n");
    assert_eq!(content_length_of(&req), 7);
}

#[test]
fn header_terminator_is_detected() {
    assert!(header_complete(&bytes("GET / HTTP/1.1\r\n\r\n")));
    assert!(header_complete(&bytes("a\r\n\r\nb")));
    assert!(!header_complete(&bytes("GET / HTTP/1.1\r\n\r")));
    assert!(!header_complete(&Vec::new()));
}

#[test]
fn zero_byte_read_stops_the_header_loop() {
    let partial = bytes("GET / HTT");
    assert!(continue_header_read(&partial, 9));
    assert!(!continue_header_read(&partial, 0));
    let complete = bytes("GET / HTTP/1.1\r\n\r\n");
    assert!(!continue_header_read(&complete, 18));
}

#[test]
fn body_chunks_are_bounded_by_the_buffer() {
    assert_eq!(next_chunk_len(5000, 0), 1024);
    assert_eq!(next_chunk_len(500, 0), 500);
    assert_eq!(next_chunk_len(500, 490), 10);
    assert_eq!(next_chunk_len(500, 500), 0);
    assert_eq!(next_chunk_len(0, 0), 0);
}

#[test]
fn response_length_header_matches_body_length() {
    for msg in [
        Vec::new(),
        bytes("hello"),
        vec![0xEF, 0xBF, 0xBD, 0x20, 0x41],
        bytes("a longer message with several words in it"),
    ] {
        let resp = response_builder(msg);
        let text = String::from_utf8_lossy(&resp).into_owned();
        let header_end = text.find("\r\n\r\n").expect("response has a header block") + 4;
        let body_len = resp.len() - header_end;
        let declared = text
            .lines()
            .find_map(|l| l.strip_prefix("Content-Length: "))
            .expect("response declares its length")
            .parse::<usize>()
            .expect("declared length is a number");
        assert_eq!(declared, body_len);
    }
}

#[test]
fn exact_response_for_empty_message() {
    let resp = response_builder(Vec::new());
    assert_eq!(resp, expected_response(""));
}

#[test]
fn tokenizer_splits_on_whitespace_runs() {
    let toks = tokenize(&bytes("  a\t\nbb  c "));
    assert_eq!(toks, vec![bytes("a"), bytes("bb"), bytes("c")]);
    assert_eq!(tokenize(&Vec::new()), Vec::<Vec<u8>>::new());
    assert_eq!(tokenize(&bytes("   ")), Vec::<Vec<u8>>::new());
}
