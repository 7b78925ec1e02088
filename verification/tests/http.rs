use worker_pool::http::{
    body_for, handle_request, parse_request, render_response, respond, status_for,
};
use worker_pool::json::{json_object, to_json};

fn padded(request: &[u8]) -> Vec<u8> {
    let mut buffer = vec![0u8; 1024];
    buffer[..request.len()].copy_from_slice(request);
    buffer
}

#[test]
fn to_json_quotes_keys_and_values_in_the_given_order() {
    assert_eq!(
        to_json(&[("hello", "world"), ("test", "ing")]).unwrap(),
        "{\"hello\":\"world\",\"test\":\"ing\"}"
    );
    assert_eq!(
        to_json(&[("test", "ing"), ("hello", "world")]).unwrap(),
        "{\"test\":\"ing\",\"hello\":\"world\"}"
    );
    assert_eq!(to_json(&[]).unwrap(), "{}");
    assert_eq!(to_json(&[("k", "v")]).unwrap(), "{\"k\":\"v\"}");
}

#[test]
fn to_json_escapes_as_debug_formatting_does() {
    assert_eq!(to_json(&[("a\"b", "c\\d")]).unwrap(), "{\"a\\\"b\":\"c\\\\d\"}");
    assert_eq!(to_json(&[("tab\t", "line\n")]).unwrap(), "{\"tab\\t\":\"line\\n\"}");
    assert_eq!(to_json(&[("é", "")]).unwrap(), "{\"é\":\"\"}");
}

#[test]
fn json_object_writes_members_as_they_are_given() {
    let pairs = vec![
        (String::from("1"), String::from("true")),
        (String::from("\"x\""), String::from("[]")),
    ];
    assert_eq!(json_object(&pairs).unwrap(), "{1:true,\"x\":[]}");
    assert_eq!(json_object(&[]).unwrap(), "{}");
}

#[test]
fn parse_request_reads_method_path_and_headers() {
    let text = b"GET /index.html HTTP/1.1\r\nHost: example\r\nAccept: */*\r\n\r\nbody";
    let request = parse_request(text).unwrap();
    assert_eq!(request.method, b"GET");
    assert_eq!(request.path, b"/index.html");
    assert_eq!(request.headers, vec![&b"Host: example"[..], &b"Accept: */*"[..]]);
}

#[test]
fn parse_request_ignores_zero_bytes_around_the_text() {
    let buffer = padded(b"POST /submit HTTP/1.1\r\n\r\n");
    let request = parse_request(&buffer).unwrap();
    assert_eq!(request.method, b"POST");
    assert_eq!(request.path, b"/submit");
    assert!(request.headers.is_empty());
}

#[test]
fn parse_request_without_line_end_or_version() {
    let request = parse_request(b"GET /").unwrap();
    assert_eq!(request.method, b"GET");
    assert_eq!(request.path, b"/");
    assert!(request.headers.is_empty());
    let request = parse_request(b"GET  /").unwrap();
    assert_eq!(request.path, b"");
}

#[test]
fn parse_request_needs_two_words_in_the_request_line() {
    assert!(parse_request(b"").is_none());
    assert!(parse_request(b"GET").is_none());
    assert!(parse_request(b"GET\r\nHost: a b\r\n").is_none());
    assert!(parse_request(&padded(b"")).is_none());
}

#[test]
fn status_is_200_for_known_methods_and_405_for_others() {
    assert_eq!(status_for(b"HEAD"), 200);
    assert_eq!(status_for(b"GET"), 200);
    assert_eq!(status_for(b"POST"), 200);
    assert_eq!(status_for(b"PUT"), 405);
    assert_eq!(status_for(b"get"), 405);
    assert_eq!(status_for(b""), 405);
}

#[test]
fn body_depends_on_the_method() {
    assert_eq!(body_for(b"HEAD"), b"");
    assert_eq!(body_for(b"GET"), b"{\"hello\":\"world\",\"test\":\"ing\"}");
    assert_eq!(body_for(b"POST"), b"{\"request_method\": \"POST\"}");
    assert_eq!(body_for(b"DELETE"), b"{\"request_method\": \"DELETE\"}");
}

#[test]
fn render_response_writes_status_path_length_and_body() {
    assert_eq!(
        render_response(200, b"/", b"hi"),
        b"HTTP/1.1 200 /\r\nContent-Length: 2\r\n\r\nhi"
    );
    assert_eq!(render_response(405, b"", b""), b"HTTP/1.1 405 \r\nContent-Length: 0\r\n\r\n");
}

#[test]
fn respond_answers_each_method() {
    assert_eq!(
        respond(b"HEAD /a HTTP/1.1\r\n\r\n").unwrap(),
        b"HTTP/1.1 200 /a\r\nContent-Length: 0\r\n\r\n"
    );
    assert_eq!(
        respond(b"GET / HTTP/1.1\r\nHost: x\r\n\r\n").unwrap(),
        &b"HTTP/1.1 200 /\r\nContent-Length: 30\r\n\r\n{\"hello\":\"world\",\"test\":\"ing\"}"[..]
    );
    assert_eq!(
        respond(b"POST /p HTTP/1.1\r\n\r\n").unwrap(),
        &b"HTTP/1.1 200 /p\r\nContent-Length: 26\r\n\r\n{\"request_method\": \"POST\"}"[..]
    );
    assert_eq!(
        respond(b"PATCH /p HTTP/1.1\r\n\r\n").unwrap(),
        &b"HTTP/1.1 405 /p\r\nContent-Length: 27\r\n\r\n{\"request_method\": \"PATCH\"}"[..]
    );
    assert!(respond(b"nonsense").is_none());
}

#[test]
fn handle_request_answers_a_buffer_as_it_was_read() {
    assert_eq!(
        handle_request(&padded(b"GET /hello HTTP/1.1\r\nHost: x\r\n\r\n")).unwrap(),
        &b"HTTP/1.1 200 /hello\r\nContent-Length: 30\r\n\r\n{\"hello\":\"world\",\"test\":\"ing\"}"[..]
    );
    assert!(handle_request(&padded(b"")).is_none());
}

#[test]
fn handle_request_replaces_what_is_no_utf8() {
    let response = handle_request(&padded(b"GET /\xff HTTP/1.1\r\n\r\n")).unwrap();
    let expected =
        "HTTP/1.1 200 /\u{fffd}\r\nContent-Length: 30\r\n\r\n{\"hello\":\"world\",\"test\":\"ing\"}";
    assert_eq!(response, expected.as_bytes());
}
