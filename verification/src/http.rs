//! What the pool's jobs do for one connection, as far as it is computing:
//! reading the request line and the headers out of the bytes that came in,
//! and writing the response.

use crate::builder::Builder;
use crate::json::{json_text, quoted_pairs, to_json};
use crate::text::{decimal, same_bytes, split, split_spec, strip, stripped, to_decimal};
use vstd::prelude::*;
use vstd::slice::slice_to_vec;
use vstd::utf8::{decode_utf8, decode_utf8_encode_utf8, encode_utf8, valid_utf8};

verus! {

/// Carriage return and line feed, which end a line of a request.
pub open spec fn crlf() -> Seq<u8> {
    seq![13u8, 10u8]
}

/// The space that parts the words of the request line.
pub open spec fn space() -> Seq<u8> {
    seq![32u8]
}

/// A request, seen as values.
pub struct RequestView {
    pub method: Seq<u8>,
    pub path: Seq<u8>,
    pub headers: Seq<Seq<u8>>,
}

/// The parts of a request, as slices of the text it was read from.
pub struct Request<'a> {
    /// The first word of the request line.
    pub method: &'a [u8],
    /// The second word of the request line.
    pub path: &'a [u8],
    /// The lines between the request line and the first empty line.
    pub headers: Vec<&'a [u8]>,
}

impl<'a> View for Request<'a> {
    type V = RequestView;

    open spec fn view(&self) -> RequestView {
        RequestView {
            method: self.method@,
            path: self.path@,
            headers: Seq::new(self.headers@.len(), |i: int| self.headers@[i]@),
        }
    }
}

/// The lines of a request: the text without the zero bytes around it, cut
/// at each line end.
pub open spec fn lines_of(text: Seq<u8>) -> Seq<Seq<u8>> {
    split_spec(stripped(text, 0, 0), crlf())
}

/// The index of the first empty line at or behind `at`, or the number of
/// lines where none is empty.
pub open spec fn header_end(lines: Seq<Seq<u8>>, at: int) -> int
    decreases lines.len() - at,
{
    if at < 0 || at >= lines.len() || lines[at].len() == 0 {
        at
    } else {
        header_end(lines, at + 1)
    }
}

/// The request that `text` holds. There is none where the request line has
/// fewer than two words.
pub open spec fn parsed(text: Seq<u8>) -> Option<RequestView> {
    let lines = lines_of(text);
    let words = split_spec(lines[0], space());
    if words.len() < 2 {
        None
    } else {
        Some(
            RequestView {
                method: words[0],
                path: words[1],
                headers: lines.subrange(1, header_end(lines, 1)),
            },
        )
    }
}

/// The status of the response to a request with this method.
pub open spec fn status_code(method: Seq<u8>) -> nat {
    if method == encode_utf8("HEAD"@) || method == encode_utf8("GET"@) || method == encode_utf8(
        "POST"@,
    ) {
        200
    } else {
        405
    }
}

/// The object that answers a `GET`.
pub open spec fn greeting() -> Seq<u8> {
    encode_utf8(json_text(quoted_pairs(seq![("hello", "world"), ("test", "ing")])))
}

/// The body of the response to a request with this method: nothing for
/// `HEAD`, the greeting for `GET`, and for any other the method itself.
pub open spec fn body_of(method: Seq<u8>) -> Seq<u8> {
    if method == encode_utf8("HEAD"@) {
        Seq::empty()
    } else if method == encode_utf8("GET"@) {
        greeting()
    } else {
        encode_utf8("{\"request_method\": \""@) + method + encode_utf8("\"}"@)
    }
}

/// The bytes of a response: status line, length of the body, empty line, body.
pub open spec fn response_bytes(code: nat, path: Seq<u8>, body: Seq<u8>) -> Seq<u8> {
    encode_utf8("HTTP/1.1 "@) + decimal(code) + encode_utf8(" "@) + path + encode_utf8(
        "\r\nContent-Length: "@,
    ) + decimal(body.len()) + encode_utf8("\r\n\r\n"@) + body
}

/// The response to the request that `text` holds, if it holds one.
pub open spec fn response_to(text: Seq<u8>) -> Option<Seq<u8>> {
    match parsed(text) {
        Some(request) => Some(
            response_bytes(status_code(request.method), request.path, body_of(request.method)),
        ),
        None => None,
    }
}

/// The text that a lossy decoding makes of bytes: what they encode where
/// they are valid UTF-8, with a replacement character for what is not.
pub uninterp spec fn lossy_text(bytes: Seq<u8>) -> Seq<char>;

/// `String::from_utf8_lossy`, as an owned string. Valid UTF-8 comes back as
/// the text it encodes; of other input only the name of the result is known.
#[verifier::external_body]
fn decode_lossy(bytes: &[u8]) -> (text: String)
    ensures
        text@ == lossy_text(bytes@),
        valid_utf8(bytes@) ==> text@ == decode_utf8(bytes@),
{
    String::from_utf8_lossy(bytes).into_owned()
}

/// Reads the request out of `text`.
pub fn parse_request<'a>(text: &'a [u8]) -> (request: Option<Request<'a>>)
    ensures
        match request {
            Some(found) => parsed(text@) == Some(found@),
            None => parsed(text@) is None,
        },
{
    let line_end: Vec<u8> = vec![13u8, 10u8];
    let blank: Vec<u8> = vec![32u8];
    assert(line_end@ =~= crlf());
    assert(blank@ =~= space());
    let lines = split(strip(text, 0, 0), line_end.as_slice());
    let words = split(lines[0], blank.as_slice());
    if words.len() < 2 {
        return None;
    }
    let ghost all = lines_of(text@);
    let mut headers: Vec<&'a [u8]> = Vec::new();
    let mut i: usize = 1;
    while i < lines.len() && lines[i].len() != 0
        invariant
            1 <= i <= lines@.len(),
            lines@.len() == all.len(),
            forall|j: int| 0 <= j < lines@.len() ==> (#[trigger] lines@[j])@ == all[j],
            headers@.len() == i - 1,
            forall|j: int| 0 <= j < headers@.len() ==> (#[trigger] headers@[j])@ == all[j + 1],
            header_end(all, i as int) == header_end(all, 1),
        decreases lines@.len() - i,
    {
        headers.push(lines[i]);
        i = i + 1;
    }
    let request = Request { method: words[0], path: words[1], headers };
    assert(request@.headers =~= all.subrange(1, header_end(all, 1)));
    Some(request)
}

/// The body of the response to a request with this method.
pub fn body_for(method: &[u8]) -> (body: Vec<u8>)
    ensures
        body@ == body_of(method@),
{
    if same_bytes(method, "HEAD".as_bytes()) {
        Vec::new()
    } else if same_bytes(method, "GET".as_bytes()) {
        let entries: Vec<(&str, &str)> = vec![("hello", "world"), ("test", "ing")];
        assert(entries@ =~= seq![("hello", "world"), ("test", "ing")]);
        // The object is text, so it is always the first arm.
        match to_json(entries.as_slice()) {
            Ok(object) => slice_to_vec(object.as_str().as_bytes()),
            Err(rejected) => rejected.into_bytes(),
        }
    } else {
        let mut body = Builder::default();
        body.append("{\"request_method\": \"");
        body.append(method);
        body.append("\"}");
        body.into_bytes()
    }
}

/// The status of the response to a request with this method.
pub fn status_for(method: &[u8]) -> (code: u16)
    ensures
        code == status_code(method@),
{
    if same_bytes(method, "HEAD".as_bytes()) || same_bytes(method, "GET".as_bytes()) || same_bytes(
        method,
        "POST".as_bytes(),
    ) {
        200
    } else {
        405
    }
}

/// Writes a response with the given status, path and body.
pub fn render_response(code: u16, path: &[u8], body: &[u8]) -> (response: Vec<u8>)
    ensures
        response@ == response_bytes(code as nat, path@, body@),
{
    let mut out = Builder::default();
    out.append("HTTP/1.1 ");
    out.append(to_decimal(code as usize).as_slice());
    out.append(" ");
    out.append(path);
    out.append("\r\nContent-Length: ");
    out.append(to_decimal(body.len()).as_slice());
    out.append("\r\n\r\n");
    out.append(body);
    out.into_bytes()
}

/// The response to the request that `text` holds, or nothing where its
/// request line has fewer than two words.
pub fn respond(text: &[u8]) -> (response: Option<Vec<u8>>)
    ensures
        match response {
            Some(bytes) => response_to(text@) == Some(bytes@),
            None => response_to(text@) is None,
        },
{
    match parse_request(text) {
        Some(request) => {
            let body = body_for(request.method);
            Some(render_response(status_for(request.method), request.path, body.as_slice()))
        },
        None => None,
    }
}

/// The response to what was read from a connection into `buffer`. The bytes
/// are decoded as text first, with a replacement character for each part
/// that is no valid UTF-8, and the response answers that text.
pub fn handle_request(buffer: &[u8]) -> (response: Option<Vec<u8>>)
    ensures
        match response {
            Some(bytes) => response_to(encode_utf8(lossy_text(buffer@))) == Some(bytes@),
            None => response_to(encode_utf8(lossy_text(buffer@))) is None,
        },
        valid_utf8(buffer@) ==> (match response {
            Some(bytes) => response_to(buffer@) == Some(bytes@),
            None => response_to(buffer@) is None,
        }),
{
    let text = decode_lossy(buffer);
    proof {
        if valid_utf8(buffer@) {
            decode_utf8_encode_utf8(buffer@);
        }
    }
    respond(text.as_str().as_bytes())
}

} // verus!
