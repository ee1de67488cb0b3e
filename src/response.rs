//! Responses and their wire form: a status line, the headers, a blank line
//! and the body. `Content-Length` is always sent and always counts the bytes
//! of the body that follows.
use vstd::prelude::*;
use vstd::slice::slice_to_vec;
use crate::bytes::{decimal_of, push_all, push_decimal};

verus! {

/// The statuses the server answers with.
#[derive(Clone, Copy, Debug, PartialEq, Eq, Structural)]
pub enum Status {
    Success,
    Created,
    BadRequest,
    NotFound,
}

/// The numeric code of a status.
pub open spec fn status_code(s: Status) -> u16 {
    match s {
        Status::Success => 200,
        Status::Created => 201,
        Status::BadRequest => 400,
        Status::NotFound => 404,
    }
}

impl Status {
    /// The numeric code of this status.
    pub fn code(&self) -> (r: u16)
        ensures
            r == status_code(*self),
    {
        match self {
            Status::Success => 200,
            Status::Created => 201,
            Status::BadRequest => 400,
            Status::NotFound => 404,
        }
    }
}

/// The content types a response can declare.
#[derive(Clone, Copy, Debug, PartialEq, Eq, Structural)]
pub enum ContentType {
    TextPlain,
    OctetStream,
}

/// A response ready to be written. `gzip` says that `body` is already
/// gzip-compressed and is announced as such.
#[derive(Clone, Debug)]
pub struct Response {
    pub status: Status,
    pub content_type: Option<ContentType>,
    pub gzip: bool,
    pub body: Vec<u8>,
}

/// `HTTP/1.1 200 OK\r\n`
pub open spec fn ok_line() -> Seq<u8> {
    seq![72u8, 84, 84, 80, 47, 49, 46, 49, 32, 50, 48, 48, 32, 79, 75, 13, 10]
}

fn ok_line_bytes() -> (r: Vec<u8>)
    ensures
        r@ == ok_line(),
{
    let a: [u8; 17] = [72, 84, 84, 80, 47, 49, 46, 49, 32, 50, 48, 48, 32, 79, 75, 13, 10];
    assert(a@ =~= ok_line());
    slice_to_vec(&a)
}

/// `HTTP/1.1 201 Created\r\n`
pub open spec fn created_line() -> Seq<u8> {
    seq![72u8, 84, 84, 80, 47, 49, 46, 49, 32, 50, 48, 49, 32, 67, 114, 101, 97, 116, 101, 100, 13, 10]
}

fn created_line_bytes() -> (r: Vec<u8>)
    ensures
        r@ == created_line(),
{
    let a: [u8; 22] = [72, 84, 84, 80, 47, 49, 46, 49, 32, 50, 48, 49, 32, 67, 114, 101, 97, 116, 101, 100, 13, 10];
    assert(a@ =~= created_line());
    slice_to_vec(&a)
}

/// `HTTP/1.1 400 Bad Request\r\n`
pub open spec fn bad_request_line() -> Seq<u8> {
    seq![72u8, 84, 84, 80, 47, 49, 46, 49, 32, 52, 48, 48, 32, 66, 97, 100, 32, 82, 101, 113, 117, 101, 115, 116, 13, 10]
}

fn bad_request_line_bytes() -> (r: Vec<u8>)
    ensures
        r@ == bad_request_line(),
{
    let a: [u8; 26] = [72, 84, 84, 80, 47, 49, 46, 49, 32, 52, 48, 48, 32, 66, 97, 100, 32, 82, 101, 113, 117, 101, 115, 116, 13, 10];
    assert(a@ =~= bad_request_line());
    slice_to_vec(&a)
}

/// `HTTP/1.1 404 Not Found\r\n`
pub open spec fn not_found_line() -> Seq<u8> {
    seq![72u8, 84, 84, 80, 47, 49, 46, 49, 32, 52, 48, 52, 32, 78, 111, 116, 32, 70, 111, 117, 110, 100, 13, 10]
}

fn not_found_line_bytes() -> (r: Vec<u8>)
    ensures
        r@ == not_found_line(),
{
    let a: [u8; 24] = [72, 84, 84, 80, 47, 49, 46, 49, 32, 52, 48, 52, 32, 78, 111, 116, 32, 70, 111, 117, 110, 100, 13, 10];
    assert(a@ =~= not_found_line());
    slice_to_vec(&a)
}

/// `Content-Type: text/plain\r\n`
pub open spec fn text_plain_header() -> Seq<u8> {
    seq![67u8, 111, 110, 116, 101, 110, 116, 45, 84, 121, 112, 101, 58, 32, 116, 101, 120, 116, 47, 112, 108, 97, 105, 110, 13, 10]
}

fn text_plain_header_bytes() -> (r: Vec<u8>)
    ensures
        r@ == text_plain_header(),
{
    let a: [u8; 26] = [67, 111, 110, 116, 101, 110, 116, 45, 84, 121, 112, 101, 58, 32, 116, 101, 120, 116, 47, 112, 108, 97, 105, 110, 13, 10];
    assert(a@ =~= text_plain_header());
    slice_to_vec(&a)
}

/// `Content-Type: application/octet-stream\r\n`
pub open spec fn octet_stream_header() -> Seq<u8> {
    seq![67u8, 111, 110, 116, 101, 110, 116, 45, 84, 121, 112, 101, 58, 32, 97, 112, 112, 108, 105, 99, 97, 116, 105, 111, 110, 47, 111, 99, 116, 101, 116, 45, 115, 116, 114, 101, 97, 109, 13, 10]
}

fn octet_stream_header_bytes() -> (r: Vec<u8>)
    ensures
        r@ == octet_stream_header(),
{
    let a: [u8; 40] = [67, 111, 110, 116, 101, 110, 116, 45, 84, 121, 112, 101, 58, 32, 97, 112, 112, 108, 105, 99, 97, 116, 105, 111, 110, 47, 111, 99, 116, 101, 116, 45, 115, 116, 114, 101, 97, 109, 13, 10];
    assert(a@ =~= octet_stream_header());
    slice_to_vec(&a)
}

/// `Content-Encoding: gzip\r\n`
pub open spec fn gzip_header() -> Seq<u8> {
    seq![67u8, 111, 110, 116, 101, 110, 116, 45, 69, 110, 99, 111, 100, 105, 110, 103, 58, 32, 103, 122, 105, 112, 13, 10]
}

fn gzip_header_bytes() -> (r: Vec<u8>)
    ensures
        r@ == gzip_header(),
{
    let a: [u8; 24] = [67, 111, 110, 116, 101, 110, 116, 45, 69, 110, 99, 111, 100, 105, 110, 103, 58, 32, 103, 122, 105, 112, 13, 10];
    assert(a@ =~= gzip_header());
    slice_to_vec(&a)
}

/// `Content-Length: `
pub open spec fn length_header() -> Seq<u8> {
    seq![67u8, 111, 110, 116, 101, 110, 116, 45, 76, 101, 110, 103, 116, 104, 58, 32]
}

fn length_header_bytes() -> (r: Vec<u8>)
    ensures
        r@ == length_header(),
{
    let a: [u8; 16] = [67, 111, 110, 116, 101, 110, 116, 45, 76, 101, 110, 103, 116, 104, 58, 32];
    assert(a@ =~= length_header());
    slice_to_vec(&a)
}

/// `\r\n`
pub open spec fn crlf() -> Seq<u8> {
    seq![13u8, 10]
}

fn crlf_bytes() -> (r: Vec<u8>)
    ensures
        r@ == crlf(),
{
    let a: [u8; 2] = [13, 10];
    assert(a@ =~= crlf());
    slice_to_vec(&a)
}

/// The status line of `s`, with its line ending.
pub open spec fn status_line(s: Status) -> Seq<u8> {
    match s {
        Status::Success => ok_line(),
        Status::Created => created_line(),
        Status::BadRequest => bad_request_line(),
        Status::NotFound => not_found_line(),
    }
}

/// The `Content-Type` header line of `c`.
pub open spec fn content_type_line(c: ContentType) -> Seq<u8> {
    match c {
        ContentType::TextPlain => text_plain_header(),
        ContentType::OctetStream => octet_stream_header(),
    }
}

/// The bytes sent for a response with these parts: the status line; the
/// `Content-Type`, `Content-Encoding` and `Content-Length` headers in that
/// order, the first two only when present; a blank line; the body.
pub open spec fn wire_of(
    status: Status,
    content_type: Option<ContentType>,
    gzip: bool,
    body: Seq<u8>,
) -> Seq<u8> {
    status_line(status) + match content_type {
        Some(c) => content_type_line(c),
        None => seq![],
    } + if gzip {
        gzip_header()
    } else {
        seq![]
    } + length_header() + decimal_of(body.len()) + crlf() + crlf() + body
}

impl Response {
    /// The bytes sent for this response.
    pub open spec fn wire(&self) -> Seq<u8> {
        wire_of(self.status, self.content_type, self.gzip, self.body@)
    }

    /// A response with this status and nothing else: no content type, no
    /// encoding, an empty body.
    pub fn bare(status: Status) -> (r: Response)
        ensures
            r.status == status,
            r.content_type.is_none(),
            !r.gzip,
            r.body@.len() == 0,
    {
        Response { status, content_type: None, gzip: false, body: Vec::new() }
    }

    /// The default answer: 404 with an empty body.
    pub fn not_found() -> (r: Response)
        ensures
            r.status == Status::NotFound,
            r.content_type.is_none(),
            !r.gzip,
            r.body@.len() == 0,
    {
        Response::bare(Status::NotFound)
    }

    /// Serializes the response into the bytes written to the connection.
    pub fn to_bytes(&self) -> (r: Vec<u8>)
        ensures
            r@ == self.wire(),
    {
        let mut out = match self.status {
            Status::Success => ok_line_bytes(),
            Status::Created => created_line_bytes(),
            Status::BadRequest => bad_request_line_bytes(),
            Status::NotFound => not_found_line_bytes(),
        };
        let ghost head = out@;
        match self.content_type {
            Some(ContentType::TextPlain) => push_all(&mut out, text_plain_header_bytes().as_slice()),
            Some(ContentType::OctetStream) => push_all(&mut out, octet_stream_header_bytes().as_slice()),
            None => {
                assert(out@ =~= head + seq![]);
            },
        }
        let ghost typed = out@;
        if self.gzip {
            push_all(&mut out, gzip_header_bytes().as_slice());
        } else {
            assert(out@ =~= typed + seq![]);
        }
        push_all(&mut out, length_header_bytes().as_slice());
        push_decimal(&mut out, self.body.len());
        push_all(&mut out, crlf_bytes().as_slice());
        push_all(&mut out, crlf_bytes().as_slice());
        push_all(&mut out, self.body.as_slice());
        out
    }
}

} // verus!
