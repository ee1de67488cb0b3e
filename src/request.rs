//! The request parser: one pass over the text of a request, line by line.
//!
//! The first line is the request line (`GET /path HTTP/1.1`). Each later line
//! is matched against the three headers the server reads; a non-empty line
//! without a colon is taken as the body. Anything else is ignored, and every
//! field keeps its empty or zero default when nothing sets it.
use vstd::prelude::*;
use vstd::utf8::valid_utf8;
use crate::bytes::{
    copy_range, find_byte, find_from, has_prefix, holds_byte, contains_byte, lemma_find_from,
    parse_usize, split_on, split_trimmed, starts_with, trim, usize_of,
};

verus! {

/// The request method, as far as the server tells methods apart.
#[derive(Clone, Copy, Debug, PartialEq, Eq, Structural)]
pub enum Method {
    Get,
    Post,
    Other,
}

/// A parsed request. It owns all of its bytes.
#[derive(Clone, Debug)]
pub struct Request {
    pub method: Method,
    /// The request target; empty when the request line has none.
    pub path: Vec<u8>,
    /// The value of the `User-Agent` header.
    pub user_agent: Vec<u8>,
    /// The tokens of the `Accept-Encoding` header, in the client's order.
    pub accept_encoding: Vec<Vec<u8>>,
    /// The declared `Content-Length`, zero when absent or unreadable.
    pub content_length: usize,
    /// The body captured with the headers.
    pub body: Vec<u8>,
}

/// The mathematical value of a [`Request`].
pub struct RequestModel {
    pub method: Method,
    pub path: Seq<u8>,
    pub user_agent: Seq<u8>,
    pub accept_encoding: Seq<Seq<u8>>,
    pub content_length: usize,
    pub body: Seq<u8>,
}

impl View for Request {
    type V = RequestModel;

    open spec fn view(&self) -> RequestModel {
        RequestModel {
            method: self.method,
            path: self.path@,
            user_agent: self.user_agent@,
            accept_encoding: self.accept_encoding@.map_values(|v: Vec<u8>| v@),
            content_length: self.content_length,
            body: self.body@,
        }
    }
}

/// `GET `
pub open spec fn get_marker() -> Seq<u8> {
    seq![71u8, 69, 84, 32]
}

/// `POST `
pub open spec fn post_marker() -> Seq<u8> {
    seq![80u8, 79, 83, 84, 32]
}

/// `User-Agent: `
pub open spec fn user_agent_marker() -> Seq<u8> {
    seq![85u8, 115, 101, 114, 45, 65, 103, 101, 110, 116, 58, 32]
}

/// `Accept-Encoding: `
pub open spec fn accept_encoding_marker() -> Seq<u8> {
    seq![65u8, 99, 99, 101, 112, 116, 45, 69, 110, 99, 111, 100, 105, 110, 103, 58, 32]
}

/// `Content-Length: `
pub open spec fn content_length_marker() -> Seq<u8> {
    seq![67u8, 111, 110, 116, 101, 110, 116, 45, 76, 101, 110, 103, 116, 104, 58, 32]
}

fn get_marker_bytes() -> (r: [u8; 4])
    ensures
        r@ == get_marker(),
{
    let r: [u8; 4] = [71, 69, 84, 32];
    assert(r@ =~= get_marker());
    r
}

fn post_marker_bytes() -> (r: [u8; 5])
    ensures
        r@ == post_marker(),
{
    let r: [u8; 5] = [80, 79, 83, 84, 32];
    assert(r@ =~= post_marker());
    r
}

fn user_agent_marker_bytes() -> (r: [u8; 12])
    ensures
        r@ == user_agent_marker(),
{
    let r: [u8; 12] = [85, 115, 101, 114, 45, 65, 103, 101, 110, 116, 58, 32];
    assert(r@ =~= user_agent_marker());
    r
}

fn accept_encoding_marker_bytes() -> (r: [u8; 17])
    ensures
        r@ == accept_encoding_marker(),
{
    let r: [u8; 17] = [65, 99, 99, 101, 112, 116, 45, 69, 110, 99, 111, 100, 105, 110, 103, 58, 32];
    assert(r@ =~= accept_encoding_marker());
    r
}

fn content_length_marker_bytes() -> (r: [u8; 16])
    ensures
        r@ == content_length_marker(),
{
    let r: [u8; 16] = [67, 111, 110, 116, 101, 110, 116, 45, 76, 101, 110, 103, 116, 104, 58, 32];
    assert(r@ =~= content_length_marker());
    r
}

/// Where the line that starts at `i` ends: the next line feed, or the end.
pub open spec fn line_end(t: Seq<u8>, i: int) -> int {
    find_from(t, 10, i)
}

/// The line that starts at `i`, without its ending (`\n` or `\r\n`). A line
/// that runs to the end of the text keeps a final `\r`.
pub open spec fn line_at(t: Seq<u8>, i: int) -> Seq<u8> {
    let e = line_end(t, i);
    let raw = t.subrange(i, e);
    if e < t.len() && raw.len() > 0 && raw.last() == 13 {
        raw.drop_last()
    } else {
        raw
    }
}

/// The lines of `t` from position `i` on. A final line feed ends the last
/// line and does not open an empty one.
pub open spec fn lines_from(t: Seq<u8>, i: int) -> Seq<Seq<u8>>
    decreases t.len() - i,
{
    if i < 0 || i >= t.len() || line_end(t, i) < i {
        seq![]
    } else if line_end(t, i) >= t.len() {
        seq![line_at(t, i)]
    } else {
        seq![line_at(t, i)] + lines_from(t, line_end(t, i) + 1)
    }
}

/// The lines of `t`.
pub open spec fn lines_of(t: Seq<u8>) -> Seq<Seq<u8>> {
    lines_from(t, 0)
}

/// The target on a request line, given what follows the method: the text up
/// to the next space, or nothing when no space follows.
pub open spec fn target_of(rest: Seq<u8>) -> Seq<u8> {
    let e = find_from(rest, 32, 0);
    if e < rest.len() {
        rest.subrange(0, e)
    } else {
        seq![]
    }
}

/// The request with the given method and target and every other field empty.
pub open spec fn blank_request(method: Method, path: Seq<u8>) -> RequestModel {
    RequestModel {
        method,
        path,
        user_agent: seq![],
        accept_encoding: seq![],
        content_length: 0,
        body: seq![],
    }
}

/// What the request line `l` says: its method and target.
pub open spec fn request_line(l: Seq<u8>) -> RequestModel {
    if has_prefix(l, get_marker()) {
        blank_request(Method::Get, target_of(l.subrange(4, l.len() as int)))
    } else if has_prefix(l, post_marker()) {
        blank_request(Method::Post, target_of(l.subrange(5, l.len() as int)))
    } else {
        blank_request(Method::Other, seq![])
    }
}

/// `r` after reading one line that follows the request line.
pub open spec fn apply_line(r: RequestModel, l: Seq<u8>) -> RequestModel {
    if has_prefix(l, user_agent_marker()) {
        RequestModel { user_agent: l.subrange(12, l.len() as int), ..r }
    } else if has_prefix(l, accept_encoding_marker()) {
        RequestModel {
            accept_encoding: split_on(l.subrange(17, l.len() as int), 44).map_values(
                |p: Seq<u8>| trim(p),
            ),
            ..r
        }
    } else if has_prefix(l, content_length_marker()) {
        match usize_of(l.subrange(16, l.len() as int)) {
            Some(v) => RequestModel { content_length: v, ..r },
            None => r,
        }
    } else if l.len() > 0 && !holds_byte(l, 58) {
        RequestModel { body: l, ..r }
    } else {
        r
    }
}

/// `r` after reading the lines `ls` in order.
pub open spec fn apply_lines(r: RequestModel, ls: Seq<Seq<u8>>) -> RequestModel
    decreases ls.len(),
{
    if ls.len() == 0 {
        r
    } else {
        apply_lines(apply_line(r, ls[0]), ls.drop_first())
    }
}

/// The request that the text `t` holds.
pub open spec fn request_of(t: Seq<u8>) -> RequestModel {
    let ls = lines_of(t);
    if ls.len() == 0 {
        blank_request(Method::Other, seq![])
    } else {
        apply_lines(request_line(ls[0]), ls.drop_first())
    }
}

/// The line of `t` that starts at `i` and ends at `e`, as `line_at` states.
fn line_bytes(t: &[u8], i: usize, e: usize) -> (r: Vec<u8>)
    requires
        i <= e <= t@.len(),
        e == line_end(t@, i as int),
    ensures
        r@ == line_at(t@, i as int),
{
    if e < t.len() && e > i && t[e - 1] == 13 {
        assert(t@.subrange(i as int, e as int).drop_last() =~= t@.subrange(
            i as int,
            e - 1,
        ));
        copy_range(t, i, e - 1)
    } else {
        copy_range(t, i, e)
    }
}

/// The target that follows the method on a request line.
fn target_bytes(rest: &[u8]) -> (r: Vec<u8>)
    ensures
        r@ == target_of(rest@),
{
    let e = find_byte(rest, 32, 0);
    if e < rest.len() {
        copy_range(rest, 0, e)
    } else {
        Vec::new()
    }
}

/// Reads the request line `l`.
fn read_request_line(l: &[u8]) -> (r: Request)
    ensures
        r@ == request_line(l@),
{
    let mut req = Request {
        method: Method::Other,
        path: Vec::new(),
        user_agent: Vec::new(),
        accept_encoding: Vec::new(),
        content_length: 0,
        body: Vec::new(),
    };
    if starts_with(l, &get_marker_bytes()) {
        req.method = Method::Get;
        req.path = target_bytes(copy_range(l, 4, l.len()).as_slice());
    } else if starts_with(l, &post_marker_bytes()) {
        req.method = Method::Post;
        req.path = target_bytes(copy_range(l, 5, l.len()).as_slice());
    }
    assert(req@.accept_encoding =~= Seq::<Seq<u8>>::empty());
    req
}

/// Reads one line that follows the request line into `req`.
fn read_header_line(req: &mut Request, l: &[u8])
    ensures
        final(req)@ == apply_line(old(req)@, l@),
{
    if starts_with(l, &user_agent_marker_bytes()) {
        req.user_agent = copy_range(l, 12, l.len());
    } else if starts_with(l, &accept_encoding_marker_bytes()) {
        let rest = copy_range(l, 17, l.len());
        req.accept_encoding = split_trimmed(rest.as_slice(), 44);
    } else if starts_with(l, &content_length_marker_bytes()) {
        let rest = copy_range(l, 16, l.len());
        match parse_usize(rest.as_slice()) {
            Some(v) => {
                req.content_length = v;
            },
            None => {},
        }
    } else if l.len() > 0 && !contains_byte(l, 58) {
        req.body = copy_range(l, 0, l.len());
        assert(req.body@ =~= l@);
    }
}

/// Parses the text of a request, as `request_of` states.
pub fn parse_request(text: &[u8]) -> (r: Request)
    ensures
        r@ == request_of(text@),
{
    let n = text.len();
    if n == 0 {
        let r = read_request_line(text);
        assert(lines_of(text@) =~= Seq::<Seq<u8>>::empty());
        return r;
    }
    let e0 = find_byte(text, 10, 0);
    let first = line_bytes(text, 0, e0);
    let mut req = read_request_line(first.as_slice());
    proof {
        lemma_find_from(text@, 10, 0);
        assert(lines_of(text@) =~= seq![line_at(text@, 0)] + lines_from(text@, e0 + 1));
        assert(lines_of(text@).drop_first() =~= lines_from(text@, e0 + 1));
    }
    if e0 >= n {
        assert(lines_from(text@, e0 + 1) =~= Seq::<Seq<u8>>::empty());
        return req;
    }
    let mut i: usize = e0 + 1;
    while i < n
        invariant
            n == text@.len(),
            i <= n,
            apply_lines(req@, lines_from(text@, i as int)) == request_of(text@),
        decreases n - i,
    {
        let e = find_byte(text, 10, i);
        let line = line_bytes(text, i, e);
        proof {
            lemma_find_from(text@, 10, i as int);
            let ls = lines_from(text@, i as int);
            assert(ls =~= seq![line_at(text@, i as int)] + lines_from(text@, e + 1));
            assert(ls.drop_first() =~= lines_from(text@, e + 1));
        }
        read_header_line(&mut req, line.as_slice());
        if e >= n {
            assert(lines_from(text@, e + 1) =~= Seq::<Seq<u8>>::empty());
            i = n;
        } else {
            i = e + 1;
        }
    }
    assert(lines_from(text@, i as int) =~= Seq::<Seq<u8>>::empty());
    req
}

/// The text that a request's raw bytes decode to: the bytes read as UTF-8,
/// each ill-formed sequence replaced by U+FFFD.
pub uninterp spec fn lossy_utf8(b: Seq<u8>) -> Seq<u8>;

/// Relies on `String::from_utf8_lossy`: it decodes `b` as UTF-8, replacing
/// ill-formed sequences, and returns well-formed UTF-8 unchanged.
#[verifier::external_body]
fn decode_lossy(b: &[u8]) -> (r: Vec<u8>)
    ensures
        r@ == lossy_utf8(b@),
        valid_utf8(b@) ==> r@ == b@,
{
    String::from_utf8_lossy(b).into_owned().into_bytes()
}

/// Decodes the raw bytes of a request and parses the text.
pub fn read_request(raw: &[u8]) -> (r: Request)
    ensures
        r@ == request_of(lossy_utf8(raw@)),
        valid_utf8(raw@) ==> r@ == request_of(raw@),
{
    let text = decode_lossy(raw);
    parse_request(text.as_slice())
}

} // verus!
