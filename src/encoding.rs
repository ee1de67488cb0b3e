//! Content negotiation: a body is gzip-compressed when the client lists
//! `gzip` among its accepted encodings, in any letter case.
use std::io::Write;
use vstd::prelude::*;
use vstd::slice::slice_to_vec;
use crate::bytes::{eq_ignore_case, same_ignoring_case};
use crate::response::{ContentType, Response, Status};

verus! {

/// `gzip`
pub open spec fn gzip_token() -> Seq<u8> {
    seq![103u8, 122, 105, 112]
}

fn gzip_token_bytes() -> (r: Vec<u8>)
    ensures
        r@ == gzip_token(),
{
    let a: [u8; 4] = [103, 122, 105, 112];
    assert(a@ =~= gzip_token());
    slice_to_vec(&a)
}

/// Some token of `tokens` is `gzip`, up to letter case.
pub open spec fn accepts_gzip(tokens: Seq<Seq<u8>>) -> bool {
    exists|i: int| 0 <= i < tokens.len() && same_ignoring_case(#[trigger] tokens[i], gzip_token())
}

/// Whether the client's `Accept-Encoding` tokens ask for gzip. Tokens are
/// scanned in the client's order and the first `gzip` decides; no token, or
/// no such token, means the body is sent as it is.
pub fn wants_gzip(tokens: &Vec<Vec<u8>>) -> (r: bool)
    ensures
        r == accepts_gzip(tokens@.map_values(|v: Vec<u8>| v@)),
{
    let ghost ts = tokens@.map_values(|v: Vec<u8>| v@);
    let g = gzip_token_bytes();
    let mut i: usize = 0;
    while i < tokens.len()
        invariant
            i <= tokens@.len(),
            ts == tokens@.map_values(|v: Vec<u8>| v@),
            g@ == gzip_token(),
            forall|j: int| 0 <= j < i ==> !same_ignoring_case(#[trigger] ts[j], gzip_token()),
        decreases tokens@.len() - i,
    {
        if eq_ignore_case(tokens[i].as_slice(), g.as_slice()) {
            assert(same_ignoring_case(ts[i as int], gzip_token()));
            return true;
        }
        i = i + 1;
    }
    false
}

/// The gzip stream that compresses `b`.
pub uninterp spec fn gzip_of(b: Seq<u8>) -> Seq<u8>;

/// Relies on flate2's `GzEncoder` at the default level and with the default
/// header (no name, time stamp 0, operating system 255): writing `b` and
/// finishing yields the gzip stream of `b`, which depends on `b` alone. The
/// stream is written into a `Vec`, whose writes cannot fail, and deflate with
/// the default parameters reports no error, so neither step returns `Err`.
#[verifier::external_body]
fn gzip(b: &[u8]) -> (r: Vec<u8>)
    ensures
        r@ == gzip_of(b@),
{
    let mut e = flate2::write::GzEncoder::new(Vec::new(), flate2::Compression::default());
    e.write_all(b).expect("writing into a Vec does not fail");
    e.finish().expect("finishing into a Vec does not fail")
}

/// `resp` is a 200 response of type `ct` that carries `body` as negotiated
/// with `tokens`: gzip-compressed and marked so when the client accepts gzip,
/// unchanged otherwise.
pub open spec fn is_negotiated(
    resp: Response,
    ct: ContentType,
    tokens: Seq<Seq<u8>>,
    body: Seq<u8>,
) -> bool {
    &&& resp.status == Status::Success
    &&& resp.content_type == Some(ct)
    &&& resp.gzip == accepts_gzip(tokens)
    &&& resp.body@ == if accepts_gzip(tokens) {
        gzip_of(body)
    } else {
        body
    }
}

/// A 200 response of type `ct` whose body is `body`, encoded as the client's
/// `Accept-Encoding` tokens ask.
pub fn negotiate(ct: ContentType, tokens: &Vec<Vec<u8>>, body: &[u8]) -> (r: Response)
    ensures
        is_negotiated(r, ct, tokens@.map_values(|v: Vec<u8>| v@), body@),
{
    if wants_gzip(tokens) {
        Response { status: Status::Success, content_type: Some(ct), gzip: true, body: gzip(body) }
    } else {
        Response { status: Status::Success, content_type: Some(ct), gzip: false, body: slice_to_vec(body) }
    }
}

} // verus!
