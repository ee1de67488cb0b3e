//! Routing and the handlers.
//!
//! Routes are tried top to bottom and the first match wins:
//! `GET /echo/{text}`, `GET /user-agent`, `GET /files/{name}`, `GET /`,
//! `POST /files/{name}`; anything else is answered 404. The handlers decide
//! the answer; reading and writing files is left to the caller, which is
//! told what to do by a [`Step`].
use vstd::prelude::*;
use crate::bytes::{concat, copy_range, has_prefix, starts_with};
use crate::encoding::{accepts_gzip, is_negotiated, negotiate};
use crate::request::{Method, Request, RequestModel};
use crate::response::{wire_of, ContentType, Response, Status};

verus! {

/// `/echo/`
pub open spec fn echo_prefix() -> Seq<u8> {
    seq![47u8, 101, 99, 104, 111, 47]
}

fn echo_prefix_bytes() -> (r: [u8; 6])
    ensures
        r@ == echo_prefix(),
{
    let a: [u8; 6] = [47, 101, 99, 104, 111, 47];
    assert(a@ =~= echo_prefix());
    a
}

/// `/user-agent`
pub open spec fn user_agent_path() -> Seq<u8> {
    seq![47u8, 117, 115, 101, 114, 45, 97, 103, 101, 110, 116]
}

fn user_agent_path_bytes() -> (r: [u8; 11])
    ensures
        r@ == user_agent_path(),
{
    let a: [u8; 11] = [47, 117, 115, 101, 114, 45, 97, 103, 101, 110, 116];
    assert(a@ =~= user_agent_path());
    a
}

/// `/files/`
pub open spec fn files_prefix() -> Seq<u8> {
    seq![47u8, 102, 105, 108, 101, 115, 47]
}

fn files_prefix_bytes() -> (r: [u8; 7])
    ensures
        r@ == files_prefix(),
{
    let a: [u8; 7] = [47, 102, 105, 108, 101, 115, 47];
    assert(a@ =~= files_prefix());
    a
}

/// `/`
pub open spec fn root_path() -> Seq<u8> {
    seq![47u8]
}

fn root_path_bytes() -> (r: [u8; 1])
    ensures
        r@ == root_path(),
{
    let a: [u8; 1] = [47];
    assert(a@ =~= root_path());
    a
}

/// The handler a request goes to.
#[derive(Clone, Copy, Debug, PartialEq, Eq, Structural)]
pub enum Route {
    Root,
    Echo,
    UserAgent,
    FileRead,
    FileWrite,
    NotFound,
}

/// The route of a request with method `m` and target `p`. Patterns match
/// by prefix, except `/`, which matches only itself.
pub open spec fn route_of(m: Method, p: Seq<u8>) -> Route {
    match m {
        Method::Get => if has_prefix(p, echo_prefix()) {
            Route::Echo
        } else if has_prefix(p, user_agent_path()) {
            Route::UserAgent
        } else if has_prefix(p, files_prefix()) {
            Route::FileRead
        } else if p == root_path() {
            Route::Root
        } else {
            Route::NotFound
        },
        Method::Post => if has_prefix(p, files_prefix()) {
            Route::FileWrite
        } else {
            Route::NotFound
        },
        Method::Other => Route::NotFound,
    }
}

/// Picks the handler for a request with method `m` and target `path`.
pub fn route(m: Method, path: &[u8]) -> (r: Route)
    ensures
        r == route_of(m, path@),
{
    match m {
        Method::Get => {
            if starts_with(path, &echo_prefix_bytes()) {
                Route::Echo
            } else if starts_with(path, &user_agent_path_bytes()) {
                Route::UserAgent
            } else if starts_with(path, &files_prefix_bytes()) {
                Route::FileRead
            } else if path.len() == 1 && path[0] == 47 {
                assert(path@ =~= root_path());
                Route::Root
            } else {
                Route::NotFound
            }
        },
        Method::Post => {
            if starts_with(path, &files_prefix_bytes()) {
                Route::FileWrite
            } else {
                Route::NotFound
            }
        },
        Method::Other => Route::NotFound,
    }
}

/// What `POST /files/{name}` stores is what `GET /files/{name}` reads: the
/// two targets go to the file handlers and name the same file.
pub proof fn lemma_upload_then_read(name: Seq<u8>)
    ensures
        route_of(Method::Post, files_prefix() + name) == Route::FileWrite,
        route_of(Method::Get, files_prefix() + name) == Route::FileRead,
        file_name(files_prefix() + name) == name,
{
    let p = files_prefix() + name;
    assert(p.subrange(0, 7) =~= files_prefix());
    assert(p[1] != echo_prefix()[1]);
    assert(p.subrange(0, 6)[1] != echo_prefix()[1]);
    if p.len() >= 11 {
        assert(p.subrange(0, 11)[1] != user_agent_path()[1]);
    }
    assert(file_name(p) =~= name);
}

/// A file stored by an accepted `POST /files/{name}` under `base` is served
/// back by `GET /files/{name}`: both requests name the file `base ++ name`,
/// and when the reader does not accept gzip, the answer to reading stored
/// bytes `stored` is 200 `application/octet-stream` carrying exactly those
/// bytes.
pub proof fn lemma_stored_file_is_served(
    name: Seq<u8>,
    base: Seq<u8>,
    stored: Seq<u8>,
    tokens: Seq<Seq<u8>>,
    resp: Response,
)
    requires
        !accepts_gzip(tokens),
        is_negotiated(resp, ContentType::OctetStream, tokens, stored),
    ensures
        route_of(Method::Post, files_prefix() + name) == Route::FileWrite,
        route_of(Method::Get, files_prefix() + name) == Route::FileRead,
        base + file_name(files_prefix() + name) == base + name,
        resp.status == Status::Success,
        resp.body@ == stored,
        resp.wire() == wire_of(Status::Success, Some(ContentType::OctetStream), false, stored),
{
    lemma_upload_then_read(name);
}

/// What the caller does next for a request.
#[derive(Clone, Debug)]
pub enum Step {
    /// Send this response.
    Reply(Response),
    /// Read the file at this path, then answer with [`file_response`].
    ReadFile(Vec<u8>),
    /// Create `dir` with its parents if needed, write `contents` to `path`,
    /// then answer 201 with an empty body.
    WriteFile { dir: Vec<u8>, path: Vec<u8>, contents: Vec<u8> },
}

/// `resp` has status `s`, no content type, no encoding and an empty body.
pub open spec fn is_bare(resp: Response, s: Status) -> bool {
    &&& resp.status == s
    &&& resp.content_type.is_none()
    &&& !resp.gzip
    &&& resp.body@.len() == 0
}

/// The file name in a `/files/{name}` target.
pub open spec fn file_name(p: Seq<u8>) -> Seq<u8> {
    p.subrange(7, p.len() as int)
}

/// A file upload is accepted: the declared length equals the length of the
/// body received, and the file name is not empty.
pub open spec fn upload_accepted(m: RequestModel) -> bool {
    m.content_length == m.body.len() && file_name(m.path).len() > 0
}

/// Decides the answer to `req`, with files under `base_dir`: a file path is
/// the base directory and the file name joined as they are.
pub fn handle_request(req: &Request, base_dir: &[u8]) -> (r: Step)
    ensures
        ({
            let m = req@;
            match route_of(m.method, m.path) {
                Route::Root => (r matches Step::Reply(resp) && is_bare(resp, Status::Success)),
                Route::Echo => (r matches Step::Reply(resp) && is_negotiated(
                    resp,
                    ContentType::TextPlain,
                    m.accept_encoding,
                    m.path.subrange(6, m.path.len() as int),
                )),
                Route::UserAgent => (r matches Step::Reply(resp) && is_negotiated(
                    resp,
                    ContentType::TextPlain,
                    m.accept_encoding,
                    m.user_agent,
                )),
                Route::FileRead => (r matches Step::ReadFile(p) && p@ == base_dir@ + file_name(
                    m.path,
                )),
                Route::FileWrite => if upload_accepted(m) {
                    (r matches Step::WriteFile { dir, path, contents } && dir@ == base_dir@
                        && path@ == base_dir@ + file_name(m.path) && contents@ == m.body)
                } else {
                    (r matches Step::Reply(resp) && is_bare(resp, Status::NotFound))
                },
                Route::NotFound => (r matches Step::Reply(resp) && is_bare(
                    resp,
                    Status::NotFound,
                )),
            }
        }),
{
    let path = req.path.as_slice();
    match route(req.method, path) {
        Route::Root => Step::Reply(Response::bare(Status::Success)),
        Route::Echo => {
            let text = copy_range(path, 6, path.len());
            Step::Reply(negotiate(ContentType::TextPlain, &req.accept_encoding, text.as_slice()))
        },
        Route::UserAgent => Step::Reply(
            negotiate(ContentType::TextPlain, &req.accept_encoding, req.user_agent.as_slice()),
        ),
        Route::FileRead => {
            let name = copy_range(path, 7, path.len());
            Step::ReadFile(concat(base_dir, name.as_slice()))
        },
        Route::FileWrite => {
            let name = copy_range(path, 7, path.len());
            if req.content_length == req.body.len() && name.len() > 0 {
                Step::WriteFile {
                    dir: copy_range(base_dir, 0, base_dir.len()),
                    path: concat(base_dir, name.as_slice()),
                    contents: copy_range(req.body.as_slice(), 0, req.body.len()),
                }
            } else {
                Step::Reply(Response::not_found())
            }
        },
        Route::NotFound => Step::Reply(Response::not_found()),
    }
}

/// The answer to a file read, given what was read: `None` when the file does
/// not exist, which is answered 404 with an empty body; otherwise 200 with
/// the file's bytes as `application/octet-stream`, encoded per `tokens`.
pub fn file_response(tokens: &Vec<Vec<u8>>, contents: Option<Vec<u8>>) -> (r: Response)
    ensures
        contents is None ==> is_bare(r, Status::NotFound),
        contents matches Some(b) ==> is_negotiated(
            r,
            ContentType::OctetStream,
            tokens@.map_values(|v: Vec<u8>| v@),
            b@,
        ),
{
    match contents {
        None => Response::not_found(),
        Some(b) => negotiate(ContentType::OctetStream, tokens, b.as_slice()),
    }
}

} // verus!
