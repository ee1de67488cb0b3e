use std::io::Read;

use http_server::bytes::{parse_usize, split_trimmed, trimmed};
use http_server::encoding::{negotiate, wants_gzip};
use http_server::handler::{file_response, handle_request, route, Route, Step};
use http_server::pool::ThreadPool;
use http_server::request::{parse_request, read_request, Method, Request};
use http_server::response::{ContentType, Response, Status};

const BASE: &[u8] = b"/srv/data/";

fn reply_bytes(raw: &[u8]) -> Vec<u8> {
    let req = read_request(raw);
    match handle_request(&req, BASE) {
        Step::Reply(resp) => resp.to_bytes(),
        other => panic!("expected a reply, got {:?}", other),
    }
}

fn gunzip(b: &[u8]) -> Vec<u8> {
    let mut d = flate2::read::GzDecoder::new(b);
    let mut out = Vec::new();
    d.read_to_end(&mut out).unwrap();
    out
}

fn find(hay: &[u8], needle: &[u8]) -> Option<usize> {
    hay.windows(needle.len()).position(|w| w == needle)
}

#[test]
fn echo_returns_text() {
    let out = reply_bytes(b"GET /echo/abc123 HTTP/1.1\r\nHost: localhost:4221\r\n\r\n");
    assert_eq!(
        out,
        b"HTTP/1.1 200 OK\r\nContent-Type: text/plain\r\nContent-Length: 6\r\n\r\nabc123".to_vec()
    );
}

#[test]
fn echo_keeps_further_slashes() {
    let out = reply_bytes(b"GET /echo/a/b/c HTTP/1.1\r\n\r\n");
    assert_eq!(
        out,
        b"HTTP/1.1 200 OK\r\nContent-Type: text/plain\r\nContent-Length: 5\r\n\r\na/b/c".to_vec()
    );
}

#[test]
fn user_agent_is_echoed() {
    let out = reply_bytes(b"GET /user-agent HTTP/1.1\r\nHost: x\r\nUser-Agent: curl/8.0\r\nAccept: */*\r\n\r\n");
    assert_eq!(
        out,
        b"HTTP/1.1 200 OK\r\nContent-Type: text/plain\r\nContent-Length: 8\r\n\r\ncurl/8.0".to_vec()
    );
}

#[test]
fn user_agent_absent_is_empty() {
    let out = reply_bytes(b"GET /user-agent HTTP/1.1\r\n\r\n");
    assert_eq!(
        out,
        b"HTTP/1.1 200 OK\r\nContent-Type: text/plain\r\nContent-Length: 0\r\n\r\n".to_vec()
    );
}

#[test]
fn post_then_get_round_trip() {
    let post = read_request(b"POST /files/hello.txt HTTP/1.1\r\nContent-Length: 5\r\n\r\nworld");
    let written = match handle_request(&post, BASE) {
        Step::WriteFile { dir, path, contents } => {
            assert_eq!(dir, BASE.to_vec());
            assert_eq!(path, b"/srv/data/hello.txt".to_vec());
            assert_eq!(contents, b"world".to_vec());
            (path, contents)
        }
        other => panic!("expected a write, got {:?}", other),
    };
    assert_eq!(
        Response::bare(Status::Created).to_bytes(),
        b"HTTP/1.1 201 Created\r\nContent-Length: 0\r\n\r\n".to_vec()
    );
    let get = read_request(b"GET /files/hello.txt HTTP/1.1\r\n\r\n");
    match handle_request(&get, BASE) {
        Step::ReadFile(path) => assert_eq!(path, written.0),
        other => panic!("expected a read, got {:?}", other),
    }
    let resp = file_response(&get.accept_encoding, Some(written.1));
    assert_eq!(
        resp.to_bytes(),
        b"HTTP/1.1 200 OK\r\nContent-Type: application/octet-stream\r\nContent-Length: 5\r\n\r\nworld"
            .to_vec()
    );
}

#[test]
fn post_with_wrong_length_is_not_found() {
    let req = read_request(b"POST /files/hello.txt HTTP/1.1\r\nContent-Length: 10\r\n\r\nworld");
    match handle_request(&req, BASE) {
        Step::Reply(resp) => {
            assert_eq!(resp.status, Status::NotFound);
            assert!(resp.body.is_empty());
            assert_eq!(resp.to_bytes(), b"HTTP/1.1 404 Not Found\r\nContent-Length: 0\r\n\r\n".to_vec());
        }
        other => panic!("expected a 404 and no write, got {:?}", other),
    }
}

#[test]
fn post_with_empty_name_is_not_found() {
    let req = read_request(b"POST /files/ HTTP/1.1\r\nContent-Length: 5\r\n\r\nworld");
    assert!(matches!(handle_request(&req, BASE), Step::Reply(r) if r.status == Status::NotFound));
}

#[test]
fn missing_file_is_not_found() {
    let req = read_request(b"GET /files/missing.txt HTTP/1.1\r\n\r\n");
    match handle_request(&req, BASE) {
        Step::ReadFile(path) => assert_eq!(path, b"/srv/data/missing.txt".to_vec()),
        other => panic!("expected a read, got {:?}", other),
    }
    let resp = file_response(&req.accept_encoding, None);
    assert_eq!(resp.to_bytes(), b"HTTP/1.1 404 Not Found\r\nContent-Length: 0\r\n\r\n".to_vec());
}

#[test]
fn echo_gzip_when_accepted() {
    let out = reply_bytes(b"GET /echo/foo HTTP/1.1\r\nAccept-Encoding: gzip\r\n\r\n");
    let head_end = find(&out, b"\r\n\r\n").unwrap();
    let head = String::from_utf8(out[..head_end].to_vec()).unwrap();
    let body = &out[head_end + 4..];
    assert!(head.starts_with("HTTP/1.1 200 OK\r\n"));
    assert!(head.contains("Content-Encoding: gzip"));
    assert!(head.contains(&format!("Content-Length: {}", body.len())));
    assert_ne!(body.len(), 3);
    assert_eq!(gunzip(body), b"foo".to_vec());
}

#[test]
fn echo_gzip_among_other_tokens() {
    let req = read_request(b"GET /echo/foo HTTP/1.1\r\nAccept-Encoding: deflate, GZip , br\r\n\r\n");
    assert_eq!(req.accept_encoding, vec![b"deflate".to_vec(), b"GZip".to_vec(), b"br".to_vec()]);
    match handle_request(&req, BASE) {
        Step::Reply(resp) => {
            assert!(resp.gzip);
            assert_eq!(gunzip(&resp.body), b"foo".to_vec());
        }
        other => panic!("expected a reply, got {:?}", other),
    }
}

#[test]
fn echo_identity_is_plain() {
    let out = reply_bytes(b"GET /echo/foo HTTP/1.1\r\nAccept-Encoding: identity\r\n\r\n");
    assert_eq!(
        out,
        b"HTTP/1.1 200 OK\r\nContent-Type: text/plain\r\nContent-Length: 3\r\n\r\nfoo".to_vec()
    );
}

fn arrive(pool: &mut ThreadPool<u32>, finished: Vec<bool>, id: u32) -> bool {
    let admitted = pool.execute(&finished);
    if admitted {
        pool.add_worker(id);
    }
    admitted
}

#[test]
fn pool_drops_when_full_and_admits_after_reclaim() {
    let mut pool: ThreadPool<u32> = ThreadPool::new(2);
    assert!(arrive(&mut pool, vec![], 1));
    assert!(arrive(&mut pool, vec![false], 2));
    assert!(!arrive(&mut pool, vec![false, false], 3));
    assert_eq!(pool.workers(), &vec![1, 2]);
    assert!(arrive(&mut pool, vec![true, false], 4));
    assert_eq!(pool.workers(), &vec![2, 4]);
}

#[test]
fn pool_burst_rejects_only_the_extra_one() {
    let mut pool: ThreadPool<u32> = ThreadPool::new(5);
    for n in 0..5u32 {
        let flags = vec![false; pool.workers().len()];
        assert!(arrive(&mut pool, flags, n));
    }
    assert!(!arrive(&mut pool, vec![false; 5], 99));
    assert_eq!(pool.workers(), &vec![0, 1, 2, 3, 4]);
}

#[test]
fn pool_reclaims_all_finished() {
    let mut pool: ThreadPool<u32> = ThreadPool::new(2);
    assert!(arrive(&mut pool, vec![], 1));
    assert!(arrive(&mut pool, vec![false], 2));
    assert!(pool.execute(&vec![true, true]));
    assert!(pool.workers().is_empty());
}

#[test]
fn pool_of_zero_admits_nothing() {
    let mut pool: ThreadPool<u32> = ThreadPool::new(0);
    assert!(!pool.execute(&vec![]));
    assert!(pool.workers().is_empty());
}

#[test]
fn root_is_empty_ok() {
    assert_eq!(reply_bytes(b"GET / HTTP/1.1\r\n\r\n"), b"HTTP/1.1 200 OK\r\nContent-Length: 0\r\n\r\n".to_vec());
}

#[test]
fn unknown_routes_are_not_found() {
    let nf = b"HTTP/1.1 404 Not Found\r\nContent-Length: 0\r\n\r\n".to_vec();
    assert_eq!(reply_bytes(b"GET /nothing HTTP/1.1\r\n\r\n"), nf);
    assert_eq!(reply_bytes(b"POST /echo/x HTTP/1.1\r\n\r\n"), nf);
    assert_eq!(reply_bytes(b"DELETE /files/a HTTP/1.1\r\n\r\n"), nf);
    assert_eq!(reply_bytes(b""), nf);
}

#[test]
fn routes_match_by_prefix() {
    assert_eq!(route(Method::Get, b"/"), Route::Root);
    assert_eq!(route(Method::Get, b"/echo/"), Route::Echo);
    assert_eq!(route(Method::Get, b"/echo"), Route::NotFound);
    assert_eq!(route(Method::Get, b"/user-agent/x"), Route::UserAgent);
    assert_eq!(route(Method::Get, b"/files/a"), Route::FileRead);
    assert_eq!(route(Method::Post, b"/files/a"), Route::FileWrite);
    assert_eq!(route(Method::Post, b"/"), Route::NotFound);
    assert_eq!(route(Method::Other, b"/"), Route::NotFound);
}

#[test]
fn parser_reads_fields() {
    let req: Request = parse_request(
        b"POST /files/a HTTP/1.1\r\nUser-Agent: x/1\r\nContent-Length: 3\r\nAccept-Encoding: a, b\r\n\r\nabc",
    );
    assert_eq!(req.method, Method::Post);
    assert_eq!(req.path, b"/files/a".to_vec());
    assert_eq!(req.user_agent, b"x/1".to_vec());
    assert_eq!(req.content_length, 3);
    assert_eq!(req.accept_encoding, vec![b"a".to_vec(), b"b".to_vec()]);
    assert_eq!(req.body, b"abc".to_vec());
}

#[test]
fn parser_defaults_when_absent() {
    let req = parse_request(b"GET /x HTTP/1.1\n\n");
    assert_eq!(req.method, Method::Get);
    assert_eq!(req.path, b"/x".to_vec());
    assert!(req.user_agent.is_empty());
    assert!(req.accept_encoding.is_empty());
    assert_eq!(req.content_length, 0);
    assert!(req.body.is_empty());
}

#[test]
fn parser_request_line_without_space_has_no_target() {
    let req = parse_request(b"GET /x");
    assert_eq!(req.method, Method::Get);
    assert!(req.path.is_empty());
    let other = parse_request(b"PUT /x HTTP/1.1\r\n");
    assert_eq!(other.method, Method::Other);
    assert!(other.path.is_empty());
}

#[test]
fn parser_ignores_bad_content_length() {
    let req = parse_request(b"POST /files/a HTTP/1.1\r\nContent-Length: 4\r\nContent-Length: x\r\n");
    assert_eq!(req.content_length, 4);
    let req = parse_request(b"POST /files/a HTTP/1.1\r\nContent-Length: 99999999999999999999999\r\n");
    assert_eq!(req.content_length, 0);
}

#[test]
fn parser_last_colonless_line_is_body() {
    let req = parse_request(b"POST /files/a HTTP/1.1\r\nfirst\r\nkey: value\r\nsecond\r\n");
    assert_eq!(req.body, b"second".to_vec());
}

#[test]
fn request_line_is_only_the_first_line() {
    let req = parse_request(b"FOO / HTTP/1.1\r\nGET /echo/x HTTP/1.1\r\n");
    assert_eq!(req.method, Method::Other);
    assert_eq!(req.body, b"GET /echo/x HTTP/1.1".to_vec());
}

#[test]
fn invalid_utf8_is_replaced() {
    let req = read_request(b"POST /files/a HTTP/1.1\r\nContent-Length: 3\r\n\r\n\xff");
    assert_eq!(req.body, "\u{fffd}".as_bytes().to_vec());
    assert!(matches!(handle_request(&req, BASE), Step::WriteFile { .. }));
}

#[test]
fn usize_parsing() {
    assert_eq!(parse_usize(b"0"), Some(0));
    assert_eq!(parse_usize(b"+42"), Some(42));
    assert_eq!(parse_usize(b"18446744073709551615"), Some(usize::MAX));
    assert_eq!(parse_usize(b"18446744073709551616"), None);
    assert_eq!(parse_usize(b""), None);
    assert_eq!(parse_usize(b"+"), None);
    assert_eq!(parse_usize(b"-1"), None);
    assert_eq!(parse_usize(b" 1"), None);
    assert_eq!(parse_usize(b"1a"), None);
}

#[test]
fn trimming_and_splitting() {
    assert_eq!(trimmed(b" \t a b \r\n"), b"a b".to_vec());
    assert_eq!(trimmed(b"   "), Vec::<u8>::new());
    assert_eq!(
        split_trimmed(b"a, b,", b','),
        vec![b"a".to_vec(), b"b".to_vec(), Vec::new()]
    );
    assert_eq!(split_trimmed(b"", b','), vec![Vec::<u8>::new()]);
}

#[test]
fn gzip_negotiation() {
    assert!(!wants_gzip(&vec![]));
    assert!(!wants_gzip(&vec![b"identity".to_vec(), b"gzipx".to_vec()]));
    assert!(wants_gzip(&vec![b"br".to_vec(), b"GZIP".to_vec()]));
    let plain = negotiate(ContentType::OctetStream, &vec![], b"data");
    assert!(!plain.gzip);
    assert_eq!(plain.body, b"data".to_vec());
    let packed = negotiate(ContentType::OctetStream, &vec![b"gzip".to_vec()], b"data");
    assert!(packed.gzip);
    assert_ne!(packed.body, b"data".to_vec());
    assert_eq!(&packed.body[..2], &[0x1f, 0x8b]);
    assert_eq!(gunzip(&packed.body), b"data".to_vec());
}

#[test]
fn status_codes() {
    assert_eq!(Status::Success.code(), 200);
    assert_eq!(Status::Created.code(), 201);
    assert_eq!(Status::BadRequest.code(), 400);
    assert_eq!(Status::NotFound.code(), 404);
    assert_eq!(
        Response::bare(Status::BadRequest).to_bytes(),
        b"HTTP/1.1 400 Bad Request\r\nContent-Length: 0\r\n\r\n".to_vec()
    );
}

#[test]
fn content_length_counts_large_bodies() {
    let body = vec![b'x'; 1234];
    let resp = negotiate(ContentType::TextPlain, &vec![], &body);
    let out = resp.to_bytes();
    assert!(find(&out, b"Content-Length: 1234\r\n").is_some());
    assert_eq!(out.len(), find(&out, b"\r\n\r\n").unwrap() + 4 + 1234);
}

#[test]
fn utf8_body_and_name_are_kept() {
    let raw = "POST /files/caf\u{e9}.txt HTTP/1.1\r\nContent-Length: 2\r\n\r\n\u{e9}";
    let req = read_request(raw.as_bytes());
    assert_eq!(req.body, "\u{e9}".as_bytes().to_vec());
    match handle_request(&req, BASE) {
        Step::WriteFile { path, contents, .. } => {
            assert_eq!(path, "/srv/data/caf\u{e9}.txt".as_bytes().to_vec());
            assert_eq!(contents, "\u{e9}".as_bytes().to_vec());
        }
        other => panic!("expected a write, got {:?}", other),
    }
}
