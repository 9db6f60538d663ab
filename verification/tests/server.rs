use http_server::request::{ParseError, Request};
use http_server::response::Response;
use http_server::router::{
    dispatch, file_get_response, file_post_response, handle_request, Config, Route,
};

fn raw(s: &str) -> Vec<u8> {
    s.as_bytes().to_vec()
}

fn no_dir() -> Config {
    Config { directory: None }
}

fn with_dir() -> Config {
    Config { directory: Some(raw("/tmp/files")) }
}

fn header<'a>(resp: &'a Response, name: &str) -> Option<&'a Vec<u8>> {
    resp.headers
        .key_values
        .iter()
        .find(|kv| kv.0 == name.as_bytes())
        .map(|kv| &kv.1)
}

fn done(route: Route) -> Response {
    match route {
        Route::Done(resp) => resp,
        _ => panic!("expected a finished response"),
    }
}

// --- parsing ---

#[test]
fn parse_recovers_all_fields() {
    let input = raw("POST /files/a.txt HTTP/1.1\r\nHost: x\r\nUser-Agent: ua/1\r\n\r\nhello");
    let req = Request::parse_request(&input).unwrap();
    assert_eq!(req.method, raw("POST"));
    assert_eq!(req.target, raw("/files/a.txt"));
    assert_eq!(req.headers.key_values.len(), 2);
    assert_eq!(req.headers.key_values[0].0, raw("Host"));
    assert_eq!(req.headers.key_values[0].1, raw("x"));
    assert_eq!(req.headers.key_values[1].0, raw("User-Agent"));
    assert_eq!(req.headers.key_values[1].1, raw("ua/1"));
    assert_eq!(req.body, raw("hello"));
}

#[test]
fn parse_keeps_duplicate_headers_in_order() {
    let input = raw("GET / HTTP/1.1\r\nA: 1\r\nA: 2\r\nB: 3\r\n\r\n");
    let req = Request::parse_request(&input).unwrap();
    assert_eq!(req.headers.key_values.len(), 3);
    assert_eq!(req.headers.key_values[0], (raw("A"), raw("1")));
    assert_eq!(req.headers.key_values[1], (raw("A"), raw("2")));
    assert_eq!(req.headers.key_values[2], (raw("B"), raw("3")));
}

#[test]
fn parse_without_headers() {
    let input = raw("GET / HTTP/1.1\r\n\r\nrest");
    let req = Request::parse_request(&input).unwrap();
    assert_eq!(req.method, raw("GET"));
    assert_eq!(req.target, raw("/"));
    assert!(req.headers.key_values.is_empty());
    assert_eq!(req.body, raw("rest"));
}

#[test]
fn parse_strips_trailing_nul_padding() {
    let mut input = raw("GET / HTTP/1.1\r\n\r\n");
    input.extend(std::iter::repeat(0u8).take(64));
    let req = Request::parse_request(&input).unwrap();
    assert_eq!(req.target, raw("/"));
    assert!(req.body.is_empty());
}

#[test]
fn parse_empty_body_is_not_an_error() {
    let input = raw("GET /echo/x HTTP/1.1\r\nHost: h\r\n\r\n");
    let req = Request::parse_request(&input).unwrap();
    assert!(req.body.is_empty());
}

#[test]
fn parse_is_deterministic_on_identical_bytes() {
    let input = raw("GET /x HTTP/1.1\r\nA: 1\r\nA: 1\r\n\r\nbody");
    let first = Request::parse_request(&input).unwrap();
    let second = Request::parse_request(&input).unwrap();
    assert_eq!(first.method, second.method);
    assert_eq!(first.target, second.target);
    assert_eq!(first.headers.key_values, second.headers.key_values);
    assert_eq!(first.body, second.body);
}

#[test]
fn parse_fails_without_any_crlf() {
    let input = raw("GET / HTTP/1.1");
    assert_eq!(Request::parse_request(&input).unwrap_err(), ParseError::MissingRequestLine);
}

#[test]
fn parse_fails_on_short_request_line() {
    let input = raw("GET /\r\n\r\n");
    assert_eq!(Request::parse_request(&input).unwrap_err(), ParseError::BadRequestLine);
}

#[test]
fn parse_fails_without_blank_line() {
    let input = raw("GET / HTTP/1.1\r\nHost: x\r\n");
    assert_eq!(Request::parse_request(&input).unwrap_err(), ParseError::MissingBlankLine);
}

#[test]
fn parse_fails_on_header_without_separator() {
    let input = raw("GET / HTTP/1.1\r\nbroken-line\r\nA: 1\r\n\r\n");
    assert_eq!(Request::parse_request(&input).unwrap_err(), ParseError::BadHeaderLine);
}

// --- serialization ---

#[test]
fn serialize_exact_bytes() {
    let resp = Response::new(200, raw("OK"))
        .with_headers(vec![(raw("Content-Type"), raw("text/plain")), (raw("Content-Length"), raw("3"))])
        .with_body(raw("abc"));
    assert_eq!(
        resp.serialize(),
        raw("HTTP/1.1 200 OK\r\nContent-Type: text/plain\r\nContent-Length: 3\r\n\r\nabc")
    );
}

#[test]
fn serialize_without_headers_or_body() {
    let resp = Response::new(404, raw("Not Found"));
    assert_eq!(resp.serialize(), raw("HTTP/1.1 404 Not Found\r\n\r\n"));
}

#[test]
fn serialize_keeps_binary_body_intact() {
    let body = vec![0u8, 155, 13, 10, 255, 0];
    let resp = Response::new(200, raw("OK")).with_body(body.clone());
    let wire = resp.serialize();
    assert_eq!(&wire[wire.len() - body.len()..], &body[..]);
}

// --- routing ---

#[test]
fn get_root_is_empty_ok() {
    let req = Request::parse_request(&raw("GET / HTTP/1.1\r\n\r\n")).unwrap();
    let resp = done(dispatch(&req, &no_dir()));
    assert_eq!(resp.code, 200);
    assert!(resp.body.is_empty());
    assert!(resp.headers.key_values.is_empty());
}

#[test]
fn echo_plain() {
    let req = Request::parse_request(&raw("GET /echo/abc HTTP/1.1\r\nHost: h\r\n\r\n")).unwrap();
    let resp = done(dispatch(&req, &no_dir()));
    assert_eq!(resp.code, 200);
    assert_eq!(header(&resp, "Content-Type"), Some(&raw("text/plain")));
    assert_eq!(header(&resp, "Content-Length"), Some(&raw("3")));
    assert_eq!(resp.body, raw("abc"));
    assert!(header(&resp, "Content-Encoding").is_none());
}

#[test]
fn echo_gzip_round_trips() {
    let req = Request::parse_request(
        &raw("GET /echo/abc HTTP/1.1\r\nAccept-Encoding: gzip\r\n\r\n"),
    )
    .unwrap();
    let resp = done(dispatch(&req, &no_dir()));
    assert_eq!(resp.code, 200);
    assert_eq!(header(&resp, "Content-Encoding"), Some(&raw("gzip")));
    assert_eq!(
        header(&resp, "Content-Length"),
        Some(&raw(&resp.body.len().to_string()))
    );
    let mut decoder = flate2::read::GzDecoder::new(&resp.body[..]);
    let mut plain = Vec::new();
    std::io::Read::read_to_end(&mut decoder, &mut plain).unwrap();
    assert_eq!(plain, raw("abc"));
}

#[test]
fn echo_gzip_among_other_tokens() {
    let req = Request::parse_request(
        &raw("GET /echo/xy HTTP/1.1\r\nAccept-Encoding: deflate, gzip, br\r\n\r\n"),
    )
    .unwrap();
    let resp = done(dispatch(&req, &no_dir()));
    assert_eq!(header(&resp, "Content-Encoding"), Some(&raw("gzip")));
}

#[test]
fn echo_identity_is_plain() {
    let req = Request::parse_request(
        &raw("GET /echo/abc HTTP/1.1\r\nAccept-Encoding: identity\r\n\r\n"),
    )
    .unwrap();
    let resp = done(dispatch(&req, &no_dir()));
    assert_eq!(resp.code, 200);
    assert_eq!(resp.body, raw("abc"));
    assert!(header(&resp, "Content-Encoding").is_none());
}

#[test]
fn echo_gzipx_is_not_gzip() {
    let req = Request::parse_request(
        &raw("GET /echo/abc HTTP/1.1\r\nAccept-Encoding: gzipx\r\n\r\n"),
    )
    .unwrap();
    let resp = done(dispatch(&req, &no_dir()));
    assert!(header(&resp, "Content-Encoding").is_none());
}

#[test]
fn echo_keeps_nested_segments() {
    let req = Request::parse_request(&raw("GET /echo/a/b/c HTTP/1.1\r\n\r\n")).unwrap();
    let resp = done(dispatch(&req, &no_dir()));
    assert_eq!(resp.body, raw("a/b/c"));
}

#[test]
fn echo_without_segment_is_server_error() {
    let req = Request::parse_request(&raw("GET /echo HTTP/1.1\r\n\r\n")).unwrap();
    let resp = done(dispatch(&req, &no_dir()));
    assert_eq!(resp.code, 500);
}

#[test]
fn user_agent_echoes_header() {
    let req = Request::parse_request(
        &raw("GET /user-agent HTTP/1.1\r\nUser-Agent: test-client/1.0\r\n\r\n"),
    )
    .unwrap();
    let resp = done(dispatch(&req, &no_dir()));
    assert_eq!(resp.code, 200);
    assert_eq!(resp.body, raw("test-client/1.0"));
    assert_eq!(header(&resp, "Content-Length"), Some(&raw("15")));
}

#[test]
fn user_agent_missing_is_server_error() {
    let req = Request::parse_request(&raw("GET /user-agent HTTP/1.1\r\nHost: h\r\n\r\n")).unwrap();
    let resp = done(dispatch(&req, &no_dir()));
    assert_eq!(resp.code, 500);
}

#[test]
fn user_agent_takes_first_of_duplicates() {
    let req = Request::parse_request(
        &raw("GET /user-agent HTTP/1.1\r\nUser-Agent: one\r\nUser-Agent: two\r\n\r\n"),
    )
    .unwrap();
    let resp = done(dispatch(&req, &no_dir()));
    assert_eq!(resp.body, raw("one"));
}

#[test]
fn files_get_missing_file_is_not_found() {
    let req = Request::parse_request(&raw("GET /files/missing.txt HTTP/1.1\r\n\r\n")).unwrap();
    match dispatch(&req, &with_dir()) {
        Route::ReadFile(name) => assert_eq!(name, raw("missing.txt")),
        _ => panic!("expected a file read"),
    }
    let resp = file_get_response(None);
    assert_eq!(resp.code, 404);
    assert!(resp.body.is_empty());
}

#[test]
fn files_post_then_get_round_trips() {
    let post = Request::parse_request(
        &raw("POST /files/new.txt HTTP/1.1\r\nContent-Length: 5\r\n\r\nhello"),
    )
    .unwrap();
    let stored = match dispatch(&post, &with_dir()) {
        Route::WriteFile(name, contents) => {
            assert_eq!(name, raw("new.txt"));
            assert_eq!(contents, raw("hello"));
            contents
        },
        _ => panic!("expected a file write"),
    };
    let created = file_post_response(true);
    assert_eq!(created.code, 201);
    assert!(created.body.is_empty());

    let get = Request::parse_request(&raw("GET /files/new.txt HTTP/1.1\r\n\r\n")).unwrap();
    match dispatch(&get, &with_dir()) {
        Route::ReadFile(name) => assert_eq!(name, raw("new.txt")),
        _ => panic!("expected a file read"),
    }
    let resp = file_get_response(Some(stored));
    assert_eq!(resp.code, 200);
    assert_eq!(resp.body, raw("hello"));
    assert_eq!(header(&resp, "Content-Type"), Some(&raw("application/octet-stream")));
    assert_eq!(header(&resp, "Content-Length"), Some(&raw("5")));
}

#[test]
fn files_keep_nested_segments_verbatim() {
    let req = Request::parse_request(&raw("GET /files/dir/inner.txt HTTP/1.1\r\n\r\n")).unwrap();
    match dispatch(&req, &with_dir()) {
        Route::ReadFile(name) => assert_eq!(name, raw("dir/inner.txt")),
        _ => panic!("expected a file read"),
    }
}

#[test]
fn gzip_on_a_later_duplicate_header_is_found() {
    let req = Request::parse_request(
        &raw("GET /echo/z HTTP/1.1\r\nAccept-Encoding: br\r\nAccept-Encoding: gzip\r\n\r\n"),
    )
    .unwrap();
    let resp = done(dispatch(&req, &no_dir()));
    assert_eq!(header(&resp, "Content-Encoding"), Some(&raw("gzip")));
}

#[test]
fn files_without_directory_is_server_error() {
    let req = Request::parse_request(&raw("GET /files/a.txt HTTP/1.1\r\n\r\n")).unwrap();
    let resp = done(dispatch(&req, &no_dir()));
    assert_eq!(resp.code, 500);
}

#[test]
fn files_failed_write_is_server_error() {
    let resp = file_post_response(false);
    assert_eq!(resp.code, 500);
}

#[test]
fn unmatched_path_is_not_found() {
    let req = Request::parse_request(&raw("GET /unknown HTTP/1.1\r\n\r\n")).unwrap();
    let resp = done(dispatch(&req, &no_dir()));
    assert_eq!(resp.code, 404);
    assert!(resp.body.is_empty());
}

#[test]
fn malformed_request_line_is_server_error() {
    let route = handle_request(&raw("GET /\r\n\r\n"), &no_dir());
    let resp = done(route);
    assert_eq!(resp.code, 500);
    assert!(resp.body.is_empty());
}

#[test]
fn handle_request_serializes_end_to_end() {
    let route = handle_request(&raw("GET /echo/hi HTTP/1.1\r\n\r\n"), &no_dir());
    let resp = done(route);
    assert_eq!(
        resp.serialize(),
        raw("HTTP/1.1 200 OK\r\nContent-Type: text/plain\r\nContent-Length: 2\r\n\r\nhi")
    );
}
