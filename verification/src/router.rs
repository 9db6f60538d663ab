//! The router and its handlers: a pure function from a parsed request and the
//! static configuration to either a finished response or a file action for
//! the caller to perform. The routing table, in priority order: the bare
//! root, the echo endpoint, the user-agent endpoint, the file endpoints, and
//! a not-found fallback. Reading and writing files is the caller's work; the
//! router only names the file, and turns the outcome the caller got back into
//! the response it owes.

use vstd::prelude::*;

use crate::bytes::{
    bytes_eq, bytes_starts_with, copy_bytes, copy_range, find_pattern, find_sub, seq_starts_with,
};
use crate::encoding::{accepts_gzip, gzip_compress, gzip_of, wants_gzip};
use crate::request::{Headers, ReqView, Request};
use crate::response::{spec_decimal, push_decimal, RespView, Response};
use crate::tokens::{
    hdr_content_encoding, hdr_content_length, hdr_content_type, hdr_user_agent, msg_created,
    msg_internal_error, msg_not_found, msg_ok, spec_echo_prefix, spec_files_prefix,
    spec_hdr_content_encoding, spec_hdr_content_length, spec_hdr_content_type,
    spec_hdr_user_agent, spec_method_get, spec_method_post, spec_msg_created,
    spec_msg_internal_error, spec_msg_not_found, spec_msg_ok, spec_root_path,
    spec_user_agent_path, spec_val_gzip, spec_val_octet_stream, spec_val_text_plain,
    val_gzip, val_octet_stream, val_text_plain, method_get, method_post, echo_prefix,
    files_prefix, root_path, user_agent_path,
};

verus! {

/// Why a handler failed; every variant maps to a 500 response.
#[derive(Debug, Clone, Copy, PartialEq, Eq, Structural)]
pub enum HandlerError {
    /// The target has no third `/`-delimited segment.
    BadTarget,
    /// A header the endpoint requires is absent.
    MissingHeader,
    /// No static-file root directory is configured.
    NoDirectory,
    /// The content encoder failed.
    EncodingFailed,
}

/// The static configuration: an optional root directory (as raw path bytes)
/// that enables the file endpoints.
pub struct Config {
    pub directory: Option<Vec<u8>>,
}

/// What handling a request asks of the caller: write a finished response, or
/// first read or write the named file under the configured root.
pub enum Route {
    /// The response is complete.
    Done(Response),
    /// Read this file, then build the response with `file_get_response`.
    ReadFile(Vec<u8>),
    /// Write these bytes to this file, then build the response with
    /// `file_post_response`.
    WriteFile(Vec<u8>, Vec<u8>),
}

/// The mathematical value of a `Route`.
pub ghost enum RouteView {
    Done(RespView),
    ReadFile(Seq<u8>),
    WriteFile(Seq<u8>, Seq<u8>),
}

impl View for Route {
    type V = RouteView;

    open spec fn view(&self) -> RouteView {
        match self {
            Route::Done(resp) => RouteView::Done(resp@),
            Route::ReadFile(f) => RouteView::ReadFile(f@),
            Route::WriteFile(f, c) => RouteView::WriteFile(f@, c@),
        }
    }
}

/// The third `/`-delimited segment of a target: everything after the second
/// slash, further slashes included. `/echo/a/b` yields `a/b`.
pub open spec fn third_segment(target: Seq<u8>) -> Option<Seq<u8>> {
    match find_sub(target, seq![47u8], 0) {
        None => None,
        Some(i1) => match find_sub(target, seq![47u8], i1 + 1) {
            None => None,
            Some(i2) => Some(target.subrange(i2 + 1, target.len() as int)),
        },
    }
}

/// The value of the first header named `name`, in header order. Names are
/// compared byte for byte, so the lookup is case-sensitive.
pub open spec fn spec_first_header_value(hs: Seq<(Seq<u8>, Seq<u8>)>, name: Seq<u8>) -> Option<
    Seq<u8>,
>
    decreases hs.len(),
{
    if hs.len() == 0 {
        None
    } else if hs[0].0 == name {
        Some(hs[0].1)
    } else {
        spec_first_header_value(hs.drop_first(), name)
    }
}

/// A `Content-Type` and a `Content-Length` header for a body of `len` bytes.
pub open spec fn spec_plain_headers(content_type: Seq<u8>, len: nat) -> Seq<(Seq<u8>, Seq<u8>)> {
    seq![
        (spec_hdr_content_type(), content_type),
        (spec_hdr_content_length(), spec_decimal(len)),
    ]
}

/// `200 OK` with no headers and no body.
pub open spec fn ok_empty_view() -> RespView {
    RespView { code: 200, message: spec_msg_ok(), headers: Seq::empty(), body: Seq::empty() }
}

/// `404 Not Found` with no headers and no body.
pub open spec fn not_found_view() -> RespView {
    RespView {
        code: 404,
        message: spec_msg_not_found(),
        headers: Seq::empty(),
        body: Seq::empty(),
    }
}

/// `201 Created` with no headers and no body.
pub open spec fn created_view() -> RespView {
    RespView { code: 201, message: spec_msg_created(), headers: Seq::empty(), body: Seq::empty() }
}

/// `500 Internal Server Error` with no headers and no body.
pub open spec fn internal_error_view() -> RespView {
    RespView {
        code: 500,
        message: spec_msg_internal_error(),
        headers: Seq::empty(),
        body: Seq::empty(),
    }
}

/// The echo response without negotiated encoding: the content as text/plain.
pub open spec fn echo_plain_view(content: Seq<u8>) -> RespView {
    RespView {
        code: 200,
        message: spec_msg_ok(),
        headers: spec_plain_headers(spec_val_text_plain(), content.len()),
        body: content,
    }
}

/// The echo response under gzip: the compressed content, its length in
/// `Content-Length`, and a `Content-Encoding: gzip` header.
pub open spec fn echo_gzip_view(content: Seq<u8>) -> RespView {
    RespView {
        code: 200,
        message: spec_msg_ok(),
        headers: seq![
            (spec_hdr_content_type(), spec_val_text_plain()),
            (spec_hdr_content_length(), spec_decimal(gzip_of(content).len())),
            (spec_hdr_content_encoding(), spec_val_gzip()),
        ],
        body: gzip_of(content),
    }
}

/// The user-agent response: the header value as text/plain.
pub open spec fn user_agent_view(value: Seq<u8>) -> RespView {
    RespView {
        code: 200,
        message: spec_msg_ok(),
        headers: spec_plain_headers(spec_val_text_plain(), value.len()),
        body: value,
    }
}

/// The file response: the file bytes as an octet stream.
pub open spec fn file_view(contents: Seq<u8>) -> RespView {
    RespView {
        code: 200,
        message: spec_msg_ok(),
        headers: spec_plain_headers(spec_val_octet_stream(), contents.len()),
        body: contents,
    }
}

/// The decimal rendering of a length, as header-value bytes.
pub fn decimal_bytes(n: usize) -> (r: Vec<u8>)
    ensures
        r@ == spec_decimal(n as nat),
{
    let mut out: Vec<u8> = Vec::new();
    push_decimal(&mut out, n as u64);
    proof {
        assert(Seq::<u8>::empty() + spec_decimal(n as nat) =~= spec_decimal(n as nat));
    }
    out
}

/// The third `/`-delimited segment of the target, as `third_segment` says.
pub fn extract_third_segment(target: &Vec<u8>) -> (r: Option<Vec<u8>>)
    ensures
        match r {
            Some(seg) => third_segment(target@) == Some(seg@),
            None => third_segment(target@) is None,
        },
{
    let slash: Vec<u8> = vec![47u8];
    proof {
        assert(slash@ =~= seq![47u8]);
    }
    let n = target.len();
    match find_pattern(target, 0, &slash) {
        None => None,
        Some(i1) => match find_pattern(target, i1 + 1, &slash) {
            None => None,
            Some(i2) => Some(copy_range(target, i2 + 1, n)),
        },
    }
}

/// The value of the first header named `name`, as `spec_first_header_value`
/// says.
pub fn lookup_first(headers: &Headers, name: &Vec<u8>) -> (r: Option<Vec<u8>>)
    ensures
        match r {
            Some(v) => spec_first_header_value(headers@, name@) == Some(v@),
            None => spec_first_header_value(headers@, name@) is None,
        },
{
    let n = headers.key_values.len();
    let mut i: usize = 0;
    proof {
        assert(headers@.subrange(0, headers@.len() as int) =~= headers@);
    }
    loop
        invariant
            0 <= i <= n,
            n == headers.key_values@.len(),
            spec_first_header_value(headers@, name@) == spec_first_header_value(
                headers@.subrange(i as int, headers@.len() as int),
                name@,
            ),
        decreases n - i,
    {
        if i == n {
            return None;
        }
        let kv = &headers.key_values[i];
        proof {
            assert(headers@[i as int] == (kv.0@, kv.1@));
            assert(headers@.subrange(i as int, headers@.len() as int)[0] == headers@[i as int]);
        }
        if bytes_eq(&kv.0, name) {
            return Some(copy_bytes(&kv.1));
        }
        proof {
            assert(headers@.subrange(i as int, headers@.len() as int).drop_first()
                =~= headers@.subrange(i + 1, headers@.len() as int));
        }
        i += 1;
    }
}

/// The echo endpoint: respond with the third segment of the target, gzipped
/// when the request negotiated it.
pub fn echo(req: &Request) -> (r: Result<Response, HandlerError>)
    ensures
        third_segment(req@.target) is None ==> r == Err::<Response, HandlerError>(
            HandlerError::BadTarget,
        ),
        third_segment(req@.target) matches Some(content) ==> (if wants_gzip(req@.headers) {
            match r {
                Ok(resp) => resp@ == echo_gzip_view(content),
                Err(e) => e == HandlerError::EncodingFailed,
            }
        } else {
            r matches Ok(resp) && resp@ == echo_plain_view(content)
        }),
{
    let content = match extract_third_segment(&req.target) {
        None => {
            return Err(HandlerError::BadTarget);
        },
        Some(c) => c,
    };
    let resp = Response::new(200, msg_ok());
    if accepts_gzip(&req.headers) {
        let compressed = match gzip_compress(&content) {
            Err(_) => {
                return Err(HandlerError::EncodingFailed);
            },
            Ok(c) => c,
        };
        let mut hs: Vec<(Vec<u8>, Vec<u8>)> = Vec::new();
        hs.push((hdr_content_type(), val_text_plain()));
        hs.push((hdr_content_length(), decimal_bytes(compressed.len())));
        hs.push((hdr_content_encoding(), val_gzip()));
        let resp = resp.with_headers(hs).with_body(compressed);
        proof {
            assert(resp@.headers =~= echo_gzip_view(content@).headers);
        }
        Ok(resp)
    } else {
        let mut hs: Vec<(Vec<u8>, Vec<u8>)> = Vec::new();
        hs.push((hdr_content_type(), val_text_plain()));
        hs.push((hdr_content_length(), decimal_bytes(content.len())));
        let resp = resp.with_headers(hs).with_body(content);
        proof {
            assert(resp@.headers =~= echo_plain_view(resp@.body).headers);
        }
        Ok(resp)
    }
}

/// The user-agent endpoint: respond with the value of the first `User-Agent`
/// header, or fail when there is none.
pub fn user_agent(req: &Request) -> (r: Result<Response, HandlerError>)
    ensures
        spec_first_header_value(req@.headers, spec_hdr_user_agent()) is None ==> r == Err::<
            Response,
            HandlerError,
        >(HandlerError::MissingHeader),
        spec_first_header_value(req@.headers, spec_hdr_user_agent()) matches Some(v)
            ==> r matches Ok(resp) && resp@ == user_agent_view(v),
{
    let name = hdr_user_agent();
    let value = match lookup_first(&req.headers, &name) {
        None => {
            return Err(HandlerError::MissingHeader);
        },
        Some(v) => v,
    };
    let mut hs: Vec<(Vec<u8>, Vec<u8>)> = Vec::new();
    hs.push((hdr_content_type(), val_text_plain()));
    hs.push((hdr_content_length(), decimal_bytes(value.len())));
    let resp = Response::new(200, msg_ok()).with_headers(hs).with_body(value);
    proof {
        assert(resp@.headers =~= user_agent_view(resp@.body).headers);
    }
    Ok(resp)
}

/// The response owed after the caller read the named file: its bytes as an
/// octet stream, or 404 when the file was absent.
pub fn file_get_response(contents: Option<Vec<u8>>) -> (r: Response)
    ensures
        match contents {
            Some(c) => r@ == file_view(c@),
            None => r@ == not_found_view(),
        },
{
    match contents {
        Some(c) => {
            let mut hs: Vec<(Vec<u8>, Vec<u8>)> = Vec::new();
            hs.push((hdr_content_type(), val_octet_stream()));
            hs.push((hdr_content_length(), decimal_bytes(c.len())));
            let resp = Response::new(200, msg_ok()).with_headers(hs).with_body(c);
            proof {
                assert(resp@.headers =~= file_view(resp@.body).headers);
            }
            resp
        },
        None => {
            let resp = Response::new(404, msg_not_found());
            proof {
                assert(resp@.headers =~= not_found_view().headers);
            }
            resp
        },
    }
}

/// The response owed after the caller wrote the file: 201, or 500 when the
/// write failed.
pub fn file_post_response(write_ok: bool) -> (r: Response)
    ensures
        write_ok ==> r@ == created_view(),
        !write_ok ==> r@ == internal_error_view(),
{
    if write_ok {
        let resp = Response::new(201, msg_created());
        proof {
            assert(resp@.headers =~= created_view().headers);
        }
        resp
    } else {
        internal_error_response()
    }
}

/// A bare `500 Internal Server Error` response.
pub fn internal_error_response() -> (r: Response)
    ensures
        r@ == internal_error_view(),
{
    let resp = Response::new(500, msg_internal_error());
    proof {
        assert(resp@.headers =~= internal_error_view().headers);
    }
    resp
}

/// Everything `dispatch` promises of its result: the routing table, row by
/// row. A failing handler yields the 500 response; the encoder alone may
/// fail on negotiated gzip, so that row also admits the 500 response.
pub open spec fn dispatch_post(rv: ReqView, has_dir: bool, out: RouteView) -> bool {
    if rv.target == spec_root_path() {
        out == RouteView::Done(ok_empty_view())
    } else if seq_starts_with(rv.target, spec_echo_prefix()) {
        match third_segment(rv.target) {
            None => out == RouteView::Done(internal_error_view()),
            Some(content) => if wants_gzip(rv.headers) {
                out == RouteView::Done(echo_gzip_view(content)) || out == RouteView::Done(
                    internal_error_view(),
                )
            } else {
                out == RouteView::Done(echo_plain_view(content))
            },
        }
    } else if rv.target == spec_user_agent_path() {
        match spec_first_header_value(rv.headers, spec_hdr_user_agent()) {
            None => out == RouteView::Done(internal_error_view()),
            Some(v) => out == RouteView::Done(user_agent_view(v)),
        }
    } else if seq_starts_with(rv.target, spec_files_prefix()) {
        if rv.method == spec_method_get() {
            if !has_dir {
                out == RouteView::Done(internal_error_view())
            } else {
                match third_segment(rv.target) {
                    None => out == RouteView::Done(internal_error_view()),
                    Some(f) => out == RouteView::ReadFile(f),
                }
            }
        } else if rv.method == spec_method_post() {
            if !has_dir {
                out == RouteView::Done(internal_error_view())
            } else {
                match third_segment(rv.target) {
                    None => out == RouteView::Done(internal_error_view()),
                    Some(f) => out == RouteView::WriteFile(f, rv.body),
                }
            }
        } else {
            out == RouteView::Done(not_found_view())
        }
    } else {
        out == RouteView::Done(not_found_view())
    }
}

/// Route a parsed request over the fixed table.
pub fn dispatch(req: &Request, config: &Config) -> (r: Route)
    ensures
        dispatch_post(req@, config.directory is Some, r@),
{
    let root = root_path();
    let echo_pre = echo_prefix();
    let ua_path = user_agent_path();
    let files_pre = files_prefix();
    if bytes_eq(&req.target, &root) {
        let resp = Response::new(200, msg_ok());
        proof {
            assert(resp@.headers =~= ok_empty_view().headers);
        }
        Route::Done(resp)
    } else if bytes_starts_with(&req.target, &echo_pre) {
        match echo(req) {
            Ok(resp) => Route::Done(resp),
            Err(_) => Route::Done(internal_error_response()),
        }
    } else if bytes_eq(&req.target, &ua_path) {
        match user_agent(req) {
            Ok(resp) => Route::Done(resp),
            Err(_) => Route::Done(internal_error_response()),
        }
    } else if bytes_starts_with(&req.target, &files_pre) {
        let get = method_get();
        let post = method_post();
        if bytes_eq(&req.method, &get) {
            if config.directory.is_none() {
                Route::Done(internal_error_response())
            } else {
                match extract_third_segment(&req.target) {
                    None => Route::Done(internal_error_response()),
                    Some(f) => Route::ReadFile(f),
                }
            }
        } else if bytes_eq(&req.method, &post) {
            if config.directory.is_none() {
                Route::Done(internal_error_response())
            } else {
                match extract_third_segment(&req.target) {
                    None => Route::Done(internal_error_response()),
                    Some(f) => Route::WriteFile(f, copy_bytes(&req.body)),
                }
            }
        } else {
            let resp = Response::new(404, msg_not_found());
            proof {
                assert(resp@.headers =~= not_found_view().headers);
            }
            Route::Done(resp)
        }
    } else {
        let resp = Response::new(404, msg_not_found());
        proof {
            assert(resp@.headers =~= not_found_view().headers);
        }
        Route::Done(resp)
    }
}

/// One connection's computation, end to end: parse the raw buffer and route
/// the request; a parse failure is answered with the 500 response.
pub fn handle_request(input: &Vec<u8>, config: &Config) -> (r: Route)
    ensures
        match crate::request::parse_spec(input@) {
            Ok(rv) => dispatch_post(rv, config.directory is Some, r@),
            Err(_) => r@ == RouteView::Done(internal_error_view()),
        },
{
    match Request::parse_request(input) {
        Ok(req) => dispatch(&req, config),
        Err(_) => Route::Done(internal_error_response()),
    }
}

} // verus!
