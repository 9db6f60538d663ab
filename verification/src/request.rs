//! The request side of the wire codec. A `Request` is only ever built from a
//! syntactically valid request line, CRLF-delimited headers and a blank-line
//! separator; malformed input fails with a `ParseError` instead. The whole
//! grammar is written down as the spec function `parse_spec`, and the
//! executable parser is proved to return exactly what it says.

use vstd::prelude::*;

use crate::bytes::{copy_range, find_pattern, find_sub};
use crate::tokens::{colon_sp, crlf, crlf2, spec_colon_sp, spec_crlf, spec_crlf2};

verus! {

/// A parsed request: method, target, headers in order (duplicates kept), and
/// the raw body bytes after the blank line. Every field owns a copy of its
/// bytes rather than borrowing the read buffer; the small extra allocation
/// buys simple ownership. The body is everything after the blank line: a
/// `Content-Length` header is kept like any other but never consulted to
/// bound it, a deliberate simplification.
#[derive(Debug)]
pub struct Request {
    pub method: Vec<u8>,
    pub target: Vec<u8>,
    pub headers: Headers,
    pub body: Vec<u8>,
}

/// The ordered header list of a request.
#[derive(Debug)]
pub struct Headers {
    pub key_values: Vec<(Vec<u8>, Vec<u8>)>,
}

/// Why a byte buffer failed to parse as a request.
#[derive(Debug, Clone, Copy, PartialEq, Eq, Structural)]
pub enum ParseError {
    /// No CRLF terminates a request line.
    MissingRequestLine,
    /// The request line has fewer than three space-separated fields.
    BadRequestLine,
    /// No blank line separates the headers from the body.
    MissingBlankLine,
    /// A header line has no `": "` separator.
    BadHeaderLine,
}

/// The mathematical value of a `Request`.
pub ghost struct ReqView {
    pub method: Seq<u8>,
    pub target: Seq<u8>,
    pub headers: Seq<(Seq<u8>, Seq<u8>)>,
    pub body: Seq<u8>,
}

/// The value of a header list: each pair as its byte sequences.
pub open spec fn kvs_view(kvs: Seq<(Vec<u8>, Vec<u8>)>) -> Seq<(Seq<u8>, Seq<u8>)> {
    kvs.map_values(|kv: (Vec<u8>, Vec<u8>)| (kv.0@, kv.1@))
}

impl View for Headers {
    type V = Seq<(Seq<u8>, Seq<u8>)>;

    open spec fn view(&self) -> Seq<(Seq<u8>, Seq<u8>)> {
        kvs_view(self.key_values@)
    }
}

impl View for Request {
    type V = ReqView;

    open spec fn view(&self) -> ReqView {
        ReqView {
            method: self.method@,
            target: self.target@,
            headers: self.headers@,
            body: self.body@,
        }
    }
}

/// `s` without its trailing NUL padding (the read buffer of the connection
/// driver may be larger than the request it holds).
pub open spec fn strip_nuls(s: Seq<u8>) -> Seq<u8>
    decreases s.len(),
{
    if s.len() > 0 && s[s.len() - 1] == 0 {
        strip_nuls(s.drop_last())
    } else {
        s
    }
}

/// The method and target of a request line: the fields before the first and
/// second space. The rest of the line, the protocol version, is not used.
pub open spec fn parse_request_line(line: Seq<u8>) -> Option<(Seq<u8>, Seq<u8>)> {
    match find_sub(line, seq![32u8], 0) {
        None => None,
        Some(i1) => match find_sub(line, seq![32u8], i1 + 1) {
            None => None,
            Some(i2) => Some((line.subrange(0, i1), line.subrange(i1 + 1, i2))),
        },
    }
}

/// A header line split at its first `": "`.
pub open spec fn parse_header_line(line: Seq<u8>) -> Option<(Seq<u8>, Seq<u8>)> {
    match find_sub(line, spec_colon_sp(), 0) {
        None => None,
        Some(i) => Some((line.subrange(0, i), line.subrange(i + 2, line.len() as int))),
    }
}

/// A header block split on CRLF into lines, each parsed as a header; the
/// whole block fails if any line does.
pub open spec fn parse_header_block(block: Seq<u8>) -> Option<Seq<(Seq<u8>, Seq<u8>)>>
    decreases block.len(),
{
    match find_sub(block, spec_crlf(), 0) {
        None => match parse_header_line(block) {
            None => None,
            Some(kv) => Some(seq![kv]),
        },
        Some(i) => if 0 <= i && i + 2 <= block.len() {
            match parse_header_line(block.subrange(0, i)) {
                None => None,
                Some(kv) => match parse_header_block(
                    block.subrange(i + 2, block.len() as int),
                ) {
                    None => None,
                    Some(rest) => Some(seq![kv] + rest),
                },
            }
        } else {
            None
        },
    }
}

/// The request grammar. After the trailing NUL padding is stripped: the bytes
/// up to the first CRLF are the request line, which must hold at least three
/// space-separated fields; if the remainder starts with CRLF there are no
/// headers and the body follows; otherwise the remainder must split at the
/// first blank line into a header block and the body.
pub open spec fn parse_spec(input: Seq<u8>) -> Result<ReqView, ParseError> {
    let s = strip_nuls(input);
    match find_sub(s, spec_crlf(), 0) {
        None => Err(ParseError::MissingRequestLine),
        Some(i) => {
            let line = s.subrange(0, i);
            let rest = s.subrange(i + 2, s.len() as int);
            match parse_request_line(line) {
                None => Err(ParseError::BadRequestLine),
                Some(mt) => {
                    if rest.len() >= 2 && rest[0] == 13 && rest[1] == 10 {
                        Ok(
                            ReqView {
                                method: mt.0,
                                target: mt.1,
                                headers: Seq::empty(),
                                body: rest.subrange(2, rest.len() as int),
                            },
                        )
                    } else {
                        match find_sub(rest, spec_crlf2(), 0) {
                            None => Err(ParseError::MissingBlankLine),
                            Some(j) => {
                                match parse_header_block(rest.subrange(0, j)) {
                                    None => Err(ParseError::BadHeaderLine),
                                    Some(hs) => Ok(
                                        ReqView {
                                            method: mt.0,
                                            target: mt.1,
                                            headers: hs,
                                            body: rest.subrange(j + 4, rest.len() as int),
                                        },
                                    ),
                                }
                            },
                        }
                    }
                },
            }
        },
    }
}

/// A copy of `s` without its trailing NUL bytes.
fn strip_trailing_nuls(s: &Vec<u8>) -> (r: Vec<u8>)
    ensures
        r@ == strip_nuls(s@),
{
    let mut e: usize = s.len();
    proof {
        assert(s@.subrange(0, s@.len() as int) =~= s@);
    }
    while e > 0 && s[e - 1] == 0
        invariant
            e <= s@.len(),
            strip_nuls(s@) == strip_nuls(s@.subrange(0, e as int)),
        decreases e,
    {
        proof {
            assert(s@.subrange(0, e as int).drop_last() =~= s@.subrange(0, e - 1));
        }
        e -= 1;
    }
    proof {
        if e == 0 {
            assert(s@.subrange(0, 0) =~= Seq::<u8>::empty());
        }
    }
    copy_range(s, 0, e)
}

/// One header line split at its first `": "`, as `parse_header_line` says.
fn parse_line(line: &Vec<u8>, cs: &Vec<u8>) -> (r: Option<(Vec<u8>, Vec<u8>)>)
    requires
        cs@ == spec_colon_sp(),
    ensures
        match r {
            Some(kv) => parse_header_line(line@) == Some((kv.0@, kv.1@)),
            None => parse_header_line(line@) is None,
        },
{
    let n = line.len();
    match find_pattern(line, 0, cs) {
        None => None,
        Some(i) => Some((copy_range(line, 0, i), copy_range(line, i + 2, n))),
    }
}

/// A header block parsed line by line, as `parse_header_block` says.
fn parse_block(block: &Vec<u8>) -> (r: Option<Vec<(Vec<u8>, Vec<u8>)>>)
    ensures
        match r {
            Some(v) => parse_header_block(block@) == Some(kvs_view(v@)),
            None => parse_header_block(block@) is None,
        },
{
    let n = block.len();
    let sep = crlf();
    let cs = colon_sp();
    let mut acc: Vec<(Vec<u8>, Vec<u8>)> = Vec::new();
    let mut pos: usize = 0;
    proof {
        assert(block@.subrange(0, block@.len() as int) =~= block@);
        match parse_header_block(block@) {
            Some(hs) => {
                assert(kvs_view(acc@) + hs =~= hs);
            },
            None => {},
        }
    }
    loop
        invariant
            pos <= block@.len(),
            n == block@.len(),
            sep@ == spec_crlf(),
            cs@ == spec_colon_sp(),
            parse_header_block(block@) == (match parse_header_block(
                block@.subrange(pos as int, block@.len() as int),
            ) {
                None => None::<Seq<(Seq<u8>, Seq<u8>)>>,
                Some(hs) => Some(kvs_view(acc@) + hs),
            }),
        decreases block@.len() - pos,
    {
        let ghost suf = block@.subrange(pos as int, block@.len() as int);
        proof {
            lemma_find_sub_suffix_wrap(block@, spec_crlf(), pos as int);
        }
        match find_pattern(block, pos, &sep) {
            None => {
                let line = copy_range(block, pos, block.len());
                assert(line@ == suf);
                match parse_line(&line, &cs) {
                    None => {
                        return None;
                    },
                    Some(kv) => {
                        let ghost kvv = (kv.0@, kv.1@);
                        acc.push(kv);
                        proof {
                            assert(parse_header_block(suf) == Some(seq![kvv]));
                            assert(kvs_view(acc@) =~= kvs_view(acc@.drop_last()) + seq![kvv]);
                            assert(kvs_view(acc@.drop_last()) + (seq![kvv])
                                =~= kvs_view(acc@.drop_last()) + seq![kvv]);
                            assert(parse_header_block(block@) == Some(kvs_view(acc@)));
                        }
                        return Some(acc);
                    },
                }
            },
            Some(i) => {
                let line = copy_range(block, pos, i);
                proof {
                    assert(suf.subrange(0, i - pos) =~= line@);
                }
                match parse_line(&line, &cs) {
                    None => {
                        return None;
                    },
                    Some(kv) => {
                        let ghost kvv = (kv.0@, kv.1@);
                        let ghost old_acc = acc@;
                        let ghost old_pos = pos as int;
                        acc.push(kv);
                        pos = i + 2;
                        proof {
                            let suf2 = block@.subrange(pos as int, block@.len() as int);
                            assert(suf.subrange(i - old_pos + 2, suf.len() as int) =~= suf2);
                            assert(parse_header_block(suf) == (match parse_header_block(suf2) {
                                None => None::<Seq<(Seq<u8>, Seq<u8>)>>,
                                Some(rest) => Some(seq![kvv] + rest),
                            }));
                            match parse_header_block(suf2) {
                                None => {},
                                Some(rest) => {
                                    assert(kvs_view(acc@) =~= kvs_view(old_acc) + seq![kvv]);
                                    assert(kvs_view(old_acc) + (seq![kvv] + rest) =~= (kvs_view(
                                        old_acc,
                                    ) + seq![kvv]) + rest);
                                },
                            }
                        }
                    },
                }
            },
        }
    }
}

/// `lemma_find_sub_suffix` restated over the match result, for use at a call
/// site that has both searches in scope.
proof fn lemma_find_sub_suffix_wrap(s: Seq<u8>, pat: Seq<u8>, from: int)
    requires
        pat.len() > 0,
        0 <= from <= s.len(),
    ensures
        match find_sub(s, pat, from) {
            Some(i) => find_sub(s.subrange(from, s.len() as int), pat, 0) == Some(i - from),
            None => find_sub(s.subrange(from, s.len() as int), pat, 0) is None,
        },
{
    crate::bytes::lemma_find_sub_suffix(s, pat, from);
}

impl Request {
    /// Parse one request from a raw read buffer, exactly as `parse_spec`
    /// describes, or report why the buffer is not a request.
    pub fn parse_request(input: &Vec<u8>) -> (r: Result<Request, ParseError>)
        ensures
            match r {
                Ok(req) => parse_spec(input@) == Ok::<ReqView, ParseError>(req@),
                Err(e) => parse_spec(input@) == Err::<ReqView, ParseError>(e),
            },
    {
        let s = strip_trailing_nuls(input);
        let sep = crlf();
        let line_end = match find_pattern(&s, 0, &sep) {
            None => {
                return Err(ParseError::MissingRequestLine);
            },
            Some(i) => i,
        };
        let line = copy_range(&s, 0, line_end);
        let sp: Vec<u8> = vec![32u8];
        proof {
            assert(sp@ =~= seq![32u8]);
        }
        let i1 = match find_pattern(&line, 0, &sp) {
            None => {
                return Err(ParseError::BadRequestLine);
            },
            Some(i) => i,
        };
        let i2 = match find_pattern(&line, i1 + 1, &sp) {
            None => {
                return Err(ParseError::BadRequestLine);
            },
            Some(i) => i,
        };
        let method = copy_range(&line, 0, i1);
        let target = copy_range(&line, i1 + 1, i2);
        let ns = s.len();
        let rest = copy_range(&s, line_end + 2, ns);
        if rest.len() >= 2 && rest[0] == 13 && rest[1] == 10 {
            let body = copy_range(&rest, 2, rest.len());
            let req = Request { method, target, headers: Headers { key_values: Vec::new() }, body };
            proof {
                assert(req.headers@ =~= Seq::<(Seq<u8>, Seq<u8>)>::empty());
            }
            return Ok(req);
        }
        let sep2 = crlf2();
        let blank = match find_pattern(&rest, 0, &sep2) {
            None => {
                return Err(ParseError::MissingBlankLine);
            },
            Some(j) => j,
        };
        let nr = rest.len();
        let block = copy_range(&rest, 0, blank);
        let body = copy_range(&rest, blank + 4, nr);
        let kvs = match parse_block(&block) {
            None => {
                return Err(ParseError::BadHeaderLine);
            },
            Some(v) => v,
        };
        Ok(Request { method, target, headers: Headers { key_values: kvs }, body })
    }
}

} // verus!
