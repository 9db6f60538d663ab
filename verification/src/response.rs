//! The response side of the wire codec: a builder-composed `Response` and its
//! serialization into raw bytes, `HTTP/1.1 {code} {message}\r\n`, one
//! `{name}: {value}\r\n` line per header in insertion order, a blank line,
//! then the body bytes unchanged.

use vstd::prelude::*;

use crate::bytes::append_bytes;
use crate::tokens::{colon_sp, crlf, spec_colon_sp, spec_crlf, spec_http_prefix, http_prefix};

verus! {

/// A response under construction: status, reason phrase, headers in
/// insertion order, and a raw byte body.
pub struct Response {
    pub code: u16,
    pub message: Vec<u8>,
    pub headers: HeadersResponse,
    pub body: Vec<u8>,
}

/// The ordered header list of a response; duplicates are kept.
#[derive(Debug)]
pub struct HeadersResponse {
    pub key_values: Vec<(Vec<u8>, Vec<u8>)>,
}

/// The mathematical value of a `Response`.
pub ghost struct RespView {
    pub code: u16,
    pub message: Seq<u8>,
    pub headers: Seq<(Seq<u8>, Seq<u8>)>,
    pub body: Seq<u8>,
}

impl View for HeadersResponse {
    type V = Seq<(Seq<u8>, Seq<u8>)>;

    open spec fn view(&self) -> Seq<(Seq<u8>, Seq<u8>)> {
        self.key_values@.map_values(|kv: (Vec<u8>, Vec<u8>)| (kv.0@, kv.1@))
    }
}

impl View for Response {
    type V = RespView;

    open spec fn view(&self) -> RespView {
        RespView {
            code: self.code,
            message: self.message@,
            headers: self.headers@,
            body: self.body@,
        }
    }
}

impl Response {
    /// An empty response with the given status code and reason phrase.
    pub fn new(code: u16, message: Vec<u8>) -> (r: Response)
        ensures
            r@ == (RespView {
                code,
                message: message@,
                headers: Seq::<(Seq<u8>, Seq<u8>)>::empty(),
                body: Seq::<u8>::empty(),
            }),
    {
        let r = Response {
            code,
            message,
            headers: HeadersResponse { key_values: Vec::new() },
            body: Vec::new(),
        };
        proof {
            assert(r.headers@ =~= Seq::<(Seq<u8>, Seq<u8>)>::empty());
        }
        r
    }

    /// The same response with its header list replaced.
    pub fn with_headers(self, headers: Vec<(Vec<u8>, Vec<u8>)>) -> (r: Response)
        ensures
            r@ == (RespView {
                code: self@.code,
                message: self@.message,
                headers: headers@.map_values(|kv: (Vec<u8>, Vec<u8>)| (kv.0@, kv.1@)),
                body: self@.body,
            }),
    {
        Response {
            code: self.code,
            message: self.message,
            headers: HeadersResponse { key_values: headers },
            body: self.body,
        }
    }

    /// The same response with its body replaced.
    pub fn with_body(self, body: Vec<u8>) -> (r: Response)
        ensures
            r@ == (RespView {
                code: self@.code,
                message: self@.message,
                headers: self@.headers,
                body: body@,
            }),
    {
        Response { code: self.code, message: self.message, headers: self.headers, body }
    }

    /// The raw bytes of this response on the wire.
    pub fn serialize(&self) -> (out: Vec<u8>)
        ensures
            out@ == serialize_spec(self@),
    {
        let mut out: Vec<u8> = Vec::new();
        let pre = http_prefix();
        append_bytes(&mut out, &pre);
        push_decimal(&mut out, self.code as u64);
        out.push(32u8);
        append_bytes(&mut out, &self.message);
        let sep = crlf();
        append_bytes(&mut out, &sep);
        let mut i: usize = 0;
        let cs = colon_sp();
        while i < self.headers.key_values.len()
            invariant
                0 <= i <= self.headers.key_values@.len(),
                cs@ == spec_colon_sp(),
                sep@ == spec_crlf(),
                out@ == spec_http_prefix() + spec_decimal(self.code as nat) + seq![32u8]
                    + self@.message + spec_crlf() + ser_headers(self@.headers.subrange(
                    0,
                    i as int,
                )),
            decreases self.headers.key_values@.len() - i,
        {
            let kv = &self.headers.key_values[i];
            append_bytes(&mut out, &kv.0);
            append_bytes(&mut out, &cs);
            append_bytes(&mut out, &kv.1);
            append_bytes(&mut out, &sep);
            proof {
                lemma_ser_headers_snoc(self@.headers, i as int);
            }
            i += 1;
        }
        proof {
            assert(self@.headers.subrange(0, self@.headers.len() as int) =~= self@.headers);
        }
        append_bytes(&mut out, &sep);
        append_bytes(&mut out, &self.body);
        out
    }
}

/// The decimal digits of `n`, most significant first, as ASCII bytes.
pub open spec fn spec_decimal(n: nat) -> Seq<u8>
    decreases n,
{
    if n < 10 {
        seq![(48 + n) as u8]
    } else {
        spec_decimal(n / 10) + seq![(48 + n % 10) as u8]
    }
}

/// Append the decimal rendering of `n` onto `out`.
pub fn push_decimal(out: &mut Vec<u8>, n: u64)
    ensures
        final(out)@ == old(out)@ + spec_decimal(n as nat),
    decreases n,
{
    if n < 10 {
        out.push(48 + (n as u8));
        proof {
            assert(old(out)@.push((48 + n) as u8) =~= old(out)@ + spec_decimal(n as nat));
        }
    } else {
        push_decimal(out, n / 10);
        out.push(48 + ((n % 10) as u8));
        proof {
            assert((old(out)@ + spec_decimal((n / 10) as nat)).push((48 + n % 10) as u8) =~= old(
                out,
            )@ + spec_decimal(n as nat));
        }
    }
}

/// The serialized header block: each pair as `{name}: {value}\r\n`, in order.
pub open spec fn ser_headers(hs: Seq<(Seq<u8>, Seq<u8>)>) -> Seq<u8>
    decreases hs.len(),
{
    if hs.len() == 0 {
        Seq::empty()
    } else {
        hs[0].0 + spec_colon_sp() + hs[0].1 + spec_crlf() + ser_headers(hs.drop_first())
    }
}

/// The full wire form of a response.
pub open spec fn serialize_spec(r: RespView) -> Seq<u8> {
    spec_http_prefix() + spec_decimal(r.code as nat) + seq![32u8] + r.message + spec_crlf()
        + ser_headers(r.headers) + spec_crlf() + r.body
}

/// Serializing one more header appends its line.
pub proof fn lemma_ser_headers_snoc(hs: Seq<(Seq<u8>, Seq<u8>)>, i: int)
    requires
        0 <= i < hs.len(),
    ensures
        ser_headers(hs.subrange(0, i + 1)) == ser_headers(hs.subrange(0, i)) + (hs[i].0
            + spec_colon_sp() + hs[i].1 + spec_crlf()),
    decreases i,
{
    let a = hs.subrange(0, i + 1);
    if i == 0 {
        assert(a.drop_first() =~= Seq::<(Seq<u8>, Seq<u8>)>::empty());
        assert(ser_headers(hs.subrange(0, 0)) =~= Seq::<u8>::empty());
        assert(a.len() == 1 && a[0] == hs[0]);
        assert(ser_headers(a) == a[0].0 + spec_colon_sp() + a[0].1 + spec_crlf() + ser_headers(
            a.drop_first(),
        ));
        assert(ser_headers(a.drop_first()) =~= Seq::<u8>::empty());
        assert(ser_headers(a) =~= hs[0].0 + spec_colon_sp() + hs[0].1 + spec_crlf());
        assert(ser_headers(hs.subrange(0, i)) + (hs[i].0 + spec_colon_sp() + hs[i].1
            + spec_crlf()) =~= hs[0].0 + spec_colon_sp() + hs[0].1 + spec_crlf());
    } else {
        lemma_ser_headers_snoc(hs.drop_first(), i - 1);
        assert(a.drop_first() =~= hs.drop_first().subrange(0, i));
        assert(hs.subrange(0, i).drop_first() =~= hs.drop_first().subrange(0, i - 1));
        assert(hs.drop_first()[i - 1] == hs[i]);
        let b = hs.subrange(0, i);
        assert(ser_headers(a) == a[0].0 + spec_colon_sp() + a[0].1 + spec_crlf() + ser_headers(
            hs.drop_first().subrange(0, i),
        ));
        assert(ser_headers(b) == b[0].0 + spec_colon_sp() + b[0].1 + spec_crlf() + ser_headers(
            hs.drop_first().subrange(0, i - 1),
        ));
        assert(a[0] == hs[0]);
        assert(b[0] == hs[0]);
        assert(ser_headers(a) =~= ser_headers(b) + (hs[i].0 + spec_colon_sp() + hs[i].1
            + spec_crlf()));
    }
}

} // verus!
