//! The general properties of the wire codec, proved once for all inputs: a
//! raw request assembled from well-formed parts parses back to exactly those
//! parts (method, target, headers in order with duplicates kept, body), and
//! parsing is a function of the bytes alone.

use vstd::prelude::*;

use crate::bytes::{contains_at, find_sub, has_sub, lemma_find_sub_complete, lemma_find_sub_spec};
use crate::request::{
    parse_header_block, parse_header_line, parse_request_line, parse_spec, strip_nuls, ParseError,
    ReqView,
};
use crate::response::ser_headers;
use crate::tokens::{spec_colon_sp, spec_crlf, spec_crlf2};

verus! {

/// A method or target field: free of CRLF and of spaces.
pub open spec fn token_wf(s: Seq<u8>) -> bool {
    !has_sub(s, spec_crlf()) && !s.contains(32u8)
}

/// A protocol-version field: free of CRLF. Spaces are allowed; the version is
/// everything after the second space of the line.
pub open spec fn version_wf(s: Seq<u8>) -> bool {
    !has_sub(s, spec_crlf())
}

/// A header pair: no CRLF in name or value, and no `": "` in the name, so the
/// line splits back at its first `": "`.
pub open spec fn header_wf(kv: (Seq<u8>, Seq<u8>)) -> bool {
    !has_sub(kv.0, spec_crlf()) && !has_sub(kv.1, spec_crlf()) && !has_sub(kv.0, spec_colon_sp())
}

pub open spec fn headers_wf(hs: Seq<(Seq<u8>, Seq<u8>)>) -> bool {
    forall|i: int| 0 <= i < hs.len() ==> header_wf(#[trigger] hs[i])
}

/// A body must not end in a NUL byte: the parser strips trailing NUL padding
/// left by a fixed-size read buffer before it looks at anything.
pub open spec fn body_wf(b: Seq<u8>) -> bool {
    b.len() > 0 ==> b[b.len() - 1] != 0
}

/// The raw bytes of a request assembled from its parts: the request line,
/// one line per header, the blank separator line, then the body.
pub open spec fn raw_request(
    m: Seq<u8>,
    t: Seq<u8>,
    v: Seq<u8>,
    hs: Seq<(Seq<u8>, Seq<u8>)>,
    body: Seq<u8>,
) -> Seq<u8> {
    m + seq![32u8] + t + seq![32u8] + v + spec_crlf() + ser_headers(hs) + spec_crlf() + body
}

/// CRLF occurs at `j` exactly when the two bytes there are CR, LF.
proof fn lemma_crlf_at(s: Seq<u8>, j: int)
    ensures
        contains_at(s, j, spec_crlf()) <==> (0 <= j && j + 2 <= s.len() && s[j] == 13 && s[j + 1]
            == 10),
{
    if 0 <= j && j + 2 <= s.len() && s[j] == 13 && s[j + 1] == 10 {
        assert forall|k: int| 0 <= k < spec_crlf().len() implies s[j + k] == spec_crlf()[k] by {
            if k == 0 {
            } else {
                assert(k == 1);
            }
        }
    }
    if contains_at(s, j, spec_crlf()) {
        assert(s[j + 0] == spec_crlf()[0]);
        assert(s[j + 1] == spec_crlf()[1]);
    }
}

/// The blank-line separator occurs at `j` exactly when the four bytes there
/// are CR, LF, CR, LF.
proof fn lemma_crlf2_at(s: Seq<u8>, j: int)
    ensures
        contains_at(s, j, spec_crlf2()) <==> (0 <= j && j + 4 <= s.len() && s[j] == 13 && s[j + 1]
            == 10 && s[j + 2] == 13 && s[j + 3] == 10),
{
    if 0 <= j && j + 4 <= s.len() && s[j] == 13 && s[j + 1] == 10 && s[j + 2] == 13 && s[j + 3]
        == 10 {
        assert forall|k: int| 0 <= k < spec_crlf2().len() implies s[j + k] == spec_crlf2()[k] by {
            if k == 0 {
            } else if k == 1 {
            } else if k == 2 {
            } else {
                assert(k == 3);
            }
        }
    }
    if contains_at(s, j, spec_crlf2()) {
        assert(s[j + 0] == spec_crlf2()[0]);
        assert(s[j + 1] == spec_crlf2()[1]);
        assert(s[j + 2] == spec_crlf2()[2]);
        assert(s[j + 3] == spec_crlf2()[3]);
    }
}

/// `": "` occurs at `j` exactly when the two bytes there are `:`, space.
proof fn lemma_colon_sp_at(s: Seq<u8>, j: int)
    ensures
        contains_at(s, j, spec_colon_sp()) <==> (0 <= j && j + 2 <= s.len() && s[j] == 58 && s[j
            + 1] == 32),
{
    if 0 <= j && j + 2 <= s.len() && s[j] == 58 && s[j + 1] == 32 {
        assert forall|k: int| 0 <= k < spec_colon_sp().len() implies s[j + k]
            == spec_colon_sp()[k] by {
            if k == 0 {
            } else {
                assert(k == 1);
            }
        }
    }
    if contains_at(s, j, spec_colon_sp()) {
        assert(s[j + 0] == spec_colon_sp()[0]);
        assert(s[j + 1] == spec_colon_sp()[1]);
    }
}

/// A single byte occurs at `j` exactly when the byte there is it.
proof fn lemma_byte_at(s: Seq<u8>, j: int, b: u8)
    ensures
        contains_at(s, j, seq![b]) <==> (0 <= j && j + 1 <= s.len() && s[j] == b),
{
    if 0 <= j && j + 1 <= s.len() && s[j] == b {
        assert forall|k: int| 0 <= k < seq![b].len() implies s[j + k] == seq![b][k] by {
            assert(k == 0);
        }
    }
    if contains_at(s, j, seq![b]) {
        assert(s[j + 0] == seq![b][0]);
    }
}

/// Two CRLF-free pieces joined by a separator free of CR and LF stay
/// CRLF-free.
proof fn lemma_no_crlf_join(a: Seq<u8>, sep: Seq<u8>, b: Seq<u8>)
    requires
        !has_sub(a, spec_crlf()),
        !has_sub(b, spec_crlf()),
        sep.len() >= 1,
        forall|i: int| 0 <= i < sep.len() ==> sep[i] != 13 && sep[i] != 10,
    ensures
        !has_sub(a + sep + b, spec_crlf()),
{
    let s = a + sep + b;
    let la = a.len() as int;
    let ls = sep.len() as int;
    assert forall|j: int| !contains_at(s, j, spec_crlf()) by {
        lemma_crlf_at(s, j);
        if 0 <= j && j + 2 <= s.len() && s[j] == 13 && s[j + 1] == 10 {
            let q = j + 1;
            if q < la {
                assert(a[q] == 10 && a[q - 1] == 13);
                lemma_crlf_at(a, q - 1);
                assert(contains_at(a, q - 1, spec_crlf()));
            } else if q < la + ls {
                assert(sep[q - la] == 10);
            } else {
                if q == la + ls {
                    if j >= la {
                        assert(sep[j - la] == 13);
                    } else {
                        assert(a[j] == 13);
                        // then q - 1 = j < la, so sep is empty here: impossible
                        // since j + 1 == la + ls and j < la forces ls <= 0
                        assert(ls <= 0);
                    }
                } else {
                    assert(b[q - la - ls] == 10 && b[q - la - ls - 1] == 13);
                    lemma_crlf_at(b, q - la - ls - 1);
                    assert(contains_at(b, q - la - ls - 1, spec_crlf()));
                }
            }
        }
    }
    if has_sub(s, spec_crlf()) {
        let j = choose|j: int| contains_at(s, j, spec_crlf());
    }
}

/// A request line assembled from well-formed fields is CRLF-free.
proof fn lemma_line_no_crlf(m: Seq<u8>, t: Seq<u8>, v: Seq<u8>)
    requires
        token_wf(m),
        token_wf(t),
        version_wf(v),
    ensures
        !has_sub(m + seq![32u8] + t + seq![32u8] + v, spec_crlf()),
{
    lemma_no_crlf_join(m, seq![32u8], t);
    let x = m + seq![32u8] + t;
    lemma_no_crlf_join(x, seq![32u8], v);
    assert(x + seq![32u8] + v =~= m + seq![32u8] + t + seq![32u8] + v);
}

/// A header line assembled from a well-formed pair is CRLF-free, and splits
/// back at its first `": "` into exactly the pair.
proof fn lemma_header_line(k: Seq<u8>, w: Seq<u8>)
    requires
        header_wf((k, w)),
    ensures
        !has_sub(k + spec_colon_sp() + w, spec_crlf()),
        find_sub(k + spec_colon_sp() + w, spec_colon_sp(), 0) == Some(k.len() as int),
        parse_header_line(k + spec_colon_sp() + w) == Some((k, w)),
{
    let line = k + spec_colon_sp() + w;
    let lk = k.len() as int;
    assert(spec_colon_sp()[0] == 58 && spec_colon_sp()[1] == 32);
    lemma_no_crlf_join(k, spec_colon_sp(), w);
    // the separator occurs right after the name
    assert(line[lk] == 58 && line[lk + 1] == 32);
    lemma_colon_sp_at(line, lk);
    assert(contains_at(line, lk, spec_colon_sp()));
    // and nowhere earlier
    assert forall|j: int| 0 <= j < lk implies !contains_at(line, j, spec_colon_sp()) by {
        lemma_colon_sp_at(line, j);
        if line[j] == 58 && line[j + 1] == 32 {
            if j + 1 < lk {
                lemma_colon_sp_at(k, j);
                assert(contains_at(k, j, spec_colon_sp()));
            } else {
                assert(j + 1 == lk);
                assert(line[j + 1] == 58);
            }
        }
    }
    lemma_find_sub_complete(line, spec_colon_sp(), 0, lk);
    lemma_find_sub_spec(line, spec_colon_sp(), 0);
    match find_sub(line, spec_colon_sp(), 0) {
        Some(i) => {
            assert(i == lk);
        },
        None => {
            assert(false);
        },
    }
    assert(line.subrange(0, lk) =~= k);
    assert(line.subrange(lk + 2, line.len() as int) =~= w);
}

/// The shape of a nonempty serialized header block: at least one full line,
/// it ends with CRLF, and it does not start with one.
proof fn lemma_ser_headers_shape(hs: Seq<(Seq<u8>, Seq<u8>)>)
    requires
        headers_wf(hs),
        hs.len() > 0,
    ensures
        ser_headers(hs).len() >= 4,
        ser_headers(hs)[ser_headers(hs).len() - 2] == 13,
        ser_headers(hs)[ser_headers(hs).len() - 1] == 10,
        !(ser_headers(hs)[0] == 13 && ser_headers(hs)[1] == 10),
    decreases hs.len(),
{
    let s = ser_headers(hs);
    let k = hs[0].0;
    let w = hs[0].1;
    let line = k + spec_colon_sp() + w;
    let l0 = line.len() as int;
    assert(s =~= line + spec_crlf() + ser_headers(hs.drop_first()));
    if hs.len() == 1 {
        assert(ser_headers(hs.drop_first()) =~= Seq::<u8>::empty());
        assert(s.len() == l0 + 2);
        assert(s[l0] == 13 && s[l0 + 1] == 10);
    } else {
        assert(headers_wf(hs.drop_first())) by {
            assert forall|i: int| 0 <= i < hs.drop_first().len() implies header_wf(
                #[trigger] hs.drop_first()[i],
            ) by {
                assert(hs.drop_first()[i] == hs[i + 1]);
            }
        }
        lemma_ser_headers_shape(hs.drop_first());
        let s2 = ser_headers(hs.drop_first());
        assert(s.len() == l0 + 2 + s2.len());
        assert(s[s.len() - 2] == s2[s2.len() - 2]);
        assert(s[s.len() - 1] == s2[s2.len() - 1]);
    }
    // the first two bytes are never CR, LF: they lie in `k`, or hit the colon
    if k.len() >= 2 {
        if s[0] == 13 && s[1] == 10 {
            lemma_crlf_at(k, 0);
            assert(contains_at(k, 0, spec_crlf()));
        }
    } else if k.len() == 1 {
        assert(s[1] == 58);
    } else {
        assert(s[0] == 58);
    }
}

/// Parsing a header block plus separator and body: the blank line is found
/// exactly at the end of the block, and the block parses back to the pairs.
#[verifier::rlimit(100)]
proof fn lemma_block_parses(hs: Seq<(Seq<u8>, Seq<u8>)>, body: Seq<u8>)
    requires
        headers_wf(hs),
        hs.len() > 0,
    ensures
        ({
            let rest = ser_headers(hs) + spec_crlf() + body;
            let bl = ser_headers(hs).len() as int;
            &&& find_sub(rest, spec_crlf2(), 0) == Some(bl - 2)
            &&& parse_header_block(rest.subrange(0, bl - 2)) == Some(hs)
        }),
    decreases hs.len(),
{
    let rest = ser_headers(hs) + spec_crlf() + body;
    let bl = ser_headers(hs).len() as int;
    let k = hs[0].0;
    let w = hs[0].1;
    let line = k + spec_colon_sp() + w;
    let l0 = line.len() as int;
    lemma_header_line(k, w);
    lemma_ser_headers_shape(hs);
    assert(ser_headers(hs) =~= line + spec_crlf() + ser_headers(hs.drop_first()));

    // the separator occurs at the end of the block
    assert(rest[bl - 2] == 13 && rest[bl - 1] == 10 && rest[bl] == 13 && rest[bl + 1] == 10);
    lemma_crlf2_at(rest, bl - 2);
    assert(contains_at(rest, bl - 2, spec_crlf2()));

    // no CRLF sits inside the first line or straddles its end
    assert forall|j: int| 0 <= j < l0 implies !(#[trigger] rest[j] == 13 && rest[j + 1] == 10) by {
        if rest[j] == 13 && rest[j + 1] == 10 {
            if j + 1 < l0 {
                lemma_crlf_at(line, j);
                assert(contains_at(line, j, spec_crlf()));
            } else {
                assert(j + 1 == l0);
                assert(rest[j + 1] == 13);
            }
        }
    }

    if hs.len() == 1 {
        assert(ser_headers(hs.drop_first()) =~= Seq::<u8>::empty());
        assert(bl == l0 + 2);
        // no earlier separator: a CRLF would have to sit inside the line
        assert forall|j: int| 0 <= j < bl - 2 implies !contains_at(rest, j, spec_crlf2()) by {
            lemma_crlf2_at(rest, j);
        }
        lemma_find_sub_complete(rest, spec_crlf2(), 0, bl - 2);
        lemma_find_sub_spec(rest, spec_crlf2(), 0);
        match find_sub(rest, spec_crlf2(), 0) {
            Some(i) => {
                assert(i == bl - 2);
            },
            None => {
                assert(false);
            },
        }
        // the block is the bare line, which holds no CRLF at all
        let block = rest.subrange(0, bl - 2);
        assert(block =~= line);
        lemma_find_sub_spec(block, spec_crlf(), 0);
        match find_sub(block, spec_crlf(), 0) {
            Some(i) => {
                assert(contains_at(line, i, spec_crlf()));
                assert(false);
            },
            None => {},
        }
        assert(parse_header_block(block) == Some(seq![(k, w)]));
        assert(seq![(k, w)] =~= hs);
    } else {
        let hs2 = hs.drop_first();
        assert(headers_wf(hs2)) by {
            assert forall|i: int| 0 <= i < hs2.len() implies header_wf(#[trigger] hs2[i]) by {
                assert(hs2[i] == hs[i + 1]);
            }
        }
        lemma_block_parses(hs2, body);
        lemma_ser_headers_shape(hs2);
        let rest2 = ser_headers(hs2) + spec_crlf() + body;
        let bl2 = ser_headers(hs2).len() as int;
        assert(bl == l0 + 2 + bl2);
        // `rest` is the first line, CRLF, then the rest of the block
        assert(rest =~= line + spec_crlf() + rest2);
        assert forall|p: int| 0 <= p < rest2.len() implies rest[l0 + 2 + p] == rest2[p] by {}

        // the separator of the smaller block, shifted, occurs in `rest`
        lemma_find_sub_spec(rest2, spec_crlf2(), 0);
        assert(contains_at(rest2, bl2 - 2, spec_crlf2()));

        // and nothing earlier: not in the line, not straddling it, not
        // before the smaller block's own separator
        assert forall|j: int| 0 <= j < bl - 2 implies !contains_at(rest, j, spec_crlf2()) by {
            lemma_crlf2_at(rest, j);
            if 0 <= j && j + 4 <= rest.len() && rest[j] == 13 && rest[j + 1] == 10 && rest[j + 2]
                == 13 && rest[j + 3] == 10 {
                if j < l0 {
                } else if j == l0 {
                    // the bytes after the line's CRLF start the next line,
                    // which does not start with CRLF
                    assert(rest[l0 + 2] == rest2[0] && rest[l0 + 3] == rest2[1]);
                    assert(rest2[0] == ser_headers(hs2)[0] && rest2[1] == ser_headers(hs2)[1]);
                } else if j == l0 + 1 {
                    assert(rest[l0 + 1] == 10);
                } else {
                    let p = j - (l0 + 2);
                    assert(rest2[p] == 13 && rest2[p + 1] == 10 && rest2[p + 2] == 13 && rest2[p
                        + 3] == 10);
                    lemma_crlf2_at(rest2, p);
                    assert(contains_at(rest2, p, spec_crlf2()));
                    assert(p < bl2 - 2);
                }
            }
        }
        lemma_find_sub_complete(rest, spec_crlf2(), 0, bl - 2);
        lemma_find_sub_spec(rest, spec_crlf2(), 0);
        match find_sub(rest, spec_crlf2(), 0) {
            Some(i) => {
                assert(i == bl - 2);
            },
            None => {
                assert(false);
            },
        }

        // the block parses line by line: its first CRLF ends the first line
        let block = rest.subrange(0, bl - 2);
        let block2 = rest2.subrange(0, bl2 - 2);
        assert(block =~= line + spec_crlf() + block2);
        assert(block[l0] == 13 && block[l0 + 1] == 10);
        lemma_crlf_at(block, l0);
        assert forall|j: int| 0 <= j < l0 implies !contains_at(block, j, spec_crlf()) by {
            lemma_crlf_at(block, j);
            if block[j] == 13 && block[j + 1] == 10 {
                assert(rest[j] == 13 && rest[j + 1] == 10);
            }
        }
        lemma_find_sub_complete(block, spec_crlf(), 0, l0);
        lemma_find_sub_spec(block, spec_crlf(), 0);
        match find_sub(block, spec_crlf(), 0) {
            Some(i) => {
                assert(i == l0);
            },
            None => {
                assert(false);
            },
        }
        assert(block.subrange(0, l0) =~= line);
        assert(block.subrange(l0 + 2, block.len() as int) =~= block2);
        assert(parse_header_block(block) == Some(seq![(k, w)] + hs2));
        assert(seq![(k, w)] + hs2 =~= hs);
    }
}

/// Parsing recovers every part of a well-formed raw request: the method, the
/// target, the headers in their original order with duplicates preserved,
/// and the body, exactly.
pub proof fn lemma_parse_recovers(
    m: Seq<u8>,
    t: Seq<u8>,
    v: Seq<u8>,
    hs: Seq<(Seq<u8>, Seq<u8>)>,
    body: Seq<u8>,
)
    requires
        token_wf(m),
        token_wf(t),
        version_wf(v),
        headers_wf(hs),
        body_wf(body),
    ensures
        parse_spec(raw_request(m, t, v, hs, body)) == Ok::<ReqView, ParseError>(
            ReqView { method: m, target: t, headers: hs, body },
        ),
{
    let line = m + seq![32u8] + t + seq![32u8] + v;
    let ll = line.len() as int;
    let tail = ser_headers(hs) + spec_crlf() + body;
    let raw = raw_request(m, t, v, hs, body);
    assert(raw =~= line + spec_crlf() + tail);

    // stripping is the identity: the last byte is the body's last byte or LF
    assert(strip_nuls(raw) == raw) by {
        if body.len() > 0 {
            assert(raw[raw.len() - 1] == body[body.len() - 1]);
        } else {
            assert(raw[raw.len() - 1] == 10);
        }
    }

    // the first CRLF ends the request line
    lemma_line_no_crlf(m, t, v);
    assert(raw[ll] == 13 && raw[ll + 1] == 10);
    lemma_crlf_at(raw, ll);
    assert forall|j: int| 0 <= j < ll implies !contains_at(raw, j, spec_crlf()) by {
        lemma_crlf_at(raw, j);
        if raw[j] == 13 && raw[j + 1] == 10 {
            if j + 1 < ll {
                lemma_crlf_at(line, j);
                assert(contains_at(line, j, spec_crlf()));
            } else {
                assert(j + 1 == ll);
                assert(raw[j + 1] == 13);
            }
        }
    }
    lemma_find_sub_complete(raw, spec_crlf(), 0, ll);
    lemma_find_sub_spec(raw, spec_crlf(), 0);
    match find_sub(raw, spec_crlf(), 0) {
        Some(i) => {
            assert(i == ll);
        },
        None => {
            assert(false);
        },
    }
    assert(raw.subrange(0, ll) =~= line);
    let rest = raw.subrange(ll + 2, raw.len() as int);
    assert(rest =~= tail);

    // the request line splits at its two spaces
    let lm = m.len() as int;
    let a2 = lm + 1 + t.len() as int;
    assert(line[lm] == 32);
    lemma_byte_at(line, lm, 32u8);
    assert forall|j: int| 0 <= j < lm implies !contains_at(line, j, seq![32u8]) by {
        lemma_byte_at(line, j, 32u8);
        if line[j] == 32 {
            assert(m[j] == 32);
            assert(m.contains(32u8));
        }
    }
    lemma_find_sub_complete(line, seq![32u8], 0, lm);
    lemma_find_sub_spec(line, seq![32u8], 0);
    match find_sub(line, seq![32u8], 0) {
        Some(i) => {
            assert(i == lm);
        },
        None => {
            assert(false);
        },
    }
    assert(line[a2] == 32);
    lemma_byte_at(line, a2, 32u8);
    assert forall|j: int| lm + 1 <= j < a2 implies !contains_at(line, j, seq![32u8]) by {
        lemma_byte_at(line, j, 32u8);
        if line[j] == 32 {
            assert(t[j - lm - 1] == 32);
            assert(t.contains(32u8));
        }
    }
    lemma_find_sub_complete(line, seq![32u8], lm + 1, a2);
    lemma_find_sub_spec(line, seq![32u8], lm + 1);
    match find_sub(line, seq![32u8], lm + 1) {
        Some(i) => {
            assert(i == a2);
        },
        None => {
            assert(false);
        },
    }
    assert(parse_request_line(line) == Some((line.subrange(0, lm), line.subrange(lm + 1, a2))));
    assert(line.subrange(0, lm) =~= m);
    assert(line.subrange(lm + 1, a2) =~= t);

    if hs.len() == 0 {
        // no headers: the remainder starts with the blank line
        assert(ser_headers(hs) =~= Seq::<u8>::empty());
        assert(rest =~= spec_crlf() + body);
        assert(rest.len() >= 2 && rest[0] == 13 && rest[1] == 10);
        assert(rest.subrange(2, rest.len() as int) =~= body);
        assert(hs =~= Seq::<(Seq<u8>, Seq<u8>)>::empty());
    } else {
        // with headers: the remainder starts with the first header name
        lemma_ser_headers_shape(hs);
        let bl = ser_headers(hs).len() as int;
        assert(rest[0] == ser_headers(hs)[0] && rest[1] == ser_headers(hs)[1]);
        assert(!(rest.len() >= 2 && rest[0] == 13 && rest[1] == 10));
        lemma_block_parses(hs, body);
        assert(find_sub(rest, spec_crlf2(), 0) == Some(bl - 2));
        assert(rest.subrange(0, bl - 2) =~= tail.subrange(0, bl - 2));
        assert(parse_header_block(rest.subrange(0, bl - 2)) == Some(hs));
        assert(rest.subrange(bl - 2 + 4, rest.len() as int) =~= body);
    }
}

/// Parsing is deterministic: identical bytes parse to field-for-field
/// identical results, so re-parsing the same buffer cannot differ.
pub proof fn lemma_parse_deterministic(b1: Seq<u8>, b2: Seq<u8>)
    requires
        b1 == b2,
    ensures
        parse_spec(b1) == parse_spec(b2),
{
}

} // verus!
