//! Content negotiation and the content encoder. Encoding is negotiated from
//! the `Accept-Encoding` request header, a comma-and-space-separated token
//! list; only the exact token `gzip` selects compression, every other token
//! is ignored. The compression itself is flate2's, behind a trusted wrapper.

use vstd::prelude::*;

use crate::bytes::{bytes_eq, copy_range, find_pattern, find_sub, lemma_find_sub_suffix};
use crate::request::Headers;
use crate::tokens::{
    comma_sp, hdr_accept_encoding, spec_comma_sp, spec_hdr_accept_encoding, spec_val_gzip,
    val_gzip,
};

verus! {

/// The pieces of `s` split on every occurrence of `pat`, in order. A piece
/// may be empty; a `s` without any occurrence is one piece.
pub open spec fn split_on(s: Seq<u8>, pat: Seq<u8>) -> Seq<Seq<u8>>
    decreases s.len(),
{
    match find_sub(s, pat, 0) {
        None => seq![s],
        Some(i) => if 0 <= i && pat.len() > 0 && i + pat.len() <= s.len() {
            seq![s.subrange(0, i)] + split_on(
                s.subrange(i + pat.len(), s.len() as int),
                pat,
            )
        } else {
            seq![s]
        },
    }
}

/// Does the token list `v` (an `Accept-Encoding` value) contain `gzip`?
/// The match is exact and case-sensitive; wildcards and quality values are
/// not interpreted, and unsupported tokens are ignored rather than rejected.
pub open spec fn lists_gzip(v: Seq<u8>) -> bool {
    split_on(v, spec_comma_sp()).contains(spec_val_gzip())
}

/// Does some `Accept-Encoding` header of the request advertise gzip?
pub open spec fn wants_gzip(headers: Seq<(Seq<u8>, Seq<u8>)>) -> bool {
    exists|i: int|
        0 <= i < headers.len() && headers[i].0 == spec_hdr_accept_encoding() && lists_gzip(
            headers[i].1,
        )
}

proof fn lemma_cons_contains(h: Seq<u8>, rest: Seq<Seq<u8>>, x: Seq<u8>)
    ensures
        (seq![h] + rest).contains(x) == (h == x || rest.contains(x)),
{
    let s = seq![h] + rest;
    if h == x {
        assert(s[0] == x);
    }
    if rest.contains(x) {
        let j = choose|j: int| 0 <= j < rest.len() && rest[j] == x;
        assert(s[j + 1] == x);
    }
    if s.contains(x) {
        let j = choose|j: int| 0 <= j < s.len() && s[j] == x;
        if j == 0 {
            assert(h == x);
        } else {
            assert(rest[j - 1] == x);
        }
    }
}

/// Does the token list in `v` contain exactly `gzip`, as `lists_gzip` says?
fn value_lists_gzip(v: &Vec<u8>) -> (r: bool)
    ensures
        r == lists_gzip(v@),
{
    let n = v.len();
    let cs = comma_sp();
    let gz = val_gzip();
    let mut pos: usize = 0;
    proof {
        assert(v@.subrange(0, n as int) =~= v@);
    }
    loop
        invariant
            pos <= v@.len(),
            n == v@.len(),
            cs@ == spec_comma_sp(),
            gz@ == spec_val_gzip(),
            lists_gzip(v@) == split_on(
                v@.subrange(pos as int, v@.len() as int),
                spec_comma_sp(),
            ).contains(spec_val_gzip()),
        decreases v@.len() - pos,
    {
        let ghost suf = v@.subrange(pos as int, v@.len() as int);
        proof {
            lemma_find_sub_suffix(v@, spec_comma_sp(), pos as int);
        }
        match find_pattern(v, pos, &cs) {
            None => {
                let token = copy_range(v, pos, n);
                proof {
                    assert(split_on(suf, spec_comma_sp()) =~= seq![suf]);
                    lemma_cons_contains(suf, Seq::<Seq<u8>>::empty(), spec_val_gzip());
                    assert(seq![suf] + Seq::<Seq<u8>>::empty() =~= seq![suf]);
                    assert(Seq::<Seq<u8>>::empty().contains(spec_val_gzip()) == false);
                }
                return bytes_eq(&token, &gz);
            },
            Some(i) => {
                let token = copy_range(v, pos, i);
                let ghost suf2 = v@.subrange(i + 2, v@.len() as int);
                proof {
                    assert(suf.subrange(0, i - pos) =~= token@);
                    assert(suf.subrange(i - pos + 2, suf.len() as int) =~= suf2);
                    assert(split_on(suf, spec_comma_sp()) == seq![token@] + split_on(
                        suf2,
                        spec_comma_sp(),
                    ));
                    lemma_cons_contains(token@, split_on(suf2, spec_comma_sp()), spec_val_gzip());
                }
                if bytes_eq(&token, &gz) {
                    return true;
                }
                pos = i + 2;
            },
        }
    }
}

/// Does the request advertise gzip, as `wants_gzip` says?
pub fn accepts_gzip(headers: &Headers) -> (r: bool)
    ensures
        r == wants_gzip(headers@),
{
    let ae = hdr_accept_encoding();
    let mut i: usize = 0;
    while i < headers.key_values.len()
        invariant
            0 <= i <= headers.key_values@.len(),
            ae@ == spec_hdr_accept_encoding(),
            forall|j: int|
                0 <= j < i ==> !(headers@[j].0 == spec_hdr_accept_encoding() && lists_gzip(
                    headers@[j].1,
                )),
        decreases headers.key_values@.len() - i,
    {
        let kv = &headers.key_values[i];
        proof {
            assert(headers@[i as int] == (kv.0@, kv.1@));
        }
        if bytes_eq(&kv.0, &ae) && value_lists_gzip(&kv.1) {
            return true;
        }
        i += 1;
    }
    proof {
        if wants_gzip(headers@) {
            let w = choose|w: int|
                0 <= w < headers@.len() && headers@[w].0 == spec_hdr_accept_encoding()
                    && lists_gzip(headers@[w].1);
            assert(!(headers@[w].0 == spec_hdr_accept_encoding() && lists_gzip(headers@[w].1)));
        }
    }
    false
}

/// The gzip stream that compressing `data` at the default level yields. The
/// stream is a function of the input bytes alone; nothing further is assumed
/// of its shape.
pub uninterp spec fn gzip_of(data: Seq<u8>) -> Seq<u8>;

/// Relies on flate2's `write::GzEncoder` over a `Vec<u8>` sink at the default
/// compression level. Its output is computed from the input bytes alone: the
/// header it emits carries a zero timestamp and a fixed operating-system
/// byte, and the deflate stream depends only on the data and the level. The
/// bytes of that output are named `gzip_of(data)`; a compressor error
/// surfaces as `Err`.
#[verifier::external_body]
pub(crate) fn gzip_compress(data: &Vec<u8>) -> (r: Result<Vec<u8>, ()>)
    ensures
        r matches Ok(c) ==> c@ == gzip_of(data@),
{
    let mut enc = flate2::write::GzEncoder::new(Vec::new(), flate2::Compression::default());
    if std::io::Write::write_all(&mut enc, data.as_slice()).is_err() {
        return Err(());
    }
    match enc.finish() {
        Ok(c) => Ok(c),
        Err(_) => Err(()),
    }
}

} // verus!
