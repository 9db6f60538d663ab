//! Byte-sequence primitives: finding the first occurrence of a pattern,
//! copying ranges, and comparing sequences. Everything the wire codec does is
//! built on `find_sub`, the mathematical "first occurrence at or after an
//! index" function.

use vstd::prelude::*;

verus! {

/// `pat` occurs in `s` at index `i`.
pub open spec fn contains_at(s: Seq<u8>, i: int, pat: Seq<u8>) -> bool {
    &&& 0 <= i
    &&& i + pat.len() <= s.len()
    &&& forall|k: int| 0 <= k < pat.len() ==> s[i + k] == pat[k]
}

/// `pat` occurs somewhere in `s`.
pub open spec fn has_sub(s: Seq<u8>, pat: Seq<u8>) -> bool {
    exists|i: int| contains_at(s, i, pat)
}

/// The smallest index at or after `from` where `pat` occurs in `s`, if any.
/// An empty pattern is never found.
pub open spec fn find_sub(s: Seq<u8>, pat: Seq<u8>, from: int) -> Option<int>
    decreases s.len() - from,
{
    if from < 0 || pat.len() <= 0 || from + pat.len() > s.len() {
        None
    } else if contains_at(s, from, pat) {
        Some(from)
    } else {
        find_sub(s, pat, from + 1)
    }
}

/// What `find_sub` returns: the first occurrence at or after `from`, or
/// the absence of any such occurrence.
pub proof fn lemma_find_sub_spec(s: Seq<u8>, pat: Seq<u8>, from: int)
    requires
        pat.len() > 0,
        0 <= from,
    ensures
        match find_sub(s, pat, from) {
            Some(i) => from <= i && contains_at(s, i, pat) && forall|j: int|
                from <= j < i ==> !contains_at(s, j, pat),
            None => forall|j: int| from <= j ==> !contains_at(s, j, pat),
        },
    decreases s.len() - from,
{
    if from + pat.len() > s.len() {
        assert forall|j: int| from <= j implies !contains_at(s, j, pat) by {}
    } else if contains_at(s, from, pat) {
    } else {
        lemma_find_sub_spec(s, pat, from + 1);
    }
}

/// If `pat` occurs at `k`, a search that starts at or before `k` finds an
/// occurrence no later than `k`.
pub proof fn lemma_find_sub_complete(s: Seq<u8>, pat: Seq<u8>, from: int, k: int)
    requires
        pat.len() > 0,
        0 <= from <= k,
        contains_at(s, k, pat),
    ensures
        find_sub(s, pat, from) matches Some(i) && i <= k,
    decreases k - from,
{
    if contains_at(s, from, pat) {
    } else {
        lemma_find_sub_complete(s, pat, from + 1, k);
    }
}

/// Searching in `s` from `from` matches searching in the suffix of `s`
/// that starts at `from`.
pub proof fn lemma_find_sub_suffix(s: Seq<u8>, pat: Seq<u8>, from: int)
    requires
        pat.len() > 0,
        0 <= from <= s.len(),
    ensures
        match find_sub(s, pat, from) {
            Some(i) => find_sub(s.subrange(from, s.len() as int), pat, 0) == Some(i - from),
            None => find_sub(s.subrange(from, s.len() as int), pat, 0) is None,
        },
{
    let suf = s.subrange(from, s.len() as int);
    assert forall|k: int| 0 <= k implies contains_at(suf, k, pat) == contains_at(
        s,
        from + k,
        pat,
    ) by {
        if contains_at(suf, k, pat) {
            assert forall|m: int| 0 <= m < pat.len() implies s[from + k + m] == pat[m] by {
                assert(suf[k + m] == pat[m]);
            }
        }
        if contains_at(s, from + k, pat) {
            assert forall|m: int| 0 <= m < pat.len() implies suf[k + m] == pat[m] by {
                assert(s[from + k + m] == pat[m]);
            }
        }
    }
    lemma_find_sub_spec(s, pat, from);
    lemma_find_sub_spec(suf, pat, 0);
    match find_sub(s, pat, from) {
        Some(i) => {
            assert(contains_at(suf, i - from, pat));
            match find_sub(suf, pat, 0) {
                Some(j) => {
                    assert(contains_at(s, from + j, pat));
                    assert(j == i - from);
                },
                None => {
                    assert(!contains_at(suf, i - from, pat));
                },
            }
        },
        None => {
            match find_sub(suf, pat, 0) {
                Some(j) => {
                    assert(contains_at(s, from + j, pat));
                },
                None => {},
            }
        },
    }
}

/// Does `pat` occur in `s` exactly at index `i`?
fn match_at(s: &Vec<u8>, i: usize, pat: &Vec<u8>) -> (r: bool)
    requires
        i + pat@.len() <= s@.len(),
    ensures
        r == contains_at(s@, i as int, pat@),
{
    let n = s.len();
    let mut k: usize = 0;
    while k < pat.len()
        invariant
            i + pat@.len() <= s@.len(),
            n == s@.len(),
            0 <= k <= pat@.len(),
            forall|m: int| 0 <= m < k ==> s@[i + m] == pat@[m],
        decreases pat@.len() - k,
    {
        let idx: usize = i + k;
        if s[idx] != pat[k] {
            assert(!contains_at(s@, i as int, pat@));
            return false;
        }
        k += 1;
    }
    true
}

/// The first occurrence of `pat` in `s` at or after `from`, as `find_sub`
/// defines it.
pub fn find_pattern(s: &Vec<u8>, from: usize, pat: &Vec<u8>) -> (r: Option<usize>)
    requires
        pat@.len() > 0,
    ensures
        match r {
            Some(i) => find_sub(s@, pat@, from as int) == Some(i as int) && from <= i && i
                + pat@.len() <= s@.len(),
            None => find_sub(s@, pat@, from as int) is None,
        },
{
    if s.len() < pat.len() || from > s.len() - pat.len() {
        return None;
    }
    let mut i: usize = from;
    loop
        invariant
            pat@.len() > 0,
            pat@.len() <= s@.len(),
            s@.len() <= usize::MAX,
            from <= i,
            i + pat@.len() <= s@.len() + 1,
            find_sub(s@, pat@, from as int) == find_sub(s@, pat@, i as int),
        decreases s@.len() - i,
    {
        if i > s.len() - pat.len() {
            return None;
        }
        if match_at(s, i, pat) {
            return Some(i);
        }
        i += 1;
    }
}

/// A copy of `s[start..end]`.
pub fn copy_range(s: &Vec<u8>, start: usize, end: usize) -> (r: Vec<u8>)
    requires
        start <= end <= s@.len(),
    ensures
        r@ == s@.subrange(start as int, end as int),
{
    let mut r: Vec<u8> = Vec::new();
    let mut i: usize = start;
    while i < end
        invariant
            start <= i <= end <= s@.len(),
            r@ == s@.subrange(start as int, i as int),
        decreases end - i,
    {
        r.push(s[i]);
        i += 1;
        proof {
            assert(s@.subrange(start as int, i as int) =~= s@.subrange(
                start as int,
                i - 1,
            ).push(s@[i - 1]));
        }
    }
    r
}

/// A copy of all of `s`.
pub fn copy_bytes(s: &Vec<u8>) -> (r: Vec<u8>)
    ensures
        r@ == s@,
{
    let r = copy_range(s, 0, s.len());
    proof {
        assert(s@.subrange(0, s@.len() as int) =~= s@);
    }
    r
}

/// Append all of `s` onto `out`.
pub fn append_bytes(out: &mut Vec<u8>, s: &Vec<u8>)
    ensures
        final(out)@ == old(out)@ + s@,
{
    let mut i: usize = 0;
    while i < s.len()
        invariant
            0 <= i <= s@.len(),
            out@ == old(out)@ + s@.subrange(0, i as int),
        decreases s@.len() - i,
    {
        out.push(s[i]);
        i += 1;
        proof {
            assert(old(out)@ + s@.subrange(0, i as int) =~= (old(out)@ + s@.subrange(
                0,
                i - 1,
            )).push(s@[i - 1]));
        }
    }
    proof {
        assert(s@.subrange(0, s@.len() as int) =~= s@);
    }
}

/// Are two byte vectors equal as sequences?
pub fn bytes_eq(a: &Vec<u8>, b: &Vec<u8>) -> (r: bool)
    ensures
        r == (a@ == b@),
{
    if a.len() != b.len() {
        return false;
    }
    let mut i: usize = 0;
    while i < a.len()
        invariant
            a@.len() == b@.len(),
            0 <= i <= a@.len(),
            forall|m: int| 0 <= m < i ==> a@[m] == b@[m],
        decreases a@.len() - i,
    {
        if a[i] != b[i] {
            return false;
        }
        i += 1;
    }
    proof {
        assert(a@ =~= b@);
    }
    true
}

/// `s` begins with `pre`.
pub open spec fn seq_starts_with(s: Seq<u8>, pre: Seq<u8>) -> bool {
    pre.len() <= s.len() && s.subrange(0, pre.len() as int) == pre
}

/// Does `s` start with `pre`?
pub fn bytes_starts_with(s: &Vec<u8>, pre: &Vec<u8>) -> (r: bool)
    ensures
        r == seq_starts_with(s@, pre@),
{
    if pre.len() > s.len() {
        return false;
    }
    let r = match_at(s, 0, pre);
    proof {
        if contains_at(s@, 0, pre@) {
            assert(s@.subrange(0, pre@.len() as int) =~= pre@);
        } else {
            if s@.subrange(0, pre@.len() as int) == pre@ {
                assert forall|k: int| 0 <= k < pre@.len() implies s@[k] == pre@[k] by {
                    assert(s@.subrange(0, pre@.len() as int)[k] == pre@[k]);
                }
            }
        }
    }
    r
}

} // verus!
