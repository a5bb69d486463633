//! Byte-sequence utilities: equality, substring search, and subrange
//! extraction, with exact specifications over `Seq<u8>`.

use vstd::prelude::*;

verus! {

/// The pattern `pat` occurs in `hay` starting at position `i`.
pub open spec fn match_at(hay: Seq<u8>, pat: Seq<u8>, i: int) -> bool {
    &&& 0 <= i
    &&& i + pat.len() <= hay.len()
    &&& hay.subrange(i, i + pat.len()) == pat
}

/// The pattern `pat` occurs somewhere in `hay`.
pub open spec fn contains_seq(hay: Seq<u8>, pat: Seq<u8>) -> bool {
    exists|i: int| match_at(hay, pat, i)
}

/// Position of the first occurrence of `pat` in `hay` at or after `from`.
pub open spec fn find_at_or_after(hay: Seq<u8>, pat: Seq<u8>, from: int) -> Option<int>
    decreases hay.len() - from when 0 <= from <= hay.len()
{
    if from + pat.len() > hay.len() {
        None
    } else if match_at(hay, pat, from) {
        Some(from)
    } else if from < hay.len() {
        find_at_or_after(hay, pat, from + 1)
    } else {
        None
    }
}

/// `find_at_or_after` returns the first match position at or after `from`,
/// and `None` exactly when there is no match at or after `from`.
pub proof fn lemma_find_first(hay: Seq<u8>, pat: Seq<u8>, from: int)
    requires
        0 <= from <= hay.len(),
    ensures
        match find_at_or_after(hay, pat, from) {
            Some(i) => from <= i && match_at(hay, pat, i) && (forall|j: int|
                from <= j < i ==> !match_at(hay, pat, j)),
            None => forall|j: int| from <= j ==> !match_at(hay, pat, j),
        },
    decreases hay.len() - from,
{
    if from + pat.len() > hay.len() {
        assert forall|j: int| from <= j implies !match_at(hay, pat, j) by {
            assert(j + pat.len() > hay.len());
        }
    } else if match_at(hay, pat, from) {
    } else if from < hay.len() {
        lemma_find_first(hay, pat, from + 1);
    } else {
        assert(hay.subrange(from, from + pat.len()) =~= pat);
        assert(false);
    }
}

/// The pattern occurs somewhere exactly when the search from the start
/// succeeds.
pub proof fn lemma_contains_iff_found(hay: Seq<u8>, pat: Seq<u8>)
    ensures
        contains_seq(hay, pat) <==> find_at_or_after(hay, pat, 0) is Some,
{
    lemma_find_first(hay, pat, 0);
    if find_at_or_after(hay, pat, 0) is None {
        assert forall|i: int| !match_at(hay, pat, i) by {
            if i < 0 {
            } else {
                assert(!match_at(hay, pat, i));
            }
        }
    }
}

/// Byte-slice equality, decided exactly.
pub fn bytes_eq(a: &[u8], b: &[u8]) -> (r: bool)
    ensures
        r == (a@ == b@),
{
    if a.len() != b.len() {
        return false;
    }
    let n = a.len();
    let mut i: usize = 0;
    while i < n
        invariant
            n == a@.len() == b@.len(),
            0 <= i <= n,
            forall|k: int| 0 <= k < i ==> a@[k] == b@[k],
        decreases n - i,
    {
        if a[i] != b[i] {
            return false;
        }
        i += 1;
    }
    proof {
        assert(a@ =~= b@);
    }
    true
}

/// Views of a sequence of byte vectors.
pub open spec fn seqs_view(vs: Seq<Vec<u8>>) -> Seq<Seq<u8>> {
    vs.map_values(|v: Vec<u8>| v@)
}

/// Whether `pat` occurs in `hay` exactly at position `at`.
pub fn matches_at(hay: &[u8], pat: &[u8], at: usize) -> (r: bool)
    requires
        at + pat@.len() <= hay@.len(),
    ensures
        r == match_at(hay@, pat@, at as int),
{
    let m = pat.len();
    let n = hay.len();
    let mut k: usize = 0;
    while k < m
        invariant
            m == pat@.len(),
            n == hay@.len(),
            at + m <= n,
            0 <= k <= m,
            forall|j: int| 0 <= j < k ==> hay@[at + j] == pat@[j],
        decreases m - k,
    {
        if hay[at + k] != pat[k] {
            proof {
                assert(hay@.subrange(at as int, at + pat@.len())[k as int] != pat@[k as int]);
            }
            return false;
        }
        k += 1;
    }
    proof {
        assert(hay@.subrange(at as int, at + pat@.len()) =~= pat@);
    }
    true
}

/// First occurrence of `pat` in `hay` at or after `from`.
pub fn find_in(hay: &[u8], pat: &[u8], from: usize) -> (r: Option<usize>)
    requires
        from <= hay@.len(),
    ensures
        match r {
            Some(i) => find_at_or_after(hay@, pat@, from as int) == Some(i as int),
            None => find_at_or_after(hay@, pat@, from as int) is None,
        },
{
    let n = hay.len();
    let m = pat.len();
    if m > n || from > n - m {
        proof {
            lemma_find_first(hay@, pat@, from as int);
            if let Some(i) = find_at_or_after(hay@, pat@, from as int) {
                assert(match_at(hay@, pat@, i));
            }
        }
        return None;
    }
    if m == 0 {
        proof {
            assert(hay@.subrange(from as int, from as int) =~= pat@);
        }
        return Some(from);
    }
    let mut i: usize = from;
    while i <= n - m
        invariant
            n == hay@.len(),
            m == pat@.len(),
            1 <= m <= n,
            from <= i <= n - m + 1,
            find_at_or_after(hay@, pat@, from as int) == find_at_or_after(hay@, pat@, i as int),
        decreases n - m + 1 - i,
    {
        if matches_at(hay, pat, i) {
            return Some(i);
        }
        i += 1;
    }
    proof {
        assert(i + pat@.len() > hay@.len());
    }
    None
}

/// Whether `pat` occurs anywhere in `hay`, decided exactly.
pub fn contains_bytes(hay: &[u8], pat: &[u8]) -> (r: bool)
    ensures
        r == contains_seq(hay@, pat@),
{
    proof {
        lemma_contains_iff_found(hay@, pat@);
    }
    match find_in(hay, pat, 0) {
        Some(_) => true,
        None => false,
    }
}

/// Copy of `b[start..end]` as a fresh vector.
pub fn subrange_to_vec(b: &[u8], start: usize, end: usize) -> (r: Vec<u8>)
    requires
        start <= end <= b@.len(),
    ensures
        r@ == b@.subrange(start as int, end as int),
{
    let mut out: Vec<u8> = Vec::new();
    let mut i: usize = start;
    while i < end
        invariant
            start <= i <= end <= b@.len(),
            out@ == b@.subrange(start as int, i as int),
        decreases end - i,
    {
        out.push(b[i]);
        proof {
            assert(out@ =~= b@.subrange(start as int, i + 1));
        }
        i += 1;
    }
    out
}

} // verus!
