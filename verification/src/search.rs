//! Exact search for a byte pattern inside a buffer.

use vstd::prelude::*;

verus! {

/// `pat` stands in `buf` at index `i`.
pub open spec fn occurs_at(buf: Seq<u8>, pat: Seq<u8>, i: int) -> bool {
    &&& 0 <= i
    &&& i + pat.len() <= buf.len()
    &&& buf.subrange(i, i + pat.len()) == pat
}

/// `pat` stands in `buf` at index `i` and at no smaller index.
pub open spec fn is_first_occurrence(buf: Seq<u8>, pat: Seq<u8>, i: int) -> bool {
    &&& occurs_at(buf, pat, i)
    &&& forall|j: int| 0 <= j < i ==> !occurs_at(buf, pat, j)
}

/// `pat` stands somewhere in `buf`.
pub open spec fn occurs(buf: Seq<u8>, pat: Seq<u8>) -> bool {
    exists|i: int| occurs_at(buf, pat, i)
}

/// The smallest index at which `pat` stands in `buf`, if there is one.
pub open spec fn first_occurrence(buf: Seq<u8>, pat: Seq<u8>) -> Option<int> {
    if exists|i: int| is_first_occurrence(buf, pat, i) {
        Some(choose|i: int| is_first_occurrence(buf, pat, i))
    } else {
        None
    }
}

/// A first occurrence is the first occurrence.
pub proof fn lemma_first_occurrence_is(buf: Seq<u8>, pat: Seq<u8>, i: int)
    requires
        is_first_occurrence(buf, pat, i),
    ensures
        first_occurrence(buf, pat) == Some(i),
{
    let c = choose|c: int| is_first_occurrence(buf, pat, c);
    assert(is_first_occurrence(buf, pat, c));
    if c < i {
        assert(!occurs_at(buf, pat, c));
    }
    if i < c {
        assert(!occurs_at(buf, pat, i));
    }
}

/// Without any occurrence there is no first one.
pub proof fn lemma_first_occurrence_none(buf: Seq<u8>, pat: Seq<u8>)
    requires
        forall|j: int| !occurs_at(buf, pat, j),
    ensures
        first_occurrence(buf, pat) is None,
{
}

/// What `first_occurrence` yields: an index at which the pattern stands and
/// before which it does not, or nothing exactly when the pattern is absent.
pub proof fn lemma_first_occurrence_props(buf: Seq<u8>, pat: Seq<u8>)
    ensures
        match first_occurrence(buf, pat) {
            Some(i) => is_first_occurrence(buf, pat, i),
            None => !occurs(buf, pat),
        },
{
    if first_occurrence(buf, pat) is None {
        if occurs(buf, pat) {
            let w = choose|i: int| occurs_at(buf, pat, i);
            lemma_least_occurrence(buf, pat, w);
        }
    }
}

/// Below every occurrence stands a first one.
proof fn lemma_least_occurrence(buf: Seq<u8>, pat: Seq<u8>, w: int)
    requires
        occurs_at(buf, pat, w),
    ensures
        exists|i: int| is_first_occurrence(buf, pat, i),
    decreases w,
{
    if exists|j: int| 0 <= j < w && occurs_at(buf, pat, j) {
        let j = choose|j: int| 0 <= j < w && occurs_at(buf, pat, j);
        lemma_least_occurrence(buf, pat, j);
    } else {
        assert(is_first_occurrence(buf, pat, w));
    }
}

/// Tells whether `s` stands in `buf` at index `i`.
fn matches_at(buf: &[u8], s: &[u8], i: usize) -> (hit: bool)
    requires
        i + s@.len() <= buf@.len(),
    ensures
        hit == occurs_at(buf@, s@, i as int),
{
    let n: usize = buf.len();
    let m: usize = s.len();
    let mut k: usize = 0;
    while k < m
        invariant
            n == buf@.len(),
            m == s@.len(),
            i + m <= n,
            k <= m,
            forall|t: int| 0 <= t < k ==> buf@[i + t] == s@[t],
        decreases m - k,
    {
        if buf[i + k] != s[k] {
            proof {
                assert(buf@.subrange(i as int, i + m)[k as int] == buf@[i + k]);
            }
            return false;
        }
        k = k + 1;
    }
    proof {
        assert(buf@.subrange(i as int, i + m) =~= s@);
    }
    true
}

/// Finds the smallest index at which the non-empty pattern `s` stands in
/// `buf`.
pub fn addr_of_header(buf: &[u8], s: &[u8]) -> (found: Option<usize>)
    requires
        s@.len() > 0,
    ensures
        match found {
            Some(i) => first_occurrence(buf@, s@) == Some(i as int),
            None => first_occurrence(buf@, s@) is None,
        },
        match found {
            Some(i) => is_first_occurrence(buf@, s@, i as int),
            None => !occurs(buf@, s@),
        },
{
    let n: usize = buf.len();
    let m: usize = s.len();
    if m > n {
        proof {
            lemma_first_occurrence_none(buf@, s@);
        }
        return None;
    }
    let last: usize = n - m;
    let mut i: usize = 0;
    while i <= last
        invariant
            n == buf@.len(),
            m == s@.len(),
            m > 0,
            last == n - m,
            i <= last + 1,
            forall|j: int| 0 <= j < i ==> !occurs_at(buf@, s@, j),
        decreases last + 1 - i,
    {
        if matches_at(buf, s, i) {
            proof {
                lemma_first_occurrence_is(buf@, s@, i as int);
            }
            return Some(i);
        }
        i = i + 1;
    }
    proof {
        lemma_first_occurrence_none(buf@, s@);
    }
    None
}

} // verus!
