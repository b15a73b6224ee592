//! Byte-level primitives for locating markers and line boundaries.
use vstd::prelude::*;

verus! {

/// `pat` occurs in `s` starting at index `i`.
pub open spec fn matches_at(s: Seq<u8>, pat: Seq<u8>, i: int) -> bool {
    &&& 0 <= i
    &&& i + pat.len() <= s.len()
    &&& s.subrange(i, i + pat.len()) == pat
}

/// `i` is the first index at which `pat` occurs in `s`.
pub open spec fn is_first_match(s: Seq<u8>, pat: Seq<u8>, i: int) -> bool {
    &&& matches_at(s, pat, i)
    &&& forall|j: int| 0 <= j < i ==> !matches_at(s, pat, j)
}

/// `i` is the last index at which `pat` occurs in `s`.
pub open spec fn is_last_match(s: Seq<u8>, pat: Seq<u8>, i: int) -> bool {
    &&& matches_at(s, pat, i)
    &&& forall|j: int| i < j <= s.len() ==> !matches_at(s, pat, j)
}

/// `pat` occurs nowhere in `s`.
pub open spec fn no_match(s: Seq<u8>, pat: Seq<u8>) -> bool {
    forall|j: int| 0 <= j <= s.len() ==> !matches_at(s, pat, j)
}

/// The index of the first occurrence of `pat` in `s`, if any.
pub open spec fn first_match(s: Seq<u8>, pat: Seq<u8>) -> Option<int> {
    if exists|i: int| is_first_match(s, pat, i) {
        Some(choose|i: int| is_first_match(s, pat, i))
    } else {
        None
    }
}

/// The index of the last occurrence of `pat` in `s`, if any.
pub open spec fn last_match(s: Seq<u8>, pat: Seq<u8>) -> Option<int> {
    if exists|i: int| is_last_match(s, pat, i) {
        Some(choose|i: int| is_last_match(s, pat, i))
    } else {
        None
    }
}

/// An optional index, widened to `int`.
pub open spec fn as_int(r: Option<usize>) -> Option<int> {
    match r {
        Some(i) => Some(i as int),
        None => None,
    }
}

/// The line separator.
pub open spec fn newline() -> Seq<u8> {
    seq![10u8]
}

/// Start of the line that holds index `idx`: just past the nearest separator before it.
pub open spec fn line_start_of(s: Seq<u8>, idx: int) -> int {
    match last_match(s.subrange(0, idx), newline()) {
        Some(n) => n + 1,
        None => 0,
    }
}

/// End of the line that holds index `idx`: the nearest separator at or after it, or the end.
pub open spec fn line_end_of(s: Seq<u8>, idx: int) -> int {
    match first_match(s.subrange(idx, s.len() as int), newline()) {
        Some(n) => idx + n,
        None => s.len() as int,
    }
}

/// Just past the line that holds index `idx` (or the end of `s`).
pub open spec fn next_line_of(s: Seq<u8>, idx: int) -> int {
    match first_match(s.subrange(idx, s.len() as int), newline()) {
        Some(n) => idx + n + 1,
        None => s.len() as int,
    }
}

pub proof fn lemma_first_match(s: Seq<u8>, pat: Seq<u8>, i: int)
    requires
        is_first_match(s, pat, i),
    ensures
        first_match(s, pat) == Some(i),
{
    let k = choose|k: int| is_first_match(s, pat, k);
    assert(is_first_match(s, pat, k));
    if k < i {
        assert(!matches_at(s, pat, k));
    } else if i < k {
        assert(!matches_at(s, pat, i));
    }
}

pub proof fn lemma_last_match(s: Seq<u8>, pat: Seq<u8>, i: int)
    requires
        is_last_match(s, pat, i),
    ensures
        last_match(s, pat) == Some(i),
{
    let k = choose|k: int| is_last_match(s, pat, k);
    assert(is_last_match(s, pat, k));
    if k < i {
        assert(!matches_at(s, pat, i));
    } else if i < k {
        assert(!matches_at(s, pat, k));
    }
}

pub proof fn lemma_no_first_match(s: Seq<u8>, pat: Seq<u8>)
    requires
        no_match(s, pat),
    ensures
        first_match(s, pat).is_none(),
        last_match(s, pat).is_none(),
{
    if exists|i: int| is_first_match(s, pat, i) {
        let k = choose|k: int| is_first_match(s, pat, k);
        assert(matches_at(s, pat, k));
    }
    if exists|i: int| is_last_match(s, pat, i) {
        let k = choose|k: int| is_last_match(s, pat, k);
        assert(matches_at(s, pat, k));
    }
}

/// Relies on memchr::memchr: the index of the first occurrence of a byte.
#[verifier::external_body]
fn memchr_first(needle: u8, haystack: &[u8]) -> (r: Option<usize>)
    ensures
        r matches Some(i) ==> is_first_match(haystack@, seq![needle], i as int),
        r is None ==> no_match(haystack@, seq![needle]),
{
    memchr::memchr(needle, haystack)
}

/// Relies on memchr::memrchr: the index of the last occurrence of a byte.
#[verifier::external_body]
fn memchr_last(needle: u8, haystack: &[u8]) -> (r: Option<usize>)
    ensures
        r matches Some(i) ==> is_last_match(haystack@, seq![needle], i as int),
        r is None ==> no_match(haystack@, seq![needle]),
{
    memchr::memrchr(needle, haystack)
}

/// Relies on memchr::memmem::find: the index of the first occurrence of a non-empty needle.
#[verifier::external_body]
fn memmem_first(haystack: &[u8], needle: &[u8]) -> (r: Option<usize>)
    requires
        needle@.len() > 0,
    ensures
        r matches Some(i) ==> is_first_match(haystack@, needle@, i as int),
        r is None ==> no_match(haystack@, needle@),
{
    memchr::memmem::find(haystack, needle)
}

/// Relies on memchr::memmem::rfind: the index of the last occurrence of a non-empty needle.
#[verifier::external_body]
fn memmem_last(haystack: &[u8], needle: &[u8]) -> (r: Option<usize>)
    requires
        needle@.len() > 0,
    ensures
        r matches Some(i) ==> is_last_match(haystack@, needle@, i as int),
        r is None ==> no_match(haystack@, needle@),
{
    memchr::memmem::rfind(haystack, needle)
}

/// First occurrence of the byte `b` in `s`.
pub fn find_byte(s: &[u8], b: u8) -> (r: Option<usize>)
    ensures
        r matches Some(i) ==> i < s@.len(),
        as_int(r) == first_match(s@, seq![b]),
{
    let r = memchr_first(b, s);
    proof {
        match r {
            Some(i) => lemma_first_match(s@, seq![b], i as int),
            None => lemma_no_first_match(s@, seq![b]),
        }
    }
    r
}

/// Last occurrence of the byte `b` in `s`.
pub fn rfind_byte(s: &[u8], b: u8) -> (r: Option<usize>)
    ensures
        r matches Some(i) ==> i < s@.len(),
        as_int(r) == last_match(s@, seq![b]),
{
    let r = memchr_last(b, s);
    proof {
        match r {
            Some(i) => lemma_last_match(s@, seq![b], i as int),
            None => lemma_no_first_match(s@, seq![b]),
        }
    }
    r
}

/// First occurrence of the marker `m` in `s`.
pub fn find_marker(s: &[u8], m: &[u8]) -> (r: Option<usize>)
    requires
        m@.len() > 0,
    ensures
        r matches Some(i) ==> i + m@.len() <= s@.len(),
        as_int(r) == first_match(s@, m@),
{
    let r = memmem_first(s, m);
    proof {
        match r {
            Some(i) => lemma_first_match(s@, m@, i as int),
            None => lemma_no_first_match(s@, m@),
        }
    }
    r
}

/// Last occurrence of the marker `m` in `s`.
pub fn rfind_marker(s: &[u8], m: &[u8]) -> (r: Option<usize>)
    requires
        m@.len() > 0,
    ensures
        r matches Some(i) ==> i + m@.len() <= s@.len(),
        as_int(r) == last_match(s@, m@),
{
    let r = memmem_last(s, m);
    proof {
        match r {
            Some(i) => lemma_last_match(s@, m@, i as int),
            None => lemma_no_first_match(s@, m@),
        }
    }
    r
}

/// Start of the line holding index `idx`.
pub fn line_start(s: &[u8], idx: usize) -> (r: usize)
    requires
        idx <= s@.len(),
    ensures
        r as int == line_start_of(s@, idx as int),
        r <= idx,
{
    match rfind_byte(vstd::slice::slice_subrange(s, 0, idx), 10u8) {
        Some(n) => n + 1,
        None => 0,
    }
}

/// End of the line holding index `idx`: its separator, or the end of `s`.
pub fn line_end(s: &[u8], idx: usize) -> (r: usize)
    requires
        idx <= s@.len(),
    ensures
        r as int == line_end_of(s@, idx as int),
        idx <= r <= s@.len(),
{
    match find_byte(vstd::slice::slice_subrange(s, idx, s.len()), 10u8) {
        Some(n) => idx + n,
        None => s.len(),
    }
}

/// Just past the line holding index `idx`, or the end of `s`.
pub fn next_line(s: &[u8], idx: usize) -> (r: usize)
    requires
        idx <= s@.len(),
    ensures
        r as int == next_line_of(s@, idx as int),
        idx <= r <= s@.len(),
{
    match find_byte(vstd::slice::slice_subrange(s, idx, s.len()), 10u8) {
        Some(n) => idx + n + 1,
        None => s.len(),
    }
}

/// Where `pat` occurs at all, a last occurrence exists.
pub proof fn lemma_last_match_exists(s: Seq<u8>, pat: Seq<u8>, j: int)
    requires
        matches_at(s, pat, j),
    ensures
        last_match(s, pat).is_some(),
    decreases s.len() - j,
{
    if exists|k: int| j < k <= s.len() && matches_at(s, pat, k) {
        let k = choose|k: int| j < k <= s.len() && matches_at(s, pat, k);
        lemma_last_match_exists(s, pat, k);
    } else {
        assert(is_last_match(s, pat, j));
    }
}

/// Where `pat` occurs at all, a first occurrence exists.
pub proof fn lemma_first_match_exists(s: Seq<u8>, pat: Seq<u8>, j: int)
    requires
        matches_at(s, pat, j),
    ensures
        first_match(s, pat).is_some(),
    decreases j,
{
    if exists|k: int| 0 <= k < j && matches_at(s, pat, k) {
        let k = choose|k: int| 0 <= k < j && matches_at(s, pat, k);
        lemma_first_match_exists(s, pat, k);
    } else {
        assert(is_first_match(s, pat, j));
    }
}

/// Nothing that is not empty occurs in the empty sequence.
pub proof fn lemma_no_match_in_empty(pat: Seq<u8>)
    requires
        pat.len() > 0,
    ensures
        first_match(Seq::<u8>::empty(), pat).is_none(),
        last_match(Seq::<u8>::empty(), pat).is_none(),
{
    lemma_no_first_match(Seq::<u8>::empty(), pat);
}

/// A one-byte pattern occurs exactly where that byte stands.
pub proof fn lemma_byte_match(s: Seq<u8>, b: u8, j: int)
    ensures
        matches_at(s, seq![b], j) <==> (0 <= j < s.len() && s[j] == b),
{
    if 0 <= j < s.len() {
        if s[j] == b {
            assert(s.subrange(j, j + 1) =~= seq![b]);
        } else {
            assert(s.subrange(j, j + 1)[0] != seq![b][0]);
        }
    }
}

/// What `first_match` and `last_match` return, spelled out.
pub proof fn lemma_match_results(s: Seq<u8>, pat: Seq<u8>)
    ensures
        first_match(s, pat) matches Some(i) ==> is_first_match(s, pat, i),
        last_match(s, pat) matches Some(i) ==> is_last_match(s, pat, i),
        first_match(s, pat) is None ==> no_match(s, pat),
        last_match(s, pat) is None ==> no_match(s, pat),
{
    if first_match(s, pat) is Some {
        let k = choose|k: int| is_first_match(s, pat, k);
        assert(is_first_match(s, pat, k));
    }
    if last_match(s, pat) is Some {
        let k = choose|k: int| is_last_match(s, pat, k);
        assert(is_last_match(s, pat, k));
    }
    assert forall|j: int| 0 <= j <= s.len() && first_match(s, pat) is None implies !matches_at(s, pat, j) by {
        if matches_at(s, pat, j) {
            lemma_first_match_exists(s, pat, j);
        }
    }
    assert forall|j: int| 0 <= j <= s.len() && last_match(s, pat) is None implies !matches_at(s, pat, j) by {
        if matches_at(s, pat, j) {
            lemma_last_match_exists(s, pat, j);
        }
    }
}

/// A match inside `y` is a match inside `x + y`, shifted by the length of `x`.
pub proof fn lemma_matches_at_shift(x: Seq<u8>, y: Seq<u8>, pat: Seq<u8>, j: int)
    requires
        0 <= j,
    ensures
        matches_at(x + y, pat, x.len() + j) <==> matches_at(y, pat, j),
{
    let z = x + y;
    let l = x.len() as int;
    if j + pat.len() <= y.len() {
        assert(z.subrange(l + j, l + j + pat.len()) =~= y.subrange(j, j + pat.len()));
    }
}

/// The last match in `y` is the last match in `x + y`, shifted by the length of `x`.
pub proof fn lemma_last_match_shift(x: Seq<u8>, y: Seq<u8>, pat: Seq<u8>)
    requires
        last_match(y, pat) is Some,
    ensures
        last_match(x + y, pat) == Some(x.len() + last_match(y, pat).unwrap()),
{
    lemma_match_results(y, pat);
    let i = last_match(y, pat).unwrap();
    let z = x + y;
    let l = x.len() as int;
    lemma_matches_at_shift(x, y, pat, i);
    assert forall|j: int| l + i < j <= z.len() implies !matches_at(z, pat, j) by {
        lemma_matches_at_shift(x, y, pat, j - l);
    }
    lemma_last_match(z, pat, l + i);
}

/// The line separator occurs at `j` exactly where that byte is one.
pub proof fn lemma_newline_at(s: Seq<u8>, j: int)
    ensures
        matches_at(s, newline(), j) <==> (0 <= j < s.len() && s[j] == 10u8),
{
    lemma_byte_match(s, 10u8, j);
}

/// Just past a line is still within the sequence.
pub proof fn lemma_next_line_bound(s: Seq<u8>, idx: int)
    requires
        0 <= idx <= s.len(),
    ensures
        idx <= next_line_of(s, idx) <= s.len(),
        idx <= line_end_of(s, idx) <= s.len(),
{
    lemma_match_results(s.subrange(idx, s.len() as int), newline());
}

} // verus!
