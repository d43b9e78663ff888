use vstd::prelude::*;

verus! {

/// Whether `pat` occurs in `s` starting at position `i`.
pub open spec fn occurs_at(s: Seq<char>, pat: Seq<char>, i: int) -> bool {
    0 <= i && i + pat.len() <= s.len() && s.subrange(i, i + pat.len()) == pat
}

/// Whether `pat` occurs anywhere in `s`.
pub open spec fn contains(s: Seq<char>, pat: Seq<char>) -> bool {
    exists|i: int| occurs_at(s, pat, i)
}

/// Whether the characters of `s` from `i` on begin with `pat`.
fn matches_at(s: &str, n: usize, pat: &str, m: usize, i: usize) -> (r: bool)
    requires
        n == s@.len(),
        m == pat@.len(),
        i <= n,
    ensures
        r == occurs_at(s@, pat@, i as int),
{
    if n - i < m {
        return false;
    }
    let mut j: usize = 0;
    while j < m
        invariant
            n == s@.len(),
            m == pat@.len(),
            i + m <= n,
            j <= m,
            forall|k: int| 0 <= k < j ==> s@[i + k] == pat@[k],
        decreases m - j,
    {
        if s.get_char(i + j) != pat.get_char(j) {
            assert(s@.subrange(i as int, i + m)[j as int] != pat@[j as int]);
            return false;
        }
        j = j + 1;
    }
    assert(s@.subrange(i as int, i + m) =~= pat@);
    true
}

/// The greatest position at or below `i` where `pat` occurs in `s`, or -1.
pub open spec fn last_occurrence_from(s: Seq<char>, pat: Seq<char>, i: int) -> int
    decreases i + 1,
{
    if i < 0 {
        -1
    } else if occurs_at(s, pat, i) {
        i
    } else {
        last_occurrence_from(s, pat, i - 1)
    }
}

/// The last position where `pat` occurs in `s`, or -1 where it does not occur.
pub open spec fn last_occurrence(s: Seq<char>, pat: Seq<char>) -> int {
    last_occurrence_from(s, pat, s.len() - pat.len())
}

proof fn lemma_last_occurrence_from(s: Seq<char>, pat: Seq<char>, i: int)
    requires
        i <= s.len() - pat.len(),
    ensures
        last_occurrence_from(s, pat, i) == -1 || occurs_at(s, pat, last_occurrence_from(s, pat, i)),
        -1 <= last_occurrence_from(s, pat, i) <= i || i < 0,
        forall|j: int|
            last_occurrence_from(s, pat, i) < j <= i ==> !#[trigger] occurs_at(s, pat, j),
    decreases i + 1,
{
    if i >= 0 && !occurs_at(s, pat, i) {
        lemma_last_occurrence_from(s, pat, i - 1);
    }
}

/// `last_occurrence` is an occurrence, there is none after it, and it is -1
/// only where there is none at all.
pub proof fn lemma_last_occurrence(s: Seq<char>, pat: Seq<char>)
    ensures
        last_occurrence(s, pat) == -1 || occurs_at(s, pat, last_occurrence(s, pat)),
        last_occurrence(s, pat) >= -1,
        forall|j: int| last_occurrence(s, pat) < j ==> !#[trigger] occurs_at(s, pat, j),
        last_occurrence(s, pat) == -1 <==> !contains(s, pat),
{
    lemma_last_occurrence_from(s, pat, s.len() - pat.len());
    assert forall|j: int| last_occurrence(s, pat) < j implies !#[trigger] occurs_at(s, pat, j) by {
        if j > s.len() - pat.len() {
        }
    }
}

/// The last position where `pat` occurs in `s`, as `str::rfind` gives it, but
/// counted in characters.
pub fn last_occurrence_str(s: &str, pat: &str) -> (r: Option<usize>)
    ensures
        r matches Some(k) ==> k == last_occurrence(s@, pat@),
        r is None ==> last_occurrence(s@, pat@) == -1,
{
    let n = s.unicode_len();
    let m = pat.unicode_len();
    if n < m {
        return None;
    }
    let mut i: usize = n - m;
    loop
        invariant
            n == s@.len(),
            m == pat@.len(),
            m <= n,
            i <= n - m,
            last_occurrence(s@, pat@) == last_occurrence_from(s@, pat@, i as int),
        decreases i,
    {
        if matches_at(s, n, pat, m, i) {
            return Some(i);
        }
        if i == 0 {
            assert(last_occurrence_from(s@, pat@, -1) == -1);
            return None;
        }
        i = i - 1;
    }
}

/// Whether two strings hold the same characters.
pub fn same_text(a: &str, b: &str) -> (r: bool)
    ensures
        r == (a@ == b@),
{
    let n = a.unicode_len();
    let m = b.unicode_len();
    if n != m {
        return false;
    }
    let r = matches_at(a, n, b, m, 0);
    assert(a@.subrange(0, n as int) =~= a@);
    r
}

/// Where the segment that follows the last separator begins, when the text is
/// split on `sep` left to right from position `i`, the current segment having
/// begun at `start`.
pub open spec fn segment_start_from(s: Seq<char>, sep: Seq<char>, i: int, start: int) -> int
    decreases s.len() - i,
{
    if sep.len() == 0 || i < 0 || i + sep.len() > s.len() {
        start
    } else if occurs_at(s, sep, i) {
        segment_start_from(s, sep, i + sep.len(), i + sep.len())
    } else {
        segment_start_from(s, sep, i + 1, start)
    }
}

/// The last of the pieces that `s` falls into when split on `sep`; split on
/// an empty separator, the last piece is empty.
pub open spec fn last_segment(s: Seq<char>, sep: Seq<char>) -> Seq<char> {
    if sep.len() == 0 {
        Seq::empty()
    } else {
        s.subrange(segment_start_from(s, sep, 0, 0), s.len() as int)
    }
}

/// The last piece of `s` split on `sep`: the whole of `s` where `sep` does not
/// occur.
pub fn last_segment_str<'a>(s: &'a str, sep: &str) -> (r: &'a str)
    ensures
        r@ == last_segment(s@, sep@),
{
    let n = s.unicode_len();
    let m = sep.unicode_len();
    if m == 0 {
        return s.substring_char(n, n);
    }
    let mut i: usize = 0;
    let mut start: usize = 0;
    while i < n && m <= n - i
        invariant
            n == s@.len(),
            m == sep@.len(),
            m > 0,
            start <= i <= n,
            segment_start_from(s@, sep@, i as int, start as int) == segment_start_from(
                s@,
                sep@,
                0,
                0,
            ),
        decreases n - i,
    {
        if matches_at(s, n, sep, m, i) {
            i = i + m;
            start = i;
        } else {
            i = i + 1;
        }
    }
    s.substring_char(start, n)
}

} // verus!
