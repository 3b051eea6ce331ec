//! Byte-level text primitives: substring occurrence, first/last occurrence
//! search, and copying. All multi-line text handled by this crate is a
//! sequence of bytes; a line terminator is the single byte `NL`.
use vstd::prelude::*;
use vstd::slice::{slice_subrange, slice_to_vec};

verus! {

/// Line feed, the line terminator of all text this crate produces.
pub const NL: u8 = 10;

/// Carriage return; tolerated (and dropped) at the end of input lines.
pub const CR: u8 = 13;

/// The ASCII whitespace bytes (space, tab, line feed, vertical tab,
/// form feed, carriage return).
pub open spec fn is_ws(b: u8) -> bool {
    b == 32 || b == 9 || b == 10 || b == 11 || b == 12 || b == 13
}

/// `tok` occurs in `t` starting at index `i`.
pub open spec fn occurs_at(t: Seq<u8>, tok: Seq<u8>, i: int) -> bool {
    &&& 0 <= i
    &&& i + tok.len() <= t.len()
    &&& t.subrange(i, i + tok.len() as int) == tok
}

/// `tok` occurs somewhere in `t`.
pub open spec fn contains_tok(t: Seq<u8>, tok: Seq<u8>) -> bool {
    exists|i: int| occurs_at(t, tok, i)
}

/// Index of the last occurrence of `tok` in `t` at or before `i`.
pub open spec fn spec_rfind_from(t: Seq<u8>, tok: Seq<u8>, i: int) -> Option<int>
    decreases i + 1,
{
    if i < 0 {
        None
    } else if occurs_at(t, tok, i) {
        Some(i)
    } else {
        spec_rfind_from(t, tok, i - 1)
    }
}

/// Index of the last occurrence of `tok` in `t`, if any.
pub open spec fn spec_rfind(t: Seq<u8>, tok: Seq<u8>) -> Option<int> {
    spec_rfind_from(t, tok, t.len() - tok.len())
}

/// What `spec_rfind_from` returns: the last occurrence at or before `i`.
pub proof fn lemma_rfind_from(t: Seq<u8>, tok: Seq<u8>, i: int)
    ensures
        match spec_rfind_from(t, tok, i) {
            Some(p) => occurs_at(t, tok, p) && p <= i && (forall|j: int|
                p < j <= i ==> !occurs_at(t, tok, j)),
            None => forall|j: int| j <= i ==> !occurs_at(t, tok, j),
        },
    decreases i + 1,
{
    if i >= 0 && !occurs_at(t, tok, i) {
        lemma_rfind_from(t, tok, i - 1);
    }
}

/// What `spec_rfind` returns: the last occurrence overall, since no
/// occurrence can start after `t.len() - tok.len()`.
pub proof fn lemma_rfind(t: Seq<u8>, tok: Seq<u8>)
    ensures
        match spec_rfind(t, tok) {
            Some(p) => occurs_at(t, tok, p) && (forall|j: int|
                j > p ==> !occurs_at(t, tok, j)),
            None => forall|j: int| !occurs_at(t, tok, j),
        },
        spec_rfind(t, tok) is Some <==> contains_tok(t, tok),
{
    lemma_rfind_from(t, tok, t.len() - tok.len());
    assert(forall|j: int| j > t.len() - tok.len() ==> !occurs_at(t, tok, j));
    if spec_rfind(t, tok) is Some {
        assert(occurs_at(t, tok, spec_rfind(t, tok).unwrap()));
    }
}

/// Whether `tok` occurs in `t` at index `i`, by comparing byte by byte.
pub fn matches_at(t: &[u8], tok: &[u8], i: usize) -> (r: bool)
    requires
        i + tok.len() <= t.len(),
    ensures
        r == occurs_at(t@, tok@, i as int),
{
    let n = tok.len();
    let mut k: usize = 0;
    while k < n
        invariant
            k <= n,
            forall|m: int| 0 <= m < k ==> t@[i + m] == tok@[m],
        decreases n - k,
    {
        if t[i + k] != tok[k] {
            proof {
                assert(t@.subrange(i as int, i + tok@.len())[k as int] == t@[i + k]);
            }
            return false;
        }
        k += 1;
    }
    proof {
        assert(t@.subrange(i as int, i + tok@.len()) =~= tok@);
    }
    true
}

/// Index of the last occurrence of `tok` in `t`, if any.
pub fn rfind(t: &[u8], tok: &[u8]) -> (r: Option<usize>)
    ensures
        match r {
            Some(p) => spec_rfind(t@, tok@) == Some(p as int),
            None => spec_rfind(t@, tok@) is None,
        },
{
    proof {
        lemma_rfind(t@, tok@);
    }
    if tok.len() > t.len() {
        return None;
    }
    let top = t.len() - tok.len();
    let mut i: usize = top;
    loop
        invariant
            i <= top,
            tok.len() <= t.len(),
            top == t.len() - tok.len(),
            forall|j: int| i < j ==> !occurs_at(t@, tok@, j),
        decreases i + 1,
    {
        if matches_at(t, tok, i) {
            return Some(i);
        }
        if i == 0 {
            return None;
        }
        i -= 1;
    }
}

/// Whether `tok` occurs anywhere in `t`.
pub fn contains(t: &[u8], tok: &[u8]) -> (r: bool)
    ensures
        r == contains_tok(t@, tok@),
{
    proof {
        lemma_rfind(t@, tok@);
    }
    rfind(t, tok).is_some()
}

/// Index of the first occurrence of `tok` in `t` at or after `i`.
pub open spec fn spec_find_from(t: Seq<u8>, tok: Seq<u8>, i: int) -> Option<int>
    decreases t.len() - i + 1,
{
    if i < 0 || i + tok.len() > t.len() {
        None
    } else if occurs_at(t, tok, i) {
        Some(i)
    } else {
        spec_find_from(t, tok, i + 1)
    }
}

/// What `spec_find_from` returns: the first occurrence at or after `i`.
pub proof fn lemma_find_from(t: Seq<u8>, tok: Seq<u8>, i: int)
    requires
        0 <= i,
    ensures
        match spec_find_from(t, tok, i) {
            Some(p) => occurs_at(t, tok, p) && i <= p && (forall|j: int|
                i <= j < p ==> !occurs_at(t, tok, j)),
            None => forall|j: int| i <= j ==> !occurs_at(t, tok, j),
        },
    decreases t.len() - i + 1,
{
    if i + tok.len() > t.len() {
        assert(forall|j: int| i <= j ==> !occurs_at(t, tok, j));
    } else if !occurs_at(t, tok, i) {
        lemma_find_from(t, tok, i + 1);
    }
}

/// Index of the first occurrence of `tok` in `t` at or after `from`.
pub fn find_from(t: &[u8], tok: &[u8], from: usize) -> (r: Option<usize>)
    ensures
        match r {
            Some(p) => spec_find_from(t@, tok@, from as int) == Some(p as int),
            None => spec_find_from(t@, tok@, from as int) is None,
        },
{
    proof {
        lemma_find_from(t@, tok@, from as int);
    }
    if tok.len() > t.len() {
        return None;
    }
    let top = t.len() - tok.len();
    if from > top {
        return None;
    }
    let mut i: usize = from;
    loop
        invariant
            from <= i <= top,
            tok.len() <= t.len(),
            top == t.len() - tok.len(),
            forall|j: int| from <= j < i ==> !occurs_at(t@, tok@, j),
        decreases top - i,
    {
        if matches_at(t, tok, i) {
            return Some(i);
        }
        if i == top {
            return None;
        }
        i += 1;
    }
}

/// Index of the first occurrence of byte `b` in `t` at or after `i`.
pub open spec fn spec_find_byte_from(t: Seq<u8>, b: u8, i: int) -> Option<int>
    decreases t.len() - i,
{
    if i < 0 || i >= t.len() {
        None
    } else if t[i] == b {
        Some(i)
    } else {
        spec_find_byte_from(t, b, i + 1)
    }
}

/// What `spec_find_byte_from` returns: the first `b` at or after `i`.
pub proof fn lemma_find_byte_from(t: Seq<u8>, b: u8, i: int)
    requires
        0 <= i,
    ensures
        match spec_find_byte_from(t, b, i) {
            Some(p) => i <= p < t.len() && t[p] == b && (forall|j: int|
                i <= j < p ==> t[j] != b),
            None => forall|j: int| i <= j < t.len() ==> t[j] != b,
        },
    decreases t.len() - i,
{
    if i < t.len() && t[i] != b {
        lemma_find_byte_from(t, b, i + 1);
    }
}

/// Index of the first occurrence of byte `b` in `t` at or after `from`.
pub fn find_byte_from(t: &[u8], b: u8, from: usize) -> (r: Option<usize>)
    ensures
        match r {
            Some(p) => spec_find_byte_from(t@, b, from as int) == Some(p as int),
            None => spec_find_byte_from(t@, b, from as int) is None,
        },
{
    proof {
        lemma_find_byte_from(t@, b, from as int);
    }
    let mut i: usize = from;
    while i < t.len()
        invariant
            from <= i,
            forall|j: int| from <= j < i && j < t@.len() ==> t@[j] != b,
        decreases t.len() - i,
    {
        if t[i] == b {
            return Some(i);
        }
        i += 1;
    }
    None
}

/// Index of the last occurrence of byte `b` in `t` strictly before `p`.
pub open spec fn spec_rfind_byte_before(t: Seq<u8>, b: u8, p: int) -> Option<int>
    decreases p,
{
    if p <= 0 || p > t.len() {
        None
    } else if t[p - 1] == b {
        Some(p - 1)
    } else {
        spec_rfind_byte_before(t, b, p - 1)
    }
}

/// What `spec_rfind_byte_before` returns: the last `b` before `p`.
pub proof fn lemma_rfind_byte_before(t: Seq<u8>, b: u8, p: int)
    requires
        p <= t.len(),
    ensures
        match spec_rfind_byte_before(t, b, p) {
            Some(q) => 0 <= q < p && t[q] == b && (forall|j: int|
                q < j < p ==> t[j] != b),
            None => forall|j: int| 0 <= j < p ==> t[j] != b,
        },
    decreases p,
{
    if p > 0 && t[p - 1] != b {
        lemma_rfind_byte_before(t, b, p - 1);
    }
}

/// Index of the last occurrence of byte `b` in `t` strictly before `before`.
pub fn rfind_byte_before(t: &[u8], b: u8, before: usize) -> (r: Option<usize>)
    requires
        before <= t.len(),
    ensures
        match r {
            Some(q) => spec_rfind_byte_before(t@, b, before as int) == Some(q as int),
            None => spec_rfind_byte_before(t@, b, before as int) is None,
        },
{
    proof {
        lemma_rfind_byte_before(t@, b, before as int);
    }
    let mut p: usize = before;
    while p > 0
        invariant
            p <= before,
            forall|j: int| p <= j < before ==> t@[j] != b,
        decreases p,
    {
        if t[p - 1] == b {
            return Some(p - 1);
        }
        p -= 1;
    }
    None
}

/// `pre` is a prefix of `t`.
pub open spec fn spec_starts_with(t: Seq<u8>, pre: Seq<u8>) -> bool {
    t.len() >= pre.len() && t.subrange(0, pre.len() as int) == pre
}

/// A line with a trailing carriage return dropped.
pub open spec fn spec_strip_cr(l: Seq<u8>) -> Seq<u8> {
    if l.len() > 0 && l[l.len() - 1] == CR {
        l.drop_last()
    } else {
        l
    }
}

/// The lines of `t`: split at each line feed, a trailing carriage return
/// dropped from each line, and no empty final line after a trailing line
/// feed.
pub open spec fn spec_lines(t: Seq<u8>) -> Seq<Seq<u8>>
    decreases t.len(),
{
    if t.len() == 0 {
        Seq::empty()
    } else {
        match spec_find_byte_from(t, NL, 0) {
            Option::Some(p) => if 0 <= p < t.len() {
                seq![spec_strip_cr(t.subrange(0, p))] + spec_lines(
                    t.subrange(p + 1, t.len() as int),
                )
            } else {
                // cannot happen: a found index lies inside the text
                seq![spec_strip_cr(t)]
            },
            Option::None => seq![spec_strip_cr(t)],
        }
    }
}

/// `t` with every leading whitespace byte removed.
pub open spec fn spec_trim_front(t: Seq<u8>) -> Seq<u8>
    decreases t.len(),
{
    if t.len() > 0 && is_ws(t[0]) {
        spec_trim_front(t.drop_first())
    } else {
        t
    }
}

/// `t` with every trailing whitespace byte removed.
pub open spec fn spec_trim_back(t: Seq<u8>) -> Seq<u8>
    decreases t.len(),
{
    if t.len() > 0 && is_ws(t[t.len() - 1]) {
        spec_trim_back(t.drop_last())
    } else {
        t
    }
}

/// `t` with whitespace removed from both ends.
pub open spec fn spec_trim(t: Seq<u8>) -> Seq<u8> {
    spec_trim_back(spec_trim_front(t))
}

/// Whether `b` is one of the ASCII whitespace bytes.
pub fn is_ws_byte(b: u8) -> (r: bool)
    ensures
        r == is_ws(b),
{
    b == 32 || b == 9 || b == 10 || b == 11 || b == 12 || b == 13
}

/// The bounds of `l` with whitespace trimmed from both ends:
/// `l[r.0..r.1]` is the trimmed line.
pub fn trim_bounds(l: &[u8]) -> (r: (usize, usize))
    ensures
        r.0 <= r.1 <= l@.len(),
        spec_trim(l@) == l@.subrange(r.0 as int, r.1 as int),
{
    let n = l.len();
    proof {
        assert(l@.subrange(0, n as int) =~= l@);
    }
    let mut lo: usize = 0;
    while lo < n && is_ws_byte(l[lo])
        invariant
            lo <= n,
            n == l@.len(),
            spec_trim_front(l@) == spec_trim_front(l@.subrange(lo as int, n as int)),
        decreases n - lo,
    {
        proof {
            assert(l@.subrange(lo as int, n as int).drop_first() =~= l@.subrange(
                lo + 1,
                n as int,
            ));
        }
        lo += 1;
    }
    proof {
        assert(spec_trim_front(l@) == l@.subrange(lo as int, n as int));
    }
    let mut hi: usize = n;
    while hi > lo && is_ws_byte(l[hi - 1])
        invariant
            lo <= hi <= n,
            n == l@.len(),
            spec_trim_back(l@.subrange(lo as int, n as int)) == spec_trim_back(
                l@.subrange(lo as int, hi as int),
            ),
        decreases hi,
    {
        proof {
            assert(l@.subrange(lo as int, hi as int).drop_last() =~= l@.subrange(
                lo as int,
                hi - 1,
            ));
        }
        hi -= 1;
    }
    proof {
        assert(spec_trim_back(l@.subrange(lo as int, hi as int)) == l@.subrange(
            lo as int,
            hi as int,
        ));
    }
    (lo, hi)
}

/// Split `t` into its lines.
#[verifier::rlimit(30)]
pub fn split_lines(t: &[u8]) -> (r: Vec<Vec<u8>>)
    ensures
        r.deep_view() == spec_lines(t@),
{
    let mut r: Vec<Vec<u8>> = Vec::new();
    let n = t.len();
    proof {
        assert(t@.subrange(0, n as int) =~= t@);
        assert(r.deep_view() + spec_lines(t@) =~~= spec_lines(t@));
    }
    let mut pos: usize = 0;
    while pos < n
        invariant
            pos <= n,
            n == t@.len(),
            spec_lines(t@) == r.deep_view() + spec_lines(t@.subrange(pos as int, n as int)),
        decreases n - pos,
    {
        let rest = slice_subrange(t, pos, n);
        let m = rest.len();
        let ghost prev = r.deep_view();
        let (line_end, next) = match find_byte_from(rest, NL, 0) {
            Some(p) => {
                proof {
                    lemma_find_byte_from(rest@, NL, 0);
                    assert(rest@.subrange(p + 1, m as int) =~= t@.subrange(
                        pos + p + 1,
                        n as int,
                    ));
                }
                (p, pos + p + 1)
            },
            None => {
                proof {
                    assert(rest@.subrange(0, m as int) =~= rest@);
                }
                (m, n)
            },
        };
        let mut hi = line_end;
        if hi > 0 && rest[hi - 1] == CR {
            hi -= 1;
            proof {
                assert(rest@.subrange(0, line_end as int).drop_last() =~= rest@.subrange(
                    0,
                    hi as int,
                ));
            }
        }
        let line = copy_range(rest, 0, hi);
        proof {
            assert(line@ == spec_strip_cr(rest@.subrange(0, line_end as int)));
            assert(spec_lines(rest@) =~~= seq![spec_strip_cr(rest@.subrange(0, line_end as int))]
                + spec_lines(t@.subrange(next as int, n as int)));
        }
        r.push(line);
        proof {
            assert(r.deep_view() =~~= prev.push(line@));
            assert(prev + spec_lines(rest@) =~~= r.deep_view() + spec_lines(
                t@.subrange(next as int, n as int),
            ));
        }
        pos = next;
    }
    proof {
        assert(r.deep_view() + spec_lines(t@.subrange(n as int, n as int)) =~~= r.deep_view());
    }
    r
}

/// `t` with every leading line-feed byte removed.
pub open spec fn spec_trim_start_nl(t: Seq<u8>) -> Seq<u8>
    decreases t.len(),
{
    if t.len() > 0 && t[0] == NL {
        spec_trim_start_nl(t.drop_first())
    } else {
        t
    }
}

/// `t` with runs of trailing line-feed bytes collapsed to at most one.
pub open spec fn spec_collapse_trailing_nl(t: Seq<u8>) -> Seq<u8>
    decreases t.len(),
{
    if t.len() >= 2 && t[t.len() - 1] == NL && t[t.len() - 2] == NL {
        spec_collapse_trailing_nl(t.drop_last())
    } else {
        t
    }
}

/// Boundary blank-line cleanup: leading blank lines removed entirely,
/// multiple trailing blank lines collapsed to one line terminator.
pub open spec fn spec_trim_blank(t: Seq<u8>) -> Seq<u8> {
    spec_collapse_trailing_nl(spec_trim_start_nl(t))
}

/// Append every byte of `s` to `out`.
pub fn extend(out: &mut Vec<u8>, s: &[u8])
    ensures
        final(out)@ == old(out)@ + s@,
{
    let n = s.len();
    let mut i: usize = 0;
    while i < n
        invariant
            i <= n,
            out@ == old(out)@ + s@.subrange(0, i as int),
        decreases n - i,
    {
        out.push(s[i]);
        i += 1;
        proof {
            assert(s@.subrange(0, i - 1 as int).push(s@[i - 1]) =~= s@.subrange(0, i as int));
        }
    }
    proof {
        assert(s@.subrange(0, n as int) =~= s@);
    }
}

/// A copy of `t[lo..hi]` as a fresh vector.
pub fn copy_range(t: &[u8], lo: usize, hi: usize) -> (r: Vec<u8>)
    requires
        lo <= hi <= t.len(),
    ensures
        r@ == t@.subrange(lo as int, hi as int),
{
    slice_to_vec(slice_subrange(t, lo, hi))
}

} // verus!
