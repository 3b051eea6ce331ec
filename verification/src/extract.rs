//! Carving the relevant region out of noisy multi-line tool output, guided
//! by ordered lists of start and end marker tokens.
//!
//! Among the start tokens that occur, the one whose last occurrence lies
//! closest to the end of the text wins, and everything up to and including
//! that occurrence's line is dropped (this skips past repeated banners).
//! Among the end tokens that occur in the remainder, the one whose last
//! occurrence lies closest to the front wins, and everything from the start
//! of that occurrence's line onward is dropped. Absent tokens mean no
//! truncation on that side. Finally boundary blank lines are cleaned up.
use vstd::prelude::*;

use crate::text::{
    copy_range, find_byte_from, rfind, rfind_byte_before, spec_find_byte_from, spec_rfind,
    spec_rfind_byte_before, spec_trim_blank, spec_trim_start_nl, spec_collapse_trailing_nl,
    lemma_rfind, lemma_find_byte_from, lemma_rfind_byte_before, NL,
};

verus! {

/// The later (larger) of two optional positions.
pub open spec fn opt_later(a: Option<int>, b: Option<int>) -> Option<int> {
    match a {
        Option::None => b,
        Option::Some(x) => match b {
            Option::None => Some(x),
            Option::Some(y) => if x >= y {
                Some(x)
            } else {
                Some(y)
            },
        },
    }
}

/// The earlier (smaller) of two optional positions.
pub open spec fn opt_earlier(a: Option<int>, b: Option<int>) -> Option<int> {
    match a {
        Option::None => b,
        Option::Some(x) => match b {
            Option::None => Some(x),
            Option::Some(y) => if x <= y {
                Some(x)
            } else {
                Some(y)
            },
        },
    }
}

/// The largest index at which the last occurrence of any token in `toks`
/// starts: the front-truncation point.
pub open spec fn spec_best_start(t: Seq<u8>, toks: Seq<Seq<u8>>) -> Option<int>
    decreases toks.len(),
{
    if toks.len() == 0 {
        None
    } else {
        opt_later(spec_best_start(t, toks.drop_last()), spec_rfind(t, toks.last()))
    }
}

/// The smallest index at which the last occurrence of any token in `toks`
/// starts: the back-truncation point.
pub open spec fn spec_best_end(t: Seq<u8>, toks: Seq<Seq<u8>>) -> Option<int>
    decreases toks.len(),
{
    if toks.len() == 0 {
        None
    } else {
        opt_earlier(spec_best_end(t, toks.drop_last()), spec_rfind(t, toks.last()))
    }
}

/// Everything up to and including the line of the front-truncation point is
/// dropped; with no token occurrence the text is kept whole, and with an
/// occurrence on the last line nothing remains.
pub open spec fn spec_front_cut(t: Seq<u8>, starts: Seq<Seq<u8>>) -> Seq<u8> {
    match spec_best_start(t, starts) {
        Option::None => t,
        Option::Some(p) => match spec_find_byte_from(t, NL, p) {
            Option::Some(e) => t.subrange(e + 1, t.len() as int),
            Option::None => Seq::empty(),
        },
    }
}

/// Everything from the start of the back-truncation point's line onward is
/// dropped; with no token occurrence the text is kept whole, and with an
/// occurrence on the first line nothing remains.
pub open spec fn spec_back_cut(t: Seq<u8>, ends: Seq<Seq<u8>>) -> Seq<u8> {
    match spec_best_end(t, ends) {
        Option::None => t,
        Option::Some(p) => match spec_rfind_byte_before(t, NL, p) {
            Option::Some(q) => t.subrange(0, q + 1),
            Option::None => Seq::empty(),
        },
    }
}

/// The whole extraction: front truncation, then back truncation on the
/// remainder, then boundary blank-line cleanup.
pub open spec fn spec_extract(t: Seq<u8>, starts: Seq<Seq<u8>>, ends: Seq<Seq<u8>>) -> Seq<u8> {
    spec_trim_blank(spec_back_cut(spec_front_cut(t, starts), ends))
}

/// Front-truncation point of `t` for the tokens in `toks`.
fn best_start(t: &[u8], toks: &Vec<Vec<u8>>) -> (r: Option<usize>)
    ensures
        match r {
            Some(p) => spec_best_start(t@, toks.deep_view()) == Some(p as int) && p <= t@.len(),
            None => spec_best_start(t@, toks.deep_view()) is None,
        },
{
    let mut best: Option<usize> = None;
    let n = toks.len();
    let mut k: usize = 0;
    while k < n
        invariant
            k <= n,
            n == toks@.len(),
            match best {
                Some(p) => spec_best_start(t@, toks.deep_view().take(k as int)) == Some(p as int)
                    && p <= t@.len(),
                None => spec_best_start(t@, toks.deep_view().take(k as int)) is None,
            },
        decreases n - k,
    {
        let tok = &toks[k];
        let cur = rfind(t, tok.as_slice());
        proof {
            lemma_rfind(t@, tok@);
            assert(toks.deep_view().take(k + 1).drop_last() =~= toks.deep_view().take(k as int));
            assert(toks.deep_view().take(k + 1).last() == tok@);
        }
        best = match (best, cur) {
            (None, c) => c,
            (b, None) => b,
            (Some(p), Some(q)) => if p >= q {
                Some(p)
            } else {
                Some(q)
            },
        };
        k += 1;
    }
    proof {
        assert(toks.deep_view().take(n as int) =~= toks.deep_view());
    }
    best
}

/// Back-truncation point of `t` for the tokens in `toks`.
fn best_end(t: &[u8], toks: &Vec<Vec<u8>>) -> (r: Option<usize>)
    ensures
        match r {
            Some(p) => spec_best_end(t@, toks.deep_view()) == Some(p as int) && p <= t@.len(),
            None => spec_best_end(t@, toks.deep_view()) is None,
        },
{
    let mut best: Option<usize> = None;
    let n = toks.len();
    let mut k: usize = 0;
    while k < n
        invariant
            k <= n,
            n == toks@.len(),
            match best {
                Some(p) => spec_best_end(t@, toks.deep_view().take(k as int)) == Some(p as int)
                    && p <= t@.len(),
                None => spec_best_end(t@, toks.deep_view().take(k as int)) is None,
            },
        decreases n - k,
    {
        let tok = &toks[k];
        let cur = rfind(t, tok.as_slice());
        proof {
            lemma_rfind(t@, tok@);
            assert(toks.deep_view().take(k + 1).drop_last() =~= toks.deep_view().take(k as int));
            assert(toks.deep_view().take(k + 1).last() == tok@);
        }
        best = match (best, cur) {
            (None, c) => c,
            (b, None) => b,
            (Some(p), Some(q)) => if p <= q {
                Some(p)
            } else {
                Some(q)
            },
        };
        k += 1;
    }
    proof {
        assert(toks.deep_view().take(n as int) =~= toks.deep_view());
    }
    best
}

/// Keep only the lines of `text` after the front-truncation point.
fn front_cut(text: &[u8], start_tokens: &Vec<Vec<u8>>) -> (u: Vec<u8>)
    ensures
        u@ == spec_front_cut(text@, start_tokens.deep_view()),
{
    let n = text.len();
    let u: Vec<u8> = match best_start(text, start_tokens) {
        Some(p) => match find_byte_from(text, NL, p) {
            Some(e) => {
                proof {
                    lemma_find_byte_from(text@, NL, p as int);
                    assert(spec_find_byte_from(text@, NL, p as int) == Some(e as int));
                    assert(e < n);
                }
                copy_range(text, e + 1, n)
            },
            None => Vec::new(),
        },
        None => copy_range(text, 0, n),
    };
    proof {
        assert(text@.subrange(0, text@.len() as int) =~= text@);
    }
    u
}

/// Keep only the lines of `t` before the back-truncation point.
fn back_cut(t: Vec<u8>, end_tokens: &Vec<Vec<u8>>) -> (v: Vec<u8>)
    ensures
        v@ == spec_back_cut(t@, end_tokens.deep_view()),
{
    match best_end(t.as_slice(), end_tokens) {
        Some(p) => match rfind_byte_before(t.as_slice(), NL, p) {
            Some(q) => {
                proof {
                    lemma_rfind_byte_before(t@, NL, p as int);
                }
                copy_range(t.as_slice(), 0, q + 1)
            },
            None => Vec::new(),
        },
        None => t,
    }
}

/// Remove leading blank lines entirely and collapse trailing blank lines
/// down to at most one line terminator.
fn trim_blank(v: Vec<u8>) -> (r: Vec<u8>)
    ensures
        r@ == spec_trim_blank(v@),
{
    let len = v.len();
    proof {
        assert(v@.subrange(0, len as int) =~= v@);
    }

    // Strip leading blank lines entirely.
    let mut lo: usize = 0;
    while lo < len && v[lo] == NL
        invariant
            lo <= len,
            len == v@.len(),
            spec_trim_start_nl(v@) == spec_trim_start_nl(v@.subrange(lo as int, len as int)),
        decreases len - lo,
    {
        proof {
            assert(v@.subrange(lo as int, len as int).drop_first() =~= v@.subrange(
                lo + 1,
                len as int,
            ));
        }
        lo += 1;
    }
    proof {
        assert(spec_trim_start_nl(v@) == v@.subrange(lo as int, len as int));
    }

    // Collapse multiple trailing blank lines down to one line terminator.
    let mut hi: usize = len;
    while hi - lo >= 2 && v[hi - 1] == NL && v[hi - 2] == NL
        invariant
            lo <= hi <= len,
            len == v@.len(),
            spec_collapse_trailing_nl(v@.subrange(lo as int, len as int))
                == spec_collapse_trailing_nl(v@.subrange(lo as int, hi as int)),
        decreases hi,
    {
        proof {
            assert(v@.subrange(lo as int, hi as int).drop_last() =~= v@.subrange(
                lo as int,
                hi - 1,
            ));
        }
        hi -= 1;
    }
    proof {
        assert(spec_collapse_trailing_nl(v@.subrange(lo as int, hi as int)) == v@.subrange(
            lo as int,
            hi as int,
        ));
    }

    copy_range(v.as_slice(), lo, hi)
}

/// Strip `text` according to the start and end marker tokens: keep what lies
/// after the last line touched by a start token and before the first line
/// touched by an end token, then remove leading blank lines and collapse
/// trailing blank lines down to at most one line terminator.
pub fn extract_relevant_lines(
    text: &[u8],
    start_tokens: &Vec<Vec<u8>>,
    end_tokens: &Vec<Vec<u8>>,
) -> (r: Vec<u8>)
    ensures
        r@ == spec_extract(text@, start_tokens.deep_view(), end_tokens.deep_view()),
{
    trim_blank(back_cut(front_cut(text, start_tokens), end_tokens))
}

} // verus!
