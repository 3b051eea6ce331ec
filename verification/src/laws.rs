//! The laws the library states about its own pipeline: what extraction does
//! with no tokens and with repeated tokens, what wrapping guarantees, that
//! wrapping and stripping round-trip, and that diagnostics are always
//! well-terminated.
use vstd::prelude::*;
use vstd::string::*;
use vstd::utf8::is_ascii_chars;

use crate::extract::{
    spec_back_cut, spec_best_end, spec_best_start, spec_extract, spec_front_cut,
};
use crate::flags::{spec_channel_diag, spec_edition_diag, spec_flag_errors, spec_mode_diag};
use crate::text::{
    contains_tok, is_ws, lemma_find_byte_from, lemma_rfind, lemma_rfind_byte_before, occurs_at,
    spec_collapse_trailing_nl, spec_find_byte_from, spec_lines, spec_rfind,
    spec_rfind_byte_before, spec_strip_cr, spec_trim, spec_trim_back, spec_trim_blank,
    spec_trim_front, spec_trim_start_nl, CR, NL,
};
use crate::wrap::{
    spec_attrs_text, spec_cat_lines, spec_close_tok, spec_deindent_cat, spec_footer, spec_header,
    spec_is_attr_line, spec_is_blank_line, spec_lead_end, spec_main_open_tok, spec_main_tok,
    spec_maybe_wrap, spec_strip_boilerplate, spec_wrap, ResultHandling,
};

verus! {

/// With no marker tokens at all, extraction returns the text with only the
/// boundary blank-line cleanup applied.
pub proof fn lemma_extract_no_tokens(t: Seq<u8>)
    ensures
        spec_extract(t, Seq::empty(), Seq::empty()) == spec_trim_blank(t),
{
    assert(spec_best_start(t, Seq::empty()) is None);
    assert(spec_best_end(t, Seq::empty()) is None);
}

/// However often a start token occurs, the front-truncation point is its
/// last occurrence: the point is itself an occurrence, and every occurrence
/// lies at or before it.
pub proof fn lemma_front_cut_at_last_occurrence(t: Seq<u8>, tok: Seq<u8>)
    requires
        contains_tok(t, tok),
    ensures
        ({
            let p = spec_best_start(t, seq![tok]);
            &&& p is Some
            &&& occurs_at(t, tok, p.unwrap())
            &&& forall|j: int| occurs_at(t, tok, j) ==> j <= p.unwrap()
        }),
{
    lemma_rfind(t, tok);
    assert(seq![tok].drop_last() =~= Seq::<Seq<u8>>::empty());
    assert(seq![tok].last() == tok);
    assert(spec_best_start(t, seq![tok].drop_last()) is None);
    assert(spec_best_start(t, seq![tok]) == spec_rfind(t, tok));
}

/// With several start tokens, the chosen front-truncation point lies at or
/// after every occurrence of every listed token: no occurrence survives it.
pub proof fn lemma_best_start_dominates(t: Seq<u8>, toks: Seq<Seq<u8>>, k: int, j: int)
    requires
        0 <= k < toks.len(),
        occurs_at(t, toks[k], j),
    ensures
        spec_best_start(t, toks) is Some,
        j <= spec_best_start(t, toks).unwrap(),
    decreases toks.len(),
{
    lemma_rfind(t, toks.last());
    if k == toks.len() - 1 {
        assert(spec_rfind(t, toks.last()) is Some);
        assert(j <= spec_rfind(t, toks.last()).unwrap());
    } else {
        assert(toks.drop_last()[k] == toks[k]);
        lemma_best_start_dominates(t, toks.drop_last(), k, j);
    }
}

/// A snippet that already defines an entry point is passed through
/// byte-for-byte unchanged, whatever the policy.
pub proof fn lemma_wrap_noop_with_entry_point(code: Seq<u8>, rh: ResultHandling)
    requires
        contains_tok(code, spec_main_tok()),
    ensures
        spec_maybe_wrap(code, rh) == code,
{
}

/// A snippet without an entry point, once wrapped, starts with exactly its
/// hoisted attribute lines, followed immediately by the boilerplate header
/// of the chosen policy, and ends with that policy's footer; in particular
/// the wrapped output contains the header.
pub proof fn lemma_wrap_structure(code: Seq<u8>, rh: ResultHandling)
    requires
        !contains_tok(code, spec_main_tok()),
    ensures
        ({
            let w = spec_maybe_wrap(code, rh);
            let ls = spec_lines(code);
            let k = spec_lead_end(ls, 0);
            let attrs = spec_attrs_text(ls, k);
            let header = spec_header(rh);
            let footer = spec_footer(rh);
            &&& w.len() == attrs.len() + header.len() + spec_cat_lines(ls, k, ls.len() as int).len()
                + footer.len()
            &&& w.subrange(0, attrs.len() as int) == attrs
            &&& w.subrange(attrs.len() as int, attrs.len() + header.len() as int) == header
            &&& w.subrange(w.len() - footer.len(), w.len() as int) == footer
            &&& contains_tok(w, header)
        }),
{
    let w = spec_maybe_wrap(code, rh);
    let ls = spec_lines(code);
    let k = spec_lead_end(ls, 0);
    let attrs = spec_attrs_text(ls, k);
    let header = spec_header(rh);
    let body = spec_cat_lines(ls, k, ls.len() as int);
    let footer = spec_footer(rh);
    assert(w == attrs + header + body + footer);
    assert(w.subrange(0, attrs.len() as int) =~= attrs);
    assert(w.subrange(attrs.len() as int, attrs.len() + header.len() as int) =~= header);
    assert(w.subrange(w.len() - footer.len(), w.len() as int) =~= footer);
    assert(occurs_at(w, header, attrs.len() as int));
}

/// The diagnostics block is well-terminated: when it is non-empty it ends
/// with exactly one line terminator (its final byte is one, and the byte
/// before is not).
pub proof fn lemma_flag_errors_well_terminated(params: Seq<(Vec<u8>, Vec<u8>)>)
    ensures
        ({
            let e = spec_flag_errors(params);
            e.len() > 0 ==> e.last() == NL && (e.len() >= 2 ==> e[e.len() - 2] != NL)
        }),
{
    reveal_strlit("`");
    assert(is_ascii_chars("`"@));
    vstd::utf8::is_ascii_chars_encode_utf8("`"@);
    assert("`".spec_bytes().len() == 1);
    assert("`".spec_bytes()[0] == 96u8);
    let c = spec_channel_diag(params);
    let m = spec_mode_diag(params);
    let d = spec_edition_diag(params);
    assert(c.len() > 0 ==> c.last() == NL && c[c.len() - 2] == 96u8);
    assert(m.len() > 0 ==> m.last() == NL && m[m.len() - 2] == 96u8);
    assert(d.len() > 0 ==> d.last() == NL && d[d.len() - 2] == 96u8);
}

/// An occurrence inside a piece of the text is an occurrence in the whole.
pub proof fn lemma_occurs_in_subrange(t: Seq<u8>, a: int, b: int, tok: Seq<u8>, q: int)
    requires
        0 <= a <= b <= t.len(),
        occurs_at(t.subrange(a, b), tok, q),
    ensures
        occurs_at(t, tok, a + q),
{
    assert(t.subrange(a + q, a + q + tok.len() as int) =~= t.subrange(a, b).subrange(
        q,
        q + tok.len() as int,
    ));
}

/// Trimming the front keeps a suffix of the line.
proof fn lemma_trim_front_is_suffix(l: Seq<u8>)
    ensures
        exists|a: int|
            0 <= a <= l.len() && spec_trim_front(l) == #[trigger] l.subrange(a, l.len() as int),
    decreases l.len(),
{
    if l.len() > 0 && is_ws(l[0]) {
        lemma_trim_front_is_suffix(l.drop_first());
        let d = l.drop_first();
        let a0 = choose|a: int|
            0 <= a <= d.len() && spec_trim_front(d) == #[trigger] d.subrange(a, d.len() as int);
        assert(d.subrange(a0, d.len() as int) =~= l.subrange(a0 + 1, l.len() as int));
        assert(spec_trim_front(l) == l.subrange(a0 + 1, l.len() as int));
    } else {
        assert(l.subrange(0, l.len() as int) =~= l);
        assert(spec_trim_front(l) == l.subrange(0, l.len() as int));
    }
}

/// Trimming the back keeps a prefix of the line.
proof fn lemma_trim_back_is_prefix(l: Seq<u8>)
    ensures
        exists|b: int| 0 <= b <= l.len() && spec_trim_back(l) == #[trigger] l.subrange(0, b),
    decreases l.len(),
{
    if l.len() > 0 && is_ws(l[l.len() - 1]) {
        lemma_trim_back_is_prefix(l.drop_last());
        let d = l.drop_last();
        let b0 = choose|b: int| 0 <= b <= d.len() && spec_trim_back(d) == #[trigger] d.subrange(0, b);
        assert(d.subrange(0, b0) =~= l.subrange(0, b0));
        assert(spec_trim_back(l) == l.subrange(0, b0));
    } else {
        assert(l.subrange(0, l.len() as int) =~= l);
        assert(spec_trim_back(l) == l.subrange(0, l.len() as int));
    }
}

/// A token occurring in a trimmed line occurs in the line.
proof fn lemma_tok_in_trim(l: Seq<u8>, tok: Seq<u8>, q: int)
    requires
        occurs_at(spec_trim(l), tok, q),
    ensures
        contains_tok(l, tok),
{
    lemma_trim_front_is_suffix(l);
    let a = choose|a: int|
        0 <= a <= l.len() && spec_trim_front(l) == #[trigger] l.subrange(a, l.len() as int);
    let f = spec_trim_front(l);
    lemma_trim_back_is_prefix(f);
    let b = choose|b: int| 0 <= b <= f.len() && spec_trim_back(f) == #[trigger] f.subrange(0, b);
    assert(f.subrange(0, b) =~= l.subrange(a, a + b));
    lemma_occurs_in_subrange(l, a, a + b, tok, q);
}

/// A token occurring in any line of a text occurs in the text.
pub proof fn lemma_lines_occurrence(t: Seq<u8>, tok: Seq<u8>, i: int, q: int)
    requires
        0 <= i < spec_lines(t).len(),
        occurs_at(spec_lines(t)[i], tok, q),
    ensures
        contains_tok(t, tok),
    decreases t.len(),
{
    lemma_find_byte_from(t, NL, 0);
    match spec_find_byte_from(t, NL, 0) {
        Option::Some(p) => {
            if i == 0 {
                let piece = t.subrange(0, p);
                assert(spec_lines(t)[0] == spec_strip_cr(piece));
                if piece.len() > 0 && piece[piece.len() - 1] == CR {
                    assert(piece.drop_last() =~= t.subrange(0, p - 1));
                    lemma_occurs_in_subrange(t, 0, p - 1, tok, q);
                } else {
                    lemma_occurs_in_subrange(t, 0, p, tok, q);
                }
            } else {
                let rest = t.subrange(p + 1, t.len() as int);
                assert(spec_lines(t)[i] == spec_lines(rest)[i - 1]);
                lemma_lines_occurrence(rest, tok, i - 1, q);
                let j = choose|j: int| occurs_at(rest, tok, j);
                lemma_occurs_in_subrange(t, p + 1, t.len() as int, tok, j);
            }
        },
        Option::None => {
            assert(i == 0);
            if t.len() > 0 && t[t.len() - 1] == CR {
                assert(spec_strip_cr(t) =~= t.subrange(0, t.len() - 1));
                lemma_occurs_in_subrange(t, 0, t.len() - 1, tok, q);
            } else {
                assert(spec_lines(t)[0] == t);
            }
        },
    }
}

/// Joined lines unfold from the front as well.
pub proof fn lemma_cat_front_unfold(ls: Seq<Seq<u8>>, from: int, to: int)
    requires
        from < to,
    ensures
        spec_cat_lines(ls, from, to) == ls[from] + seq![NL] + spec_cat_lines(ls, from + 1, to),
    decreases to - from,
{
    if from + 1 < to {
        lemma_cat_front_unfold(ls, from, to - 1);
        assert(spec_cat_lines(ls, from, to) =~= ls[from] + seq![NL] + spec_cat_lines(
            ls,
            from + 1,
            to,
        ));
    } else {
        assert(spec_cat_lines(ls, from, from) == Seq::<u8>::empty());
        assert(spec_cat_lines(ls, from + 1, to) == Seq::<u8>::empty());
        assert(spec_cat_lines(ls, from, to) =~= ls[from] + seq![NL] + spec_cat_lines(
            ls,
            from + 1,
            to,
        ));
    }
}

/// A non-empty run of joined lines ends with a line terminator.
pub proof fn lemma_cat_ends_nl(ls: Seq<Seq<u8>>, from: int, to: int)
    requires
        from < to,
    ensures
        spec_cat_lines(ls, from, to).len() > 0,
        spec_cat_lines(ls, from, to).last() == NL,
{
}

/// A terminator-free token occurring in joined lines occurs in one of the
/// lines: it cannot span a line boundary.
pub proof fn lemma_tok_in_cat(ls: Seq<Seq<u8>>, from: int, to: int, tok: Seq<u8>, p: int)
    requires
        occurs_at(spec_cat_lines(ls, from, to), tok, p),
        tok.len() > 0,
        forall|x: int| 0 <= x < tok.len() ==> tok[x] != NL,
    ensures
        exists|i: int, q: int| from <= i < to && #[trigger] occurs_at(ls[i], tok, q),
    decreases to - from,
{
    let w = spec_cat_lines(ls, from, to);
    assert(from < to);
    let c = spec_cat_lines(ls, from, to - 1);
    let line = ls[to - 1];
    assert(w == c + line + seq![NL]);
    if p + tok.len() <= c.len() {
        assert(c.subrange(p, p + tok.len() as int) =~= w.subrange(p, p + tok.len() as int));
        lemma_tok_in_cat(ls, from, to - 1, tok, p);
    } else if p >= c.len() {
        assert(w[w.len() - 1] == NL);
        if p + tok.len() == w.len() {
            assert(tok[tok.len() - 1] == w[w.len() - 1]);
            assert(false);
        }
        let q = p - c.len();
        assert(line.subrange(q, q + tok.len() as int) =~= w.subrange(p, p + tok.len() as int));
        assert(occurs_at(ls[to - 1], tok, q));
    } else {
        // the span would cross the terminator that ends the earlier lines
        assert(c.len() > 0);
        lemma_cat_ends_nl(ls, from, to - 1);
        assert(w[c.len() - 1] == NL);
        assert(tok[c.len() - 1 - p] == w[c.len() - 1]);
        assert(false);
    }
}

/// A non-empty block of hoisted attributes ends with a line terminator.
proof fn lemma_attrs_ends_nl(ls: Seq<Seq<u8>>, k: int)
    ensures
        spec_attrs_text(ls, k).len() > 0 ==> spec_attrs_text(ls, k).last() == NL,
    decreases k,
{
    if k > 0 {
        lemma_attrs_ends_nl(ls, k - 1);
    }
}

/// A terminator-free token occurring in the hoisted attributes occurs in one
/// of the first `k` lines.
proof fn lemma_tok_in_attrs(ls: Seq<Seq<u8>>, k: int, tok: Seq<u8>, p: int)
    requires
        occurs_at(spec_attrs_text(ls, k), tok, p),
        tok.len() > 0,
        forall|x: int| 0 <= x < tok.len() ==> tok[x] != NL,
    ensures
        exists|i: int, q: int| 0 <= i < k && #[trigger] occurs_at(ls[i], tok, q),
    decreases k,
{
    let w = spec_attrs_text(ls, k);
    assert(k > 0);
    let c = spec_attrs_text(ls, k - 1);
    if spec_is_attr_line(ls[k - 1]) {
        let line = spec_trim(ls[k - 1]);
        assert(w == c + (line + seq![NL]));
        if p + tok.len() <= c.len() {
            assert(c.subrange(p, p + tok.len() as int) =~= w.subrange(p, p + tok.len() as int));
            lemma_tok_in_attrs(ls, k - 1, tok, p);
        } else if p >= c.len() {
            assert(w[w.len() - 1] == NL);
            if p + tok.len() == w.len() {
                assert(tok[tok.len() - 1] == w[w.len() - 1]);
                assert(false);
            }
            let q = p - c.len();
            assert(line.subrange(q, q + tok.len() as int) =~= w.subrange(
                p,
                p + tok.len() as int,
            ));
            lemma_tok_in_trim(ls[k - 1], tok, q);
            let line0 = ls[k - 1];
            let q2 = choose|q2: int| occurs_at(line0, tok, q2);
            assert(occurs_at(ls[k - 1], tok, q2));
            assert(exists|i: int, q: int| 0 <= i < k && #[trigger] occurs_at(ls[i], tok, q));
        } else {
            assert(c.len() > 0);
            lemma_attrs_ends_nl(ls, k - 1);
            assert(w[c.len() - 1] == NL);
            assert(tok[c.len() - 1 - p] == w[c.len() - 1]);
            assert(false);
        }
    } else {
        assert(w =~= c);
        lemma_tok_in_attrs(ls, k - 1, tok, p);
    }
}

/// The lines of a text without carriage returns carry neither terminators
/// nor carriage returns.
pub proof fn lemma_lines_clean(t: Seq<u8>)
    requires
        forall|x: int| 0 <= x < t.len() ==> t[x] != CR,
    ensures
        forall|i: int, x: int|
            0 <= i < spec_lines(t).len() && 0 <= x < spec_lines(t)[i].len() ==> #[trigger] spec_lines(
                t,
            )[i][x] != NL && spec_lines(t)[i][x] != CR,
    decreases t.len(),
{
    if t.len() > 0 {
        lemma_find_byte_from(t, NL, 0);
        match spec_find_byte_from(t, NL, 0) {
            Option::Some(p) => {
                let piece = t.subrange(0, p);
                assert(spec_strip_cr(piece) == piece);
                let rest = t.subrange(p + 1, t.len() as int);
                lemma_lines_clean(rest);
                assert forall|i: int, x: int|
                    0 <= i < spec_lines(t).len() && 0 <= x < spec_lines(t)[i].len() implies #[trigger] spec_lines(
                    t,
                )[i][x] != NL && spec_lines(t)[i][x] != CR by {
                    if i == 0 {
                        assert(spec_lines(t)[0] == piece);
                    } else {
                        assert(spec_lines(t)[i] == spec_lines(rest)[i - 1]);
                    }
                }
            },
            Option::None => {
                assert(spec_strip_cr(t) == t);
            },
        }
    }
}

/// Splitting joined clean lines gives the lines back.
pub proof fn lemma_lines_of_cat(ls: Seq<Seq<u8>>, from: int, to: int)
    requires
        0 <= from <= to <= ls.len(),
        forall|i: int, x: int|
            from <= i < to && 0 <= x < ls[i].len() ==> #[trigger] ls[i][x] != NL && ls[i][x]
                != CR,
    ensures
        spec_lines(spec_cat_lines(ls, from, to)) == ls.subrange(from, to),
    decreases to - from,
{
    if from == to {
        assert(spec_lines(spec_cat_lines(ls, from, to)) =~~= ls.subrange(from, to));
    } else {
        lemma_cat_front_unfold(ls, from, to);
        let w = spec_cat_lines(ls, from, to);
        let line = ls[from];
        let rest = spec_cat_lines(ls, from + 1, to);
        let m = line.len() as int;
        assert(w == line + seq![NL] + rest);
        assert(w[m] == NL);
        assert(forall|x: int| 0 <= x < m ==> w[x] == line[x] && w[x] != NL);
        lemma_find_byte_from(w, NL, 0);
        assert(spec_find_byte_from(w, NL, 0) == Some(m));
        assert(w.subrange(0, m) =~= line);
        assert(spec_strip_cr(line) == line);
        assert(w.subrange(m + 1, w.len() as int) =~= rest);
        lemma_lines_of_cat(ls, from + 1, to);
        assert(spec_lines(w) =~~= ls.subrange(from, to));
    }
}

/// Concrete facts about the entry-point tokens of the no-wrap policy: their
/// lengths, that the entry-point marker is a prefix of the boilerplate line,
/// that neither holds a line terminator, and how header and footer are built
/// from them.
proof fn lemma_nowrap_tokens()
    ensures
        spec_main_tok().len() == 7,
        spec_main_open_tok().len() == 11,
        spec_main_open_tok().subrange(0, 7) == spec_main_tok(),
        forall|x: int| 0 <= x < 11 ==> spec_main_open_tok()[x] != NL,
        spec_header(ResultHandling::NoWrap) == spec_main_open_tok() + seq![NL],
        spec_footer(ResultHandling::NoWrap) == spec_close_tok(),
        spec_close_tok().len() == 1,
        spec_close_tok()[0] != NL,
{
    reveal_strlit("fn main");
    reveal_strlit("fn main() {");
    reveal_strlit("fn main() {\n");
    reveal_strlit("}");
    assert(is_ascii_chars("fn main"@));
    assert(is_ascii_chars("fn main() {"@));
    assert(is_ascii_chars("fn main() {\n"@));
    assert(is_ascii_chars("}"@));
    vstd::utf8::is_ascii_chars_encode_utf8("fn main"@);
    vstd::utf8::is_ascii_chars_encode_utf8("fn main() {"@);
    vstd::utf8::is_ascii_chars_encode_utf8("fn main() {\n"@);
    vstd::utf8::is_ascii_chars_encode_utf8("}"@);
    assert(spec_main_open_tok().subrange(0, 7) =~= spec_main_tok());
    assert(spec_header(ResultHandling::NoWrap) =~= spec_main_open_tok() + seq![NL]);
    assert(spec_footer(ResultHandling::NoWrap) =~= spec_close_tok());
}

/// The leading run ends within the line list.
proof fn lemma_lead_end_bounds(ls: Seq<Seq<u8>>, i: int)
    requires
        0 <= i <= ls.len(),
    ensures
        i <= spec_lead_end(ls, i) <= ls.len(),
    decreases ls.len() - i,
{
    if i < ls.len() && (spec_is_attr_line(ls[i]) || spec_is_blank_line(ls[i])) {
        lemma_lead_end_bounds(ls, i + 1);
    }
}

/// In output wrapped with the no-wrap policy, the last (indeed only)
/// occurrence of the opening boilerplate line starts right after the hoisted
/// attributes: neither the attributes, nor the snippet's own lines, nor the
/// closing brace can contain it, since the snippet has no entry-point marker.
proof fn lemma_header_occurrence(code: Seq<u8>)
    requires
        !contains_tok(code, spec_main_tok()),
    ensures
        ({
            let ls = spec_lines(code);
            let k = spec_lead_end(ls, 0);
            let a = spec_attrs_text(ls, k).len() as int;
            spec_rfind(spec_wrap(code, ResultHandling::NoWrap), spec_main_open_tok()) == Some(a)
        }),
{
    lemma_nowrap_tokens();
    let ls = spec_lines(code);
    let n = ls.len() as int;
    let k = spec_lead_end(ls, 0);
    lemma_lead_end_bounds(ls, 0);
    let attrs = spec_attrs_text(ls, k);
    let a = attrs.len() as int;
    let mo = spec_main_open_tok();
    let mt = spec_main_tok();
    let body = spec_cat_lines(ls, k, n);
    let header = spec_header(ResultHandling::NoWrap);
    let w = spec_wrap(code, ResultHandling::NoWrap);
    assert(w == attrs + header + body + spec_close_tok());
    assert(w.subrange(a, a + 12) =~= header);
    assert(w.subrange(a, a + 11) =~= mo);
    assert(occurs_at(w, mo, a));

    assert forall|j: int| j > a implies !occurs_at(w, mo, j) by {
        if occurs_at(w, mo, j) {
            assert(forall|x: int| 0 <= x < 11 ==> w[j + x] == mo[x]);
            if j < a + 12 {
                // the span would cross the terminator that ends the header
                assert(w[a + 11] == header[11]);
                assert(mo[a + 11 - j] == w[a + 11]);
                assert(false);
            } else {
                let tail = body + spec_close_tok();
                assert(w.subrange(a + 12, w.len() as int) =~= tail);
                let p = j - (a + 12);
                assert(tail.subrange(p, p + 11) =~= w.subrange(j, j + 11));
                assert(occurs_at(tail, mo, p));
                if p + 11 <= body.len() {
                    assert(body.subrange(p, p + 11) =~= tail.subrange(p, p + 11));
                    assert(occurs_at(body, mo, p));
                    lemma_tok_in_cat(ls, k, n, mo, p);
                    let (i, q) = choose|i: int, q: int|
                        k <= i < n && #[trigger] occurs_at(ls[i], mo, q);
                    assert(ls[i].subrange(q, q + 7) =~= mo.subrange(0, 7));
                    assert(occurs_at(ls[i], mt, q));
                    lemma_lines_occurrence(code, mt, i, q);
                    assert(false);
                } else if p >= body.len() {
                    // eleven bytes cannot fit in the single closing byte
                    assert(false);
                } else {
                    // the span would cross the terminator that ends the body
                    assert(body.len() > 0);
                    assert(k < n);
                    lemma_cat_ends_nl(ls, k, n);
                    assert(tail[body.len() - 1] == NL);
                    assert(mo[body.len() - 1 - p] == tail[body.len() - 1]);
                    assert(false);
                }
            }
        }
    }
    lemma_rfind(w, mo);
    match spec_rfind(w, mo) {
        Option::Some(p) => {
            assert(p == a);
        },
        Option::None => {
            assert(false);
        },
    }
}

/// Front truncation of wrapped output (no-wrap policy) drops exactly the
/// hoisted attributes and the boilerplate line, leaving the snippet's own
/// lines and the closing brace.
proof fn lemma_round_trip_front(code: Seq<u8>)
    requires
        !contains_tok(code, spec_main_tok()),
    ensures
        ({
            let ls = spec_lines(code);
            let n = ls.len() as int;
            let k = spec_lead_end(ls, 0);
            spec_front_cut(spec_wrap(code, ResultHandling::NoWrap), seq![spec_main_open_tok()])
                == spec_cat_lines(ls, k, n) + spec_close_tok()
        }),
{
    lemma_nowrap_tokens();
    lemma_header_occurrence(code);
    let ls = spec_lines(code);
    let n = ls.len() as int;
    let k = spec_lead_end(ls, 0);
    lemma_lead_end_bounds(ls, 0);
    let attrs = spec_attrs_text(ls, k);
    let a = attrs.len() as int;
    let mo = spec_main_open_tok();
    let ct = spec_close_tok();
    let body = spec_cat_lines(ls, k, n);
    let header = spec_header(ResultHandling::NoWrap);
    let w = spec_wrap(code, ResultHandling::NoWrap);
    assert(w == attrs + header + body + ct);

    assert(seq![mo].drop_last() =~= Seq::<Seq<u8>>::empty());
    assert(spec_best_start(w, seq![mo].drop_last()) is None);
    assert(seq![mo].last() == mo);
    assert(spec_best_start(w, seq![mo]) == spec_rfind(w, mo));
    assert(spec_best_start(w, seq![mo]) == Some(a));

    assert(w.subrange(a, a + 12) =~= header);
    assert(forall|x: int| 0 <= x < 12 ==> w[a + x] == header[x]);
    assert(w[a + 11] == NL);
    lemma_find_byte_from(w, NL, a);
    match spec_find_byte_from(w, NL, a) {
        Option::Some(p) => {
            assert(forall|x: int| 0 <= x < 11 ==> header[x] == mo[x]);
            assert(forall|x: int| a <= x < a + 11 ==> w[x] != NL);
            assert(p == a + 11);
        },
        Option::None => {
            assert(false);
        },
    }
    assert(spec_front_cut(w, seq![mo]) =~= body + ct);
}

/// Back truncation of the remainder stops at the final closing brace and
/// keeps exactly the snippet's own lines.
proof fn lemma_round_trip_back(ls: Seq<Seq<u8>>, k: int, n: int)
    requires
        0 <= k < n <= ls.len(),
    ensures
        spec_back_cut(spec_cat_lines(ls, k, n) + spec_close_tok(), seq![spec_close_tok()])
            == spec_cat_lines(ls, k, n),
{
    lemma_nowrap_tokens();
    let ct = spec_close_tok();
    let body = spec_cat_lines(ls, k, n);
    let u = body + ct;
    lemma_cat_ends_nl(ls, k, n);

    assert(seq![ct].drop_last() =~= Seq::<Seq<u8>>::empty());
    assert(spec_best_end(u, seq![ct].drop_last()) is None);
    assert(seq![ct].last() == ct);
    assert(spec_best_end(u, seq![ct]) == spec_rfind(u, ct));
    assert(u.subrange(u.len() - 1, u.len() as int) =~= ct);
    assert(occurs_at(u, ct, u.len() - 1));
    lemma_rfind(u, ct);
    match spec_rfind(u, ct) {
        Option::Some(p) => {
            assert(p == u.len() - 1);
        },
        Option::None => {
            assert(false);
        },
    }
    assert(u[u.len() - 2] == body[body.len() - 1]);
    assert(u[u.len() - 2] == NL);
    lemma_rfind_byte_before(u, NL, u.len() - 1);
    match spec_rfind_byte_before(u, NL, u.len() - 1) {
        Option::Some(q) => {
            assert(q == u.len() - 2);
        },
        Option::None => {
            assert(false);
        },
    }
    assert(spec_back_cut(u, seq![ct]) =~= body);
}

/// The line at which the leading run ends is neither an attribute nor blank.
proof fn lemma_lead_end_stops(ls: Seq<Seq<u8>>, i: int)
    requires
        0 <= i <= ls.len(),
    ensures
        ({
            let k = spec_lead_end(ls, i);
            k < ls.len() ==> !(spec_is_attr_line(ls[k]) || spec_is_blank_line(ls[k]))
        }),
    decreases ls.len() - i,
{
    if i < ls.len() && (spec_is_attr_line(ls[i]) || spec_is_blank_line(ls[i])) {
        lemma_lead_end_stops(ls, i + 1);
    }
}

/// The snippet's joined lines start with a non-blank line and end with a
/// single terminator, so the blank-line cleanup leaves them alone.
proof fn lemma_round_trip_trim(code: Seq<u8>)
    requires
        forall|x: int| 0 <= x < code.len() ==> code[x] != CR,
        spec_lead_end(spec_lines(code), 0) < spec_lines(code).len(),
        spec_lines(code).last().len() > 0,
    ensures
        ({
            let ls = spec_lines(code);
            let n = ls.len() as int;
            let k = spec_lead_end(ls, 0);
            spec_trim_blank(spec_cat_lines(ls, k, n)) == spec_cat_lines(ls, k, n)
        }),
{
    let ls = spec_lines(code);
    let n = ls.len() as int;
    let k = spec_lead_end(ls, 0);
    lemma_lead_end_bounds(ls, 0);
    lemma_lead_end_stops(ls, 0);
    let body = spec_cat_lines(ls, k, n);
    lemma_lines_clean(code);
    lemma_cat_front_unfold(ls, k, n);
    lemma_cat_ends_nl(ls, k, n);
    if ls[k].len() == 0 {
        assert(spec_trim_front(ls[k]) == ls[k]);
        assert(spec_trim(ls[k]).len() == 0);
        assert(spec_is_blank_line(ls[k]));
        assert(false);
    }
    assert(body[0] == ls[k][0]);
    assert(body[0] != NL);
    assert(spec_trim_start_nl(body) == body);
    assert(ls[n - 1].len() > 0);
    assert(body == spec_cat_lines(ls, k, n - 1) + ls[n - 1] + seq![NL]);
    assert(body[body.len() - 2] == ls[n - 1][ls[n - 1].len() - 1]);
    assert(body[body.len() - 2] != NL);
    assert(spec_collapse_trailing_nl(body) == body);
}

/// The round trip: wrapping a snippet (no-wrap policy) and stripping the
/// boilerplate from the result recovers exactly the snippet's lines after
/// the hoisted leading run, each de-indented by one level where indented,
/// each ending in a line terminator. The snippet must lack the entry-point
/// marker (otherwise nothing is wrapped), be free of carriage returns, have
/// at least one line after the leading attribute-or-blank run, and not end
/// in a blank line (boundary blank lines fall to the extraction cleanup).
pub proof fn lemma_wrap_strip_round_trip(code: Seq<u8>)
    requires
        !contains_tok(code, spec_main_tok()),
        forall|x: int| 0 <= x < code.len() ==> code[x] != CR,
        spec_lead_end(spec_lines(code), 0) < spec_lines(code).len(),
        spec_lines(code).last().len() > 0,
    ensures
        ({
            let ls = spec_lines(code);
            let k = spec_lead_end(ls, 0);
            let body_lines = ls.subrange(k, ls.len() as int);
            spec_strip_boilerplate(spec_maybe_wrap(code, ResultHandling::NoWrap))
                == spec_deindent_cat(body_lines, body_lines.len() as int)
        }),
{
    let ls = spec_lines(code);
    let n = ls.len() as int;
    let k = spec_lead_end(ls, 0);
    lemma_lead_end_bounds(ls, 0);
    let mo = spec_main_open_tok();
    let ct = spec_close_tok();
    let body = spec_cat_lines(ls, k, n);
    let w = spec_wrap(code, ResultHandling::NoWrap);
    assert(spec_maybe_wrap(code, ResultHandling::NoWrap) == w);

    lemma_round_trip_front(code);
    lemma_round_trip_back(ls, k, n);
    lemma_round_trip_trim(code);
    assert(spec_extract(w, seq![mo], seq![ct]) == body);

    lemma_lines_clean(code);
    lemma_lines_of_cat(ls, k, n);
    assert(spec_lines(body) == ls.subrange(k, n));
}

} // verus!
