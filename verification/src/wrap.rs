//! Wrapping a snippet into a runnable program: when the snippet does not
//! already define an entry point, a leading run of module-level attribute
//! lines is hoisted to the top and the remaining lines are placed inside an
//! entry-point scaffold chosen by the result-handling policy.
//!
//! Entry-point detection is a literal substring check, not a parser; false
//! positives and negatives on contrived inputs are a known limitation.
use vstd::prelude::*;
use vstd::slice::{slice_subrange, slice_to_vec};
use vstd::string::*;

use crate::text::{
    contains, contains_tok, extend, matches_at, spec_lines, spec_starts_with, spec_trim,
    split_lines, trim_bounds, NL,
};
use crate::extract::{extract_relevant_lines, spec_extract};

verus! {

/// What the synthesized entry point does with the value of the snippet's
/// trailing expression.
#[derive(Clone, Copy, Debug)]
pub enum ResultHandling {
    /// Leave the value alone; the service reports an error when it is not
    /// unit.
    NoWrap,
    /// Discard the value.
    Discard,
    /// Print the debug representation of the value.
    Print,
}

/// The literal marker whose presence means the snippet defines its own
/// entry point.
pub open spec fn spec_main_tok() -> Seq<u8> {
    "fn main".spec_bytes()
}

/// The prefix of a module-level attribute line.
pub open spec fn spec_attr_tok() -> Seq<u8> {
    "#![".spec_bytes()
}

/// The opening boilerplate placed before the snippet's lines.
pub open spec fn spec_header(rh: ResultHandling) -> Seq<u8> {
    match rh {
        ResultHandling::NoWrap => "fn main() {\n".spec_bytes(),
        ResultHandling::Discard => "fn main() { let _ = {\n".spec_bytes(),
        ResultHandling::Print => "fn main() { println!(\"{:?}\", {\n".spec_bytes(),
    }
}

/// The closing boilerplate placed after the snippet's lines.
pub open spec fn spec_footer(rh: ResultHandling) -> Seq<u8> {
    match rh {
        ResultHandling::NoWrap => "}".spec_bytes(),
        ResultHandling::Discard => "}; }".spec_bytes(),
        ResultHandling::Print => "}); }".spec_bytes(),
    }
}

/// A line that is blank once trimmed.
pub open spec fn spec_is_blank_line(l: Seq<u8>) -> bool {
    spec_trim(l).len() == 0
}

/// A line that is a module-level attribute once trimmed.
pub open spec fn spec_is_attr_line(l: Seq<u8>) -> bool {
    spec_starts_with(spec_trim(l), spec_attr_tok())
}

/// Index of the first line at or after `i` that is neither a module-level
/// attribute nor blank: the end of the leading run that is scanned for
/// attributes to hoist.
pub open spec fn spec_lead_end(ls: Seq<Seq<u8>>, i: int) -> int
    decreases ls.len() - i,
{
    if 0 <= i < ls.len() && (spec_is_attr_line(ls[i]) || spec_is_blank_line(ls[i])) {
        spec_lead_end(ls, i + 1)
    } else {
        i
    }
}

/// The attribute lines among the first `k` lines, each trimmed, in order,
/// each followed by a line terminator.
pub open spec fn spec_attrs_text(ls: Seq<Seq<u8>>, k: int) -> Seq<u8>
    decreases k,
{
    if k <= 0 {
        Seq::empty()
    } else {
        spec_attrs_text(ls, k - 1) + if spec_is_attr_line(ls[k - 1]) {
            spec_trim(ls[k - 1]) + seq![NL]
        } else {
            Seq::empty()
        }
    }
}

/// The lines `ls[from..to]` joined, each followed by a line terminator.
pub open spec fn spec_cat_lines(ls: Seq<Seq<u8>>, from: int, to: int) -> Seq<u8>
    decreases to - from,
{
    if to <= from {
        Seq::empty()
    } else {
        spec_cat_lines(ls, from, to - 1) + ls[to - 1] + seq![NL]
    }
}

/// The wrapped form of `code`: hoisted attributes, opening boilerplate, the
/// remaining lines, closing boilerplate.
pub open spec fn spec_wrap(code: Seq<u8>, rh: ResultHandling) -> Seq<u8> {
    let ls = spec_lines(code);
    let k = spec_lead_end(ls, 0);
    spec_attrs_text(ls, k) + spec_header(rh) + spec_cat_lines(ls, k, ls.len() as int)
        + spec_footer(rh)
}

/// Whether `maybe_wrap` wraps: only a snippet without the entry-point
/// marker is wrapped.
pub open spec fn spec_wraps(code: Seq<u8>) -> bool {
    !contains_tok(code, spec_main_tok())
}

/// What `maybe_wrap` returns: the snippet itself when it defines an entry
/// point, its wrapped form otherwise.
pub open spec fn spec_maybe_wrap(code: Seq<u8>, rh: ResultHandling) -> Seq<u8> {
    if spec_wraps(code) {
        spec_wrap(code, rh)
    } else {
        code
    }
}

/// The entry-point marker as bytes.
pub fn main_tok() -> (r: &'static [u8])
    ensures
        r@ == spec_main_tok(),
{
    "fn main".as_bytes()
}

fn header_bytes(rh: ResultHandling) -> (r: &'static [u8])
    ensures
        r@ == spec_header(rh),
{
    match rh {
        ResultHandling::NoWrap => "fn main() {\n".as_bytes(),
        ResultHandling::Discard => "fn main() { let _ = {\n".as_bytes(),
        ResultHandling::Print => "fn main() { println!(\"{:?}\", {\n".as_bytes(),
    }
}

fn footer_bytes(rh: ResultHandling) -> (r: &'static [u8])
    ensures
        r@ == spec_footer(rh),
{
    match rh {
        ResultHandling::NoWrap => "}".as_bytes(),
        ResultHandling::Discard => "}; }".as_bytes(),
        ResultHandling::Print => "}); }".as_bytes(),
    }
}

/// Whether the line, trimmed, is a module-level attribute.
fn is_attr_line(l: &[u8]) -> (r: bool)
    ensures
        r == spec_is_attr_line(l@),
{
    let (lo, hi) = trim_bounds(l);
    let tok = "#![".as_bytes();
    if hi - lo >= tok.len() {
        let r = matches_at(l, tok, lo);
        proof {
            assert(spec_trim(l@).subrange(0, tok@.len() as int) =~= l@.subrange(
                lo as int,
                lo + tok@.len(),
            ));
        }
        r
    } else {
        false
    }
}

/// Whether the line is blank once trimmed.
fn is_blank_line(l: &[u8]) -> (r: bool)
    ensures
        r == spec_is_blank_line(l@),
{
    let (lo, hi) = trim_bounds(l);
    hi == lo
}

/// Whether the line belongs to the leading attribute-or-blank run.
fn is_lead_line(l: &[u8]) -> (r: bool)
    ensures
        r == (spec_is_attr_line(l@) || spec_is_blank_line(l@)),
{
    if is_attr_line(l) {
        true
    } else {
        is_blank_line(l)
    }
}

/// Wrap `code` in an entry-point scaffold when it does not already define an
/// entry point, hoisting the leading run of module-level attribute lines to
/// the very top. The flag says whether wrapping happened; when it is false
/// the snippet is returned byte-for-byte unchanged.
pub fn maybe_wrap(code: &[u8], result_handling: ResultHandling) -> (r: (Vec<u8>, bool))
    ensures
        r.0@ == spec_maybe_wrap(code@, result_handling),
        r.1 == spec_wraps(code@),
{
    if contains(code, main_tok()) {
        return (slice_to_vec(code), false);
    }

    let ls = split_lines(code);
    let ghost lsv = ls.deep_view();
    let n = ls.len();
    proof {
        assert forall|j: int| 0 <= j < ls@.len() implies lsv[j] == ls@[j]@ by {
            assert(lsv[j] =~= ls@[j]@);
        }
    }

    // Scan the leading run of attribute or blank lines.
    let mut k: usize = 0;
    while k < n && is_lead_line(ls[k].as_slice())
        invariant
            k <= n,
            n == ls@.len(),
            lsv == ls.deep_view(),
            forall|j: int| 0 <= j < n ==> lsv[j] == ls@[j]@,
            spec_lead_end(lsv, 0) == spec_lead_end(lsv, k as int),
        decreases n - k,
    {
        k += 1;
    }
    proof {
        assert(spec_lead_end(lsv, 0) == k as int);
    }

    let mut out: Vec<u8> = Vec::new();

    // Hoist the attribute lines of the leading run, trimmed, in order.
    let mut i: usize = 0;
    while i < k
        invariant
            i <= k <= n,
            n == ls@.len(),
            lsv == ls.deep_view(),
            forall|j: int| 0 <= j < n ==> lsv[j] == ls@[j]@,
            out@ == spec_attrs_text(lsv, i as int),
        decreases k - i,
    {
        let l = &ls[i];
        if is_attr_line(l.as_slice()) {
            let (lo, hi) = trim_bounds(l.as_slice());
            extend(&mut out, slice_subrange(l.as_slice(), lo, hi));
            out.push(NL);
            proof {
                assert(out@ =~= spec_attrs_text(lsv, i + 1));
            }
        } else {
            proof {
                assert(spec_attrs_text(lsv, i + 1) =~= spec_attrs_text(lsv, i as int));
            }
        }
        i += 1;
    }

    // Opening boilerplate for the chosen policy.
    extend(&mut out, header_bytes(result_handling));
    let ghost pre = spec_attrs_text(lsv, k as int) + spec_header(result_handling);

    // The remaining lines, verbatim.
    let mut i: usize = k;
    proof {
        assert(out@ =~= pre + spec_cat_lines(lsv, k as int, k as int));
    }
    while i < n
        invariant
            k <= i <= n,
            n == ls@.len(),
            lsv == ls.deep_view(),
            forall|j: int| 0 <= j < n ==> lsv[j] == ls@[j]@,
            out@ == pre + spec_cat_lines(lsv, k as int, i as int),
        decreases n - i,
    {
        extend(&mut out, ls[i].as_slice());
        out.push(NL);
        proof {
            assert(out@ =~= pre + spec_cat_lines(lsv, k as int, i + 1));
        }
        i += 1;
    }

    // Closing boilerplate.
    extend(&mut out, footer_bytes(result_handling));
    proof {
        assert(out@ =~= spec_wrap(code@, result_handling));
    }
    (out, true)
}

/// The opening boilerplate line as it appears in formatted output.
pub open spec fn spec_main_open_tok() -> Seq<u8> {
    "fn main() {".spec_bytes()
}

/// The closing brace that ends the boilerplate.
pub open spec fn spec_close_tok() -> Seq<u8> {
    "}".spec_bytes()
}

/// The one level of indentation that formatting introduces inside the
/// entry-point scaffold.
pub open spec fn spec_indent_tok() -> Seq<u8> {
    "    ".spec_bytes()
}

/// A line with one leading level of indentation removed, if present.
pub open spec fn spec_deindent(l: Seq<u8>) -> Seq<u8> {
    if spec_starts_with(l, spec_indent_tok()) {
        l.skip(spec_indent_tok().len() as int)
    } else {
        l
    }
}

/// The first `k` lines, each de-indented by one level where indented, each
/// followed by a line terminator.
pub open spec fn spec_deindent_cat(ls: Seq<Seq<u8>>, k: int) -> Seq<u8>
    decreases k,
{
    if k <= 0 {
        Seq::empty()
    } else {
        spec_deindent_cat(ls, k - 1) + spec_deindent(ls[k - 1]) + seq![NL]
    }
}

/// What stripping the entry-point boilerplate from formatted output returns:
/// the lines between the opening boilerplate and the final closing brace,
/// each with the one introduced indentation level removed.
pub open spec fn spec_strip_boilerplate(t: Seq<u8>) -> Seq<u8> {
    let e = spec_extract(t, seq![spec_main_open_tok()], seq![spec_close_tok()]);
    spec_deindent_cat(spec_lines(e), spec_lines(e).len() as int)
}

/// Remove the entry-point boilerplate from formatted output and revert the
/// indentation that formatting introduced inside it.
pub fn strip_fn_main_boilerplate_from_formatted(text: &[u8]) -> (r: Vec<u8>)
    ensures
        r@ == spec_strip_boilerplate(text@),
{
    let mut starts: Vec<Vec<u8>> = Vec::new();
    starts.push("fn main() {".as_bytes_vec());
    let mut ends: Vec<Vec<u8>> = Vec::new();
    ends.push("}".as_bytes_vec());
    proof {
        assert(starts.deep_view() =~~= seq![spec_main_open_tok()]);
        assert(ends.deep_view() =~~= seq![spec_close_tok()]);
    }
    let e = extract_relevant_lines(text, &starts, &ends);

    let ls = split_lines(e.as_slice());
    let ghost lsv = ls.deep_view();
    let n = ls.len();
    proof {
        assert forall|j: int| 0 <= j < ls@.len() implies lsv[j] == ls@[j]@ by {
            assert(lsv[j] =~= ls@[j]@);
        }
    }
    let ind = "    ".as_bytes();
    let mut out: Vec<u8> = Vec::new();
    let mut i: usize = 0;
    while i < n
        invariant
            i <= n,
            n == ls@.len(),
            lsv == ls.deep_view(),
            forall|j: int| 0 <= j < n ==> lsv[j] == ls@[j]@,
            ind@ == spec_indent_tok(),
            out@ == spec_deindent_cat(lsv, i as int),
        decreases n - i,
    {
        let l = ls[i].as_slice();
        if l.len() >= ind.len() && matches_at(l, ind, 0) {
            extend(&mut out, slice_subrange(l, ind.len(), l.len()));
        } else {
            extend(&mut out, l);
        }
        out.push(NL);
        proof {
            assert(out@ =~= spec_deindent_cat(lsv, i + 1));
        }
        i += 1;
    }
    proof {
        assert(lsv == spec_lines(e@));
    }
    out
}

} // verus!
