//! The benchmark command: discover the public functions of the snippet by
//! literal scanning, synthesize a harness that runs them interleaved in
//! chunks, and force the channel and mode the harness needs.
use vstd::prelude::*;
use vstd::string::*;
use vstd::utf8::is_ascii_chars;

use crate::flags::{parse_flags, spec_flag_errors, spec_flags, Channel, Mode};
use crate::playground::{crate_type_of, spec_crate_type, PlaygroundRequest, PlayTask};
use crate::text::{
    contains, contains_tok, copy_range, extend, find_byte_from, find_from, lemma_find_byte_from,
    lemma_find_from, occurs_at, spec_find_byte_from, spec_find_from, spec_trim, trim_bounds,
};
use vstd::slice::slice_subrange;

verus! {

/// The marker a public function definition is discovered by.
pub open spec fn spec_pub_fn_tok() -> Seq<u8> {
    "pub fn ".spec_bytes()
}

/// The byte that ends a discovered function name.
pub const OPEN_PAREN: u8 = 40;

/// The marker token is seven bytes long.
pub proof fn lemma_pub_fn_tok_len()
    ensures
        spec_pub_fn_tok().len() == 7,
{
    reveal_strlit("pub fn ");
    assert(is_ascii_chars("pub fn "@));
    vstd::utf8::is_ascii_chars_encode_utf8("pub fn "@);
}

/// The start indices of the non-overlapping occurrences of `tok` in `t` at
/// or after `i`, scanning from the left.
pub open spec fn spec_occurrences(t: Seq<u8>, tok: Seq<u8>, i: int) -> Seq<int>
    decreases t.len() - i + 1,
{
    if tok.len() == 0 || i < 0 {
        Seq::empty()
    } else {
        match spec_find_from(t, tok, i) {
            Option::Some(p) => if i <= p && p + tok.len() <= t.len() {
                seq![p] + spec_occurrences(t, tok, p + tok.len())
            } else {
                // cannot happen: a found occurrence lies inside the text
                Seq::empty()
            },
            Option::None => Seq::empty(),
        }
    }
}

/// Every listed occurrence lies inside the text, at or after `i`.
pub proof fn lemma_occurrences_bounds(t: Seq<u8>, tok: Seq<u8>, i: int)
    requires
        0 <= i,
        tok.len() > 0,
    ensures
        forall|j: int|
            0 <= j < spec_occurrences(t, tok, i).len() ==> i <= #[trigger] spec_occurrences(
                t,
                tok,
                i,
            )[j] && spec_occurrences(t, tok, i)[j] + tok.len() <= t.len(),
    decreases t.len() - i + 1,
{
    lemma_find_from(t, tok, i);
    match spec_find_from(t, tok, i) {
        Option::Some(p) => {
            lemma_occurrences_bounds(t, tok, p + tok.len() as int);
            let occs = spec_occurrences(t, tok, i);
            let rest = spec_occurrences(t, tok, p + tok.len());
            assert forall|j: int|
                0 <= j < occs.len() implies i <= #[trigger] occs[j] && occs[j] + tok.len()
                <= t.len() by {
                if j == 0 {
                    assert(occs[0] == p);
                } else {
                    assert(occs[j] == rest[j - 1]);
                }
            }
        },
        Option::None => {},
    }
}

/// Collect the non-overlapping occurrences of `tok` in `t` from the left.
fn find_all(t: &[u8], tok: &[u8]) -> (r: Vec<usize>)
    requires
        tok@.len() > 0,
    ensures
        r@.map_values(|x: usize| x as int) == spec_occurrences(t@, tok@, 0),
        forall|j: int| 0 <= j < r@.len() ==> #[trigger] r@[j] + tok@.len() <= t@.len(),
{
    let tlen = t.len();
    let mut r: Vec<usize> = Vec::new();
    let mut i: usize = 0;
    proof {
        assert(tlen == t@.len());
        assert(r@.map_values(|x: usize| x as int) + spec_occurrences(t@, tok@, 0)
            =~= spec_occurrences(t@, tok@, 0));
    }
    loop
        invariant
            tok@.len() > 0,
            i <= t@.len() + tok@.len(),
            spec_occurrences(t@, tok@, 0) == r@.map_values(|x: usize| x as int)
                + spec_occurrences(t@, tok@, i as int),
            forall|j: int| 0 <= j < r@.len() ==> #[trigger] r@[j] + tok@.len() <= t@.len(),
        decreases t@.len() - i + 1,
    {
        let ghost prev = r@.map_values(|x: usize| x as int);
        match find_from(t, tok, i) {
            Some(p) => {
                proof {
                    lemma_find_from(t@, tok@, i as int);
                    assert(occurs_at(t@, tok@, p as int));
                    assert(p + tok@.len() <= t@.len());
                }
                r.push(p);
                proof {
                    assert(r@.map_values(|x: usize| x as int) =~= prev.push(p as int));
                    assert(prev + spec_occurrences(t@, tok@, i as int) =~= r@.map_values(
                        |x: usize| x as int,
                    ) + spec_occurrences(t@, tok@, p + tok@.len()));
                }
                i = p + tok.len();
            },
            None => {
                proof {
                    assert(prev + spec_occurrences(t@, tok@, i as int) =~= prev);
                }
                return r;
            },
        }
    }
}

/// The names of the discovered functions: for each occurrence, the trimmed
/// text between the marker and the next opening parenthesis; an occurrence
/// with no parenthesis after it is skipped.
pub open spec fn spec_bench_names(t: Seq<u8>, occs: Seq<int>) -> Seq<Seq<u8>>
    decreases occs.len(),
{
    if occs.len() == 0 {
        Seq::empty()
    } else {
        let ns = occs[0] + spec_pub_fn_tok().len();
        let rest = spec_bench_names(t, occs.drop_first());
        match spec_find_byte_from(t, OPEN_PAREN, ns) {
            Option::Some(e) => if ns <= e <= t.len() {
                seq![spec_trim(t.subrange(ns, e))] + rest
            } else {
                // cannot happen: a found index lies inside the text
                rest
            },
            Option::None => rest,
        }
    }
}

/// Collect the discovered function names for the given occurrences.
fn bench_names(t: &[u8], occs: &Vec<usize>) -> (r: Vec<Vec<u8>>)
    requires
        forall|j: int|
            0 <= j < occs@.len() ==> #[trigger] occs@[j] + spec_pub_fn_tok().len() <= t@.len(),
    ensures
        r.deep_view() == spec_bench_names(t@, occs@.map_values(|x: usize| x as int)),
{
    let ghost occ_ints = occs@.map_values(|x: usize| x as int);
    let tlen = t.len();
    let tok_len = "pub fn ".as_bytes().len();
    let n = occs.len();
    let mut r: Vec<Vec<u8>> = Vec::new();
    proof {
        assert(occ_ints.skip(0) =~= occ_ints);
        assert(r.deep_view() + spec_bench_names(t@, occ_ints) =~~= spec_bench_names(
            t@,
            occ_ints,
        ));
    }
    let mut j: usize = 0;
    while j < n
        invariant
            j <= n,
            n == occs@.len(),
            tok_len == spec_pub_fn_tok().len(),
            occ_ints == occs@.map_values(|x: usize| x as int),
            forall|m: int|
                0 <= m < occs@.len() ==> #[trigger] occs@[m] + spec_pub_fn_tok().len()
                    <= t@.len(),
            spec_bench_names(t@, occ_ints) == r.deep_view() + spec_bench_names(
                t@,
                occ_ints.skip(j as int),
            ),
        decreases n - j,
    {
        let ghost prev = r.deep_view();
        proof {
            assert(occ_ints.skip(j as int)[0] == occ_ints[j as int]);
            assert(occ_ints.skip(j as int).drop_first() =~= occ_ints.skip(j + 1));
        }
        proof {
            assert(occs@[j as int] + spec_pub_fn_tok().len() <= t@.len());
        }
        let ns = occs[j] + tok_len;
        match find_byte_from(t, OPEN_PAREN, ns) {
            Some(e) => {
                proof {
                    lemma_find_byte_from(t@, OPEN_PAREN, ns as int);
                }
                let sub = slice_subrange(t, ns, e);
                let (lo, hi) = trim_bounds(sub);
                let name = copy_range(sub, lo, hi);
                proof {
                    assert(name@ == spec_trim(t@.subrange(ns as int, e as int)));
                }
                r.push(name);
                proof {
                    assert(r.deep_view() =~~= prev.push(name@));
                    assert(prev + spec_bench_names(t@, occ_ints.skip(j as int)) =~~= r.deep_view()
                        + spec_bench_names(t@, occ_ints.skip(j + 1)));
                }
            },
            None => {
                proof {
                    assert(prev + spec_bench_names(t@, occ_ints.skip(j as int)) =~~= prev
                        + spec_bench_names(t@, occ_ints.skip(j + 1)));
                }
            },
        }
        j += 1;
    }
    proof {
        assert(occ_ints.skip(n as int) =~= Seq::<int>::empty());
        assert(r.deep_view() + spec_bench_names(t@, occ_ints.skip(n as int)) =~~= r.deep_view());
    }
    r
}


/// The convenience import placed above the snippet.
pub open spec fn spec_bench_prelude() -> Seq<u8> {
    "#![feature(test)] #[allow(unused_imports)] use std::hint::black_box;\n".spec_bytes()
}

/// The harness placed below the snippet: it warms each discovered function
/// up, runs the functions interleaved in fixed-size chunks for a fixed time,
/// and prints the mean and standard deviation for each.
pub const BENCH_HARNESS: &'static str = "
fn bench(functions: &[(&str, fn())]) {
    const CHUNK_SIZE: usize = 10000;

    // Warm up
    for (_, function) in functions.iter() {
        for _ in 0..CHUNK_SIZE {
            (function)();
        }
    }

    let mut functions_chunk_times = functions.iter().map(|_| Vec::new()).collect::<Vec<_>>();

    let start = std::time::Instant::now();
    while (std::time::Instant::now() - start).as_secs() < 5 {
        for (chunk_times, (_, function)) in functions_chunk_times.iter_mut().zip(functions) {
            let start = std::time::Instant::now();
            for _ in 0..CHUNK_SIZE {
                (function)();
            }
            chunk_times.push((std::time::Instant::now() - start).as_secs_f64() / CHUNK_SIZE as f64);
        }
    }

    for (chunk_times, (function_name, _)) in functions_chunk_times.iter().zip(functions) {
        let mean_time: f64 = chunk_times.iter().sum::<f64>() / chunk_times.len() as f64;
        let standard_deviation: f64 = f64::sqrt(
            chunk_times
                .iter()
                .map(|time| (time - mean_time).powi(2))
                .sum::<f64>()
                / chunk_times.len() as f64,
        );

        println!(
            \"{}: {:.0} iters per second ({:.1}ns\u{b1}{:.1})\",
            function_name,
            1.0 / mean_time,
            mean_time * 1_000_000_000.0,
            standard_deviation * 1_000_000_000.0,
        );
    }
}

fn main() {
";

/// The text that opens the list of discovered functions inside the
/// synthesized entry point.
pub open spec fn spec_bench_list_open() -> Seq<u8> {
    "bench(&[".spec_bytes()
}

/// The text that closes the list and the entry point.
pub open spec fn spec_bench_list_close() -> Seq<u8> {
    "]);\n}\n".spec_bytes()
}

/// The first `k` discovered names rendered as list entries, each a pair of
/// the quoted name and the name itself.
pub open spec fn spec_bench_pairs(names: Seq<Seq<u8>>, k: int) -> Seq<u8>
    decreases k,
{
    if k <= 0 {
        Seq::empty()
    } else {
        spec_bench_pairs(names, k - 1) + "(\"".spec_bytes() + names[k - 1] + "\", ".spec_bytes()
            + names[k - 1] + "), ".spec_bytes()
    }
}

/// The names the benchmark command discovers in the snippet.
pub open spec fn spec_bench_names_of(user: Seq<u8>) -> Seq<Seq<u8>> {
    spec_bench_names(user, spec_occurrences(user, spec_pub_fn_tok(), 0))
}

/// The complete program the benchmark command submits: import, snippet,
/// harness, and the synthesized entry point listing the discovered names.
pub open spec fn spec_bench_code(user: Seq<u8>) -> Seq<u8> {
    let names = spec_bench_names_of(user);
    spec_bench_prelude() + user + BENCH_HARNESS.spec_bytes() + spec_bench_list_open()
        + spec_bench_pairs(names, names.len() as int) + spec_bench_list_close()
}

/// The hint appended when the snippet never names the optimization barrier.
pub open spec fn spec_black_box_hint() -> Seq<u8> {
    "Hint: use the black_box function to prevent computations from being optimized out\n".spec_bytes()
}

/// The message sent when no public function was discovered.
pub open spec fn spec_no_candidates_msg() -> Seq<u8> {
    "No public functions found for benchmarking :thinking:".spec_bytes()
}

/// The diagnostics the benchmark command sends ahead of its output: the
/// modifier errors, then the barrier hint where it applies.
pub open spec fn spec_bench_errors(params: Seq<(Vec<u8>, Vec<u8>)>, user: Seq<u8>) -> Seq<u8> {
    spec_flag_errors(params) + if !contains_tok(user, "black_box".spec_bytes()) {
        spec_black_box_hint()
    } else {
        Seq::empty()
    }
}

/// The benchmark command. It discovers the public functions of the snippet;
/// with none found it aborts with a user-visible message and no request is
/// built. Otherwise it submits the synthesized program, forcing the nightly
/// channel (the optimization barrier needs it) and release mode (a debug
/// benchmark means nothing), whatever the modifiers asked.
pub fn micro_bench(body: &[u8], params: &Vec<(Vec<u8>, Vec<u8>)>) -> (r: Result<
    PlayTask,
    Vec<u8>,
>)
    ensures
        match r {
            Ok(task) => {
                &&& spec_occurrences(body@, spec_pub_fn_tok(), 0).len() > 0
                &&& task.request.code@ == spec_bench_code(body@)
                &&& task.request.channel == Channel::Nightly
                &&& task.request.mode == Mode::Release
                &&& task.request.edition == spec_flags(params@).edition
                &&& task.request.crate_type == spec_crate_type(spec_bench_code(body@))
                &&& task.request.tests == false
                &&& task.flags == spec_flags(params@)
                &&& task.flag_parse_errors@ == spec_bench_errors(params@, body@)
            },
            Err(m) => {
                &&& spec_occurrences(body@, spec_pub_fn_tok(), 0).len() == 0
                &&& m@ == spec_no_candidates_msg()
            },
        },
{
    let pub_fn = "pub fn ".as_bytes();
    proof {
        lemma_pub_fn_tok_len();
    }
    let occs = find_all(body, pub_fn);
    if occs.len() == 0 {
        proof {
            assert(occs@.map_values(|x: usize| x as int).len() == 0);
        }
        return Err("No public functions found for benchmarking :thinking:".as_bytes_vec());
    }
    let names = bench_names(body, &occs);
    let ghost namesv = names.deep_view();
    proof {
        assert forall|j: int| 0 <= j < names@.len() implies namesv[j] == names@[j]@ by {
            assert(namesv[j] =~= names@[j]@);
        }
        assert(namesv == spec_bench_names_of(body@));
    }

    let mut code = "#![feature(test)] #[allow(unused_imports)] use std::hint::black_box;\n".as_bytes_vec();
    extend(&mut code, body);
    extend(&mut code, BENCH_HARNESS.as_bytes());
    extend(&mut code, "bench(&[".as_bytes());
    let ghost pre = spec_bench_prelude() + body@ + BENCH_HARNESS.spec_bytes()
        + spec_bench_list_open();
    proof {
        assert(code@ =~= pre + spec_bench_pairs(namesv, 0));
    }
    let m = names.len();
    let mut k: usize = 0;
    while k < m
        invariant
            k <= m,
            m == names@.len(),
            namesv == names.deep_view(),
            forall|j: int| 0 <= j < m ==> namesv[j] == names@[j]@,
            code@ == pre + spec_bench_pairs(namesv, k as int),
        decreases m - k,
    {
        extend(&mut code, "(\"".as_bytes());
        extend(&mut code, names[k].as_slice());
        extend(&mut code, "\", ".as_bytes());
        extend(&mut code, names[k].as_slice());
        extend(&mut code, "), ".as_bytes());
        proof {
            assert(code@ =~= pre + spec_bench_pairs(namesv, k + 1));
        }
        k += 1;
    }
    extend(&mut code, "]);\n}\n".as_bytes());
    proof {
        assert(code@ =~= spec_bench_code(body@));
    }

    let black_box_hint = !contains(body, "black_box".as_bytes());
    let (flags, mut flag_parse_errors) = parse_flags(params);
    if black_box_hint {
        extend(
            &mut flag_parse_errors,
            "Hint: use the black_box function to prevent computations from being optimized out\n".as_bytes(),
        );
    }
    proof {
        assert(flag_parse_errors@ =~= spec_bench_errors(params@, body@));
    }
    let crate_type = crate_type_of(code.as_slice());
    Ok(PlayTask {
        request: PlaygroundRequest {
            channel: Channel::Nightly,
            edition: flags.edition,
            code,
            crate_type,
            mode: Mode::Release,
            tests: false,
        },
        flags,
        flag_parse_errors,
    })
}

} // verus!
