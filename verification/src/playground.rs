//! The per-command half of the service client: each command wraps the
//! snippet with the policy its tool needs, parses the modifiers, and builds
//! the fixed-shape request for its endpoint; after the service replies, a
//! per-tool shaping step carves the relevant lines out of the raw output.
//!
//! Posting the request and decoding the response are I/O and live outside
//! this crate; everything here is the computation on either side of that
//! call.
use vstd::prelude::*;
use vstd::string::*;

use crate::extract::{extract_relevant_lines, spec_extract};
use crate::flags::{
    parse_flags, spec_flag_errors, spec_flags, Channel, CommandFlags, Edition, Mode,
};
use crate::reply::PlayResult;
use crate::text::{contains, contains_tok};
use crate::wrap::{
    main_tok, maybe_wrap, spec_main_tok, spec_maybe_wrap, spec_strip_boilerplate, spec_wraps,
    strip_fn_main_boilerplate_from_formatted, ResultHandling,
};

verus! {

/// Whether the service builds the code as a standalone program or as a
/// library: a program exactly when the code defines an entry point.
#[derive(Clone, Copy, PartialEq, Eq, Structural, Debug)]
pub enum CrateType {
    Binary,
    Library,
}

/// The crate type the service is asked for.
pub open spec fn spec_crate_type(code: Seq<u8>) -> CrateType {
    if contains_tok(code, spec_main_tok()) {
        CrateType::Binary
    } else {
        CrateType::Library
    }
}

/// The crate type for `code`.
pub fn crate_type_of(code: &[u8]) -> (r: CrateType)
    ensures
        r == spec_crate_type(code@),
{
    if contains(code, main_tok()) {
        CrateType::Binary
    } else {
        CrateType::Library
    }
}

/// The request body of the execution endpoint.
#[derive(Debug)]
pub struct PlaygroundRequest {
    pub channel: Channel,
    pub edition: Edition,
    pub code: Vec<u8>,
    pub crate_type: CrateType,
    pub mode: Mode,
    pub tests: bool,
}

/// The request body of the interpreter endpoint; the macro-expansion
/// endpoint takes the same fields.
#[derive(Debug)]
pub struct MiriRequest {
    pub edition: Edition,
    pub code: Vec<u8>,
}

/// The request body of the lint endpoint.
#[derive(Debug)]
pub struct ClippyRequest {
    pub edition: Edition,
    pub crate_type: CrateType,
    pub code: Vec<u8>,
}

/// What a command hands to the caller for the execution endpoint: the
/// request, plus the parsed configuration and diagnostics the reply needs.
#[derive(Debug)]
pub struct PlayTask {
    pub request: PlaygroundRequest,
    pub flags: CommandFlags,
    pub flag_parse_errors: Vec<u8>,
}

/// The contract every task built for the execution endpoint from `body` and
/// `params` meets, given the wrapping policy.
pub open spec fn spec_play_task_ok(
    r: PlayTask,
    body: Seq<u8>,
    params: Seq<(Vec<u8>, Vec<u8>)>,
    rh: ResultHandling,
) -> bool {
    &&& r.request.code@ == spec_maybe_wrap(body, rh)
    &&& r.request.channel == spec_flags(params).channel
    &&& r.request.edition == spec_flags(params).edition
    &&& r.request.mode == spec_flags(params).mode
    &&& r.request.crate_type == spec_crate_type(spec_maybe_wrap(body, rh))
    &&& r.request.tests == false
    &&& r.flags == spec_flags(params)
    &&& r.flag_parse_errors@ == spec_flag_errors(params)
}

/// Build the execution request for a snippet: wrap it with the given policy
/// and take channel, mode and edition from the modifiers.
pub fn play_or_eval(
    body: &[u8],
    params: &Vec<(Vec<u8>, Vec<u8>)>,
    result_handling: ResultHandling,
) -> (r: PlayTask)
    ensures
        spec_play_task_ok(r, body@, params@, result_handling),
{
    let (code, _) = maybe_wrap(body, result_handling);
    let (flags, flag_parse_errors) = parse_flags(params);
    let crate_type = crate_type_of(code.as_slice());
    PlayTask {
        request: PlaygroundRequest {
            channel: flags.channel,
            edition: flags.edition,
            code,
            crate_type,
            mode: flags.mode,
            tests: false,
        },
        flags,
        flag_parse_errors,
    }
}

/// The run command: results are left alone, so a snippet with a non-unit
/// trailing expression fails to compile.
pub fn play(body: &[u8], params: &Vec<(Vec<u8>, Vec<u8>)>) -> (r: PlayTask)
    ensures
        spec_play_task_ok(r, body@, params@, ResultHandling::NoWrap),
{
    play_or_eval(body, params, ResultHandling::NoWrap)
}

/// The evaluate command: the trailing expression's debug representation is
/// printed.
pub fn eval(body: &[u8], params: &Vec<(Vec<u8>, Vec<u8>)>) -> (r: PlayTask)
    ensures
        spec_play_task_ok(r, body@, params@, ResultHandling::Print),
{
    play_or_eval(body, params, ResultHandling::Print)
}

/// The marker lists for the compiler-warning region of run output.
pub open spec fn spec_play_warn_starts() -> Seq<Seq<u8>> {
    seq!["Compiling playground".spec_bytes()]
}

pub open spec fn spec_play_warn_ends() -> Seq<Seq<u8>> {
    seq![
        "warning emitted".spec_bytes(),
        "warnings emitted".spec_bytes(),
        "error: aborting".spec_bytes(),
        "Finished ".spec_bytes(),
    ]
}

/// The marker that opens the program's own error-stream region.
pub open spec fn spec_run_tok() -> Seq<u8> {
    "Running `target".spec_bytes()
}

/// The shaped error stream of run output: the compiler-warning region and,
/// when the program ran, the program's own error output, joined by one line
/// terminator when both are present.
pub open spec fn spec_play_eval_stderr(stderr: Seq<u8>) -> Seq<u8> {
    let warnings = spec_extract(stderr, spec_play_warn_starts(), spec_play_warn_ends());
    let program = if contains_tok(stderr, spec_run_tok()) {
        spec_extract(stderr, seq![spec_run_tok()], Seq::empty())
    } else {
        Seq::empty()
    };
    if warnings.len() == 0 {
        program
    } else if program.len() == 0 {
        warnings
    } else {
        warnings + seq![crate::text::NL] + program
    }
}

/// Shape the error stream of run output: keep the compiler warnings and the
/// program's own error output, and drop the surrounding build noise.
pub fn format_play_eval_stderr(result: &mut PlayResult)
    ensures
        final(result).stderr@ == spec_play_eval_stderr(old(result).stderr@),
        final(result).stdout == old(result).stdout,
        final(result).success == old(result).success,
{
    let mut warn_starts: Vec<Vec<u8>> = Vec::new();
    warn_starts.push("Compiling playground".as_bytes_vec());
    let mut warn_ends: Vec<Vec<u8>> = Vec::new();
    warn_ends.push("warning emitted".as_bytes_vec());
    warn_ends.push("warnings emitted".as_bytes_vec());
    warn_ends.push("error: aborting".as_bytes_vec());
    warn_ends.push("Finished ".as_bytes_vec());
    proof {
        assert(warn_starts.deep_view() =~~= spec_play_warn_starts());
        assert(warn_ends.deep_view() =~~= spec_play_warn_ends());
    }
    let warnings = extract_relevant_lines(result.stderr.as_slice(), &warn_starts, &warn_ends);

    let program: Vec<u8> = if contains(result.stderr.as_slice(), "Running `target".as_bytes()) {
        let mut run_starts: Vec<Vec<u8>> = Vec::new();
        run_starts.push("Running `target".as_bytes_vec());
        let run_ends: Vec<Vec<u8>> = Vec::new();
        proof {
            assert(run_starts.deep_view() =~~= seq![spec_run_tok()]);
            assert(run_ends.deep_view() =~~= Seq::<Seq<u8>>::empty());
        }
        extract_relevant_lines(result.stderr.as_slice(), &run_starts, &run_ends)
    } else {
        Vec::new()
    };

    if warnings.len() == 0 {
        result.stderr = program;
    } else if program.len() == 0 {
        result.stderr = warnings;
    } else {
        let mut merged = warnings;
        merged.push(crate::text::NL);
        let mut tail = program;
        crate::text::extend(&mut merged, tail.as_slice());
        result.stderr = merged;
        proof {
            assert(final(result).stderr@ =~= spec_play_eval_stderr(old(result).stderr@));
        }
    }
}

/// What a command hands to the caller for the interpreter or
/// macro-expansion endpoint.
#[derive(Debug)]
pub struct MiriTask {
    pub request: MiriRequest,
    pub was_wrapped: bool,
    pub flags: CommandFlags,
    pub flag_parse_errors: Vec<u8>,
}

/// The contract every task built for an edition-and-code endpoint meets.
pub open spec fn spec_miri_task_ok(
    r: MiriTask,
    body: Seq<u8>,
    params: Seq<(Vec<u8>, Vec<u8>)>,
    rh: ResultHandling,
) -> bool {
    &&& r.request.code@ == spec_maybe_wrap(body, rh)
    &&& r.request.edition == spec_flags(params).edition
    &&& r.was_wrapped == spec_wraps(body)
    &&& r.flags == spec_flags(params)
    &&& r.flag_parse_errors@ == spec_flag_errors(params)
}

/// The interpreter command: the snippet runs under the interpreter to
/// detect certain cases of undefined behavior; its trailing expression is
/// discarded.
pub fn miri(body: &[u8], params: &Vec<(Vec<u8>, Vec<u8>)>) -> (r: MiriTask)
    ensures
        spec_miri_task_ok(r, body@, params@, ResultHandling::Discard),
{
    let (code, was_wrapped) = maybe_wrap(body, ResultHandling::Discard);
    let (flags, flag_parse_errors) = parse_flags(params);
    MiriTask {
        request: MiriRequest { edition: flags.edition, code },
        was_wrapped,
        flags,
        flag_parse_errors,
    }
}

/// The shaped error stream of interpreter output.
pub open spec fn spec_miri_stderr(stderr: Seq<u8>) -> Seq<u8> {
    spec_extract(
        stderr,
        seq!["Running `/playground".spec_bytes()],
        seq!["error: aborting".spec_bytes()],
    )
}

/// Shape the error stream of interpreter output: keep what lies between the
/// run banner and the abort line.
pub fn format_miri_stderr(result: &mut PlayResult)
    ensures
        final(result).stderr@ == spec_miri_stderr(old(result).stderr@),
        final(result).stdout == old(result).stdout,
        final(result).success == old(result).success,
{
    let mut starts: Vec<Vec<u8>> = Vec::new();
    starts.push("Running `/playground".as_bytes_vec());
    let mut ends: Vec<Vec<u8>> = Vec::new();
    ends.push("error: aborting".as_bytes_vec());
    proof {
        assert(starts.deep_view() =~~= seq!["Running `/playground".spec_bytes()]);
        assert(ends.deep_view() =~~= seq!["error: aborting".spec_bytes()]);
    }
    result.stderr = extract_relevant_lines(result.stderr.as_slice(), &starts, &ends);
}

/// The macro-expansion command: the snippet is wrapped without consuming
/// its trailing expression, and the expansion arrives on the output stream.
pub fn expand_macros(body: &[u8], params: &Vec<(Vec<u8>, Vec<u8>)>) -> (r: MiriTask)
    ensures
        spec_miri_task_ok(r, body@, params@, ResultHandling::NoWrap),
{
    let (code, was_wrapped) = maybe_wrap(body, ResultHandling::NoWrap);
    let (flags, flag_parse_errors) = parse_flags(params);
    MiriTask {
        request: MiriRequest { edition: flags.edition, code },
        was_wrapped,
        flags,
        flag_parse_errors,
    }
}

/// The shaped error stream of macro-expansion output.
pub open spec fn spec_expand_stderr(stderr: Seq<u8>) -> Seq<u8> {
    spec_extract(
        stderr,
        seq!["Finished ".spec_bytes(), "Compiling playground".spec_bytes()],
        seq!["error: aborting".spec_bytes()],
    )
}

/// Shape the error stream of macro-expansion output.
pub fn format_expand_stderr(result: &mut PlayResult)
    ensures
        final(result).stderr@ == spec_expand_stderr(old(result).stderr@),
        final(result).stdout == old(result).stdout,
        final(result).success == old(result).success,
{
    let mut starts: Vec<Vec<u8>> = Vec::new();
    starts.push("Finished ".as_bytes_vec());
    starts.push("Compiling playground".as_bytes_vec());
    let mut ends: Vec<Vec<u8>> = Vec::new();
    ends.push("error: aborting".as_bytes_vec());
    proof {
        assert(starts.deep_view() =~~= seq![
            "Finished ".spec_bytes(),
            "Compiling playground".spec_bytes(),
        ]);
        assert(ends.deep_view() =~~= seq!["error: aborting".spec_bytes()]);
    }
    result.stderr = extract_relevant_lines(result.stderr.as_slice(), &starts, &ends);
}

/// When the snippet was wrapped, remove the synthesized boilerplate from the
/// (formatted) output stream again; otherwise leave the result alone.
pub fn strip_if_wrapped(result: &mut PlayResult, was_wrapped: bool)
    ensures
        final(result).stdout@ == if was_wrapped {
            spec_strip_boilerplate(old(result).stdout@)
        } else {
            old(result).stdout@
        },
        final(result).stderr == old(result).stderr,
        final(result).success == old(result).success,
{
    if was_wrapped {
        result.stdout = strip_fn_main_boilerplate_from_formatted(result.stdout.as_slice());
    }
}

/// What a command hands to the caller for the lint endpoint.
#[derive(Debug)]
pub struct ClippyTask {
    pub request: ClippyRequest,
    pub flags: CommandFlags,
    pub flag_parse_errors: Vec<u8>,
}

/// The lint command: the snippet's trailing expression is discarded, and
/// the crate type follows from the wrapped code.
pub fn clippy(body: &[u8], params: &Vec<(Vec<u8>, Vec<u8>)>) -> (r: ClippyTask)
    ensures
        r.request.code@ == spec_maybe_wrap(body@, ResultHandling::Discard),
        r.request.edition == spec_flags(params@).edition,
        r.request.crate_type == spec_crate_type(
            spec_maybe_wrap(body@, ResultHandling::Discard),
        ),
        r.flags == spec_flags(params@),
        r.flag_parse_errors@ == spec_flag_errors(params@),
{
    let (code, _) = maybe_wrap(body, ResultHandling::Discard);
    let (flags, flag_parse_errors) = parse_flags(params);
    let crate_type = crate_type_of(code.as_slice());
    ClippyTask {
        request: ClippyRequest { edition: flags.edition, crate_type, code },
        flags,
        flag_parse_errors,
    }
}

/// The shaped error stream of lint output.
pub open spec fn spec_clippy_stderr(stderr: Seq<u8>) -> Seq<u8> {
    spec_extract(
        stderr,
        seq!["Checking playground".spec_bytes(), "Running `/playground".spec_bytes()],
        seq![
            "error: aborting".spec_bytes(),
            "1 warning emitted".spec_bytes(),
            "warnings emitted".spec_bytes(),
            "Finished ".spec_bytes(),
        ],
    )
}

/// Shape the error stream of lint output.
pub fn format_clippy_stderr(result: &mut PlayResult)
    ensures
        final(result).stderr@ == spec_clippy_stderr(old(result).stderr@),
        final(result).stdout == old(result).stdout,
        final(result).success == old(result).success,
{
    let mut starts: Vec<Vec<u8>> = Vec::new();
    starts.push("Checking playground".as_bytes_vec());
    starts.push("Running `/playground".as_bytes_vec());
    let mut ends: Vec<Vec<u8>> = Vec::new();
    ends.push("error: aborting".as_bytes_vec());
    ends.push("1 warning emitted".as_bytes_vec());
    ends.push("warnings emitted".as_bytes_vec());
    ends.push("Finished ".as_bytes_vec());
    proof {
        assert(starts.deep_view() =~~= seq![
            "Checking playground".spec_bytes(),
            "Running `/playground".spec_bytes(),
        ]);
        assert(ends.deep_view() =~~= seq![
            "error: aborting".spec_bytes(),
            "1 warning emitted".spec_bytes(),
            "warnings emitted".spec_bytes(),
            "Finished ".spec_bytes(),
        ]);
    }
    result.stderr = extract_relevant_lines(result.stderr.as_slice(), &starts, &ends);
}

/// What the format command hands to the caller: the code for the local
/// formatting tool, and whether boilerplate must be stripped afterwards.
#[derive(Debug)]
pub struct FmtTask {
    pub code: Vec<u8>,
    pub was_wrapped: bool,
    pub flags: CommandFlags,
    pub flag_parse_errors: Vec<u8>,
}

/// The format command: the snippet is wrapped without consuming its
/// trailing expression so the formatting tool accepts it.
pub fn fmt(body: &[u8], params: &Vec<(Vec<u8>, Vec<u8>)>) -> (r: FmtTask)
    ensures
        r.code@ == spec_maybe_wrap(body@, ResultHandling::NoWrap),
        r.was_wrapped == spec_wraps(body@),
        r.flags == spec_flags(params@),
        r.flag_parse_errors@ == spec_flag_errors(params@),
{
    let (code, was_wrapped) = maybe_wrap(body, ResultHandling::NoWrap);
    let (flags, flag_parse_errors) = parse_flags(params);
    FmtTask { code, was_wrapped, flags, flag_parse_errors }
}

} // verus!
