//! The static help text each command replies with when invoked without
//! arguments: a description, a usage template, and the optional modifiers.
use vstd::prelude::*;
use vstd::string::*;

use crate::text::extend;

verus! {

/// The help text for a command: its description, where the code runs, a
/// usage template with the modifiers the command accepts, and a line per
/// optional modifier with its accepted values and default.
pub open spec fn spec_generic_help(
    cmd: Seq<u8>,
    desc: Seq<u8>,
    full: bool,
    example_code: Seq<u8>,
) -> Seq<u8> {
    desc + ". All code is executed on https://play.rust-lang.org.\n".spec_bytes()
        + "```?".spec_bytes() + cmd + " ".spec_bytes() + (if full {
        "mode={} channel={} ".spec_bytes()
    } else {
        Seq::empty()
    }) + "edition={} ``\u{200B}`".spec_bytes() + example_code + "``\u{200B}` ```\n".spec_bytes()
        + "Optional arguments:\n".spec_bytes() + (if full {
        "    \tmode: debug, release (default: debug)\n".spec_bytes()
            + "    \tchannel: stable, beta, nightly (default: nightly)\n".spec_bytes()
    } else {
        Seq::empty()
    }) + "    \tedition: 2015, 2018 (default: 2018)\n".spec_bytes()
}

/// Build the help text for a command.
pub fn generic_help(cmd: &[u8], desc: &[u8], full: bool, example_code: &[u8]) -> (r: Vec<u8>)
    ensures
        r@ == spec_generic_help(cmd@, desc@, full, example_code@),
{
    let mut r = Vec::new();
    extend(&mut r, desc);
    extend(&mut r, ". All code is executed on https://play.rust-lang.org.\n".as_bytes());
    extend(&mut r, "```?".as_bytes());
    extend(&mut r, cmd);
    extend(&mut r, " ".as_bytes());
    if full {
        extend(&mut r, "mode={} channel={} ".as_bytes());
    }
    extend(&mut r, "edition={} ``\u{200B}`".as_bytes());
    extend(&mut r, example_code);
    extend(&mut r, "``\u{200B}` ```\n".as_bytes());
    extend(&mut r, "Optional arguments:\n".as_bytes());
    if full {
        extend(&mut r, "    \tmode: debug, release (default: debug)\n".as_bytes());
        extend(&mut r, "    \tchannel: stable, beta, nightly (default: nightly)\n".as_bytes());
    }
    extend(&mut r, "    \tedition: 2015, 2018 (default: 2018)\n".as_bytes());
    proof {
        assert(r@ =~= spec_generic_help(cmd@, desc@, full, example_code@));
    }
    r
}

/// The help text of the run and evaluate commands, under whichever of their
/// names was invoked.
pub fn play_and_eval_help(name: &[u8]) -> (r: Vec<u8>)
    ensures
        r@ == spec_generic_help(
            name@,
            "Compile and run Rust code".spec_bytes(),
            true,
            "code".spec_bytes(),
        ),
{
    generic_help(name, "Compile and run Rust code".as_bytes(), true, "code".as_bytes())
}

/// The help text of the interpreter command.
pub fn miri_help() -> (r: Vec<u8>)
    ensures
        r@ == spec_generic_help(
            "miri".spec_bytes(),
            "Execute this program in the Miri interpreter to detect certain cases of undefined behavior (like out-of-bounds memory access)".spec_bytes(),
            false,
            "code".spec_bytes(),
        ),
{
    generic_help(
        "miri".as_bytes(),
        "Execute this program in the Miri interpreter to detect certain cases of undefined behavior (like out-of-bounds memory access)".as_bytes(),
        false,
        "code".as_bytes(),
    )
}

/// The help text of the macro-expansion command.
pub fn expand_macros_help() -> (r: Vec<u8>)
    ensures
        r@ == spec_generic_help(
            "expand".spec_bytes(),
            "Expand macros to their raw desugared form".spec_bytes(),
            false,
            "code".spec_bytes(),
        ),
{
    generic_help(
        "expand".as_bytes(),
        "Expand macros to their raw desugared form".as_bytes(),
        false,
        "code".as_bytes(),
    )
}

/// The help text of the lint command.
pub fn clippy_help() -> (r: Vec<u8>)
    ensures
        r@ == spec_generic_help(
            "clippy".spec_bytes(),
            "Catch common mistakes and improve the code using the Clippy linter".spec_bytes(),
            false,
            "code".spec_bytes(),
        ),
{
    generic_help(
        "clippy".as_bytes(),
        "Catch common mistakes and improve the code using the Clippy linter".as_bytes(),
        false,
        "code".as_bytes(),
    )
}

/// The help text of the format command.
pub fn fmt_help() -> (r: Vec<u8>)
    ensures
        r@ == spec_generic_help(
            "fmt".spec_bytes(),
            "Format code using rustfmt".spec_bytes(),
            false,
            "code".spec_bytes(),
        ),
{
    generic_help(
        "fmt".as_bytes(),
        "Format code using rustfmt".as_bytes(),
        false,
        "code".as_bytes(),
    )
}

/// The description the benchmark command's help text carries.
pub const MICRO_BENCH_DESC: &'static str = "Benchmark small snippets of code by running them repeatedly. The public function snippets are run in chunks, interleaved: Snippet A is ran 10000 times, then snippet B is ran 10000 times, then snippet A again, and so on until a certain time has passed. After that, the measuremants are averaged and the standard deviation is calculated for each";

/// The example snippet the benchmark command's help text carries.
pub const MICRO_BENCH_EXAMPLE: &'static str = "
pub fn snippet_a() { /* code */ }
pub fn snippet_b() { /* code */ }
";

/// The help text of the benchmark command.
pub fn micro_bench_help() -> (r: Vec<u8>)
    ensures
        r@ == spec_generic_help(
            "microbench".spec_bytes(),
            MICRO_BENCH_DESC.spec_bytes(),
            false,
            MICRO_BENCH_EXAMPLE.spec_bytes(),
        ),
{
    generic_help(
        "microbench".as_bytes(),
        MICRO_BENCH_DESC.as_bytes(),
        false,
        MICRO_BENCH_EXAMPLE.as_bytes(),
    )
}

} // verus!
