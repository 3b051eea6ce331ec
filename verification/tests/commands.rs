use playbot::bench::micro_bench;
use playbot::flags::{Channel, Edition, Mode};
use playbot::help::{fmt_help, miri_help, play_and_eval_help};
use playbot::playground::{
    clippy, crate_type_of, eval, expand_macros, fmt, format_clippy_stderr,
    format_expand_stderr, format_miri_stderr, format_play_eval_stderr, miri, play,
    strip_if_wrapped, CrateType, PlayTask,
};
use playbot::reply::PlayResult;

fn params(list: &[(&str, &str)]) -> Vec<(Vec<u8>, Vec<u8>)> {
    list.iter()
        .map(|(k, v)| (k.as_bytes().to_vec(), v.as_bytes().to_vec()))
        .collect()
}

fn text(v: &[u8]) -> String {
    String::from_utf8(v.to_vec()).unwrap()
}

#[test]
fn play_wraps_without_consuming_the_result() {
    let task = play(b"1 + 1", &params(&[]));
    assert_eq!(task.request.code, b"fn main() {\n1 + 1\n}".to_vec());
    assert_eq!(task.request.channel, Channel::Nightly);
    assert_eq!(task.request.mode, Mode::Debug);
    assert_eq!(task.request.edition, Edition::E2018);
    assert_eq!(task.request.crate_type, CrateType::Binary);
    assert!(!task.request.tests);
    assert!(task.flag_parse_errors.is_empty());
}

#[test]
fn eval_wraps_with_the_printing_policy() {
    let task = eval(b"1 + 1", &params(&[("mode", "release")]));
    assert_eq!(
        task.request.code,
        b"fn main() { println!(\"{:?}\", {\n1 + 1\n}); }".to_vec()
    );
    assert_eq!(task.request.mode, Mode::Release);
}

#[test]
fn miri_wraps_with_the_discarding_policy() {
    let task = miri(b"let x = 1;", &params(&[("edition", "2015")]));
    assert_eq!(
        task.request.code,
        b"fn main() { let _ = {\nlet x = 1;\n}; }".to_vec()
    );
    assert_eq!(task.request.edition, Edition::E2015);
    assert!(task.was_wrapped);
}

#[test]
fn clippy_wraps_and_marks_the_crate_type() {
    let task = clippy(b"let x = 1;", &params(&[]));
    assert_eq!(
        task.request.code,
        b"fn main() { let _ = {\nlet x = 1;\n}; }".to_vec()
    );
    assert_eq!(task.request.crate_type, CrateType::Binary);
    let task = clippy(b"fn main() {}", &params(&[]));
    assert_eq!(task.request.code, b"fn main() {}".to_vec());
}

#[test]
fn expand_macros_wraps_plainly_and_remembers_it() {
    let task = expand_macros(b"vec![1];", &params(&[]));
    assert_eq!(task.request.code, b"fn main() {\nvec![1];\n}".to_vec());
    assert!(task.was_wrapped);
    let task = expand_macros(b"fn main() { vec![1]; }", &params(&[]));
    assert!(!task.was_wrapped);
}

#[test]
fn crate_type_follows_the_entry_point_marker() {
    assert_eq!(crate_type_of(b"pub fn lib_only() {}"), CrateType::Library);
    assert_eq!(crate_type_of(b"fn main() {}"), CrateType::Binary);
}

#[test]
fn fmt_reports_whether_it_wrapped() {
    let task = fmt(b"let q = 3;", &params(&[]));
    assert!(task.was_wrapped);
    assert_eq!(task.code, b"fn main() {\nlet q = 3;\n}".to_vec());
    let task = fmt(b"fn main() { }", &params(&[]));
    assert!(!task.was_wrapped);
}

#[test]
fn strip_if_wrapped_only_acts_when_wrapped() {
    let mut result = PlayResult {
        success: true,
        stdout: b"fn main() {\n    done();\n}\n".to_vec(),
        stderr: b"".to_vec(),
    };
    strip_if_wrapped(&mut result, false);
    assert_eq!(result.stdout, b"fn main() {\n    done();\n}\n".to_vec());
    strip_if_wrapped(&mut result, true);
    assert_eq!(result.stdout, b"done();\n".to_vec());
}

#[test]
fn play_eval_stderr_keeps_warnings_and_program_output() {
    let mut result = PlayResult {
        success: true,
        stdout: b"".to_vec(),
        stderr: b"   Compiling playground v0.0.1\nwarning: unused variable\n1 warning emitted\n    Finished dev\n     Running `target/debug/playground`\nboom\n"
            .to_vec(),
    };
    format_play_eval_stderr(&mut result);
    assert_eq!(
        text(&result.stderr),
        "warning: unused variable\n\nboom\n"
    );
}

#[test]
fn play_eval_stderr_empty_when_clean() {
    let mut result = PlayResult {
        success: true,
        stdout: b"2\n".to_vec(),
        stderr: b"   Compiling playground v0.0.1\n    Finished dev\n     Running `target/debug/playground`\n"
            .to_vec(),
    };
    format_play_eval_stderr(&mut result);
    assert_eq!(text(&result.stderr), "");
}

#[test]
fn miri_stderr_keeps_the_interpreter_report() {
    let mut result = PlayResult {
        success: false,
        stdout: b"".to_vec(),
        stderr: b"preamble\n   Running `/playground/something`\nundefined behavior here\nerror: aborting due to previous error\n"
            .to_vec(),
    };
    format_miri_stderr(&mut result);
    assert_eq!(text(&result.stderr), "undefined behavior here\n");
}

#[test]
fn expand_stderr_drops_build_noise() {
    let mut result = PlayResult {
        success: true,
        stdout: b"expanded\n".to_vec(),
        stderr: b"   Compiling playground v0.0.1\n    Finished dev\nleftover note\n".to_vec(),
    };
    format_expand_stderr(&mut result);
    assert_eq!(text(&result.stderr), "leftover note\n");
}

#[test]
fn clippy_stderr_keeps_the_lint_report() {
    let mut result = PlayResult {
        success: true,
        stdout: b"".to_vec(),
        stderr: b"    Checking playground v0.0.1\nwarning: this looks odd\n1 warning emitted\n"
            .to_vec(),
    };
    format_clippy_stderr(&mut result);
    assert_eq!(text(&result.stderr), "warning: this looks odd\n");
}

#[test]
fn micro_bench_discovers_exactly_one_candidate() {
    let task: PlayTask = micro_bench(b"fn foo() {}\npub fn bar() {}", &params(&[])).unwrap();
    let code = text(&task.request.code);
    assert!(code.ends_with("bench(&[(\"bar\", bar), ]);\n}\n"));
    assert_eq!(code.matches("(\"bar\", bar), ").count(), 1);
    assert_eq!(task.request.channel, Channel::Nightly);
    assert_eq!(task.request.mode, Mode::Release);
    assert!(code.starts_with("#![feature(test)]"));
}

#[test]
fn micro_bench_without_candidates_aborts_with_a_message() {
    let err = micro_bench(b"fn foo() {}", &params(&[])).unwrap_err();
    assert_eq!(
        text(&err),
        "No public functions found for benchmarking :thinking:"
    );
}

#[test]
fn micro_bench_hints_at_the_optimization_barrier() {
    let task = micro_bench(b"pub fn a() {}", &params(&[])).unwrap();
    assert_eq!(
        text(&task.flag_parse_errors),
        "Hint: use the black_box function to prevent computations from being optimized out\n"
    );
    let task = micro_bench(b"pub fn a() { black_box(1); }", &params(&[])).unwrap();
    assert!(task.flag_parse_errors.is_empty());
}

#[test]
fn micro_bench_forces_channel_and_mode_but_reports_user_flags() {
    let task = micro_bench(
        b"pub fn a() {}",
        &params(&[("channel", "stable"), ("mode", "debug")]),
    )
    .unwrap();
    assert_eq!(task.request.channel, Channel::Nightly);
    assert_eq!(task.request.mode, Mode::Release);
    assert_eq!(task.flags.channel, Channel::Stable);
    assert_eq!(task.flags.mode, Mode::Debug);
}

#[test]
fn fmt_help_text_is_exact() {
    assert_eq!(
        text(&fmt_help()),
        "Format code using rustfmt. All code is executed on https://play.rust-lang.org.\n\
         ```?fmt edition={} ``\u{200B}`code``\u{200B}` ```\n\
         Optional arguments:\n    \tedition: 2015, 2018 (default: 2018)\n"
    );
}

#[test]
fn full_help_lists_mode_and_channel() {
    let help = text(&play_and_eval_help(b"play"));
    assert!(help.starts_with(
        "Compile and run Rust code. All code is executed on https://play.rust-lang.org.\n\
         ```?play mode={} channel={} edition={} ``\u{200B}`code``\u{200B}` ```\n"
    ));
    assert!(help.contains("    \tmode: debug, release (default: debug)\n"));
    assert!(help.contains("    \tchannel: stable, beta, nightly (default: nightly)\n"));
    assert!(help.contains("    \tedition: 2015, 2018 (default: 2018)\n"));
}

#[test]
fn short_help_lists_only_edition() {
    let help = text(&miri_help());
    assert!(help.contains("Miri interpreter"));
    assert!(!help.contains("mode: debug, release"));
    assert!(help.contains("    \tedition: 2015, 2018 (default: 2018)\n"));
}
