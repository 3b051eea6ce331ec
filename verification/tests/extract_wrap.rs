use playbot::extract::extract_relevant_lines;
use playbot::wrap::{maybe_wrap, strip_fn_main_boilerplate_from_formatted, ResultHandling};

fn toks(list: &[&str]) -> Vec<Vec<u8>> {
    list.iter().map(|s| s.as_bytes().to_vec()).collect()
}

#[test]
fn extract_no_tokens_trims_blank_lines_only() {
    let text = b"\n\nfoo\nbar\n\n\n";
    let out = extract_relevant_lines(text, &toks(&[]), &toks(&[]));
    assert_eq!(out, b"foo\nbar\n".to_vec());
}

#[test]
fn extract_no_tokens_keeps_plain_text() {
    let out = extract_relevant_lines(b"hello\nworld", &toks(&[]), &toks(&[]));
    assert_eq!(out, b"hello\nworld".to_vec());
}

#[test]
fn extract_empty_input() {
    let out = extract_relevant_lines(b"", &toks(&["x"]), &toks(&["y"]));
    assert_eq!(out, b"".to_vec());
}

#[test]
fn extract_truncates_at_last_start_occurrence() {
    let text = b"banner\nnoise\nbanner\nreal output\nend";
    let out = extract_relevant_lines(text, &toks(&["banner"]), &toks(&[]));
    assert_eq!(out, b"real output\nend".to_vec());
}

#[test]
fn extract_start_and_end_tokens() {
    let text = b"Compiling playground v0.0.1\nwarning: unused\n1 warning emitted\n";
    let out = extract_relevant_lines(
        text,
        &toks(&["Compiling playground"]),
        &toks(&["warning emitted"]),
    );
    assert_eq!(out, b"warning: unused\n".to_vec());
}

#[test]
fn extract_absent_tokens_mean_no_truncation() {
    let out = extract_relevant_lines(b"hello\nworld", &toks(&["nope"]), &toks(&["also nope"]));
    assert_eq!(out, b"hello\nworld".to_vec());
}

#[test]
fn extract_start_on_last_line_leaves_nothing() {
    let out = extract_relevant_lines(b"foo TOKEN", &toks(&["TOKEN"]), &toks(&[]));
    assert_eq!(out, b"".to_vec());
}

#[test]
fn extract_end_on_first_line_leaves_nothing() {
    let out = extract_relevant_lines(b"TOKEN tail\nmore", &toks(&[]), &toks(&["TOKEN"]));
    assert_eq!(out, b"".to_vec());
}

#[test]
fn extract_earliest_end_token_wins() {
    let text = b"keep me\nEND_B later\nEND_A last\n";
    let out = extract_relevant_lines(text, &toks(&[]), &toks(&["END_A", "END_B"]));
    assert_eq!(out, b"keep me\n".to_vec());
}

#[test]
fn extract_token_spanning_lines_cuts_at_its_first_terminator() {
    let out = extract_relevant_lines(b"a\nb\nc", &toks(&["a\nb"]), &toks(&[]));
    assert_eq!(out, b"b\nc".to_vec());
}

#[test]
fn wrap_discard_adds_boilerplate_and_hoists_attributes() {
    let code = b"#![feature(x)]\nlet x = 5;";
    let (out, was_wrapped) = maybe_wrap(code, ResultHandling::Discard);
    assert!(was_wrapped);
    assert_eq!(
        out,
        b"#![feature(x)]\nfn main() { let _ = {\nlet x = 5;\n}; }".to_vec()
    );
    let s = String::from_utf8(out).unwrap();
    assert!(s.contains("fn main() { let _ = {"));
    assert!(s.ends_with("}; }"));
}

#[test]
fn wrap_print_policy_prints_debug_representation() {
    let (out, was_wrapped) = maybe_wrap(b"1 + 1", ResultHandling::Print);
    assert!(was_wrapped);
    assert_eq!(
        out,
        b"fn main() { println!(\"{:?}\", {\n1 + 1\n}); }".to_vec()
    );
}

#[test]
fn wrap_returns_code_with_entry_point_unchanged() {
    let code = b"fn main() { println!(\"hi\"); }";
    let (out, was_wrapped) = maybe_wrap(code, ResultHandling::Discard);
    assert!(!was_wrapped);
    assert_eq!(out, code.to_vec());
}

#[test]
fn wrap_hoists_only_the_leading_attribute_run() {
    let code = b"  #![a]\n\n#![b]\nuse x;\n#![c]\nbody";
    let (out, was_wrapped) = maybe_wrap(code, ResultHandling::NoWrap);
    assert!(was_wrapped);
    assert_eq!(
        out,
        b"#![a]\n#![b]\nfn main() {\nuse x;\n#![c]\nbody\n}".to_vec()
    );
}

#[test]
fn wrap_then_strip_recovers_body_lines() {
    let code = b"let x = 1;\nfoo();";
    let (wrapped, was_wrapped) = maybe_wrap(code, ResultHandling::NoWrap);
    assert!(was_wrapped);
    let stripped = strip_fn_main_boilerplate_from_formatted(&wrapped);
    assert_eq!(stripped, b"let x = 1;\nfoo();\n".to_vec());
}

#[test]
fn wrap_then_strip_reverts_one_indent_level() {
    let code = b"foo();\n    bar();";
    let (wrapped, _) = maybe_wrap(code, ResultHandling::NoWrap);
    let stripped = strip_fn_main_boilerplate_from_formatted(&wrapped);
    assert_eq!(stripped, b"foo();\nbar();\n".to_vec());
}

#[test]
fn wrap_then_strip_drops_hoisted_attributes() {
    let code = b"#![feature(x)]\nwork();";
    let (wrapped, _) = maybe_wrap(code, ResultHandling::NoWrap);
    let stripped = strip_fn_main_boilerplate_from_formatted(&wrapped);
    assert_eq!(stripped, b"work();\n".to_vec());
}

#[test]
fn strip_reverts_formatted_output() {
    let formatted = b"fn main() {\n    let x = 5;\n}\n";
    let stripped = strip_fn_main_boilerplate_from_formatted(formatted);
    assert_eq!(stripped, b"let x = 5;\n".to_vec());
}
