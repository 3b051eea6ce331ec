use playbot::flags::{parse_flags, Channel, CommandFlags, Edition, Mode};
use playbot::reply::{gist_reply, send_reply, url_from_gist, PlayResult, ReplyAction};

fn params(list: &[(&str, &str)]) -> Vec<(Vec<u8>, Vec<u8>)> {
    list.iter()
        .map(|(k, v)| (k.as_bytes().to_vec(), v.as_bytes().to_vec()))
        .collect()
}

#[test]
fn parse_flags_defaults() {
    let (flags, errors) = parse_flags(&params(&[]));
    assert_eq!(flags.channel, Channel::Nightly);
    assert_eq!(flags.mode, Mode::Debug);
    assert_eq!(flags.edition, Edition::E2018);
    assert!(errors.is_empty());
}

#[test]
fn parse_flags_bogus_channel_keeps_default_and_reports() {
    let (flags, errors) = parse_flags(&params(&[("channel", "bogus")]));
    assert_eq!(flags.channel, Channel::Nightly);
    let text = String::from_utf8(errors).unwrap();
    assert_eq!(text, "invalid release channel `bogus`\n");
    assert!(text.contains("bogus"));
    assert!(text.ends_with('\n'));
    assert!(!text.ends_with("\n\n"));
}

#[test]
fn parse_flags_recognizes_all_three_keys() {
    let (flags, errors) = parse_flags(&params(&[
        ("channel", "stable"),
        ("mode", "release"),
        ("edition", "2015"),
    ]));
    assert_eq!(flags.channel, Channel::Stable);
    assert_eq!(flags.mode, Mode::Release);
    assert_eq!(flags.edition, Edition::E2015);
    assert!(errors.is_empty());
}

#[test]
fn parse_flags_ignores_unrecognized_keys() {
    let (flags, errors) = parse_flags(&params(&[("warmup", "5")]));
    assert_eq!(flags.channel, Channel::Nightly);
    assert!(errors.is_empty());
}

#[test]
fn parse_flags_collects_errors_in_field_order() {
    let (flags, errors) = parse_flags(&params(&[
        ("edition", "99"),
        ("mode", "fast"),
        ("channel", "beta"),
    ]));
    assert_eq!(flags.channel, Channel::Beta);
    assert_eq!(flags.mode, Mode::Debug);
    assert_eq!(flags.edition, Edition::E2018);
    assert_eq!(
        String::from_utf8(errors).unwrap(),
        "invalid compilation mode `fast`\ninvalid edition `99`\n"
    );
}

#[test]
fn channel_from_str_errors_carry_the_value() {
    assert_eq!(Channel::from_str(b"beta"), Ok(Channel::Beta));
    assert_eq!(
        Channel::from_str(b"nope"),
        Err(b"invalid release channel `nope`".to_vec())
    );
    assert_eq!(
        Edition::from_str(b"2021"),
        Err(b"invalid edition `2021`".to_vec())
    );
    assert_eq!(
        Mode::from_str(b"slow"),
        Err(b"invalid compilation mode `slow`".to_vec())
    );
}

#[test]
fn send_reply_failure_uses_stderr_only() {
    let result = PlayResult {
        success: false,
        stdout: b"".to_vec(),
        stderr: b"boom".to_vec(),
    };
    match send_reply(&result, b"") {
        ReplyAction::Message(m) => assert_eq!(m, b"```rust\nboom```".to_vec()),
        ReplyAction::PasteAndLink => panic!("short reply must be inline"),
    }
}

#[test]
fn send_reply_success_with_quiet_stderr_uses_stdout() {
    let result = PlayResult {
        success: true,
        stdout: b"2\n".to_vec(),
        stderr: b"".to_vec(),
    };
    match send_reply(&result, b"") {
        ReplyAction::Message(m) => assert_eq!(m, b"```rust\n2\n```".to_vec()),
        ReplyAction::PasteAndLink => panic!("short reply must be inline"),
    }
}

#[test]
fn send_reply_merges_both_streams_on_success() {
    let result = PlayResult {
        success: true,
        stdout: b"out".to_vec(),
        stderr: b"warn".to_vec(),
    };
    match send_reply(&result, b"oops\n") {
        ReplyAction::Message(m) => assert_eq!(m, b"oops\n```rust\nwarn\nout```".to_vec()),
        ReplyAction::PasteAndLink => panic!("short reply must be inline"),
    }
}

#[test]
fn send_reply_whitespace_body_sends_empty_block() {
    let result = PlayResult {
        success: true,
        stdout: b" \n\t ".to_vec(),
        stderr: b"".to_vec(),
    };
    match send_reply(&result, b"errs\n") {
        ReplyAction::Message(m) => assert_eq!(m, b"errs\n``` ```".to_vec()),
        ReplyAction::PasteAndLink => panic!("empty body must be inline"),
    }
}

#[test]
fn send_reply_oversized_body_falls_back_to_paste() {
    let result = PlayResult {
        success: true,
        stdout: vec![b'x'; 3000],
        stderr: b"".to_vec(),
    };
    match send_reply(&result, b"") {
        ReplyAction::Message(_) => panic!("oversized reply must use the paste fallback"),
        ReplyAction::PasteAndLink => {}
    }
}

#[test]
fn gist_reply_links_the_paste_with_the_requested_settings() {
    let flags = CommandFlags {
        channel: Channel::Nightly,
        mode: Mode::Debug,
        edition: Edition::E2018,
    };
    let reply = gist_reply(&flags, b"abc123", b"");
    assert_eq!(
        String::from_utf8(reply).unwrap(),
        "Output too large. Playground link: \
         https://play.rust-lang.org/?version=nightly&mode=debug&edition=2018&gist=abc123"
    );
}

#[test]
fn url_from_gist_encodes_every_setting() {
    let flags = CommandFlags {
        channel: Channel::Stable,
        mode: Mode::Release,
        edition: Edition::E2015,
    };
    let url = url_from_gist(&flags, b"deadbeef");
    assert_eq!(
        String::from_utf8(url).unwrap(),
        "https://play.rust-lang.org/?version=stable&mode=release&edition=2015&gist=deadbeef"
    );
}
