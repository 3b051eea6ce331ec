//! Fitting a tool result into a size-limited reply: composing the body out
//! of the captured output streams, and falling back to an externally hosted
//! paste with a deep link when the inline reply would be too large.
use vstd::prelude::*;
use vstd::string::*;

use crate::flags::{Channel, CommandFlags, Edition, Mode};
use crate::text::{extend, is_ws, is_ws_byte, NL};

verus! {

/// The uniform result the execution service reports for every tool.
#[derive(Debug)]
pub struct PlayResult {
    pub success: bool,
    pub stdout: Vec<u8>,
    pub stderr: Vec<u8>,
}

/// The largest reply the chat platform delivers in one message.
pub const MESSAGE_SIZE_LIMIT: usize = 2000;

/// The reply body: the error stream on failure, the output stream when the
/// error stream is silent, both otherwise.
pub open spec fn spec_compose_body(success: bool, stdout: Seq<u8>, stderr: Seq<u8>) -> Seq<u8> {
    if !success {
        stderr
    } else if stderr.len() == 0 {
        stdout
    } else {
        stderr + seq![NL] + stdout
    }
}

/// Nothing but whitespace: such a body is treated as empty output.
pub open spec fn spec_all_ws(t: Seq<u8>) -> bool {
    forall|i: int| 0 <= i < t.len() ==> is_ws(t[i])
}

/// The reply sent when the body is empty: the diagnostics and an empty code
/// block.
pub open spec fn spec_empty_output_reply(errors: Seq<u8>) -> Seq<u8> {
    errors + "``` ```".spec_bytes()
}

/// The inline reply: the diagnostics, then the body in a code block.
pub open spec fn spec_inline_reply(body: Seq<u8>, errors: Seq<u8>) -> Seq<u8> {
    errors + "```rust\n".spec_bytes() + body + "```".spec_bytes()
}

/// Whether the inline reply fits in one message.
pub open spec fn spec_reply_fits(body: Seq<u8>, errors: Seq<u8>) -> bool {
    spec_inline_reply(body, errors).len() <= MESSAGE_SIZE_LIMIT
}

/// What a command's reply turns out to be.
#[derive(Debug)]
pub enum ReplyAction {
    /// This complete text is sent as the reply.
    Message(Vec<u8>),
    /// The inline reply would exceed the message size limit: the original
    /// code must be uploaded to the paste service and the reply built by
    /// `gist_reply` from the identifier it returns.
    PasteAndLink,
}

/// The name the deep link uses for a channel.
pub open spec fn spec_channel_name(c: Channel) -> Seq<u8> {
    match c {
        Channel::Nightly => "nightly".spec_bytes(),
        Channel::Beta => "beta".spec_bytes(),
        Channel::Stable => "stable".spec_bytes(),
    }
}

/// The name the deep link uses for a mode.
pub open spec fn spec_mode_name(m: Mode) -> Seq<u8> {
    match m {
        Mode::Debug => "debug".spec_bytes(),
        Mode::Release => "release".spec_bytes(),
    }
}

/// The name the deep link uses for an edition.
pub open spec fn spec_edition_name(e: Edition) -> Seq<u8> {
    match e {
        Edition::E2015 => "2015".spec_bytes(),
        Edition::E2018 => "2018".spec_bytes(),
    }
}

/// The deep link into the execution service for a hosted paste: it encodes
/// the requested channel, mode and edition together with the paste
/// identifier.
pub open spec fn spec_url_from_gist(flags: CommandFlags, gist_id: Seq<u8>) -> Seq<u8> {
    "https://play.rust-lang.org/?version=".spec_bytes() + spec_channel_name(flags.channel)
        + "&mode=".spec_bytes() + spec_mode_name(flags.mode) + "&edition=".spec_bytes()
        + spec_edition_name(flags.edition) + "&gist=".spec_bytes() + gist_id
}

/// The reply sent in place of an oversized inline body: the diagnostics and
/// the deep link to the hosted paste.
pub open spec fn spec_gist_reply(flags: CommandFlags, gist_id: Seq<u8>, errors: Seq<u8>) -> Seq<u8> {
    errors + "Output too large. Playground link: ".spec_bytes() + spec_url_from_gist(
        flags,
        gist_id,
    )
}

fn channel_name(c: Channel) -> (r: &'static [u8])
    ensures
        r@ == spec_channel_name(c),
{
    match c {
        Channel::Nightly => "nightly".as_bytes(),
        Channel::Beta => "beta".as_bytes(),
        Channel::Stable => "stable".as_bytes(),
    }
}

fn mode_name(m: Mode) -> (r: &'static [u8])
    ensures
        r@ == spec_mode_name(m),
{
    match m {
        Mode::Debug => "debug".as_bytes(),
        Mode::Release => "release".as_bytes(),
    }
}

fn edition_name(e: Edition) -> (r: &'static [u8])
    ensures
        r@ == spec_edition_name(e),
{
    match e {
        Edition::E2015 => "2015".as_bytes(),
        Edition::E2018 => "2018".as_bytes(),
    }
}

/// Build the deep link into the execution service for the paste `gist_id`.
pub fn url_from_gist(flags: &CommandFlags, gist_id: &[u8]) -> (r: Vec<u8>)
    ensures
        r@ == spec_url_from_gist(*flags, gist_id@),
{
    let mut r = "https://play.rust-lang.org/?version=".as_bytes_vec();
    extend(&mut r, channel_name(flags.channel));
    extend(&mut r, "&mode=".as_bytes());
    extend(&mut r, mode_name(flags.mode));
    extend(&mut r, "&edition=".as_bytes());
    extend(&mut r, edition_name(flags.edition));
    extend(&mut r, "&gist=".as_bytes());
    extend(&mut r, gist_id);
    proof {
        assert(r@ =~= spec_url_from_gist(*flags, gist_id@));
    }
    r
}

/// Build the reply sent when the inline body was too large and the code now
/// lives in the paste `gist_id`.
pub fn gist_reply(flags: &CommandFlags, gist_id: &[u8], flag_parse_errors: &[u8]) -> (r: Vec<u8>)
    ensures
        r@ == spec_gist_reply(*flags, gist_id@, flag_parse_errors@),
{
    let mut r = Vec::new();
    extend(&mut r, flag_parse_errors);
    extend(&mut r, "Output too large. Playground link: ".as_bytes());
    let url = url_from_gist(flags, gist_id);
    extend(&mut r, url.as_slice());
    proof {
        assert(r@ =~= spec_gist_reply(*flags, gist_id@, flag_parse_errors@));
    }
    r
}

/// Whether `t` is nothing but whitespace.
fn all_ws(t: &[u8]) -> (r: bool)
    ensures
        r == spec_all_ws(t@),
{
    let n = t.len();
    let mut i: usize = 0;
    while i < n
        invariant
            i <= n,
            n == t@.len(),
            forall|j: int| 0 <= j < i ==> is_ws(t@[j]),
        decreases n - i,
    {
        if !is_ws_byte(t[i]) {
            return false;
        }
        i += 1;
    }
    true
}

/// Decide the reply for a tool result. An all-whitespace body yields the
/// diagnostics with an empty code block; a body whose inline reply fits
/// yields that reply; anything larger requires the paste fallback.
pub fn send_reply(result: &PlayResult, flag_parse_errors: &[u8]) -> (r: ReplyAction)
    ensures
        ({
            let body = spec_compose_body(result.success, result.stdout@, result.stderr@);
            match r {
                ReplyAction::Message(m) => if spec_all_ws(body) {
                    m@ == spec_empty_output_reply(flag_parse_errors@)
                } else {
                    m@ == spec_inline_reply(body, flag_parse_errors@) && spec_reply_fits(
                        body,
                        flag_parse_errors@,
                    )
                },
                ReplyAction::PasteAndLink => !spec_all_ws(body) && !spec_reply_fits(
                    body,
                    flag_parse_errors@,
                ),
            }
        }),
{
    let mut body: Vec<u8> = Vec::new();
    if !result.success {
        extend(&mut body, result.stderr.as_slice());
        proof {
            assert(body@ =~= spec_compose_body(result.success, result.stdout@, result.stderr@));
        }
    } else if result.stderr.len() == 0 {
        extend(&mut body, result.stdout.as_slice());
        proof {
            assert(body@ =~= spec_compose_body(result.success, result.stdout@, result.stderr@));
        }
    } else {
        extend(&mut body, result.stderr.as_slice());
        body.push(NL);
        extend(&mut body, result.stdout.as_slice());
        proof {
            assert(body@ =~= spec_compose_body(result.success, result.stdout@, result.stderr@));
        }
    }

    if all_ws(body.as_slice()) {
        let mut m = Vec::new();
        extend(&mut m, flag_parse_errors);
        extend(&mut m, "``` ```".as_bytes());
        return ReplyAction::Message(m);
    }

    let mut m = Vec::new();
    extend(&mut m, flag_parse_errors);
    extend(&mut m, "```rust\n".as_bytes());
    extend(&mut m, body.as_slice());
    extend(&mut m, "```".as_bytes());
    proof {
        assert(m@ =~= spec_inline_reply(body@, flag_parse_errors@));
    }
    if m.len() <= MESSAGE_SIZE_LIMIT {
        ReplyAction::Message(m)
    } else {
        ReplyAction::PasteAndLink
    }
}

} // verus!
