//! Parsing the optional `key=value` command modifiers (release channel,
//! compilation mode, language edition) into a typed configuration.
//!
//! Parsing never fails as a whole: a value that does not parse leaves the
//! default for its field and appends one error line to the diagnostics;
//! unrecognized keys are silently ignored.
use vstd::prelude::*;
use vstd::string::*;

use crate::text::{extend, matches_at, NL};

verus! {

/// The release channel the service compiles on.
#[derive(Clone, Copy, PartialEq, Eq, Structural, Debug)]
pub enum Channel {
    Stable,
    Beta,
    Nightly,
}

/// The language edition the service compiles with.
#[derive(Clone, Copy, PartialEq, Eq, Structural, Debug)]
pub enum Edition {
    E2015,
    E2018,
}

/// The compilation mode the service compiles in.
#[derive(Clone, Copy, PartialEq, Eq, Structural, Debug)]
pub enum Mode {
    Debug,
    Release,
}

/// The typed configuration built from the command modifiers.
#[derive(Clone, Copy, PartialEq, Eq, Structural, Debug)]
pub struct CommandFlags {
    pub channel: Channel,
    pub mode: Mode,
    pub edition: Edition,
}

/// The defaults used for absent or unparsable modifiers.
pub open spec fn spec_default_flags() -> CommandFlags {
    CommandFlags { channel: Channel::Nightly, mode: Mode::Debug, edition: Edition::E2018 }
}

/// The channel a value names, if any.
pub open spec fn spec_parse_channel(s: Seq<u8>) -> Option<Channel> {
    if s == "stable".spec_bytes() {
        Some(Channel::Stable)
    } else if s == "beta".spec_bytes() {
        Some(Channel::Beta)
    } else if s == "nightly".spec_bytes() {
        Some(Channel::Nightly)
    } else {
        None
    }
}

/// The error line for a value that names no channel.
pub open spec fn spec_channel_err(s: Seq<u8>) -> Seq<u8> {
    "invalid release channel `".spec_bytes() + s + "`".spec_bytes()
}

/// The edition a value names, if any.
pub open spec fn spec_parse_edition(s: Seq<u8>) -> Option<Edition> {
    if s == "2015".spec_bytes() {
        Some(Edition::E2015)
    } else if s == "2018".spec_bytes() {
        Some(Edition::E2018)
    } else {
        None
    }
}

/// The error line for a value that names no edition.
pub open spec fn spec_edition_err(s: Seq<u8>) -> Seq<u8> {
    "invalid edition `".spec_bytes() + s + "`".spec_bytes()
}

/// The mode a value names, if any.
pub open spec fn spec_parse_mode(s: Seq<u8>) -> Option<Mode> {
    if s == "debug".spec_bytes() {
        Some(Mode::Debug)
    } else if s == "release".spec_bytes() {
        Some(Mode::Release)
    } else {
        None
    }
}

/// The error line for a value that names no mode.
pub open spec fn spec_mode_err(s: Seq<u8>) -> Seq<u8> {
    "invalid compilation mode `".spec_bytes() + s + "`".spec_bytes()
}

/// Whether two byte strings are equal.
pub fn bytes_eq(a: &[u8], b: &[u8]) -> (r: bool)
    ensures
        r == (a@ == b@),
{
    if a.len() != b.len() {
        return false;
    }
    let r = matches_at(a, b, 0);
    proof {
        assert(a@.subrange(0, b@.len() as int) =~= a@);
    }
    r
}

impl Channel {
    /// Parse a channel name; the error carries the offending value.
    pub fn from_str(s: &[u8]) -> (r: Result<Channel, Vec<u8>>)
        ensures
            match r {
                Ok(c) => spec_parse_channel(s@) == Some(c),
                Err(e) => spec_parse_channel(s@) is None && e@ == spec_channel_err(s@),
            },
    {
        if bytes_eq(s, "stable".as_bytes()) {
            Ok(Channel::Stable)
        } else if bytes_eq(s, "beta".as_bytes()) {
            Ok(Channel::Beta)
        } else if bytes_eq(s, "nightly".as_bytes()) {
            Ok(Channel::Nightly)
        } else {
            let mut e = "invalid release channel `".as_bytes_vec();
            extend(&mut e, s);
            extend(&mut e, "`".as_bytes());
            Err(e)
        }
    }
}

impl Edition {
    /// Parse an edition name; the error carries the offending value.
    pub fn from_str(s: &[u8]) -> (r: Result<Edition, Vec<u8>>)
        ensures
            match r {
                Ok(c) => spec_parse_edition(s@) == Some(c),
                Err(e) => spec_parse_edition(s@) is None && e@ == spec_edition_err(s@),
            },
    {
        if bytes_eq(s, "2015".as_bytes()) {
            Ok(Edition::E2015)
        } else if bytes_eq(s, "2018".as_bytes()) {
            Ok(Edition::E2018)
        } else {
            let mut e = "invalid edition `".as_bytes_vec();
            extend(&mut e, s);
            extend(&mut e, "`".as_bytes());
            Err(e)
        }
    }
}

impl Mode {
    /// Parse a mode name; the error carries the offending value.
    pub fn from_str(s: &[u8]) -> (r: Result<Mode, Vec<u8>>)
        ensures
            match r {
                Ok(c) => spec_parse_mode(s@) == Some(c),
                Err(e) => spec_parse_mode(s@) is None && e@ == spec_mode_err(s@),
            },
    {
        if bytes_eq(s, "debug".as_bytes()) {
            Ok(Mode::Debug)
        } else if bytes_eq(s, "release".as_bytes()) {
            Ok(Mode::Release)
        } else {
            let mut e = "invalid compilation mode `".as_bytes_vec();
            extend(&mut e, s);
            extend(&mut e, "`".as_bytes());
            Err(e)
        }
    }
}

/// The value of the first pair whose key is `key`, if any.
pub open spec fn spec_lookup(params: Seq<(Vec<u8>, Vec<u8>)>, key: Seq<u8>) -> Option<Seq<u8>>
    decreases params.len(),
{
    if params.len() == 0 {
        None
    } else if params[0].0@ == key {
        Some(params[0].1@)
    } else {
        spec_lookup(params.drop_first(), key)
    }
}

/// Look a modifier up by key; the first pair with that key wins.
fn lookup<'a>(params: &'a Vec<(Vec<u8>, Vec<u8>)>, key: &[u8]) -> (r: Option<&'a Vec<u8>>)
    ensures
        match r {
            Some(v) => spec_lookup(params@, key@) == Some(v@),
            None => spec_lookup(params@, key@) is None,
        },
{
    let n = params.len();
    proof {
        assert(params@.skip(0) =~= params@);
    }
    let mut i: usize = 0;
    while i < n
        invariant
            i <= n,
            n == params@.len(),
            spec_lookup(params@, key@) == spec_lookup(params@.skip(i as int), key@),
        decreases n - i,
    {
        proof {
            assert(params@.skip(i as int)[0] == params@[i as int]);
            assert(params@.skip(i as int).drop_first() =~= params@.skip(i + 1));
        }
        if bytes_eq(params[i].0.as_slice(), key) {
            return Some(&params[i].1);
        }
        i += 1;
    }
    proof {
        assert(params@.skip(n as int) =~= Seq::<(Vec<u8>, Vec<u8>)>::empty());
    }
    None
}

/// The channel the modifiers select: the parsed value where present and
/// parsable, the default otherwise.
pub open spec fn spec_channel_choice(params: Seq<(Vec<u8>, Vec<u8>)>) -> Channel {
    match spec_lookup(params, "channel".spec_bytes()) {
        Option::Some(v) => match spec_parse_channel(v) {
            Option::Some(c) => c,
            Option::None => spec_default_flags().channel,
        },
        Option::None => spec_default_flags().channel,
    }
}

/// The diagnostics the channel modifier contributes: one error line when the
/// value does not parse, nothing otherwise.
pub open spec fn spec_channel_diag(params: Seq<(Vec<u8>, Vec<u8>)>) -> Seq<u8> {
    match spec_lookup(params, "channel".spec_bytes()) {
        Option::Some(v) => if spec_parse_channel(v) is None {
            spec_channel_err(v) + seq![NL]
        } else {
            Seq::empty()
        },
        Option::None => Seq::empty(),
    }
}

/// The mode the modifiers select.
pub open spec fn spec_mode_choice(params: Seq<(Vec<u8>, Vec<u8>)>) -> Mode {
    match spec_lookup(params, "mode".spec_bytes()) {
        Option::Some(v) => match spec_parse_mode(v) {
            Option::Some(m) => m,
            Option::None => spec_default_flags().mode,
        },
        Option::None => spec_default_flags().mode,
    }
}

/// The diagnostics the mode modifier contributes.
pub open spec fn spec_mode_diag(params: Seq<(Vec<u8>, Vec<u8>)>) -> Seq<u8> {
    match spec_lookup(params, "mode".spec_bytes()) {
        Option::Some(v) => if spec_parse_mode(v) is None {
            spec_mode_err(v) + seq![NL]
        } else {
            Seq::empty()
        },
        Option::None => Seq::empty(),
    }
}

/// The edition the modifiers select.
pub open spec fn spec_edition_choice(params: Seq<(Vec<u8>, Vec<u8>)>) -> Edition {
    match spec_lookup(params, "edition".spec_bytes()) {
        Option::Some(v) => match spec_parse_edition(v) {
            Option::Some(e) => e,
            Option::None => spec_default_flags().edition,
        },
        Option::None => spec_default_flags().edition,
    }
}

/// The diagnostics the edition modifier contributes.
pub open spec fn spec_edition_diag(params: Seq<(Vec<u8>, Vec<u8>)>) -> Seq<u8> {
    match spec_lookup(params, "edition".spec_bytes()) {
        Option::Some(v) => if spec_parse_edition(v) is None {
            spec_edition_err(v) + seq![NL]
        } else {
            Seq::empty()
        },
        Option::None => Seq::empty(),
    }
}

/// The configuration `parse_flags` returns.
pub open spec fn spec_flags(params: Seq<(Vec<u8>, Vec<u8>)>) -> CommandFlags {
    CommandFlags {
        channel: spec_channel_choice(params),
        mode: spec_mode_choice(params),
        edition: spec_edition_choice(params),
    }
}

/// The diagnostics `parse_flags` returns: one line per unparsable modifier,
/// channel first, then mode, then edition.
pub open spec fn spec_flag_errors(params: Seq<(Vec<u8>, Vec<u8>)>) -> Seq<u8> {
    spec_channel_diag(params) + spec_mode_diag(params) + spec_edition_diag(params)
}

/// Parse the recognized modifiers into a configuration and a diagnostics
/// block. Absent or unparsable modifiers leave their field's default;
/// unparsable ones each append one error line to the diagnostics, so the
/// configuration is always usable.
pub fn parse_flags(params: &Vec<(Vec<u8>, Vec<u8>)>) -> (r: (CommandFlags, Vec<u8>))
    ensures
        r.0 == spec_flags(params@),
        r.1@ == spec_flag_errors(params@),
{
    let mut flags = CommandFlags {
        channel: Channel::Nightly,
        mode: Mode::Debug,
        edition: Edition::E2018,
    };
    let mut errors: Vec<u8> = Vec::new();

    if let Some(v) = lookup(params, "channel".as_bytes()) {
        match Channel::from_str(v.as_slice()) {
            Ok(c) => {
                flags.channel = c;
            },
            Err(e) => {
                extend(&mut errors, e.as_slice());
                errors.push(NL);
            },
        }
    }

    if let Some(v) = lookup(params, "mode".as_bytes()) {
        match Mode::from_str(v.as_slice()) {
            Ok(m) => {
                flags.mode = m;
            },
            Err(e) => {
                extend(&mut errors, e.as_slice());
                errors.push(NL);
            },
        }
    }

    if let Some(v) = lookup(params, "edition".as_bytes()) {
        match Edition::from_str(v.as_slice()) {
            Ok(e) => {
                flags.edition = e;
            },
            Err(e) => {
                extend(&mut errors, e.as_slice());
                errors.push(NL);
            },
        }
    }

    proof {
        assert(errors@ =~= spec_flag_errors(params@));
    }
    (flags, errors)
}

} // verus!
