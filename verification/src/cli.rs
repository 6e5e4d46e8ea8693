//! The command-line surface's decisions: argument-count validation, the
//! usage text, the optional attempt-budget argument with its silent default,
//! and the run configuration.

use crate::decimal::{dec_value, parse_body, parse_u64, parses_as_u64};
use vstd::prelude::*;

verus! {

/// The attempt budget used when none is given on the command line, or when
/// the given one cannot be parsed.
pub const DEFAULT_TOTAL_KEYS: u64 = 2000000;

/// Whether an invocation with `arg_count` words on the command line (the
/// program name included) must print usage and exit with status 1: exactly
/// two or three arguments after the program name are accepted.
pub fn usage_required(arg_count: usize) -> (r: bool)
    ensures
        r == !(3 <= arg_count <= 4),
{
    arg_count < 3 || arg_count > 4
}

/// The usage message printed to the error stream.
pub open spec fn spec_usage_message(program: Seq<char>) -> Seq<char> {
    "Usage: "@ + program + " \"Your Name\" \"your.email@example.com\" [total_keys]"@
}

/// The usage message for the given program name.
pub fn usage_message(program: &str) -> (r: String)
    ensures
        r@ == spec_usage_message(program@),
{
    let mut s = String::from_str("Usage: ");
    s.append(program);
    s.append(" \"Your Name\" \"your.email@example.com\" [total_keys]");
    s
}

/// The attempt budget from the optional command-line argument. A missing
/// argument, or one that does not parse as an unsigned decimal number that
/// fits, silently falls back to the default; no error is surfaced.
pub fn parse_total_keys(arg: Option<&str>) -> (r: u64)
    ensures
        match arg {
            Some(s) => r == if parses_as_u64(s@) {
                dec_value(parse_body(s@))
            } else {
                DEFAULT_TOTAL_KEYS as int
            },
            None => r == DEFAULT_TOTAL_KEYS,
        },
{
    match arg {
        None => DEFAULT_TOTAL_KEYS,
        Some(s) => match parse_u64(s) {
            Some(v) => v,
            None => DEFAULT_TOTAL_KEYS,
        },
    }
}

/// The immutable run configuration, created once at startup and shared by
/// every worker.
pub struct Config {
    /// The operator name put in the generated identity.
    pub name: String,
    /// The operator email put in the generated identity.
    pub email: String,
    /// Where artifacts are persisted.
    pub export_dir: String,
    /// The total attempt budget.
    pub total_keys: u64,
}

impl Config {
    /// A configuration with the fixed export directory.
    pub fn new(name: String, email: String, total_keys: u64) -> (r: Config)
        ensures
            r.name@ == name@,
            r.email@ == email@,
            r.total_keys == total_keys,
            r.export_dir@ == "./gpg_export"@,
    {
        Config { name, email, export_dir: String::from_str("./gpg_export"), total_keys }
    }

    /// The identity string handed to the generator: `<name> <<email>>`.
    pub fn identity(&self) -> (r: String)
        ensures
            r@ == self.name@ + " <"@ + self.email@ + ">"@,
    {
        let mut s = self.name.clone();
        s.append(" <");
        s.append(self.email.as_str());
        s.append(">");
        s
    }
}

} // verus!
