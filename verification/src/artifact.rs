//! The exact text persisted for a confirmed match: the two artifact file
//! names, the log file name, the log line, and the operator-visible match
//! announcement. The surrounding application writes these to disk, all three
//! writes of one match under a single exclusive section.

use crate::decimal::{dec_seq, u64_to_dec};
use vstd::prelude::*;

verus! {

/// The name of the public-only artifact for the match at `index`.
pub open spec fn spec_public_key_filename(index: nat) -> Seq<char> {
    "public_key_"@ + dec_seq(index) + ".asc"@
}

/// The name of the secret-inclusive artifact for the match at `index`.
pub open spec fn spec_private_key_filename(index: nat) -> Seq<char> {
    "private_key_"@ + dec_seq(index) + ".asc"@
}

/// The log line recorded for one match:
/// `[<index>] <fingerprint> - Matched pattern: <pattern>`.
pub open spec fn spec_log_line(index: nat, fingerprint: Seq<char>, pattern: Seq<char>) -> Seq<
    char,
> {
    "["@ + dec_seq(index) + "] "@ + fingerprint + " - Matched pattern: "@ + pattern
}

/// The announcement shown to the operator for a new match.
pub open spec fn spec_match_announcement(fingerprint: Seq<char>, pattern: Seq<char>) -> Seq<char> {
    "MATCH FOUND! Key: "@ + fingerprint + " Pattern: "@ + pattern
}

/// The public-only artifact's file name, `public_key_<index>.asc`.
pub fn public_key_filename(index: u64) -> (r: String)
    ensures
        r@ == spec_public_key_filename(index as nat),
{
    let mut s = String::from_str("public_key_");
    let digits = u64_to_dec(index);
    s.append(digits.as_str());
    s.append(".asc");
    s
}

/// The secret-inclusive artifact's file name, `private_key_<index>.asc`.
pub fn private_key_filename(index: u64) -> (r: String)
    ensures
        r@ == spec_private_key_filename(index as nat),
{
    let mut s = String::from_str("private_key_");
    let digits = u64_to_dec(index);
    s.append(digits.as_str());
    s.append(".asc");
    s
}

/// The shared append-only log's file name.
pub fn log_filename() -> (r: String)
    ensures
        r@ == "found_keys.txt"@,
{
    String::from_str("found_keys.txt")
}

/// The log line appended for one match.
pub fn log_line(index: u64, fingerprint: &str, pattern: &str) -> (r: String)
    ensures
        r@ == spec_log_line(index as nat, fingerprint@, pattern@),
{
    let mut s = String::from_str("[");
    let digits = u64_to_dec(index);
    s.append(digits.as_str());
    s.append("] ");
    s.append(fingerprint);
    s.append(" - Matched pattern: ");
    s.append(pattern);
    s
}

/// The announcement shown to the operator for a new match.
pub fn match_announcement(fingerprint: &str, pattern: &str) -> (r: String)
    ensures
        r@ == spec_match_announcement(fingerprint@, pattern@),
{
    let mut s = String::from_str("MATCH FOUND! Key: ");
    s.append(fingerprint);
    s.append(" Pattern: ");
    s.append(pattern);
    s
}

} // verus!
