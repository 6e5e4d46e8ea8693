//! The progress reporter's arithmetic and display text. The reporter itself
//! is a polling loop in the surrounding application; it reads the shared
//! counters, derives the values below, and shows them.

use crate::decimal::dec_seq;
use crate::decimal::u64_to_dec;
use vstd::prelude::*;

verus! {

/// The displayed throughput: attempts completed per whole elapsed second,
/// integer-truncating, and zero until one whole second has elapsed.
pub fn throughput(attempts_completed: u64, elapsed_secs: u64) -> (r: u64)
    ensures
        elapsed_secs > 0 ==> r == attempts_completed as int / elapsed_secs as int,
        elapsed_secs == 0 ==> r == 0,
{
    if elapsed_secs > 0 {
        attempts_completed / elapsed_secs
    } else {
        0
    }
}

/// Whether the reporter keeps polling: it runs until the attempts completed
/// reach the configured total.
pub fn reporter_running(attempts_completed: u64, total: u64) -> (r: bool)
    ensures
        r == (attempts_completed < total),
{
    attempts_completed < total
}

/// The reporter's live message: `(<speed>/s) | Found: <found>`.
pub open spec fn spec_progress_message(speed: nat, found: nat) -> Seq<char> {
    "("@ + dec_seq(speed) + "/s) | Found: "@ + dec_seq(found)
}

/// The live message shown beside the progress position.
pub fn progress_message(speed: u64, found: u64) -> (r: String)
    ensures
        r@ == spec_progress_message(speed as nat, found as nat),
{
    let mut s = String::from_str("(");
    let speed_digits = u64_to_dec(speed);
    s.append(speed_digits.as_str());
    s.append("/s) | Found: ");
    let found_digits = u64_to_dec(found);
    s.append(found_digits.as_str());
    s
}

} // verus!
