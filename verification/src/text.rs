//! Building the texts that are shown to the player.

use vstd::prelude::*;
use vstd::string::StringExecFns;

verus! {

/// The character for the digit `d`.
pub open spec fn digit(d: nat) -> char {
    (48 + d) as char
}

/// `n` written in decimal, without leading zeros.
pub open spec fn digits(n: nat) -> Seq<char>
    decreases n,
{
    if n < 10 {
        seq![digit(n)]
    } else {
        digits(n / 10).push(digit(n % 10))
    }
}

/// Writes `n` in decimal.
///
/// Calls `ToString::to_string` of std on a `u64`. Nothing is proved of it;
/// it is taken to write the number in decimal without sign, padding or
/// leading zeros, which is how std displays an unsigned integer.
#[verifier::external_body]
pub(crate) fn decimal(n: u64) -> (s: String)
    ensures
        s@ == digits(n as nat),
{
    n.to_string()
}

/// The text `before`, then `n` in decimal, then `after`.
pub open spec fn around(before: Seq<char>, n: nat, after: Seq<char>) -> Seq<char> {
    before + digits(n) + after
}

/// Builds the text that [`around`] describes.
pub fn with_number(before: &str, n: u64, after: &str) -> (s: String)
    ensures
        s@ == around(before@, n as nat, after@),
{
    let mut s = before.to_owned();
    let number = decimal(n);
    s.append(number.as_str());
    s.append(after);
    s
}

} // verus!
