//! Fresh randomness for challenges and ledger seeds, through the `rand`
//! crate.

use vstd::prelude::*;

verus! {

/// The alphabet ledger seeds are drawn from.
pub const ALPH9: &'static str = "ABCDEFGHIJKLMNOPQRSTUVWXYZ9";

pub open spec fn is_alnum_byte(b: u8) -> bool {
    (65 <= b <= 90) || (97 <= b <= 122) || (48 <= b <= 57)
}

pub open spec fn is_seed_char(c: char) -> bool {
    ('A' <= c && c <= 'Z') || c == '9'
}

/// A fresh 30-character alphanumeric challenge.
///
/// Relies on rand's `Alphanumeric` distribution: every sampled byte is an
/// ASCII letter or digit. Nothing else is assumed of the outcome.
#[verifier::external_body]
pub fn generate_random_sequence() -> (r: Vec<u8>)
    ensures
        r@.len() == 30,
        forall|i: int| 0 <= i < r@.len() ==> is_alnum_byte(#[trigger] r@[i]),
{
    rand::Rng::sample_iter(rand::thread_rng(), &rand::distributions::Alphanumeric).take(
        30,
    ).collect()
}

/// A fresh 81-character seed over the ternary seed alphabet.
///
/// Relies on rand's `gen_range`: every drawn index selects one character of
/// [`ALPH9`]. Nothing else is assumed of the outcome.
#[verifier::external_body]
pub fn generate_seed() -> (r: String)
    ensures
        r@.len() == 81,
        forall|i: int| 0 <= i < r@.len() ==> is_seed_char(#[trigger] r@[i]),
{
    (0..81).map(
        |_| ALPH9.chars().nth(rand::Rng::gen_range(&mut rand::thread_rng(), 0..27)).unwrap(),
    ).collect()
}

} // verus!
