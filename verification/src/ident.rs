//! Identifiers. A book is known by a UUID, held as its 128-bit value; the
//! `uuid` crate draws new ones and writes them as text.

use vstd::arithmetic::power::pow;
use vstd::prelude::*;

verus! {

/// The sixteen lower-case hexadecimal digits, each at the index it stands for.
pub open spec fn hex_digits() -> Seq<char> {
    seq!['0', '1', '2', '3', '4', '5', '6', '7', '8', '9', 'a', 'b', 'c', 'd', 'e', 'f']
}

/// Digit `k` of `id` written with 32 hexadecimal digits, most significant
/// first (`0 <= k < 32`).
pub open spec fn digit(id: u128, k: int) -> int {
    (id as int / pow(16, (31 - k) as nat)) % 16
}

/// Digits `from..to` of `id`, as lower-case text.
pub open spec fn hex(id: u128, from: int, to: int) -> Seq<char> {
    Seq::new((to - from) as nat, |k: int| hex_digits()[digit(id, from + k)])
}

/// `id` as text: its 32 digits in groups of 8, 4, 4, 4 and 12, with a hyphen
/// between the groups.
pub open spec fn hyphenated(id: u128) -> Seq<char> {
    hex(id, 0, 8) + seq!['-'] + hex(id, 8, 12) + seq!['-'] + hex(id, 12, 16) + seq!['-'] + hex(
        id,
        16,
        20,
    ) + seq!['-'] + hex(id, 20, 32)
}

/// Whether `id` is marked as drawn at random: its version digit is 4 and its
/// variant digit is one of 8, 9, a, b.
pub open spec fn is_random(id: u128) -> bool {
    digit(id, 12) == 4 && 8 <= digit(id, 16) < 12
}

/// A new identifier, from `uuid::Uuid::new_v4`. Which one is left to chance,
/// so only what that function fixes is claimed: it overwrites the version and
/// variant bits of 128 random bits. It panics where the operating system
/// cannot supply random bytes.
#[verifier::external_body]
pub(crate) fn fresh_id() -> (id: u128)
    ensures
        is_random(id),
{
    uuid::Uuid::new_v4().as_u128()
}

/// `id` as `uuid::Uuid` displays it: lower-case and hyphenated. `from_u128`
/// takes the value most significant byte first, and the formatter writes two
/// digits per byte in that order.
#[verifier::external_body]
pub(crate) fn id_text(id: u128) -> (text: String)
    ensures
        text@ == hyphenated(id),
{
    format!("{}", uuid::Uuid::from_u128(id))
}

} // verus!
