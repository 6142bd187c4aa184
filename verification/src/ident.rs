//! Identifiers: 128-bit numbers, written and read as UUIDs.

use vstd::prelude::*;
use vstd::arithmetic::power::pow;

verus! {

/// The sixteen hexadecimal digits, lower case.
pub open spec fn hex_digits() -> Seq<char> {
    seq!['0', '1', '2', '3', '4', '5', '6', '7', '8', '9', 'a', 'b', 'c', 'd', 'e', 'f']
}

/// The value of the `k`-th of the 32 hexadecimal digits of `id`, counted from
/// the most significant.
pub open spec fn nibble(id: u128, k: int) -> int
    recommends
        0 <= k < 32,
{
    (id as int / pow(16, (31 - k) as nat)) % 16
}

/// The text of the identifier `id`: its 32 hexadecimal digits, lower case and
/// most significant first, in groups of 8, 4, 4, 4 and 12 with a hyphen
/// between two groups.
pub open spec fn uuid_text(id: u128) -> Seq<char> {
    Seq::new(
        36,
        |i: int|
            if i == 8 || i == 13 || i == 18 || i == 23 {
                '-'
            } else {
                let hyphens: int = if i < 8 {
                    0
                } else if i < 13 {
                    1
                } else if i < 18 {
                    2
                } else if i < 23 {
                    3
                } else {
                    4
                };
                hex_digits()[nibble(id, i - hyphens)]
            },
    )
}

/// What `uuid` reads from `text`: the identifier, or `None` where the text is
/// in none of the forms that `Uuid::from_str` accepts.
pub uninterp spec fn uuid_parse(text: Seq<char>) -> Option<u128>;

/// A new random identifier, drawn with `uuid::Uuid::new_v4`.
///
/// The value depends on the random source. What holds of every draw is that
/// it is a version 4 UUID of the RFC variant: `new_v4` sets those six bits
/// and leaves the rest to chance.
#[verifier::external_body]
pub(crate) fn random_id() -> (id: u128)
    ensures
        (id >> 76) & 0xf == 4,
        (id >> 62) & 0x3 == 2,
{
    uuid::Uuid::new_v4().as_u128()
}

/// Writes `id` as text with `Uuid`'s `Display` (through `to_string`).
///
/// The contract states the text, which is the hyphenated lower-case form,
/// and records that `Uuid::from_str` reads that form back to the same
/// identifier.
#[verifier::external_body]
pub(crate) fn write_id(id: u128) -> (text: String)
    ensures
        text@ == uuid_text(id),
        uuid_parse(text@) == Some(id),
{
    uuid::Uuid::from_u128(id).to_string()
}

/// Reads an identifier from text with `Uuid::from_str`; a text that it
/// rejects gives `None`.
#[verifier::external_body]
pub(crate) fn read_id(text: &str) -> (id: Option<u128>)
    ensures
        id == uuid_parse(text@),
{
    match <uuid::Uuid as std::str::FromStr>::from_str(text) {
        Ok(parsed) => Some(parsed.as_u128()),
        Err(_) => None,
    }
}

/// The identifier that a path segment or a stored text stands for, if it
/// stands for one.
pub fn parse_id(text: &str) -> (id: Option<u128>)
    ensures
        id == uuid_parse(text@),
{
    read_id(text)
}

/// The text form of an identifier. Reading the text gives the identifier
/// back.
pub fn id_text(id: u128) -> (text: String)
    ensures
        text@ == uuid_text(id),
        uuid_parse(text@) == Some(id),
{
    write_id(id)
}

} // verus!
