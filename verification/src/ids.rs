//! Identifiers: UUIDs from the `uuid` crate, held as their 128-bit values.

use vstd::prelude::*;
use crate::text::digit_char;

verus! {

/// A fresh random identifier: `uuid::Uuid::new_v4()`, read with
/// `Uuid::as_u128`. Its source masks a random `u128` so that the version
/// nibble (bits 76..80) is 4 and the two variant bits (62..64) are `0b10`;
/// that is all that is claimed, the rest is random.
#[verifier::external_body]
pub fn new_id() -> (id: u128)
    ensures
        (id >> 76u128) & 0xfu128 == 4,
        (id >> 62u128) & 0x3u128 == 2,
{
    uuid::Uuid::new_v4().as_u128()
}

/// What `uuid::Uuid::parse_str` makes of a text: the UUID's 128-bit value,
/// or `None` where it reports an error.
pub uninterp spec fn uuid_parsed(text: Seq<char>) -> Option<u128>;

/// The lower-case hexadecimal digit of `n < 16`.
pub open spec fn hex_digit(n: int) -> char {
    if n < 10 {
        digit_char(n)
    } else if n == 10 {
        'a'
    } else if n == 11 {
        'b'
    } else if n == 12 {
        'c'
    } else if n == 13 {
        'd'
    } else if n == 14 {
        'e'
    } else {
        'f'
    }
}

/// The `k`-th hexadecimal digit (0-31) of `id`, most significant first.
pub open spec fn nibble(id: u128, k: int) -> int {
    ((id >> ((124 - 4 * k) as u128)) & 0xfu128) as int
}

/// The hyphenated lower-case form of an identifier, as `uuid::Uuid`'s
/// `Display` prints it: its 32 hexadecimal digits, most significant first,
/// in groups of 8, 4, 4, 4 and 12 joined by hyphens.
pub open spec fn uuid_text(id: u128) -> Seq<char> {
    Seq::new(
        36,
        |i: int|
            if i == 8 || i == 13 || i == 18 || i == 23 {
                '-'
            } else {
                hex_digit(
                    nibble(
                        id,
                        if i < 8 {
                            i
                        } else if i < 13 {
                            i - 1
                        } else if i < 18 {
                            i - 2
                        } else if i < 23 {
                            i - 3
                        } else {
                            i - 4
                        },
                    ),
                )
            },
    )
}

/// `uuid::Uuid::parse_str`, with the error mapped to `None` and the UUID
/// read with `as_u128`. The result is a function of the text alone, named
/// `uuid_parsed`; the accepted formats are not stated.
#[verifier::external_body]
pub fn parse_id(text: &str) -> (id: Option<u128>)
    ensures
        id == uuid_parsed(text@),
{
    uuid::Uuid::parse_str(text).ok().map(|u| u.as_u128())
}

/// `Uuid::from_u128(id).to_string()`: the hyphenated lower-case form of an
/// identifier (`Display` forwards to `LowerHex` of `as_hyphenated`, over
/// the big-endian bytes that `from_u128` stores). As `parse_str`'s
/// documentation says, it parses every format this crate generates, so the
/// text parses back to the identifier.
#[verifier::external_body]
pub fn id_to_string(id: u128) -> (text: String)
    ensures
        text@ == uuid_text(id),
        uuid_parsed(text@) == Some(id),
{
    uuid::Uuid::from_u128(id).to_string()
}

} // verus!
