//! Fresh identities.

use crate::workspace::ProjectId;
use vstd::prelude::*;

verus! {

/// The number is that of a random UUID: version four, of the variant that
/// RFC 9562 describes.
pub open spec fn random_uuid(n: u128) -> bool {
    (n / 0x1000_0000_0000_0000_0000) % 16 == 4 && (n / 0x4000_0000_0000_0000) % 4 == 2
}

/// `uuid::Uuid::new_v4` and `uuid::Uuid::as_u128`: the bits of a random UUID.
/// Which one it is rests on chance.
#[verifier::external_body]
pub(crate) fn new_uuid() -> (r: u128)
    ensures
        random_uuid(r),
{
    uuid::Uuid::new_v4().as_u128()
}

/// An identity for a project that has none.
pub fn new_project_id() -> (r: ProjectId)
    ensures
        random_uuid(r.0),
{
    ProjectId(new_uuid())
}

/// The character of one hexadecimal digit.
pub open spec fn hex_char(d: int) -> char {
    if d < 10 {
        crate::text::digit_char(d as nat)
    } else if d == 10 {
        'a'
    } else if d == 11 {
        'b'
    } else if d == 12 {
        'c'
    } else if d == 13 {
        'd'
    } else if d == 14 {
        'e'
    } else {
        'f'
    }
}

/// The hexadecimal digit of a number at a place, from the first of thirty-two.
pub open spec fn hex_digit(n: u128, place: int) -> int {
    (n as int / vstd::arithmetic::power::pow(16, (31 - place) as nat)) % 16
}

/// The number written as a UUID: its hexadecimal digits in groups of eight,
/// four, four, four and twelve with hyphens between them.
pub open spec fn hyphenated(n: u128) -> Seq<char> {
    Seq::new(
        36,
        |i: int|
            if i == 8 || i == 13 || i == 18 || i == 23 {
                '-'
            } else if i < 8 {
                hex_char(hex_digit(n, i))
            } else if i < 13 {
                hex_char(hex_digit(n, i - 1))
            } else if i < 18 {
                hex_char(hex_digit(n, i - 2))
            } else if i < 23 {
                hex_char(hex_digit(n, i - 3))
            } else {
                hex_char(hex_digit(n, i - 4))
            },
    )
}

/// `uuid::Uuid::hyphenated` of `uuid::Uuid::from_u128`, as text: the digits of
/// the number in lower case, in the groups of a UUID.
#[verifier::external_body]
pub(crate) fn uuid_text(n: u128) -> (r: String)
    ensures
        r@ == hyphenated(n),
{
    uuid::Uuid::from_u128(n).hyphenated().to_string()
}

} // verus!
