//! UUIDs, held as the 128-bit numbers they are.

use crate::mux::text::join;
use uuid::Uuid as OutsideUuid;
use vstd::arithmetic::power::pow;
use vstd::prelude::*;

verus! {

/// A UUID as a number, most significant byte first.
pub type Uuid = u128;

/// The lower-case hexadecimal digit that stands for `d`.
pub open spec fn hex_digit(d: int) -> char {
    if d < 10 {
        ('0' as int + d) as char
    } else {
        ('a' as int + d - 10) as char
    }
}

/// The hexadecimal digit of `uuid` at position `k`, counted from the most
/// significant one.
pub open spec fn hex_digit_at(uuid: Uuid, k: int) -> char {
    hex_digit((uuid as int / pow(16, (31 - k) as nat)) % 16)
}

/// The hyphenated form of a UUID: 32 hexadecimal digits in groups of 8, 4, 4,
/// 4 and 12.
pub open spec fn hyphenated(uuid: Uuid) -> Seq<char> {
    Seq::new(
        36,
        |i: int|
            if i == 8 || i == 13 || i == 18 || i == 23 {
                '-'
            } else if i < 8 {
                hex_digit_at(uuid, i)
            } else if i < 13 {
                hex_digit_at(uuid, i - 1)
            } else if i < 18 {
                hex_digit_at(uuid, i - 2)
            } else if i < 23 {
                hex_digit_at(uuid, i - 3)
            } else {
                hex_digit_at(uuid, i - 4)
            },
    )
}

/// Whether the bits that make a UUID a random one (version 4, RFC variant) are
/// set.
pub open spec fn is_random_uuid(uuid: Uuid) -> bool {
    &&& (uuid as int / pow(2, 76)) % 16 == 4
    &&& (uuid as int / pow(2, 62)) % 4 == 2
}

/// `uuid::Uuid::new_v4`: 122 random bits, with the version and the variant of
/// random UUIDs. Nothing is said of the random bits.
#[verifier::external_body]
pub(crate) fn new_uuid() -> (uuid: Uuid)
    ensures
        is_random_uuid(uuid),
{
    OutsideUuid::new_v4().as_u128()
}

/// The name of what `uuid::Uuid::parse_str` makes of a text: the UUID, or the
/// text of the error.
pub uninterp spec fn parsed_uuid(text: Seq<char>) -> Result<Uuid, Seq<char>>;

/// `uuid::Uuid`'s `Display`: the hyphenated lower-case form, which
/// `uuid::Uuid::parse_str` reads as the same UUID again.
#[verifier::external_body]
pub(crate) fn uuid_text(uuid: Uuid) -> (text: String)
    ensures
        text@ == hyphenated(uuid),
        (parsed_uuid(text@) == Ok::<Uuid, Seq<char>>(uuid)),
{
    OutsideUuid::from_u128(uuid).to_string()
}

/// `uuid::Uuid::parse_str`, which accepts several notations: the UUID or the
/// text of the error, a function of the text alone.
#[verifier::external_body]
pub(crate) fn outside_parse_uuid(text: &str) -> (parsed: Result<Uuid, String>)
    ensures
        (match parsed {
            Ok(uuid) => parsed_uuid(text@) matches Ok(named) && named == uuid,
            Err(e) => parsed_uuid(text@) matches Err(reason) && reason == e@,
        }),
{
    match OutsideUuid::parse_str(text) {
        Ok(uuid) => Ok(uuid.as_u128()),
        Err(e) => Err(e.to_string()),
    }
}

/// What becomes of reading a UUID that was sent as text: the error says what was
/// being read.
pub fn described(parsed: Result<Uuid, String>) -> (described: Result<Uuid, String>)
    ensures
        (match parsed {
            Ok(uuid) => described == Ok::<Uuid, String>(uuid),
            Err(reason) => described is Err && described->Err_0@ == "invalid UUID: "@ + reason@,
        }),
{
    match parsed {
        Ok(uuid) => Ok(uuid),
        Err(reason) => Err(join("invalid UUID: ", reason.as_str())),
    }
}

/// Reads a UUID that was sent as text.
pub fn parse_uuid(text: &str) -> (parsed: Result<Uuid, String>)
    ensures
        (match parsed {
            Ok(uuid) => parsed_uuid(text@) matches Ok(named) && named == uuid,
            Err(e) => parsed_uuid(text@) matches Err(reason) && e@ == "invalid UUID: "@ + reason,
        }),
{
    described(outside_parse_uuid(text))
}

} // verus!
