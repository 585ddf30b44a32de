//! Session and clip identifiers: UUIDs as 128-bit numbers.
use vstd::prelude::*;
use vstd::string::*;

verus! {

/// What `uuid::Uuid::parse_str` reads from a text: the number of the UUID, where
/// the text is one in one of the forms that the crate accepts.
pub uninterp spec fn uuid_parsed(s: Seq<char>) -> Option<u128>;

/// The character of a digit, lower case from ten on.
pub open spec fn lower_digit(d: int) -> char {
    if d < 10 {
        (48 + d) as char
    } else {
        (87 + d) as char
    }
}

/// The last `count` hexadecimal digits of `n`.
pub open spec fn lower_hex(n: nat, count: nat) -> Seq<char>
    decreases count,
{
    if count == 0 {
        Seq::empty()
    } else {
        lower_hex(n / 16, (count - 1) as nat).push(lower_digit((n % 16) as int))
    }
}

/// The hyphenated text of a UUID: 8, 4, 4, 4 and 12 hexadecimal digits.
pub open spec fn hyphenated(id: u128) -> Seq<char> {
    let h = lower_hex(id as nat, 32);
    h.subrange(0, 8) + "-"@ + h.subrange(8, 12) + "-"@ + h.subrange(12, 16) + "-"@ + h.subrange(
        16,
        20,
    ) + "-"@ + h.subrange(20, 32)
}

/// Does the number carry the version (4) and variant bits of a random UUID?
pub open spec fn is_random_uuid(id: u128) -> bool {
    &&& id as int / 0x1000_0000_0000_0000_0000 % 16 == 4
    &&& id as int / 0x4000_0000_0000_0000 % 4 == 2
}

/// `uuid::Uuid::parse_str`, named by [`uuid_parsed`].
#[verifier::external_body]
pub(crate) fn parse_uuid(s: &str) -> (r: Option<u128>)
    ensures
        r == uuid_parsed(s@),
{
    uuid::Uuid::parse_str(s).ok().map(|u| u.as_u128())
}

/// The text of `uuid::Uuid`'s `Display`: the hyphenated form, which
/// `Uuid::parse_str` reads back.
#[verifier::external_body]
pub(crate) fn uuid_text(id: u128) -> (r: String)
    ensures
        r@ == hyphenated(id),
        uuid_parsed(r@) == Some(id),
{
    uuid::Uuid::from_u128(id).to_string()
}

/// `uuid::Uuid::new_v4`: a random UUID. Nothing but its version and variant bits
/// is known beforehand.
#[verifier::external_body]
pub(crate) fn new_uuid() -> (r: u128)
    ensures
        is_random_uuid(r),
{
    uuid::Uuid::new_v4().as_u128()
}

} // verus!
