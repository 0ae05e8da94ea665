//! External identifiers: UUIDs, held as their 128-bit values.

use vstd::prelude::*;

verus! {

/// What `Uuid::parse_str` yields for a text, as the 128-bit value of the
/// identifier, or `None` where the text is no identifier.
pub uninterp spec fn uuid_parse(s: Seq<char>) -> Option<u128>;

/// The lower-case hex digit of a nibble.
pub open spec fn hex_digit(n: nat) -> char {
    seq!['0', '1', '2', '3', '4', '5', '6', '7', '8', '9', 'a', 'b', 'c', 'd', 'e', 'f'][n as int % 16]
}

/// The last `count` hex digits of `v`, most significant first.
pub open spec fn hex_digits(v: nat, count: nat) -> Seq<char>
    decreases count,
{
    if count == 0 {
        Seq::empty()
    } else {
        hex_digits(v / 16, (count - 1) as nat).push(hex_digit(v % 16))
    }
}

/// The hyphenated lower-case text of an identifier: 32 hex digits in groups
/// of 8, 4, 4, 4 and 12.
pub open spec fn uuid_text(v: u128) -> Seq<char> {
    let d = hex_digits(v as nat, 32);
    d.subrange(0, 8) + seq!['-'] + d.subrange(8, 12) + seq!['-'] + d.subrange(12, 16) + seq!['-']
        + d.subrange(16, 20) + seq!['-'] + d.subrange(20, 32)
}

/// Relies on `uuid::Uuid::parse_str` and `Uuid::as_u128`: the result depends
/// on the text alone.
#[verifier::external_body]
pub(crate) fn parse_pid(s: &str) -> (r: Option<u128>)
    ensures
        r == uuid_parse(s@),
{
    uuid::Uuid::parse_str(s).ok().map(|u| u.as_u128())
}

/// Relies on `uuid::Uuid::from_u128` and its `Display`, which writes the
/// hyphenated lower-case form, and on `Uuid::parse_str` reading back every
/// form the crate writes.
#[verifier::external_body]
pub(crate) fn pid_text(v: u128) -> (r: String)
    ensures
        r@ == uuid_text(v),
        uuid_parse(r@) == Some(v),
{
    uuid::Uuid::from_u128(v).to_string()
}

/// Relies on `uuid::Uuid::new_v4`: a random identifier, of which nothing is
/// promised.
#[verifier::external_body]
pub(crate) fn fresh_pid() -> (r: u128) {
    uuid::Uuid::new_v4().as_u128()
}

} // verus!
