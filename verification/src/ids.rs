//! Fresh identifiers.
use vstd::prelude::*;

verus! {

/// A character of Crockford's base 32: a digit, or an upper case letter other
/// than I, L, O and U.
pub open spec fn base32_char(c: char) -> bool {
    '0' <= c <= '9' || ('A' <= c <= 'Z' && c != 'I' && c != 'L' && c != 'O' && c != 'U')
}

/// The form of a ULID: 26 characters of base 32.
pub open spec fn is_ulid(s: Seq<char>) -> bool {
    s.len() == 26 && forall|i: int| 0 <= i < 26 ==> base32_char(#[trigger] s[i])
}

/// `ulid::Ulid::new` draws an id from the clock and a random source, and
/// `Ulid::to_string` writes it as 26 characters of Crockford's base 32. Which
/// id it is rests on chance and time, so only its form is stated.
#[verifier::external_body]
fn draw_ulid() -> (r: String)
    ensures
        is_ulid(r@),
{
    ulid::Ulid::new().to_string()
}

/// A fresh id.
pub fn new_ulid() -> (r: String)
    ensures
        is_ulid(r@),
{
    draw_ulid()
}

} // verus!
