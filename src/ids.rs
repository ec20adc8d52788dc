use vstd::arithmetic::power::pow;
use vstd::prelude::*;

use crate::text::hex_digit;

verus! {

/// The `i`-th hexadecimal digit of `v`, counted from the most significant (`0 <= i < 32`).
pub open spec fn nibble(v: u128, i: int) -> int {
    (v as int / pow(16, (31 - i) as nat)) % 16
}

/// How many hyphens stand before position `k` of the hyphenated form.
pub open spec fn hyphens_before(k: int) -> int {
    if k < 9 {
        0
    } else if k < 14 {
        1
    } else if k < 19 {
        2
    } else if k < 24 {
        3
    } else {
        4
    }
}

/// The hyphenated form of a 128-bit identifier: its 32 lowercase hexadecimal digits,
/// most significant first, in groups of 8, 4, 4, 4 and 12 joined by `-`.
pub open spec fn uuid_text(v: u128) -> Seq<char> {
    Seq::new(
        36,
        |k: int|
            if k == 8 || k == 13 || k == 18 || k == 23 {
                '-'
            } else {
                hex_digit(nibble(v, k - hyphens_before(k)))
            },
    )
}

/// What the identifier parser makes of a text: `None` where it is not an identifier.
pub uninterp spec fn parsed_id(s: Seq<char>) -> Option<u128>;

/// Relies on `uuid::Uuid::from_u128` and the `Display` of `Uuid`, which writes the
/// 16 big-endian bytes as lowercase hexadecimal in the hyphenated layout.
#[verifier::external_body]
pub(crate) fn id_text(v: u128) -> (r: String)
    ensures
        r@ == uuid_text(v),
{
    uuid::Uuid::from_u128(v).to_string()
}

/// Relies on `uuid::Uuid::parse_str`, which reads, among other layouts, the hyphenated
/// form that `id_text` writes.
#[verifier::external_body]
pub(crate) fn parse_id(s: &str) -> (r: Option<u128>)
    ensures
        r == parsed_id(s@),
        forall|v: u128| s@ == uuid_text(v) ==> r == Some(v),
{
    match uuid::Uuid::parse_str(s) {
        Ok(u) => Some(u.as_u128()),
        Err(_) => None,
    }
}

/// Relies on `uuid::Uuid::new_v4`: a random identifier; nothing is known of its value.
#[verifier::external_body]
pub(crate) fn fresh_id() -> (r: u128) {
    uuid::Uuid::new_v4().as_u128()
}

} // verus!
