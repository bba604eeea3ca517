//! Identifiers as text: the hyphenated UUID form in which task, entry and
//! history ids are stored and exchanged.
use vstd::prelude::*;

verus! {

/// The lowercase hexadecimal digit for `d` (0 to 15).
pub open spec fn lower_hex_char(d: int) -> char {
    if d < 10 {
        ('0' as int + d) as char
    } else {
        ('a' as int + d - 10) as char
    }
}

/// The `k`-th hexadecimal digit of `id`, counted from the most significant (0 to 31).
pub open spec fn id_nibble(id: u128, k: int) -> int {
    ((id >> (4 * (31 - k)) as u128) & 15u128) as int
}

/// Which of the 32 digits stands at position `i` of the hyphenated form.
pub open spec fn hyphenated_digit_index(i: int) -> int {
    if i < 8 {
        i
    } else if i < 13 {
        i - 1
    } else if i < 18 {
        i - 2
    } else if i < 23 {
        i - 3
    } else {
        i - 4
    }
}

/// The hyphenated lowercase form of an id: its 32 hexadecimal digits, most
/// significant first, in groups of 8, 4, 4, 4 and 12 joined by `-`.
pub open spec fn uuid_hyphenated(id: u128) -> Seq<char> {
    Seq::new(36, |i: int|
        if i == 8 || i == 13 || i == 18 || i == 23 {
            '-'
        } else {
            lower_hex_char(id_nibble(id, hyphenated_digit_index(i)))
        })
}

/// The id that `uuid::Uuid::parse_str` reads from a text, as a 128-bit
/// value; `None` where it refuses the text.
pub uninterp spec fn uuid_parse_value(s: Seq<char>) -> Option<u128>;

/// Writes an id with `uuid::Uuid::from_u128(..).to_string()`: the
/// crate's `Display` writes the hyphenated lowercase form of the big-endian
/// bytes, which is `uuid_hyphenated`.
#[verifier::external_body]
pub(crate) fn format_uuid(id: u128) -> (r: String)
    ensures
        r@ == uuid_hyphenated(id),
{
    uuid::Uuid::from_u128(id).to_string()
}

/// Reads an id with `uuid::Uuid::parse_str`; the result is named by
/// `uuid_parse_value`. The crate documents that every form it writes is
/// accepted, so the hyphenated form of an id reads back as that id.
#[verifier::external_body]
pub(crate) fn parse_uuid(s: &str) -> (r: Option<u128>)
    ensures
        r == uuid_parse_value(s@),
        forall|x: u128| #[trigger] uuid_hyphenated(x) == s@ ==> r == Some(x),
{
    match uuid::Uuid::parse_str(s) {
        Ok(u) => Some(u.as_u128()),
        Err(_) => None,
    }
}

} // verus!
