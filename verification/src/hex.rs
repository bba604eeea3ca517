//! Lower-case hexadecimal encoding of byte strings (device ids, pairing nonces).
use vstd::prelude::*;
use crate::text::{chars_of, lemma_encode_utf8_push, push_char};
use vstd::utf8::encode_utf8;

verus! {

/// The lower-case hex digit for a value below 16.
pub open spec fn hex_digit(v: u8) -> char {
    if v < 10 {
        (('0' as u8) + v) as char
    } else {
        (('a' as u8) + (v - 10)) as char
    }
}

/// The value of a hex digit (either case), if it is one.
pub open spec fn hex_value(c: char) -> Option<u8> {
    if '0' <= c && c <= '9' {
        Some(((c as u32) - ('0' as u32)) as u8)
    } else if 'a' <= c && c <= 'f' {
        Some(((c as u32) - ('a' as u32) + 10) as u8)
    } else if 'A' <= c && c <= 'F' {
        Some(((c as u32) - ('A' as u32) + 10) as u8)
    } else {
        None
    }
}

/// Two lower-case hex digits for each byte.
pub open spec fn hex_encode(bytes: Seq<u8>) -> Seq<char>
    decreases bytes.len(),
{
    if bytes.len() == 0 {
        Seq::empty()
    } else {
        hex_encode(bytes.drop_last()) + seq![hex_digit(bytes.last() / 16), hex_digit(bytes.last() % 16)]
    }
}

/// The byte a two-character group denotes under `u8::from_str_radix(_, 16)`:
/// two hex digits, or `+` followed by one hex digit.
pub open spec fn hex_pair(a: char, b: char) -> Option<u8> {
    match (hex_value(a), hex_value(b)) {
        (Some(x), Some(y)) => Some((x * 16 + y) as u8),
        (None, Some(y)) => if a == '+' {
            Some(y)
        } else {
            None
        },
        _ => None,
    }
}

/// All characters are ASCII.
pub open spec fn all_ascii(s: Seq<char>) -> bool {
    forall|i: int| 0 <= i < s.len() ==> (#[trigger] s[i] as u32) <= 0x7F
}

/// Decoding of an even-length ASCII string, pair by pair.
pub open spec fn hex_decode_pairs(s: Seq<char>) -> Option<Seq<u8>>
    decreases s.len(),
{
    if s.len() < 2 {
        Some(Seq::empty())
    } else {
        match (hex_decode_pairs(s.drop_last().drop_last()), hex_pair(s[s.len() - 2], s[s.len() - 1])) {
            (Some(prev), Some(b)) => Some(prev.push(b)),
            _ => None,
        }
    }
}

/// The result of hex decoding: an even number of ASCII characters forming valid pairs.
pub open spec fn hex_decode(s: Seq<char>) -> Option<Seq<u8>> {
    if !all_ascii(s) || s.len() % 2 != 0 {
        None
    } else {
        hex_decode_pairs(s)
    }
}

fn digit_of(v: u8) -> (c: char)
    requires
        v < 16,
    ensures
        c == hex_digit(v),
{
    if v < 10 {
        (48u8 + v) as char
    } else {
        (97u8 + (v - 10)) as char
    }
}

/// Lower-case hex encoding of a byte slice.
pub fn encode(bytes: &[u8]) -> (r: String)
    ensures
        r@ == hex_encode(bytes@),
        r@.len() == 2 * bytes@.len(),
{
    proof {
        lemma_encode_shape(bytes@);
    }
    let mut out = String::new();
    let mut i: usize = 0;
    while i < bytes.len()
        invariant
            i <= bytes@.len(),
            out@ == hex_encode(bytes@.take(i as int)),
        decreases bytes.len() - i,
    {
        let b = bytes[i];
        assert(bytes@.take((i + 1) as int).drop_last() =~= bytes@.take(i as int));
        push_char(&mut out, digit_of(b / 16));
        push_char(&mut out, digit_of(b % 16));
        i = i + 1;
    }
    assert(bytes@.take(bytes.len() as int) =~= bytes@);
    out
}

fn value_of(c: char) -> (r: Option<u8>)
    ensures
        r == hex_value(c),
{
    if '0' <= c && c <= '9' {
        Some(((c as u32) - 48) as u8)
    } else if 'a' <= c && c <= 'f' {
        Some(((c as u32) - 97 + 10) as u8)
    } else if 'A' <= c && c <= 'F' {
        Some(((c as u32) - 65 + 10) as u8)
    } else {
        None
    }
}

fn pair_of(a: char, b: char) -> (r: Option<u8>)
    ensures
        r == hex_pair(a, b),
{
    match (value_of(a), value_of(b)) {
        (Some(x), Some(y)) => Some(x * 16 + y),
        (None, Some(y)) => if a == '+' {
            Some(y)
        } else {
            None
        },
        _ => None,
    }
}

/// The message of a failed decode: a text of odd UTF-8 length is refused
/// for its length, anything else for a character that is no hex digit.
pub open spec fn hex_decode_error(s: Seq<char>) -> Seq<char> {
    if encode_utf8(s).len() % 2 == 1 {
        "invalid hex length"@
    } else {
        "invalid digit found in string"@
    }
}

/// Decodes hex text (either case) into bytes; odd length, non-ASCII text or
/// an invalid pair is an error, with the message `hex_decode_error` gives.
pub fn decode(s: &str) -> (r: Result<Vec<u8>, String>)
    ensures
        match r {
            Ok(v) => hex_decode(s@) == Some(v@),
            Err(e) => hex_decode(s@) is None && e@ == hex_decode_error(s@),
        },
{
    let cs = chars_of(s);
    let mut odd = false;
    let mut ascii = true;
    let mut k: usize = 0;
    assert(cs@.take(0) =~= Seq::<char>::empty());
    assert(encode_utf8(Seq::<char>::empty()) =~= Seq::<u8>::empty());
    while k < cs.len()
        invariant
            k <= cs.len(),
            cs@ == s@,
            odd == (encode_utf8(cs@.take(k as int)).len() % 2 == 1),
            ascii == (forall|j: int| 0 <= j < k ==> (#[trigger] cs@[j] as u32) <= 0x7F),
            ascii ==> encode_utf8(cs@.take(k as int)).len() == k,
        decreases cs.len() - k,
    {
        let c = cs[k];
        proof {
            lemma_encode_utf8_push(cs@.take(k as int), c);
            assert(cs@.take(k as int).push(c) =~= cs@.take((k + 1) as int));
        }
        let v = c as u32;
        if v <= 0x7F || (v > 0x7FF && v <= 0xFFFF) {
            odd = !odd;
        }
        if v > 0x7F {
            ascii = false;
            assert(!((cs@[k as int] as u32) <= 0x7F));
        }
        k = k + 1;
    }
    assert(cs@.take(cs.len() as int) =~= cs@);
    if odd {
        return Err(String::from_str("invalid hex length"));
    }
    if !ascii {
        assert(!all_ascii(s@));
        return Err(String::from_str("invalid digit found in string"));
    }
    assert(all_ascii(s@));
    assert(cs.len() % 2 == 0);
    let mut out: Vec<u8> = Vec::new();
    let mut i: usize = 0;
    while i < cs.len()
        invariant
            i <= cs.len(),
            cs@ == s@,
            all_ascii(s@),
            i % 2 == 0,
            cs.len() % 2 == 0,
            encode_utf8(s@).len() % 2 == 0,
            hex_decode_pairs(cs@.take(i as int)) == Some(out@),
        decreases cs.len() - i,
    {
        let ghost t = cs@.take((i + 2) as int);
        assert(t.drop_last().drop_last() =~= cs@.take(i as int));
        assert(t[t.len() - 2] == cs@[i as int] && t[t.len() - 1] == cs@[i + 1]);
        match pair_of(cs[i], cs[i + 1]) {
            Some(b) => {
                out.push(b);
            },
            None => {
                proof {
                    lemma_decode_prefix_fails(cs@, (i + 2) as int);
                }
                return Err(String::from_str("invalid digit found in string"));
            },
        }
        i = i + 2;
    }
    assert(cs@.take(cs.len() as int) =~= cs@);
    Ok(out)
}

proof fn lemma_decode_prefix_fails(s: Seq<char>, k: int)
    requires
        2 <= k <= s.len(),
        k % 2 == 0,
        s.len() % 2 == 0,
        hex_decode_pairs(s.take(k)) is None,
    ensures
        hex_decode_pairs(s) is None,
    decreases s.len() - k,
{
    if k < s.len() {
        let t = s.take(k + 2);
        assert(t.drop_last().drop_last() =~= s.take(k));
        lemma_decode_prefix_fails(s, k + 2);
    } else {
        assert(s.take(k) =~= s);
    }
}

/// Law: hex decoding inverts hex encoding.
pub proof fn law_decode_encode(bytes: Seq<u8>)
    ensures
        hex_decode(hex_encode(bytes)) == Some(bytes),
    decreases bytes.len(),
{
    lemma_encode_shape(bytes);
    if bytes.len() > 0 {
        law_decode_encode(bytes.drop_last());
        let e = hex_encode(bytes);
        let b = bytes.last();
        assert(e.drop_last().drop_last() =~= hex_encode(bytes.drop_last()));
        assert(hex_value(hex_digit(b / 16)) == Some(b / 16));
        assert(hex_value(hex_digit(b % 16)) == Some(b % 16));
        assert(bytes.drop_last().push(b) =~= bytes);
    }
}

proof fn lemma_encode_shape(bytes: Seq<u8>)
    ensures
        hex_encode(bytes).len() == 2 * bytes.len(),
        all_ascii(hex_encode(bytes)),
        hex_encode(bytes).len() % 2 == 0,
    decreases bytes.len(),
{
    if bytes.len() > 0 {
        lemma_encode_shape(bytes.drop_last());
        let prev = hex_encode(bytes.drop_last());
        let e = hex_encode(bytes);
        assert forall|i: int| 0 <= i < e.len() implies (#[trigger] e[i] as u32) <= 0x7F by {
            if i < prev.len() {
                assert(e[i] == prev[i]);
            }
        }
    }
}


/// Every character is a hex digit, in either case.
pub open spec fn all_hex_digits(s: Seq<char>) -> bool {
    forall|i: int| 0 <= i < s.len() ==> #[trigger] hex_value(s[i]) is Some
}

proof fn lemma_digit_reencodes(c: char)
    requires
        hex_value(c) is Some,
    ensures
        hex_digit(hex_value(c)->0) == crate::text::ascii_lower(c),
        hex_value(c)->0 < 16,
        (c as u32) <= 0x7F,
{
}

proof fn lemma_hex_text_pairs(s: Seq<char>)
    requires
        all_hex_digits(s),
        s.len() % 2 == 0,
    ensures
        hex_decode_pairs(s) matches Some(v) && v.len() * 2 == s.len() && hex_encode(v) == crate::text::ascii_lower_seq(s),
    decreases s.len(),
{
    if s.len() == 0 {
        assert(crate::text::ascii_lower_seq(s) =~= Seq::<char>::empty());
    } else {
        let t = s.drop_last().drop_last();
        assert forall|i: int| 0 <= i < t.len() implies #[trigger] hex_value(t[i]) is Some by {
            assert(t[i] == s[i]);
        }
        lemma_hex_text_pairs(t);
        let a = s[s.len() - 2];
        let b = s[s.len() - 1];
        assert(hex_value(a) is Some);
        assert(hex_value(b) is Some);
        lemma_digit_reencodes(a);
        lemma_digit_reencodes(b);
        let x = hex_value(a)->0;
        let y = hex_value(b)->0;
        let byte = (x * 16 + y) as u8;
        assert(byte / 16 == x && byte % 16 == y) by (nonlinear_arith)
            requires x < 16, y < 16, byte == x * 16 + y;
        let v0 = hex_decode_pairs(t)->0;
        let v = v0.push(byte);
        assert(hex_decode_pairs(s) == Some(v));
        assert(v.drop_last() =~= v0);
        assert(hex_encode(v) == hex_encode(v0) + seq![hex_digit(byte / 16), hex_digit(byte % 16)]);
        assert(crate::text::ascii_lower_seq(s) =~= crate::text::ascii_lower_seq(t)
            + seq![crate::text::ascii_lower(a), crate::text::ascii_lower(b)]);
    }
}

/// Law: an even-length text of hex digits (either case) always decodes, to
/// half as many bytes, and encoding them gives back the text in lower case.
pub proof fn law_hex_text_decodes(s: Seq<char>)
    requires
        all_hex_digits(s),
        s.len() % 2 == 0,
    ensures
        hex_decode(s) matches Some(v) && v.len() * 2 == s.len() && hex_encode(v) == crate::text::ascii_lower_seq(s),
{
    lemma_hex_text_pairs(s);
    assert forall|i: int| 0 <= i < s.len() implies (#[trigger] s[i] as u32) <= 0x7F by {
        lemma_digit_reencodes(s[i]);
    }
}

} // verus!
