//! Identities: the 36-character textual form and the 16-byte layout that the
//! peer uses natively. The first three groups of the text are stored with
//! their bytes reversed, the last two in textual order.
use crate::errors::DecodeError;
use crate::text::{chars_of, string_of};
use vstd::prelude::*;

verus! {

/// Whether `c` is a hexadecimal digit, in either case.
pub open spec fn is_hex(c: char) -> bool {
    ('0' <= c && c <= '9') || ('a' <= c && c <= 'f') || ('A' <= c && c <= 'F')
}

/// Whether `c` is a hexadecimal digit as the canonical form writes it:
/// a decimal digit or a lower-case letter.
pub open spec fn is_lower_hex(c: char) -> bool {
    ('0' <= c && c <= '9') || ('a' <= c && c <= 'f')
}

/// The value of a hexadecimal digit.
pub open spec fn hex_value(c: char) -> int {
    if '0' <= c && c <= '9' {
        c as int - '0' as int
    } else if 'a' <= c && c <= 'f' {
        c as int - 'a' as int + 10
    } else {
        c as int - 'A' as int + 10
    }
}

/// The lower-case hexadecimal digit of a value below 16.
pub open spec fn hex_digit(v: int) -> char {
    if v < 10 {
        ('0' as int + v) as char
    } else {
        ('a' as int + v - 10) as char
    }
}

/// Whether position `i` of an identity's text holds a hyphen.
pub open spec fn is_hyphen_position(i: int) -> bool {
    i == 8 || i == 13 || i == 18 || i == 23
}

/// Whether `s` has the shape of an identity: 36 characters, hyphens after
/// the 8th, 12th, 16th and 20th digit, hexadecimal digits elsewhere.
pub open spec fn is_guid_text(s: Seq<char>) -> bool {
    &&& s.len() == 36
    &&& forall|i: int|
        0 <= i < 36 ==> if is_hyphen_position(i) {
            s[i] == '-'
        } else {
            is_hex(#[trigger] s[i])
        }
}

/// Whether `s` is an identity in canonical form: the shape of an identity
/// with every letter in lower case.
pub open spec fn is_canonical_guid_text(s: Seq<char>) -> bool {
    &&& s.len() == 36
    &&& forall|i: int|
        0 <= i < 36 ==> if is_hyphen_position(i) {
            s[i] == '-'
        } else {
            is_lower_hex(#[trigger] s[i])
        }
}

/// The byte written by the two digits at positions `i` and `i + 1` of `s`.
pub open spec fn text_byte(s: Seq<char>, i: int) -> u8 {
    (16 * hex_value(s[i]) + hex_value(s[i + 1])) as u8
}

/// The two lower-case digits that write `b`.
pub open spec fn byte_text(b: u8) -> Seq<char> {
    seq![hex_digit(b as int / 16), hex_digit(b as int % 16)]
}

/// The position in the text of the first digit of byte `k` of the layout.
pub open spec fn text_offset(k: int) -> int {
    if k == 0 {
        6
    } else if k == 1 {
        4
    } else if k == 2 {
        2
    } else if k == 3 {
        0
    } else if k == 4 {
        11
    } else if k == 5 {
        9
    } else if k == 6 {
        16
    } else if k == 7 {
        14
    } else if k == 8 {
        19
    } else if k == 9 {
        21
    } else {
        2 * k + 4
    }
}

/// The 16-byte layout of the identity written by `s`.
pub open spec fn guid_bytes(s: Seq<char>) -> Seq<u8> {
    Seq::new(16, |k: int| text_byte(s, text_offset(k)))
}

/// The number of digits that stand before position `i` of the text.
pub open spec fn digits_before(i: int) -> int {
    if i < 8 {
        i
    } else if i < 13 {
        i - 1
    } else if i < 18 {
        i - 2
    } else if i < 23 {
        i - 3
    } else {
        i - 4
    }
}

/// The byte of the layout that the `pair`-th pair of digits of the text writes.
pub open spec fn layout_index(pair: int) -> int {
    if pair < 4 {
        3 - pair
    } else if pair == 4 {
        5
    } else if pair == 5 {
        4
    } else if pair == 6 {
        7
    } else if pair == 7 {
        6
    } else {
        pair
    }
}

/// The canonical text of the identity with layout `b`: at each position a
/// hyphen, or the high or low digit of the byte that the position writes.
pub open spec fn guid_text(b: Seq<u8>) -> Seq<char> {
    Seq::new(
        36,
        |i: int|
            if is_hyphen_position(i) {
                '-'
            } else {
                let byte = b[layout_index(digits_before(i) / 2)] as int;
                if digits_before(i) % 2 == 0 {
                    hex_digit(byte / 16)
                } else {
                    hex_digit(byte % 16)
                }
            },
    )
}

/// The value of `c` if it is a hexadecimal digit.
fn hex_of(c: char) -> (v: Option<u8>)
    ensures
        v is Some <==> is_hex(c),
        v matches Some(d) ==> d == hex_value(c),
{
    if '0' <= c && c <= '9' {
        Some((c as u32 - '0' as u32) as u8)
    } else if 'a' <= c && c <= 'f' {
        Some((c as u32 - 'a' as u32 + 10) as u8)
    } else if 'A' <= c && c <= 'F' {
        Some((c as u32 - 'A' as u32 + 10) as u8)
    } else {
        None
    }
}

/// The lower-case digit of a value below 16.
fn digit_of(v: u8) -> (c: char)
    requires
        v < 16,
    ensures
        c == hex_digit(v as int),
        is_lower_hex(c),
{
    if v < 10 {
        (48 + v) as char
    } else {
        (87 + v) as char
    }
}

/// The position in the text of the first digit of byte `k` of the layout.
fn offset_of(k: usize) -> (i: usize)
    requires
        k < 16,
    ensures
        i == text_offset(k as int),
        i + 1 < 36,
{
    if k < 4 {
        6 - 2 * k
    } else if k == 4 {
        11
    } else if k == 5 {
        9
    } else if k == 6 {
        16
    } else if k == 7 {
        14
    } else if k == 8 {
        19
    } else if k == 9 {
        21
    } else {
        2 * k + 4
    }
}

/// Converts the text of an identity to its 16-byte layout. Text of any other
/// shape is rejected.
pub fn guid_to_vec(guid: String) -> (result: Result<Vec<u8>, DecodeError>)
    ensures
        result is Ok <==> is_guid_text(guid@),
        result matches Ok(bytes) ==> bytes@ == guid_bytes(guid@),
        result matches Err(e) ==> e == DecodeError::BadGuid,
{
    let chars = chars_of(guid.as_str());
    if chars.len() != 36 {
        return Err(DecodeError::BadGuid);
    }
    let mut i: usize = 0;
    while i < 36
        invariant
            i <= 36,
            chars@ == guid@,
            chars@.len() == 36,
            forall|j: int|
                0 <= j < i ==> if is_hyphen_position(j) {
                    chars@[j] == '-'
                } else {
                    is_hex(#[trigger] chars@[j])
                },
        decreases 36 - i,
    {
        let c = chars[i];
        if i == 8 || i == 13 || i == 18 || i == 23 {
            if c != '-' {
                return Err(DecodeError::BadGuid);
            }
        } else if hex_of(c).is_none() {
            assert(!is_hex(chars@[i as int]));
            return Err(DecodeError::BadGuid);
        }
        i += 1;
    }
    let mut bytes: Vec<u8> = Vec::with_capacity(16);
    let mut k: usize = 0;
    while k < 16
        invariant
            k <= 16,
            chars@ == guid@,
            is_guid_text(chars@),
            bytes@.len() == k,
            forall|j: int| 0 <= j < k ==> bytes@[j] == text_byte(chars@, text_offset(j)),
        decreases 16 - k,
    {
        let at = offset_of(k);
        assert(!is_hyphen_position(at as int) && !is_hyphen_position(at + 1));
        assert(is_hex(chars@[at as int]) && is_hex(chars@[at + 1]));
        let hi = hex_of(chars[at]);
        let lo = hex_of(chars[at + 1]);
        match (hi, lo) {
            (Some(h), Some(l)) => {
                bytes.push(16 * h + l);
            },
            _ => {
                return Err(DecodeError::BadGuid);
            },
        }
        k += 1;
    }
    assert(bytes@ =~= guid_bytes(guid@));
    Ok(bytes)
}

/// The byte of the layout that position `i` of the text writes, for a
/// position that holds a digit, and whether the position holds the byte's
/// high digit.
fn locate(i: usize) -> (place: (usize, bool))
    requires
        i < 36,
        !is_hyphen_position(i as int),
    ensures
        place.0 == layout_index(digits_before(i as int) / 2),
        place.0 < 16,
        place.1 == (digits_before(i as int) % 2 == 0),
{
    let digits: usize = if i < 8 {
        i
    } else if i < 13 {
        i - 1
    } else if i < 18 {
        i - 2
    } else if i < 23 {
        i - 3
    } else {
        i - 4
    };
    let pair: usize = digits / 2;
    let k: usize = if pair < 4 {
        3 - pair
    } else if pair == 4 {
        5
    } else if pair == 5 {
        4
    } else if pair == 6 {
        7
    } else if pair == 7 {
        6
    } else {
        pair
    };
    (k, digits % 2 == 0)
}

/// Writes the canonical text of the identity with layout `bytes`. A layout
/// that is not 16 bytes long has no text.
pub fn vec_to_guid(bytes: &Vec<u8>) -> (result: Result<String, DecodeError>)
    ensures
        result is Ok <==> bytes@.len() == 16,
        result matches Ok(text) ==> text@ == guid_text(bytes@),
        result matches Err(e) ==> e == DecodeError::BadGuid,
{
    if bytes.len() != 16 {
        return Err(DecodeError::BadGuid);
    }
    let mut chars: Vec<char> = Vec::with_capacity(36);
    let mut i: usize = 0;
    while i < 36
        invariant
            i <= 36,
            bytes@.len() == 16,
            chars@.len() == i,
            forall|j: int| 0 <= j < i ==> chars@[j] == guid_text(bytes@)[j],
        decreases 36 - i,
    {
        if i == 8 || i == 13 || i == 18 || i == 23 {
            chars.push('-');
        } else {
            let (k, high) = locate(i);
            let b = bytes[k];
            let c = if high {
                digit_of(b / 16)
            } else {
                digit_of(b % 16)
            };
            chars.push(c);
        }
        i += 1;
    }
    assert(chars@ =~= guid_text(bytes@));
    Ok(string_of(&chars))
}

/// A position of the text that holds a digit belongs to the pair of digits
/// of exactly the byte that the layout assigns to it.
proof fn lemma_layout(i: int)
    requires
        0 <= i < 36,
        !is_hyphen_position(i),
    ensures
        0 <= layout_index(digits_before(i) / 2) < 16,
        text_offset(layout_index(digits_before(i) / 2)) == i - digits_before(i) % 2,
        !is_hyphen_position(i - digits_before(i) % 2),
        !is_hyphen_position(i - digits_before(i) % 2 + 1),
{
}

/// The digit of a value below 16 is a lower-case digit with that value, and
/// a lower-case digit is the digit of its value.
proof fn lemma_digits(v: int, c: char)
    ensures
        0 <= v < 16 ==> is_lower_hex(hex_digit(v)) && hex_value(hex_digit(v)) == v,
        is_lower_hex(c) ==> 0 <= hex_value(c) < 16 && hex_digit(hex_value(c)) == c,
        is_hex(c) ==> 0 <= hex_value(c) < 16,
{
}

/// Reading a canonical identity and writing it again gives the same text.
pub proof fn lemma_guid_text_roundtrip(s: Seq<char>)
    requires
        is_canonical_guid_text(s),
    ensures
        is_guid_text(s),
        guid_bytes(s).len() == 16,
        guid_text(guid_bytes(s)) == s,
{
    assert forall|i: int| 0 <= i < 36 && !is_hyphen_position(i) implies is_hex(#[trigger] s[i]) by {
        assert(is_lower_hex(s[i]));
    }
    let b = guid_bytes(s);
    let t = guid_text(b);
    assert forall|i: int| 0 <= i < 36 implies t[i] == s[i] by {
        if !is_hyphen_position(i) {
            lemma_layout(i);
            let d = digits_before(i);
            let k = layout_index(d / 2);
            let at = text_offset(k);
            assert(is_lower_hex(s[at]));
            assert(is_lower_hex(s[at + 1]));
            lemma_digits(0, s[at]);
            lemma_digits(0, s[at + 1]);
            let h = hex_value(s[at]);
            let l = hex_value(s[at + 1]);
            assert(b[k] as int == 16 * h + l);
            assert((16 * h + l) / 16 == h && (16 * h + l) % 16 == l);
        }
    }
    assert(t =~= s);
}

/// Writing a 16-byte layout as text and reading it again gives the same
/// bytes, and the text written is canonical.
pub proof fn lemma_guid_bytes_roundtrip(b: Seq<u8>)
    requires
        b.len() == 16,
    ensures
        is_canonical_guid_text(guid_text(b)),
        guid_bytes(guid_text(b)) == b,
{
    let t = guid_text(b);
    assert forall|i: int| 0 <= i < 36 implies if is_hyphen_position(i) {
        t[i] == '-'
    } else {
        is_lower_hex(#[trigger] t[i])
    } by {
        if !is_hyphen_position(i) {
            lemma_layout(i);
            let byte = b[layout_index(digits_before(i) / 2)] as int;
            lemma_digits(byte / 16, '0');
            lemma_digits(byte % 16, '0');
        }
    }
    assert forall|k: int| 0 <= k < 16 implies guid_bytes(t)[k] == b[k] by {
        let at = text_offset(k);
        assert(!is_hyphen_position(at) && !is_hyphen_position(at + 1));
        assert(layout_index(digits_before(at) / 2) == k);
        assert(layout_index(digits_before(at + 1) / 2) == k);
        assert(digits_before(at) % 2 == 0 && digits_before(at + 1) % 2 == 1);
        let hi = b[k] as int / 16;
        let lo = b[k] as int % 16;
        lemma_digits(hi, '0');
        lemma_digits(lo, '0');
        assert(t[at] == hex_digit(hi));
        assert(t[at + 1] == hex_digit(lo));
        assert(16 * hi + lo == b[k] as int);
    }
    assert(guid_bytes(t) =~= b);
}

} // verus!
