//! Bytes written as pairs of hexadecimal digits.

use crate::error::Error;
use crate::text::chars_of;
use vstd::prelude::*;

verus! {

/// The value of a hexadecimal digit, of either case.
pub open spec fn hex_digit(c: char) -> Option<int> {
    if '0' <= c <= '9' {
        Some(c as int - '0' as int)
    } else if 'a' <= c <= 'f' {
        Some(c as int - 'a' as int + 10)
    } else if 'A' <= c <= 'F' {
        Some(c as int - 'A' as int + 10)
    } else {
        None
    }
}

/// The byte that two characters stand for, if both are hexadecimal digits.
pub open spec fn hex_pair(a: char, b: char) -> Option<u8> {
    match (hex_digit(a), hex_digit(b)) {
        (Some(high), Some(low)) => Some((16 * high + low) as u8),
        _ => None,
    }
}

/// Every pair of characters of `s` stands for a byte, and no character is left over.
pub open spec fn is_hex(s: Seq<char>) -> bool {
    &&& s.len() % 2 == 0
    &&& forall|i: int|
        0 <= i < s.len() / 2 ==> (#[trigger] hex_pair(s[2 * i], s[2 * i + 1])) is Some
}

/// The bytes that `s` stands for, if it is hex.
pub open spec fn unhexed(s: Seq<char>) -> Option<Seq<u8>> {
    if is_hex(s) {
        Some(Seq::new(s.len() / 2, |i: int| hex_pair(s[2 * i], s[2 * i + 1])->0))
    } else {
        None
    }
}

/// The value of a hexadecimal digit.
fn digit_value(c: char) -> (r: Option<u8>)
    ensures
        match hex_digit(c) {
            Some(v) => r == Some(v as u8) && v < 16,
            None => r is None,
        },
{
    if '0' <= c && c <= '9' {
        Some((c as u32 - 0x30) as u8)
    } else if 'a' <= c && c <= 'f' {
        Some((c as u32 - 0x61 + 10) as u8)
    } else if 'A' <= c && c <= 'F' {
        Some((c as u32 - 0x41 + 10) as u8)
    } else {
        None
    }
}

/// The byte that two characters stand for.
fn pair_value(a: char, b: char) -> (r: Option<u8>)
    ensures
        r == hex_pair(a, b),
{
    match (digit_value(a), digit_value(b)) {
        (Some(high), Some(low)) => Some(16 * high + low),
        _ => None,
    }
}

/// Decode the hex text of the field `what`.
pub fn unhex(s: &str, what: &'static str) -> (r: Result<Vec<u8>, Error>)
    ensures
        match unhexed(s@) {
            Some(bytes) => r matches Ok(v) && v@ == bytes,
            None => r == Err::<Vec<u8>, Error>(Error::BadHex(what)),
        },
{
    let chars: Vec<char> = chars_of(s);
    let size: usize = chars.len();
    if size % 2 != 0 {
        return Err(Error::BadHex(what));
    }
    let mut bytes: Vec<u8> = Vec::new();
    let mut i: usize = 0;
    while i < size / 2
        invariant
            i <= size / 2,
            size % 2 == 0,
            chars@ == s@,
            size == s@.len(),
            bytes@.len() == i,
            forall|j: int|
                0 <= j < i ==> (#[trigger] hex_pair(s@[2 * j], s@[2 * j + 1])) == Some(bytes@[j]),
        decreases size / 2 - i,
    {
        match pair_value(chars[2 * i], chars[2 * i + 1]) {
            Some(byte) => {
                bytes.push(byte);
            },
            None => {
                assert(hex_pair(s@[2 * i as int], s@[2 * i as int + 1]) is None);
                return Err(Error::BadHex(what));
            },
        }
        i += 1;
    }
    assert(bytes@ =~= unhexed(s@)->0);
    Ok(bytes)
}

/// The lower-case hexadecimal digit of value `n`.
pub open spec fn hex_char(n: int) -> char {
    if n < 10 {
        ('0' as int + n) as char
    } else {
        ('a' as int + n - 10) as char
    }
}

/// Bytes as lower-case hex.
pub open spec fn hex_text(bytes: Seq<u8>) -> Seq<char> {
    Seq::new(
        2 * bytes.len(),
        |i: int|
            if i % 2 == 0 {
                hex_char(bytes[i / 2] as int / 16)
            } else {
                hex_char(bytes[i / 2] as int % 16)
            },
    )
}

/// Bytes written as lower-case hex are read back as they were.
pub proof fn law_hex_text_reads_back(bytes: Seq<u8>)
    ensures
        unhexed(hex_text(bytes)) == Some(bytes),
{
    let s = hex_text(bytes);
    assert forall|i: int| 0 <= i < s.len() / 2 implies (#[trigger] hex_pair(s[2 * i], s[2 * i + 1]))
        == Some(bytes[i]) by {
        assert((2 * i) / 2 == i && (2 * i + 1) / 2 == i);
        assert((2 * i) % 2 == 0 && (2 * i + 1) % 2 == 1);
    }
    assert(unhexed(s)->0 =~= bytes);
}

/// Hex is hex in either case: a text is hex, and stands for the same bytes, no
/// matter how its letters are written.
pub proof fn law_hex_ignores_case(s: Seq<char>, t: Seq<char>)
    requires
        s.len() == t.len(),
        forall|i: int| 0 <= i < s.len() ==> hex_digit(#[trigger] s[i]) == hex_digit(t[i]),
    ensures
        unhexed(s) == unhexed(t),
{
    assert forall|i: int| 0 <= i < s.len() / 2 implies (#[trigger] hex_pair(s[2 * i], s[2 * i + 1]))
        == hex_pair(t[2 * i], t[2 * i + 1]) by {}
    assert forall|i: int| 0 <= i < t.len() / 2 implies (#[trigger] hex_pair(t[2 * i], t[2 * i + 1]))
        == hex_pair(s[2 * i], s[2 * i + 1]) by {}
    if is_hex(s) {
        assert(unhexed(s)->0 =~= unhexed(t)->0);
    }
}

/// The character is a digit of this value, of either case.
pub open spec fn spells_digit(c: char, value: int) -> bool {
    c == "0123456789abcdef"@[value] || c == "0123456789ABCDEF"@[value]
}

/// The text spells these bytes: each byte by two digits, the high one first.
pub open spec fn spells(s: Seq<char>, bytes: Seq<u8>) -> bool {
    &&& s.len() == 2 * bytes.len()
    &&& forall|i: int|
        0 <= i < bytes.len() ==> {
            &&& spells_digit(s[2 * i], #[trigger] bytes[i] as int / 16)
            &&& spells_digit(s[2 * i + 1], bytes[i] as int % 16)
        }
}

/// The text is made of pairs of hexadecimal digits.
pub open spec fn made_of_digit_pairs(s: Seq<char>) -> bool {
    &&& s.len() % 2 == 0
    &&& forall|i: int|
        0 <= i < s.len() ==> {
            let c = #[trigger] s[i];
            '0' <= c <= '9' || 'a' <= c <= 'f' || 'A' <= c <= 'F'
        }
}

/// A text is decoded if and only if it is made of pairs of hexadecimal digits: with
/// one other character, or an odd number of them, it is refused.
pub proof fn law_only_hex_is_decoded(s: Seq<char>)
    ensures
        unhexed(s) is Some <==> made_of_digit_pairs(s),
{
    if is_hex(s) {
        assert forall|i: int| 0 <= i < s.len() implies hex_digit(#[trigger] s[i]) is Some by {
            let k = i / 2;
            assert(hex_pair(s[2 * k], s[2 * k + 1]) is Some);
        }
    }
}

/// A digit spells its value and no other.
proof fn lemma_spells_digit(c: char, value: int)
    requires
        0 <= value < 16,
    ensures
        spells_digit(c, value) <==> hex_digit(c) == Some(value),
{
    reveal_strlit("0123456789abcdef");
    reveal_strlit("0123456789ABCDEF");
}

/// A text is decoded to the bytes that it spells, and to no others.
pub proof fn law_hex_is_decoded_to_what_it_spells(s: Seq<char>, bytes: Seq<u8>)
    ensures
        unhexed(s) == Some(bytes) <==> spells(s, bytes),
{
    assert forall|i: int| 0 <= i < bytes.len() implies ({
        &&& spells_digit(s[2 * i], #[trigger] bytes[i] as int / 16)
        &&& spells_digit(s[2 * i + 1], bytes[i] as int % 16)
    } <==> hex_pair(s[2 * i], s[2 * i + 1]) == Some(bytes[i])) by {
        lemma_spells_digit(s[2 * i], bytes[i] as int / 16);
        lemma_spells_digit(s[2 * i + 1], bytes[i] as int % 16);
    }
    if spells(s, bytes) {
        assert forall|i: int| 0 <= i < s.len() / 2 implies (#[trigger] hex_pair(
            s[2 * i],
            s[2 * i + 1],
        )) == Some(bytes[i]) by {
            assert(spells_digit(s[2 * i], bytes[i] as int / 16));
        }
        assert(unhexed(s)->0 =~= bytes);
    }
    if unhexed(s) == Some(bytes) {
        assert forall|i: int| 0 <= i < bytes.len() implies ({
            &&& spells_digit(s[2 * i], #[trigger] bytes[i] as int / 16)
            &&& spells_digit(s[2 * i + 1], bytes[i] as int % 16)
        }) by {
            assert(hex_pair(s[2 * i], s[2 * i + 1]) is Some);
        }
    }
}

} // verus!
