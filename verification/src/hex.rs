//! Canonical hexadecimal text: two lowercase digits per byte, no separators.

use vstd::prelude::*;
use crate::text::push_char;

verus! {

/// The lowercase hexadecimal digit for a value below sixteen.
pub open spec fn digit_of(value: int) -> char {
    if value == 0 {
        '0'
    } else if value == 1 {
        '1'
    } else if value == 2 {
        '2'
    } else if value == 3 {
        '3'
    } else if value == 4 {
        '4'
    } else if value == 5 {
        '5'
    } else if value == 6 {
        '6'
    } else if value == 7 {
        '7'
    } else if value == 8 {
        '8'
    } else if value == 9 {
        '9'
    } else if value == 10 {
        'a'
    } else if value == 11 {
        'b'
    } else if value == 12 {
        'c'
    } else if value == 13 {
        'd'
    } else if value == 14 {
        'e'
    } else {
        'f'
    }
}

/// Whether a character is one of `0`..`9`, `a`..`f`.
pub open spec fn is_lower_digit(c: char) -> bool {
    exists|value: int| 0 <= value < 16 && c == #[trigger] digit_of(value)
}

/// The canonical hex text of a byte sequence: for each byte its high digit,
/// then its low digit.
pub open spec fn lower_hex(bytes: Seq<u8>) -> Seq<char> {
    Seq::new(
        2 * bytes.len(),
        |i: int|
            if i % 2 == 0 {
                digit_of(bytes[i / 2] as int / 16)
            } else {
                digit_of(bytes[i / 2] as int % 16)
            },
    )
}

/// Canonical hex text consists of lowercase hex digits only, two per byte.
pub proof fn lower_hex_is_canonical(bytes: Seq<u8>)
    ensures
        lower_hex(bytes).len() == 2 * bytes.len(),
        forall|i: int| 0 <= i < lower_hex(bytes).len() ==> is_lower_digit(#[trigger] lower_hex(bytes)[i]),
{
    assert forall|i: int| 0 <= i < lower_hex(bytes).len() implies is_lower_digit(
        #[trigger] lower_hex(bytes)[i],
    ) by {
        let b = bytes[i / 2] as int;
        if i % 2 == 0 {
            assert(lower_hex(bytes)[i] == digit_of(b / 16));
        } else {
            assert(lower_hex(bytes)[i] == digit_of(b % 16));
        }
    }
}

/// The digit for a value below sixteen.
pub fn digit(value: u8) -> (c: char)
    requires
        value < 16,
    ensures
        c == digit_of(value as int),
{
    if value < 10 {
        (value + 48) as char
    } else {
        (value + 87) as char
    }
}

/// Writes bytes as canonical hex text.
pub fn encode(bytes: &[u8]) -> (text: String)
    ensures
        text@ == lower_hex(bytes@),
{
    let mut text = String::new();
    let mut i: usize = 0;
    while i < bytes.len()
        invariant
            i <= bytes.len(),
            text@ == lower_hex(bytes@.take(i as int)),
        decreases bytes.len() - i,
    {
        let b = bytes[i];
        push_char(&mut text, digit(b / 16));
        push_char(&mut text, digit(b % 16));
        i += 1;
        assert(text@ =~= lower_hex(bytes@.take(i as int)));
    }
    assert(bytes@.take(i as int) =~= bytes@);
    text
}

} // verus!
