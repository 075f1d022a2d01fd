//! Hexadecimal text.

use vstd::prelude::*;

verus! {

/// The hexadecimal digit of `n`, for `n` below sixteen.
pub open spec fn hex_digit(n: int, upper: bool) -> char {
    if n < 10 {
        (0x30 + n) as char
    } else if upper {
        (0x37 + n) as char
    } else {
        (0x57 + n) as char
    }
}

/// Two digits for each byte, the high half first.
pub open spec fn hex_text(bytes: Seq<u8>, upper: bool) -> Seq<char> {
    Seq::new(
        2 * bytes.len(),
        |i: int|
            hex_digit(
                if i % 2 == 0 {
                    bytes[i / 2] as int / 16
                } else {
                    bytes[i / 2] as int % 16
                },
                upper,
            ),
    )
}

pub open spec fn is_decimal_digit(c: char) -> bool {
    0x30 <= c as int <= 0x39
}

pub open spec fn is_upper_hex_letter(c: char) -> bool {
    0x41 <= c as int <= 0x46
}

pub open spec fn is_lower_hex_letter(c: char) -> bool {
    0x61 <= c as int <= 0x66
}

pub open spec fn is_hex_digit(c: char) -> bool {
    is_decimal_digit(c) || is_upper_hex_letter(c) || is_lower_hex_letter(c)
}

/// The number that a hexadecimal digit stands for.
pub open spec fn hex_value(c: char) -> int {
    if is_decimal_digit(c) {
        c as int - 0x30
    } else if is_upper_hex_letter(c) {
        c as int - 0x37
    } else {
        c as int - 0x57
    }
}

/// Only hexadecimal digits, and not letters of both cases.
pub open spec fn is_single_case_hex(text: Seq<char>) -> bool {
    &&& forall|i: int| 0 <= i < text.len() ==> is_hex_digit(#[trigger] text[i])
    &&& forall|i: int, j: int|
        0 <= i < text.len() && 0 <= j < text.len() ==> !(is_upper_hex_letter(#[trigger] text[i])
            && is_lower_hex_letter(#[trigger] text[j]))
}

/// The bytes that pairs of hexadecimal digits stand for.
pub open spec fn hex_bytes(text: Seq<char>) -> Seq<u8> {
    Seq::new(
        text.len() / 2,
        |i: int| (16 * hex_value(text[2 * i]) + hex_value(text[2 * i + 1])) as u8,
    )
}

/// Reading hexadecimal text gives back the bytes that it was written from.
pub proof fn hex_round_trip(bytes: Seq<u8>, upper: bool)
    ensures
        is_single_case_hex(hex_text(bytes, upper)),
        hex_bytes(hex_text(bytes, upper)) == bytes,
{
    let text = hex_text(bytes, upper);
    assert forall|i: int| 0 <= i < text.len() implies is_hex_digit(#[trigger] text[i]) && (upper
        ==> !is_lower_hex_letter(text[i])) && (!upper ==> !is_upper_hex_letter(text[i])) by {
        let byte = bytes[i / 2];
        assert(0 <= byte as int / 16 < 16);
    }
    assert forall|i: int| 0 <= i < bytes.len() implies hex_bytes(text)[i] == bytes[i] by {
        assert((2 * i) / 2 == i && (2 * i) % 2 == 0);
        assert((2 * i + 1) / 2 == i && (2 * i + 1) % 2 == 1);
        let byte = bytes[i];
        assert(0 <= byte as int / 16 < 16);
        assert(hex_value(text[2 * i]) == byte as int / 16);
        assert(hex_value(text[2 * i + 1]) == byte as int % 16);
    }
    assert(hex_bytes(text) =~= bytes);
}

/// Different byte strings have different hexadecimal text.
pub proof fn hex_text_is_injective(a: Seq<u8>, b: Seq<u8>, upper: bool)
    requires
        hex_text(a, upper) == hex_text(b, upper),
    ensures
        a == b,
{
    hex_round_trip(a, upper);
    hex_round_trip(b, upper);
}

/// Each byte is written as the digit of its high half and the digit of its low half: `0` to `9`,
/// and then letters from `A` or `a` on.
pub proof fn hex_text_spells_its_bytes(bytes: Seq<u8>, upper: bool, i: int)
    requires
        0 <= i < bytes.len(),
    ensures
        ({
            let text = hex_text(bytes, upper);
            let letter: int = if upper {
                0x41
            } else {
                0x61
            };
            let high = bytes[i] as int / 16;
            let low = bytes[i] as int % 16;
            &&& text.len() == 2 * bytes.len()
            &&& text[2 * i] as int == if high < 10 {
                0x30 + high
            } else {
                letter + high - 10
            }
            &&& text[2 * i + 1] as int == if low < 10 {
                0x30 + low
            } else {
                letter + low - 10
            }
        }),
{
    assert((2 * i) / 2 == i && (2 * i) % 2 == 0);
    assert((2 * i + 1) / 2 == i && (2 * i + 1) % 2 == 1);
    assert(0 <= bytes[i] as int / 16 < 16);
}

/// Text of letters of both cases is no single-case text, and neither is text with a character that
/// is no digit; any other is.
pub proof fn single_case_hex_has_digits_of_one_case(text: Seq<char>)
    ensures
        is_single_case_hex(text) <==> {
            ||| forall|i: int|
                0 <= i < text.len() ==> {
                    let c = #[trigger] text[i] as int;
                    0x30 <= c <= 0x39 || 0x41 <= c <= 0x46
                }
            ||| forall|i: int|
                0 <= i < text.len() ==> {
                    let c = #[trigger] text[i] as int;
                    0x30 <= c <= 0x39 || 0x61 <= c <= 0x66
                }
        },
{
}

} // verus!
