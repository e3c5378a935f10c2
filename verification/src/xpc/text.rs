//! Strings at the border between bytes and text.

use vstd::prelude::*;
use vstd::utf8::{encode_utf8, valid_utf8};

verus! {

/// The error of `String::from_utf8`, which is carried through and never
/// looked into.
#[verifier::external_type_specification]
#[verifier::external_body]
pub struct ExFromUtf8Error(std::string::FromUtf8Error);

/// The error of reading an integer from a text, which is carried through
/// and never looked into.
#[verifier::external_type_specification]
#[verifier::external_body]
pub struct ExParseIntError(std::num::ParseIntError);

/// `String::from_utf8`: the string whose UTF-8 bytes are `bytes`, where
/// they are valid UTF-8, and an error where they are not.
#[verifier::external_body]
pub(crate) fn string_from_utf8(bytes: Vec<u8>) -> (text: Result<
    String,
    std::string::FromUtf8Error,
>)
    ensures
        match text {
            Ok(s) => encode_utf8(s@) == bytes@,
            Err(_) => !valid_utf8(bytes@),
        },
{
    String::from_utf8(bytes)
}

/// The lower-case hexadecimal digit of a value below sixteen.
pub open spec fn hex_digit(n: int) -> char {
    seq!['0', '1', '2', '3', '4', '5', '6', '7', '8', '9', 'a', 'b', 'c', 'd', 'e', 'f'][n]
}

/// Two hexadecimal digits for each byte, the high half first.
pub open spec fn hex_text(bytes: Seq<u8>) -> Seq<char> {
    Seq::new(
        2 * bytes.len(),
        |i: int|
            hex_digit(
                if i % 2 == 0 {
                    bytes[i / 2] as int / 16
                } else {
                    bytes[i / 2] as int % 16
                },
            ),
    )
}

/// The canonical text of a UUID: the hexadecimal digits of its sixteen
/// bytes in groups of 8, 4, 4, 4 and 12, with hyphens between the groups.
pub open spec fn hyphenated(bytes: Seq<u8>) -> Seq<char>
    recommends
        bytes.len() == 16,
{
    hex_text(bytes.subrange(0, 4)) + seq!['-'] + hex_text(bytes.subrange(4, 6)) + seq!['-']
        + hex_text(bytes.subrange(6, 8)) + seq!['-'] + hex_text(bytes.subrange(8, 10)) + seq!['-']
        + hex_text(bytes.subrange(10, 16))
}

/// The number that a run of decimal digits stands for.
pub open spec fn decimal(digits: Seq<char>) -> int
    decreases digits.len(),
{
    if digits.len() == 0 {
        0
    } else {
        10 * decimal(digits.drop_last()) + (digits.last() as int - '0' as int)
    }
}

/// At least one character, and each of them one of `0` to `9`.
pub open spec fn all_digits(digits: Seq<char>) -> bool {
    &&& digits.len() > 0
    &&& forall|i: int| 0 <= i < digits.len() ==> '0' <= #[trigger] digits[i] <= '9'
}

/// What reading a signed 64-bit integer from a text gives: the text is an
/// optional `+` or `-` and then only digits, and the number fits.
pub open spec fn signed_of_text(text: Seq<char>) -> Option<i64> {
    if text.len() > 0 && text[0] == '-' {
        if all_digits(text.drop_first()) && -decimal(text.drop_first()) >= i64::MIN {
            Some((-decimal(text.drop_first())) as i64)
        } else {
            None
        }
    } else {
        let digits = if text.len() > 0 && text[0] == '+' {
            text.drop_first()
        } else {
            text
        };
        if all_digits(digits) && decimal(digits) <= i64::MAX {
            Some(decimal(digits) as i64)
        } else {
            None
        }
    }
}

/// What reading an unsigned 64-bit integer from a text gives: the text is
/// an optional `+` and then only digits, and the number fits.
pub open spec fn unsigned_of_text(text: Seq<char>) -> Option<u64> {
    let digits = if text.len() > 0 && text[0] == '+' {
        text.drop_first()
    } else {
        text
    };
    if all_digits(digits) && decimal(digits) <= u64::MAX {
        Some(decimal(digits) as u64)
    } else {
        None
    }
}

/// `str::parse::<i64>`: the decimal integer that the whole text spells,
/// with an optional sign, and an error where it spells none that fits.
#[verifier::external_body]
pub(crate) fn parse_signed(text: &str) -> (n: Result<i64, std::num::ParseIntError>)
    ensures
        match n {
            Ok(v) => signed_of_text(text@) == Some(v),
            Err(_) => signed_of_text(text@) is None,
        },
{
    text.parse::<i64>()
}

/// `str::parse::<u64>`: the decimal integer that the whole text spells,
/// with an optional `+`, and an error where it spells none that fits.
#[verifier::external_body]
pub(crate) fn parse_unsigned(text: &str) -> (n: Result<u64, std::num::ParseIntError>)
    ensures
        match n {
            Ok(v) => unsigned_of_text(text@) == Some(v),
            Err(_) => unsigned_of_text(text@) is None,
        },
{
    text.parse::<u64>()
}

} // verus!
