//! Text: decimal and fixed-point numerals, hexadecimal digits, and what is
//! taken on trust of the standard library's string functions.

use vstd::prelude::*;

verus! {

/// `String::push` of the standard library appends one character to the end
/// of the string and leaves the characters before it as they were.
pub assume_specification[ std::string::String::push ](text: &mut std::string::String, c: char)
    ensures
        final(text)@ == old(text)@.push(c),
;

/// What `str::to_lowercase` of the standard library returns for a text: its
/// lower-case equivalent by the Unicode case mappings, which depends on the
/// text alone.
pub uninterp spec fn lowercase(text: Seq<char>) -> Seq<char>;

/// `str::to_lowercase` of the standard library returns the lower-case
/// equivalent of the text as a new string. The result is named, not spelled
/// out: nothing is claimed of it but that it depends on the text alone.
pub assume_specification[ str::to_lowercase ](text: &str) -> (lowered: std::string::String)
    ensures
        lowered@ == lowercase(text@),
;

/// The sixteen hexadecimal digits in order, letters in lower case.
pub open spec fn hex_digits() -> Seq<char> {
    seq!['0', '1', '2', '3', '4', '5', '6', '7', '8', '9', 'a', 'b', 'c', 'd', 'e', 'f']
}

/// The character for a digit between 0 and 15.
pub open spec fn digit_char(digit: int) -> char
    recommends
        0 <= digit < 16,
{
    hex_digits()[digit]
}

/// The decimal numeral of a natural number, without leading zeros.
pub open spec fn decimal_digits(n: nat) -> Seq<char>
    decreases n,
{
    if n < 10 {
        seq![digit_char(n as int)]
    } else {
        decimal_digits(n / 10).push(digit_char((n % 10) as int))
    }
}

/// A number of hundredths as a numeral with two decimal places.
pub open spec fn fixed2_digits(hundredths: nat) -> Seq<char> {
    decimal_digits(hundredths / 100).push('.').push(digit_char((hundredths / 10 % 10) as int)).push(
        digit_char((hundredths % 10) as int),
    )
}

/// A byte as two hexadecimal digits, the high half first.
pub open spec fn hex_pair(byte: u8) -> Seq<char> {
    seq![digit_char(byte as int / 16), digit_char(byte as int % 16)]
}

/// The character for a digit between 0 and 15.
pub fn digit_to_char(digit: u8) -> (c: char)
    requires
        digit < 16,
    ensures
        c == digit_char(digit as int),
{
    if digit < 10 {
        (48u8 + digit) as char
    } else {
        (97u8 + (digit - 10)) as char
    }
}

/// Appends the decimal numeral of `n` to `text`.
pub fn push_decimal(text: &mut String, n: u32)
    ensures
        final(text)@ == old(text)@ + decimal_digits(n as nat),
    decreases n,
{
    if n >= 10 {
        push_decimal(text, n / 10);
    }
    text.push(digit_to_char((n % 10) as u8));
}

/// Appends `hundredths` as a numeral with two decimal places to `text`.
pub fn push_fixed2(text: &mut String, hundredths: u32)
    ensures
        final(text)@ == old(text)@ + fixed2_digits(hundredths as nat),
{
    push_decimal(text, hundredths / 100);
    text.push('.');
    text.push(digit_to_char((hundredths / 10 % 10) as u8));
    text.push(digit_to_char((hundredths % 10) as u8));
}

/// Appends the two hexadecimal digits of `byte` to `text`.
pub fn push_hex_pair(text: &mut String, byte: u8)
    ensures
        final(text)@ == old(text)@ + hex_pair(byte),
{
    text.push(digit_to_char(byte / 16));
    text.push(digit_to_char(byte % 16));
}

} // verus!
