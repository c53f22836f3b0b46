//! Colours of the sixteen addressable LEDs: hexadecimal colour text, the
//! rainbow and gradient patterns, and the lighting payload.

use crate::frame::{encode, encode_spec, frame_is_valid, PAYLOAD_LEN};
use crate::text::{digit_char, hex_pair, push_hex_pair};
use crate::utils::{is_nonce, lemma_round_div_nearest, round_div, rounded_div};
use vstd::prelude::*;
use vstd::string::StrSliceExecFns;

verus! {

/// Number of addressable LEDs.
pub const LED_COUNT: usize = 16;

/// The text is not a hexadecimal colour.
#[derive(Debug, Clone, Copy, PartialEq, Eq)]
pub struct InvalidColor;

impl InvalidColor {
    /// The error in words.
    pub fn message(&self) -> (text: String)
        ensures
            text@ == "Invalid hex color"@,
    {
        "Invalid hex color".to_owned()
    }
}

/// Whether `c` is one of `0-9`, `a-f`, `A-F`.
pub open spec fn is_hex_digit(c: char) -> bool {
    ('0' <= c <= '9') || ('a' <= c <= 'f') || ('A' <= c <= 'F')
}

/// The value of a hexadecimal digit, in either case.
pub open spec fn hex_value(c: char) -> int
    recommends
        is_hex_digit(c),
{
    if '0' <= c <= '9' {
        c as int - '0' as int
    } else if 'a' <= c <= 'f' {
        c as int - 'a' as int + 10
    } else {
        c as int - 'A' as int + 10
    }
}

/// The text without its leading `#`, if it has one.
pub open spec fn strip_hash(text: Seq<char>) -> Seq<char> {
    if text.len() > 0 && text[0] == '#' {
        text.drop_first()
    } else {
        text
    }
}

/// A colour is an optional `#` followed by exactly three or exactly six
/// hexadecimal digits.
pub open spec fn is_hex_color(text: Seq<char>) -> bool {
    let digits = strip_hash(text);
    (digits.len() == 3 || digits.len() == 6) && forall|i: int|
        0 <= i < digits.len() ==> is_hex_digit(#[trigger] digits[i])
}

/// Three digits stand for six: each digit is written twice.
pub open spec fn expand_digits(digits: Seq<char>) -> Seq<char> {
    if digits.len() == 3 {
        seq![digits[0], digits[0], digits[1], digits[1], digits[2], digits[2]]
    } else {
        digits
    }
}

/// The number that a sequence of hexadecimal digits denotes.
pub open spec fn hex_number(digits: Seq<char>) -> int
    decreases digits.len(),
{
    if digits.len() == 0 {
        0
    } else {
        16 * hex_number(digits.drop_last()) + hex_value(digits.last())
    }
}

/// The 24-bit colour that a text denotes, if it is a colour.
pub open spec fn parse_color_spec(text: Seq<char>) -> Option<int> {
    if is_hex_color(text) {
        Some(hex_number(expand_digits(strip_hash(text))))
    } else {
        None
    }
}

/// The value of `c` as a hexadecimal digit, if it is one.
pub fn hex_digit_value(c: char) -> (value: Option<u8>)
    ensures
        value is Some <==> is_hex_digit(c),
        value matches Some(v) ==> v == hex_value(c) && v < 16,
{
    if '0' <= c && c <= '9' {
        Some((c as u32 - '0' as u32) as u8)
    } else if 'a' <= c && c <= 'f' {
        Some((c as u32 - 'a' as u32 + 10) as u8)
    } else if 'A' <= c && c <= 'F' {
        Some((c as u32 - 'A' as u32 + 10) as u8)
    } else {
        None
    }
}

/// Six hexadecimal digits denote the number whose base-16 digits they are.
pub proof fn lemma_hex_number_six(digits: Seq<char>)
    requires
        digits.len() == 6,
    ensures
        hex_number(digits) == 1048576 * hex_value(digits[0]) + 65536 * hex_value(digits[1]) + 4096
            * hex_value(digits[2]) + 256 * hex_value(digits[3]) + 16 * hex_value(digits[4])
            + hex_value(digits[5]),
{
    let d5 = digits.drop_last();
    let d4 = d5.drop_last();
    let d3 = d4.drop_last();
    let d2 = d3.drop_last();
    let d1 = d2.drop_last();
    let d0 = d1.drop_last();
    assert(hex_number(d0) == 0);
    assert(hex_number(d1) == hex_value(digits[0]));
    assert(hex_number(d2) == 16 * hex_number(d1) + hex_value(digits[1]));
    assert(hex_number(d3) == 16 * hex_number(d2) + hex_value(digits[2]));
    assert(hex_number(d4) == 16 * hex_number(d3) + hex_value(digits[3]));
    assert(hex_number(d5) == 16 * hex_number(d4) + hex_value(digits[4]));
    assert(hex_number(digits) == 16 * hex_number(d5) + hex_value(digits[5]));
}

/// Three hexadecimal digits, each read twice, denote the number in which each
/// digit weighs seventeen times what the lower of its two places weighs.
pub proof fn lemma_hex_number_three(digits: Seq<char>)
    requires
        digits.len() == 3,
    ensures
        hex_number(expand_digits(digits)) == 1114112 * hex_value(digits[0]) + 4352 * hex_value(
            digits[1],
        ) + 17 * hex_value(digits[2]),
{
    lemma_hex_number_six(expand_digits(digits));
}

/// Parses a colour written as an optional `#` and three or six hexadecimal
/// digits. Three digits are read as six, each digit doubled.
pub fn parse_color(color_str: &str) -> (result: Result<u32, InvalidColor>)
    ensures
        match result {
            Ok(color) => parse_color_spec(color_str@) == Some(color as int) && color <= 0xffffff,
            Err(_) => parse_color_spec(color_str@) is None,
        },
{
    let length = color_str.unicode_len();
    let start: usize = if length > 0 && color_str.get_char(0) == '#' {
        1
    } else {
        0
    };
    let count = length - start;
    if count != 3 && count != 6 {
        return Err(InvalidColor);
    }
    let ghost digits = strip_hash(color_str@);
    let mut values: Vec<u32> = Vec::new();
    let mut i: usize = 0;
    while i < count
        invariant
            i <= count,
            count == 3 || count == 6,
            start + count == color_str@.len(),
            digits == strip_hash(color_str@),
            digits.len() == count,
            forall|k: int| 0 <= k < count ==> #[trigger] digits[k] == color_str@[start + k],
            forall|k: int| 0 <= k < i ==> is_hex_digit(#[trigger] digits[k]),
            values@.len() == i,
            forall|k: int|
                0 <= k < i ==> #[trigger] values@[k] == hex_value(digits[k]) && values@[k] < 16,
        decreases count - i,
    {
        let c = color_str.get_char(start + i);
        assert(c == digits[i as int]);
        match hex_digit_value(c) {
            Some(value) => {
                values.push(value as u32);
            },
            None => {
                return Err(InvalidColor);
            },
        }
        i = i + 1;
    }
    if count == 3 {
        proof {
            lemma_hex_number_three(digits);
        }
        Ok(1114112 * values[0] + 4352 * values[1] + 17 * values[2])
    } else {
        proof {
            lemma_hex_number_six(digits);
        }
        Ok(
            1048576 * values[0] + 65536 * values[1] + 4096 * values[2] + 256 * values[3] + 16
                * values[4] + values[5],
        )
    }
}

/// The red, green and blue bytes of a 24-bit colour; bits above the 24th are
/// ignored.
pub open spec fn rgb_of(color: u32) -> (u8, u8, u8) {
    ((color / 65536 % 256) as u8, (color / 256 % 256) as u8, (color % 256) as u8)
}

/// The colour as six hexadecimal digits in lower case: red, green, blue.
pub open spec fn rgb_hex(rgb: (u8, u8, u8)) -> Seq<char> {
    hex_pair(rgb.0) + hex_pair(rgb.1) + hex_pair(rgb.2)
}

/// Writes a colour as six hexadecimal digits in lower case.
pub fn rgb_to_hex(r: u8, g: u8, b: u8) -> (text: String)
    ensures
        text@ == rgb_hex((r, g, b)),
{
    let mut text = String::new();
    push_hex_pair(&mut text, r);
    push_hex_pair(&mut text, g);
    push_hex_pair(&mut text, b);
    text
}

/// Splits a 24-bit colour into its red, green and blue bytes.
pub fn u32_to_rgb(color: u32) -> (rgb: (u8, u8, u8))
    ensures
        rgb == rgb_of(color),
{
    let r = ((color >> 16) & 0xff) as u8;
    let g = ((color >> 8) & 0xff) as u8;
    let b = (color & 0xff) as u8;
    assert((color >> 16) & 0xff == color / 65536 % 256 && (color >> 8) & 0xff == color / 256 % 256
        && color & 0xff == color % 256) by (bit_vector);
    (r, g, b)
}

/// Different colours have different hexadecimal forms.
pub proof fn lemma_rgb_hex_injective(a: (u8, u8, u8), b: (u8, u8, u8))
    ensures
        rgb_hex(a) == rgb_hex(b) ==> a == b,
{
    if rgb_hex(a) == rgb_hex(b) {
        let x = rgb_hex(a);
        let y = rgb_hex(b);
        assert(x[0] == y[0] && x[1] == y[1] && x[2] == y[2] && x[3] == y[3] && x[4] == y[4] && x[5]
            == y[5]);
        lemma_hex_pair_injective(a.0, b.0);
        lemma_hex_pair_injective(a.1, b.1);
        lemma_hex_pair_injective(a.2, b.2);
    }
}

/// The hexadecimal form of a colour is a colour text, and it denotes the
/// colour that it was made from.
pub proof fn lemma_rgb_hex_round_trip(rgb: (u8, u8, u8))
    ensures
        is_hex_color(rgb_hex(rgb)),
        parse_color_spec(rgb_hex(rgb)) == Some(65536 * rgb.0 + 256 * rgb.1 + rgb.2),
        rgb_of((65536 * rgb.0 + 256 * rgb.1 + rgb.2) as u32) == rgb,
{
    let text = rgb_hex(rgb);
    lemma_hex_pair_value(rgb.0);
    lemma_hex_pair_value(rgb.1);
    lemma_hex_pair_value(rgb.2);
    let red = hex_pair(rgb.0);
    let green = hex_pair(rgb.1);
    let blue = hex_pair(rgb.2);
    assert(text =~= seq![red[0], red[1], green[0], green[1], blue[0], blue[1]]);
    assert(strip_hash(text) == text);
    assert(expand_digits(text) == text);
    assert(is_hex_color(text));
    lemma_hex_number_six(text);
    lemma_rgb_of_packed(rgb.0, rgb.1, rgb.2);
}

/// The two hexadecimal digits of a byte are hexadecimal digits, and they
/// denote the byte.
proof fn lemma_hex_pair_value(byte: u8)
    ensures
        hex_pair(byte).len() == 2,
        is_hex_digit(hex_pair(byte)[0]),
        is_hex_digit(hex_pair(byte)[1]),
        hex_pair(byte)[0] != '#',
        16 * hex_value(hex_pair(byte)[0]) + hex_value(hex_pair(byte)[1]) == byte,
{
    lemma_digit_char_value(byte as int / 16);
    lemma_digit_char_value(byte as int % 16);
}

/// Three bytes packed into a colour come out again as they went in.
proof fn lemma_rgb_of_packed(r: u8, g: u8, b: u8)
    ensures
        rgb_of((65536 * r + 256 * g + b) as u32) == (r, g, b),
{
    let color: u32 = (65536 * r + 256 * g + b) as u32;
    assert(color / 65536 % 256 == r && color / 256 % 256 == g && color % 256 == b) by (bit_vector)
        requires
            color == 65536 * (r as u32) + 256 * (g as u32) + (b as u32),
    ;
}

/// Sixteen colour texts that are the hexadecimal forms of sixteen colours are
/// all valid and denote those colours.
pub proof fn lemma_hex_texts_denote(colors: Seq<String>, leds: Seq<(u8, u8, u8)>)
    requires
        colors.len() == LED_COUNT,
        leds.len() == LED_COUNT,
        forall|i: int| 0 <= i < LED_COUNT ==> (#[trigger] colors[i])@ == rgb_hex(leds[i]),
    ensures
        all_colors_valid(colors),
        parsed_leds(colors) == leds,
{
    assert forall|i: int| 0 <= i < LED_COUNT implies is_hex_color(#[trigger] colors[i]@)
        && parsed_leds(colors)[i] == leds[i] by {
        lemma_rgb_hex_round_trip(leds[i]);
    }
    assert(parsed_leds(colors) =~= leds);
}

/// Different bytes have different pairs of hexadecimal digits.
proof fn lemma_hex_pair_injective(a: u8, b: u8)
    ensures
        hex_pair(a) == hex_pair(b) ==> a == b,
{
    if hex_pair(a) == hex_pair(b) {
        assert(hex_pair(a)[0] == hex_pair(b)[0]);
        assert(hex_pair(a)[1] == hex_pair(b)[1]);
        lemma_digit_char_value(a as int / 16);
        lemma_digit_char_value(a as int % 16);
        lemma_digit_char_value(b as int / 16);
        lemma_digit_char_value(b as int % 16);
    }
}

/// The character of a digit is a hexadecimal digit, and its value is the
/// digit.
pub proof fn lemma_digit_char_value(digit: int)
    requires
        0 <= digit < 16,
    ensures
        is_hex_digit(digit_char(digit)),
        hex_value(digit_char(digit)) == digit,
{
}

/// Number of hue steps of the rainbow: one for each LED.
pub const HUE_STEPS: u8 = 16;

/// Position on the hue circle, in quarters of a twelfth of the circle.
///
/// With the hue `h = step * 360 / 16` degrees, a channel with offset `n`
/// stands at `k = (n + h / 30) mod 12`; this is `4 * k`, a whole number
/// between 0 and 47.
pub open spec fn hue_position(offset: int, step: int) -> int {
    (4 * offset + 3 * step) % 48
}

/// Four times `clamp(min(k - 3, 9 - k), -1, 1)`, for the position `4 * k`.
pub open spec fn hue_ramp(position: int) -> int {
    let lower = if position - 12 <= 36 - position {
        position - 12
    } else {
        36 - position
    };
    if lower < -4 {
        -4
    } else if lower > 4 {
        4
    } else {
        lower
    }
}

/// One channel of a fully saturated colour of half lightness:
/// `255 * (1/2 - 1/2 * clamp(min(k - 3, 9 - k), -1, 1))`, rounded to the
/// nearest integer.
#[verifier::opaque]
pub open spec fn hue_channel(offset: int, step: int) -> int {
    round_div(255 * (4 - hue_ramp(hue_position(offset, step))), 8)
}

/// The colour of hue step `step` of sixteen: the channel offsets are 0 for
/// red, 8 for green and 4 for blue.
pub open spec fn rainbow_color(step: int) -> (u8, u8, u8) {
    (hue_channel(0, step) as u8, hue_channel(8, step) as u8, hue_channel(4, step) as u8)
}

/// Computes one channel of the colour of a hue step.
fn hue_channel_level(offset: u8, step: u8) -> (level: u8)
    requires
        offset < 12,
    ensures
        level == hue_channel(offset as int, step as int),
{
    reveal(hue_channel);
    let position: i32 = ((4 * (offset as u32) + 3 * (step as u32)) % 48) as i32;
    let lower: i32 = if position - 12 <= 36 - position {
        position - 12
    } else {
        36 - position
    };
    let ramp: i32 = if lower < -4 {
        -4
    } else if lower > 4 {
        4
    } else {
        lower
    };
    rounded_div(255 * ((4 - ramp) as u32), 8) as u8
}

/// The colour of hue step `step` of sixteen, fully saturated, at half
/// lightness. Sixteen steps make the full circle, so step 16 is step 0 again.
pub fn hue_to_rgb(step: u8) -> (rgb: (u8, u8, u8))
    ensures
        rgb == rainbow_color(step as int),
{
    (hue_channel_level(0, step), hue_channel_level(8, step), hue_channel_level(4, step))
}

/// The rainbow: one colour for each LED, the hue circle cut into sixteen
/// equal steps, starting with red at LED 0.
pub fn rainbow() -> (colors: Vec<String>)
    ensures
        colors@.len() == LED_COUNT,
        forall|i: int| 0 <= i < LED_COUNT ==> (#[trigger] colors@[i])@ == rgb_hex(rainbow_color(i)),
        forall|i: int, j: int|
            0 <= i < j < LED_COUNT ==> (#[trigger] colors@[i])@ != (#[trigger] colors@[j])@,
        all_colors_valid(colors@),
        parsed_leds(colors@) == Seq::new(LED_COUNT as nat, |i: int| rainbow_color(i)),
{
    let mut colors: Vec<String> = Vec::new();
    let mut step: u8 = 0;
    while step < HUE_STEPS
        invariant
            step <= HUE_STEPS,
            colors@.len() == step,
            forall|i: int| 0 <= i < step ==> (#[trigger] colors@[i])@ == rgb_hex(rainbow_color(i)),
        decreases HUE_STEPS - step,
    {
        let (r, g, b) = hue_to_rgb(step);
        colors.push(rgb_to_hex(r, g, b));
        step = step + 1;
    }
    proof {
        lemma_hex_texts_denote(colors@, Seq::new(LED_COUNT as nat, |i: int| rainbow_color(i)));
        assert forall|i: int, j: int| 0 <= i < j < LED_COUNT implies (#[trigger] colors@[i])@ != (
        #[trigger] colors@[j])@ by {
            lemma_rainbow_distinct(i, j);
        }
    }
    colors
}

/// The sixteen colours of the rainbow are pairwise different, and so are
/// their hexadecimal forms; the first one is pure red.
pub proof fn lemma_rainbow_distinct(i: int, j: int)
    requires
        0 <= i < HUE_STEPS,
        0 <= j < HUE_STEPS,
        i != j,
    ensures
        rainbow_color(i) != rainbow_color(j),
        rgb_hex(rainbow_color(i)) != rgb_hex(rainbow_color(j)),
        rainbow_color(0) == (255u8, 0u8, 0u8),
{
    if i < j {
        lemma_rainbow_hue_rises(i, j);
    } else {
        lemma_rainbow_hue_rises(j, i);
    }
    lemma_rainbow_first_quarter();
    lemma_rgb_hex_injective(rainbow_color(i), rainbow_color(j));
}

/// Where a fully saturated colour stands on the hue circle, in 255ths of a
/// sixth of the circle: 0 is red, 255 yellow, 510 green, 765 cyan, 1020 blue
/// and 1275 magenta.
pub open spec fn hue_units(rgb: (u8, u8, u8)) -> int {
    let (r, g, b) = rgb;
    if r == 255 && b == 0 {
        g as int
    } else if g == 255 && b == 0 {
        255 + (255 - r)
    } else if g == 255 && r == 0 {
        510 + b
    } else if b == 255 && r == 0 {
        765 + (255 - g)
    } else if b == 255 && g == 0 {
        1020 + r
    } else {
        1275 + (255 - b)
    }
}

/// The rainbow goes once round the hue circle in order: it starts at red, and
/// each colour stands further along the circle than the one before it.
pub proof fn lemma_rainbow_hue_rises(i: int, j: int)
    requires
        0 <= i < j < HUE_STEPS,
    ensures
        hue_units(rainbow_color(0)) == 0,
        hue_units(rainbow_color(i)) < hue_units(rainbow_color(j)) < 6 * 255,
    decreases j - i,
{
    lemma_rainbow_hues();
    lemma_rainbow_hue_step(j - 1);
    if i < j - 1 {
        lemma_rainbow_hue_rises(i, j - 1);
    }
}

/// Each colour of the rainbow stands further along the hue circle than the
/// one before it, and the last one stands before the end of the circle.
proof fn lemma_rainbow_hue_step(i: int)
    requires
        0 <= i < HUE_STEPS - 1,
    ensures
        hue_units(rainbow_color(i)) < hue_units(rainbow_color(i + 1)) < 6 * 255,
{
    lemma_rainbow_hues();
    if i < 4 {
        assert(i == 0 || i == 1 || i == 2 || i == 3);
    } else if i < 8 {
        assert(i == 4 || i == 5 || i == 6 || i == 7);
    } else if i < 12 {
        assert(i == 8 || i == 9 || i == 10 || i == 11);
    } else {
        assert(i == 12 || i == 13 || i == 14);
    }
}

/// Where each colour of the rainbow stands on the hue circle.
proof fn lemma_rainbow_hues()
    ensures
        hue_units(rainbow_color(0)) == 0,
        hue_units(rainbow_color(1)) == 96,
        hue_units(rainbow_color(2)) == 191,
        hue_units(rainbow_color(3)) == 287,
        hue_units(rainbow_color(4)) == 382,
        hue_units(rainbow_color(5)) == 478,
        hue_units(rainbow_color(6)) == 574,
        hue_units(rainbow_color(7)) == 669,
        hue_units(rainbow_color(8)) == 765,
        hue_units(rainbow_color(9)) == 861,
        hue_units(rainbow_color(10)) == 956,
        hue_units(rainbow_color(11)) == 1052,
        hue_units(rainbow_color(12)) == 1148,
        hue_units(rainbow_color(13)) == 1243,
        hue_units(rainbow_color(14)) == 1339,
        hue_units(rainbow_color(15)) == 1434,
{
    lemma_rainbow_first_quarter();
    lemma_rainbow_second_quarter();
    lemma_rainbow_third_quarter();
    lemma_rainbow_last_quarter();
}

/// The colours of the rainbow from red to yellow-green.
proof fn lemma_rainbow_first_quarter()
    ensures
        rainbow_color(0) == (255u8, 0u8, 0u8),
        rainbow_color(1) == (255u8, 96u8, 0u8),
        rainbow_color(2) == (255u8, 191u8, 0u8),
        rainbow_color(3) == (223u8, 255u8, 0u8),
{
    reveal(hue_channel);
}

/// The colours of the rainbow from green to green-cyan.
proof fn lemma_rainbow_second_quarter()
    ensures
        rainbow_color(4) == (128u8, 255u8, 0u8),
        rainbow_color(5) == (32u8, 255u8, 0u8),
        rainbow_color(6) == (0u8, 255u8, 64u8),
        rainbow_color(7) == (0u8, 255u8, 159u8),
{
    reveal(hue_channel);
}

/// The colours of the rainbow from cyan to blue-violet.
proof fn lemma_rainbow_third_quarter()
    ensures
        rainbow_color(8) == (0u8, 255u8, 255u8),
        rainbow_color(9) == (0u8, 159u8, 255u8),
        rainbow_color(10) == (0u8, 64u8, 255u8),
        rainbow_color(11) == (32u8, 0u8, 255u8),
{
    reveal(hue_channel);
}

/// The colours of the rainbow from violet to red-magenta.
proof fn lemma_rainbow_last_quarter()
    ensures
        rainbow_color(12) == (128u8, 0u8, 255u8),
        rainbow_color(13) == (223u8, 0u8, 255u8),
        rainbow_color(14) == (255u8, 0u8, 191u8),
        rainbow_color(15) == (255u8, 0u8, 96u8),
{
    reveal(hue_channel);
}

/// Number of interpolation steps of a gradient: half the LEDs.
pub const GRADIENT_STEPS: usize = 8;

/// The value at step `step` of seven on the straight line from `start` to
/// `end`: `start + (end - start) * step / 7`, rounded to the nearest integer.
pub open spec fn interpolate_spec(start: int, end: int, step: int) -> int {
    round_div(start * (7 - step) + end * step, 7)
}

/// Each channel interpolated by itself.
pub open spec fn interpolate_color_spec(start: (u8, u8, u8), end: (u8, u8, u8), step: int) -> (
    u8,
    u8,
    u8,
) {
    (
        interpolate_spec(start.0 as int, end.0 as int, step) as u8,
        interpolate_spec(start.1 as int, end.1 as int, step) as u8,
        interpolate_spec(start.2 as int, end.2 as int, step) as u8,
    )
}

/// The interpolation step that LED `led` shows: the steps 0 to 7 on the first
/// eight LEDs, and the same steps in reverse on the last eight.
pub open spec fn gradient_step(led: int) -> int {
    if led < GRADIENT_STEPS {
        led
    } else {
        LED_COUNT - 1 - led
    }
}

/// The colour of LED `led` in the gradient from `start_color` to `end_color`.
pub open spec fn gradient_color(start_color: u32, end_color: u32, led: int) -> (u8, u8, u8) {
    interpolate_color_spec(rgb_of(start_color), rgb_of(end_color), gradient_step(led))
}

/// Interpolates one channel at step `step` of seven.
pub fn interpolate(start: u8, end: u8, step: u8) -> (value: u8)
    requires
        step < GRADIENT_STEPS,
    ensures
        value == interpolate_spec(start as int, end as int, step as int),
{
    assert(0 <= start * (7 - step) + end * step <= 255 * 7 && 0 <= start * (7 - step) && 0 <= end
        * step) by (nonlinear_arith)
        requires
            step <= 7,
    ;
    let weighted: u32 = (start as u32) * (7 - step as u32) + (end as u32) * (step as u32);
    proof {
        lemma_round_div_nearest(weighted as int, 7);
    }
    rounded_div(weighted, 7) as u8
}

/// Interpolates a colour at step `step` of seven, channel by channel.
pub fn interpolate_color(start: (u8, u8, u8), end: (u8, u8, u8), step: u8) -> (rgb: (u8, u8, u8))
    requires
        step < GRADIENT_STEPS,
    ensures
        rgb == interpolate_color_spec(start, end, step as int),
{
    (
        interpolate(start.0, end.0, step),
        interpolate(start.1, end.1, step),
        interpolate(start.2, end.2, step),
    )
}

/// The gradient: eight colours from `start_color` to `end_color` on the
/// first eight LEDs, and the same colours in reverse on the last eight.
pub fn gradient(start_color: u32, end_color: u32) -> (colors: Vec<String>)
    ensures
        colors@.len() == LED_COUNT,
        forall|i: int|
            0 <= i < LED_COUNT ==> (#[trigger] colors@[i])@ == rgb_hex(
                gradient_color(start_color, end_color, i),
            ),
        forall|i: int| 0 <= i < LED_COUNT ==> (#[trigger] colors@[i])@ == colors@[LED_COUNT - 1 - i]@,
        colors@[0]@ == rgb_hex(rgb_of(start_color)),
        colors@[GRADIENT_STEPS - 1]@ == rgb_hex(rgb_of(end_color)),
        all_colors_valid(colors@),
        parsed_leds(colors@) == Seq::new(
            LED_COUNT as nat,
            |i: int| gradient_color(start_color, end_color, i),
        ),
{
    let start = u32_to_rgb(start_color);
    let end = u32_to_rgb(end_color);
    let mut colors: Vec<String> = Vec::new();
    let mut step: u8 = 0;
    while step < GRADIENT_STEPS as u8
        invariant
            step <= GRADIENT_STEPS,
            start == rgb_of(start_color),
            end == rgb_of(end_color),
            colors@.len() == step,
            forall|i: int|
                0 <= i < step ==> (#[trigger] colors@[i])@ == rgb_hex(
                    gradient_color(start_color, end_color, i),
                ),
        decreases GRADIENT_STEPS - step,
    {
        let (r, g, b) = interpolate_color(start, end, step);
        colors.push(rgb_to_hex(r, g, b));
        step = step + 1;
    }
    let mut mirrored: usize = 0;
    while mirrored < GRADIENT_STEPS
        invariant
            mirrored <= GRADIENT_STEPS,
            colors@.len() == GRADIENT_STEPS + mirrored,
            forall|i: int|
                0 <= i < GRADIENT_STEPS + mirrored ==> (#[trigger] colors@[i])@ == rgb_hex(
                    gradient_color(start_color, end_color, i),
                ),
        decreases GRADIENT_STEPS - mirrored,
    {
        let copy = colors[GRADIENT_STEPS - 1 - mirrored].clone();
        colors.push(copy);
        mirrored = mirrored + 1;
    }
    proof {
        lemma_hex_texts_denote(
            colors@,
            Seq::new(LED_COUNT as nat, |i: int| gradient_color(start_color, end_color, i)),
        );
        lemma_gradient_is_palindrome(start_color, end_color, 0);
        assert forall|i: int| 0 <= i < LED_COUNT implies (#[trigger] colors@[i])@ == colors@[LED_COUNT
            - 1 - i]@ by {
            lemma_gradient_is_palindrome(start_color, end_color, i);
        }
    }
    colors
}

/// A gradient reads the same from both ends; it starts with the start colour
/// and reaches the end colour at its eighth LED.
pub proof fn lemma_gradient_is_palindrome(start_color: u32, end_color: u32, led: int)
    requires
        0 <= led < LED_COUNT,
    ensures
        gradient_color(start_color, end_color, led) == gradient_color(
            start_color,
            end_color,
            LED_COUNT - 1 - led,
        ),
        gradient_color(start_color, end_color, 0) == rgb_of(start_color),
        gradient_color(start_color, end_color, GRADIENT_STEPS - 1) == rgb_of(end_color),
{
    let start = rgb_of(start_color);
    let end = rgb_of(end_color);
    lemma_interpolate_ends(start.0 as int, end.0 as int);
    lemma_interpolate_ends(start.1 as int, end.1 as int);
    lemma_interpolate_ends(start.2 as int, end.2 as int);
}

/// The first interpolation step is the start value and the last one is the
/// end value.
pub proof fn lemma_interpolate_ends(start: int, end: int)
    requires
        0 <= start,
        0 <= end,
    ensures
        interpolate_spec(start, end, 0) == start,
        interpolate_spec(start, end, 7) == end,
{
    lemma_round_div_nearest(start * 7, 7);
    lemma_round_div_nearest(end * 7, 7);
}

/// Code of the lighting subsystem in the low bits of byte 1 of a frame.
pub const LIGHTING_FEATURE: u8 = 0b100;

/// Milliseconds that the device needs after a lighting frame before it takes
/// the next command.
pub const LIGHTING_DELAY_MS: u64 = 5;

/// The lighting payload for sixteen LED colours.
///
/// Byte 0 is zero. LED `i` takes the three bytes from `3 * i + 1` on, in the
/// order green, red, blue. The bytes after the last LED are zero.
pub open spec fn lighting_payload_spec(leds: Seq<(u8, u8, u8)>) -> Seq<u8> {
    Seq::new(
        PAYLOAD_LEN as nat,
        |k: int|
            if 1 <= k <= 3 * LED_COUNT {
                let led = leds[(k - 1) / 3];
                let channel = (k - 1) % 3;
                if channel == 0 {
                    led.1
                } else if channel == 1 {
                    led.0
                } else {
                    led.2
                }
            } else {
                0
            },
    )
}

/// Sixteen LEDs of one colour.
pub open spec fn uniform_leds(rgb: (u8, u8, u8)) -> Seq<(u8, u8, u8)> {
    Seq::new(LED_COUNT as nat, |i: int| rgb)
}

/// Whether each of the sixteen texts is a colour.
pub open spec fn all_colors_valid(colors: Seq<String>) -> bool {
    forall|i: int| 0 <= i < LED_COUNT ==> is_hex_color(#[trigger] colors[i]@)
}

/// The LED colours that sixteen colour texts denote.
pub open spec fn parsed_leds(colors: Seq<String>) -> Seq<(u8, u8, u8)> {
    Seq::new(LED_COUNT as nat, |i: int| rgb_of(parse_color_spec(colors[i]@).unwrap() as u32))
}

/// The payload holds each LED's green, red and blue byte at offsets
/// `3 * i + 1`, `3 * i + 2` and `3 * i + 3`, and zero everywhere else.
pub proof fn lemma_lighting_payload_offsets(leds: Seq<(u8, u8, u8)>, led: int)
    requires
        leds.len() == LED_COUNT,
        0 <= led < LED_COUNT,
    ensures
        lighting_payload_spec(leds).len() == PAYLOAD_LEN,
        lighting_payload_spec(leds)[3 * led + 1] == leds[led].1,
        lighting_payload_spec(leds)[3 * led + 2] == leds[led].0,
        lighting_payload_spec(leds)[3 * led + 3] == leds[led].2,
        lighting_payload_spec(leds)[0] == 0,
        forall|k: int| 3 * LED_COUNT < k < PAYLOAD_LEN ==> lighting_payload_spec(leds)[k] == 0,
{
}

/// Builds the lighting payload for sixteen LED colours.
pub fn lighting_payload(leds: &[(u8, u8, u8); 16]) -> (payload: [u8; 60])
    ensures
        payload@ == lighting_payload_spec(leds@),
{
    let mut payload = [0u8; 60];
    let mut i: usize = 0;
    while i < LED_COUNT
        invariant
            i <= LED_COUNT,
            forall|k: int| 0 <= k <= 3 * i ==> payload@[k] == lighting_payload_spec(leds@)[k],
            forall|k: int| 3 * i < k < PAYLOAD_LEN ==> payload@[k] == 0,
        decreases LED_COUNT - i,
    {
        let (r, g, b) = leds[i];
        payload[i * 3 + 1] = g;
        payload[i * 3 + 2] = r;
        payload[i * 3 + 3] = b;
        i = i + 1;
    }
    assert(payload@ =~= lighting_payload_spec(leds@));
    payload
}

/// Builds the lighting payload that gives every LED the colour `color`.
pub fn color_payload(color: u32) -> (payload: [u8; 60])
    ensures
        payload@ == lighting_payload_spec(uniform_leds(rgb_of(color))),
{
    let leds = [u32_to_rgb(color);16];
    assert(leds@ =~= uniform_leds(rgb_of(color)));
    lighting_payload(&leds)
}

/// Builds the lighting payload for sixteen colour texts, one for each LED in
/// order. Fails when one of them is not a colour.
pub fn colors_payload(colors: &Vec<String>) -> (result: Result<[u8; 60], InvalidColor>)
    requires
        colors@.len() == LED_COUNT,
    ensures
        match result {
            Ok(payload) => all_colors_valid(colors@) && payload@ == lighting_payload_spec(
                parsed_leds(colors@),
            ),
            Err(_) => !all_colors_valid(colors@),
        },
{
    let mut leds = [(0u8, 0u8, 0u8);16];
    let mut i: usize = 0;
    while i < LED_COUNT
        invariant
            i <= LED_COUNT,
            colors@.len() == LED_COUNT,
            forall|k: int| 0 <= k < i ==> is_hex_color(#[trigger] colors@[k]@),
            forall|k: int| 0 <= k < i ==> leds@[k] == parsed_leds(colors@)[k],
        decreases LED_COUNT - i,
    {
        match parse_color(colors[i].as_str()) {
            Ok(color) => {
                leds[i] = u32_to_rgb(color);
            },
            Err(error) => {
                assert(!is_hex_color(colors@[i as int]@));
                return Err(error);
            },
        }
        i = i + 1;
    }
    assert(leds@ =~= parsed_leds(colors@));
    Ok(lighting_payload(&leds))
}

/// Builds the frame that gives every LED the colour `color`.
pub fn set_color(color: u32) -> (frame: [u8; 64])
    ensures
        exists|nonce: u8|
            is_nonce(nonce) && frame@ == #[trigger] encode_spec(
                nonce,
                LIGHTING_FEATURE,
                None,
                Some(lighting_payload_spec(uniform_leds(rgb_of(color)))),
            ),
        frame_is_valid(frame@),
{
    encode(LIGHTING_FEATURE, None, Some(color_payload(color)))
}

/// Builds the frame that gives each LED its own colour, from sixteen colour
/// texts in LED order. Fails, before anything is built, when one of them is
/// not a colour.
pub fn set_colors(colors: Vec<String>) -> (result: Result<[u8; 64], InvalidColor>)
    requires
        colors@.len() == LED_COUNT,
    ensures
        match result {
            Ok(frame) => all_colors_valid(colors@) && frame_is_valid(frame@) && exists|nonce: u8|
                is_nonce(nonce) && frame@ == #[trigger] encode_spec(
                    nonce,
                    LIGHTING_FEATURE,
                    None,
                    Some(lighting_payload_spec(parsed_leds(colors@))),
                ),
            Err(_) => !all_colors_valid(colors@),
        },
{
    match colors_payload(&colors) {
        Ok(payload) => Ok(encode(LIGHTING_FEATURE, None, Some(payload))),
        Err(error) => Err(error),
    }
}

} // verus!
