//! Checksum, nonce and small byte conversions shared by the codecs.

use rand::Rng;
use vstd::prelude::*;

verus! {

/// Polynomial of the frame checksum, x^8 + x^2 + x + 1 without its top bit.
pub const CRC8_POLYNOMIAL: u8 = 0x07;

/// One round of the checksum: shift the remainder left by one bit and reduce
/// it by the polynomial when the bit shifted out was set.
pub open spec fn crc8_shift(crc: u8) -> u8 {
    if crc & 0x80 != 0 {
        (crc << 1) ^ CRC8_POLYNOMIAL
    } else {
        crc << 1
    }
}

/// `rounds` rounds of the checksum applied to the remainder `crc`.
pub open spec fn crc8_rounds(crc: u8, rounds: nat) -> u8
    decreases rounds,
{
    if rounds == 0 {
        crc
    } else {
        crc8_rounds(crc8_shift(crc), (rounds - 1) as nat)
    }
}

/// The remainder after one more byte: the byte is folded into the remainder,
/// which then goes through eight rounds.
pub open spec fn crc8_byte(crc: u8, byte: u8) -> u8 {
    crc8_rounds(crc ^ byte, 8)
}

/// The checksum of a byte sequence: the remainder that is left when the bytes
/// are fed in order, starting from a remainder of zero.
pub open spec fn crc8_spec(data: Seq<u8>) -> u8
    decreases data.len(),
{
    if data.len() == 0 {
        0
    } else {
        crc8_byte(crc8_spec(data.drop_last()), data.last())
    }
}

/// Computes the 8-bit checksum of `data`, bit by bit.
pub fn crc8(data: &[u8]) -> (crc: u8)
    ensures
        crc == crc8_spec(data@),
{
    let mut crc: u8 = 0x00;
    let mut i: usize = 0;
    while i < data.len()
        invariant
            i <= data.len(),
            crc == crc8_spec(data@.take(i as int)),
        decreases data.len() - i,
    {
        let ghost before = crc;
        crc = crc ^ data[i];
        let mut round: u8 = 0;
        while round < 8
            invariant
                round <= 8,
                crc8_rounds(crc, (8 - round) as nat) == crc8_byte(before, data@[i as int]),
            decreases 8 - round,
        {
            crc = if crc & 0x80 != 0 {
                (crc << 1) ^ CRC8_POLYNOMIAL
            } else {
                crc << 1
            };
            round = round + 1;
        }
        proof {
            assert(data@.take(i + 1).drop_last() == data@.take(i as int));
        }
        i = i + 1;
    }
    proof {
        assert(data@.take(data.len() as int) == data@);
    }
    crc
}

/// Different remainders stay different through any number of rounds.
pub proof fn lemma_crc8_rounds_injective(first: u8, second: u8, rounds: nat)
    requires
        first != second,
    ensures
        crc8_rounds(first, rounds) != crc8_rounds(second, rounds),
    decreases rounds,
{
    if rounds > 0 {
        assert(crc8_shift(first) != crc8_shift(second)) by (bit_vector)
            requires
                first != second,
        ;
        lemma_crc8_rounds_injective(crc8_shift(first), crc8_shift(second), (rounds - 1) as nat);
    }
}

/// Two byte sequences of one length that differ in exactly one place have
/// different checksums.
pub proof fn lemma_crc8_detects_one_changed_byte(first: Seq<u8>, second: Seq<u8>, place: int)
    requires
        first.len() == second.len(),
        0 <= place < first.len(),
        first[place] != second[place],
        forall|k: int| 0 <= k < first.len() && k != place ==> first[k] == second[k],
    ensures
        crc8_spec(first) != crc8_spec(second),
    decreases first.len(),
{
    let before_first = crc8_spec(first.drop_last());
    let before_second = crc8_spec(second.drop_last());
    let last_first = first.last();
    let last_second = second.last();
    if place == first.len() - 1 {
        assert(first.drop_last() =~= second.drop_last());
        assert(before_first ^ last_first != before_first ^ last_second) by (bit_vector)
            requires
                last_first != last_second,
        ;
    } else {
        lemma_crc8_detects_one_changed_byte(first.drop_last(), second.drop_last(), place);
        assert(before_first ^ last_first != before_second ^ last_first) by (bit_vector)
            requires
                before_first != before_second,
        ;
    }
    lemma_crc8_rounds_injective(before_first ^ last_first, before_second ^ last_second, 8);
}

/// Reads the 16-bit little-endian integer stored at `offset` and `offset + 1`.
pub fn u16le_from(buffer: &[u8], offset: usize) -> (value: u16)
    requires
        offset + 1 < buffer@.len(),
    ensures
        value == buffer@[offset as int] + 256 * buffer@[offset + 1],
{
    let low: u16 = buffer[offset] as u16;
    let high: u16 = buffer[offset + 1] as u16;
    low + 256 * high
}

/// Smallest tag that a nonce is made of, before it is shifted past the three
/// low bits of the byte.
pub const NONCE_TAG_MIN: u8 = 1;

/// Largest tag that a nonce is made of: the largest that five bits hold.
pub const NONCE_TAG_MAX: u8 = 31;

/// A nonce is a tag between `NONCE_TAG_MIN` and `NONCE_TAG_MAX` shifted left
/// by three bits, so that its low three bits are free for a command or
/// feature code.
pub open spec fn is_nonce(byte: u8) -> bool {
    exists|tag: u8| NONCE_TAG_MIN <= tag <= NONCE_TAG_MAX && byte == #[trigger] (tag << 3)
}

/// The low three bits of a nonce are zero, and a nonce is never zero.
pub proof fn lemma_nonce_low_bits(byte: u8)
    requires
        is_nonce(byte),
    ensures
        byte & 0x07 == 0,
        8 <= byte <= 248,
        byte % 8 == 0,
{
    let tag = choose|tag: u8| NONCE_TAG_MIN <= tag <= NONCE_TAG_MAX && byte == #[trigger] (tag << 3);
    assert((tag << 3) & 0x07 == 0 && 8 <= (tag << 3) <= 248 && (tag << 3) % 8 == 0) by (bit_vector)
        requires
            1 <= tag <= 31,
    ;
}

/// Draws an integer between `low` and `high`, both included, from the
/// thread-local generator of the `rand` crate (`thread_rng`, then
/// `Rng::gen_range` on an inclusive range). Nothing is claimed of the value
/// but its bounds: two calls may differ. `gen_range` panics on an empty
/// range, which the precondition rules out. The generator is seeded by the
/// operating system when a thread first uses it, and `thread_rng` panics if
/// that seeding fails; no input decides that.
#[verifier::external_body]
fn random_in_range(low: u8, high: u8) -> (value: u8)
    requires
        low <= high,
    ensures
        low <= value <= high,
{
    rand::thread_rng().gen_range(low..=high)
}

/// Produces a fresh nonce: a random tag in the upper five bits of the byte,
/// the low three bits zero.
pub fn random_byte() -> (nonce: u8)
    ensures
        is_nonce(nonce),
        nonce & 0x07 == 0,
{
    let tag = random_in_range(NONCE_TAG_MIN, NONCE_TAG_MAX);
    let nonce = tag << 3;
    proof {
        lemma_nonce_low_bits(nonce);
    }
    nonce
}

/// The integer nearest to `numerator / denominator`, for a non-negative
/// numerator and a positive denominator; a value halfway between two integers
/// goes to the larger one.
pub open spec fn round_div(numerator: int, denominator: int) -> int {
    (2 * numerator + denominator) / (2 * denominator)
}

/// Divides and rounds to the nearest integer, a half going up.
pub fn rounded_div(numerator: u32, denominator: u32) -> (quotient: u32)
    requires
        0 < denominator,
    ensures
        quotient == round_div(numerator as int, denominator as int),
{
    let doubled: u64 = 2 * (numerator as u64) + denominator as u64;
    let divisor: u64 = 2 * (denominator as u64);
    assert(doubled / divisor <= numerator) by (nonlinear_arith)
        requires
            0 < denominator,
            doubled == 2 * numerator + denominator,
            divisor == 2 * denominator,
    ;
    (doubled / divisor) as u32
}

/// `round_div` is at most one half away from the exact quotient.
pub proof fn lemma_round_div_nearest(numerator: int, denominator: int)
    requires
        0 <= numerator,
        0 < denominator,
    ensures
        0 <= round_div(numerator, denominator),
        2 * denominator * round_div(numerator, denominator) - denominator <= 2 * numerator,
        2 * numerator < 2 * denominator * round_div(numerator, denominator) + denominator,
{
    let n = 2 * numerator + denominator;
    let d = 2 * denominator;
    assert(0 <= n / d && d * (n / d) <= n < d * (n / d) + d) by (nonlinear_arith)
        requires
            0 <= n,
            0 < d,
    ;
}

/// The duty byte for a percentage: `percentage / 100` of 255, rounded to the
/// nearest integer and capped at 255.
pub open spec fn fraction_of_byte_spec(percentage: int) -> int {
    let exact = round_div(percentage * 255, 100);
    if exact > 255 {
        255
    } else {
        exact
    }
}

/// The whole percentage that a duty byte stands for: `value / 255` of 100,
/// rounded to the nearest integer.
pub open spec fn byte_to_fraction_spec(value: int) -> int {
    round_div(value * 100, 255)
}

/// Converts a duty byte to the nearest whole percentage.
pub fn byte_to_fraction(value: u8) -> (percentage: u8)
    ensures
        percentage == byte_to_fraction_spec(value as int),
        percentage <= 100,
{
    proof {
        lemma_round_div_nearest(value as int * 100, 255);
    }
    rounded_div(value as u32 * 100, 255) as u8
}

/// Converts a percentage to a duty byte; 100 and more give the full duty 255.
pub fn fraction_of_byte(percentage: u32) -> (value: u8)
    ensures
        value == fraction_of_byte_spec(percentage as int),
{
    if percentage >= 100 {
        proof {
            lemma_round_div_nearest(percentage as int * 255, 100);
        }
        255
    } else {
        proof {
            lemma_round_div_nearest(percentage as int * 255, 100);
        }
        rounded_div(percentage * 255, 100) as u8
    }
}

/// A percentage that was turned into a duty byte reads back as itself, and
/// the duty byte stands for the percentage to within half a step of the byte:
/// `value / 255` differs from `percentage / 100` by at most `1 / 510`.
pub proof fn lemma_percentage_round_trip(percentage: int)
    requires
        0 <= percentage <= 100,
    ensures
        0 <= fraction_of_byte_spec(percentage) <= 255,
        byte_to_fraction_spec(fraction_of_byte_spec(percentage)) == percentage,
        -100 <= 200 * fraction_of_byte_spec(percentage) - 510 * percentage <= 100,
{
    lemma_round_div_nearest(percentage * 255, 100);
    let value = fraction_of_byte_spec(percentage);
    assert(510 * percentage - 100 <= 200 * value <= 510 * percentage + 100);
    lemma_round_div_nearest(value * 100, 255);
}

} // verus!
