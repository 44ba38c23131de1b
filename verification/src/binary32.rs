//! Real numbers in the IEEE 754 binary32 encoding, held as the 32 bits of
//! the encoding. Stabilities, difficulties, intervals, retention targets and
//! model parameters travel through this crate in that form; the few facts
//! that the scheduling rules need about their values are stated over the
//! integers that the bits stand for.

use vstd::arithmetic::mul::{lemma_mul_inequality, lemma_mul_strict_inequality};
use vstd::arithmetic::power2::{
    lemma2_to64, lemma_pow2_adds, lemma_pow2_pos, lemma_pow2_strictly_increases, pow2,
};
use vstd::prelude::*;

verus! {

/// The encoding of the number one.
pub const ONE: u32 = 0x3F80_0000;

/// The encoding nearest to nine tenths.
pub const NINE_TENTHS: u32 = 0x3F66_6666;

/// The sign bit: set for negative numbers and negative zero.
pub open spec fn is_negative(bits: u32) -> bool {
    bits >= 0x8000_0000
}

/// The biased exponent, from 0 to 255.
pub open spec fn exponent_of(bits: u32) -> int {
    (bits as int / 0x80_0000) % 0x100
}

/// The 23 bits of the fraction.
pub open spec fn fraction_of(bits: u32) -> int {
    bits as int % 0x80_0000
}

/// An encoding is finite unless its exponent is 255, which marks the
/// infinities and the values that are not numbers.
pub open spec fn is_finite(bits: u32) -> bool {
    exponent_of(bits) != 0xFF
}

/// The two infinities: exponent 255 and an empty fraction.
pub open spec fn is_infinite(bits: u32) -> bool {
    exponent_of(bits) == 0xFF && fraction_of(bits) == 0
}

/// The absolute value of a finite encoding, multiplied by 2 to the power
/// 149 (which makes every finite value an integer).
pub open spec fn scaled_magnitude(bits: u32) -> int
    recommends
        is_finite(bits),
{
    if exponent_of(bits) == 0 {
        fraction_of(bits)
    } else {
        (0x80_0000 + fraction_of(bits)) * pow2((exponent_of(bits) - 1) as nat)
    }
}

/// The encoded value lies strictly between zero and one.
pub open spec fn in_open_unit_interval(bits: u32) -> bool {
    &&& !is_negative(bits)
    &&& is_finite(bits)
    &&& 0 < scaled_magnitude(bits) < pow2(149)
}

/// The encoded value is greater than zero: a positive number or positive
/// infinity.
pub open spec fn positive(bits: u32) -> bool {
    &&& !is_negative(bits)
    &&& is_infinite(bits) || (is_finite(bits) && scaled_magnitude(bits) > 0)
}

/// The encoded value is zero or greater: zero of either sign, a positive
/// number or positive infinity.
pub open spec fn not_below_zero(bits: u32) -> bool {
    positive(bits) || (is_finite(bits) && scaled_magnitude(bits) == 0)
}

/// Between which powers of two the magnitude of a finite encoding lies.
pub proof fn lemma_magnitude_bounds(bits: u32)
    requires
        is_finite(bits),
    ensures
        exponent_of(bits) == 0 ==> 0 <= scaled_magnitude(bits) < pow2(23),
        exponent_of(bits) > 0 ==> pow2((22 + exponent_of(bits)) as nat) <= scaled_magnitude(bits)
            < pow2((23 + exponent_of(bits)) as nat),
{
    lemma2_to64();
    let e = exponent_of(bits);
    let f = fraction_of(bits);
    if e > 0 {
        let p = pow2((e - 1) as nat) as int;
        lemma_pow2_pos((e - 1) as nat);
        lemma_pow2_adds(23, (e - 1) as nat);
        lemma_pow2_adds(24, (e - 1) as nat);
        lemma_mul_inequality(0x80_0000, 0x80_0000 + f, p);
        lemma_mul_strict_inequality(0x80_0000 + f, 0x100_0000, p);
    }
}

/// Powers of two grow with their exponent.
proof fn lemma_pow2_increases(smaller: nat, larger: nat)
    requires
        smaller <= larger,
    ensures
        pow2(smaller) <= pow2(larger),
{
    if smaller < larger {
        lemma_pow2_strictly_increases(smaller, larger);
    }
}

/// Among the encodings of finite numbers that are not negative, a larger
/// encoding stands for a larger number.
pub proof fn lemma_magnitude_increases(smaller: u32, larger: u32)
    requires
        smaller < larger,
        !is_negative(larger),
        is_finite(larger),
    ensures
        is_finite(smaller),
        scaled_magnitude(smaller) < scaled_magnitude(larger),
{
    let e1 = exponent_of(smaller);
    let e2 = exponent_of(larger);
    lemma_magnitude_bounds(smaller);
    lemma_magnitude_bounds(larger);
    if e1 == e2 {
        if e1 > 0 {
            let p = pow2((e1 - 1) as nat) as int;
            lemma_pow2_pos((e1 - 1) as nat);
            lemma_mul_strict_inequality(
                0x80_0000 + fraction_of(smaller),
                0x80_0000 + fraction_of(larger),
                p,
            );
        }
    } else {
        lemma_pow2_increases((23 + e1) as nat, (22 + e2) as nat);
    }
}

/// The encoding [`ONE`] stands for the number one, and zero for zero.
pub proof fn lemma_one()
    ensures
        is_finite(ONE),
        !is_negative(ONE),
        scaled_magnitude(ONE) == pow2(149),
        scaled_magnitude(0) == 0,
{
    lemma2_to64();
    lemma_pow2_adds(23, 126);
}

/// [`NINE_TENTHS`] stands for 15099494 / 2^24, which is nearer to nine
/// tenths than half the distance between neighbouring encodings, and lies
/// strictly between zero and one.
pub proof fn lemma_nine_tenths()
    ensures
        scaled_magnitude(NINE_TENTHS) == 15099494 * pow2(125),
        -5 < 10 * 15099494 - 9 * 0x100_0000 < 5,
        in_open_unit_interval(NINE_TENTHS),
{
    lemma_open_unit_interval(NINE_TENTHS);
}

/// Whether the encoding stands for a finite number.
pub fn is_finite_bits(bits: u32) -> (r: bool)
    ensures
        r == is_finite(bits),
{
    (bits / 0x80_0000) % 0x100 != 0xFF
}

/// Every encoding of the sequence stands for a finite number.
pub open spec fn all_finite(encodings: Seq<u32>) -> bool {
    forall|i: int| 0 <= i < encodings.len() ==> is_finite(#[trigger] encodings[i])
}

/// Whether every encoding stands for a finite number.
pub fn are_all_finite(encodings: &Vec<u32>) -> (r: bool)
    ensures
        r == all_finite(encodings@),
{
    let mut i: usize = 0;
    while i < encodings.len()
        invariant
            i <= encodings.len(),
            all_finite(encodings@.take(i as int)),
        decreases encodings.len() - i,
    {
        if !is_finite_bits(encodings[i]) {
            return false;
        }
        i += 1;
    }
    assert(encodings@.take(i as int) == encodings@);
    true
}

/// The values strictly between zero and one are those whose encodings lie
/// strictly between the encodings of zero and one.
pub proof fn lemma_open_unit_interval(bits: u32)
    ensures
        in_open_unit_interval(bits) <==> 0 < bits < ONE,
{
    lemma_one();
    if 0 < bits && bits < ONE {
        lemma_magnitude_increases(0, bits);
        lemma_magnitude_increases(bits, ONE);
    } else if ONE < bits && !is_negative(bits) && is_finite(bits) {
        lemma_magnitude_increases(ONE, bits);
    }
}

/// The encoding of positive infinity.
pub const INFINITY: u32 = 0x7F80_0000;

/// The encoding of negative zero.
pub const NEGATIVE_ZERO: u32 = 0x8000_0000;

/// The values greater than zero are those whose encodings lie above the
/// encoding of zero and not above that of positive infinity.
pub proof fn lemma_positive(bits: u32)
    ensures
        positive(bits) <==> 0 < bits <= INFINITY,
{
    if 0 < bits && bits < INFINITY {
        lemma_magnitude_increases(0, bits);
    }
}

/// The values not below zero are the values greater than zero and the two
/// zeros.
pub proof fn lemma_not_below_zero(bits: u32)
    ensures
        not_below_zero(bits) <==> bits <= INFINITY || bits == NEGATIVE_ZERO,
{
    lemma_positive(bits);
    if bits > NEGATIVE_ZERO && is_finite(bits) {
        let twin = (bits - NEGATIVE_ZERO) as u32;
        lemma_magnitude_increases(0, twin);
    }
}

/// Whether the encoded value is greater than zero.
pub fn is_positive(bits: u32) -> (r: bool)
    ensures
        r == positive(bits),
{
    proof {
        lemma_positive(bits);
    }
    0 < bits && bits <= INFINITY
}

/// Whether the encoded value is zero or greater.
pub fn is_not_below_zero(bits: u32) -> (r: bool)
    ensures
        r == not_below_zero(bits),
{
    proof {
        lemma_not_below_zero(bits);
    }
    bits <= INFINITY || bits == NEGATIVE_ZERO
}

/// Whether the encoded value lies strictly between zero and one.
pub fn is_in_open_unit_interval(bits: u32) -> (r: bool)
    ensures
        r == in_open_unit_interval(bits),
{
    proof {
        lemma_open_unit_interval(bits);
    }
    0 < bits && bits < ONE
}

} // verus!
