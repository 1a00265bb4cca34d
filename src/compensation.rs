//! Fixed-point temperature compensation, in signed 32-bit arithmetic that
//! wraps on overflow exactly as the vendor's reference code does.
use vstd::prelude::*;

verus! {

/// The 20-bit ADC code held in a three-byte burst, most significant byte
/// first, whose low four bits are padding.
pub open spec fn adc_code(b0: u8, b1: u8, b2: u8) -> int {
    b0 * 4096 + b1 * 16 + b2 / 16
}

/// The vendor's fine temperature for ADC code `adc_t` and the temperature
/// coefficients, in this order of operations: each sum and product wraps to
/// 32 bits and each right shift is arithmetic.
pub open spec fn fine_temperature(adc_t: i32, dig_t1: u16, dig_t2: i16, dig_t3: i16) -> i32 {
    let t1 = dig_t1 as i32;
    let d1 = (adc_t >> 3u32).wrapping_sub((2 * t1) as i32);
    let v1 = d1.wrapping_mul(dig_t2 as i32) >> 11u32;
    let d2 = (adc_t >> 4u32).wrapping_sub(t1);
    let v2 = (d2.wrapping_mul(d2) >> 12u32).wrapping_mul(dig_t3 as i32) >> 14u32;
    v1.wrapping_add(v2)
}

/// The fine temperature in exact integer arithmetic, each shift a division
/// rounded towards negative infinity.
pub open spec fn fine_exact(adc_t: int, t1: int, t2: int, t3: int) -> int {
    let d1 = adc_t / 8 - 2 * t1;
    let d2 = adc_t / 16 - t1;
    (d1 * t2) / 2048 + ((d2 * d2) / 4096 * t3) / 16384
}

/// No product of the fine-temperature formula leaves the 32-bit range.
pub open spec fn fine_fits(adc_t: int, t1: int, t2: int, t3: int) -> bool {
    let d1 = adc_t / 8 - 2 * t1;
    let d2 = adc_t / 16 - t1;
    &&& i32::MIN <= d1 * t2 <= i32::MAX
    &&& d2 * d2 <= i32::MAX
    &&& i32::MIN <= (d2 * d2) / 4096 * t3 <= i32::MAX
}

/// Temperature in hundredths of a degree Celsius for a fine temperature,
/// rounded to nearest by the bias of 128 before the shift.
pub open spec fn hundredths(fine: i32) -> i32 {
    fine.wrapping_mul(5).wrapping_add(128) >> 8u32
}

/// Assembles the ADC code of a three-byte burst read: the bytes form a
/// 24-bit value most significant first, shifted right by four.
pub fn adc_from_burst(b0: u8, b1: u8, b2: u8) -> (r: i32)
    ensures
        r as int == adc_code(b0, b1, b2),
        0 <= r < 0x10_0000,
{
    let raw: u32 = (b0 as u32) << 16u32 | (b1 as u32) << 8u32 | b2 as u32;
    let code: u32 = raw >> 4u32;
    assert(((b0 as u32) << 16u32 | (b1 as u32) << 8u32 | b2 as u32) >> 4u32
        == b0 as u32 * 4096 + b1 as u32 * 16 + b2 as u32 / 16) by (bit_vector);
    code as i32
}

/// The fine temperature of ADC code `adc_t` under the given temperature
/// coefficients.
pub fn compensate_fine(adc_t: i32, dig_t1: u16, dig_t2: i16, dig_t3: i16) -> (r: i32)
    ensures
        r == fine_temperature(adc_t, dig_t1, dig_t2, dig_t3),
        fine_fits(adc_t as int, dig_t1 as int, dig_t2 as int, dig_t3 as int) ==> r as int
            == fine_exact(adc_t as int, dig_t1 as int, dig_t2 as int, dig_t3 as int),
{
    proof {
        if fine_fits(adc_t as int, dig_t1 as int, dig_t2 as int, dig_t3 as int) {
            lemma_fine_exact(adc_t, dig_t1, dig_t2, dig_t3);
        }
    }
    let t1 = dig_t1 as i32;
    let d1 = (adc_t >> 3u32).wrapping_sub(2 * t1);
    let v1 = d1.wrapping_mul(dig_t2 as i32) >> 11u32;
    let d2 = (adc_t >> 4u32).wrapping_sub(t1);
    let v2 = ((d2.wrapping_mul(d2) >> 12u32).wrapping_mul(dig_t3 as i32)) >> 14u32;
    v1.wrapping_add(v2)
}

proof fn lemma_product_fits(x: i32, y: i32)
    requires
        i32::MIN <= x * y <= i32::MAX,
    ensures
        x.wrapping_mul(y) as int == x * y,
{
    let p: int = x * y;
    if p >= 0 {
        assert(p % 4294967296 == p) by (nonlinear_arith)
            requires
                0 <= p < 4294967296,
        ;
    } else {
        assert(p % 4294967296 == p + 4294967296) by (nonlinear_arith)
            requires
                -4294967296 < p < 0,
        ;
    }
}

/// Where no product wraps, the vendor's fine temperature is the exact
/// integer formula with each shift read as a division rounded downwards.
pub proof fn lemma_fine_exact(adc_t: i32, dig_t1: u16, dig_t2: i16, dig_t3: i16)
    requires
        fine_fits(adc_t as int, dig_t1 as int, dig_t2 as int, dig_t3 as int),
    ensures
        fine_temperature(adc_t, dig_t1, dig_t2, dig_t3) as int == fine_exact(
            adc_t as int,
            dig_t1 as int,
            dig_t2 as int,
            dig_t3 as int,
        ),
{
    let t1 = dig_t1 as i32;
    assert((adc_t >> 3u32) as int == (adc_t as int) / 8) by (bit_vector);
    assert((adc_t >> 4u32) as int == (adc_t as int) / 16) by (bit_vector);
    let d1 = (adc_t >> 3u32).wrapping_sub((2 * t1) as i32);
    assert(d1 as int == adc_t / 8 - 2 * t1);
    lemma_product_fits(d1, dig_t2 as i32);
    let p1 = d1.wrapping_mul(dig_t2 as i32);
    assert((p1 >> 11u32) as int == (p1 as int) / 2048) by (bit_vector);
    let d2 = (adc_t >> 4u32).wrapping_sub(t1);
    assert(d2 as int == adc_t / 16 - t1);
    assert(d2 * d2 >= 0) by (nonlinear_arith);
    lemma_product_fits(d2, d2);
    let sq = d2.wrapping_mul(d2);
    assert((sq >> 12u32) as int == (sq as int) / 4096) by (bit_vector);
    let q = sq >> 12u32;
    lemma_product_fits(q, dig_t3 as i32);
    let p2 = q.wrapping_mul(dig_t3 as i32);
    assert((p2 >> 14u32) as int == (p2 as int) / 16384) by (bit_vector);
    let v1 = p1 >> 11u32;
    let v2 = p2 >> 14u32;
    assert(-1048576 <= v1 <= 1048576) by (bit_vector)
        requires
            v1 == p1 >> 11u32,
    ;
    assert(-131072 <= v2 <= 131072) by (bit_vector)
        requires
            v2 == p2 >> 14u32,
    ;
}

/// Smallest fine temperature whose scaled and biased value fits in 32 bits.
pub const FINE_MIN: i32 = -429_496_729;

/// Largest fine temperature whose scaled and biased value fits in 32 bits.
pub const FINE_MAX: i32 = 429_496_703;

/// Rounding: where nothing wraps, the reading is `5 * fine / 256` rounded to
/// the nearest integer, halves upwards, rather than truncated.
pub proof fn lemma_hundredths_rounds(fine: i32)
    requires
        FINE_MIN <= fine <= FINE_MAX,
    ensures
        hundredths(fine) as int == (5 * fine + 128) / 256,
{
    let p: int = 5 * fine;
    if p >= 0 {
        assert(p % 4294967296 == p) by (nonlinear_arith)
            requires
                0 <= p < 4294967296,
        ;
    } else {
        assert(p % 4294967296 == p + 4294967296) by (nonlinear_arith)
            requires
                -4294967296 < p < 0,
        ;
    }
    let biased = fine.wrapping_mul(5).wrapping_add(128);
    assert(biased as int == p + 128);
    assert((biased >> 8u32) as int == (biased as int) / 256) by (bit_vector);
}

/// Temperature in hundredths of a degree Celsius for a fine temperature.
pub fn temperature_hundredths(fine: i32) -> (r: i32)
    ensures
        r == hundredths(fine),
        FINE_MIN <= fine <= FINE_MAX ==> r as int == (5 * fine + 128) / 256,
{
    proof {
        if FINE_MIN <= fine <= FINE_MAX {
            lemma_hundredths_rounds(fine);
        }
    }
    fine.wrapping_mul(5).wrapping_add(128) >> 8u32
}

} // verus!
