//! Factory calibration coefficients and their little-endian encoding.
use byteorder::ByteOrder;
use vstd::prelude::*;

verus! {

/// Number of bytes that hold the twelve calibration coefficients.
pub const CALIBRATION_BYTES: usize = 24;

/// The unsigned 16-bit value of two bytes, least significant first.
pub open spec fn le_unsigned(lo: u8, hi: u8) -> int {
    lo + 256 * hi
}

/// The two's complement 16-bit value of two bytes, least significant first.
pub open spec fn le_signed(lo: u8, hi: u8) -> int {
    if hi < 128 {
        le_unsigned(lo, hi)
    } else {
        le_unsigned(lo, hi) - 65536
    }
}

/// The twelve calibration coefficients of one chip.
#[derive(Clone, Copy, Debug, PartialEq, Eq, Structural)]
pub struct CalibrationData {
    pub dig_t1: u16,
    pub dig_t2: i16,
    pub dig_t3: i16,
    pub dig_p1: u16,
    pub dig_p2: i16,
    pub dig_p3: i16,
    pub dig_p4: i16,
    pub dig_p5: i16,
    pub dig_p6: i16,
    pub dig_p7: i16,
    pub dig_p8: i16,
    pub dig_p9: i16,
}

/// The unsigned coefficient held in the `k`-th byte pair of `b`.
pub open spec fn unsigned_at(b: Seq<u8>, k: int) -> u16 {
    le_unsigned(b[2 * k], b[2 * k + 1]) as u16
}

/// The signed coefficient held in the `k`-th byte pair of `b`.
pub open spec fn signed_at(b: Seq<u8>, k: int) -> i16 {
    le_signed(b[2 * k], b[2 * k + 1]) as i16
}

/// The coefficients encoded by 24 bytes: twelve little-endian words in the
/// order `dig_t1, dig_t2, dig_t3, dig_p1 .. dig_p9`, of which `dig_t1` and
/// `dig_p1` are unsigned and the others signed.
pub open spec fn calibration_of(b: Seq<u8>) -> CalibrationData {
    CalibrationData {
        dig_t1: unsigned_at(b, 0),
        dig_t2: signed_at(b, 1),
        dig_t3: signed_at(b, 2),
        dig_p1: unsigned_at(b, 3),
        dig_p2: signed_at(b, 4),
        dig_p3: signed_at(b, 5),
        dig_p4: signed_at(b, 6),
        dig_p5: signed_at(b, 7),
        dig_p6: signed_at(b, 8),
        dig_p7: signed_at(b, 9),
        dig_p8: signed_at(b, 10),
        dig_p9: signed_at(b, 11),
    }
}

/// Relies on byteorder's `LittleEndian::read_u16`: the two bytes at `at`,
/// least significant first. It panics on a buffer shorter than two bytes.
#[verifier::external_body]
fn read_u16_at(buf: &[u8], at: usize) -> (r: u16)
    requires
        at + 2 <= buf@.len(),
    ensures
        r as int == le_unsigned(buf@[at as int], buf@[at + 1]),
{
    byteorder::LittleEndian::read_u16(&buf[at..])
}

/// Relies on byteorder's `LittleEndian::read_i16`: the two bytes at `at`,
/// least significant first, as two's complement.
#[verifier::external_body]
fn read_i16_at(buf: &[u8], at: usize) -> (r: i16)
    requires
        at + 2 <= buf@.len(),
    ensures
        r as int == le_signed(buf@[at as int], buf@[at + 1]),
{
    byteorder::LittleEndian::read_i16(&buf[at..])
}

impl CalibrationData {
    /// Decodes the coefficients from the 24 bytes read from the calibration
    /// registers, two per coefficient, in register order.
    pub fn from_le_bytes(b: &[u8]) -> (r: CalibrationData)
        requires
            b@.len() == CALIBRATION_BYTES,
        ensures
            r == calibration_of(b@),
    {
        CalibrationData {
            dig_t1: read_u16_at(b, 0),
            dig_t2: read_i16_at(b, 2),
            dig_t3: read_i16_at(b, 4),
            dig_p1: read_u16_at(b, 6),
            dig_p2: read_i16_at(b, 8),
            dig_p3: read_i16_at(b, 10),
            dig_p4: read_i16_at(b, 12),
            dig_p5: read_i16_at(b, 14),
            dig_p6: read_i16_at(b, 16),
            dig_p7: read_i16_at(b, 18),
            dig_p8: read_i16_at(b, 20),
            dig_p9: read_i16_at(b, 22),
        }
    }
}

} // verus!
