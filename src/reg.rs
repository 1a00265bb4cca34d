//! Definitions for BMP280 registers.
use vstd::prelude::*;

verus! {

/// Registers present in a BMP280, listed in address order.
#[derive(Clone, Copy, Debug, PartialEq, Eq, Structural, PartialOrd, Ord)]
pub enum Register {
    /// Digital temperature coefficient 1.
    DigT1,
    /// Digital temperature coefficient 2.
    DigT2,
    /// Digital temperature coefficient 3.
    DigT3,
    /// Digital pressure coefficient 1.
    DigP1,
    /// Digital pressure coefficient 2.
    DigP2,
    /// Digital pressure coefficient 3.
    DigP3,
    /// Digital pressure coefficient 4.
    DigP4,
    /// Digital pressure coefficient 5.
    DigP5,
    /// Digital pressure coefficient 6.
    DigP6,
    /// Digital pressure coefficient 7.
    DigP7,
    /// Digital pressure coefficient 8.
    DigP8,
    /// Digital pressure coefficient 9.
    DigP9,
    /// Contains the chip identifier.
    ChipId,
    /// Contains the chip version.
    Version,
    /// Write to reset the chip.
    SoftReset,
    /// Vendor-reserved calibration block.
    Cal26,
    /// Control register.
    Control,
    /// Configuration register.
    Config,
    /// 20-bit register containing pressure data.
    PressureData,
    /// 20-bit register containing temperature data.
    TempData,
}

/// Number of calibration coefficient registers.
pub const COEFFICIENT_COUNT: usize = 12;

impl Register {
    /// The bus address of a register.
    pub open spec fn spec_addr(self) -> u8 {
        match self {
            Register::DigT1 => 0x88,
            Register::DigT2 => 0x8a,
            Register::DigT3 => 0x8c,
            Register::DigP1 => 0x8e,
            Register::DigP2 => 0x90,
            Register::DigP3 => 0x92,
            Register::DigP4 => 0x94,
            Register::DigP5 => 0x96,
            Register::DigP6 => 0x98,
            Register::DigP7 => 0x9a,
            Register::DigP8 => 0x9c,
            Register::DigP9 => 0x9e,
            Register::ChipId => 0xd0,
            Register::Version => 0xd1,
            Register::SoftReset => 0xe0,
            Register::Cal26 => 0xe1,
            Register::Control => 0xf4,
            Register::Config => 0xf5,
            Register::PressureData => 0xf7,
            Register::TempData => 0xfa,
        }
    }

    /// The bus address of this register.
    #[verifier::when_used_as_spec(spec_addr)]
    pub fn addr(self) -> (r: u8)
        ensures
            r == self.spec_addr(),
    {
        match self {
            Register::DigT1 => 0x88,
            Register::DigT2 => 0x8a,
            Register::DigT3 => 0x8c,
            Register::DigP1 => 0x8e,
            Register::DigP2 => 0x90,
            Register::DigP3 => 0x92,
            Register::DigP4 => 0x94,
            Register::DigP5 => 0x96,
            Register::DigP6 => 0x98,
            Register::DigP7 => 0x9a,
            Register::DigP8 => 0x9c,
            Register::DigP9 => 0x9e,
            Register::ChipId => 0xd0,
            Register::Version => 0xd1,
            Register::SoftReset => 0xe0,
            Register::Cal26 => 0xe1,
            Register::Control => 0xf4,
            Register::Config => 0xf5,
            Register::PressureData => 0xf7,
            Register::TempData => 0xfa,
        }
    }

    /// The register of the `i`-th calibration coefficient, in the order
    /// `dig_t1, dig_t2, dig_t3, dig_p1 .. dig_p9`.
    pub open spec fn spec_coefficient(i: int) -> Register {
        if i == 0 {
            Register::DigT1
        } else if i == 1 {
            Register::DigT2
        } else if i == 2 {
            Register::DigT3
        } else if i == 3 {
            Register::DigP1
        } else if i == 4 {
            Register::DigP2
        } else if i == 5 {
            Register::DigP3
        } else if i == 6 {
            Register::DigP4
        } else if i == 7 {
            Register::DigP5
        } else if i == 8 {
            Register::DigP6
        } else if i == 9 {
            Register::DigP7
        } else if i == 10 {
            Register::DigP8
        } else {
            Register::DigP9
        }
    }

    /// The register of the `i`-th calibration coefficient.
    pub fn coefficient(i: usize) -> (r: Register)
        requires
            i < COEFFICIENT_COUNT,
        ensures
            r == Register::spec_coefficient(i as int),
            r.spec_addr() == 0x88 + 2 * i,
    {
        if i == 0 {
            Register::DigT1
        } else if i == 1 {
            Register::DigT2
        } else if i == 2 {
            Register::DigT3
        } else if i == 3 {
            Register::DigP1
        } else if i == 4 {
            Register::DigP2
        } else if i == 5 {
            Register::DigP3
        } else if i == 6 {
            Register::DigP4
        } else if i == 7 {
            Register::DigP5
        } else if i == 8 {
            Register::DigP6
        } else if i == 9 {
            Register::DigP7
        } else if i == 10 {
            Register::DigP8
        } else {
            Register::DigP9
        }
    }
}

} // verus!
