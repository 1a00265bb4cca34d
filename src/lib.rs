//! Driver core for the BMP280 barometric pressure and temperature sensor:
//! register map, calibration model, fixed-point temperature compensation and
//! the register protocol spoken over an abstract bus transport.
use vstd::prelude::*;

pub mod calibration;
pub mod compensation;
pub mod driver;
pub mod reg;
pub mod transport;

pub use calibration::CalibrationData;
pub use driver::{Bmp280, Error};
pub use reg::Register;
pub use transport::{BusFault, LinuxBus, MockBus, Transport};

verus! {

/// Identity byte reported by a BMP280 in its chip-id register.
pub const CHIP_ID: u8 = 0x58;

/// Control byte written at initialisation: normal mode with maximal
/// oversampling for both temperature and pressure.
pub const CONTROL_CONFIG: u8 = 0x3f;

} // verus!
