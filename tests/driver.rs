use bmp280::calibration::CalibrationData;
use bmp280::compensation::{adc_from_burst, compensate_fine, temperature_hundredths};
use bmp280::{Bmp280, BusFault, Error, MockBus, Register, CHIP_ID, CONTROL_CONFIG};

/// Calibration bytes of the vendor's worked example for the temperature
/// coefficients (27504, 26435, -1000), followed by nine pressure words.
const CAL: [u8; 24] = [
    0x70, 0x6b, 0x43, 0x67, 0x18, 0xfc, 0x7d, 0x8e, 0x43, 0xd6, 0xd0, 0x0b, 0x27, 0x0b, 0x8c,
    0x00, 0xf9, 0xff, 0x8c, 0x3c, 0xf8, 0xc6, 0x70, 0x17,
];

/// A burst holding the ADC code 519888 of the same example.
const BURST: [u8; 3] = [0x7e, 0xed, 0x00];

fn device(id: u8, cal: &[u8], burst: &[u8]) -> MockBus {
    let mut bus = MockBus::new();
    bus.set_registers(0xd0, &[id]);
    bus.set_registers(0x88, cal);
    bus.set_registers(0xfa, burst);
    bus
}

#[test]
fn register_addresses() {
    assert_eq!(Register::DigT1.addr(), 0x88);
    assert_eq!(Register::DigP9.addr(), 0x9e);
    assert_eq!(Register::ChipId.addr(), 0xd0);
    assert_eq!(Register::Control.addr(), 0xf4);
    assert_eq!(Register::TempData.addr(), 0xfa);
    assert_eq!(Register::PressureData.addr(), 0xf7);
    assert_eq!(Register::coefficient(3), Register::DigP1);
}

#[test]
fn identity_mismatch_fails_with_observed_byte() {
    let r = Bmp280::new(device(0x60, &CAL, &BURST), CHIP_ID);
    assert!(matches!(r, Err(Error::UnexpectedChipId(0x60))));
}

#[test]
fn identity_mismatch_stops_after_identity_read() {
    let mut bus = device(0x60, &CAL, &BURST);
    // any exchange after the identity read would fail
    bus.fail_exchange(1);
    let r = Bmp280::<MockBus>::setup(&mut bus, CHIP_ID);
    assert_eq!(r, Err(Error::UnexpectedChipId(0x60)));
    assert_eq!(bus.register(0xf4), 0);
}

#[test]
fn setup_writes_control_configuration() {
    let mut bus = device(CHIP_ID, &CAL, &BURST);
    let r = Bmp280::<MockBus>::setup(&mut bus, CHIP_ID);
    assert!(r.is_ok());
    assert_eq!(bus.register(0xf4), CONTROL_CONFIG);
    assert_eq!(CONTROL_CONFIG, 0x3f);
}

#[test]
fn calibration_decodes_signed_and_unsigned() {
    let mut cal = CAL;
    cal[0] = 0x00;
    cal[1] = 0x80;
    cal[2] = 0x00;
    cal[3] = 0x80;
    let bmp = Bmp280::new(device(CHIP_ID, &cal, &BURST), CHIP_ID).unwrap();
    let c = bmp.calibration();
    assert_eq!(c.dig_t1, 32768);
    assert_eq!(c.dig_t2, -32768);
    assert_eq!(c.dig_t3, -1000);
}

#[test]
fn calibration_decodes_all_twelve() {
    let bmp = Bmp280::new(device(CHIP_ID, &CAL, &BURST), CHIP_ID).unwrap();
    let expected = CalibrationData {
        dig_t1: 27504,
        dig_t2: 26435,
        dig_t3: -1000,
        dig_p1: 36477,
        dig_p2: -10685,
        dig_p3: 3024,
        dig_p4: 2855,
        dig_p5: 140,
        dig_p6: -7,
        dig_p7: 15500,
        dig_p8: -14600,
        dig_p9: 6000,
    };
    assert_eq!(bmp.calibration(), expected);
    assert_eq!(CalibrationData::from_le_bytes(&CAL), expected);
}

#[test]
fn burst_assembles_twenty_bits() {
    // 0x12345f shifted right by four
    assert_eq!(adc_from_burst(0x12, 0x34, 0x5f), 0x12345);
    assert_eq!(adc_from_burst(0xff, 0xff, 0xff), 0xfffff);
    assert_eq!(adc_from_burst(0, 0, 0x0f), 0);
}

#[test]
fn rounding_adds_half_before_shift() {
    // (2560 * 5 + 128) >> 8
    assert_eq!(temperature_hundredths(2560), 50);
    // 26 * 5 = 130 truncates to 0 but rounds to 1
    assert_eq!(temperature_hundredths(26), 1);
    assert_eq!((26 * 5) >> 8, 0);
    assert_eq!(temperature_hundredths(0), 0);
    assert_eq!(temperature_hundredths(-2560), -50);
}

#[test]
fn fine_temperature_of_worked_example() {
    assert_eq!(compensate_fine(519888, 27504, 26435, -1000), 128422);
    assert_eq!(temperature_hundredths(128422), 2508);
}

#[test]
fn fine_temperature_wraps_in_32_bits() {
    // 131071 * 32767 and 65535 * 65535 both overflow 32 bits and wrap
    assert_eq!(compensate_fine(1048575, 0, 32767, 32767), -144);
}

#[test]
fn temperature_read_from_device() {
    let mut bmp = Bmp280::new(device(CHIP_ID, &CAL, &BURST), CHIP_ID).unwrap();
    assert_eq!(bmp.read_temperature_fine(), Ok(128422));
    assert_eq!(bmp.read_temperature_hundredths(), Ok(2508));
}

#[test]
fn temperature_is_deterministic() {
    let mut bmp = Bmp280::new(device(CHIP_ID, &CAL, &BURST), CHIP_ID).unwrap();
    let first = bmp.read_temperature_hundredths();
    let second = bmp.read_temperature_hundredths();
    assert_eq!(first, second);
    // the low nibble of the burst is padding
    let mut other = Bmp280::new(device(CHIP_ID, &CAL, &[0x7e, 0xed, 0x0f]), CHIP_ID).unwrap();
    assert_eq!(other.read_temperature_hundredths(), first);
}

#[test]
fn construction_reports_failing_exchange() {
    // exchange 0 is the identity read, then two per coefficient, then control
    for n in [0usize, 1, 2, 7, 24, 25] {
        let mut bus = device(CHIP_ID, &CAL, &BURST);
        bus.fail_exchange(n);
        let r = Bmp280::new(bus, CHIP_ID);
        assert!(matches!(r, Err(Error::Transport(BusFault { exchange }) ) if exchange == n));
    }
}

#[test]
fn failed_control_write_is_reported() {
    let mut bus = device(CHIP_ID, &CAL, &BURST);
    bus.fail_exchange(25);
    let r = Bmp280::<MockBus>::setup(&mut bus, CHIP_ID);
    assert_eq!(r, Err(Error::Transport(BusFault { exchange: 25 })));
    assert_eq!(bus.register(0xf4), 0);
}

#[test]
fn failed_temperature_read_keeps_state() {
    let mut bus = device(CHIP_ID, &CAL, &BURST);
    // 26 exchanges set up the driver; the first read takes 26 and 27
    bus.fail_exchange(29);
    let mut bmp = Bmp280::new(bus, CHIP_ID).unwrap();
    let cal = bmp.calibration();
    assert_eq!(bmp.read_temperature_hundredths(), Ok(2508));
    assert_eq!(
        bmp.read_temperature_fine(),
        Err(Error::Transport(BusFault { exchange: 29 }))
    );
    assert_eq!(bmp.calibration(), cal);
    assert_eq!(bmp.read_temperature_fine(), Ok(128422));
}

#[test]
fn pressure_and_altitude_are_not_implemented() {
    let mut bmp = Bmp280::new(device(CHIP_ID, &CAL, &BURST), CHIP_ID).unwrap();
    assert_eq!(bmp.read_pressure(), Err(Error::NotImplemented));
    assert_eq!(bmp.read_altitude(101325), Err(Error::NotImplemented));
    assert_eq!(bmp.read_temperature_hundredths(), Ok(2508));
}

#[test]
fn mock_bus_drops_bytes_past_last_register() {
    let mut bus = MockBus::new();
    bus.set_registers(0xfe, &[1, 2, 3]);
    assert_eq!(bus.register(0xfe), 1);
    assert_eq!(bus.register(0xff), 2);
    assert_eq!(bus.register(0x00), 0);
}
