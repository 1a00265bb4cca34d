//! The BMP280 driver: identity check, calibration load, configuration and
//! temperature reads over any `Transport`.
use vstd::prelude::*;

use crate::calibration::{calibration_of, CalibrationData, CALIBRATION_BYTES};
use crate::compensation::{
    adc_code, adc_from_burst, compensate_fine, fine_temperature, hundredths,
    temperature_hundredths,
};
use crate::reg::{Register, COEFFICIENT_COUNT};
use crate::transport::{Exchange, Transport};
use crate::CONTROL_CONFIG;

verus! {

/// Why a driver operation failed.
#[derive(Clone, Copy, Debug, PartialEq, Eq)]
pub enum Error<E> {
    /// The bus reported a failure; it is handed on as it came.
    Transport(E),
    /// The chip reported this identity instead of the expected one.
    UnexpectedChipId(u8),
    /// The operation has no compensation formula yet.
    NotImplemented,
}

/// The exchanges that read the first `n` calibration coefficients, where
/// `raw` holds the bytes they returned: for each, the coefficient's register
/// is selected and two bytes are read.
pub open spec fn coefficient_reads<E>(raw: Seq<u8>, n: nat) -> Seq<Exchange<E>>
    decreases n,
{
    if n == 0 {
        Seq::empty()
    } else {
        let k: int = n - 1;
        coefficient_reads(raw, k as nat) + seq![
            Exchange::Select(Register::spec_coefficient(k).spec_addr(), None),
            Exchange::Read(2, Ok(raw.subrange(2 * k, 2 * k + 2))),
        ]
    }
}

/// `h` extends `h0` by reading all twelve coefficients, which decode to `cal`.
pub open spec fn coefficients_read<E>(
    h0: Seq<Exchange<E>>,
    h: Seq<Exchange<E>>,
    cal: CalibrationData,
) -> bool {
    exists|raw: Seq<u8>|
        raw.len() == CALIBRATION_BYTES && h == h0 + #[trigger] coefficient_reads::<E>(raw, COEFFICIENT_COUNT as nat)
            && cal == calibration_of(raw)
}

/// `h` extends `h0` by reading the coefficients until one exchange, the
/// last, failed with `e`.
pub open spec fn coefficients_failed<E>(h0: Seq<Exchange<E>>, h: Seq<Exchange<E>>, e: E) -> bool {
    exists|raw: Seq<u8>, k: nat|
        k < COEFFICIENT_COUNT && raw.len() == 2 * k && {
            let done = h0 + #[trigger] coefficient_reads::<E>(raw, k);
            let reg = Register::spec_coefficient(k as int).spec_addr();
            h == done.push(Exchange::Select(reg, Some(e))) || h == done.push(
                Exchange::Select(reg, None),
            ).push(Exchange::Read(2, Err(e)))
        }
}

/// The identity read that opens the set-up, with its outcome.
pub open spec fn identity_read<E>(outcome: Result<u8, E>) -> Exchange<E> {
    Exchange::ReadRegister(Register::ChipId.spec_addr(), outcome)
}

/// The control write that closes the set-up, with its error if it failed.
pub open spec fn control_write<E>(outcome: Option<E>) -> Exchange<E> {
    Exchange::WriteRegister(Register::Control.spec_addr(), CONTROL_CONFIG, outcome)
}

/// A successful set-up took `h0` to `h` and loaded `cal`: the identity read
/// returned `chip_id`, all coefficients were read, and the control register
/// was configured.
pub open spec fn setup_done<E>(
    h0: Seq<Exchange<E>>,
    h: Seq<Exchange<E>>,
    chip_id: u8,
    cal: CalibrationData,
) -> bool {
    exists|mid: Seq<Exchange<E>>|
        coefficients_read(h0.push(identity_read(Ok(chip_id))), mid, cal) && h == mid.push(
            #[trigger] control_write(None),
        )
}

/// A set-up that failed with `err` took `h0` to `h`: an identity mismatch
/// ends it after the identity read, and a bus failure ends it at the
/// exchange that failed.
pub open spec fn setup_failed<E>(
    h0: Seq<Exchange<E>>,
    h: Seq<Exchange<E>>,
    chip_id: u8,
    err: Error<E>,
) -> bool {
    match err {
        Error::UnexpectedChipId(id) => id != chip_id && h == h0.push(identity_read(Ok(id))),
        Error::Transport(e) => {
            let identified = h0.push(identity_read(Ok(chip_id)));
            ||| h == h0.push(identity_read(Err(e)))
            ||| coefficients_failed(identified, h, e)
            ||| exists|mid: Seq<Exchange<E>>, cal: CalibrationData|
                coefficients_read(identified, mid, cal) && h == mid.push(
                    #[trigger] control_write(Some(e)),
                )
        },
        Error::NotImplemented => false,
    }
}

/// The fine temperature for the calibration `cal` and a three-byte burst.
pub open spec fn fine_of(cal: CalibrationData, data: Seq<u8>) -> i32 {
    fine_temperature(
        adc_code(data[0], data[1], data[2]) as i32,
        cal.dig_t1,
        cal.dig_t2,
        cal.dig_t3,
    )
}

/// The exchanges of a temperature burst read that returned `data`.
pub open spec fn burst_read<E>(data: Seq<u8>) -> Seq<Exchange<E>> {
    seq![
        Exchange::Select(Register::TempData.spec_addr(), None),
        Exchange::Read(3, Ok(data)),
    ]
}

/// A temperature burst read took `h0` to `h` and failed with `e` at its
/// last exchange.
pub open spec fn burst_failed<E>(h0: Seq<Exchange<E>>, h: Seq<Exchange<E>>, e: E) -> bool {
    let reg = Register::TempData.spec_addr();
    ||| h == h0.push(Exchange::Select(reg, Some(e)))
    ||| h == h0.push(Exchange::Select(reg, None)).push(Exchange::Read(3, Err(e)))
}

proof fn lemma_coefficient_reads_prefix<E>(a: Seq<u8>, b: Seq<u8>, n: nat)
    requires
        2 * n <= a.len(),
        2 * n <= b.len(),
        a.subrange(0, 2 * n as int) == b.subrange(0, 2 * n as int),
    ensures
        coefficient_reads::<E>(a, n) == coefficient_reads::<E>(b, n),
    decreases n,
{
    if n > 0 {
        let k: int = n - 1;
        let m: int = 2 * n as int;
        assert(a.subrange(0, 2 * k) =~= a.subrange(0, m).subrange(0, 2 * k));
        assert(b.subrange(0, 2 * k) =~= b.subrange(0, m).subrange(0, 2 * k));
        lemma_coefficient_reads_prefix::<E>(a, b, k as nat);
        assert(a.subrange(2 * k, 2 * k + 2) =~= a.subrange(0, m).subrange(2 * k, 2 * k + 2));
        assert(b.subrange(2 * k, 2 * k + 2) =~= b.subrange(0, m).subrange(2 * k, 2 * k + 2));
    }
}

/// The error of an exchange, if it failed.
pub open spec fn exchange_error<E>(x: Exchange<E>) -> Option<E> {
    match x {
        Exchange::Select(_, f) => f,
        Exchange::Read(_, Err(e)) => Some(e),
        Exchange::ReadRegister(_, Err(e)) => Some(e),
        Exchange::WriteRegister(_, _, f) => f,
        _ => None,
    }
}

/// Every exchange of `h` from index `from` on succeeded.
pub open spec fn all_succeeded<E>(h: Seq<Exchange<E>>, from: int) -> bool {
    forall|i: int| from <= i < h.len() ==> (#[trigger] exchange_error(h[i])) is None
}

proof fn lemma_coefficient_reads_succeed<E>(raw: Seq<u8>, n: nat)
    ensures
        all_succeeded(coefficient_reads::<E>(raw, n), 0),
        coefficient_reads::<E>(raw, n).len() == 2 * n,
    decreases n,
{
    if n > 0 {
        lemma_coefficient_reads_succeed::<E>(raw, (n - 1) as nat);
    }
}

proof fn lemma_coefficients_read_succeed<E>(
    h0: Seq<Exchange<E>>,
    h: Seq<Exchange<E>>,
    cal: CalibrationData,
)
    requires
        coefficients_read(h0, h, cal),
    ensures
        h.len() == h0.len() + 2 * COEFFICIENT_COUNT,
        h.subrange(0, h0.len() as int) == h0,
        all_succeeded(h, h0.len() as int),
{
    let raw = choose|raw: Seq<u8>|
        raw.len() == CALIBRATION_BYTES && h == h0 + #[trigger] coefficient_reads::<E>(raw, COEFFICIENT_COUNT as nat)
            && cal == calibration_of(raw);
    lemma_coefficient_reads_succeed::<E>(raw, COEFFICIENT_COUNT as nat);
    assert(h.subrange(0, h0.len() as int) =~= h0);
    assert forall|i: int| h0.len() <= i < h.len() implies (#[trigger] exchange_error(h[i])) is None by {
        assert(h[i] == coefficient_reads::<E>(raw, COEFFICIENT_COUNT as nat)[i - h0.len()]);
    }
}

/// A failed set-up stops at the first exchange that fails, and reports the
/// error of that exchange: every exchange before it succeeded.
pub proof fn lemma_setup_failure_is_first<E>(
    h0: Seq<Exchange<E>>,
    h: Seq<Exchange<E>>,
    chip_id: u8,
    e: E,
)
    requires
        setup_failed(h0, h, chip_id, Error::Transport(e)),
    ensures
        h.len() > h0.len(),
        h.subrange(0, h0.len() as int) == h0,
        exchange_error(h.last()) == Some(e),
        all_succeeded(h.drop_last(), h0.len() as int),
{
    let identified = h0.push(identity_read::<E>(Ok(chip_id)));
    if h == h0.push(identity_read::<E>(Err(e))) {
        assert(h.subrange(0, h0.len() as int) =~= h0);
        assert(h.drop_last() =~= h0);
    } else if coefficients_failed(identified, h, e) {
        let (raw, k) = choose|raw: Seq<u8>, k: nat|
            k < COEFFICIENT_COUNT && raw.len() == 2 * k && {
                let done = identified + #[trigger] coefficient_reads::<E>(raw, k);
                let reg = Register::spec_coefficient(k as int).spec_addr();
                h == done.push(Exchange::Select(reg, Some(e))) || h == done.push(
                    Exchange::Select(reg, None),
                ).push(Exchange::Read(2, Err(e)))
            };
        lemma_coefficient_reads_succeed::<E>(raw, k);
        let done = identified + coefficient_reads::<E>(raw, k);
        assert(h.subrange(0, h0.len() as int) =~= h0);
        assert forall|i: int| h0.len() <= i < h.drop_last().len() implies (#[trigger] exchange_error(
            h.drop_last()[i],
        )) is None by {
            if i > h0.len() && i < done.len() {
                assert(h.drop_last()[i] == coefficient_reads::<E>(raw, k)[i - h0.len() - 1]);
            }
        }
    } else {
        let (mid, cal) = choose|mid: Seq<Exchange<E>>, cal: CalibrationData|
            coefficients_read(identified, mid, cal) && h == mid.push(
                #[trigger] control_write(Some(e)),
            );
        lemma_coefficients_read_succeed::<E>(identified, mid, cal);
        assert(h.drop_last() =~= mid);
        assert(h.subrange(0, h0.len() as int) =~= mid.subrange(0, identified.len() as int).subrange(
            0,
            h0.len() as int,
        ));
        assert forall|i: int| h0.len() <= i < h.drop_last().len() implies (#[trigger] exchange_error(
            h.drop_last()[i],
        )) is None by {
            if i == h0.len() {
                assert(mid[i] == mid.subrange(0, identified.len() as int)[i]);
            }
        }
    }
}

/// The identity gate: once the identity read of a set-up has returned a
/// byte other than the expected one, the set-up fails with that byte and
/// carries out no other exchange.
pub proof fn lemma_identity_gate<E>(
    h0: Seq<Exchange<E>>,
    h: Seq<Exchange<E>>,
    chip_id: u8,
    id: u8,
    r: Result<CalibrationData, Error<E>>,
)
    requires
        id != chip_id,
        h.len() > h0.len(),
        h[h0.len() as int] == identity_read::<E>(Ok(id)),
        match r {
            Ok(cal) => setup_done(h0, h, chip_id, cal),
            Err(err) => setup_failed(h0, h, chip_id, err),
        },
    ensures
        r == Err::<CalibrationData, Error<E>>(Error::UnexpectedChipId(id)),
        h == h0.push(identity_read::<E>(Ok(id))),
{
    let identified = h0.push(identity_read::<E>(Ok(chip_id)));
    match r {
        Ok(cal) => {
            let mid = choose|mid: Seq<Exchange<E>>|
                coefficients_read(identified, mid, cal) && h == mid.push(
                    #[trigger] control_write(None),
                );
            lemma_coefficients_read_succeed::<E>(identified, mid, cal);
            assert(mid[h0.len() as int] == mid.subrange(0, identified.len() as int)[h0.len() as int]);
            assert(h[h0.len() as int] == mid[h0.len() as int]);
        },
        Err(err) => {
            match err {
                Error::Transport(e) => {
                    if h == h0.push(identity_read::<E>(Err(e))) {
                        assert(h[h0.len() as int] == identity_read::<E>(Err(e)));
                    } else if coefficients_failed(identified, h, e) {
                        let (raw, k) = choose|raw: Seq<u8>, k: nat|
                            k < COEFFICIENT_COUNT && raw.len() == 2 * k && {
                                let done = identified + #[trigger] coefficient_reads::<E>(raw, k);
                                let reg = Register::spec_coefficient(k as int).spec_addr();
                                h == done.push(Exchange::Select(reg, Some(e))) || h == done.push(
                                    Exchange::Select(reg, None),
                                ).push(Exchange::Read(2, Err(e)))
                            };
                        let done = identified + coefficient_reads::<E>(raw, k);
                        assert(h[h0.len() as int] == done[h0.len() as int]);
                    } else {
                        let (mid, cal) = choose|mid: Seq<Exchange<E>>, cal: CalibrationData|
                            coefficients_read(identified, mid, cal) && h == mid.push(
                                #[trigger] control_write(Some(e)),
                            );
                        lemma_coefficients_read_succeed::<E>(identified, mid, cal);
                        assert(mid[h0.len() as int] == mid.subrange(
                            0,
                            identified.len() as int,
                        )[h0.len() as int]);
                        assert(h[h0.len() as int] == mid[h0.len() as int]);
                    }
                },
                Error::UnexpectedChipId(other) => {
                    assert(h[h0.len() as int] == identity_read::<E>(Ok(other)));
                },
                Error::NotImplemented => {},
            }
        },
    }
}

/// A temperature reading depends only on the coefficients and on the ADC
/// code of the burst: two bursts with the same code give the same fine
/// temperature and the same reading under the same coefficients.
pub proof fn lemma_temperature_deterministic(cal: CalibrationData, a: Seq<u8>, b: Seq<u8>)
    requires
        a.len() == 3,
        b.len() == 3,
        adc_code(a[0], a[1], a[2]) == adc_code(b[0], b[1], b[2]),
    ensures
        fine_of(cal, a) == fine_of(cal, b),
        hundredths(fine_of(cal, a)) == hundredths(fine_of(cal, b)),
{
}

/// An interface to a BMP280 that controls the device over a `Transport`.
#[derive(Debug)]
pub struct Bmp280<D> {
    device: D,
    t_fine: i32,
    calibration_data: CalibrationData,
}

impl<D> Bmp280<D> {
    /// The transport the driver owns.
    pub closed spec fn bus(&self) -> D {
        self.device
    }

    /// The fine temperature of the last successful temperature read, zero
    /// before the first.
    pub closed spec fn fine(&self) -> i32 {
        self.t_fine
    }

    /// The calibration coefficients loaded at construction.
    pub closed spec fn coefficients(&self) -> CalibrationData {
        self.calibration_data
    }
}

impl<D: Transport> Bmp280<D> {
    /// Creates a driver: checks the chip's identity against `chip_id`, loads
    /// the calibration coefficients and configures the control register.
    pub fn new(device: D, chip_id: u8) -> (r: Result<Bmp280<D>, Error<D::Error>>)
        ensures
            match r {
                Ok(b) => setup_done(device.history(), b.bus().history(), chip_id, b.coefficients())
                    && b.fine() == 0,
                Err(e) => exists|h: Seq<Exchange<D::Error>>| #[trigger]
                    setup_failed(device.history(), h, chip_id, e),
            },
    {
        let mut device = device;
        match Self::setup(&mut device, chip_id) {
            Ok(calibration_data) => Ok(Bmp280 { device, t_fine: 0, calibration_data }),
            Err(e) => Err(e),
        }
    }

    /// The set-up of a new driver on `device`: reads the identity register
    /// and stops with `UnexpectedChipId` unless it holds `chip_id`, then reads
    /// the coefficients and writes the control configuration. The first bus
    /// failure ends it.
    pub fn setup(device: &mut D, chip_id: u8) -> (r: Result<CalibrationData, Error<D::Error>>)
        ensures
            match r {
                Ok(cal) => setup_done(old(device).history(), final(device).history(), chip_id, cal),
                Err(e) => setup_failed(old(device).history(), final(device).history(), chip_id, e),
            },
    {
        let ghost h0 = device.history();
        let actual = match device.read_register_byte(Register::ChipId.addr()) {
            Ok(b) => b,
            Err(e) => return Err(Error::Transport(e)),
        };
        if actual != chip_id {
            return Err(Error::UnexpectedChipId(actual));
        }
        let ghost identified = device.history();
        assert(identified == h0.push(identity_read(Ok(chip_id))));
        let calibration_data = match Self::read_coefficients(device) {
            Ok(c) => c,
            Err(e) => return Err(e),
        };
        let ghost mid = device.history();
        let written = device.write_register_byte(Register::Control.addr(), CONTROL_CONFIG);
        match written {
            Ok(()) => {
                assert(device.history() == mid.push(control_write(None)));
                Ok(calibration_data)
            },
            Err(e) => {
                assert(device.history() == mid.push(control_write(Some(e))));
                Err(Error::Transport(e))
            },
        }
    }

    /// Reads the twelve calibration coefficients, each by selecting its
    /// register and reading two bytes, in register order.
    pub fn read_coefficients(device: &mut D) -> (r: Result<CalibrationData, Error<D::Error>>)
        ensures
            match r {
                Ok(cal) => coefficients_read(old(device).history(), final(device).history(), cal),
                Err(Error::Transport(e)) => coefficients_failed(
                    old(device).history(),
                    final(device).history(),
                    e,
                ),
                Err(_) => false,
            },
    {
        let ghost h0 = device.history();
        let mut raw: Vec<u8> = Vec::new();
        let mut i: usize = 0;
        while i < COEFFICIENT_COUNT
            invariant
                h0 == old(device).history(),
                i <= COEFFICIENT_COUNT,
                raw@.len() == 2 * i,
                device.history() == h0 + coefficient_reads::<D::Error>(raw@, i as nat),
            decreases COEFFICIENT_COUNT - i,
        {
            let reg = Register::coefficient(i);
            match device.write_address(reg.addr()) {
                Ok(()) => {},
                Err(e) => {
                    assert(coefficients_failed(h0, device.history(), e));
                    return Err(Error::Transport(e));
                },
            }
            let bytes = match device.read_bytes(2) {
                Ok(b) => b,
                Err(e) => {
                    assert(coefficients_failed(h0, device.history(), e));
                    return Err(Error::Transport(e));
                },
            };
            let ghost before = raw@;
            raw.push(bytes[0]);
            raw.push(bytes[1]);
            proof {
                assert(before.subrange(0, 2 * i as int) =~= raw@.subrange(0, 2 * i as int));
                lemma_coefficient_reads_prefix::<D::Error>(before, raw@, i as nat);
                assert(raw@.subrange(2 * i as int, 2 * i + 2) =~= bytes@);
                assert(device.history() =~= h0 + coefficient_reads::<D::Error>(
                    raw@,
                    (i + 1) as nat,
                ));
            }
            i += 1;
        }
        let cal = CalibrationData::from_le_bytes(raw.as_slice());
        assert(coefficients_read(h0, device.history(), cal));
        Ok(cal)
    }

    /// Reads the temperature burst and computes the fine temperature, which
    /// the driver keeps for pressure compensation.
    pub fn read_temperature_fine(&mut self) -> (r: Result<i32, Error<D::Error>>)
        ensures
            final(self).coefficients() == old(self).coefficients(),
            match r {
                Ok(fine) => exists|data: Seq<u8>|
                    data.len() == 3 && final(self).bus().history() == old(self).bus().history()
                        + #[trigger] burst_read::<D::Error>(data) && fine == fine_of(
                        old(self).coefficients(),
                        data,
                    ) && final(self).fine() == fine,
                Err(Error::Transport(e)) => burst_failed(
                    old(self).bus().history(),
                    final(self).bus().history(),
                    e,
                ) && final(self).fine() == old(self).fine(),
                Err(_) => false,
            },
    {
        let ghost h0 = self.device.history();
        match self.device.write_address(Register::TempData.addr()) {
            Ok(()) => {},
            Err(e) => return Err(Error::Transport(e)),
        }
        let data = match self.device.read_bytes(3) {
            Ok(b) => b,
            Err(e) => return Err(Error::Transport(e)),
        };
        let adc_t = adc_from_burst(data[0], data[1], data[2]);
        let cal = self.calibration_data;
        let fine = compensate_fine(adc_t, cal.dig_t1, cal.dig_t2, cal.dig_t3);
        self.t_fine = fine;
        assert(self.device.history() =~= h0 + burst_read::<D::Error>(data@));
        Ok(fine)
    }

    /// Reads the temperature, in hundredths of a degree Celsius.
    pub fn read_temperature_hundredths(&mut self) -> (r: Result<i32, Error<D::Error>>)
        ensures
            final(self).coefficients() == old(self).coefficients(),
            match r {
                Ok(t) => exists|data: Seq<u8>|
                    data.len() == 3 && final(self).bus().history() == old(self).bus().history()
                        + #[trigger] burst_read::<D::Error>(data) && t == hundredths(
                        fine_of(old(self).coefficients(), data),
                    ) && final(self).fine() == fine_of(old(self).coefficients(), data),
                Err(Error::Transport(e)) => burst_failed(
                    old(self).bus().history(),
                    final(self).bus().history(),
                    e,
                ) && final(self).fine() == old(self).fine(),
                Err(_) => false,
            },
    {
        match self.read_temperature_fine() {
            Ok(fine) => Ok(temperature_hundredths(fine)),
            Err(e) => Err(e),
        }
    }

    /// Pressure in pascals. No compensation formula is supplied yet, so this
    /// reports `NotImplemented` and leaves the driver as it was.
    pub fn read_pressure(&mut self) -> (r: Result<u32, Error<D::Error>>)
        ensures
            r is Err && r->Err_0 is NotImplemented,
            *final(self) == *old(self),
    {
        Err(Error::NotImplemented)
    }

    /// Altitude in centimetres above the level where the pressure is
    /// `sea_level_pa` pascals. It rests on the pressure reading, so it too
    /// reports `NotImplemented` and leaves the driver as it was.
    pub fn read_altitude(&mut self, sea_level_pa: u32) -> (r: Result<i32, Error<D::Error>>)
        ensures
            r is Err && r->Err_0 is NotImplemented,
            *final(self) == *old(self),
    {
        Err(Error::NotImplemented)
    }

    /// The calibration coefficients loaded at construction.
    pub fn calibration(&self) -> (r: CalibrationData)
        ensures
            r == self.coefficients(),
    {
        self.calibration_data
    }
}

} // verus!
