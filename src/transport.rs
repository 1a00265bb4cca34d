//! The bus capability the driver is built against, with a record of every
//! exchange it carries out, and two buses that provide it.
use vstd::prelude::*;

verus! {

/// One exchange on the bus, with its outcome.
pub enum Exchange<E> {
    /// A register was selected for a following read; the error if it failed.
    Select(u8, Option<E>),
    /// A burst of the given length was read from the selected register.
    Read(usize, Result<Seq<u8>, E>),
    /// A single byte was read from a register.
    ReadRegister(u8, Result<u8, E>),
    /// A single byte was written to a register; the error if it failed.
    WriteRegister(u8, u8, Option<E>),
}

/// The error of an exchange that returns nothing on success.
pub open spec fn failure<E>(r: Result<(), E>) -> Option<E> {
    match r {
        Ok(_) => None,
        Err(e) => Some(e),
    }
}

/// The outcome of a burst read as a sequence of bytes.
pub open spec fn burst_outcome<E>(r: Result<Vec<u8>, E>) -> Result<Seq<u8>, E> {
    match r {
        Ok(v) => Ok(v@),
        Err(e) => Err(e),
    }
}

/// A register-addressed bus to one device. Every operation appends one
/// exchange, with its outcome, to `history`.
pub trait Transport {
    /// What a failed exchange reports.
    type Error;

    /// The exchanges carried out so far, oldest first.
    spec fn history(&self) -> Seq<Exchange<Self::Error>>;

    /// Selects `reg` for the next burst read, without reading.
    fn write_address(&mut self, reg: u8) -> (r: Result<(), Self::Error>)
        ensures
            final(self).history() == old(self).history().push(Exchange::Select(reg, failure(r))),
    ;

    /// Reads `count` bytes from the selected register onwards.
    fn read_bytes(&mut self, count: usize) -> (r: Result<Vec<u8>, Self::Error>)
        ensures
            r is Ok ==> r->Ok_0@.len() == count,
            final(self).history() == old(self).history().push(
                Exchange::Read(count, burst_outcome(r)),
            ),
    ;

    /// Reads the single byte held by `reg`.
    fn read_register_byte(&mut self, reg: u8) -> (r: Result<u8, Self::Error>)
        ensures
            final(self).history() == old(self).history().push(Exchange::ReadRegister(reg, r)),
    ;

    /// Writes `value` to `reg`.
    fn write_register_byte(&mut self, reg: u8, value: u8) -> (r: Result<(), Self::Error>)
        ensures
            final(self).history() == old(self).history().push(
                Exchange::WriteRegister(reg, value, failure(r)),
            ),
    ;
}

/// i2cdev's handle to a device on a Linux I2C bus, carried as an opaque value.
#[verifier::external_type_specification]
#[verifier::external_body]
pub struct ExLinuxI2CDevice(i2cdev::linux::LinuxI2CDevice);

/// i2cdev's error for a Linux device, handed on unopened.
#[verifier::external_type_specification]
#[verifier::external_body]
pub struct ExLinuxI2CError(i2cdev::linux::LinuxI2CError);

/// Relies on i2cdev's `I2CDevice::smbus_write_byte` for a Linux device:
/// sends one byte without a register, which selects that register.
#[verifier::external_body]
fn linux_write_byte(dev: &mut i2cdev::linux::LinuxI2CDevice, value: u8) -> Result<
    (),
    i2cdev::linux::LinuxI2CError,
> {
    i2cdev::core::I2CDevice::smbus_write_byte(dev, value)
}

/// Relies on i2cdev's `I2CDevice::read` for a Linux device: on success it
/// has filled the whole buffer, here one of `count` bytes.
#[verifier::external_body]
fn linux_read(dev: &mut i2cdev::linux::LinuxI2CDevice, count: usize) -> (r: Result<
    Vec<u8>,
    i2cdev::linux::LinuxI2CError,
>)
    ensures
        r is Ok ==> r->Ok_0@.len() == count,
{
    let mut data = vec![0u8; count];
    i2cdev::core::I2CDevice::read(dev, &mut data)?;
    Ok(data)
}

/// Relies on i2cdev's `I2CDevice::smbus_read_byte_data` for a Linux device.
#[verifier::external_body]
fn linux_read_byte_data(dev: &mut i2cdev::linux::LinuxI2CDevice, reg: u8) -> Result<
    u8,
    i2cdev::linux::LinuxI2CError,
> {
    i2cdev::core::I2CDevice::smbus_read_byte_data(dev, reg)
}

/// Relies on i2cdev's `I2CDevice::smbus_write_byte_data` for a Linux device.
#[verifier::external_body]
fn linux_write_byte_data(dev: &mut i2cdev::linux::LinuxI2CDevice, reg: u8, value: u8) -> Result<
    (),
    i2cdev::linux::LinuxI2CError,
> {
    i2cdev::core::I2CDevice::smbus_write_byte_data(dev, reg, value)
}

/// A device on a Linux I2C bus, reached through its character device.
pub struct LinuxBus {
    dev: i2cdev::linux::LinuxI2CDevice,
    log: Ghost<Seq<Exchange<i2cdev::linux::LinuxI2CError>>>,
}

impl LinuxBus {
    /// A bus over an opened device, with no exchange yet.
    pub fn new(dev: i2cdev::linux::LinuxI2CDevice) -> (r: LinuxBus)
        ensures
            r.history() == Seq::<Exchange<i2cdev::linux::LinuxI2CError>>::empty(),
    {
        LinuxBus { dev, log: Ghost(Seq::empty()) }
    }
}

impl Transport for LinuxBus {
    type Error = i2cdev::linux::LinuxI2CError;

    closed spec fn history(&self) -> Seq<Exchange<Self::Error>> {
        self.log@
    }

    fn write_address(&mut self, reg: u8) -> (r: Result<(), Self::Error>) {
        let r = linux_write_byte(&mut self.dev, reg);
        self.log = Ghost(self.log@.push(Exchange::Select(reg, failure(r))));
        r
    }

    fn read_bytes(&mut self, count: usize) -> (r: Result<Vec<u8>, Self::Error>) {
        let r = linux_read(&mut self.dev, count);
        self.log = Ghost(self.log@.push(Exchange::Read(count, burst_outcome(r))));
        r
    }

    fn read_register_byte(&mut self, reg: u8) -> (r: Result<u8, Self::Error>) {
        let r = linux_read_byte_data(&mut self.dev, reg);
        self.log = Ghost(self.log@.push(Exchange::ReadRegister(reg, r)));
        r
    }

    fn write_register_byte(&mut self, reg: u8, value: u8) -> (r: Result<(), Self::Error>) {
        let r = linux_write_byte_data(&mut self.dev, reg, value);
        self.log = Ghost(self.log@.push(Exchange::WriteRegister(reg, value, failure(r))));
        r
    }
}

/// Why an exchange on a `MockBus` failed: it was the exchange, counted from
/// zero, that the bus was told to fail.
#[derive(Clone, Copy, Debug, PartialEq, Eq, Structural)]
pub struct BusFault {
    pub exchange: usize,
}

/// Number of registers of a `MockBus`.
pub const MOCK_REGISTERS: usize = 256;

/// An in-memory device for driving the driver without hardware: 256 byte
/// registers, a selected address that burst reads advance, and optionally
/// one exchange, by its index, that fails and changes nothing.
pub struct MockBus {
    registers: Vec<u8>,
    selected: u8,
    exchanges: usize,
    fail_at: Option<usize>,
    log: Ghost<Seq<Exchange<BusFault>>>,
}

impl MockBus {
    /// The register contents.
    pub closed spec fn contents(&self) -> Seq<u8> {
        self.registers@
    }

    /// The index of the exchange that will fail, if any.
    pub closed spec fn doomed(&self) -> Option<usize> {
        self.fail_at
    }

    /// A bus whose registers all hold zero and on which nothing fails.
    pub fn new() -> (r: MockBus)
        ensures
            r.contents() == Seq::new(MOCK_REGISTERS as nat, |i: int| 0u8),
            r.doomed() is None,
            r.history() == Seq::<Exchange<BusFault>>::empty(),
    {
        let mut registers: Vec<u8> = Vec::new();
        while registers.len() < MOCK_REGISTERS
            invariant
                registers@.len() <= MOCK_REGISTERS,
                forall|i: int| 0 <= i < registers@.len() ==> registers@[i] == 0u8,
            decreases MOCK_REGISTERS - registers@.len(),
        {
            registers.push(0);
        }
        assert(registers@ =~= Seq::new(MOCK_REGISTERS as nat, |i: int| 0u8));
        MockBus { registers, selected: 0, exchanges: 0, fail_at: None, log: Ghost(Seq::empty()) }
    }

    /// Stores `data` in the registers from `start` on; bytes that would go
    /// past the last register are dropped.
    pub fn set_registers(&mut self, start: u8, data: &[u8])
        ensures
            final(self).contents().len() == old(self).contents().len(),
            forall|i: int|
                0 <= i < old(self).contents().len() ==> #[trigger] final(self).contents()[i] == if start
                    <= i < start + data@.len() {
                    data@[i - start]
                } else {
                    old(self).contents()[i]
                },
            final(self).doomed() == old(self).doomed(),
            final(self).history() == old(self).history(),
    {
        let mut j: usize = 0;
        while j < data.len()
            invariant
                j <= data@.len(),
                self.registers@.len() == old(self).registers@.len(),
                forall|i: int|
                    0 <= i < self.registers@.len() ==> #[trigger] self.registers@[i] == if start
                        <= i < start + j {
                        data@[i - start]
                    } else {
                        old(self).registers@[i]
                    },
                self.fail_at == old(self).fail_at,
                self.log == old(self).log,
            decreases data@.len() - j,
        {
            if (start as usize) < self.registers.len() && j < self.registers.len() - start as usize {
                self.registers.set(start as usize + j, data[j]);
            }
            j += 1;
        }
    }

    /// Makes the exchange with index `n`, counted from zero over the bus's
    /// whole life, fail.
    pub fn fail_exchange(&mut self, n: usize)
        ensures
            final(self).doomed() == Some(n),
            final(self).contents() == old(self).contents(),
            final(self).history() == old(self).history(),
    {
        self.fail_at = Some(n);
    }

    /// The byte held by register `reg`.
    pub fn register(&self, reg: u8) -> (r: u8)
        ensures
            reg < self.contents().len() ==> r == self.contents()[reg as int],
    {
        if (reg as usize) < self.registers.len() {
            self.registers[reg as usize]
        } else {
            0
        }
    }

    /// Counts one exchange and tells whether it is the one that fails.
    fn begin_exchange(&mut self) -> (r: Option<BusFault>)
        ensures
            final(self).registers == old(self).registers,
            final(self).selected == old(self).selected,
            final(self).fail_at == old(self).fail_at,
            final(self).log == old(self).log,
    {
        let index = self.exchanges;
        if self.exchanges < usize::MAX {
            self.exchanges = self.exchanges + 1;
        }
        if let Some(n) = self.fail_at {
            if n == index {
                return Some(BusFault { exchange: index });
            }
        }
        None
    }
}

impl Transport for MockBus {
    type Error = BusFault;

    closed spec fn history(&self) -> Seq<Exchange<Self::Error>> {
        self.log@
    }

    fn write_address(&mut self, reg: u8) -> (r: Result<(), Self::Error>) {
        let r = match self.begin_exchange() {
            Some(fault) => Err(fault),
            None => {
                self.selected = reg;
                Ok(())
            },
        };
        self.log = Ghost(self.log@.push(Exchange::Select(reg, failure(r))));
        r
    }

    fn read_bytes(&mut self, count: usize) -> (r: Result<Vec<u8>, Self::Error>) {
        let r = match self.begin_exchange() {
            Some(fault) => Err(fault),
            None => {
                let mut data: Vec<u8> = Vec::new();
                let mut at: u8 = self.selected;
                let mut k: usize = 0;
                while k < count
                    invariant
                        k <= count,
                        data@.len() == k,
                    decreases count - k,
                {
                    data.push(self.register(at));
                    at = at.wrapping_add(1);
                    k += 1;
                }
                self.selected = at;
                Ok(data)
            },
        };
        self.log = Ghost(self.log@.push(Exchange::Read(count, burst_outcome(r))));
        r
    }

    fn read_register_byte(&mut self, reg: u8) -> (r: Result<u8, Self::Error>) {
        let r = match self.begin_exchange() {
            Some(fault) => Err(fault),
            None => Ok(self.register(reg)),
        };
        self.log = Ghost(self.log@.push(Exchange::ReadRegister(reg, r)));
        r
    }

    fn write_register_byte(&mut self, reg: u8, value: u8) -> (r: Result<(), Self::Error>) {
        let r = match self.begin_exchange() {
            Some(fault) => Err(fault),
            None => {
                if (reg as usize) < self.registers.len() {
                    self.registers.set(reg as usize, value);
                }
                Ok(())
            },
        };
        self.log = Ghost(self.log@.push(Exchange::WriteRegister(reg, value, failure(r))));
        r
    }
}

} // verus!
