//! INA232 current/power monitor: the driver's state, the calibration it writes and the
//! decoding of its measurement registers (16-bit, big-endian).
use vstd::prelude::*;

verus! {

/// Calibration value for a 5 mΩ shunt with a current LSB of 1 mA.
pub const SHUNT_CAL_5M: u16 = 1024;

/// Register address of the bus voltage.
pub const BUS_VOLTAGE: u8 = 0x02;
/// Register address of the power.
pub const POWER: u8 = 0x03;
/// Register address of the current.
pub const CURRENT: u8 = 0x04;
/// Register address of the shunt calibration.
pub const CALIBRATION: u8 = 0x05;

/// A driver for the INA232 on a register interface.
pub struct Ina232<I> {
    interface: I,
}

impl<I> Ina232<I> {
    /// The register interface.
    pub closed spec fn interface_of(&self) -> I {
        self.interface
    }

    /// A driver on `interface`.
    pub fn new(interface: I) -> (r: Self)
        ensures
            r.interface_of() == interface,
    {
        Self { interface }
    }

    /// The register interface.
    pub fn inner(&self) -> (r: &I)
        ensures
            *r == self.interface_of(),
    {
        &self.interface
    }

    /// The register interface, for changes.
    pub fn inner_mut(&mut self) -> (r: &mut I)
        ensures
            *r == old(self).interface_of(),
            final(self).interface_of() == *final(r),
    {
        &mut self.interface
    }

    /// Gives the register interface back.
    pub fn destroy(self) -> (r: I)
        ensures
            r == self.interface_of(),
    {
        self.interface
    }
}

/// The unsigned big-endian word of two register bytes.
pub open spec fn be_u16(b0: u8, b1: u8) -> int {
    b0 * 256 + b1
}

/// The calibration register write that initialisation performs: the shunt calibration
/// (bits 0-14) set to `SHUNT_CAL_5M` on the register's reset value 0, big-endian.
pub fn calibration_write() -> (r: (u8, [u8; 2]))
    ensures
        r.0 == CALIBRATION,
        be_u16(r.1@[0], r.1@[1]) == SHUNT_CAL_5M,
{
    let hi: u8 = (SHUNT_CAL_5M / 256) as u8;
    let lo: u8 = (SHUNT_CAL_5M % 256) as u8;
    (CALIBRATION, [hi, lo])
}

/// The bus voltage count (bits 0-14 of the register; 1.6 mV each).
pub fn bus_voltage_raw(b0: u8, b1: u8) -> (r: u16)
    ensures
        r == be_u16(b0, b1) % 32768,
{
    (((b0 % 128) as u16) * 256) + (b1 as u16)
}

/// The current count (signed; 1 mA each).
pub fn current_raw(b0: u8, b1: u8) -> (r: i16)
    ensures
        r == (if b0 < 128 {
            be_u16(b0, b1)
        } else {
            be_u16(b0, b1) - 65536
        }),
{
    crate::lsm6dso32::i16_from_le(b1, b0)
}

/// The power count (unsigned; 32 mW each).
pub fn power_raw(b0: u8, b1: u8) -> (r: u16)
    ensures
        r == be_u16(b0, b1),
{
    (b0 as u16) * 256 + (b1 as u16)
}

} // verus!
