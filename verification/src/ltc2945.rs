//! LTC2945 power monitor: the driver's state and the decoding of its measurement
//! registers (big-endian).
use vstd::prelude::*;

verus! {

/// Register address of the power (24 bits).
pub const POWER: u8 = 0x05;
/// Register address of the sense voltage (16 bits, upper 12 significant).
pub const DELTA_SENSE: u8 = 0x14;
/// Register address of the input voltage (16 bits, upper 12 significant).
pub const VIN: u8 = 0x1E;

/// A driver for the LTC2945 on a register interface.
pub struct Ltc2945<I> {
    interface: I,
}

impl<I> Ltc2945<I> {
    /// The register interface.
    pub closed spec fn interface_of(&self) -> I {
        self.interface
    }

    /// A driver on `interface`.
    pub fn new(interface: I) -> (r: Self)
        ensures
            r.interface_of() == interface,
    {
        Self { interface }
    }

    /// The register interface.
    pub fn inner(&self) -> (r: &I)
        ensures
            *r == self.interface_of(),
    {
        &self.interface
    }

    /// The register interface, for changes.
    pub fn inner_mut(&mut self) -> (r: &mut I)
        ensures
            *r == old(self).interface_of(),
            final(self).interface_of() == *final(r),
    {
        &mut self.interface
    }

    /// Gives the register interface back.
    pub fn destroy(self) -> (r: I)
        ensures
            r == self.interface_of(),
    {
        self.interface
    }
}

/// The 12-bit count of a 16-bit big-endian register whose low four bits are unused
/// (input voltage: 25 mV each; sense voltage: 25 µV each).
pub fn twelve_bit_code(b0: u8, b1: u8) -> (r: u16)
    ensures
        r == (b0 * 256 + b1) / 16,
{
    ((b0 as u16) * 256 + (b1 as u16)) / 16
}

/// The 24-bit big-endian power count.
pub fn power_code(b0: u8, b1: u8, b2: u8) -> (r: u32)
    ensures
        r == b0 * 65536 + b1 * 256 + b2,
{
    (b0 as u32) * 65536 + (b1 as u32) * 256 + (b2 as u32)
}

} // verus!
