//! MAX31889 temperature sensor: the register addresses, the control byte that starts a
//! conversion, and the decoding of a FIFO sample (0.005 °C per count).
use vstd::prelude::*;

verus! {

/// Register address of the temperature-sensor control register.
pub const CONTROL_REG: u8 = 0x14;

/// Register address of the FIFO data register.
pub const FIFO_REG: u8 = 0x08;

/// The control byte that starts a conversion: the byte read back with its lowest bit (the
/// start bit) set and every other bit kept.
pub fn start_conversion_control(ctrl: u8) -> (r: u8)
    ensures
        r % 2 == 1,
        r / 2 == ctrl / 2,
{
    let r = ctrl | 1;
    assert(r % 2 == 1 && r / 2 == ctrl / 2) by (bit_vector)
        requires
            r == ctrl | 1,
    ;
    r
}

/// The signed sample of the two FIFO bytes (big-endian), as the combined read takes it.
pub fn signed_sample(b0: u8, b1: u8) -> (r: i16)
    ensures
        r == (if b0 < 128 {
            b0 * 256 + b1
        } else {
            b0 * 256 + b1 - 65536
        }),
{
    crate::lsm6dso32::i16_from_le(b1, b0)
}

/// The unsigned sample of the two FIFO bytes (big-endian), as the FIFO read takes it.
pub fn unsigned_sample(b0: u8, b1: u8) -> (r: u16)
    ensures
        r == b0 * 256 + b1,
{
    (b0 as u16) * 256 + (b1 as u16)
}

} // verus!
