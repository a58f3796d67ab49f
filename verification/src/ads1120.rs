//! ADS1120 thermocouple ADC: command bytes, configuration register bytes and the checks the
//! driver makes on what the converter answers.
use vstd::prelude::*;

verus! {

/// Command: reset the converter.
pub const CMD_RESET: u8 = 0x06;
/// Command: start a conversion.
pub const CMD_START_SYNC: u8 = 0x08;
/// Command: power down.
pub const CMD_POWER_DOWN: u8 = 0x02;
/// Command: read the conversion result.
pub const CMD_READ_DATA: u8 = 0x10;
/// Command base: read a configuration register.
pub const CMD_READ_REG: u8 = 0x20;
/// Command base: write a configuration register.
pub const CMD_WRITE_REG: u8 = 0x40;

/// Input multiplexer setting of the primary thermocouple (AIN0, AIN1).
pub const MUX_PRIMARY: u8 = 0x00;
/// Input multiplexer setting of the secondary thermocouple (AIN2, AIN3).
pub const MUX_SECONDARY: u8 = 0x05;
/// Input multiplexer setting that shorts the inputs to mid-supply, for offset calibration.
pub const MUX_SHORTED: u8 = 0x0E;

/// Gain of the programmable amplifier.
#[derive(Debug, Clone, Copy, PartialEq, Eq, Structural)]
pub enum PGAGain {
    Gain1,
    Gain2,
    Gain4,
    Gain8,
    Gain16,
    Gain32,
    Gain64,
    Gain128,
}

/// The register code of a gain.
pub open spec fn gain_code(g: PGAGain) -> u8 {
    match g {
        PGAGain::Gain1 => 0,
        PGAGain::Gain2 => 1,
        PGAGain::Gain4 => 2,
        PGAGain::Gain8 => 3,
        PGAGain::Gain16 => 4,
        PGAGain::Gain32 => 5,
        PGAGain::Gain64 => 6,
        PGAGain::Gain128 => 7,
    }
}

impl PGAGain {
    /// The register code of this gain.
    pub fn to_byte(&self) -> (r: u8)
        ensures
            r == gain_code(*self),
    {
        match self {
            PGAGain::Gain1 => 0,
            PGAGain::Gain2 => 1,
            PGAGain::Gain4 => 2,
            PGAGain::Gain8 => 3,
            PGAGain::Gain16 => 4,
            PGAGain::Gain32 => 5,
            PGAGain::Gain64 => 6,
            PGAGain::Gain128 => 7,
        }
    }

    /// The amplification factor: two to the power of the register code.
    pub fn factor(&self) -> (r: u8)
        ensures
            r == vstd::arithmetic::power2::pow2(gain_code(*self) as nat),
    {
        proof {
            vstd::arithmetic::power2::lemma2_to64();
        }
        match self {
            PGAGain::Gain1 => 1,
            PGAGain::Gain2 => 2,
            PGAGain::Gain4 => 4,
            PGAGain::Gain8 => 8,
            PGAGain::Gain16 => 16,
            PGAGain::Gain32 => 32,
            PGAGain::Gain64 => 64,
            PGAGain::Gain128 => 128,
        }
    }
}

/// The command byte that reads configuration register `reg_offset` (only its low two bits
/// count).
pub fn read_reg_command(reg_offset: u8) -> (r: u8)
    ensures
        r == CMD_READ_REG + 4 * (reg_offset % 4),
{
    let r = CMD_READ_REG | ((reg_offset & 0x03) << 2);
    assert(0x20u8 | ((reg_offset & 0x03) << 2) == 0x20u8 + 4 * (reg_offset % 4)) by (bit_vector);
    r
}

/// The command byte that writes configuration register `reg_offset` (only its low two bits
/// count).
pub fn write_reg_command(reg_offset: u8) -> (r: u8)
    ensures
        r == CMD_WRITE_REG + 4 * (reg_offset % 4),
{
    let r = CMD_WRITE_REG | ((reg_offset & 0x03) << 2);
    assert(0x40u8 | ((reg_offset & 0x03) << 2) == 0x40u8 + 4 * (reg_offset % 4)) by (bit_vector);
    r
}

/// 1 for a set flag, 0 otherwise.
pub open spec fn flag(b: bool) -> int {
    if b {
        1
    } else {
        0
    }
}

fn flag_bit(b: bool) -> (r: u8)
    ensures
        r == flag(b),
{
    if b {
        1
    } else {
        0
    }
}

/// Configuration register 0: input multiplexer (bits 4-7), gain (bits 1-3), amplifier
/// bypass (bit 0).
pub fn config_reg0(mux: u8, gain: PGAGain, pga_bypass: bool) -> (r: u8)
    ensures
        r == 16 * (mux % 16) + 2 * gain_code(gain) + flag(pga_bypass),
{
    let m = mux % 16;
    let g = gain.to_byte();
    m * 16 + g * 2 + flag_bit(pga_bypass)
}

/// Configuration register 1: data rate (bits 5-7), operating mode (bits 3-4), continuous
/// conversion (bit 2), temperature sensor (bit 1), burn-out current sources (bit 0).
pub fn config_reg1(dr: u8, mode: u8, cm: bool, ts: bool, bcs: bool) -> (r: u8)
    ensures
        r == 32 * (dr % 8) + 8 * (mode % 4) + 4 * flag(cm) + 2 * flag(ts) + flag(bcs),
{
    (dr % 8) * 32 + (mode % 4) * 8 + flag_bit(cm) * 4 + flag_bit(ts) * 2 + flag_bit(bcs)
}

/// The low three bits of configuration register 2: the power-switch bit (bit 2) combined
/// with the excitation-current code (bits 0-2), which share bit 2.
pub open spec fn psw_idac_bits(psw: bool, idac: u8) -> u8 {
    (if psw {
        4u8
    } else {
        0u8
    }) | ((idac % 8) as u8)
}

/// Configuration register 2: voltage reference (bits 6-7), 50/60 Hz rejection (bits 3-4),
/// low-side power switch (bit 2) or-ed with the excitation current (bits 0-2).
pub fn config_reg2(vref: u8, fifty_sixty: u8, psw: bool, idac: u8) -> (r: u8)
    ensures
        r == 64 * (vref % 4) + 8 * (fifty_sixty % 4) + psw_idac_bits(psw, idac),
{
    let p: u8 = if psw {
        4
    } else {
        0
    };
    let i: u8 = idac % 8;
    let low = p | i;
    assert(low < 8) by (bit_vector)
        requires
            low == p | i,
            p == 0 || p == 4,
            i < 8,
    ;
    (vref % 4) * 64 + (fifty_sixty % 4) * 8 + low
}

/// Configuration register 3: IDAC1 routing (bits 5-7), IDAC2 routing (bits 2-4), data-ready
/// mode (bit 1).
pub fn config_reg3(i1mux: u8, i2mux: u8, drdym: bool) -> (r: u8)
    ensures
        r == 32 * (i1mux % 8) + 4 * (i2mux % 8) + 2 * flag(drdym),
{
    (i1mux % 8) * 32 + (i2mux % 8) * 4 + flag_bit(drdym) * 2
}

/// Errors of the thermocouple converter, with the SPI bus's error type `E`.
#[derive(Debug)]
pub enum ADSError<E> {
    /// A configuration register read back a different value than was written.
    RegisterSetError,
    ValueRangeError,
    ResetError,
    /// The converter did not signal a finished conversion in time.
    ReadTimeOut,
    /// The SPI bus reported an error.
    SpiError(E),
}

/// The check after writing a configuration register: the value read back must be the one
/// written.
pub fn check_register_readback<E>(written: u8, read_back: u8) -> (r: Result<(), ADSError<E>>)
    ensures
        r is Ok <==> written == read_back,
        r matches Err(e) ==> e is RegisterSetError,
{
    if read_back != written {
        Err(ADSError::RegisterSetError)
    } else {
        Ok(())
    }
}

/// The signed conversion result carried by a 16-bit data word (two's complement).
pub fn adc_code(word: u16) -> (r: i16)
    ensures
        r == (if word < 32768 {
            word as int
        } else {
            word - 65536
        }),
{
    if word < 32768 {
        word as i16
    } else {
        let v: i32 = (word as i32) - 65536;
        v as i16
    }
}

/// Type of a thermocouple.
#[derive(Debug, Clone, Copy, PartialEq, Eq, Structural)]
pub enum ThermocoupleType {
    K,
    J,
}


/// The PGA gain codes of the ADS1120 configuration register 0: gain 2^k has code k.
pub proof fn lemma_gain_codes()
    ensures
        gain_code(PGAGain::Gain1) == 0u8,
        gain_code(PGAGain::Gain2) == 1u8,
        gain_code(PGAGain::Gain4) == 2u8,
        gain_code(PGAGain::Gain8) == 3u8,
        gain_code(PGAGain::Gain16) == 4u8,
        gain_code(PGAGain::Gain32) == 5u8,
        gain_code(PGAGain::Gain64) == 6u8,
        gain_code(PGAGain::Gain128) == 7u8,
{
}

} // verus!
