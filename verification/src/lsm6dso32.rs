//! LSM6DSO32 inertial sensor: raw sample types, FIFO frame decoding, the register fields
//! that the driver reads and writes, and the driver's own state.
use core::marker::PhantomData;
use vstd::prelude::*;

verus! {

/// Raw accelerometer readings (LSB), one signed word per axis.
#[derive(Debug, Clone, Copy)]
pub struct AccelerationRaw {
    pub x: i16,
    pub y: i16,
    pub z: i16,
}

/// Raw gyroscope readings (LSB), one signed word per axis.
#[derive(Debug, Clone, Copy)]
pub struct AngularRateRaw {
    pub x: i16,
    pub y: i16,
    pub z: i16,
}

/// Raw temperature reading: a signed offset from 25 °C in 1/256 °C.
#[derive(Debug, Clone, Copy)]
pub struct TemperatureRaw {
    pub value: i16,
}

/// The signed little-endian word made of the bytes `lo` and `hi`.
pub open spec fn le_i16(lo: u8, hi: u8) -> int {
    if hi < 128 {
        hi * 256 + lo
    } else {
        hi * 256 + lo - 65536
    }
}

/// The unsigned little-endian 32-bit word made of four bytes.
pub open spec fn le_u32(b0: u8, b1: u8, b2: u8, b3: u8) -> int {
    b0 + 256 * b1 + 65536 * b2 + 16777216 * b3
}

/// The signed word stored little-endian in `lo`, `hi`.
pub fn i16_from_le(lo: u8, hi: u8) -> (r: i16)
    ensures
        r == le_i16(lo, hi),
{
    let w: u16 = (hi as u16) * 256 + (lo as u16);
    if hi < 128 {
        w as i16
    } else {
        let v: i32 = (w as i32) - 65536;
        v as i16
    }
}

fn u32_from_le(b0: u8, b1: u8, b2: u8, b3: u8) -> (r: u32)
    ensures
        r == le_u32(b0, b1, b2, b3),
{
    (b0 as u32) + 256 * (b1 as u32) + 65536 * (b2 as u32) + 16777216 * (b3 as u32)
}

/// The sensor that produced a FIFO frame, as its 5-bit tag says.
#[allow(non_camel_case_types)]
#[derive(Copy, Clone, PartialEq, Eq, Debug, Structural)]
pub enum TagSensor {
    GyroscopeNC,
    AccelerometerNC,
    Temperature,
    Timestamp,
    CFGChange,
    AccelerometerNC_T_2,
    AccelerometerNC_T_1,
    Accelerometer2xC,
    Accelerometer3xC,
    GyroscopeNC_T_2,
    GyroscopeNC_T_1,
    Gyroscope2xC,
    Gyroscope3xC,
    SensorHubSlave0,
    SensorHubSlave1,
    SensorHubSlave2,
    SensorHubSlave3,
    StepCounter,
    SensorHubNack,
    /// Any tag value that names none of the sensors above.
    Unknown(u8),
}

/// The tag value of each named sensor.
pub open spec fn tag_code(t: TagSensor) -> u8 {
    match t {
        TagSensor::GyroscopeNC => 0x01,
        TagSensor::AccelerometerNC => 0x02,
        TagSensor::Temperature => 0x03,
        TagSensor::Timestamp => 0x04,
        TagSensor::CFGChange => 0x05,
        TagSensor::AccelerometerNC_T_2 => 0x06,
        TagSensor::AccelerometerNC_T_1 => 0x07,
        TagSensor::Accelerometer2xC => 0x08,
        TagSensor::Accelerometer3xC => 0x09,
        TagSensor::GyroscopeNC_T_2 => 0x0A,
        TagSensor::GyroscopeNC_T_1 => 0x0B,
        TagSensor::Gyroscope2xC => 0x0C,
        TagSensor::Gyroscope3xC => 0x0D,
        TagSensor::SensorHubSlave0 => 0x0E,
        TagSensor::SensorHubSlave1 => 0x0F,
        TagSensor::SensorHubSlave2 => 0x10,
        TagSensor::SensorHubSlave3 => 0x11,
        TagSensor::StepCounter => 0x12,
        TagSensor::SensorHubNack => 0x19,
        TagSensor::Unknown(v) => v,
    }
}

/// The FIFO tag value of every named sensor, as the LSM6DSO32 datasheet lists them: each
/// sensor is tagged with exactly this value, and this value decodes to it; the values 0x13 to
/// 0x18 and 0x1A and above name no sensor.
pub proof fn lemma_tag_values()
    ensures
        tag_code(TagSensor::GyroscopeNC) == 0x01u8,
        tag_of(0x01u8) == TagSensor::GyroscopeNC,
        tag_code(TagSensor::AccelerometerNC) == 0x02u8,
        tag_of(0x02u8) == TagSensor::AccelerometerNC,
        tag_code(TagSensor::Temperature) == 0x03u8,
        tag_of(0x03u8) == TagSensor::Temperature,
        tag_code(TagSensor::Timestamp) == 0x04u8,
        tag_of(0x04u8) == TagSensor::Timestamp,
        tag_code(TagSensor::CFGChange) == 0x05u8,
        tag_of(0x05u8) == TagSensor::CFGChange,
        tag_code(TagSensor::AccelerometerNC_T_2) == 0x06u8,
        tag_of(0x06u8) == TagSensor::AccelerometerNC_T_2,
        tag_code(TagSensor::AccelerometerNC_T_1) == 0x07u8,
        tag_of(0x07u8) == TagSensor::AccelerometerNC_T_1,
        tag_code(TagSensor::Accelerometer2xC) == 0x08u8,
        tag_of(0x08u8) == TagSensor::Accelerometer2xC,
        tag_code(TagSensor::Accelerometer3xC) == 0x09u8,
        tag_of(0x09u8) == TagSensor::Accelerometer3xC,
        tag_code(TagSensor::GyroscopeNC_T_2) == 0x0Au8,
        tag_of(0x0Au8) == TagSensor::GyroscopeNC_T_2,
        tag_code(TagSensor::GyroscopeNC_T_1) == 0x0Bu8,
        tag_of(0x0Bu8) == TagSensor::GyroscopeNC_T_1,
        tag_code(TagSensor::Gyroscope2xC) == 0x0Cu8,
        tag_of(0x0Cu8) == TagSensor::Gyroscope2xC,
        tag_code(TagSensor::Gyroscope3xC) == 0x0Du8,
        tag_of(0x0Du8) == TagSensor::Gyroscope3xC,
        tag_code(TagSensor::SensorHubSlave0) == 0x0Eu8,
        tag_of(0x0Eu8) == TagSensor::SensorHubSlave0,
        tag_code(TagSensor::SensorHubSlave1) == 0x0Fu8,
        tag_of(0x0Fu8) == TagSensor::SensorHubSlave1,
        tag_code(TagSensor::SensorHubSlave2) == 0x10u8,
        tag_of(0x10u8) == TagSensor::SensorHubSlave2,
        tag_code(TagSensor::SensorHubSlave3) == 0x11u8,
        tag_of(0x11u8) == TagSensor::SensorHubSlave3,
        tag_code(TagSensor::StepCounter) == 0x12u8,
        tag_of(0x12u8) == TagSensor::StepCounter,
        tag_code(TagSensor::SensorHubNack) == 0x19u8,
        tag_of(0x19u8) == TagSensor::SensorHubNack,
        forall|raw: u8| (0x13 <= raw <= 0x18 || raw >= 0x1A || raw == 0) ==> tag_of(raw)
            == TagSensor::Unknown(raw),
{
}

/// Whether `raw` is the tag value of a named sensor.
pub open spec fn is_known_tag(raw: u8) -> bool {
    (0x01 <= raw && raw <= 0x12) || raw == 0x19
}

/// The sensor that a tag value names; values that name none are kept in `Unknown`.
pub open spec fn tag_of(raw: u8) -> TagSensor {
    if raw == 0x01 {
        TagSensor::GyroscopeNC
    } else if raw == 0x02 {
        TagSensor::AccelerometerNC
    } else if raw == 0x03 {
        TagSensor::Temperature
    } else if raw == 0x04 {
        TagSensor::Timestamp
    } else if raw == 0x05 {
        TagSensor::CFGChange
    } else if raw == 0x06 {
        TagSensor::AccelerometerNC_T_2
    } else if raw == 0x07 {
        TagSensor::AccelerometerNC_T_1
    } else if raw == 0x08 {
        TagSensor::Accelerometer2xC
    } else if raw == 0x09 {
        TagSensor::Accelerometer3xC
    } else if raw == 0x0A {
        TagSensor::GyroscopeNC_T_2
    } else if raw == 0x0B {
        TagSensor::GyroscopeNC_T_1
    } else if raw == 0x0C {
        TagSensor::Gyroscope2xC
    } else if raw == 0x0D {
        TagSensor::Gyroscope3xC
    } else if raw == 0x0E {
        TagSensor::SensorHubSlave0
    } else if raw == 0x0F {
        TagSensor::SensorHubSlave1
    } else if raw == 0x10 {
        TagSensor::SensorHubSlave2
    } else if raw == 0x11 {
        TagSensor::SensorHubSlave3
    } else if raw == 0x12 {
        TagSensor::StepCounter
    } else if raw == 0x19 {
        TagSensor::SensorHubNack
    } else {
        TagSensor::Unknown(raw)
    }
}

/// Decoding a tag loses nothing: every tag value decodes to a sensor whose value is the tag
/// again, and every sensor that can come out of decoding (a named one, or `Unknown` of a value
/// that names none) decodes back from its value.
pub proof fn lemma_tag_round_trip(raw: u8, t: TagSensor)
    ensures
        tag_code(tag_of(raw)) == raw,
        (tag_of(raw) is Unknown) <==> !is_known_tag(raw),
        (t matches TagSensor::Unknown(v) ==> !is_known_tag(v)) ==> tag_of(tag_code(t)) == t,
{
}

impl TagSensor {
    /// The sensor named by a raw tag value; values that name no sensor are kept in `Unknown`.
    pub fn from_raw(raw: u8) -> (r: TagSensor)
        ensures
            r == tag_of(raw),
    {
        match raw {
            0x01 => TagSensor::GyroscopeNC,
            0x02 => TagSensor::AccelerometerNC,
            0x03 => TagSensor::Temperature,
            0x04 => TagSensor::Timestamp,
            0x05 => TagSensor::CFGChange,
            0x06 => TagSensor::AccelerometerNC_T_2,
            0x07 => TagSensor::AccelerometerNC_T_1,
            0x08 => TagSensor::Accelerometer2xC,
            0x09 => TagSensor::Accelerometer3xC,
            0x0A => TagSensor::GyroscopeNC_T_2,
            0x0B => TagSensor::GyroscopeNC_T_1,
            0x0C => TagSensor::Gyroscope2xC,
            0x0D => TagSensor::Gyroscope3xC,
            0x0E => TagSensor::SensorHubSlave0,
            0x0F => TagSensor::SensorHubSlave1,
            0x10 => TagSensor::SensorHubSlave2,
            0x11 => TagSensor::SensorHubSlave3,
            0x12 => TagSensor::StepCounter,
            0x19 => TagSensor::SensorHubNack,
            other => TagSensor::Unknown(other),
        }
    }

    /// The tag value of this sensor.
    pub fn raw(&self) -> (r: u8)
        ensures
            r == tag_code(*self),
    {
        match *self {
            TagSensor::GyroscopeNC => 0x01,
            TagSensor::AccelerometerNC => 0x02,
            TagSensor::Temperature => 0x03,
            TagSensor::Timestamp => 0x04,
            TagSensor::CFGChange => 0x05,
            TagSensor::AccelerometerNC_T_2 => 0x06,
            TagSensor::AccelerometerNC_T_1 => 0x07,
            TagSensor::Accelerometer2xC => 0x08,
            TagSensor::Accelerometer3xC => 0x09,
            TagSensor::GyroscopeNC_T_2 => 0x0A,
            TagSensor::GyroscopeNC_T_1 => 0x0B,
            TagSensor::Gyroscope2xC => 0x0C,
            TagSensor::Gyroscope3xC => 0x0D,
            TagSensor::SensorHubSlave0 => 0x0E,
            TagSensor::SensorHubSlave1 => 0x0F,
            TagSensor::SensorHubSlave2 => 0x10,
            TagSensor::SensorHubSlave3 => 0x11,
            TagSensor::StepCounter => 0x12,
            TagSensor::SensorHubNack => 0x19,
            TagSensor::Unknown(v) => v,
        }
    }
}

/// One FIFO frame: a tag byte followed by six bytes of sample data.
#[derive(Copy, Clone, PartialEq, Eq, Debug)]
pub struct FifoDataOut {
    bits: [u8; 7],
}

/// The number of bytes of one FIFO frame.
pub const FIFO_FRAME_LEN: usize = 7;

impl FifoDataOut {
    /// The seven bytes of the frame.
    pub closed spec fn bytes(&self) -> Seq<u8> {
        self.bits@
    }

    /// A frame of seven zero bytes.
    pub fn new_with_zero() -> (r: FifoDataOut)
        ensures
            r.bytes() == Seq::new(7, |i: int| 0u8),
    {
        let r = FifoDataOut { bits: [0u8; 7] };
        assert(r.bytes() =~= Seq::new(7, |i: int| 0u8));
        r
    }

    /// The frame made of seven bytes as the sensor sent them.
    pub fn from_bytes(bits: [u8; 7]) -> (r: FifoDataOut)
        ensures
            r.bytes() == bits@,
    {
        FifoDataOut { bits }
    }

    /// The sensor named by the frame's tag (the tag byte's upper five bits).
    pub fn tag_sensor(&self) -> (r: TagSensor)
        ensures
            r == tag_of((self.bytes()[0] / 8) as u8),
    {
        let b = self.bits[0];
        let raw = b >> 3;
        assert(b >> 3 == b / 8) by (bit_vector);
        TagSensor::from_raw(raw)
    }

    /// The frame counter of the tag (bits 1 and 2 of the tag byte).
    pub fn tag_cnt(&self) -> (r: u8)
        ensures
            r == (self.bytes()[0] / 2) % 4,
    {
        let b = self.bits[0];
        assert((b >> 1) & 3 == (b / 2) % 4) by (bit_vector);
        (b >> 1) & 0b11
    }

    /// The parity bit of the tag (bit 0 of the tag byte).
    pub fn tag_parity(&self) -> (r: bool)
        ensures
            r == (self.bytes()[0] % 2 == 1),
    {
        let b = self.bits[0];
        assert((b & 1 != 0) == (b % 2 == 1)) by (bit_vector);
        (b & 0b1) != 0
    }

    /// The first data word, signed little-endian.
    pub fn x(&self) -> (r: i16)
        ensures
            r == le_i16(self.bytes()[1], self.bytes()[2]),
    {
        i16_from_le(self.bits[1], self.bits[2])
    }

    /// The second data word, signed little-endian.
    pub fn y(&self) -> (r: i16)
        ensures
            r == le_i16(self.bytes()[3], self.bytes()[4]),
    {
        i16_from_le(self.bits[3], self.bits[4])
    }

    /// The third data word, signed little-endian.
    pub fn z(&self) -> (r: i16)
        ensures
            r == le_i16(self.bytes()[5], self.bytes()[6]),
    {
        i16_from_le(self.bits[5], self.bits[6])
    }

    /// The timestamp of a timestamp frame: the first four data bytes, unsigned little-endian.
    pub fn timestamp(&self) -> (r: u32)
        ensures
            r == le_u32(self.bytes()[1], self.bytes()[2], self.bytes()[3], self.bytes()[4]),
    {
        u32_from_le(self.bits[1], self.bits[2], self.bits[3], self.bits[4])
    }

    /// The temperature of a temperature frame: the first data word, signed little-endian.
    pub fn temperature(&self) -> (r: i16)
        ensures
            r == le_i16(self.bytes()[1], self.bytes()[2]),
    {
        i16_from_le(self.bits[1], self.bits[2])
    }

    /// The six data bytes that follow the tag.
    pub fn data(&self) -> (r: &[u8])
        ensures
            r@ == self.bytes().subrange(1, 7),
    {
        vstd::slice::slice_subrange(self.bits.as_slice(), 1, 7)
    }
}

/// Register address of the FIFO watermark/stop configuration (two bytes, little-endian).
pub const FIFO_CTRL1_AND_2: u8 = 0x07;
/// Register address of the FIFO batch data rates of accelerometer and gyroscope.
pub const FIFO_CTRL3: u8 = 0x09;
/// Register address of the FIFO mode and temperature/timestamp batching.
pub const FIFO_CTRL4: u8 = 0x0A;
/// Register address of the INT1 pin sources.
pub const INT1_CTRL: u8 = 0x0D;
/// Register address of the INT2 pin sources.
pub const INT2_CTRL: u8 = 0x0E;
/// Register address of the identification register.
pub const WHO_AM_I: u8 = 0x0F;
/// Register address of the accelerometer control register.
pub const CTRL1_XL: u8 = 0x10;
/// Register address of the gyroscope control register.
pub const CTRL2_G: u8 = 0x11;
/// Register address of control register 3 (reset, block data update, auto-increment).
pub const CTRL3_C: u8 = 0x12;
/// Register address of the data-ready status register.
pub const STATUS_REG: u8 = 0x1E;
/// Register address of the temperature output (two bytes).
pub const OUT_TEMP: u8 = 0x20;
/// Register address of the gyroscope output (six bytes); with the accelerometer output after
/// it, twelve bytes.
pub const OUT_G: u8 = 0x22;
/// Register address of the accelerometer output (six bytes).
pub const OUT_A: u8 = 0x28;
/// Register address of the FIFO fill level, low byte.
pub const FIFO_STATUS1: u8 = 0x3A;
/// Register address of the FIFO fill level, high bits and flags.
pub const FIFO_STATUS2: u8 = 0x3B;
/// Register address of the FIFO output (tag byte first).
pub const FIFO_DATA_OUT: u8 = 0x78;
/// The identification value of an LSM6DSO32.
pub const WHOAMI: u8 = 0x6C;
/// The most FIFO frames read in one burst.
pub const MAX_FIFO_DATA: usize = 512;

/// The field of `width_mask` bits of `r` that starts at bit `shift`.
pub open spec fn field_u8(r: u8, shift: u8, width_mask: u8) -> u8 {
    ((r >> shift) & width_mask) as u8
}

/// Accelerometer full-scale range.
#[derive(Debug, Clone, Copy, PartialEq, Eq, Structural)]
pub enum AccelerometerFullScale {
    /// ±4 g
    G4,
    /// ±32 g
    G32,
    /// ±8 g
    G8,
    /// ±16 g
    G16,
}

/// The FS_XL field value of an accelerometer range.
pub open spec fn accel_fs_code(fs: AccelerometerFullScale) -> u8 {
    match fs {
        AccelerometerFullScale::G4 => 0,
        AccelerometerFullScale::G32 => 1,
        AccelerometerFullScale::G8 => 2,
        AccelerometerFullScale::G16 => 3,
    }
}

/// The accelerometer range that an FS_XL field value selects.
pub open spec fn accel_fs_of(code: u8) -> AccelerometerFullScale {
    if code % 4 == 0 {
        AccelerometerFullScale::G4
    } else if code % 4 == 1 {
        AccelerometerFullScale::G32
    } else if code % 4 == 2 {
        AccelerometerFullScale::G8
    } else {
        AccelerometerFullScale::G16
    }
}

impl AccelerometerFullScale {
    /// The FS_XL field value of this range.
    pub fn bits(&self) -> (r: u8)
        ensures
            r == accel_fs_code(*self),
    {
        match self {
            AccelerometerFullScale::G4 => 0,
            AccelerometerFullScale::G32 => 1,
            AccelerometerFullScale::G8 => 2,
            AccelerometerFullScale::G16 => 3,
        }
    }

    /// The range selected by the low two bits of `code`.
    pub fn from_bits(code: u8) -> (r: AccelerometerFullScale)
        ensures
            r == accel_fs_of(code),
    {
        let c = code % 4;
        if c == 0 {
            AccelerometerFullScale::G4
        } else if c == 1 {
            AccelerometerFullScale::G32
        } else if c == 2 {
            AccelerometerFullScale::G8
        } else {
            AccelerometerFullScale::G16
        }
    }

    /// Sensitivity of the range: raw counts per g.
    pub fn lsb_per_g(&self) -> (r: u16)
        ensures
            r == (match *self {
                AccelerometerFullScale::G4 => 8192u16,
                AccelerometerFullScale::G8 => 4096u16,
                AccelerometerFullScale::G16 => 2048u16,
                AccelerometerFullScale::G32 => 1024u16,
            }),
    {
        match self {
            AccelerometerFullScale::G4 => 8192,
            AccelerometerFullScale::G8 => 4096,
            AccelerometerFullScale::G16 => 2048,
            AccelerometerFullScale::G32 => 1024,
        }
    }
}

/// Gyroscope full-scale range.
#[derive(Debug, Clone, Copy, PartialEq, Eq, Structural)]
pub enum GyroscopeFullScale {
    /// ±250 dps
    Dps250,
    /// ±500 dps
    Dps500,
    /// ±1000 dps
    Dps1000,
    /// ±2000 dps
    Dps2000,
}

/// The FS_G field value of a gyroscope range.
pub open spec fn gyro_fs_code(fs: GyroscopeFullScale) -> u8 {
    match fs {
        GyroscopeFullScale::Dps250 => 0,
        GyroscopeFullScale::Dps500 => 1,
        GyroscopeFullScale::Dps1000 => 2,
        GyroscopeFullScale::Dps2000 => 3,
    }
}

/// The gyroscope range that an FS_G field value selects.
pub open spec fn gyro_fs_of(code: u8) -> GyroscopeFullScale {
    if code % 4 == 0 {
        GyroscopeFullScale::Dps250
    } else if code % 4 == 1 {
        GyroscopeFullScale::Dps500
    } else if code % 4 == 2 {
        GyroscopeFullScale::Dps1000
    } else {
        GyroscopeFullScale::Dps2000
    }
}

impl GyroscopeFullScale {
    /// The FS_G field value of this range.
    pub fn bits(&self) -> (r: u8)
        ensures
            r == gyro_fs_code(*self),
    {
        match self {
            GyroscopeFullScale::Dps250 => 0,
            GyroscopeFullScale::Dps500 => 1,
            GyroscopeFullScale::Dps1000 => 2,
            GyroscopeFullScale::Dps2000 => 3,
        }
    }

    /// The range selected by the low two bits of `code`.
    pub fn from_bits(code: u8) -> (r: GyroscopeFullScale)
        ensures
            r == gyro_fs_of(code),
    {
        let c = code % 4;
        if c == 0 {
            GyroscopeFullScale::Dps250
        } else if c == 1 {
            GyroscopeFullScale::Dps500
        } else if c == 2 {
            GyroscopeFullScale::Dps1000
        } else {
            GyroscopeFullScale::Dps2000
        }
    }

    /// Sensitivity of the range: millionths of a degree per second per raw count.
    pub fn micro_dps_per_lsb(&self) -> (r: u32)
        ensures
            r == (match *self {
                GyroscopeFullScale::Dps250 => 8750u32,
                GyroscopeFullScale::Dps500 => 17500u32,
                GyroscopeFullScale::Dps1000 => 35000u32,
                GyroscopeFullScale::Dps2000 => 70000u32,
            }),
    {
        match self {
            GyroscopeFullScale::Dps250 => 8750,
            GyroscopeFullScale::Dps500 => 17500,
            GyroscopeFullScale::Dps1000 => 35000,
            GyroscopeFullScale::Dps2000 => 70000,
        }
    }
}

/// Output data rate of the accelerometer or the gyroscope (field ODR_XL / ODR_G).
#[derive(Debug, Clone, Copy, PartialEq, Eq, Structural)]
pub enum OutputDataRate {
    PowerDown,
    Hz12_5,
    Hz26,
    Hz52,
    Hz104,
    Hz208,
    Hz416,
    Hz833,
    Hz1667,
    Hz3333,
    Hz6667,
    Hz1_6,
    /// A field value that the sensor does not allow.
    NotAllowed(u8),
}

/// The field value of an output data rate.
pub open spec fn odr_code(o: OutputDataRate) -> u8 {
    match o {
        OutputDataRate::PowerDown => 0,
        OutputDataRate::Hz12_5 => 1,
        OutputDataRate::Hz26 => 2,
        OutputDataRate::Hz52 => 3,
        OutputDataRate::Hz104 => 4,
        OutputDataRate::Hz208 => 5,
        OutputDataRate::Hz416 => 6,
        OutputDataRate::Hz833 => 7,
        OutputDataRate::Hz1667 => 8,
        OutputDataRate::Hz3333 => 9,
        OutputDataRate::Hz6667 => 10,
        OutputDataRate::Hz1_6 => 11,
        OutputDataRate::NotAllowed(v) => v,
    }
}

impl OutputDataRate {
    /// The field value of this rate.
    pub fn bits(&self) -> (r: u8)
        ensures
            r == odr_code(*self),
    {
        match *self {
            OutputDataRate::PowerDown => 0,
            OutputDataRate::Hz12_5 => 1,
            OutputDataRate::Hz26 => 2,
            OutputDataRate::Hz52 => 3,
            OutputDataRate::Hz104 => 4,
            OutputDataRate::Hz208 => 5,
            OutputDataRate::Hz416 => 6,
            OutputDataRate::Hz833 => 7,
            OutputDataRate::Hz1667 => 8,
            OutputDataRate::Hz3333 => 9,
            OutputDataRate::Hz6667 => 10,
            OutputDataRate::Hz1_6 => 11,
            OutputDataRate::NotAllowed(v) => v,
        }
    }
}

/// Rate at which the accelerometer or gyroscope writes into the FIFO (BDR_XL / BDR_GY).
#[derive(Debug, Clone, Copy, PartialEq, Eq, Structural)]
pub enum BatchDataRate {
    NotBatched,
    Hz12_5,
    Hz26,
    Hz52,
    Hz104,
    Hz208,
    Hz417,
    Hz833,
    Hz1667,
    Hz3333,
    Hz6667,
    Hz6_5,
    /// A field value that the sensor does not allow.
    NotAllowed(u8),
}

/// The field value of a batch data rate.
pub open spec fn bdr_code(b: BatchDataRate) -> u8 {
    match b {
        BatchDataRate::NotBatched => 0,
        BatchDataRate::Hz12_5 => 1,
        BatchDataRate::Hz26 => 2,
        BatchDataRate::Hz52 => 3,
        BatchDataRate::Hz104 => 4,
        BatchDataRate::Hz208 => 5,
        BatchDataRate::Hz417 => 6,
        BatchDataRate::Hz833 => 7,
        BatchDataRate::Hz1667 => 8,
        BatchDataRate::Hz3333 => 9,
        BatchDataRate::Hz6667 => 10,
        BatchDataRate::Hz6_5 => 11,
        BatchDataRate::NotAllowed(v) => v,
    }
}

impl BatchDataRate {
    /// The field value of this rate.
    pub fn bits(&self) -> (r: u8)
        ensures
            r == bdr_code(*self),
    {
        match *self {
            BatchDataRate::NotBatched => 0,
            BatchDataRate::Hz12_5 => 1,
            BatchDataRate::Hz26 => 2,
            BatchDataRate::Hz52 => 3,
            BatchDataRate::Hz104 => 4,
            BatchDataRate::Hz208 => 5,
            BatchDataRate::Hz417 => 6,
            BatchDataRate::Hz833 => 7,
            BatchDataRate::Hz1667 => 8,
            BatchDataRate::Hz3333 => 9,
            BatchDataRate::Hz6667 => 10,
            BatchDataRate::Hz6_5 => 11,
            BatchDataRate::NotAllowed(v) => v,
        }
    }
}

/// Rate at which temperature is written into the FIFO (ODR_T_BATCH).
#[derive(Debug, Clone, Copy, PartialEq, Eq, Structural)]
pub enum TempBatchDataRate {
    NotBatched,
    Hz1,
    Hz12_5,
    Hz52,
}

/// The field value of a temperature batch rate.
pub open spec fn temp_bdr_code(t: TempBatchDataRate) -> u8 {
    match t {
        TempBatchDataRate::NotBatched => 0,
        TempBatchDataRate::Hz1 => 1,
        TempBatchDataRate::Hz12_5 => 2,
        TempBatchDataRate::Hz52 => 3,
    }
}

/// Decimation of timestamp batching in the FIFO (DEC_TS_BATCH).
#[derive(Debug, Clone, Copy, PartialEq, Eq, Structural)]
pub enum DecTsBatch {
    NotBatched,
    Dec1,
    Dec8,
    Dec32,
}

/// The field value of a timestamp decimation.
pub open spec fn dec_ts_code(d: DecTsBatch) -> u8 {
    match d {
        DecTsBatch::NotBatched => 0,
        DecTsBatch::Dec1 => 1,
        DecTsBatch::Dec8 => 2,
        DecTsBatch::Dec32 => 3,
    }
}

/// FIFO operating mode (FIFO_MODE).
#[derive(Debug, Clone, Copy, PartialEq, Eq, Structural)]
pub enum FifoMode {
    Bypass,
    Fifo,
    ContinuousToFifo,
    BypassToContinuous,
    Continuous,
    BypassToFifo,
    /// A field value that names no mode.
    Reserved(u8),
}

/// The field value of a FIFO mode.
pub open spec fn fifo_mode_code(m: FifoMode) -> u8 {
    match m {
        FifoMode::Bypass => 0,
        FifoMode::Fifo => 1,
        FifoMode::ContinuousToFifo => 3,
        FifoMode::BypassToContinuous => 4,
        FifoMode::Continuous => 6,
        FifoMode::BypassToFifo => 7,
        FifoMode::Reserved(v) => v,
    }
}

fn temp_bdr_bits(t: TempBatchDataRate) -> (r: u8)
    ensures
        r == temp_bdr_code(t),
{
    match t {
        TempBatchDataRate::NotBatched => 0,
        TempBatchDataRate::Hz1 => 1,
        TempBatchDataRate::Hz12_5 => 2,
        TempBatchDataRate::Hz52 => 3,
    }
}

fn dec_ts_bits(d: DecTsBatch) -> (r: u8)
    ensures
        r == dec_ts_code(d),
{
    match d {
        DecTsBatch::NotBatched => 0,
        DecTsBatch::Dec1 => 1,
        DecTsBatch::Dec8 => 2,
        DecTsBatch::Dec32 => 3,
    }
}

fn fifo_mode_bits(m: FifoMode) -> (r: u8)
    ensures
        r == fifo_mode_code(m),
{
    match m {
        FifoMode::Bypass => 0,
        FifoMode::Fifo => 1,
        FifoMode::ContinuousToFifo => 3,
        FifoMode::BypassToContinuous => 4,
        FifoMode::Continuous => 6,
        FifoMode::BypassToFifo => 7,
        FifoMode::Reserved(v) => v,
    }
}

// ---------------------------------------------------------------------------
// Initialisation, one bus transaction at a time
// ---------------------------------------------------------------------------

/// Where an initialisation stands: the stage names the bus transaction it waits for.
#[derive(Debug, Clone, Copy, PartialEq, Eq, Structural)]
pub enum InitStage {
    /// Reading CTRL3_C to set the reset bit.
    ResetRead,
    /// Writing CTRL3_C with the reset bit.
    ResetWrite,
    /// Waiting for the sensor to come out of reset.
    Settling,
    /// Reading the identification register.
    Identify,
    /// Reading CTRL3_C to enable block data update and auto-increment.
    ConfigRead,
    /// Writing CTRL3_C with block data update and auto-increment.
    ConfigWrite,
    /// Reading CTRL1_XL for the accelerometer range.
    AccelRange,
    /// Reading CTRL2_G for the gyroscope range, with the CTRL1_XL value read before.
    GyroRange(u8),
    /// The sensor is initialised.
    Finished,
    /// Initialisation failed.
    Failed,
}

/// The outcome of the transaction an initialisation asked for.
#[derive(Debug, Clone, Copy, PartialEq, Eq, Structural)]
pub enum InitOutcome {
    /// It succeeded; a read gives the byte read (writes and delays give any byte).
    Done(u8),
    /// The bus reported an error.
    BusFailed,
}

/// What an initialisation asks for next.
#[derive(Debug, Clone, Copy, PartialEq, Eq, Structural)]
pub enum InitAction {
    /// Read the register at this address.
    Read(u8),
    /// Write this value to the register at this address.
    Write(u8, u8),
    /// Wait this many milliseconds.
    DelayMs(u32),
    /// Done: the sensor is initialised with these CTRL1_XL and CTRL2_G values.
    Finish(u8, u8),
    /// Fail with the bus error of the last transaction.
    FailBus,
    /// Fail: the identification register did not read `WHOAMI`.
    FailWhoami,
    /// Nothing more to do (the initialisation has ended).
    Idle,
}

/// How long the sensor needs after a software reset, in milliseconds.
pub const RESET_SETTLE_MS: u32 = 30;

/// The first step of an initialisation: read CTRL3_C.
pub fn init_begin() -> (r: (InitStage, InitAction))
    ensures
        r == (InitStage::ResetRead, InitAction::Read(CTRL3_C)),
{
    (InitStage::ResetRead, InitAction::Read(CTRL3_C))
}

/// The initialisation's next stage and request after `outcome` in `stage`: reset (read
/// CTRL3_C, write it with the reset bit, wait), check the identification, enable block data
/// update and auto-increment (read CTRL3_C, write it back with both bits), then read CTRL1_XL
/// and CTRL2_G for the ranges. A bus error anywhere fails; a wrong identification fails.
pub open spec fn init_transition(stage: InitStage, outcome: InitOutcome) -> (InitStage, InitAction) {
    match outcome {
        InitOutcome::BusFailed => match stage {
            InitStage::Finished => (InitStage::Finished, InitAction::Idle),
            InitStage::Failed => (InitStage::Failed, InitAction::Idle),
            _ => (InitStage::Failed, InitAction::FailBus),
        },
        InitOutcome::Done(v) => match stage {
            InitStage::ResetRead => (InitStage::ResetWrite, InitAction::Write(CTRL3_C, v | 0x01)),
            InitStage::ResetWrite => (InitStage::Settling, InitAction::DelayMs(RESET_SETTLE_MS)),
            InitStage::Settling => (InitStage::Identify, InitAction::Read(WHO_AM_I)),
            InitStage::Identify => if v == WHOAMI {
                (InitStage::ConfigRead, InitAction::Read(CTRL3_C))
            } else {
                (InitStage::Failed, InitAction::FailWhoami)
            },
            InitStage::ConfigRead => (InitStage::ConfigWrite, InitAction::Write(CTRL3_C, v | 0x44)),
            InitStage::ConfigWrite => (InitStage::AccelRange, InitAction::Read(CTRL1_XL)),
            InitStage::AccelRange => (InitStage::GyroRange(v), InitAction::Read(CTRL2_G)),
            InitStage::GyroRange(c1) => (InitStage::Finished, InitAction::Finish(c1, v)),
            InitStage::Finished => (InitStage::Finished, InitAction::Idle),
            InitStage::Failed => (InitStage::Failed, InitAction::Idle),
        },
    }
}

/// One step of an initialisation (see `init_transition`).
pub fn init_step(stage: InitStage, outcome: InitOutcome) -> (r: (InitStage, InitAction))
    ensures
        r == init_transition(stage, outcome),
{
    match outcome {
        InitOutcome::BusFailed => match stage {
            InitStage::Finished => (InitStage::Finished, InitAction::Idle),
            InitStage::Failed => (InitStage::Failed, InitAction::Idle),
            _ => (InitStage::Failed, InitAction::FailBus),
        },
        InitOutcome::Done(v) => match stage {
            InitStage::ResetRead => (
                InitStage::ResetWrite,
                InitAction::Write(CTRL3_C, ctrl3_c_with_reset(v)),
            ),
            InitStage::ResetWrite => (InitStage::Settling, InitAction::DelayMs(RESET_SETTLE_MS)),
            InitStage::Settling => (InitStage::Identify, InitAction::Read(WHO_AM_I)),
            InitStage::Identify => {
                if whoami_matches(v) {
                    (InitStage::ConfigRead, InitAction::Read(CTRL3_C))
                } else {
                    (InitStage::Failed, InitAction::FailWhoami)
                }
            },
            InitStage::ConfigRead => (
                InitStage::ConfigWrite,
                InitAction::Write(CTRL3_C, ctrl3_c_with_bdu_and_increment(v)),
            ),
            InitStage::ConfigWrite => (InitStage::AccelRange, InitAction::Read(CTRL1_XL)),
            InitStage::AccelRange => (InitStage::GyroRange(v), InitAction::Read(CTRL2_G)),
            InitStage::GyroRange(c1) => (InitStage::Finished, InitAction::Finish(c1, v)),
            InitStage::Finished => (InitStage::Finished, InitAction::Idle),
            InitStage::Failed => (InitStage::Failed, InitAction::Idle),
        },
    }
}

/// A successful initialisation makes exactly these requests, in this order: read CTRL3_C
/// (`r0`), write it with the reset bit, wait, read the identification, read CTRL3_C (`r1`),
/// write it with block data update and auto-increment, read CTRL1_XL (`c1`) and CTRL2_G
/// (`c2`), and finish with `c1` and `c2`.
pub proof fn lemma_init_sequence(r0: u8, r1: u8, c1: u8, c2: u8, w0: u8, w1: u8, d: u8)
    ensures
        ({
            let s1 = init_transition(InitStage::ResetRead, InitOutcome::Done(r0));
            let s2 = init_transition(s1.0, InitOutcome::Done(w0));
            let s3 = init_transition(s2.0, InitOutcome::Done(d));
            let s4 = init_transition(s3.0, InitOutcome::Done(WHOAMI));
            let s5 = init_transition(s4.0, InitOutcome::Done(r1));
            let s6 = init_transition(s5.0, InitOutcome::Done(w1));
            let s7 = init_transition(s6.0, InitOutcome::Done(c1));
            let s8 = init_transition(s7.0, InitOutcome::Done(c2));
            &&& s1.1 == InitAction::Write(CTRL3_C, r0 | 0x01)
            &&& s2.1 == InitAction::DelayMs(RESET_SETTLE_MS)
            &&& s3.1 == InitAction::Read(WHO_AM_I)
            &&& s4.1 == InitAction::Read(CTRL3_C)
            &&& s5.1 == InitAction::Write(CTRL3_C, r1 | 0x44)
            &&& s6.1 == InitAction::Read(CTRL1_XL)
            &&& s7.1 == InitAction::Read(CTRL2_G)
            &&& s8 == (InitStage::Finished, InitAction::Finish(c1, c2))
        }),
{
}

/// An initialisation fails as soon as a transaction fails, wherever it stands, and never
/// goes on after it has ended.
pub proof fn lemma_init_bus_error_fails(stage: InitStage, outcome: InitOutcome)
    ensures
        !(stage is Finished || stage is Failed) ==> init_transition(stage, InitOutcome::BusFailed)
            == (InitStage::Failed, InitAction::FailBus),
        (stage is Finished || stage is Failed) ==> init_transition(stage, outcome) == (
            stage,
            InitAction::Idle,
        ),
{
}

/// CTRL3_C with the software-reset bit (bit 0) set and every other bit kept.
pub fn ctrl3_c_with_reset(r: u8) -> (out: u8)
    ensures
        out == r | 0x01,
        field_u8(out, 0, 1) == 1,
        out & 0xFE == r & 0xFE,
{
    let out = r | 0x01;
    assert(((out >> 0u8) & 1) == 1 && out & 0xFE == r & 0xFE) by (bit_vector)
        requires
            out == r | 0x01,
    ;
    out
}

/// CTRL3_C with block data update (bit 6) and address auto-increment (bit 2) set and every
/// other bit kept.
pub fn ctrl3_c_with_bdu_and_increment(r: u8) -> (out: u8)
    ensures
        field_u8(out, 6, 1) == 1,
        out == r | 0x44,
        field_u8(out, 2, 1) == 1,
        out & 0xBB == r & 0xBB,
{
    let out = r | 0x44;
    assert(((out >> 6u8) & 1) == 1 && ((out >> 2u8) & 1) == 1 && out & 0xBB == r & 0xBB)
        by (bit_vector)
        requires
            out == r | 0x44,
    ;
    out
}

fn with_rate_and_scale(r: u8, rate: Option<u8>, scale: Option<u8>) -> (out: u8)
    requires
        scale is Some ==> scale->0 < 4,
    ensures
        field_u8(out, 4, 15) == (match rate {
            Some(v) => v & 15,
            None => field_u8(r, 4, 15),
        }),
        field_u8(out, 2, 3) == (match scale {
            Some(v) => v,
            None => field_u8(r, 2, 3),
        }),
        field_u8(out, 0, 3) == field_u8(r, 0, 3),
{
    let x: u8 = match rate {
        Some(v) => v,
        None => r >> 4,
    };
    let o: u8 = x & 15;
    let y: u8 = (r >> 2) & 3;
    assert(o < 16 && y < 4 && (r >> 4) & 15 == ((r >> 4) & 15)) by (bit_vector)
        requires
            o == x & 15,
            y == (r >> 2) & 3,
    ;
    let f: u8 = match scale {
        Some(v) => v,
        None => y,
    };
    let out = (o << 4) | (f << 2) | (r & 3);
    assert(((out >> 4u8) & 15) == o && ((out >> 2u8) & 3) == f && ((out >> 0u8) & 3) == ((r >> 0u8)
        & 3)) by (bit_vector)
        requires
            out == (o << 4) | (f << 2) | (r & 3),
            o < 16,
            f < 4,
    ;
    out
}

/// CTRL1_XL after selecting the accelerometer's output data rate (bits 4-7) and range
/// (bits 2-3), each only when given; the low two bits are kept.
pub fn ctrl1_xl_configured(
    r: u8,
    odr: Option<OutputDataRate>,
    full_scale: Option<AccelerometerFullScale>,
) -> (out: u8)
    ensures
        field_u8(out, 4, 15) == (match odr {
            Some(o) => odr_code(o) & 15,
            None => field_u8(r, 4, 15),
        }),
        field_u8(out, 2, 3) == (match full_scale {
            Some(f) => accel_fs_code(f),
            None => field_u8(r, 2, 3),
        }),
        field_u8(out, 0, 3) == field_u8(r, 0, 3),
{
    let rate = match odr {
        Some(o) => Some(o.bits()),
        None => None,
    };
    let scale = match full_scale {
        Some(f) => Some(f.bits()),
        None => None,
    };
    with_rate_and_scale(r, rate, scale)
}

/// CTRL2_G after selecting the gyroscope's output data rate (bits 4-7) and range (bits 2-3),
/// each only when given; the low two bits are kept.
pub fn ctrl2_g_configured(
    r: u8,
    odr: Option<OutputDataRate>,
    full_scale: Option<GyroscopeFullScale>,
) -> (out: u8)
    ensures
        field_u8(out, 4, 15) == (match odr {
            Some(o) => odr_code(o) & 15,
            None => field_u8(r, 4, 15),
        }),
        field_u8(out, 2, 3) == (match full_scale {
            Some(f) => gyro_fs_code(f),
            None => field_u8(r, 2, 3),
        }),
        field_u8(out, 0, 3) == field_u8(r, 0, 3),
{
    let rate = match odr {
        Some(o) => Some(o.bits()),
        None => None,
    };
    let scale = match full_scale {
        Some(f) => Some(f.bits()),
        None => None,
    };
    with_rate_and_scale(r, rate, scale)
}

/// The accelerometer range that a CTRL1_XL value selects (bits 2-3).
pub fn accel_full_scale_of_ctrl1_xl(r: u8) -> (fs: AccelerometerFullScale)
    ensures
        fs == accel_fs_of(field_u8(r, 2, 3)),
{
    AccelerometerFullScale::from_bits((r >> 2) & 3)
}

/// The gyroscope range that a CTRL2_G value selects (bits 2-3).
pub fn gyro_full_scale_of_ctrl2_g(r: u8) -> (fs: GyroscopeFullScale)
    ensures
        fs == gyro_fs_of(field_u8(r, 2, 3)),
{
    GyroscopeFullScale::from_bits((r >> 2) & 3)
}

/// A range written into CTRL1_XL reads back as the same range, and every FS_XL field value
/// names exactly one range.
pub proof fn lemma_accel_full_scale_round_trip(fs: AccelerometerFullScale, code: u8)
    ensures
        accel_fs_of(accel_fs_code(fs)) == fs,
        accel_fs_code(accel_fs_of(code)) == code % 4,
{
}

/// A range written into CTRL2_G reads back as the same range, and every FS_G field value
/// names exactly one range.
pub proof fn lemma_gyro_full_scale_round_trip(fs: GyroscopeFullScale, code: u8)
    ensures
        gyro_fs_of(gyro_fs_code(fs)) == fs,
        gyro_fs_code(gyro_fs_of(code)) == code % 4,
{
}

/// FIFO_CTRL4 with the FIFO mode (bits 0-2) replaced and the other bits kept.
pub fn fifo_ctrl4_with_mode(r: u8, mode: FifoMode) -> (out: u8)
    ensures
        field_u8(out, 0, 7) == fifo_mode_code(mode) & 7,
        out & 0xF8 == r & 0xF8,
{
    let m = fifo_mode_bits(mode);
    let out = (r & 0xF8) | (m & 7);
    assert(((out >> 0u8) & 7) == m & 7 && out & 0xF8 == r & 0xF8) by (bit_vector)
        requires
            out == (r & 0xF8) | (m & 7),
    ;
    out
}

/// FIFO_CTRL4 after selecting the temperature batch rate (bits 4-5) and the timestamp
/// decimation (bits 6-7), each only when given; the low nibble is kept.
pub fn fifo_ctrl4_with_batching(
    r: u8,
    temperature: Option<TempBatchDataRate>,
    timestamp: Option<DecTsBatch>,
) -> (out: u8)
    ensures
        field_u8(out, 4, 3) == (match temperature {
            Some(t) => temp_bdr_code(t),
            None => field_u8(r, 4, 3),
        }),
        field_u8(out, 6, 3) == (match timestamp {
            Some(d) => dec_ts_code(d),
            None => field_u8(r, 6, 3),
        }),
        field_u8(out, 0, 15) == field_u8(r, 0, 15),
{
    let t: u8 = match temperature {
        Some(t) => temp_bdr_bits(t),
        None => (r >> 4) & 3,
    };
    let d: u8 = match timestamp {
        Some(d) => dec_ts_bits(d),
        None => (r >> 6) & 3,
    };
    assert(((r >> 4u8) & 3) < 4 && ((r >> 6u8) & 3) < 4) by (bit_vector);
    let out = (d << 6) | (t << 4) | (r & 15);
    assert(((out >> 4u8) & 3) == t && ((out >> 6u8) & 3) == d && ((out >> 0u8) & 15) == ((r >> 0u8)
        & 15)) by (bit_vector)
        requires
            out == (d << 6) | (t << 4) | (r & 15),
            t < 4,
            d < 4,
    ;
    out
}

/// FIFO_CTRL3 after selecting the gyroscope batch rate (bits 4-7) and the accelerometer batch
/// rate (bits 0-3), each only when given.
pub fn fifo_ctrl3_with_rates(
    r: u8,
    gyroscope: Option<BatchDataRate>,
    accelerometer: Option<BatchDataRate>,
) -> (out: u8)
    ensures
        field_u8(out, 4, 15) == (match gyroscope {
            Some(b) => bdr_code(b) & 15,
            None => field_u8(r, 4, 15),
        }),
        field_u8(out, 0, 15) == (match accelerometer {
            Some(b) => bdr_code(b) & 15,
            None => field_u8(r, 0, 15),
        }),
{
    let gx: u8 = match gyroscope {
        Some(b) => b.bits(),
        None => r >> 4,
    };
    let ax: u8 = match accelerometer {
        Some(b) => b.bits(),
        None => r,
    };
    let g = gx & 15;
    let a = ax & 15;
    assert(g < 16 && a < 16) by (bit_vector)
        requires
            g == gx & 15,
            a == ax & 15,
    ;
    let out = (g << 4) | a;
    assert(((out >> 4u8) & 15) == g && ((out >> 0u8) & 15) == a) by (bit_vector)
        requires
            out == (g << 4) | a,
            g < 16,
            a < 16,
    ;
    assert(a == (match accelerometer {
        Some(b) => bdr_code(b) & 15,
        None => field_u8(r, 0, 15),
    })) by {
        assert((r >> 0u8) == r) by (bit_vector);
    }
    out
}

/// The two bytes of FIFO_CTRL1/FIFO_CTRL2 after setting the 9-bit watermark (bits 0-8) and the
/// stop-on-watermark flag (bit 15); the other bits of the second byte are kept.
pub fn fifo_ctrl1_and_2_configured(lo: u8, hi: u8, watermark: u16, stop_on_watermark: bool) -> (out:
    (u8, u8))
    ensures
        out.0 == watermark % 256,
        field_u8(out.1, 0, 1) == (watermark / 256) % 2,
        field_u8(out.1, 7, 1) == (if stop_on_watermark {
            1u8
        } else {
            0u8
        }),
        out.1 & 0x7E == hi & 0x7E,
{
    let low: u8 = (watermark % 256) as u8;
    let w8: u8 = ((watermark / 256) % 2) as u8;
    let s: u8 = if stop_on_watermark {
        1
    } else {
        0
    };
    let high = (hi & 0x7E) | w8 | (s << 7);
    assert(((high >> 0u8) & 1) == w8 && ((high >> 7u8) & 1) == s && high & 0x7E == hi & 0x7E)
        by (bit_vector)
        requires
            high == (hi & 0x7E) | w8 | (s << 7),
            w8 < 2,
            s < 2,
    ;
    (low, high)
}

/// Sources routed to the INT1 pin.
#[derive(Debug, Clone, Copy, Default)]
pub struct Int1Config {
    /// Sends DEN_DRDY (data enable stamped data ready) to INT1.
    pub den_drdy_flag: bool,
    /// COUNTER_BDR_IA interrupt.
    pub cnt_bdr: bool,
    /// FIFO full interrupt.
    pub fifo_full: bool,
    /// FIFO overrun interrupt.
    pub fifo_ovr: bool,
    /// FIFO threshold interrupt.
    pub fifo_th: bool,
    /// Boot status.
    pub boot: bool,
    /// Gyroscope data ready.
    pub drdy_g: bool,
    /// Accelerometer data ready.
    pub drdy_xl: bool,
}

/// Sources routed to the INT2 pin.
#[derive(Debug, Clone, Copy, Default)]
pub struct Int2Config {
    /// COUNTER_BDR_IA interrupt.
    pub cnt_bdr: bool,
    /// FIFO full interrupt.
    pub fifo_full: bool,
    /// FIFO overrun interrupt.
    pub fifo_ovr: bool,
    /// FIFO threshold interrupt.
    pub fifo_th: bool,
    /// Temperature data ready.
    pub drdy_temp: bool,
    /// Gyroscope data ready.
    pub drdy_g: bool,
    /// Accelerometer data ready.
    pub drdy_xl: bool,
}

/// 1 for a set flag, 0 otherwise.
pub open spec fn bit(b: bool) -> int {
    if b {
        1
    } else {
        0
    }
}

fn bit_value(b: bool, weight: u8) -> (r: u8)
    ensures
        r == bit(b) * weight,
{
    if b {
        weight
    } else {
        0
    }
}

/// The INT1_CTRL value written for `cfg`, starting from the register's reset value 0:
/// COUNTER_BDR bit 6, FIFO full 5, overrun 4, threshold 3, boot 2, gyroscope ready 1,
/// accelerometer ready 0. The DEN_DRDY flag (bit 7) is left clear.
pub fn int1_ctrl_value(cfg: Int1Config) -> (r: u8)
    ensures
        r == 64 * bit(cfg.cnt_bdr) + 32 * bit(cfg.fifo_full) + 16 * bit(cfg.fifo_ovr) + 8 * bit(
            cfg.fifo_th,
        ) + 4 * bit(cfg.boot) + 2 * bit(cfg.drdy_g) + bit(cfg.drdy_xl),
{
    bit_value(cfg.cnt_bdr, 64) + bit_value(cfg.fifo_full, 32) + bit_value(cfg.fifo_ovr, 16)
        + bit_value(cfg.fifo_th, 8) + bit_value(cfg.boot, 4) + bit_value(cfg.drdy_g, 2) + bit_value(
        cfg.drdy_xl,
        1,
    )
}

/// The INT2_CTRL value written for `cfg`, starting from the register's reset value 0:
/// COUNTER_BDR bit 6, FIFO full 5, overrun 4, threshold 3, temperature ready 2,
/// gyroscope ready 1, accelerometer ready 0.
pub fn int2_ctrl_value(cfg: Int2Config) -> (r: u8)
    ensures
        r == 64 * bit(cfg.cnt_bdr) + 32 * bit(cfg.fifo_full) + 16 * bit(cfg.fifo_ovr) + 8 * bit(
            cfg.fifo_th,
        ) + 4 * bit(cfg.drdy_temp) + 2 * bit(cfg.drdy_g) + bit(cfg.drdy_xl),
{
    bit_value(cfg.cnt_bdr, 64) + bit_value(cfg.fifo_full, 32) + bit_value(cfg.fifo_ovr, 16)
        + bit_value(cfg.fifo_th, 8) + bit_value(cfg.drdy_temp, 4) + bit_value(cfg.drdy_g, 2)
        + bit_value(cfg.drdy_xl, 1)
}

/// The number of unread FIFO frames: the low byte from FIFO_STATUS1 and the two low bits of
/// FIFO_STATUS2 above it.
pub fn fifo_level(status1: u8, status2: u8) -> (r: u16)
    ensures
        r == (status2 % 4) * 256 + status1,
{
    ((status2 % 4) as u16) * 256 + (status1 as u16)
}

/// Data-ready flags of the STATUS_REG register.
#[derive(Debug, Clone, Copy, PartialEq, Eq, Structural)]
pub struct StatusReg {
    /// New temperature data (bit 2).
    pub tda: bool,
    /// New gyroscope data (bit 1).
    pub gda: bool,
    /// New accelerometer data (bit 0).
    pub xlda: bool,
}

impl StatusReg {
    /// The flags of a STATUS_REG value.
    pub fn from_bits(b: u8) -> (r: StatusReg)
        ensures
            r.tda == ((b / 4) % 2 == 1),
            r.gda == ((b / 2) % 2 == 1),
            r.xlda == (b % 2 == 1),
    {
        StatusReg { tda: (b / 4) % 2 == 1, gda: (b / 2) % 2 == 1, xlda: b % 2 == 1 }
    }
}

/// The three signed words of a six-byte output register, little-endian, as accelerations.
pub fn acceleration_from_bytes(b: &[u8]) -> (r: AccelerationRaw)
    requires
        b@.len() >= 6,
    ensures
        r.x == le_i16(b@[0], b@[1]),
        r.y == le_i16(b@[2], b@[3]),
        r.z == le_i16(b@[4], b@[5]),
{
    AccelerationRaw {
        x: i16_from_le(b[0], b[1]),
        y: i16_from_le(b[2], b[3]),
        z: i16_from_le(b[4], b[5]),
    }
}

/// The three signed words of a six-byte output register, little-endian, as angular rates.
pub fn angular_rate_from_bytes(b: &[u8]) -> (r: AngularRateRaw)
    requires
        b@.len() >= 6,
    ensures
        r.x == le_i16(b@[0], b@[1]),
        r.y == le_i16(b@[2], b@[3]),
        r.z == le_i16(b@[4], b@[5]),
{
    AngularRateRaw {
        x: i16_from_le(b[0], b[1]),
        y: i16_from_le(b[2], b[3]),
        z: i16_from_le(b[4], b[5]),
    }
}

/// The signed word of the two-byte temperature output register.
pub fn temperature_from_bytes(b: &[u8]) -> (r: TemperatureRaw)
    requires
        b@.len() >= 2,
    ensures
        r.value == le_i16(b@[0], b@[1]),
{
    TemperatureRaw { value: i16_from_le(b[0], b[1]) }
}

/// The twelve bytes of the combined output: gyroscope words first, accelerometer words after.
pub fn gyro_and_accel_from_bytes(b: &[u8]) -> (r: (AccelerationRaw, AngularRateRaw))
    requires
        b@.len() >= 12,
    ensures
        r.1.x == le_i16(b@[0], b@[1]),
        r.1.y == le_i16(b@[2], b@[3]),
        r.1.z == le_i16(b@[4], b@[5]),
        r.0.x == le_i16(b@[6], b@[7]),
        r.0.y == le_i16(b@[8], b@[9]),
        r.0.z == le_i16(b@[10], b@[11]),
{
    let gyro = angular_rate_from_bytes(b);
    let accel = AccelerationRaw {
        x: i16_from_le(b[6], b[7]),
        y: i16_from_le(b[8], b[9]),
        z: i16_from_le(b[10], b[11]),
    };
    (accel, gyro)
}

/// Whether an identification value is that of an LSM6DSO32.
pub fn whoami_matches(ident: u8) -> (r: bool)
    ensures
        r == (ident == WHOAMI),
{
    ident == WHOAMI
}

/// How many FIFO frames one burst read fills into a buffer of `len` frames.
pub fn fifo_read_count(len: usize) -> (r: usize)
    ensures
        r == (if len < MAX_FIFO_DATA {
            len
        } else {
            MAX_FIFO_DATA
        }),
{
    if len < MAX_FIFO_DATA {
        len
    } else {
        MAX_FIFO_DATA
    }
}

/// Splits the bytes of a FIFO burst read into frames: frame `i` of `data` gets bytes
/// `7 * i .. 7 * i + 7` of `buf`, for every frame that `buf` holds in full; the rest of `data`
/// is left as it was.
pub fn fill_fifo_frames(data: &mut [FifoDataOut], buf: &[u8]) -> (count: usize)
    ensures
        count as int == (if old(data)@.len() < buf@.len() / 7 {
            old(data)@.len() as int
        } else {
            (buf@.len() / 7) as int
        }),
        final(data)@.len() == old(data)@.len(),
        forall|i: int|
            0 <= i < count ==> #[trigger] final(data)@[i].bytes() == buf@.subrange(7 * i, 7 * i + 7),
        forall|i: int| count <= i < old(data)@.len() ==> #[trigger] final(data)@[i] == old(data)@[i],
{
    let n = data.len();
    let avail = buf.len() / 7;
    let count = if n < avail {
        n
    } else {
        avail
    };
    let mut i: usize = 0;
    let mut off: usize = 0;
    while i < count
        invariant
            count <= n == data@.len() == old(data)@.len(),
            count <= buf@.len() / 7,
            i <= count,
            off == 7 * i,
            forall|k: int| 0 <= k < i ==> #[trigger] data@[k].bytes() == buf@.subrange(7 * k, 7 * k + 7),
            forall|k: int| i <= k < n ==> #[trigger] data@[k] == old(data)@[k],
        decreases count - i,
    {
        let frame: [u8; 7] = [
            buf[off],
            buf[off + 1],
            buf[off + 2],
            buf[off + 3],
            buf[off + 4],
            buf[off + 5],
            buf[off + 6],
        ];
        let f = FifoDataOut::from_bytes(frame);
        assert(frame@ =~= buf@.subrange(7 * i, 7 * i + 7));
        data[i] = f;
        i += 1;
        off += 7;
    }
    count
}

/// Marks a driver whose sensor has been initialised.
pub struct Initialised;

/// Marks a driver whose sensor has not been initialised yet.
pub struct Uninitialised;

/// The LSM6DSO32 driver: the register interface, the measurement ranges last configured on
/// the sensor, and whether the sensor has been initialised (`S`).
pub struct Lsm6dso32<I, S> {
    interface: I,
    accel_full_scale: AccelerometerFullScale,
    gyro_full_scale: GyroscopeFullScale,
    _state: PhantomData<S>,
}

impl<I, S> Lsm6dso32<I, S> {
    /// The register interface.
    pub closed spec fn interface_of(&self) -> I {
        self.interface
    }

    /// The accelerometer range the driver converts with.
    pub closed spec fn accel_scale(&self) -> AccelerometerFullScale {
        self.accel_full_scale
    }

    /// The gyroscope range the driver converts with.
    pub closed spec fn gyro_scale(&self) -> GyroscopeFullScale {
        self.gyro_full_scale
    }

    /// A driver on `interface`, not yet initialised, with the sensor's reset ranges
    /// (±4 g, ±250 dps).
    pub fn new(interface: I) -> (r: Lsm6dso32<I, Uninitialised>)
        ensures
            r.interface_of() == interface,
            r.accel_scale() == AccelerometerFullScale::G4,
            r.gyro_scale() == GyroscopeFullScale::Dps250,
    {
        Lsm6dso32 {
            interface,
            accel_full_scale: AccelerometerFullScale::G4,
            gyro_full_scale: GyroscopeFullScale::Dps250,
            _state: PhantomData,
        }
    }

    /// The register interface.
    pub fn inner(&self) -> (r: &I)
        ensures
            *r == self.interface_of(),
    {
        &self.interface
    }

    /// The register interface, for changes.
    pub fn inner_mut(&mut self) -> (r: &mut I)
        ensures
            *r == old(self).interface_of(),
            final(self).interface_of() == *final(r),
            final(self).accel_scale() == old(self).accel_scale(),
            final(self).gyro_scale() == old(self).gyro_scale(),
    {
        &mut self.interface
    }

    /// Gives the register interface back.
    pub fn destroy(self) -> (r: I)
        ensures
            r == self.interface_of(),
    {
        self.interface
    }

    /// The same driver marked as not initialised, as after a software reset.
    pub fn into_uninitialised(self) -> (r: Lsm6dso32<I, Uninitialised>)
        ensures
            r.interface_of() == self.interface_of(),
            r.accel_scale() == self.accel_scale(),
            r.gyro_scale() == self.gyro_scale(),
    {
        Lsm6dso32 {
            interface: self.interface,
            accel_full_scale: self.accel_full_scale,
            gyro_full_scale: self.gyro_full_scale,
            _state: PhantomData,
        }
    }
}

impl<I> Lsm6dso32<I, Uninitialised> {
    /// The initialised driver, with the ranges read back from CTRL1_XL and CTRL2_G.
    pub fn into_initialised(self, ctrl1_xl: u8, ctrl2_g: u8) -> (r: Lsm6dso32<I, Initialised>)
        ensures
            r.interface_of() == self.interface_of(),
            r.accel_scale() == accel_fs_of(field_u8(ctrl1_xl, 2, 3)),
            r.gyro_scale() == gyro_fs_of(field_u8(ctrl2_g, 2, 3)),
    {
        Lsm6dso32 {
            interface: self.interface,
            accel_full_scale: accel_full_scale_of_ctrl1_xl(ctrl1_xl),
            gyro_full_scale: gyro_full_scale_of_ctrl2_g(ctrl2_g),
            _state: PhantomData,
        }
    }
}

impl<I> Lsm6dso32<I, Initialised> {
    /// The accelerometer's current range.
    pub fn accel_full_scale(&self) -> (r: AccelerometerFullScale)
        ensures
            r == self.accel_scale(),
    {
        self.accel_full_scale
    }

    /// The gyroscope's current range.
    pub fn gyro_full_scale(&self) -> (r: GyroscopeFullScale)
        ensures
            r == self.gyro_scale(),
    {
        self.gyro_full_scale
    }

    /// Records the accelerometer range after it was written to the sensor; `None` keeps it.
    pub fn record_accelerometer_full_scale(&mut self, full_scale: Option<AccelerometerFullScale>)
        ensures
            final(self).accel_scale() == (match full_scale {
                Some(f) => f,
                None => old(self).accel_scale(),
            }),
            final(self).gyro_scale() == old(self).gyro_scale(),
            final(self).interface_of() == old(self).interface_of(),
    {
        if let Some(f) = full_scale {
            self.accel_full_scale = f;
        }
    }

    /// Records the gyroscope range after it was written to the sensor; `None` keeps it.
    pub fn record_gyroscope_full_scale(&mut self, full_scale: Option<GyroscopeFullScale>)
        ensures
            final(self).gyro_scale() == (match full_scale {
                Some(f) => f,
                None => old(self).gyro_scale(),
            }),
            final(self).accel_scale() == old(self).accel_scale(),
            final(self).interface_of() == old(self).interface_of(),
    {
        if let Some(f) = full_scale {
            self.gyro_full_scale = f;
        }
    }
}

/// Why initialisation failed, with the sensor handed back.
pub struct InitError<I, E> {
    pub kind: InitErrorKind<E>,
    pub sensor: Lsm6dso32<I, Uninitialised>,
}

/// The cause of a failed initialisation.
#[derive(Debug, Clone, Copy)]
pub enum InitErrorKind<E> {
    /// The bus reported an error.
    BusError(E),
    /// The identification register did not read `WHOAMI`: the device is no LSM6DSO32 or is
    /// not working.
    WhoamiMismatch,
}

/// The SPI bus of the sensor; a transfer's first byte is the register address, with bit 7
/// set for a read.
pub struct Lsm6Dso32SpiInterface<SPI> {
    pub spi: SPI,
}

/// The address byte that starts an SPI register write: bit 7 cleared.
pub fn spi_write_address(address: u8) -> (r: u8)
    ensures
        r == address % 128,
{
    let r = address & 0x7F;
    assert(address & 0x7F == address % 128) by (bit_vector);
    r
}

/// The address byte that starts an SPI register read: bit 7 set.
pub fn spi_read_address(address: u8) -> (r: u8)
    ensures
        r == address % 128 + 128,
{
    let r = address | 0x80;
    assert(address | 0x80 == address % 128 + 128) by (bit_vector);
    r
}


/// The register field values of the LSM6DSO32's settings, as its datasheet lists them: full
/// scales (FS_XL: ±4 g 0, ±32 g 1, ±8 g 2, ±16 g 3; FS_G: 250 dps 0 up to 2000 dps 3), output
/// and batching data rates, timestamp decimation and FIFO modes.
pub proof fn lemma_register_field_values()
    ensures
        accel_fs_code(AccelerometerFullScale::G4) == 0u8,
        accel_fs_code(AccelerometerFullScale::G32) == 1u8,
        accel_fs_code(AccelerometerFullScale::G8) == 2u8,
        accel_fs_code(AccelerometerFullScale::G16) == 3u8,
        gyro_fs_code(GyroscopeFullScale::Dps250) == 0u8,
        gyro_fs_code(GyroscopeFullScale::Dps500) == 1u8,
        gyro_fs_code(GyroscopeFullScale::Dps1000) == 2u8,
        gyro_fs_code(GyroscopeFullScale::Dps2000) == 3u8,
        odr_code(OutputDataRate::PowerDown) == 0u8,
        odr_code(OutputDataRate::Hz12_5) == 1u8,
        odr_code(OutputDataRate::Hz26) == 2u8,
        odr_code(OutputDataRate::Hz52) == 3u8,
        odr_code(OutputDataRate::Hz104) == 4u8,
        odr_code(OutputDataRate::Hz208) == 5u8,
        odr_code(OutputDataRate::Hz416) == 6u8,
        odr_code(OutputDataRate::Hz833) == 7u8,
        odr_code(OutputDataRate::Hz1667) == 8u8,
        odr_code(OutputDataRate::Hz3333) == 9u8,
        odr_code(OutputDataRate::Hz6667) == 10u8,
        odr_code(OutputDataRate::Hz1_6) == 11u8,
        bdr_code(BatchDataRate::NotBatched) == 0u8,
        bdr_code(BatchDataRate::Hz12_5) == 1u8,
        bdr_code(BatchDataRate::Hz26) == 2u8,
        bdr_code(BatchDataRate::Hz52) == 3u8,
        bdr_code(BatchDataRate::Hz104) == 4u8,
        bdr_code(BatchDataRate::Hz208) == 5u8,
        bdr_code(BatchDataRate::Hz417) == 6u8,
        bdr_code(BatchDataRate::Hz833) == 7u8,
        bdr_code(BatchDataRate::Hz1667) == 8u8,
        bdr_code(BatchDataRate::Hz3333) == 9u8,
        bdr_code(BatchDataRate::Hz6667) == 10u8,
        bdr_code(BatchDataRate::Hz6_5) == 11u8,
        temp_bdr_code(TempBatchDataRate::NotBatched) == 0u8,
        temp_bdr_code(TempBatchDataRate::Hz1) == 1u8,
        temp_bdr_code(TempBatchDataRate::Hz12_5) == 2u8,
        temp_bdr_code(TempBatchDataRate::Hz52) == 3u8,
        dec_ts_code(DecTsBatch::NotBatched) == 0u8,
        dec_ts_code(DecTsBatch::Dec1) == 1u8,
        dec_ts_code(DecTsBatch::Dec8) == 2u8,
        dec_ts_code(DecTsBatch::Dec32) == 3u8,
        fifo_mode_code(FifoMode::Bypass) == 0u8,
        fifo_mode_code(FifoMode::Fifo) == 1u8,
        fifo_mode_code(FifoMode::ContinuousToFifo) == 3u8,
        fifo_mode_code(FifoMode::BypassToContinuous) == 4u8,
        fifo_mode_code(FifoMode::Continuous) == 6u8,
        fifo_mode_code(FifoMode::BypassToFifo) == 7u8,
        accel_fs_of(0) == AccelerometerFullScale::G4,
        accel_fs_of(1) == AccelerometerFullScale::G32,
        accel_fs_of(2) == AccelerometerFullScale::G8,
        accel_fs_of(3) == AccelerometerFullScale::G16,
        gyro_fs_of(0) == GyroscopeFullScale::Dps250,
        gyro_fs_of(1) == GyroscopeFullScale::Dps500,
        gyro_fs_of(2) == GyroscopeFullScale::Dps1000,
        gyro_fs_of(3) == GyroscopeFullScale::Dps2000,
{
}

} // verus!
