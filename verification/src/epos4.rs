//! Maxon EPOS4 serial protocol (Maxon Serial V2): error codes, the CiA 402
//! status word, object access words, byte stuffing and the CRC-CCITT check.
//!
//! The asynchronous driver that moves these frames over a serial port stands
//! outside this crate; every decision it takes on the words it sends and
//! receives is made here.
use vstd::prelude::*;

verus! {

/// Escape byte of the data link layer; inside a frame it is doubled.
pub const DATA_LINK_ESCAPE: u8 = 0x90;

/// Start of a frame, sent after one (unstuffed) escape byte.
pub const START_OF_TEXT: u8 = 0x02;

/// Op code of an object write request.
pub const OPCODE_WRITE_OBJECT: u8 = 0x68;

/// Op code of an object read request.
pub const OPCODE_READ_OBJECT: u8 = 0x60;

// CiA 402 object dictionary indices
pub const CONTROL_WORD: u16 = 0x6040;
pub const STATUS_WORD: u16 = 0x6041;
pub const MODES_OF_OPERATION: u16 = 0x6060;
pub const POSITION_ACTUAL_VALUE: u16 = 0x6064;
pub const VELOCITY_ACTUAL_VALUE: u16 = 0x606C;
pub const TARGET_POSITION: u16 = 0x607A;
pub const PROFILE_VELOCITY: u16 = 0x6081;
pub const PROFILE_ACCELERATION: u16 = 0x6083;
pub const PROFILE_DECELERATION: u16 = 0x6084;
pub const HOMING_METHOD: u16 = 0x6098;
pub const HOMING_SPEEDS: u16 = 0x6099;
pub const HOMING_ACCELERATION: u16 = 0x609A;
pub const TARGET_VELOCITY: u16 = 0x60FF;

// Manufacturer-specific object dictionary indices
pub const MOTOR_DATA: u16 = 0x3001;
pub const HOME_OFFSET_MOVE_DISTANCE: u16 = 0x30B1;
pub const CURRENT_ACTUAL_VALUES: u16 = 0x30D1;
pub const PROGRAM_CONTROL: u16 = 0x1F51;
pub const MOTOR_TYPE: u16 = 0x6402;

/// The primary error type of the EPOS4 driver.
#[derive(Debug)]
pub enum Epos4Error<E> {
    /// An error occurred in the underlying communication interface.
    Interface(E),
    /// A protocol framing error occurred (bad sync bytes, CRC mismatch, ...).
    Framing,
    /// The device is in a FAULT state and cannot perform the operation.
    DeviceInFaultState,
    /// The device reported a specific error in its response.
    Device(DeviceError),
    /// No response came in time.
    Timeout,
}

/// Error codes returned by the EPOS4 controller in a response frame
/// (the SDO abort codes of the EPOS Command Library).
#[derive(Debug, Clone, Copy, PartialEq, Eq, Structural)]
pub enum DeviceError {
    NoError,
    ToggleError,
    SdoTimeout,
    ClientServerSpecifierError,
    InvalidBlockSize,
    InvalidSequence,
    SdoCrcError,
    OutOfMemoryError,
    AccessError,
    WriteOnlyError,
    ReadOnlyError,
    ObjectNotExistError,
    PdoMappingError,
    PdoLengthError,
    GeneralParameterError,
    GeneralInternalIncompatibilityError,
    HardwareError,
    ServiceParameterError,
    ServiceParameterTooHigh,
    ServiceParameterTooLow,
    SubindexError,
    ValueRangeError,
    ValueTooHigh,
    ValueTooLow,
    MaxLessThanMinError,
    GeneralError,
    TransferOrStoreError,
    LocalControlError,
    WrongDeviceStateError,
    CanIdError,
    PasswordError,
    IllegalCommandError,
    WrongNmtStateError,
    Unknown(u32),
}

/// The 32-bit code that the two error words of a response carry
/// (low word first).
pub open spec fn combine_words(lo: u16, hi: u16) -> u32 {
    (lo as u32 | ((hi as u32) << 16u32)) as u32
}

/// The error that a 32-bit code stands for.
pub open spec fn device_error_of_code(code: u32) -> DeviceError {
    if code == 0x0000_0000 {
        DeviceError::NoError
    } else if code == 0x0503_0000 {
        DeviceError::ToggleError
    } else if code == 0x0504_0000 {
        DeviceError::SdoTimeout
    } else if code == 0x0504_0001 {
        DeviceError::ClientServerSpecifierError
    } else if code == 0x0504_0002 {
        DeviceError::InvalidBlockSize
    } else if code == 0x0504_0003 {
        DeviceError::InvalidSequence
    } else if code == 0x0504_0004 {
        DeviceError::SdoCrcError
    } else if code == 0x0504_0005 {
        DeviceError::OutOfMemoryError
    } else if code == 0x0601_0000 {
        DeviceError::AccessError
    } else if code == 0x0601_0001 {
        DeviceError::WriteOnlyError
    } else if code == 0x0601_0002 {
        DeviceError::ReadOnlyError
    } else if code == 0x0602_0000 {
        DeviceError::ObjectNotExistError
    } else if code == 0x0604_0041 {
        DeviceError::PdoMappingError
    } else if code == 0x0604_0042 {
        DeviceError::PdoLengthError
    } else if code == 0x0604_0043 {
        DeviceError::GeneralParameterError
    } else if code == 0x0604_0047 {
        DeviceError::GeneralInternalIncompatibilityError
    } else if code == 0x0606_0000 {
        DeviceError::HardwareError
    } else if code == 0x0607_0010 {
        DeviceError::ServiceParameterError
    } else if code == 0x0607_0012 {
        DeviceError::ServiceParameterTooHigh
    } else if code == 0x0607_0013 {
        DeviceError::ServiceParameterTooLow
    } else if code == 0x0609_0011 {
        DeviceError::SubindexError
    } else if code == 0x0609_0030 {
        DeviceError::ValueRangeError
    } else if code == 0x0609_0031 {
        DeviceError::ValueTooHigh
    } else if code == 0x0609_0032 {
        DeviceError::ValueTooLow
    } else if code == 0x0609_0036 {
        DeviceError::MaxLessThanMinError
    } else if code == 0x0800_0000 {
        DeviceError::GeneralError
    } else if code == 0x0800_0020 {
        DeviceError::TransferOrStoreError
    } else if code == 0x0800_0021 {
        DeviceError::LocalControlError
    } else if code == 0x0800_0022 {
        DeviceError::WrongDeviceStateError
    } else if code == 0x0F00_FFB9 {
        DeviceError::CanIdError
    } else if code == 0x0F00_FFBE {
        DeviceError::PasswordError
    } else if code == 0x0F00_FFBF {
        DeviceError::IllegalCommandError
    } else if code == 0x0F00_FFC0 {
        DeviceError::WrongNmtStateError
    } else {
        DeviceError::Unknown(code)
    }
}

/// The 32-bit code of an error.
pub open spec fn device_error_code(e: DeviceError) -> u32 {
    match e {
        DeviceError::NoError => 0x0000_0000,
        DeviceError::ToggleError => 0x0503_0000,
        DeviceError::SdoTimeout => 0x0504_0000,
        DeviceError::ClientServerSpecifierError => 0x0504_0001,
        DeviceError::InvalidBlockSize => 0x0504_0002,
        DeviceError::InvalidSequence => 0x0504_0003,
        DeviceError::SdoCrcError => 0x0504_0004,
        DeviceError::OutOfMemoryError => 0x0504_0005,
        DeviceError::AccessError => 0x0601_0000,
        DeviceError::WriteOnlyError => 0x0601_0001,
        DeviceError::ReadOnlyError => 0x0601_0002,
        DeviceError::ObjectNotExistError => 0x0602_0000,
        DeviceError::PdoMappingError => 0x0604_0041,
        DeviceError::PdoLengthError => 0x0604_0042,
        DeviceError::GeneralParameterError => 0x0604_0043,
        DeviceError::GeneralInternalIncompatibilityError => 0x0604_0047,
        DeviceError::HardwareError => 0x0606_0000,
        DeviceError::ServiceParameterError => 0x0607_0010,
        DeviceError::ServiceParameterTooHigh => 0x0607_0012,
        DeviceError::ServiceParameterTooLow => 0x0607_0013,
        DeviceError::SubindexError => 0x0609_0011,
        DeviceError::ValueRangeError => 0x0609_0030,
        DeviceError::ValueTooHigh => 0x0609_0031,
        DeviceError::ValueTooLow => 0x0609_0032,
        DeviceError::MaxLessThanMinError => 0x0609_0036,
        DeviceError::GeneralError => 0x0800_0000,
        DeviceError::TransferOrStoreError => 0x0800_0020,
        DeviceError::LocalControlError => 0x0800_0021,
        DeviceError::WrongDeviceStateError => 0x0800_0022,
        DeviceError::CanIdError => 0x0F00_FFB9,
        DeviceError::PasswordError => 0x0F00_FFBE,
        DeviceError::IllegalCommandError => 0x0F00_FFBF,
        DeviceError::WrongNmtStateError => 0x0F00_FFC0,
        DeviceError::Unknown(c) => c,
    }
}

impl DeviceError {
    /// The error that a 32-bit code stands for; codes that are not listed
    /// become `Unknown`.
    pub fn from_code(code: u32) -> (r: DeviceError)
        ensures
            r == device_error_of_code(code),
    {
        if code == 0x0000_0000 {
            DeviceError::NoError
        } else if code == 0x0503_0000 {
            DeviceError::ToggleError
        } else if code == 0x0504_0000 {
            DeviceError::SdoTimeout
        } else if code == 0x0504_0001 {
            DeviceError::ClientServerSpecifierError
        } else if code == 0x0504_0002 {
            DeviceError::InvalidBlockSize
        } else if code == 0x0504_0003 {
            DeviceError::InvalidSequence
        } else if code == 0x0504_0004 {
            DeviceError::SdoCrcError
        } else if code == 0x0504_0005 {
            DeviceError::OutOfMemoryError
        } else if code == 0x0601_0000 {
            DeviceError::AccessError
        } else if code == 0x0601_0001 {
            DeviceError::WriteOnlyError
        } else if code == 0x0601_0002 {
            DeviceError::ReadOnlyError
        } else if code == 0x0602_0000 {
            DeviceError::ObjectNotExistError
        } else if code == 0x0604_0041 {
            DeviceError::PdoMappingError
        } else if code == 0x0604_0042 {
            DeviceError::PdoLengthError
        } else if code == 0x0604_0043 {
            DeviceError::GeneralParameterError
        } else if code == 0x0604_0047 {
            DeviceError::GeneralInternalIncompatibilityError
        } else if code == 0x0606_0000 {
            DeviceError::HardwareError
        } else if code == 0x0607_0010 {
            DeviceError::ServiceParameterError
        } else if code == 0x0607_0012 {
            DeviceError::ServiceParameterTooHigh
        } else if code == 0x0607_0013 {
            DeviceError::ServiceParameterTooLow
        } else if code == 0x0609_0011 {
            DeviceError::SubindexError
        } else if code == 0x0609_0030 {
            DeviceError::ValueRangeError
        } else if code == 0x0609_0031 {
            DeviceError::ValueTooHigh
        } else if code == 0x0609_0032 {
            DeviceError::ValueTooLow
        } else if code == 0x0609_0036 {
            DeviceError::MaxLessThanMinError
        } else if code == 0x0800_0000 {
            DeviceError::GeneralError
        } else if code == 0x0800_0020 {
            DeviceError::TransferOrStoreError
        } else if code == 0x0800_0021 {
            DeviceError::LocalControlError
        } else if code == 0x0800_0022 {
            DeviceError::WrongDeviceStateError
        } else if code == 0x0F00_FFB9 {
            DeviceError::CanIdError
        } else if code == 0x0F00_FFBE {
            DeviceError::PasswordError
        } else if code == 0x0F00_FFBF {
            DeviceError::IllegalCommandError
        } else if code == 0x0F00_FFC0 {
            DeviceError::WrongNmtStateError
        } else {
            DeviceError::Unknown(code)
        }
    }

    /// The 32-bit code of this error.
    pub fn code(&self) -> (r: u32)
        ensures
            r == device_error_code(*self),
    {
        match self {
            DeviceError::NoError => 0x0000_0000,
            DeviceError::ToggleError => 0x0503_0000,
            DeviceError::SdoTimeout => 0x0504_0000,
            DeviceError::ClientServerSpecifierError => 0x0504_0001,
            DeviceError::InvalidBlockSize => 0x0504_0002,
            DeviceError::InvalidSequence => 0x0504_0003,
            DeviceError::SdoCrcError => 0x0504_0004,
            DeviceError::OutOfMemoryError => 0x0504_0005,
            DeviceError::AccessError => 0x0601_0000,
            DeviceError::WriteOnlyError => 0x0601_0001,
            DeviceError::ReadOnlyError => 0x0601_0002,
            DeviceError::ObjectNotExistError => 0x0602_0000,
            DeviceError::PdoMappingError => 0x0604_0041,
            DeviceError::PdoLengthError => 0x0604_0042,
            DeviceError::GeneralParameterError => 0x0604_0043,
            DeviceError::GeneralInternalIncompatibilityError => 0x0604_0047,
            DeviceError::HardwareError => 0x0606_0000,
            DeviceError::ServiceParameterError => 0x0607_0010,
            DeviceError::ServiceParameterTooHigh => 0x0607_0012,
            DeviceError::ServiceParameterTooLow => 0x0607_0013,
            DeviceError::SubindexError => 0x0609_0011,
            DeviceError::ValueRangeError => 0x0609_0030,
            DeviceError::ValueTooHigh => 0x0609_0031,
            DeviceError::ValueTooLow => 0x0609_0032,
            DeviceError::MaxLessThanMinError => 0x0609_0036,
            DeviceError::GeneralError => 0x0800_0000,
            DeviceError::TransferOrStoreError => 0x0800_0020,
            DeviceError::LocalControlError => 0x0800_0021,
            DeviceError::WrongDeviceStateError => 0x0800_0022,
            DeviceError::CanIdError => 0x0F00_FFB9,
            DeviceError::PasswordError => 0x0F00_FFBE,
            DeviceError::IllegalCommandError => 0x0F00_FFBF,
            DeviceError::WrongNmtStateError => 0x0F00_FFC0,
            DeviceError::Unknown(c) => *c,
        }
    }
}

/// The CANopen abort code of every named device error, as the EPOS4 firmware specification
/// lists them: each error is reported with exactly this code, and this code decodes to it.
pub proof fn lemma_device_error_codes()
    ensures
        device_error_code(DeviceError::NoError) == 0x0000_0000u32,
        device_error_of_code(0x0000_0000u32) == DeviceError::NoError,
        device_error_code(DeviceError::ToggleError) == 0x0503_0000u32,
        device_error_of_code(0x0503_0000u32) == DeviceError::ToggleError,
        device_error_code(DeviceError::SdoTimeout) == 0x0504_0000u32,
        device_error_of_code(0x0504_0000u32) == DeviceError::SdoTimeout,
        device_error_code(DeviceError::ClientServerSpecifierError) == 0x0504_0001u32,
        device_error_of_code(0x0504_0001u32) == DeviceError::ClientServerSpecifierError,
        device_error_code(DeviceError::InvalidBlockSize) == 0x0504_0002u32,
        device_error_of_code(0x0504_0002u32) == DeviceError::InvalidBlockSize,
        device_error_code(DeviceError::InvalidSequence) == 0x0504_0003u32,
        device_error_of_code(0x0504_0003u32) == DeviceError::InvalidSequence,
        device_error_code(DeviceError::SdoCrcError) == 0x0504_0004u32,
        device_error_of_code(0x0504_0004u32) == DeviceError::SdoCrcError,
        device_error_code(DeviceError::OutOfMemoryError) == 0x0504_0005u32,
        device_error_of_code(0x0504_0005u32) == DeviceError::OutOfMemoryError,
        device_error_code(DeviceError::AccessError) == 0x0601_0000u32,
        device_error_of_code(0x0601_0000u32) == DeviceError::AccessError,
        device_error_code(DeviceError::WriteOnlyError) == 0x0601_0001u32,
        device_error_of_code(0x0601_0001u32) == DeviceError::WriteOnlyError,
        device_error_code(DeviceError::ReadOnlyError) == 0x0601_0002u32,
        device_error_of_code(0x0601_0002u32) == DeviceError::ReadOnlyError,
        device_error_code(DeviceError::ObjectNotExistError) == 0x0602_0000u32,
        device_error_of_code(0x0602_0000u32) == DeviceError::ObjectNotExistError,
        device_error_code(DeviceError::PdoMappingError) == 0x0604_0041u32,
        device_error_of_code(0x0604_0041u32) == DeviceError::PdoMappingError,
        device_error_code(DeviceError::PdoLengthError) == 0x0604_0042u32,
        device_error_of_code(0x0604_0042u32) == DeviceError::PdoLengthError,
        device_error_code(DeviceError::GeneralParameterError) == 0x0604_0043u32,
        device_error_of_code(0x0604_0043u32) == DeviceError::GeneralParameterError,
        device_error_code(DeviceError::GeneralInternalIncompatibilityError) == 0x0604_0047u32,
        device_error_of_code(0x0604_0047u32) == DeviceError::GeneralInternalIncompatibilityError,
        device_error_code(DeviceError::HardwareError) == 0x0606_0000u32,
        device_error_of_code(0x0606_0000u32) == DeviceError::HardwareError,
        device_error_code(DeviceError::ServiceParameterError) == 0x0607_0010u32,
        device_error_of_code(0x0607_0010u32) == DeviceError::ServiceParameterError,
        device_error_code(DeviceError::ServiceParameterTooHigh) == 0x0607_0012u32,
        device_error_of_code(0x0607_0012u32) == DeviceError::ServiceParameterTooHigh,
        device_error_code(DeviceError::ServiceParameterTooLow) == 0x0607_0013u32,
        device_error_of_code(0x0607_0013u32) == DeviceError::ServiceParameterTooLow,
        device_error_code(DeviceError::SubindexError) == 0x0609_0011u32,
        device_error_of_code(0x0609_0011u32) == DeviceError::SubindexError,
        device_error_code(DeviceError::ValueRangeError) == 0x0609_0030u32,
        device_error_of_code(0x0609_0030u32) == DeviceError::ValueRangeError,
        device_error_code(DeviceError::ValueTooHigh) == 0x0609_0031u32,
        device_error_of_code(0x0609_0031u32) == DeviceError::ValueTooHigh,
        device_error_code(DeviceError::ValueTooLow) == 0x0609_0032u32,
        device_error_of_code(0x0609_0032u32) == DeviceError::ValueTooLow,
        device_error_code(DeviceError::MaxLessThanMinError) == 0x0609_0036u32,
        device_error_of_code(0x0609_0036u32) == DeviceError::MaxLessThanMinError,
        device_error_code(DeviceError::GeneralError) == 0x0800_0000u32,
        device_error_of_code(0x0800_0000u32) == DeviceError::GeneralError,
        device_error_code(DeviceError::TransferOrStoreError) == 0x0800_0020u32,
        device_error_of_code(0x0800_0020u32) == DeviceError::TransferOrStoreError,
        device_error_code(DeviceError::LocalControlError) == 0x0800_0021u32,
        device_error_of_code(0x0800_0021u32) == DeviceError::LocalControlError,
        device_error_code(DeviceError::WrongDeviceStateError) == 0x0800_0022u32,
        device_error_of_code(0x0800_0022u32) == DeviceError::WrongDeviceStateError,
        device_error_code(DeviceError::CanIdError) == 0x0F00_FFB9u32,
        device_error_of_code(0x0F00_FFB9u32) == DeviceError::CanIdError,
        device_error_code(DeviceError::PasswordError) == 0x0F00_FFBEu32,
        device_error_of_code(0x0F00_FFBEu32) == DeviceError::PasswordError,
        device_error_code(DeviceError::IllegalCommandError) == 0x0F00_FFBFu32,
        device_error_of_code(0x0F00_FFBFu32) == DeviceError::IllegalCommandError,
        device_error_code(DeviceError::WrongNmtStateError) == 0x0F00_FFC0u32,
        device_error_of_code(0x0F00_FFC0u32) == DeviceError::WrongNmtStateError,
{
}


/// Decoding a code and taking the code of the result gives the code back:
/// no two codes name the same error.
pub proof fn lemma_device_error_code_round_trip(code: u32)
    ensures
        device_error_code(device_error_of_code(code)) == code,
{
}

/// Taking the code of an error and decoding it gives the error back, for
/// every error that a response can yield (an `Unknown` code is never one of
/// the listed codes).
pub proof fn lemma_device_error_decode_round_trip(e: DeviceError)
    requires
        e matches DeviceError::Unknown(c) ==> device_error_of_code(c) == e,
    ensures
        device_error_of_code(device_error_code(e)) == e,
{
}

impl From<[u16; 2]> for DeviceError {
    /// Converts the two error words of a response frame (low word first)
    /// into a `DeviceError`.
    fn from(value: [u16; 2]) -> (r: Self) {
        let code: u32 = (value[0] as u32) | ((value[1] as u32) << 16u32);
        DeviceError::from_code(code)
    }
}

impl vstd::std_specs::convert::FromSpecImpl<[u16; 2]> for DeviceError {
    open spec fn obeys_from_spec() -> bool {
        true
    }

    open spec fn from_spec(v: [u16; 2]) -> Self {
        device_error_of_code(combine_words(v@[0], v@[1]))
    }
}

/// The CiA 402 state machine status of the controller.
#[derive(Debug, Clone, Copy, PartialEq, Eq, Structural)]
pub enum EposStatus {
    NotReadyToSwitchOn,
    SwitchOnDisabled,
    ReadyToSwitchOn,
    SwitchedOn,
    OperationEnabled,
    QuickStopActive,
    FaultReactionActive,
    Fault,
    Unknown,
}

/// Bits 6, 5, 3, 2, 1 and 0 of the status word define the state.
pub const STATUS_MASK: u16 = 0b0110_1111;

/// The state that a status word reports.
pub open spec fn epos_status_of(status_word: u16) -> EposStatus {
    let s = status_word & STATUS_MASK;
    if s == 0b0000_0000 {
        EposStatus::NotReadyToSwitchOn
    } else if s == 0b0100_0000 {
        EposStatus::SwitchOnDisabled
    } else if s == 0b0010_0001 {
        EposStatus::ReadyToSwitchOn
    } else if s == 0b0010_0011 {
        EposStatus::SwitchedOn
    } else if s == 0b0010_0111 {
        EposStatus::OperationEnabled
    } else if s == 0b0000_0111 {
        EposStatus::QuickStopActive
    } else if s == 0b0000_1111 {
        EposStatus::FaultReactionActive
    } else if s == 0b0000_1000 {
        EposStatus::Fault
    } else {
        EposStatus::Unknown
    }
}

/// The state of each status-word pattern (bits 6, 5, 3, 2, 1 and 0, as in the CiA 402 state
/// table); the other bits of the word do not matter, and any other pattern is `Unknown`.
pub proof fn lemma_status_word_states()
    ensures
        epos_status_of(0x0000) == EposStatus::NotReadyToSwitchOn,
        epos_status_of(0x0040) == EposStatus::SwitchOnDisabled,
        epos_status_of(0x0021) == EposStatus::ReadyToSwitchOn,
        epos_status_of(0x0023) == EposStatus::SwitchedOn,
        epos_status_of(0x0027) == EposStatus::OperationEnabled,
        epos_status_of(0x0007) == EposStatus::QuickStopActive,
        epos_status_of(0x000F) == EposStatus::FaultReactionActive,
        epos_status_of(0x0008) == EposStatus::Fault,
        epos_status_of(0x0437) == EposStatus::OperationEnabled,
        epos_status_of(0x0018) == EposStatus::Fault,
        epos_status_of(0x0001) == EposStatus::Unknown,
{
    assert(0x0000u16 & 0b0110_1111u16 == 0x0000u16
        && 0x0040u16 & 0b0110_1111u16 == 0x0040u16
        && 0x0021u16 & 0b0110_1111u16 == 0x0021u16
        && 0x0023u16 & 0b0110_1111u16 == 0x0023u16
        && 0x0027u16 & 0b0110_1111u16 == 0x0027u16
        && 0x0007u16 & 0b0110_1111u16 == 0x0007u16
        && 0x000Fu16 & 0b0110_1111u16 == 0x000Fu16
        && 0x0008u16 & 0b0110_1111u16 == 0x0008u16
        && 0x0437u16 & 0b0110_1111u16 == 0x0027u16
        && 0x0018u16 & 0b0110_1111u16 == 0x0008u16
        && 0x0001u16 & 0b0110_1111u16 == 0x0001u16) by (bit_vector);
}

/// The number of each homing method, as the EPOS command library lists them.
pub proof fn lemma_homing_method_numbers()
    ensures
        homing_method_number(HomingMethod::CurrentThresholdNegativeSpeed) == -4i8,
        homing_method_number(HomingMethod::CurrentThresholdPositiveSpeed) == -3i8,
        homing_method_number(HomingMethod::CurrentThresholdNegativeSpeedAndIndex) == -2i8,
        homing_method_number(HomingMethod::CurrentThresholdPositiveSpeedAndIndex) == -1i8,
        homing_method_number(HomingMethod::NegativeLimitSwitchAndIndex) == 1i8,
        homing_method_number(HomingMethod::PositiveLimitSwitchAndIndex) == 2i8,
        homing_method_number(HomingMethod::HomeSwitchPositiveSpeedAndIndex) == 7i8,
        homing_method_number(HomingMethod::HomeSwitchNegativeSpeedAndIndex) == 11i8,
        homing_method_number(HomingMethod::NegativeLimitSwitch) == 17i8,
        homing_method_number(HomingMethod::PositiveLimitSwitch) == 18i8,
        homing_method_number(HomingMethod::HomeSwitchPositiveSpeed) == 23i8,
        homing_method_number(HomingMethod::HomeSwitchNegativeSpeed) == 27i8,
        homing_method_number(HomingMethod::IndexNegativeSpeed) == 33i8,
        homing_method_number(HomingMethod::IndexPositiveSpeed) == 34i8,
        homing_method_number(HomingMethod::CurrentPosition) == 37i8,
{
}

impl EposStatus {
    /// Converts a 16-bit status word into an `EposStatus`.
    pub fn from_status_word(status_word: u16) -> (r: EposStatus)
        ensures
            r == epos_status_of(status_word),
    {
        let s = status_word & STATUS_MASK;
        if s == 0b0000_0000 {
            EposStatus::NotReadyToSwitchOn
        } else if s == 0b0100_0000 {
            EposStatus::SwitchOnDisabled
        } else if s == 0b0010_0001 {
            EposStatus::ReadyToSwitchOn
        } else if s == 0b0010_0011 {
            EposStatus::SwitchedOn
        } else if s == 0b0010_0111 {
            EposStatus::OperationEnabled
        } else if s == 0b0000_0111 {
            EposStatus::QuickStopActive
        } else if s == 0b0000_1111 {
            EposStatus::FaultReactionActive
        } else if s == 0b0000_1000 {
            EposStatus::Fault
        } else {
            EposStatus::Unknown
        }
    }
}

impl From<u16> for EposStatus {
    /// Converts a 16-bit status word into an `EposStatus`.
    fn from(status_word: u16) -> (r: Self) {
        EposStatus::from_status_word(status_word)
    }
}

impl vstd::std_specs::convert::FromSpecImpl<u16> for EposStatus {
    open spec fn obeys_from_spec() -> bool {
        true
    }

    open spec fn from_spec(v: u16) -> Self {
        epos_status_of(v)
    }
}

/// The motor type (object 0x6402).
#[derive(Debug, Clone, Copy)]
pub enum MotorType {
    BrushedDcMotor,
    EcMotorSinusCommutated,
    EcMotorBlockCommutated,
}

impl MotorType {
    /// The value that selects this motor type.
    pub fn value(&self) -> (r: u16)
        ensures
            r == (match *self {
                MotorType::BrushedDcMotor => 1u16,
                MotorType::EcMotorSinusCommutated => 10u16,
                MotorType::EcMotorBlockCommutated => 11u16,
            }),
    {
        match self {
            MotorType::BrushedDcMotor => 1,
            MotorType::EcMotorSinusCommutated => 10,
            MotorType::EcMotorBlockCommutated => 11,
        }
    }
}

/// The homing method used by `find_home`.
#[derive(Debug, Clone, Copy)]
pub enum HomingMethod {
    CurrentThresholdNegativeSpeed,
    CurrentThresholdPositiveSpeed,
    CurrentThresholdNegativeSpeedAndIndex,
    CurrentThresholdPositiveSpeedAndIndex,
    NegativeLimitSwitchAndIndex,
    PositiveLimitSwitchAndIndex,
    HomeSwitchPositiveSpeedAndIndex,
    HomeSwitchNegativeSpeedAndIndex,
    NegativeLimitSwitch,
    PositiveLimitSwitch,
    HomeSwitchPositiveSpeed,
    HomeSwitchNegativeSpeed,
    IndexNegativeSpeed,
    IndexPositiveSpeed,
    CurrentPosition,
}

/// The signed number of a homing method.
pub open spec fn homing_method_number(m: HomingMethod) -> i8 {
    match m {
        HomingMethod::CurrentThresholdNegativeSpeed => -4i8,
        HomingMethod::CurrentThresholdPositiveSpeed => -3i8,
        HomingMethod::CurrentThresholdNegativeSpeedAndIndex => -2i8,
        HomingMethod::CurrentThresholdPositiveSpeedAndIndex => -1i8,
        HomingMethod::NegativeLimitSwitchAndIndex => 1i8,
        HomingMethod::PositiveLimitSwitchAndIndex => 2i8,
        HomingMethod::HomeSwitchPositiveSpeedAndIndex => 7i8,
        HomingMethod::HomeSwitchNegativeSpeedAndIndex => 11i8,
        HomingMethod::NegativeLimitSwitch => 17i8,
        HomingMethod::PositiveLimitSwitch => 18i8,
        HomingMethod::HomeSwitchPositiveSpeed => 23i8,
        HomingMethod::HomeSwitchNegativeSpeed => 27i8,
        HomingMethod::IndexNegativeSpeed => 33i8,
        HomingMethod::IndexPositiveSpeed => 34i8,
        HomingMethod::CurrentPosition => 37i8,
    }
}

impl HomingMethod {
    /// The signed number of this method.
    pub fn number(&self) -> (r: i8)
        ensures
            r == homing_method_number(*self),
    {
        match self {
            HomingMethod::CurrentThresholdNegativeSpeed => -4,
            HomingMethod::CurrentThresholdPositiveSpeed => -3,
            HomingMethod::CurrentThresholdNegativeSpeedAndIndex => -2,
            HomingMethod::CurrentThresholdPositiveSpeedAndIndex => -1,
            HomingMethod::NegativeLimitSwitchAndIndex => 1,
            HomingMethod::PositiveLimitSwitchAndIndex => 2,
            HomingMethod::HomeSwitchPositiveSpeedAndIndex => 7,
            HomingMethod::HomeSwitchNegativeSpeedAndIndex => 11,
            HomingMethod::NegativeLimitSwitch => 17,
            HomingMethod::PositiveLimitSwitch => 18,
            HomingMethod::HomeSwitchPositiveSpeed => 23,
            HomingMethod::HomeSwitchNegativeSpeed => 27,
            HomingMethod::IndexNegativeSpeed => 33,
            HomingMethod::IndexPositiveSpeed => 34,
            HomingMethod::CurrentPosition => 37,
        }
    }

    /// The 32-bit value written to the homing method object: the method's
    /// number, sign-extended.
    pub fn object_value(&self) -> (r: u32)
        ensures
            r as int == (if homing_method_number(*self) < 0 {
                homing_method_number(*self) + 0x1_0000_0000
            } else {
                homing_method_number(*self) as int
            }),
    {
        let n = self.number();
        if n < 0 {
            (0x1_0000_0000i64 + n as i64) as u32
        } else {
            n as u32
        }
    }
}

/// The state of the homing procedure.
#[derive(Debug)]
pub struct HomingStatus {
    pub attained: bool,
    pub error: bool,
}

/// Whether bit `bit` of a 16-bit word is set.
pub open spec fn word_bit(w: u16, bit: u16) -> bool {
    (w >> bit) & 1u16 == 1u16
}

impl HomingStatus {
    /// The homing state that a status word reports: bit 12 (attained) and
    /// bit 13 (error).
    pub fn from_status_word(status_word: u16) -> (r: HomingStatus)
        ensures
            r.attained == word_bit(status_word, 12),
            r.error == word_bit(status_word, 13),
    {
        let attained = (status_word & (1u16 << 12u16)) != 0;
        let error = (status_word & (1u16 << 13u16)) != 0;
        assert(attained == word_bit(status_word, 12)) by (bit_vector)
            requires
                attained == ((status_word & (1u16 << 12u16)) != 0),
        ;
        assert(error == word_bit(status_word, 13)) by (bit_vector)
            requires
                error == ((status_word & (1u16 << 13u16)) != 0),
        ;
        HomingStatus { attained, error }
    }
}

/// Whether a status word reports that the last target was reached (bit 10).
pub fn target_reached_from_status_word(status_word: u16) -> (r: bool)
    ensures
        r == word_bit(status_word, 10),
{
    let bit: u16 = 1u16 << 10u16;
    let r = (status_word & bit) == bit;
    assert(r == word_bit(status_word, 10)) by (bit_vector)
        requires
            bit == 1u16 << 10u16,
            r == ((status_word & bit) == bit),
    ;
    r
}

/// The base control word of the `Operation Enabled` state.
pub const ENABLE_OPERATION_WORD: u32 = 0x000F;

/// The control word that starts a profile position move: the new-setpoint
/// bit (4), and the change-immediately bit (5) when `immediate`.
pub fn start_move_control_word(immediate: bool) -> (r: u32)
    ensures
        r == (if immediate { 0x003Fu32 } else { 0x001Fu32 }),
{
    assert(0x000Fu32 | (1u32 << 4u32) | (1u32 << 5u32) == 0x003Fu32) by (bit_vector);
    assert(0x000Fu32 | (1u32 << 4u32) == 0x001Fu32) by (bit_vector);
    if immediate {
        ENABLE_OPERATION_WORD | (1u32 << 4u32) | (1u32 << 5u32)
    } else {
        ENABLE_OPERATION_WORD | (1u32 << 4u32)
    }
}

/// The control word that resets a fault (bit 7), written before `FAULT_RESET_RELEASE_WORD`.
pub const FAULT_RESET_WORD: u32 = 0x0080;

/// The control word written after `FAULT_RESET_WORD` to complete the fault reset.
pub const FAULT_RESET_RELEASE_WORD: u32 = 0x0000;

/// Whether clearing faults has anything to do: only a controller in `Fault` gets the reset
/// words; in any other state clearing succeeds at once.
pub fn needs_fault_reset(status: EposStatus) -> (r: bool)
    ensures
        r == (status == EposStatus::Fault),
{
    status == EposStatus::Fault
}

/// The outcome of a fault reset from the status read after it: still in `Fault` is an error.
pub fn fault_reset_outcome<E>(status_after: EposStatus) -> (r: Result<(), Epos4Error<E>>)
    ensures
        status_after == EposStatus::Fault ==> r matches Err(Epos4Error::DeviceInFaultState),
        status_after != EposStatus::Fault ==> r is Ok,
{
    if status_after == EposStatus::Fault {
        Err(Epos4Error::DeviceInFaultState)
    } else {
        Ok(())
    }
}

/// The control word that starts the homing procedure (bit 4 set).
pub fn start_homing_control_word() -> (r: u32)
    ensures
        r == 0x001Fu32,
{
    assert(0x000Fu32 | (1u32 << 4u32) == 0x001Fu32) by (bit_vector);
    ENABLE_OPERATION_WORD | (1u32 << 4u32)
}

/// First word of an object access: node id in the low byte, low byte of
/// the index in the high byte.
pub open spec fn object_word0(node_id: u8, index: u16) -> u16 {
    (node_id as u16 | ((index << 8u16) as u16)) as u16
}

/// Second word of an object access: high byte of the index, then the
/// sub-index.
pub open spec fn object_word1(index: u16, subindex: u8) -> u16 {
    ((index >> 8u16) | ((subindex as u16) << 8u16) as u16) as u16
}

/// The payload words of a request that writes `data` to an object.
pub fn object_write_words(node_id: u8, index: u16, subindex: u8, data: u32) -> (r: [u16; 4])
    ensures
        r@[0] == object_word0(node_id, index),
        r@[1] == object_word1(index, subindex),
        r@[2] == (data & 0xFFFF) as u16,
        r@[3] == (data >> 16u32) as u16,
{
    [
        node_id as u16 | (index << 8u16),
        (index >> 8u16) | (subindex as u16) << 8u16,
        (data & 0xFFFF) as u16,
        (data >> 16u32) as u16,
    ]
}

/// The payload words of a request that reads an object.
pub fn object_read_words(node_id: u8, index: u16, subindex: u8) -> (r: [u16; 2])
    ensures
        r@[0] == object_word0(node_id, index),
        r@[1] == object_word1(index, subindex),
{
    [node_id as u16 | (index << 8u16), (index >> 8u16) | (subindex as u16) << 8u16]
}

/// The 32-bit value that the two data words of a read response carry.
pub fn object_value_from_words(words: [u16; 2]) -> (r: u32)
    ensures
        r == combine_words(words@[0], words@[1]),
{
    (words[0] as u32) | ((words[1] as u32) << 16u32)
}

// ---------------------------------------------------------------------------
// CRC-CCITT over 16-bit words
// ---------------------------------------------------------------------------

/// The CRC-CCITT generator polynomial.
pub const CRC_POLYNOMIAL: u16 = 0x1021;

/// One step of the CRC register: shift in one bit of the message.
pub open spec fn crc_step(crc: u16, bit: bool) -> u16 {
    let shifted = ((crc << 1u16) | (if bit { 1u16 } else { 0u16 })) as u16;
    if crc & 0x8000u16 != 0 {
        shifted ^ CRC_POLYNOMIAL
    } else {
        shifted
    }
}

/// The register after shifting in the `k` most significant bits of
/// `value`, starting from `crc`.
pub open spec fn crc_bits(crc: u16, value: u16, k: nat) -> u16
    decreases k,
{
    if k == 0 {
        crc
    } else {
        crc_step(crc_bits(crc, value, (k - 1) as nat), word_bit(value, (16 - k) as u16))
    }
}

/// The register after shifting in all sixteen bits of `value`.
pub open spec fn crc_word(crc: u16, value: u16) -> u16 {
    crc_bits(crc, value, 16)
}

/// The register after shifting in a whole sequence of words.
pub open spec fn crc_seq(crc: u16, words: Seq<u16>) -> u16
    decreases words.len(),
{
    if words.len() == 0 {
        crc
    } else {
        crc_word(crc_seq(crc, words.drop_last()), words.last())
    }
}

/// The CRC of a frame: header, payload, then a zero word, from a zero
/// register.
pub open spec fn frame_crc(words: Seq<u16>) -> u16 {
    crc_seq(0, words.push(0u16))
}

proof fn lemma_crc_step_linear(c1: u16, c2: u16, b1: bool, b2: bool)
    ensures
        crc_step(c1 ^ c2, b1 != b2) == crc_step(c1, b1) ^ crc_step(c2, b2),
{
    assert(
        ({
            let c = c1 ^ c2;
            let b = b1 != b2;
            let s = ((c << 1u16) | (if b { 1u16 } else { 0u16 })) as u16;
            if c & 0x8000u16 != 0 { s ^ 0x1021u16 } else { s }
        }) == ({
            let s1 = ((c1 << 1u16) | (if b1 { 1u16 } else { 0u16 })) as u16;
            let s2 = ((c2 << 1u16) | (if b2 { 1u16 } else { 0u16 })) as u16;
            (if c1 & 0x8000u16 != 0 { s1 ^ 0x1021u16 } else { s1 }) ^ (if c2 & 0x8000u16 != 0 {
                s2 ^ 0x1021u16
            } else {
                s2
            })
        })
    ) by (bit_vector);
}

proof fn lemma_word_bit_xor(v: u16, w: u16, bit: u16)
    requires
        bit < 16,
    ensures
        word_bit(v ^ w, bit) == (word_bit(v, bit) != word_bit(w, bit)),
{
    assert(((v ^ w) >> bit) & 1u16 == 1u16 <==> (((v >> bit) & 1u16 == 1u16) != ((w >> bit) & 1u16
        == 1u16))) by (bit_vector)
        requires
            bit < 16,
    ;
}

/// Shifting bits into the register is linear over exclusive-or.
proof fn lemma_crc_bits_linear(c1: u16, c2: u16, v: u16, w: u16, k: nat)
    requires
        k <= 16,
    ensures
        crc_bits(c1 ^ c2, v ^ w, k) == crc_bits(c1, v, k) ^ crc_bits(c2, w, k),
    decreases k,
{
    if k > 0 {
        lemma_crc_bits_linear(c1, c2, v, w, (k - 1) as nat);
        lemma_word_bit_xor(v, w, (16 - k) as u16);
        lemma_crc_step_linear(
            crc_bits(c1, v, (k - 1) as nat),
            crc_bits(c2, w, (k - 1) as nat),
            word_bit(v, (16 - k) as u16),
            word_bit(w, (16 - k) as u16),
        );
    }
}

/// Shifting a word into a clear register leaves exactly that word.
proof fn lemma_crc_bits_from_zero(v: u16, k: nat)
    requires
        k <= 16,
    ensures
        crc_bits(0, v, k) == v >> ((16 - k) as u16),
    decreases k,
{
    if k == 0 {
        assert(v >> 16u16 == 0u16) by (bit_vector);
    } else {
        lemma_crc_bits_from_zero(v, (k - 1) as nat);
        let sh: u16 = (16 - k) as u16;
        assert((16 - (k - 1) as nat) as u16 == (sh + 1) as u16);
        assert(crc_step(v >> ((sh + 1) as u16), word_bit(v, sh)) == v >> sh) by {
            assert(({
                let c = v >> ((sh + 1) as u16);
                let b = (v >> sh) & 1u16 == 1u16;
                let s = ((c << 1u16) | (if b { 1u16 } else { 0u16 })) as u16;
                if c & 0x8000u16 != 0 { s ^ 0x1021u16 } else { s }
            }) == v >> sh) by (bit_vector)
                requires
                    sh < 16,
            ;
        }
    }
}

/// Shifting word `v` in equals shifting a zero word in, then adding `v`.
proof fn lemma_crc_word_split(crc: u16, v: u16)
    ensures
        crc_word(crc, v) == crc_word(crc, 0) ^ v,
{
    lemma_crc_bits_linear(crc, 0, 0, v, 16);
    lemma_crc_bits_from_zero(v, 16);
    assert(crc ^ 0u16 == crc) by (bit_vector);
    assert(0u16 ^ v == v) by (bit_vector);
    assert(v >> 0u16 == v) by (bit_vector);
}

/// A frame checks out exactly when its trailing word is the CRC of the
/// words before it: shifting `t` in after `words` clears the register if and
/// only if `t == frame_crc(words)`.
pub proof fn lemma_crc_check_exact(words: Seq<u16>, t: u16)
    ensures
        (crc_seq(0, words.push(t)) == 0) <==> (t == frame_crc(words)),
{
    let s = crc_seq(0, words);
    assert(words.push(t).drop_last() =~= words);
    assert(words.push(0u16).drop_last() =~= words);
    lemma_crc_word_split(s, t);
    let r = crc_word(s, 0);
    assert((r ^ t == 0u16) <==> (t == r)) by (bit_vector);
}

/// Shifts one word into the CRC register.
pub fn update_crc(crc: &mut u16, value: u16)
    ensures
        *final(crc) == crc_word(*old(crc), value),
{
    let ghost c0 = *crc;
    let mut shifter: u16 = 0x8000;
    let mut k: u16 = 0;
    assert(0x8000u16 >> 0u16 == 0x8000u16) by (bit_vector);
    while shifter > 0
        invariant
            k <= 16,
            shifter == (if k < 16 { (0x8000u16 >> k) } else { 0u16 }),
            *crc == crc_bits(c0, value, k as nat),
        decreases 16 - k,
    {
        assert(k < 16) by {
            if k >= 16 {
                assert(shifter == 0);
            }
        }
        let c = *crc;
        let carry = (c & 0x8000) != 0;
        let bit = (value & shifter) != 0;
        assert(bit == word_bit(value, (15 - k) as u16)) by (bit_vector)
            requires
                k < 16,
                shifter == 0x8000u16 >> k,
                bit == ((value & shifter) != 0),
        ;
        let mut next: u16 = c << 1u16;
        if bit {
            assert(next < 0xFFFF) by (bit_vector)
                requires
                    next == c << 1u16,
            ;
            next += 1;
        }
        if carry {
            next ^= CRC_POLYNOMIAL;
        }
        assert(next == crc_step(c, bit)) by (bit_vector)
            requires
                carry == ((c & 0x8000u16) != 0),
                next == (if carry {
                    (if bit { ((c << 1u16) + 1) as u16 } else { c << 1u16 }) ^ 0x1021u16
                } else {
                    (if bit { ((c << 1u16) + 1) as u16 } else { c << 1u16 })
                }),
        ;
        *crc = next;
        assert((16 - (k + 1)) as u16 == (15 - k) as u16);
        shifter >>= 1u16;
        assert(shifter == (if k + 1 < 16 { (0x8000u16 >> ((k + 1) as u16)) } else { 0u16 }))
            by (bit_vector)
            requires
                k < 16,
                shifter == (0x8000u16 >> k) >> 1u16,
        ;
        k += 1;
    }
    assert(k == 16) by {
        if k < 16 {
            assert((0x8000u16 >> k) > 0) by (bit_vector)
                requires
                    k < 16,
            ;
        }
    }
}

/// Shifts a sequence of words into the CRC register.
fn update_crc_all(crc: &mut u16, words: &[u16])
    ensures
        *final(crc) == crc_seq(*old(crc), words@),
{
    let ghost c0 = *crc;
    let mut i: usize = 0;
    while i < words.len()
        invariant
            i <= words@.len(),
            *crc == crc_seq(c0, words@.subrange(0, i as int)),
        decreases words@.len() - i,
    {
        assert(words@.subrange(0, (i + 1) as int).drop_last() =~= words@.subrange(0, i as int));
        update_crc(crc, words[i]);
        i += 1;
    }
    assert(words@.subrange(0, words@.len() as int) =~= words@);
}

proof fn lemma_crc_seq_append(crc: u16, a: Seq<u16>, b: Seq<u16>)
    ensures
        crc_seq(crc, a + b) == crc_seq(crc_seq(crc, a), b),
    decreases b.len(),
{
    if b.len() == 0 {
        assert(a + b =~= a);
    } else {
        assert((a + b).drop_last() =~= a + b.drop_last());
        lemma_crc_seq_append(crc, a, b.drop_last());
    }
}

/// The CRC of a request frame: the header, the payload words, then a zero
/// word, shifted into a clear register.
pub fn calculate_crc(header: u16, data: &[u16]) -> (r: u16)
    ensures
        r == frame_crc(seq![header] + data@),
{
    let mut crc: u16 = 0;
    update_crc(&mut crc, header);
    update_crc_all(&mut crc, data);
    update_crc(&mut crc, 0u16);
    proof {
        let w = seq![header] + data@;
        assert(seq![header].last() == header);
        assert(crc_seq(0, seq![header]) == crc_word(crc_seq(0, seq![header].drop_last()), header));
        lemma_crc_seq_append(0, seq![header], data@);
        assert(seq![header].drop_last() =~= Seq::<u16>::empty());
        assert(w.push(0u16).drop_last() =~= w);
    }
    crc
}

/// Checks the CRC of a response frame: the header, the error words, the
/// data words and the received CRC must clear the register.
pub fn check_crc(header: u16, error_code: &[u16], data: &[u16], target_crc: u16) -> (r: bool)
    ensures
        r == (crc_seq(0, (seq![header] + error_code@ + data@).push(target_crc)) == 0),
{
    let mut crc: u16 = 0;
    update_crc(&mut crc, header);
    update_crc_all(&mut crc, error_code);
    update_crc_all(&mut crc, data);
    update_crc(&mut crc, target_crc);
    proof {
        let w = seq![header] + error_code@ + data@;
        assert(seq![header].drop_last() =~= Seq::<u16>::empty());
        assert(seq![header].last() == header);
        assert(crc_seq(0, seq![header]) == crc_word(crc_seq(0, seq![header].drop_last()), header));
        lemma_crc_seq_append(0, seq![header], error_code@);
        lemma_crc_seq_append(0, seq![header] + error_code@, data@);
        assert(w.push(target_crc).drop_last() =~= w);
    }
    crc == 0
}

/// A response frame whose CRC word was computed over its header, error
/// words and data words passes the check, and no other CRC word does.
pub proof fn lemma_check_crc_accepts_exactly_frame_crc(
    header: u16,
    error_code: Seq<u16>,
    data: Seq<u16>,
    target_crc: u16,
)
    ensures
        (crc_seq(0, (seq![header] + error_code + data).push(target_crc)) == 0) <==> (target_crc
            == frame_crc(seq![header] + error_code + data)),
{
    lemma_crc_check_exact(seq![header] + error_code + data, target_crc);
}

// ---------------------------------------------------------------------------
// Byte stuffing and frames
// ---------------------------------------------------------------------------

/// A byte as it goes on the wire inside a frame: the escape byte doubled.
pub open spec fn stuff_byte(b: u8) -> Seq<u8> {
    if b == DATA_LINK_ESCAPE {
        seq![DATA_LINK_ESCAPE, DATA_LINK_ESCAPE]
    } else {
        seq![b]
    }
}

/// A word as it goes on the wire: low byte first, each byte stuffed.
pub open spec fn stuff_word(w: u16) -> Seq<u8> {
    stuff_byte((w & 0xFF) as u8) + stuff_byte((w >> 8u16) as u8)
}

/// The words of a sequence, each stuffed, one after the other.
pub open spec fn stuff_words(ws: Seq<u16>) -> Seq<u8>
    decreases ws.len(),
{
    if ws.len() == 0 {
        Seq::empty()
    } else {
        stuff_words(ws.drop_last()) + stuff_word(ws.last())
    }
}

/// The header word of a request: payload length in words in the high byte,
/// op code in the low byte.
pub open spec fn request_header(opcode: u8, len: nat) -> u16 {
    ((((len % 256) as u16) << 8u16) | opcode as u16) as u16
}

/// The bytes of a request frame: escape and start-of-text (unstuffed), then
/// the stuffed header, payload words and CRC.
pub open spec fn request_frame(opcode: u8, data: Seq<u16>) -> Seq<u8> {
    let header = request_header(opcode, data.len());
    let words = seq![header] + data;
    seq![DATA_LINK_ESCAPE, START_OF_TEXT] + stuff_words(words.push(frame_crc(words)))
}

/// One byte read from a stuffed stream, with the number of stream bytes it took: an escape
/// byte stands for the byte after it.
pub open spec fn read_stuffed_byte(s: Seq<u8>) -> (u8, int) {
    if s[0] == DATA_LINK_ESCAPE {
        (s[1], 2)
    } else {
        (s[0], 1)
    }
}

/// `n` words read from a stuffed stream, each low byte first.
pub open spec fn read_stuffed_words(s: Seq<u8>, n: nat) -> Seq<u16>
    decreases n,
{
    if n == 0 {
        Seq::empty()
    } else {
        let (lo, k1) = read_stuffed_byte(s);
        let rest = s.skip(k1);
        let (hi, k2) = read_stuffed_byte(rest);
        seq![(lo + 256 * hi) as u16] + read_stuffed_words(rest.skip(k2), (n - 1) as nat)
    }
}

proof fn lemma_read_stuffed_byte(b: u8, rest: Seq<u8>)
    ensures
        read_stuffed_byte(stuff_byte(b) + rest) == (b, stuff_byte(b).len() as int),
        (stuff_byte(b) + rest).skip(stuff_byte(b).len() as int) == rest,
{
    assert((stuff_byte(b) + rest).skip(stuff_byte(b).len() as int) =~= rest);
}

proof fn lemma_stuff_words_front(ws: Seq<u16>)
    requires
        ws.len() > 0,
    ensures
        stuff_words(ws) == stuff_word(ws[0]) + stuff_words(ws.drop_first()),
    decreases ws.len(),
{
    if ws.len() == 1 {
        assert(ws.drop_last() =~= Seq::<u16>::empty());
        assert(ws.drop_first() =~= Seq::<u16>::empty());
        assert(stuff_words(ws) =~= stuff_word(ws[0]) + stuff_words(ws.drop_first()));
    } else {
        lemma_stuff_words_front(ws.drop_last());
        assert(ws.drop_last().drop_first() =~= ws.drop_first().drop_last());
        assert(ws.drop_first().last() == ws.last());
        assert(stuff_words(ws) =~= stuff_word(ws[0]) + stuff_words(ws.drop_first()));
    }
}

/// Reading words back from a stuffed stream undoes the stuffing: the words come back as they
/// were, whatever follows them in the stream.
pub proof fn lemma_unstuff_words(ws: Seq<u16>, rest: Seq<u8>)
    ensures
        read_stuffed_words(stuff_words(ws) + rest, ws.len()) == ws,
    decreases ws.len(),
{
    if ws.len() > 0 {
        let w = ws[0];
        let lo = (w & 0xFF) as u8;
        let hi = (w >> 8u16) as u8;
        let tail = stuff_words(ws.drop_first()) + rest;
        lemma_stuff_words_front(ws);
        let s = stuff_words(ws) + rest;
        assert(s =~= stuff_byte(lo) + (stuff_byte(hi) + tail));
        lemma_read_stuffed_byte(lo, stuff_byte(hi) + tail);
        lemma_read_stuffed_byte(hi, tail);
        lemma_unstuff_words(ws.drop_first(), rest);
        assert(((w & 0xFF) as u8) + 256 * ((w >> 8u16) as u8) == w) by (bit_vector);
        assert(read_stuffed_words(s, ws.len()) =~= seq![w] + ws.drop_first());
    }
}

/// A request frame reads back as sent: the two sync bytes, then the header, the payload words
/// and a CRC that the receiver's check accepts.
pub proof fn lemma_request_frame_reads_back(opcode: u8, data: Seq<u16>)
    ensures
        ({
            let f = request_frame(opcode, data);
            let words = seq![request_header(opcode, data.len())] + data;
            &&& f[0] == DATA_LINK_ESCAPE
            &&& f[1] == START_OF_TEXT
            &&& read_stuffed_words(f.skip(2), data.len() + 2) == words.push(frame_crc(words))
            &&& crc_seq(0, words.push(frame_crc(words))) == 0
        }),
{
    let words = seq![request_header(opcode, data.len())] + data;
    let all = words.push(frame_crc(words));
    let f = request_frame(opcode, data);
    assert(f.skip(2) =~= stuff_words(all) + Seq::<u8>::empty());
    lemma_unstuff_words(all, Seq::<u8>::empty());
    lemma_crc_check_exact(words, frame_crc(words));
}

fn push_stuffed_byte(out: &mut Vec<u8>, b: u8)
    ensures
        final(out)@ == old(out)@ + stuff_byte(b),
{
    if b == DATA_LINK_ESCAPE {
        out.push(DATA_LINK_ESCAPE);
    }
    out.push(b);
}

/// Appends a word to a frame: low byte first, each byte stuffed.
pub fn push_stuffed_word(out: &mut Vec<u8>, word: u16)
    ensures
        final(out)@ == old(out)@ + stuff_word(word),
{
    push_stuffed_byte(out, (word & 0xFF) as u8);
    push_stuffed_byte(out, (word >> 8u16) as u8);
}

/// The bytes of a request frame with op code `opcode` and payload `data`.
pub fn encode_request_frame(opcode: u8, data: &[u16]) -> (r: Vec<u8>)
    ensures
        r@ == request_frame(opcode, data@),
{
    #[verifier::truncate]
    let len: u8 = data.len() as u8;
    let header: u16 = ((len as u16) << 8u16) | (opcode as u16);
    assert(header == request_header(opcode, data@.len())) by {
        let n = data.len();
        assert(len == n as u8);
        assert((n as u8) as nat == n as nat % 256) by (bit_vector);
    }
    let crc = calculate_crc(header, data);
    let mut out: Vec<u8> = Vec::new();
    out.push(DATA_LINK_ESCAPE);
    out.push(START_OF_TEXT);
    let ghost words = seq![header] + data@;
    push_stuffed_word(&mut out, header);
    assert(seq![header].drop_last() =~= Seq::<u16>::empty());
    assert(seq![header].last() == header);
    assert(stuff_words(Seq::<u16>::empty()) =~= Seq::<u8>::empty());
    assert(stuff_words(seq![header]) =~= stuff_word(header));
    assert(words.subrange(0, 1) =~= seq![header]);
    assert(out@ =~= seq![DATA_LINK_ESCAPE, START_OF_TEXT] + stuff_words(seq![header]));
    let mut i: usize = 0;
    while i < data.len()
        invariant
            i <= data@.len(),
            words == seq![header] + data@,
            out@ == seq![DATA_LINK_ESCAPE, START_OF_TEXT] + stuff_words(
                words.subrange(0, (i + 1) as int),
            ),
        decreases data@.len() - i,
    {
        proof {
            assert(words.subrange(0, (i + 2) as int).drop_last() =~= words.subrange(
                0,
                (i + 1) as int,
            ));
            assert(words.subrange(0, (i + 2) as int).last() == data@[i as int]);
        }
        push_stuffed_word(&mut out, data[i]);
        proof {
            assert(out@ =~= seq![DATA_LINK_ESCAPE, START_OF_TEXT] + stuff_words(
                words.subrange(0, (i + 2) as int),
            ));
        }
        i += 1;
    }
    assert(words.subrange(0, (data@.len() + 1) as int) =~= words);
    push_stuffed_word(&mut out, crc);
    proof {
        assert(words.push(crc).drop_last() =~= words);
        assert(out@ =~= seq![DATA_LINK_ESCAPE, START_OF_TEXT] + stuff_words(words.push(crc)));
    }
    out
}

/// Whether a received byte inside a frame announces a stuffed byte: the
/// escape byte is followed by a second copy that carries the value.
pub fn is_stuffing_escape(byte: u8, stuffed: bool) -> (r: bool)
    ensures
        r == (stuffed && byte == DATA_LINK_ESCAPE),
{
    stuffed && byte == DATA_LINK_ESCAPE
}

/// Checks the two sync bytes that open a response frame.
pub fn check_sync_bytes<E>(first: u8, second: u8) -> (r: Result<(), Epos4Error<E>>)
    ensures
        r is Ok <==> (first == DATA_LINK_ESCAPE && second == START_OF_TEXT),
        r is Err ==> (r matches Err(Epos4Error::Framing)),
{
    if first != DATA_LINK_ESCAPE {
        return Err(Epos4Error::Framing);
    }
    if second != START_OF_TEXT {
        return Err(Epos4Error::Framing);
    }
    Ok(())
}

/// Assembles a word from its two received bytes, low byte first.
pub fn word_from_bytes(low: u8, high: u8) -> (r: u16)
    ensures
        r == low as u16 + 256 * (high as u16),
{
    let r = (low as u16) | ((high as u16) << 8u16);
    assert(r == low as u16 + 256 * (high as u16)) by (bit_vector)
        requires
            r == (low as u16) | ((high as u16) << 8u16),
    ;
    r
}

/// Checks the header word of a response that carries `data_len` data
/// words: its length field must count the two error words as well, and its
/// op code must be 0.
pub fn check_response_header<E>(header: u16, data_len: usize) -> (r: Result<(), Epos4Error<E>>)
    ensures
        r is Ok <==> ((header >> 8u16) as int == data_len + 2 && (header & 0xFF) == 0),
        r is Err ==> (r matches Err(Epos4Error::Framing)),
{
    let opcode = header & 0xFF;
    let len = (header >> 8u16) as usize;
    if data_len > 0xFFFF || len != data_len + 2 {
        return Err(Epos4Error::Framing);
    }
    if opcode != 0x00 {
        return Err(Epos4Error::Framing);
    }
    Ok(())
}

/// Checks the body of a response: the CRC first (a mismatch is a framing
/// error), then the error code that the device reported.
pub fn check_response_body<E>(
    header: u16,
    error_code: [u16; 2],
    data: &[u16],
    received_crc: u16,
) -> (r: Result<(), Epos4Error<E>>)
    ensures
        ({
            let crc_ok = crc_seq(0, (seq![header] + error_code@ + data@).push(received_crc)) == 0;
            let dev = device_error_of_code(combine_words(error_code@[0], error_code@[1]));
            &&& !crc_ok ==> (r matches Err(Epos4Error::Framing))
            &&& crc_ok && dev == DeviceError::NoError ==> r is Ok
            &&& crc_ok && dev != DeviceError::NoError ==> (r matches Err(Epos4Error::Device(d))
                && d == dev)
        }),
{
    if !check_crc(header, error_code.as_slice(), data, received_crc) {
        return Err(Epos4Error::Framing);
    }
    let code = (error_code[0] as u32) | ((error_code[1] as u32) << 16u32);
    let device_error = DeviceError::from_code(code);
    if device_error != DeviceError::NoError {
        return Err(Epos4Error::Device(device_error));
    }
    Ok(())
}


/// The constants of the Maxon serial protocol V2: frames start with DLE (0x90) STX (0x02), a
/// DLE in the payload is sent twice and every other byte once, objects are written with opcode
/// 0x68 and read with 0x60, and the CRC is CRC-CCITT (polynomial 0x1021).
pub proof fn lemma_protocol_constants(b: u8)
    ensures
        DATA_LINK_ESCAPE == 0x90,
        START_OF_TEXT == 0x02,
        OPCODE_WRITE_OBJECT == 0x68,
        OPCODE_READ_OBJECT == 0x60,
        CRC_POLYNOMIAL == 0x1021,
        stuff_byte(0x90) == seq![0x90u8, 0x90u8],
        b != 0x90 ==> stuff_byte(b) == seq![b],
{
}

} // verus!
