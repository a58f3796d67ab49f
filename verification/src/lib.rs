//! Verified logic of the ASTERIA rocket firmware and its host tool.
pub mod ads1120;
pub mod backplane;
pub mod can_derive;
pub mod can_utils;
pub mod console;
pub mod dpr;
pub mod engine_control;
pub mod engine_sensors;
pub mod epos4;
pub mod firmware_params;
pub mod i2c;
pub mod ina232;
pub mod lsm6dso32;
pub mod ltc2945;
pub mod max31889;
pub mod ops;
pub mod shell;
pub mod text;
pub mod unix_time;
pub mod vfs;
pub mod wire_types;
