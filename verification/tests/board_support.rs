use asteria::ads1120::{
    adc_code, check_register_readback, config_reg0, config_reg1, config_reg2, config_reg3,
    read_reg_command, write_reg_command, ADSError, PGAGain, ThermocoupleType, MUX_SECONDARY,
    MUX_SHORTED,
};
use asteria::backplane::{active_power_source, rail_status, PowerSource, RailCounts};
use asteria::firmware_params::{
    find_key, key_str, load_reads_flash, load_status, make_key, read_result, write_plan,
    write_result, Key, LoadStatus, ParamReadError, ParamStorage, ParamWriteError,
};
use asteria::i2c::{build_frame, register_write_frames, I2cInterface};
use asteria::ina232::{bus_voltage_raw, calibration_write, current_raw, power_raw, Ina232};
use asteria::max31889::{signed_sample, start_conversion_control, unsigned_sample};
use asteria::ltc2945::{power_code, twelve_bit_code, Ltc2945};
use asteria::unix_time::{UnixTime, UtcClock};

#[test]
fn keys_round_trip() {
    for path in ["v1/imu/cal", "v1/sensor/threshold", "", "ünïcödé/ok"] {
        let key = make_key(path);
        assert_eq!(key_str(&key), path);
    }
    let full = "0123456789abcdef0123456789abcdef";
    assert_eq!(key_str(&make_key(full)), full);
}

#[test]
fn key_layout_is_zero_padded() {
    let key = make_key("v1/cmd");
    assert_eq!(&key[..6], b"v1/cmd");
    assert!(key[6..].iter().all(|&b| b == 0));
}

#[test]
fn key_with_invalid_utf8() {
    let mut key: Key = [0u8; 32];
    key[0] = b'a';
    key[1] = 0xFF;
    assert_eq!(key_str(&key), "<invalid utf-8>");
    key[1] = 0;
    key[2] = 0xFF;
    assert_eq!(key_str(&key), "a");
}

#[test]
fn registry_lookup() {
    let keys = [make_key("a"), make_key("b"), make_key("a")];
    assert_eq!(find_key(&keys, &make_key("a")), Some(0));
    assert_eq!(find_key(&keys, &make_key("b")), Some(1));
    assert_eq!(find_key(&keys, &make_key("c")), None);
    assert_ne!(ParamStorage::Volatile, ParamStorage::Persistent);
}

#[test]
fn utc_clock_is_set_once() {
    let mut clock = UtcClock::new();
    assert!(!UnixTime::is_initialised(&clock));
    assert!(UnixTime::now(&clock, 5).is_none());
    clock.init(1_000_000, 10);
    clock.init(2_000_000, 20);
    assert!(UnixTime::is_initialised(&clock));
    let base = clock.base().unwrap();
    assert_eq!((base.base_micros, base.instant_ticks), (1_000_000, 10));
    let now = UnixTime::now(&clock, 2_500).unwrap();
    assert_eq!(now.as_micros(), 1_002_500);
}

#[test]
fn unix_time_units() {
    let t = UnixTime::from_micros(1_234_567_890);
    assert_eq!(t.as_micros(), 1_234_567_890);
    assert_eq!(t.as_millis(), 1_234_567);
    assert_eq!(t.as_secs(), 1_234);
    let earlier = UnixTime::from_micros(1_000_000_000);
    assert!(t.is_after(&earlier));
    assert!(!earlier.is_after(&t));
    assert!(!t.is_after(&t));
    assert_eq!(t.saturating_micros_since(&earlier), 234_567_890);
    assert_eq!(earlier.saturating_micros_since(&t), 0);
}

#[test]
fn i2c_frames() {
    let mut buf = [0xEEu8; 64];
    let len = build_frame(&mut buf, 0x05, &[1, 2, 3]);
    assert_eq!(len, 4);
    assert_eq!(&buf[..4], &[0x05, 1, 2, 3]);
    assert_eq!(buf[4], 0xEE);
    assert!(register_write_frames(0x10, &[]).is_empty());
    let data: Vec<u8> = (0u8..130).collect();
    let frames = register_write_frames(0x10, &data);
    assert_eq!(frames.len(), 3);
    assert_eq!(frames[0].len(), 64);
    assert_eq!(frames[0][0], 0x10);
    assert_eq!(&frames[0][1..], &data[..63]);
    assert_eq!(&frames[1][1..], &data[63..126]);
    assert_eq!(frames[2], vec![0x10, 126, 127, 128, 129]);
    let bus = I2cInterface::new((), 0x40);
    assert_eq!(bus.address, 0x40);
    bus.destroy();
}

#[test]
fn ina232_registers() {
    assert_eq!(calibration_write(), (0x05, [0x04, 0x00]));
    assert_eq!(bus_voltage_raw(0x80, 0x10), 0x0010);
    assert_eq!(bus_voltage_raw(0x12, 0x34), 0x1234);
    assert_eq!(current_raw(0xFF, 0xFE), -2);
    assert_eq!(power_raw(0x12, 0x34), 0x1234);
    let mut dev = Ina232::new(3u8);
    assert_eq!(*dev.inner(), 3);
    *dev.inner_mut() = 4;
    assert_eq!(dev.destroy(), 4);
}

#[test]
fn ltc2945_registers() {
    assert_eq!(twelve_bit_code(0xFF, 0xF0), 0x0FFF);
    assert_eq!(twelve_bit_code(0x12, 0x3F), 0x0123);
    assert_eq!(power_code(0x01, 0x02, 0x03), 0x010203);
    let mut dev = Ltc2945::new(1u8);
    assert_eq!(*dev.inner(), 1);
    *dev.inner_mut() = 2;
    assert_eq!(dev.destroy(), 2);
}

#[test]
fn ads1120_commands_and_registers() {
    assert_eq!(read_reg_command(1), 0x24);
    assert_eq!(write_reg_command(3), 0x4C);
    assert_eq!(write_reg_command(7), 0x4C);
    assert_eq!(PGAGain::Gain16.to_byte(), 4);
    assert_eq!(PGAGain::Gain128.factor(), 128);
    assert_eq!(config_reg0(MUX_SECONDARY, PGAGain::Gain32, false), 0x5A);
    assert_eq!(config_reg0(MUX_SHORTED, PGAGain::Gain1, true), 0xE1);
    assert_eq!(config_reg1(0, 0, false, false, false), 0x00);
    assert_eq!(config_reg1(7, 3, true, true, true), 0xFF);
    assert_eq!(config_reg2(1, 2, true, 3), 0x57);
    assert_eq!(config_reg3(1, 2, true), 0x2A);
    assert!(check_register_readback::<()>(0x5A, 0x5A).is_ok());
    assert!(matches!(check_register_readback::<()>(0x5A, 0x00), Err(ADSError::RegisterSetError)));
    assert_eq!(adc_code(0x8000), i16::MIN);
    assert_eq!(adc_code(0x7FFF), i16::MAX);
    assert_eq!(adc_code(0xFFFF), -1);
    assert_ne!(ThermocoupleType::K, ThermocoupleType::J);
}

#[test]
fn frame_payloads_rebuild_the_data() {
    for n in [1usize, 62, 63, 64, 126, 127, 200] {
        let data: Vec<u8> = (0..n).map(|i| (i * 7) as u8).collect();
        let frames = register_write_frames(0x2A, &data);
        let mut rebuilt = Vec::new();
        for f in &frames {
            assert_eq!(f[0], 0x2A);
            assert!(f.len() >= 2 && f.len() <= 64);
            rebuilt.extend_from_slice(&f[1..]);
        }
        assert_eq!(rebuilt, data);
    }
}

#[test]
fn external_power_takes_precedence() {
    assert_eq!(active_power_source(true, true), PowerSource::External);
    assert_eq!(active_power_source(false, true), PowerSource::External);
    assert_eq!(active_power_source(true, false), PowerSource::Battery);
    assert_eq!(active_power_source(false, false), PowerSource::Absent);
}

#[test]
fn rail_status_needs_one_good_reading() {
    assert_eq!(rail_status(None, None, None), None);
    assert_eq!(
        rail_status(Some(3125), None, Some(7)),
        Some(RailCounts { voltage: 3125, current: 0, power: 7 })
    );
    assert_eq!(
        rail_status(None, Some(-20), None),
        Some(RailCounts { voltage: 0, current: -20, power: 0 })
    );
}

#[test]
fn max31889_start_bit_and_samples() {
    assert_eq!(start_conversion_control(0x00), 0x01);
    assert_eq!(start_conversion_control(0xA4), 0xA5);
    assert_eq!(start_conversion_control(0x81), 0x81);
    assert_eq!(signed_sample(0x13, 0x88), 5000);
    assert_eq!(signed_sample(0xFF, 0x38), -200);
    assert_eq!(unsigned_sample(0xFF, 0x38), 65336);
}

#[test]
fn param_read_outcomes() {
    assert!(matches!(
        read_result(None, Ok(Some(4))),
        Err(ParamReadError::UnknownKey)
    ));
    assert_eq!(read_result(Some(ParamStorage::Volatile), Ok(Some(4))).unwrap(), 4);
    assert!(matches!(
        read_result(Some(ParamStorage::Persistent), Ok(None)),
        Err(ParamReadError::NotInitialized)
    ));
    match read_result(Some(ParamStorage::Volatile), Err(postcard::Error::SerializeBufferFull)) {
        Err(ParamReadError::Encode(e)) => assert_eq!(e, postcard::Error::SerializeBufferFull),
        other => panic!("unexpected {:?}", other),
    }
}

#[test]
fn param_writes_persist_before_updating() {
    assert!(matches!(
        write_plan::<u8>(None, Ok(())),
        Err(ParamWriteError::UnknownKey)
    ));
    assert_eq!(write_plan::<u8>(Some(ParamStorage::Persistent), Ok(())).unwrap(), true);
    assert_eq!(write_plan::<u8>(Some(ParamStorage::Volatile), Ok(())).unwrap(), false);
    match write_plan::<u8>(Some(ParamStorage::Volatile), Err(postcard::Error::DeserializeBadBool)) {
        Err(ParamWriteError::BadPayload(e)) => assert_eq!(e, postcard::Error::DeserializeBadBool),
        other => panic!("unexpected {:?}", other),
    }
    assert!(write_result::<u8>(Ok(()), Ok(())).is_ok());
    assert!(matches!(
        write_result::<u8>(Err(7), Ok(())),
        Err(ParamWriteError::Storage(7))
    ));
    assert!(matches!(
        write_result::<u8>(Ok(()), Err(postcard::Error::DeserializeUnexpectedEnd)),
        Err(ParamWriteError::BadPayload(postcard::Error::DeserializeUnexpectedEnd))
    ));
}

#[test]
fn param_load_outcomes() {
    assert!(load_reads_flash(ParamStorage::Persistent));
    assert!(!load_reads_flash(ParamStorage::Volatile));
    assert!(matches!(load_status(ParamStorage::Volatile, None), LoadStatus::Loaded));
    assert!(matches!(load_status(ParamStorage::Persistent, None), LoadStatus::Missing));
    assert!(matches!(
        load_status(ParamStorage::Persistent, Some(Ok(()))),
        LoadStatus::Loaded
    ));
    assert!(matches!(
        load_status(ParamStorage::Persistent, Some(Err(postcard::Error::DeserializeBadVarint))),
        LoadStatus::BadDecode(postcard::Error::DeserializeBadVarint)
    ));
}
