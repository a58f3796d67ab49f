use asteria::lsm6dso32::{
    acceleration_from_bytes, accel_full_scale_of_ctrl1_xl, angular_rate_from_bytes,
    ctrl1_xl_configured, ctrl2_g_configured, ctrl3_c_with_bdu_and_increment, ctrl3_c_with_reset,
    fifo_ctrl1_and_2_configured, fifo_ctrl3_with_rates, fifo_ctrl4_with_batching,
    fifo_ctrl4_with_mode, fifo_level, fifo_read_count, fill_fifo_frames, gyro_and_accel_from_bytes,
    gyro_full_scale_of_ctrl2_g, i16_from_le, int1_ctrl_value, int2_ctrl_value, spi_read_address,
    spi_write_address, temperature_from_bytes, whoami_matches, AccelerometerFullScale,
    BatchDataRate, DecTsBatch, FifoDataOut, FifoMode, GyroscopeFullScale, InitErrorKind,
    Int1Config, Int2Config, Lsm6dso32, OutputDataRate, StatusReg, TagSensor, TempBatchDataRate,
    Uninitialised, WHOAMI, init_begin, init_step, InitAction, InitOutcome, InitStage, CTRL1_XL,
    CTRL2_G, CTRL3_C, WHO_AM_I,
};

#[test]
fn fifo_frame_fields() {
    let f = FifoDataOut::from_bytes([(0x02 << 3) | (0b10 << 1) | 1, 0x34, 0x12, 0xFF, 0xFF, 0x00, 0x80]);
    assert_eq!(f.tag_sensor(), TagSensor::AccelerometerNC);
    assert_eq!(f.tag_cnt(), 2);
    assert!(f.tag_parity());
    assert_eq!(f.x(), 0x1234);
    assert_eq!(f.y(), -1);
    assert_eq!(f.z(), i16::MIN);
    assert_eq!(f.temperature(), 0x1234);
    assert_eq!(f.timestamp(), 0xFFFF_1234);
    assert_eq!(f.data(), &[0x34, 0x12, 0xFF, 0xFF, 0x00, 0x80]);
}

#[test]
fn zero_frame() {
    let f = FifoDataOut::new_with_zero();
    assert_eq!(f.tag_sensor(), TagSensor::Unknown(0));
    assert_eq!(f.tag_cnt(), 0);
    assert!(!f.tag_parity());
    assert_eq!(f.x(), 0);
    assert_eq!(f.data(), &[0u8; 6]);
}

#[test]
fn tag_values_round_trip() {
    assert_eq!(TagSensor::from_raw(0x01), TagSensor::GyroscopeNC);
    assert_eq!(TagSensor::from_raw(0x19), TagSensor::SensorHubNack);
    assert_eq!(TagSensor::from_raw(0x13), TagSensor::Unknown(0x13));
    for raw in 0u8..=255 {
        assert_eq!(TagSensor::from_raw(raw).raw(), raw);
    }
}

#[test]
fn little_endian_words() {
    assert_eq!(i16_from_le(0xFF, 0x7F), i16::MAX);
    assert_eq!(i16_from_le(0x00, 0x80), i16::MIN);
    let a = acceleration_from_bytes(&[1, 0, 2, 0, 0xFE, 0xFF]);
    assert_eq!((a.x, a.y, a.z), (1, 2, -2));
    let g = angular_rate_from_bytes(&[0, 1, 0, 2, 0, 3]);
    assert_eq!((g.x, g.y, g.z), (256, 512, 768));
    let t = temperature_from_bytes(&[0x00, 0xFF]);
    assert_eq!(t.value, -256);
    let (a, g) = gyro_and_accel_from_bytes(&[1, 0, 2, 0, 3, 0, 4, 0, 5, 0, 6, 0]);
    assert_eq!((g.x, g.y, g.z), (1, 2, 3));
    assert_eq!((a.x, a.y, a.z), (4, 5, 6));
}

#[test]
fn control_register_fields() {
    assert_eq!(ctrl3_c_with_reset(0x04), 0x05);
    assert_eq!(ctrl3_c_with_bdu_and_increment(0x00), 0x44);
    assert_eq!(ctrl3_c_with_bdu_and_increment(0x81), 0xC5);
    assert_eq!(
        ctrl1_xl_configured(0x03, Some(OutputDataRate::Hz104), Some(AccelerometerFullScale::G16)),
        0x4F
    );
    assert_eq!(ctrl1_xl_configured(0xA6, None, None), 0xA6);
    assert_eq!(ctrl1_xl_configured(0xA6, None, Some(AccelerometerFullScale::G4)), 0xA2);
    assert_eq!(
        ctrl2_g_configured(0x00, Some(OutputDataRate::NotAllowed(0x1F)), Some(GyroscopeFullScale::Dps2000)),
        0xFC
    );
    assert_eq!(accel_full_scale_of_ctrl1_xl(0x04), AccelerometerFullScale::G32);
    assert_eq!(accel_full_scale_of_ctrl1_xl(0x08), AccelerometerFullScale::G8);
    assert_eq!(gyro_full_scale_of_ctrl2_g(0x0C), GyroscopeFullScale::Dps2000);
}

#[test]
fn fifo_register_fields() {
    assert_eq!(fifo_ctrl4_with_mode(0xF0, FifoMode::Continuous), 0xF6);
    assert_eq!(fifo_ctrl4_with_mode(0x07, FifoMode::Bypass), 0x00);
    assert_eq!(
        fifo_ctrl4_with_batching(0x06, Some(TempBatchDataRate::Hz52), Some(DecTsBatch::Dec8)),
        0xB6
    );
    assert_eq!(fifo_ctrl4_with_batching(0xB6, None, None), 0xB6);
    assert_eq!(
        fifo_ctrl3_with_rates(0x00, Some(BatchDataRate::Hz208), Some(BatchDataRate::Hz6_5)),
        0x5B
    );
    assert_eq!(fifo_ctrl3_with_rates(0x5B, None, Some(BatchDataRate::NotBatched)), 0x50);
    assert_eq!(fifo_ctrl1_and_2_configured(0x00, 0x00, 0x1FF, true), (0xFF, 0x81));
    assert_eq!(fifo_ctrl1_and_2_configured(0xAA, 0x7F, 0x012, false), (0x12, 0x7E));
    assert_eq!(fifo_level(0x34, 0xFE), 0x234);
}

#[test]
fn interrupt_routing() {
    let int1 = Int1Config { den_drdy_flag: true, fifo_th: true, drdy_xl: true, ..Default::default() };
    assert_eq!(int1_ctrl_value(int1), 0x09);
    let int2 = Int2Config { cnt_bdr: true, drdy_temp: true, ..Default::default() };
    assert_eq!(int2_ctrl_value(int2), 0x44);
    let s = StatusReg::from_bits(0x05);
    assert!(s.tda && !s.gda && s.xlda);
}

#[test]
fn spi_addresses_and_identity() {
    assert_eq!(spi_read_address(0x0F), 0x8F);
    assert_eq!(spi_write_address(0x8F), 0x0F);
    assert!(whoami_matches(WHOAMI));
    assert!(!whoami_matches(0x6A));
}

#[test]
fn fifo_burst_is_split_into_frames() {
    assert_eq!(fifo_read_count(3), 3);
    assert_eq!(fifo_read_count(1000), 512);
    let mut frames = [FifoDataOut::new_with_zero(); 3];
    let buf: Vec<u8> = (0u8..17).collect();
    let n = fill_fifo_frames(&mut frames, &buf);
    assert_eq!(n, 2);
    assert_eq!(frames[0], FifoDataOut::from_bytes([0, 1, 2, 3, 4, 5, 6]));
    assert_eq!(frames[1], FifoDataOut::from_bytes([7, 8, 9, 10, 11, 12, 13]));
    assert_eq!(frames[2], FifoDataOut::new_with_zero());
}

#[test]
fn driver_tracks_ranges() {
    let dev = Lsm6dso32::<u8, Uninitialised>::new(7u8);
    assert_eq!(*dev.inner(), 7);
    let mut dev = dev.into_initialised(0x0C, 0x04);
    assert_eq!(dev.accel_full_scale(), AccelerometerFullScale::G16);
    assert_eq!(dev.gyro_full_scale(), GyroscopeFullScale::Dps500);
    dev.record_accelerometer_full_scale(Some(AccelerometerFullScale::G8));
    dev.record_gyroscope_full_scale(None);
    assert_eq!(dev.accel_full_scale(), AccelerometerFullScale::G8);
    assert_eq!(dev.gyro_full_scale(), GyroscopeFullScale::Dps500);
    *dev.inner_mut() = 9;
    assert_eq!(dev.destroy(), 9);
    let kind: InitErrorKind<()> = InitErrorKind::WhoamiMismatch;
    assert!(matches!(kind, InitErrorKind::WhoamiMismatch));
}

#[test]
fn sensitivities() {
    assert_eq!(AccelerometerFullScale::G4.lsb_per_g(), 8192);
    assert_eq!(AccelerometerFullScale::G32.lsb_per_g(), 1024);
    assert_eq!(GyroscopeFullScale::Dps250.micro_dps_per_lsb(), 8750);
    assert_eq!(GyroscopeFullScale::Dps2000.micro_dps_per_lsb(), 70000);
}

#[test]
fn written_ranges_read_back() {
    let accel = [
        AccelerometerFullScale::G4,
        AccelerometerFullScale::G8,
        AccelerometerFullScale::G16,
        AccelerometerFullScale::G32,
    ];
    let gyro = [
        GyroscopeFullScale::Dps250,
        GyroscopeFullScale::Dps500,
        GyroscopeFullScale::Dps1000,
        GyroscopeFullScale::Dps2000,
    ];
    for r in [0x00u8, 0x5A, 0xFF, 0x13] {
        for fs in accel {
            let v = ctrl1_xl_configured(r, Some(OutputDataRate::Hz833), Some(fs));
            assert_eq!(accel_full_scale_of_ctrl1_xl(v), fs);
        }
        for fs in gyro {
            let v = ctrl2_g_configured(r, None, Some(fs));
            assert_eq!(gyro_full_scale_of_ctrl2_g(v), fs);
        }
    }
}

#[test]
fn init_runs_the_documented_sequence() {
    let (stage, action) = init_begin();
    assert_eq!(action, InitAction::Read(CTRL3_C));
    let (stage, action) = init_step(stage, InitOutcome::Done(0x04));
    assert_eq!(action, InitAction::Write(CTRL3_C, 0x05));
    let (stage, action) = init_step(stage, InitOutcome::Done(0));
    assert_eq!(action, InitAction::DelayMs(30));
    let (stage, action) = init_step(stage, InitOutcome::Done(0));
    assert_eq!(action, InitAction::Read(WHO_AM_I));
    let (stage, action) = init_step(stage, InitOutcome::Done(WHOAMI));
    assert_eq!(action, InitAction::Read(CTRL3_C));
    let (stage, action) = init_step(stage, InitOutcome::Done(0x00));
    assert_eq!(action, InitAction::Write(CTRL3_C, 0x44));
    let (stage, action) = init_step(stage, InitOutcome::Done(0));
    assert_eq!(action, InitAction::Read(CTRL1_XL));
    let (stage, action) = init_step(stage, InitOutcome::Done(0x48));
    assert_eq!(action, InitAction::Read(CTRL2_G));
    let (stage, action) = init_step(stage, InitOutcome::Done(0x0C));
    assert_eq!((stage, action), (InitStage::Finished, InitAction::Finish(0x48, 0x0C)));
    assert_eq!(init_step(stage, InitOutcome::Done(1)), (InitStage::Finished, InitAction::Idle));
}

#[test]
fn init_fails_on_identity_or_bus() {
    assert_eq!(
        init_step(InitStage::Identify, InitOutcome::Done(0x6A)),
        (InitStage::Failed, InitAction::FailWhoami)
    );
    assert_eq!(
        init_step(InitStage::ConfigWrite, InitOutcome::BusFailed),
        (InitStage::Failed, InitAction::FailBus)
    );
    assert_eq!(
        init_step(InitStage::Failed, InitOutcome::BusFailed),
        (InitStage::Failed, InitAction::Idle)
    );
}
