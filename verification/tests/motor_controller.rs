use asteria::epos4::{
    calculate_crc, fault_reset_outcome, needs_fault_reset, check_crc, check_response_body, check_response_header, check_sync_bytes,
    encode_request_frame, is_stuffing_escape, object_read_words, object_value_from_words,
    object_write_words, push_stuffed_word, start_homing_control_word, start_move_control_word,
    target_reached_from_status_word, update_crc, word_from_bytes, DeviceError, Epos4Error,
    EposStatus, HomingMethod, HomingStatus, MotorType, CONTROL_WORD, OPCODE_READ_OBJECT,
    OPCODE_WRITE_OBJECT, STATUS_WORD,
};

#[test]
fn crc_of_read_status_word_request() {
    let words = object_read_words(1, STATUS_WORD, 0);
    assert_eq!(words, [0x4101, 0x0060]);
    assert_eq!(calculate_crc(0x0260, &words), 0xD122);
}

#[test]
fn crc_of_empty_frame_is_zero() {
    assert_eq!(calculate_crc(0x0000, &[]), 0x0000);
    let mut crc = 0u16;
    update_crc(&mut crc, 0);
    assert_eq!(crc, 0);
}

#[test]
fn crc_check_accepts_exactly_the_computed_crc() {
    let header = 0x0400;
    let error_code = [0u16, 0u16];
    let data = [0x0637u16, 0];
    assert!(check_crc(header, &error_code, &data, 0xCA99));
    for wrong in [0xCA98u16, 0x0000, 0xFFFF, 0x99CA] {
        assert!(!check_crc(header, &error_code, &data, wrong));
    }
}

#[test]
fn request_frames_are_stuffed() {
    let frame = encode_request_frame(OPCODE_READ_OBJECT, &object_read_words(1, STATUS_WORD, 0));
    assert_eq!(frame, vec![0x90, 0x02, 0x60, 0x02, 0x01, 0x41, 0x60, 0x00, 0x22, 0xD1]);
    let words = object_write_words(1, CONTROL_WORD, 0, 0x000F);
    assert_eq!(words, [0x4001, 0x0060, 0x000F, 0x0000]);
    let frame = encode_request_frame(OPCODE_WRITE_OBJECT, &words);
    assert_eq!(
        frame,
        vec![0x90, 0x02, 0x68, 0x04, 0x01, 0x40, 0x60, 0x00, 0x0F, 0x00, 0x00, 0x00, 0xB3, 0x07]
    );
    let frame = encode_request_frame(OPCODE_READ_OBJECT, &[0x9090, 0x0001]);
    assert_eq!(
        frame,
        vec![0x90, 0x02, 0x60, 0x02, 0x90, 0x90, 0x90, 0x90, 0x01, 0x00, 0x1B, 0x3C]
    );
}

#[test]
fn stuffing_doubles_escape_bytes() {
    let mut out = Vec::new();
    push_stuffed_word(&mut out, 0x1290);
    assert_eq!(out, vec![0x90, 0x90, 0x12]);
    assert!(is_stuffing_escape(0x90, true));
    assert!(!is_stuffing_escape(0x90, false));
    assert!(!is_stuffing_escape(0x02, true));
}

#[test]
fn words_and_values() {
    assert_eq!(word_from_bytes(0x34, 0x12), 0x1234);
    assert_eq!(object_value_from_words([0x5678, 0x1234]), 0x1234_5678);
}

#[test]
fn sync_and_header_checks() {
    assert!(check_sync_bytes::<()>(0x90, 0x02).is_ok());
    assert!(matches!(check_sync_bytes::<()>(0x90, 0x03), Err(Epos4Error::Framing)));
    assert!(matches!(check_sync_bytes::<()>(0x02, 0x02), Err(Epos4Error::Framing)));
    assert!(check_response_header::<()>(0x0400, 2).is_ok());
    assert!(matches!(check_response_header::<()>(0x0401, 2), Err(Epos4Error::Framing)));
    assert!(matches!(check_response_header::<()>(0x0300, 2), Err(Epos4Error::Framing)));
    assert!(check_response_header::<()>(0x0200, 0).is_ok());
}

#[test]
fn response_body_checks() {
    assert!(check_response_body::<()>(0x0400, [0, 0], &[0x0637, 0], 0xCA99).is_ok());
    assert!(matches!(
        check_response_body::<()>(0x0400, [0, 0], &[0x0637, 0], 0x1234),
        Err(Epos4Error::Framing)
    ));
    let error_code = [0x0000u16, 0x0602u16];
    let mut crc = 0u16;
    for w in [0x0400u16, error_code[0], error_code[1], 0, 0, 0] {
        update_crc(&mut crc, w);
    }
    match check_response_body::<()>(0x0400, error_code, &[0, 0], crc) {
        Err(Epos4Error::Device(e)) => assert_eq!(e, DeviceError::ObjectNotExistError),
        _ => panic!("expected a device error"),
    }
}

#[test]
fn device_error_codes() {
    assert_eq!(DeviceError::from([0, 0]), DeviceError::NoError);
    assert_eq!(DeviceError::from([0x0000, 0x0503]), DeviceError::ToggleError);
    assert_eq!(DeviceError::from([0xFFC0, 0x0F00]), DeviceError::WrongNmtStateError);
    assert_eq!(DeviceError::from([0x0001, 0x0000]), DeviceError::Unknown(1));
    assert_eq!(DeviceError::from_code(0x0609_0031), DeviceError::ValueTooHigh);
    assert_eq!(DeviceError::ValueTooHigh.code(), 0x0609_0031);
    for code in [0u32, 0x0504_0005, 0x0800_0022, 0x0F00_FFBE, 7, 0xFFFF_FFFF] {
        assert_eq!(DeviceError::from_code(code).code(), code);
    }
}

#[test]
fn status_words() {
    assert_eq!(EposStatus::from(0x0000), EposStatus::NotReadyToSwitchOn);
    assert_eq!(EposStatus::from(0x0040), EposStatus::SwitchOnDisabled);
    assert_eq!(EposStatus::from(0x0021), EposStatus::ReadyToSwitchOn);
    assert_eq!(EposStatus::from(0x0023), EposStatus::SwitchedOn);
    assert_eq!(EposStatus::from(0x0437), EposStatus::OperationEnabled);
    assert_eq!(EposStatus::from(0x0007), EposStatus::QuickStopActive);
    assert_eq!(EposStatus::from(0x000F), EposStatus::FaultReactionActive);
    assert_eq!(EposStatus::from(0x0008), EposStatus::Fault);
    assert_eq!(EposStatus::from(0x0001), EposStatus::Unknown);
    assert_eq!(EposStatus::from_status_word(0xFF90), EposStatus::NotReadyToSwitchOn);
    assert_eq!(EposStatus::from_status_word(0x0002), EposStatus::Unknown);
}

#[test]
fn homing_and_motion_words() {
    let s = HomingStatus::from_status_word(1 << 12);
    assert!(s.attained && !s.error);
    let s = HomingStatus::from_status_word(1 << 13);
    assert!(!s.attained && s.error);
    assert!(target_reached_from_status_word(0x0400));
    assert!(!target_reached_from_status_word(0x0237));
    assert_eq!(start_move_control_word(true), 0x003F);
    assert_eq!(start_move_control_word(false), 0x001F);
    assert_eq!(start_homing_control_word(), 0x001F);
    assert_eq!(HomingMethod::CurrentThresholdNegativeSpeed.number(), -4);
    assert_eq!(HomingMethod::CurrentThresholdNegativeSpeed.object_value(), 0xFFFF_FFFC);
    assert_eq!(HomingMethod::CurrentPosition.object_value(), 37);
    assert_eq!(MotorType::EcMotorBlockCommutated.value(), 11);
    assert_eq!(MotorType::BrushedDcMotor.value(), 1);
}

#[test]
fn request_frames_read_back() {
    let data = [0x9090u16, 0x0001, 0x90FF, 0x1234];
    let frame = encode_request_frame(OPCODE_WRITE_OBJECT, &data);
    assert!(check_sync_bytes::<()>(frame[0], frame[1]).is_ok());
    let mut pos = 2;
    let mut next_byte = || {
        let mut b = frame[pos];
        pos += 1;
        if is_stuffing_escape(b, true) {
            b = frame[pos];
            pos += 1;
        }
        b
    };
    let mut words = Vec::new();
    for _ in 0..data.len() + 2 {
        let lo = next_byte();
        let hi = next_byte();
        words.push(word_from_bytes(lo, hi));
    }
    assert_eq!(words[0], 0x0468);
    assert_eq!(&words[1..5], &data);
    assert_eq!(words[5], calculate_crc(0x0468, &data));
    assert!(check_crc(words[0], &words[1..5], &[], words[5]));
}

#[test]
fn fault_clearing_only_resets_a_faulted_controller() {
    assert!(needs_fault_reset(EposStatus::Fault));
    assert!(!needs_fault_reset(EposStatus::OperationEnabled));
    assert!(!needs_fault_reset(EposStatus::FaultReactionActive));
    assert!(fault_reset_outcome::<()>(EposStatus::SwitchOnDisabled).is_ok());
    assert!(matches!(
        fault_reset_outcome::<()>(EposStatus::Fault),
        Err(Epos4Error::DeviceInFaultState)
    ));
}
