use liquid_cooler::fans::{fan_payload, set_fan_mode, FanMode, FAN_DUTY_OFFSETS, FAN_MODE_OFFSETS};
use liquid_cooler::frame::{decode_and_validate, encode_with_nonce};
use liquid_cooler::info::{get_measurements, Measurement, MeasurementType};
use liquid_cooler::pump::{
    config_base, get_pump_mode, pump_payload, set_pump_mode, PumpMode, APPLY_OFFSET,
    PUMP_MODE_OFFSET,
};
use liquid_cooler::utils::crc8;

fn reading(name: &str, value: &str) -> Measurement {
    Measurement {
        name: name.to_string(),
        value: value.to_string(),
        units: None,
        measurement_type: MeasurementType::String,
    }
}

fn response_with_pump_mode(byte: u8) -> [u8; 64] {
    let mut frame = [0u8; 64];
    frame[0] = 0x3f;
    frame[24] = byte;
    frame[63] = crc8(&frame[1..63]);
    frame
}

#[test]
fn pump_mode_bytes() {
    assert_eq!(PumpMode::Quiet.value(), 0x0);
    assert_eq!(PumpMode::Balanced.value(), 0x1);
    assert_eq!(PumpMode::Extreme.value(), 0x2);
    assert_eq!(PumpMode::from_u8(0), PumpMode::Quiet);
    assert_eq!(PumpMode::from_u8(1), PumpMode::Balanced);
    assert_eq!(PumpMode::from_u8(2), PumpMode::Extreme);
}

#[test]
fn unknown_pump_mode_byte_reads_as_balanced() {
    assert_eq!(PumpMode::from_u8(0x05), PumpMode::Balanced);
    for byte in 3..=255u8 {
        assert_eq!(PumpMode::from_u8(byte), PumpMode::Balanced);
    }
}

#[test]
fn pump_mode_byte_round_trip() {
    for mode in [PumpMode::Quiet, PumpMode::Balanced, PumpMode::Extreme] {
        assert_eq!(PumpMode::from_u8(mode.value()), mode);
    }
}

#[test]
fn pump_mode_names() {
    assert_eq!(PumpMode::Quiet.name(), "Quiet");
    assert_eq!(PumpMode::Balanced.name(), "Balanced");
    assert_eq!(PumpMode::Extreme.name(), "Extreme");
    for mode in [PumpMode::Quiet, PumpMode::Balanced, PumpMode::Extreme] {
        assert_eq!(mode.name(), format!("{:?}", mode));
    }
}

#[test]
fn pump_mode_from_name_in_any_case() {
    assert_eq!(PumpMode::from_str("quiet".to_string()), PumpMode::Quiet);
    assert_eq!(PumpMode::from_str("Quiet".to_string()), PumpMode::Quiet);
    assert_eq!(PumpMode::from_str("QUIET".to_string()), PumpMode::Quiet);
    assert_eq!(PumpMode::from_str("balanced".to_string()), PumpMode::Balanced);
    assert_eq!(PumpMode::from_str("Balanced".to_string()), PumpMode::Balanced);
    assert_eq!(PumpMode::from_str("extreme".to_string()), PumpMode::Extreme);
    assert_eq!(PumpMode::from_str("EXTREME".to_string()), PumpMode::Extreme);
    assert_eq!(PumpMode::from_str("eXtReMe".to_string()), PumpMode::Extreme);
}

#[test]
fn pump_mode_from_unknown_name_is_balanced() {
    for name in ["", "silent", "quiet ", " quiet", "extremes", "0", "quietquiet"] {
        assert_eq!(PumpMode::from_str(name.to_string()), PumpMode::Balanced);
    }
}

#[test]
fn pump_mode_from_lowercase_is_exact() {
    assert_eq!(PumpMode::from_lowercase(&"quiet".to_string()), PumpMode::Quiet);
    assert_eq!(PumpMode::from_lowercase(&"extreme".to_string()), PumpMode::Extreme);
    assert_eq!(PumpMode::from_lowercase(&"balanced".to_string()), PumpMode::Balanced);
    assert_eq!(PumpMode::from_lowercase(&"Quiet".to_string()), PumpMode::Balanced);
    assert_eq!(PumpMode::from_lowercase(&"EXTREME".to_string()), PumpMode::Balanced);
}

#[test]
fn fan_mode_byte() {
    assert_eq!(FanMode::FixedDuty.value(), 0x2);
}

#[test]
fn layout_offsets() {
    assert_eq!(PUMP_MODE_OFFSET, 20);
    assert_eq!(APPLY_OFFSET, 26);
    assert_eq!(FAN_MODE_OFFSETS, [8, 14]);
    assert_eq!(FAN_DUTY_OFFSETS, [13, 19]);
    for i in 0..2 {
        assert_eq!(FAN_DUTY_OFFSETS[i], FAN_MODE_OFFSETS[i] + 5);
    }
}

#[test]
fn config_base_exact_bytes() {
    let mut expected = [0u8; 60];
    expected[0..8].copy_from_slice(&[0x0, 0xff, 0x5, 0xff, 0xff, 0xff, 0xff, 0xff]);
    expected[0x1d - 3] = 7;
    assert_eq!(config_base(), expected);
}

#[test]
fn pump_payload_exact_bytes() {
    for mode in [PumpMode::Quiet, PumpMode::Balanced, PumpMode::Extreme] {
        let mut expected = [0u8; 60];
        expected[0..8].copy_from_slice(&[0x0, 0xff, 0x5, 0xff, 0xff, 0xff, 0xff, 0xff]);
        expected[26] = 7;
        expected[20] = mode.value();
        assert_eq!(pump_payload(mode), expected);
    }
}

#[test]
fn fan_payload_exact_bytes() {
    let mut expected = [0u8; 60];
    expected[0..8].copy_from_slice(&[0x0, 0xff, 0x5, 0xff, 0xff, 0xff, 0xff, 0xff]);
    expected[26] = 7;
    expected[8] = 2;
    expected[13] = 128;
    expected[14] = 2;
    expected[19] = 128;
    expected[20] = 2;
    assert_eq!(fan_payload(50, PumpMode::Extreme), expected);
}

#[test]
fn fan_payload_keeps_the_pump_mode() {
    for mode in [PumpMode::Quiet, PumpMode::Balanced, PumpMode::Extreme] {
        for percentage in [0u32, 1, 33, 50, 99, 100, 250] {
            let payload = fan_payload(percentage, mode);
            assert_eq!(PumpMode::from_u8(payload[PUMP_MODE_OFFSET as usize]), mode);
        }
    }
}

#[test]
fn fan_payload_duty_edges() {
    assert_eq!(fan_payload(0, PumpMode::Balanced)[13], 0);
    assert_eq!(fan_payload(100, PumpMode::Balanced)[13], 255);
    assert_eq!(fan_payload(100, PumpMode::Balanced)[19], 255);
    assert_eq!(fan_payload(400, PumpMode::Balanced)[19], 255);
    assert_eq!(fan_payload(10, PumpMode::Balanced)[13], 26);
}

#[test]
fn set_pump_mode_frame() {
    for byte in [0u8, 1, 2, 5, 255] {
        let frame = set_pump_mode(byte);
        assert_eq!(frame[0], 0x3f);
        assert_eq!(frame[1] & 0x07, 0);
        assert_eq!(frame[2], 0x14);
        assert_eq!(&frame[3..63], &pump_payload(PumpMode::from_u8(byte))[..]);
        assert_eq!(frame[3 + 20], PumpMode::from_u8(byte).value());
        assert_eq!(decode_and_validate(frame), Ok(frame));
        let expected =
            encode_with_nonce(frame[1], 0x14, Some(0), Some(pump_payload(PumpMode::from_u8(byte))));
        assert_eq!(frame, expected);
    }
}

#[test]
fn set_fan_mode_frame() {
    let frame = set_fan_mode(50, PumpMode::Quiet);
    assert_eq!(frame[0], 0x3f);
    assert_eq!(frame[1] & 0x07, 0);
    assert_eq!(frame[2], 0x14);
    assert_eq!(frame[3 + 8], 2);
    assert_eq!(frame[3 + 13], 128);
    assert_eq!(frame[3 + 14], 2);
    assert_eq!(frame[3 + 19], 128);
    assert_eq!(frame[3 + 20], 0);
    assert_eq!(frame[3 + 26], 7);
    assert_eq!(&frame[3..63], &fan_payload(50, PumpMode::Quiet)[..]);
    assert_eq!(decode_and_validate(frame), Ok(frame));
}

#[test]
fn pump_mode_is_found_in_a_report() {
    let report = vec![
        reading("Firmware", "1.2.3"),
        reading("Pump mode", "Extreme"),
        reading("Pump mode", "Quiet"),
    ];
    assert_eq!(get_pump_mode(&report), PumpMode::Extreme);
}

#[test]
fn pump_mode_of_a_report_without_one_is_balanced() {
    assert_eq!(get_pump_mode(&Vec::new()), PumpMode::Balanced);
    let report = vec![reading("Firmware", "Quiet"), reading("pump mode", "Quiet")];
    assert_eq!(get_pump_mode(&report), PumpMode::Balanced);
}

#[test]
fn pump_mode_survives_the_report() {
    for (byte, mode) in [
        (0u8, PumpMode::Quiet),
        (1, PumpMode::Balanced),
        (2, PumpMode::Extreme),
        (5, PumpMode::Balanced),
    ] {
        let report = get_measurements(response_with_pump_mode(byte), None, None);
        assert_eq!(get_pump_mode(&report), mode);
        let payload = fan_payload(40, get_pump_mode(&report));
        assert_eq!(payload[20], mode.value());
    }
}

#[test]
fn pump_mode_of_a_refused_frame_is_balanced() {
    let mut frame = response_with_pump_mode(2);
    frame[63] ^= 0xff;
    let report = get_measurements(frame, None, None);
    assert!(report.is_empty());
    assert_eq!(get_pump_mode(&report), PumpMode::Balanced);
}
