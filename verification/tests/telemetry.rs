use liquid_cooler::fans::fan_payload;
use liquid_cooler::info::{decode, get_measurements, Measurement, MeasurementType};
use liquid_cooler::pump::PumpMode;
use liquid_cooler::utils::crc8;

fn sealed(mut frame: [u8; 64]) -> [u8; 64] {
    frame[63] = crc8(&frame[1..63]);
    frame
}

fn sample_frame() -> [u8; 64] {
    let mut frame = [0u8; 64];
    frame[0] = 0x3f;
    frame[1] = 0xff;
    frame[2] = 0x12;
    frame[3] = 34;
    frame[7] = 0x80;
    frame[8] = 0x1e;
    frame[14] = 128;
    frame[15] = 0xe8;
    frame[16] = 0x03;
    frame[21] = 255;
    frame[22] = 0x34;
    frame[23] = 0x12;
    frame[24] = 2;
    frame[28] = 128;
    sealed(frame)
}

fn fields(m: &Measurement) -> (&str, &str, Option<&str>, MeasurementType) {
    (m.name.as_str(), m.value.as_str(), m.units.as_deref(), m.measurement_type)
}

#[test]
fn decode_gives_eight_measurements_in_order() {
    let report = decode(sample_frame());
    let got: Vec<_> = report.iter().map(fields).collect();
    let expected = vec![
        ("Firmware", "1.2.34", None, MeasurementType::String),
        ("Liquid temperature", "30.50", Some("°C"), MeasurementType::Float),
        ("Pump speed", "50.20", Some("%"), MeasurementType::Float),
        ("Pump mode", "Extreme", None, MeasurementType::String),
        ("Fan 1 speed", "1000", Some("RPM"), MeasurementType::Float),
        ("Fan 1 duty", "50", Some("%"), MeasurementType::Float),
        ("Fan 2 speed", "4660", Some("RPM"), MeasurementType::Float),
        ("Fan 2 duty", "100", Some("%"), MeasurementType::Float),
    ];
    assert_eq!(got, expected);
}

#[test]
fn liquid_temperature_of_the_example_frame() {
    let mut frame = [0u8; 64];
    frame[7] = 0x80;
    frame[8] = 0x1e;
    let report = get_measurements(sealed(frame), None, None);
    let temperature = report.iter().find(|m| m.name == "Liquid temperature").unwrap();
    assert_eq!(temperature.value, "30.50");
    assert_eq!(temperature.units.as_deref(), Some("°C"));
    assert_eq!(temperature.measurement_type, MeasurementType::Float);
}

#[test]
fn all_zero_frame_decodes_to_zeros() {
    let report = decode(sealed([0u8; 64]));
    let got: Vec<_> = report.iter().map(fields).collect();
    let expected = vec![
        ("Firmware", "0.0.0", None, MeasurementType::String),
        ("Liquid temperature", "0.00", Some("°C"), MeasurementType::Float),
        ("Pump speed", "0.00", Some("%"), MeasurementType::Float),
        ("Pump mode", "Quiet", None, MeasurementType::String),
        ("Fan 1 speed", "0", Some("RPM"), MeasurementType::Float),
        ("Fan 1 duty", "0", Some("%"), MeasurementType::Float),
        ("Fan 2 speed", "0", Some("RPM"), MeasurementType::Float),
        ("Fan 2 duty", "0", Some("%"), MeasurementType::Float),
    ];
    assert_eq!(got, expected);
}

#[test]
fn all_ones_frame_decodes_to_the_largest_values() {
    let report = decode(sealed([0xffu8; 64]));
    let got: Vec<_> = report.iter().map(fields).collect();
    let expected = vec![
        ("Firmware", "15.15.255", None, MeasurementType::String),
        ("Liquid temperature", "256.00", Some("°C"), MeasurementType::Float),
        ("Pump speed", "100.00", Some("%"), MeasurementType::Float),
        ("Pump mode", "Balanced", None, MeasurementType::String),
        ("Fan 1 speed", "65535", Some("RPM"), MeasurementType::Float),
        ("Fan 1 duty", "100", Some("%"), MeasurementType::Float),
        ("Fan 2 speed", "65535", Some("RPM"), MeasurementType::Float),
        ("Fan 2 duty", "100", Some("%"), MeasurementType::Float),
    ];
    assert_eq!(got, expected);
}

#[test]
fn unknown_pump_mode_byte_is_reported_as_balanced() {
    let mut frame = [0u8; 64];
    frame[24] = 0x05;
    let report = decode(sealed(frame));
    assert_eq!(report[3].name, "Pump mode");
    assert_eq!(report[3].value, "Balanced");
}

#[test]
fn descriptor_names_come_first() {
    let frame = sample_frame();
    let report = get_measurements(frame, Some("Corsair".to_string()), Some("Cooler".to_string()));
    assert_eq!(report.len(), 10);
    assert_eq!(fields(&report[0]), ("Manufacturer", "Corsair", None, MeasurementType::String));
    assert_eq!(fields(&report[1]), ("Product", "Cooler", None, MeasurementType::String));
    let rest: Vec<_> = report[2..].iter().map(fields).collect();
    let plain = decode(frame);
    let expected: Vec<_> = plain.iter().map(fields).collect();
    assert_eq!(rest, expected);
}

#[test]
fn descriptor_names_are_left_out_when_unknown() {
    let frame = sample_frame();
    let only_product = get_measurements(frame, None, Some("Cooler".to_string()));
    assert_eq!(only_product.len(), 9);
    assert_eq!(only_product[0].name, "Product");
    assert_eq!(only_product[1].name, "Firmware");
    let only_manufacturer = get_measurements(frame, Some("Corsair".to_string()), None);
    assert_eq!(only_manufacturer.len(), 9);
    assert_eq!(only_manufacturer[0].name, "Manufacturer");
    assert_eq!(only_manufacturer[1].name, "Firmware");
    let neither = get_measurements(frame, None, None);
    assert_eq!(neither.len(), 8);
    assert_eq!(neither[0].name, "Firmware");
}

#[test]
fn refused_frame_gives_an_empty_report() {
    let mut frame = sample_frame();
    frame[63] ^= 0x01;
    assert!(get_measurements(frame, Some("Corsair".to_string()), Some("Cooler".to_string()))
        .is_empty());
    let mut other = sample_frame();
    other[8] ^= 0x01;
    assert!(get_measurements(other, None, None).is_empty());
}

#[test]
fn temperature_agrees_with_floats_everywhere() {
    let mut frame = [0u8; 64];
    for whole in 0..=255u8 {
        for part in 0..=255u8 {
            frame[7] = part;
            frame[8] = whole;
            let expected = format!("{:.2}", whole as f32 + part as f32 / 255.0);
            assert_eq!(decode(sealed(frame))[1].value, expected, "at {whole} and {part}");
        }
    }
}

#[test]
fn pump_speed_agrees_with_floats_everywhere() {
    let mut frame = [0u8; 64];
    for byte in 0..=255u8 {
        frame[28] = byte;
        let expected = format!("{:.2}", byte as f32 / 255.0 * 100.0);
        assert_eq!(decode(sealed(frame))[2].value, expected, "at {byte}");
    }
}

#[test]
fn fan_duty_agrees_with_floats_everywhere() {
    let mut frame = [0u8; 64];
    for byte in 0..=255u8 {
        frame[14] = byte;
        frame[21] = 255 - byte;
        let report = decode(sealed(frame));
        assert_eq!(report[5].value, format!("{:.0}", (byte as f32 / 255.0) * 100.0));
        assert_eq!(report[7].value, format!("{:.0}", ((255 - byte) as f32 / 255.0) * 100.0));
    }
}

#[test]
fn fan_speed_is_little_endian() {
    let mut frame = [0u8; 64];
    frame[15] = 0x01;
    frame[16] = 0x02;
    frame[22] = 0xff;
    frame[23] = 0x00;
    let report = decode(sealed(frame));
    assert_eq!(report[4].value, "513");
    assert_eq!(report[6].value, "255");
    for value in [0u16, 9, 10, 99, 100, 999, 1000, 9999, 10000, 65535] {
        frame[15..17].copy_from_slice(&value.to_le_bytes());
        assert_eq!(decode(sealed(frame))[4].value, format!("{:.0}", value));
    }
}

#[test]
fn firmware_splits_byte_two_in_halves() {
    let mut frame = [0u8; 64];
    for byte in 0..=255u8 {
        frame[2] = byte;
        frame[3] = byte.wrapping_mul(3);
        let expected = format!("{}.{}.{}", byte >> 4, byte & 0xf, frame[3]);
        assert_eq!(decode(sealed(frame))[0].value, expected);
    }
}

#[test]
fn fan_duty_written_and_read_back() {
    let payload = fan_payload(50, PumpMode::Balanced);
    assert_eq!(payload[13], 128);
    let mut response = [0u8; 64];
    response[14] = payload[13];
    response[21] = payload[19];
    let report = decode(sealed(response));
    assert_eq!(report[5].value, "50");
    assert_eq!(report[7].value, "50");
}

#[test]
fn measurement_as_a_line() {
    let report = decode(sample_frame());
    assert_eq!(report[0].line(), "Firmware: 1.2.34 ");
    assert_eq!(report[1].line(), "Liquid temperature: 30.50 °C");
    assert_eq!(report[4].line(), "Fan 1 speed: 1000 RPM");
    for measurement in &report {
        let units = measurement.units.clone().unwrap_or("".to_string());
        let expected = format!("{}: {} {}", measurement.name, measurement.value, units);
        assert_eq!(measurement.line(), expected);
    }
}

#[test]
fn measurement_key_is_lower_case_with_underscores() {
    let report = get_measurements(sample_frame(), Some("Maker".to_string()), None);
    let keys: Vec<String> = report.iter().map(|m| m.key()).collect();
    let expected = vec![
        "manufacturer",
        "firmware",
        "liquid_temperature",
        "pump_speed",
        "pump_mode",
        "fan_1_speed",
        "fan_1_duty",
        "fan_2_speed",
        "fan_2_duty",
    ];
    assert_eq!(keys, expected);
    for measurement in &report {
        assert_eq!(measurement.key(), measurement.name.to_lowercase().replace(" ", "_"));
    }
}
