use liquid_cooler::text::{digit_to_char, push_decimal, push_fixed2, push_hex_pair};

#[test]
fn digits_are_lower_case_characters() {
    let expected = "0123456789abcdef";
    for (digit, c) in expected.chars().enumerate() {
        assert_eq!(digit_to_char(digit as u8), c);
    }
}

#[test]
fn decimal_numerals() {
    for n in [0u32, 1, 9, 10, 11, 99, 100, 101, 255, 1000, 65535, 4_294_967_295] {
        let mut text = String::new();
        push_decimal(&mut text, n);
        assert_eq!(text, n.to_string());
    }
}

#[test]
fn decimal_numeral_is_appended() {
    let mut text = "speed ".to_string();
    push_decimal(&mut text, 1200);
    assert_eq!(text, "speed 1200");
    push_decimal(&mut text, 0);
    assert_eq!(text, "speed 12000");
}

#[test]
fn two_decimal_places() {
    for (hundredths, expected) in [
        (0u32, "0.00"),
        (5, "0.05"),
        (50, "0.50"),
        (99, "0.99"),
        (100, "1.00"),
        (3050, "30.50"),
        (10000, "100.00"),
        (25600, "256.00"),
        (4_294_967_295, "42949672.95"),
    ] {
        let mut text = String::new();
        push_fixed2(&mut text, hundredths);
        assert_eq!(text, expected);
    }
}

#[test]
fn two_decimal_places_on_every_small_number() {
    for hundredths in 0..30000u32 {
        let mut text = String::new();
        push_fixed2(&mut text, hundredths);
        assert_eq!(text, format!("{}.{:02}", hundredths / 100, hundredths % 100));
    }
}

#[test]
fn hex_pairs() {
    for byte in 0..=255u8 {
        let mut text = String::new();
        push_hex_pair(&mut text, byte);
        assert_eq!(text, format!("{:02x}", byte));
    }
    let mut text = "#".to_string();
    push_hex_pair(&mut text, 0x0a);
    push_hex_pair(&mut text, 0xf0);
    assert_eq!(text, "#0af0");
}
