//! Telemetry: the measurements that a response frame carries.

use crate::frame::{decode_and_validate, frame_is_valid};
use crate::pump::{pump_mode_of_byte, PumpMode};
use crate::text::{decimal_digits, fixed2_digits, lowercase, push_decimal, push_fixed2};
use crate::utils::{byte_to_fraction, byte_to_fraction_spec, round_div, rounded_div, u16le_from};
use vstd::prelude::*;
use vstd::string::{StrSliceExecFns, StringExecFns};

verus! {

/// The kind of value that a measurement holds.
#[derive(Debug, Clone, Copy, PartialEq, Eq)]
pub enum MeasurementType {
    /// A text.
    String,
    /// A number that may have decimal places.
    Float,
    /// A whole number.
    Int,
}

/// One named reading of the device, its value written out as text.
#[derive(Debug, Clone)]
pub struct Measurement {
    pub name: String,
    pub value: String,
    pub units: Option<String>,
    pub measurement_type: MeasurementType,
}

/// A measurement as plain values.
pub struct MeasurementView {
    pub name: Seq<char>,
    pub value: Seq<char>,
    pub units: Option<Seq<char>>,
    pub measurement_type: MeasurementType,
}

impl View for Measurement {
    type V = MeasurementView;

    open spec fn view(&self) -> MeasurementView {
        MeasurementView {
            name: self.name@,
            value: self.value@,
            units: match self.units {
                Some(units) => Some(units@),
                None => None,
            },
            measurement_type: self.measurement_type,
        }
    }
}

/// The text with each space replaced by an underscore.
pub open spec fn underscored(text: Seq<char>) -> Seq<char> {
    text.map_values(|c: char| if c == ' ' { '_' } else { c })
}

impl MeasurementView {
    /// The units, or the empty text where there are none.
    pub open spec fn units_text(self) -> Seq<char> {
        match self.units {
            Some(units) => units,
            None => Seq::empty(),
        }
    }

    /// The measurement as one line of a report: name, colon, value, units.
    pub open spec fn line(self) -> Seq<char> {
        self.name + ": "@ + self.value + " "@ + self.units_text()
    }

    /// The name as a key: in lower case, with underscores for spaces.
    pub open spec fn key(self) -> Seq<char> {
        underscored(lowercase(self.name))
    }
}

impl Measurement {
    /// Writes the measurement as one line of a report.
    pub fn line(&self) -> (text: String)
        ensures
            text@ == self@.line(),
    {
        let mut text = self.name.clone();
        text.append(": ");
        text.append(self.value.as_str());
        text.append(" ");
        if let Some(units) = &self.units {
            text.append(units.as_str());
        }
        assert(text@ =~= self@.line());
        text
    }

    /// Derives a key from the name: lower case, underscores for spaces.
    pub fn key(&self) -> (text: String)
        ensures
            text@ == self@.key(),
    {
        let lowered = self.name.as_str().to_lowercase();
        let length = lowered.as_str().unicode_len();
        let mut text = String::new();
        let mut i: usize = 0;
        while i < length
            invariant
                i <= length,
                length == lowered@.len(),
                text@ == underscored(lowered@.take(i as int)),
            decreases length - i,
        {
            let c = lowered.as_str().get_char(i);
            text.push(if c == ' ' { '_' } else { c });
            assert(lowered@.take(i + 1) =~= lowered@.take(i as int).push(c));
            assert(underscored(lowered@.take(i + 1)) =~= underscored(lowered@.take(i as int)).push(
                if c == ' ' { '_' } else { c },
            ));
            i = i + 1;
        }
        assert(lowered@.take(length as int) =~= lowered@);
        text
    }
}

/// The measurements of a sequence as plain values.
pub open spec fn measurement_views(measurements: Seq<Measurement>) -> Seq<MeasurementView> {
    measurements.map_values(|m: Measurement| m@)
}

/// A measurement that holds a text without units.
pub open spec fn text_measurement(name: Seq<char>, value: Seq<char>) -> MeasurementView {
    MeasurementView { name, value, units: None, measurement_type: MeasurementType::String }
}

/// A measurement that holds a number with units.
pub open spec fn number_measurement(
    name: Seq<char>,
    value: Seq<char>,
    units: Seq<char>,
) -> MeasurementView {
    MeasurementView { name, value, units: Some(units), measurement_type: MeasurementType::Float }
}

/// The firmware version: the two halves of byte 2 and byte 3, separated by
/// dots.
pub open spec fn firmware_text(frame: Seq<u8>) -> Seq<char> {
    decimal_digits((frame[2] as nat) / 16) + seq!['.'] + decimal_digits((frame[2] as nat) % 16)
        + seq!['.'] + decimal_digits(frame[3] as nat)
}

/// The liquid temperature in hundredths of a degree: byte 8 holds the whole
/// degrees and byte 7 the fraction in 255ths, so the temperature is
/// `(255 * b8 + b7) / 255` degrees, here rounded to the nearest hundredth.
pub open spec fn temperature_hundredths(frame: Seq<u8>) -> nat {
    round_div(100 * (255 * frame[8] + frame[7]), 255) as nat
}

/// The pump duty in hundredths of a percent: byte 28 holds the duty in 255ths
/// of the full duty, so the duty is `100 * b28 / 255` percent, here rounded
/// to the nearest hundredth.
pub open spec fn pump_duty_hundredths(frame: Seq<u8>) -> nat {
    round_div(100 * (100 * frame[28]), 255) as nat
}

/// The 16-bit little-endian integer at `offset`.
pub open spec fn u16le_at(frame: Seq<u8>, offset: int) -> nat {
    (frame[offset] + 256 * frame[offset + 1]) as nat
}

/// The eight measurements that a response frame carries, in report order.
pub open spec fn telemetry_spec(frame: Seq<u8>) -> Seq<MeasurementView> {
    seq![
        text_measurement("Firmware"@, firmware_text(frame)),
        number_measurement(
            "Liquid temperature"@,
            fixed2_digits(temperature_hundredths(frame)),
            "°C"@,
        ),
        number_measurement("Pump speed"@, fixed2_digits(pump_duty_hundredths(frame)), "%"@),
        text_measurement("Pump mode"@, pump_mode_of_byte(frame[24]).spec_name()),
        number_measurement("Fan 1 speed"@, decimal_digits(u16le_at(frame, 15)), "RPM"@),
        number_measurement(
            "Fan 1 duty"@,
            decimal_digits(byte_to_fraction_spec(frame[14] as int) as nat),
            "%"@,
        ),
        number_measurement("Fan 2 speed"@, decimal_digits(u16le_at(frame, 22)), "RPM"@),
        number_measurement(
            "Fan 2 duty"@,
            decimal_digits(byte_to_fraction_spec(frame[21] as int) as nat),
            "%"@,
        ),
    ]
}

/// The measurements that the device's descriptor gives: its manufacturer and
/// product names, each only if it is known.
pub open spec fn descriptor_spec(
    manufacturer: Option<Seq<char>>,
    product: Option<Seq<char>>,
) -> Seq<MeasurementView> {
    (match manufacturer {
        Some(name) => seq![text_measurement("Manufacturer"@, name)],
        None => seq![],
    }) + (match product {
        Some(name) => seq![text_measurement("Product"@, name)],
        None => seq![],
    })
}

/// The full report for a response frame: nothing if its checksum fails,
/// else the descriptor's names followed by the frame's measurements.
pub open spec fn measurements_spec(
    frame: Seq<u8>,
    manufacturer: Option<Seq<char>>,
    product: Option<Seq<char>>,
) -> Seq<MeasurementView> {
    if frame_is_valid(frame) {
        descriptor_spec(manufacturer, product) + telemetry_spec(frame)
    } else {
        seq![]
    }
}

/// The view of an optional text.
pub open spec fn text_view(text: Option<String>) -> Option<Seq<char>> {
    match text {
        Some(text) => Some(text@),
        None => None,
    }
}

/// Makes a measurement that holds a text without units.
fn text_entry(name: &str, value: String) -> (entry: Measurement)
    ensures
        entry@ == text_measurement(name@, value@),
{
    Measurement {
        name: name.to_owned(),
        value,
        units: None,
        measurement_type: MeasurementType::String,
    }
}

/// Makes a measurement that holds a number with units.
fn number_entry(name: &str, value: String, units: &str) -> (entry: Measurement)
    ensures
        entry@ == number_measurement(name@, value@, units@),
{
    Measurement {
        name: name.to_owned(),
        value,
        units: Some(units.to_owned()),
        measurement_type: MeasurementType::Float,
    }
}

/// Writes a natural number as a decimal numeral.
fn decimal_text(n: u32) -> (text: String)
    ensures
        text@ == decimal_digits(n as nat),
{
    let mut text = String::new();
    push_decimal(&mut text, n);
    text
}

/// Writes a number of hundredths as a numeral with two decimal places.
fn fixed2_text(hundredths: u32) -> (text: String)
    ensures
        text@ == fixed2_digits(hundredths as nat),
{
    let mut text = String::new();
    push_fixed2(&mut text, hundredths);
    text
}

/// Writes the firmware version of a frame.
fn firmware_version(frame: &[u8; 64]) -> (text: String)
    ensures
        text@ == firmware_text(frame@),
{
    let mut text = String::new();
    push_decimal(&mut text, (frame[2] >> 4) as u32);
    text.push('.');
    push_decimal(&mut text, (frame[2] & 0xf) as u32);
    text.push('.');
    push_decimal(&mut text, frame[3] as u32);
    let byte = frame[2];
    assert(byte >> 4 == byte / 16 && byte & 0xf == byte % 16) by (bit_vector);
    assert(text@ =~= firmware_text(frame@));
    text
}

/// Decodes the measurements of a response frame whose checksum has been
/// checked.
pub fn decode(frame: [u8; 64]) -> (measurements: Vec<Measurement>)
    requires
        frame_is_valid(frame@),
    ensures
        measurement_views(measurements@) == telemetry_spec(frame@),
{
    let firmware = text_entry("Firmware", firmware_version(&frame));
    let temperature: u32 = rounded_div(100 * (255 * (frame[8] as u32) + frame[7] as u32), 255);
    let liquid = number_entry("Liquid temperature", fixed2_text(temperature), "°C");
    let pump_duty: u32 = rounded_div(100 * (100 * (frame[28] as u32)), 255);
    let pump_speed = number_entry("Pump speed", fixed2_text(pump_duty), "%");
    let pump_mode = text_entry("Pump mode", PumpMode::from_u8(frame[24]).name());
    let fan1_speed = fan_speed_entry("Fan 1 speed", &frame, 15);
    let fan1_duty = fan_duty_entry("Fan 1 duty", frame[14]);
    let fan2_speed = fan_speed_entry("Fan 2 speed", &frame, 22);
    let fan2_duty = fan_duty_entry("Fan 2 duty", frame[21]);
    let measurements = vec![
        firmware,
        liquid,
        pump_speed,
        pump_mode,
        fan1_speed,
        fan1_duty,
        fan2_speed,
        fan2_duty,
    ];
    assert(measurement_views(measurements@) =~= telemetry_spec(frame@));
    measurements
}

/// Makes the measurement of a fan's speed from the 16-bit integer at
/// `offset`.
fn fan_speed_entry(name: &str, frame: &[u8; 64], offset: usize) -> (entry: Measurement)
    requires
        offset + 1 < 64,
    ensures
        entry@ == number_measurement(name@, decimal_digits(u16le_at(frame@, offset as int)), "RPM"@),
{
    let speed = u16le_from(frame.as_slice(), offset);
    number_entry(name, decimal_text(speed as u32), "RPM")
}

/// Makes the measurement of a fan's duty from its byte.
fn fan_duty_entry(name: &str, duty: u8) -> (entry: Measurement)
    ensures
        entry@ == number_measurement(
            name@,
            decimal_digits(byte_to_fraction_spec(duty as int) as nat),
            "%"@,
        ),
{
    number_entry(name, decimal_text(byte_to_fraction(duty) as u32), "%")
}

/// Makes the report for a response frame: the names from the device's
/// descriptor, where they are known, followed by the measurements of the
/// frame. A frame whose checksum fails gives an empty report.
pub fn get_measurements(
    res: [u8; 64],
    manufacturer: Option<String>,
    product: Option<String>,
) -> (measurements: Vec<Measurement>)
    ensures
        measurement_views(measurements@) == measurements_spec(
            res@,
            text_view(manufacturer),
            text_view(product),
        ),
{
    match decode_and_validate(res) {
        Err(_) => {
            let measurements: Vec<Measurement> = Vec::new();
            assert(measurement_views(measurements@) =~= seq![]);
            measurements
        },
        Ok(frame) => {
            let mut measurements: Vec<Measurement> = Vec::new();
            if let Some(name) = manufacturer {
                measurements.push(text_entry("Manufacturer", name));
            }
            if let Some(name) = product {
                measurements.push(text_entry("Product", name));
            }
            let ghost descriptor = measurement_views(measurements@);
            assert(descriptor =~= descriptor_spec(text_view(manufacturer), text_view(product)));
            let mut telemetry = decode(frame);
            let ghost before = measurements@;
            let ghost added = telemetry@;
            measurements.append(&mut telemetry);
            assert(measurement_views(measurements@) =~= measurement_views(before)
                + measurement_views(added));
            measurements
        },
    }
}

} // verus!
