//! The pump: its modes, and the configuration payload that it shares with
//! the fans.

use crate::frame::{encode, encode_spec, frame_is_valid, COMMAND_WRITE, PAYLOAD_LEN};
use crate::info::{
    descriptor_spec, measurement_views, measurements_spec, telemetry_spec, Measurement,
    MeasurementView,
};
use crate::text::lowercase;
use crate::utils::is_nonce;
use vstd::prelude::*;

verus! {

/// Offset of the pump mode in the configuration payload.
pub const PUMP_MODE_OFFSET: u8 = 0x17 - 3;

/// Offset of the marker that makes the device apply a configuration.
pub const APPLY_OFFSET: u8 = 0x1d - 3;

/// The marker that makes the device apply a configuration.
pub const APPLY_MARKER: u8 = 7;

/// Feature selector of the fan and pump configuration.
pub const CONFIG_FEATURE: u8 = 0b000;

/// How hard the pump works.
#[derive(Debug, Clone, Copy, PartialEq, Eq)]
pub enum PumpMode {
    Quiet,
    Balanced,
    Extreme,
}

/// The mode that a byte stands for; a byte that stands for none reads as
/// `Balanced`.
pub open spec fn pump_mode_of_byte(byte: u8) -> PumpMode {
    if byte == 0 {
        PumpMode::Quiet
    } else if byte == 2 {
        PumpMode::Extreme
    } else {
        PumpMode::Balanced
    }
}

/// The mode that a name in lower case stands for; a name that stands for
/// none reads as `Balanced`.
pub open spec fn pump_mode_of_name(name: Seq<char>) -> PumpMode {
    if name == "quiet"@ {
        PumpMode::Quiet
    } else if name == "extreme"@ {
        PumpMode::Extreme
    } else {
        PumpMode::Balanced
    }
}

/// The mode that a name in any case stands for: the names of the three modes
/// as they are written in a measurement, and every text whose lower-case
/// form is a mode's name in lower case; any other text reads as `Balanced`.
pub open spec fn pump_mode_of_text(text: Seq<char>) -> PumpMode {
    if text == PumpMode::Quiet.spec_name() {
        PumpMode::Quiet
    } else if text == PumpMode::Balanced.spec_name() {
        PumpMode::Balanced
    } else if text == PumpMode::Extreme.spec_name() {
        PumpMode::Extreme
    } else {
        pump_mode_of_name(lowercase(text))
    }
}

/// The pump mode that a report gives: the value of its first measurement
/// named "Pump mode", read as a mode name; `Balanced` if it has none.
pub open spec fn reported_pump_mode(report: Seq<MeasurementView>) -> PumpMode
    decreases report.len(),
{
    if report.len() == 0 {
        PumpMode::Balanced
    } else if report[0].name == "Pump mode"@ {
        pump_mode_of_text(report[0].value)
    } else {
        reported_pump_mode(report.drop_first())
    }
}

impl PumpMode {
    /// The byte that stands for the mode on the wire.
    pub open spec fn spec_value(self) -> u8 {
        match self {
            PumpMode::Quiet => 0x0,
            PumpMode::Balanced => 0x1,
            PumpMode::Extreme => 0x2,
        }
    }

    /// The name of the mode as it appears in a measurement.
    pub open spec fn spec_name(self) -> Seq<char> {
        match self {
            PumpMode::Quiet => "Quiet"@,
            PumpMode::Balanced => "Balanced"@,
            PumpMode::Extreme => "Extreme"@,
        }
    }

    /// Reads a mode from its byte; an unknown byte gives `Balanced`.
    pub fn from_u8(mode: u8) -> (result: PumpMode)
        ensures
            result == pump_mode_of_byte(mode),
    {
        match mode {
            0x0 => PumpMode::Quiet,
            0x1 => PumpMode::Balanced,
            0x2 => PumpMode::Extreme,
            _ => PumpMode::Balanced,
        }
    }

    /// Reads a mode from its name in lower case; an unknown name gives
    /// `Balanced`.
    pub fn from_lowercase(name: &String) -> (result: PumpMode)
        ensures
            result == pump_mode_of_name(name@),
    {
        if *name == "quiet".to_owned() {
            PumpMode::Quiet
        } else if *name == "extreme".to_owned() {
            PumpMode::Extreme
        } else {
            PumpMode::Balanced
        }
    }

    /// Reads a mode from its name in any case; an unknown name gives
    /// `Balanced`. A name as `name` writes it is recognised as it stands;
    /// any other text is put in lower case and read by `from_lowercase`.
    pub fn from_str(mode: String) -> (result: PumpMode)
        ensures
            result == pump_mode_of_text(mode@),
    {
        if mode == PumpMode::Quiet.name() {
            PumpMode::Quiet
        } else if mode == PumpMode::Balanced.name() {
            PumpMode::Balanced
        } else if mode == PumpMode::Extreme.name() {
            PumpMode::Extreme
        } else {
            let lowered = mode.as_str().to_lowercase();
            PumpMode::from_lowercase(&lowered)
        }
    }

    /// The byte that stands for the mode on the wire.
    pub fn value(&self) -> (byte: u8)
        ensures
            byte == self.spec_value(),
    {
        match self {
            PumpMode::Quiet => 0x0,
            PumpMode::Balanced => 0x1,
            PumpMode::Extreme => 0x2,
        }
    }

    /// The name of the mode as it appears in a measurement.
    pub fn name(&self) -> (text: String)
        ensures
            text@ == self.spec_name(),
    {
        match self {
            PumpMode::Quiet => "Quiet".to_owned(),
            PumpMode::Balanced => "Balanced".to_owned(),
            PumpMode::Extreme => "Extreme".to_owned(),
        }
    }
}

/// A mode that was written as a byte reads back as itself, and so does a
/// mode that was written as a name.
pub proof fn lemma_pump_mode_round_trip(mode: PumpMode)
    ensures
        pump_mode_of_byte(mode.spec_value()) == mode,
        pump_mode_of_text(mode.spec_name()) == mode,
{
    reveal_strlit("Quiet");
    reveal_strlit("Balanced");
    reveal_strlit("Extreme");
    assert("Quiet"@.len() == 5 && "Balanced"@.len() == 8 && "Extreme"@.len() == 7);
}

/// The pump mode that the report of a telemetry frame gives is the one that
/// byte 24 of the frame stands for, whatever names the descriptor gave; a
/// frame that was refused gives `Balanced`.
pub proof fn lemma_reported_pump_mode(
    frame: Seq<u8>,
    manufacturer: Option<Seq<char>>,
    product: Option<Seq<char>>,
)
    ensures
        reported_pump_mode(measurements_spec(frame, manufacturer, product)) == if frame_is_valid(
            frame,
        ) {
            pump_mode_of_byte(frame[24])
        } else {
            PumpMode::Balanced
        },
{
    let report = measurements_spec(frame, manufacturer, product);
    if frame_is_valid(frame) {
        let telemetry = telemetry_spec(frame);
        let t1 = telemetry.drop_first();
        let t2 = t1.drop_first();
        let t3 = t2.drop_first();
        assert(telemetry[0].name == "Firmware"@ && t1[0].name == "Liquid temperature"@ && t2[0].name
            == "Pump speed"@ && t3[0] == telemetry[3]);
        lemma_other_names();
        lemma_pump_mode_round_trip(pump_mode_of_byte(frame[24]));
        assert(reported_pump_mode(t3) == pump_mode_of_byte(frame[24]));
        assert(reported_pump_mode(t2) == reported_pump_mode(t3));
        assert(reported_pump_mode(t1) == reported_pump_mode(t2));
        assert(reported_pump_mode(telemetry) == reported_pump_mode(t1));
        let descriptor = descriptor_spec(manufacturer, product);
        assert(report == descriptor + telemetry);
        if descriptor.len() == 0 {
            assert(report =~= telemetry);
        } else if descriptor.len() == 1 {
            assert(report[0].name == "Manufacturer"@ || report[0].name == "Product"@);
            assert(report.drop_first() =~= telemetry);
        } else {
            let r1 = report.drop_first();
            assert(report[0].name == "Manufacturer"@ && r1[0].name == "Product"@);
            assert(r1.drop_first() =~= telemetry);
            assert(reported_pump_mode(r1) == reported_pump_mode(telemetry));
        }
    } else {
        assert(report.len() == 0);
    }
}

/// The names of the measurements that come before the pump mode in a report
/// differ from "Pump mode".
proof fn lemma_other_names()
    ensures
        "Manufacturer"@ != "Pump mode"@,
        "Product"@ != "Pump mode"@,
        "Firmware"@ != "Pump mode"@,
        "Liquid temperature"@ != "Pump mode"@,
        "Pump speed"@ != "Pump mode"@,
{
    reveal_strlit("Pump mode");
    reveal_strlit("Manufacturer");
    reveal_strlit("Product");
    reveal_strlit("Firmware");
    reveal_strlit("Liquid temperature");
    reveal_strlit("Pump speed");
    assert("Pump mode"@.len() == 9);
    assert("Manufacturer"@.len() == 12);
    assert("Product"@.len() == 7);
    assert("Firmware"@.len() == 8);
    assert("Liquid temperature"@.len() == 18);
    assert("Pump speed"@.len() == 10);
}

/// The configuration payload before any fan or pump setting: the fixed
/// header in bytes 0 to 7, the apply marker, and zero everywhere else.
pub open spec fn config_base_spec() -> Seq<u8> {
    Seq::new(
        PAYLOAD_LEN as nat,
        |k: int|
            if k == 0 {
                0x00u8
            } else if k == 2 {
                0x05u8
            } else if k < 8 {
                0xffu8
            } else if k == APPLY_OFFSET {
                APPLY_MARKER
            } else {
                0x00u8
            },
    )
}

/// The payload that sets the pump mode.
pub open spec fn pump_payload_spec(mode: PumpMode) -> Seq<u8> {
    config_base_spec().update(PUMP_MODE_OFFSET as int, mode.spec_value())
}

/// Where the pump payload holds what: the header in bytes 0 to 7, the pump
/// mode in byte 20, the apply marker in byte 26, and zero everywhere else.
pub proof fn lemma_pump_payload_layout(mode: PumpMode)
    ensures
        pump_payload_spec(mode).len() == 60,
        pump_payload_spec(mode).subrange(0, 8) == seq![
            0x00u8,
            0xffu8,
            0x05u8,
            0xffu8,
            0xffu8,
            0xffu8,
            0xffu8,
            0xffu8,
        ],
        pump_payload_spec(mode)[20] == mode.spec_value(),
        pump_mode_of_byte(pump_payload_spec(mode)[20]) == mode,
        pump_payload_spec(mode)[26] == 7,
        forall|k: int| 8 <= k < 60 && k != 20 && k != 26 ==> pump_payload_spec(mode)[k] == 0,
{
    assert(pump_payload_spec(mode).subrange(0, 8) =~= seq![
        0x00u8,
        0xffu8,
        0x05u8,
        0xffu8,
        0xffu8,
        0xffu8,
        0xffu8,
        0xffu8,
    ]);
}

/// Builds the configuration payload before any fan or pump setting.
pub fn config_base() -> (payload: [u8; 60])
    ensures
        payload@ == config_base_spec(),
{
    let mut payload = [0u8; 60];
    payload[1] = 0xff;
    payload[2] = 0x05;
    payload[3] = 0xff;
    payload[4] = 0xff;
    payload[5] = 0xff;
    payload[6] = 0xff;
    payload[7] = 0xff;
    payload[APPLY_OFFSET as usize] = APPLY_MARKER;
    assert(payload@ =~= config_base_spec());
    payload
}

/// Builds the payload that sets the pump mode.
pub fn pump_payload(mode: PumpMode) -> (payload: [u8; 60])
    ensures
        payload@ == pump_payload_spec(mode),
{
    let mut payload = config_base();
    payload[PUMP_MODE_OFFSET as usize] = mode.value();
    payload
}

/// Builds the frame that sets the pump mode to the one that `mode` stands
/// for.
pub fn set_pump_mode(mode: u8) -> (frame: [u8; 64])
    ensures
        exists|nonce: u8|
            is_nonce(nonce) && frame@ == #[trigger] encode_spec(
                nonce,
                COMMAND_WRITE,
                Some(CONFIG_FEATURE),
                Some(pump_payload_spec(pump_mode_of_byte(mode))),
            ),
        frame_is_valid(frame@),
{
    let payload = pump_payload(PumpMode::from_u8(mode));
    encode(COMMAND_WRITE, Some(CONFIG_FEATURE), Some(payload))
}

/// Finds the pump mode in a report: the value of the first measurement named
/// "Pump mode", read as a mode name in any case. A report without such a
/// measurement gives `Balanced`.
pub fn get_pump_mode(measurements: &Vec<Measurement>) -> (mode: PumpMode)
    ensures
        mode == reported_pump_mode(measurement_views(measurements@)),
{
    let wanted = "Pump mode".to_owned();
    let ghost views = measurement_views(measurements@);
    let mut i: usize = 0;
    assert(views.skip(0) =~= views);
    while i < measurements.len()
        invariant
            i <= measurements.len(),
            wanted@ == "Pump mode"@,
            views == measurement_views(measurements@),
            reported_pump_mode(views) == reported_pump_mode(views.skip(i as int)),
        decreases measurements.len() - i,
    {
        let ghost rest = views.skip(i as int);
        assert(rest[0] == views[i as int]);
        assert(rest.drop_first() =~= views.skip(i + 1));
        if measurements[i].name == wanted {
            return PumpMode::from_str(measurements[i].value.clone());
        }
        i = i + 1;
    }
    assert(views.skip(i as int).len() == 0);
    PumpMode::Balanced
}

} // verus!
