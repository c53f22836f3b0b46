//! The two fans: the payload that sets their duty. Fans and pump share one
//! configuration payload, so the pump mode that is in force is written again
//! with every fan setting.

use crate::frame::{encode, encode_spec, frame_is_valid, COMMAND_WRITE};
use crate::info::measurements_spec;
use crate::pump::{
    config_base, config_base_spec, lemma_reported_pump_mode, pump_mode_of_byte,
    reported_pump_mode, PumpMode, CONFIG_FEATURE, PUMP_MODE_OFFSET,
};
use crate::utils::{fraction_of_byte, fraction_of_byte_spec, is_nonce, lemma_round_div_nearest};
use vstd::prelude::*;

verus! {

/// Offsets of the mode bytes of the two fans in the configuration payload.
pub const FAN_MODE_OFFSETS: [u8; 2] = [0x0b - 3, 0x11 - 3];

/// Offsets of the duty bytes of the two fans: five past their mode bytes.
pub const FAN_DUTY_OFFSETS: [u8; 2] = [0x0b + 2, 0x11 + 2];

/// How a fan is driven.
#[derive(Debug, Clone, Copy, PartialEq, Eq)]
pub enum FanMode {
    /// The fan runs at a fixed share of its full power.
    FixedDuty,
}

impl FanMode {
    /// The byte that stands for the mode on the wire.
    pub open spec fn spec_value(self) -> u8 {
        match self {
            FanMode::FixedDuty => 0x2,
        }
    }

    /// The byte that stands for the mode on the wire.
    pub fn value(&self) -> (byte: u8)
        ensures
            byte == self.spec_value(),
    {
        match self {
            FanMode::FixedDuty => 0x2,
        }
    }
}

/// The payload that drives both fans at `percentage` percent of their full
/// power and keeps the pump in `pump_mode`.
pub open spec fn fan_payload_spec(percentage: u32, pump_mode: PumpMode) -> Seq<u8> {
    let duty = fraction_of_byte_spec(percentage as int) as u8;
    let mode = FanMode::FixedDuty.spec_value();
    config_base_spec().update(FAN_MODE_OFFSETS[0] as int, mode).update(
        FAN_DUTY_OFFSETS[0] as int,
        duty,
    ).update(FAN_MODE_OFFSETS[1] as int, mode).update(FAN_DUTY_OFFSETS[1] as int, duty).update(
        PUMP_MODE_OFFSET as int,
        pump_mode.spec_value(),
    )
}

/// Builds the payload that drives both fans at `percentage` percent of their
/// full power and keeps the pump in `pump_mode`.
pub fn fan_payload(percentage: u32, pump_mode: PumpMode) -> (payload: [u8; 60])
    ensures
        payload@ == fan_payload_spec(percentage, pump_mode),
{
    let mut payload = config_base();
    let mode = FanMode::FixedDuty;
    let duty = fraction_of_byte(percentage);
    let mut i: usize = 0;
    while i < 2
        invariant
            i <= 2,
            duty == fraction_of_byte_spec(percentage as int),
            mode == FanMode::FixedDuty,
            i == 0 ==> payload@ == config_base_spec(),
            i == 1 ==> payload@ == config_base_spec().update(
                FAN_MODE_OFFSETS[0] as int,
                mode.spec_value(),
            ).update(FAN_DUTY_OFFSETS[0] as int, duty),
            i == 2 ==> payload@ == config_base_spec().update(
                FAN_MODE_OFFSETS[0] as int,
                mode.spec_value(),
            ).update(FAN_DUTY_OFFSETS[0] as int, duty).update(
                FAN_MODE_OFFSETS[1] as int,
                mode.spec_value(),
            ).update(FAN_DUTY_OFFSETS[1] as int, duty),
        decreases 2 - i,
    {
        payload[FAN_MODE_OFFSETS[i] as usize] = mode.value();
        payload[FAN_DUTY_OFFSETS[i] as usize] = duty;
        i = i + 1;
    }
    payload[PUMP_MODE_OFFSET as usize] = pump_mode.value();
    payload
}

/// Where the fan payload holds what: the header in bytes 0 to 7, the mode of
/// fan 1 in byte 8 and its duty in byte 13, the mode of fan 2 in byte 14 and
/// its duty in byte 19, the pump mode in byte 20, the apply marker in byte 26,
/// and zero everywhere else. The pump mode that went in reads back from its
/// byte.
pub proof fn lemma_fan_payload_layout(percentage: u32, pump_mode: PumpMode)
    ensures
        fan_payload_spec(percentage, pump_mode).len() == 60,
        fan_payload_spec(percentage, pump_mode).subrange(0, 8) == seq![
            0x00u8,
            0xffu8,
            0x05u8,
            0xffu8,
            0xffu8,
            0xffu8,
            0xffu8,
            0xffu8,
        ],
        fan_payload_spec(percentage, pump_mode)[8] == 0x2,
        fan_payload_spec(percentage, pump_mode)[13] == fraction_of_byte_spec(percentage as int),
        fan_payload_spec(percentage, pump_mode)[14] == 0x2,
        fan_payload_spec(percentage, pump_mode)[19] == fraction_of_byte_spec(percentage as int),
        fan_payload_spec(percentage, pump_mode)[20] == pump_mode.spec_value(),
        pump_mode_of_byte(fan_payload_spec(percentage, pump_mode)[20]) == pump_mode,
        fan_payload_spec(percentage, pump_mode)[26] == 7,
        forall|k: int|
            8 <= k < 60 && k != 8 && k != 13 && k != 14 && k != 19 && k != 20 && k != 26
                ==> fan_payload_spec(percentage, pump_mode)[k] == 0,
{
    lemma_duty_is_byte(percentage);
    assert(fan_payload_spec(percentage, pump_mode).subrange(0, 8) =~= seq![
        0x00u8,
        0xffu8,
        0x05u8,
        0xffu8,
        0xffu8,
        0xffu8,
        0xffu8,
        0xffu8,
    ]);
}

/// A fan setting does not change the pump mode: the mode that is written with
/// it, taken from the report of a telemetry frame, is the mode that the frame
/// carried.
pub proof fn lemma_fan_write_keeps_pump_mode(
    frame: Seq<u8>,
    manufacturer: Option<Seq<char>>,
    product: Option<Seq<char>>,
    percentage: u32,
)
    requires
        frame_is_valid(frame),
    ensures
        pump_mode_of_byte(
            fan_payload_spec(
                percentage,
                reported_pump_mode(measurements_spec(frame, manufacturer, product)),
            )[PUMP_MODE_OFFSET as int],
        ) == pump_mode_of_byte(frame[24]),
{
    lemma_reported_pump_mode(frame, manufacturer, product);
    lemma_fan_payload_layout(
        percentage,
        reported_pump_mode(measurements_spec(frame, manufacturer, product)),
    );
}

/// The duty of a percentage fits in a byte.
pub proof fn lemma_duty_is_byte(percentage: u32)
    ensures
        0 <= fraction_of_byte_spec(percentage as int) <= 255,
{
    lemma_round_div_nearest(percentage as int * 255, 100);
}

/// Builds the frame that sets both fans to `percentage` percent. The pump
/// mode read from the device beforehand is written back with it.
pub fn set_fan_mode(percentage: u32, pump_mode: PumpMode) -> (frame: [u8; 64])
    ensures
        exists|nonce: u8|
            is_nonce(nonce) && frame@ == #[trigger] encode_spec(
                nonce,
                COMMAND_WRITE,
                Some(CONFIG_FEATURE),
                Some(fan_payload_spec(percentage, pump_mode)),
            ),
        frame_is_valid(frame@),
{
    let payload = fan_payload(percentage, pump_mode);
    encode(COMMAND_WRITE, Some(CONFIG_FEATURE), Some(payload))
}

} // verus!
