//! The 64-byte envelope of every request and response.
//!
//! Byte 0 is a fixed marker. Byte 1 carries a nonce in its upper bits and a
//! command or feature code in its lower bits. When a feature selector is
//! given, byte 2 carries the command and the payload starts at byte 3;
//! otherwise the payload starts at byte 2. Byte 63 is the checksum of bytes
//! 1 to 62.

use crate::utils::{
    crc8, crc8_spec, is_nonce, lemma_crc8_detects_one_changed_byte, lemma_nonce_low_bits,
    random_byte,
};
use vstd::prelude::*;
use vstd::slice::slice_subrange;

verus! {

/// Length of a frame in bytes.
pub const FRAME_LEN: usize = 64;

/// Length of the payload region in bytes.
pub const PAYLOAD_LEN: usize = 60;

/// The first byte of every frame.
pub const FRAME_MARKER: u8 = 0x3f;

/// Index of the checksum byte.
pub const CHECKSUM_OFFSET: usize = 63;

/// Command that asks the device for a telemetry snapshot.
pub const COMMAND_TELEMETRY: u8 = 0xff;

/// Command that writes a subsystem configuration.
pub const COMMAND_WRITE: u8 = 0x14;

/// Why a frame was refused.
#[derive(Debug, Clone, Copy, PartialEq, Eq)]
pub enum ChecksumError {
    /// The last byte is not the checksum of bytes 1 to 62.
    ChecksumMismatch,
}

impl ChecksumError {
    /// The error in words.
    pub fn message(&self) -> (text: String)
        ensures
            text@ == "CRC8 check failed or read error"@,
    {
        "CRC8 check failed or read error".to_owned()
    }
}

/// Index of the first payload byte: 3 with a feature selector, 2 without.
pub open spec fn payload_offset(feature: Option<u8>) -> int {
    if feature is Some {
        3
    } else {
        2
    }
}

/// The code that shares byte 1 with the nonce: the feature selector, or the
/// command when there is no selector.
pub open spec fn byte_one_code(command: u8, feature: Option<u8>) -> u8 {
    match feature {
        Some(selector) => selector,
        None => command,
    }
}

/// The byte at index `i` of a frame, for `i` below the checksum.
pub open spec fn frame_byte(
    nonce: u8,
    command: u8,
    feature: Option<u8>,
    payload: Option<Seq<u8>>,
    i: int,
) -> u8 {
    if i == 0 {
        FRAME_MARKER
    } else if i == 1 {
        nonce | byte_one_code(command, feature)
    } else if i == 2 && feature is Some {
        command
    } else {
        let j = i - payload_offset(feature);
        match payload {
            Some(bytes) => if 0 <= j < bytes.len() {
                bytes[j]
            } else {
                0
            },
            None => 0,
        }
    }
}

/// Bytes 0 to 62 of a frame: everything but the checksum.
pub open spec fn frame_body(
    nonce: u8,
    command: u8,
    feature: Option<u8>,
    payload: Option<Seq<u8>>,
) -> Seq<u8> {
    Seq::new(CHECKSUM_OFFSET as nat, |i: int| frame_byte(nonce, command, feature, payload, i))
}

/// The checksum that guards a frame: that of its bytes 1 to 62.
pub open spec fn frame_checksum(frame: Seq<u8>) -> u8 {
    crc8_spec(frame.subrange(1, CHECKSUM_OFFSET as int))
}

/// The frame for a command: its body followed by the checksum of the body.
pub open spec fn encode_spec(
    nonce: u8,
    command: u8,
    feature: Option<u8>,
    payload: Option<Seq<u8>>,
) -> Seq<u8> {
    let body = frame_body(nonce, command, feature, payload);
    body.push(frame_checksum(body))
}

/// A frame is valid when it has 64 bytes and the last one is the checksum of
/// bytes 1 to 62.
pub open spec fn frame_is_valid(frame: Seq<u8>) -> bool {
    frame.len() == FRAME_LEN && frame[CHECKSUM_OFFSET as int] == frame_checksum(frame)
}

/// The view of an optional payload.
pub open spec fn payload_view(payload: Option<[u8; 60]>) -> Option<Seq<u8>> {
    match payload {
        Some(bytes) => Some(bytes@),
        None => None,
    }
}

/// Builds the frame for `command` with the given nonce.
pub fn encode_with_nonce(
    nonce: u8,
    command: u8,
    feature: Option<u8>,
    payload: Option<[u8; 60]>,
) -> (frame: [u8; 64])
    ensures
        frame@ == encode_spec(nonce, command, feature, payload_view(payload)),
{
    let ghost bytes = payload_view(payload);
    let mut frame = [0u8; 64];
    frame[0] = FRAME_MARKER;
    let start: usize = match feature {
        Some(selector) => {
            frame[1] = nonce | selector;
            frame[2] = command;
            3
        },
        None => {
            frame[1] = nonce | command;
            2
        },
    };
    if let Some(source) = payload {
        let mut j: usize = 0;
        while j < PAYLOAD_LEN
            invariant
                j <= PAYLOAD_LEN,
                start == payload_offset(feature),
                bytes == Some(source@),
                forall|i: int|
                    0 <= i < start + j ==> frame@[i] == frame_byte(
                        nonce,
                        command,
                        feature,
                        bytes,
                        i,
                    ),
                forall|i: int| start + j <= i < FRAME_LEN ==> frame@[i] == 0,
            decreases PAYLOAD_LEN - j,
        {
            frame[start + j] = source[j];
            j = j + 1;
        }
    }
    let ghost body = frame_body(nonce, command, feature, bytes);
    assert(frame@.subrange(0, CHECKSUM_OFFSET as int) =~= body);
    assert(frame@.subrange(1, CHECKSUM_OFFSET as int) =~= body.subrange(
        1,
        CHECKSUM_OFFSET as int,
    ));
    let checksum = crc8(slice_subrange(frame.as_slice(), 1, CHECKSUM_OFFSET));
    frame[CHECKSUM_OFFSET] = checksum;
    assert(frame@ =~= body.push(frame_checksum(body)));
    frame
}

/// Builds the frame for `command` with a fresh nonce.
///
/// The nonce is random, so the result is stated for whichever nonce was
/// drawn: the frame is the one that `encode_with_nonce` builds for it.
pub fn encode(command: u8, feature: Option<u8>, payload: Option<[u8; 60]>) -> (frame: [u8; 64])
    ensures
        exists|nonce: u8|
            is_nonce(nonce) && frame@ == #[trigger] encode_spec(
                nonce,
                command,
                feature,
                payload_view(payload),
            ),
        frame_is_valid(frame@),
{
    let nonce = random_byte();
    let frame = encode_with_nonce(nonce, command, feature, payload);
    proof {
        lemma_encoded_frame_is_valid(nonce, command, feature, payload_view(payload));
    }
    frame
}

/// Checks the checksum of a received frame and hands the frame back when it
/// holds.
pub fn decode_and_validate(frame: [u8; 64]) -> (result: Result<[u8; 64], ChecksumError>)
    ensures
        match result {
            Ok(accepted) => frame_is_valid(frame@) && accepted == frame,
            Err(error) => !frame_is_valid(frame@) && error == ChecksumError::ChecksumMismatch,
        },
{
    let checksum = crc8(slice_subrange(frame.as_slice(), 1, CHECKSUM_OFFSET));
    if frame[CHECKSUM_OFFSET] == checksum {
        Ok(frame)
    } else {
        Err(ChecksumError::ChecksumMismatch)
    }
}

/// Every encoded frame carries the marker and passes the checksum test.
pub proof fn lemma_encoded_frame_is_valid(
    nonce: u8,
    command: u8,
    feature: Option<u8>,
    payload: Option<Seq<u8>>,
)
    ensures
        frame_is_valid(encode_spec(nonce, command, feature, payload)),
        encode_spec(nonce, command, feature, payload)[0] == FRAME_MARKER,
{
    let body = frame_body(nonce, command, feature, payload);
    let frame = encode_spec(nonce, command, feature, payload);
    assert(frame.subrange(1, CHECKSUM_OFFSET as int) =~= body.subrange(1, CHECKSUM_OFFSET as int));
}

/// The checksum guards every byte after the marker: a valid frame in which
/// one of the bytes 1 to 63 was changed is no longer valid.
pub proof fn lemma_changed_byte_is_refused(frame: Seq<u8>, changed: Seq<u8>, place: int)
    requires
        frame_is_valid(frame),
        changed.len() == FRAME_LEN,
        1 <= place < FRAME_LEN,
        changed[place] != frame[place],
        forall|k: int| 0 <= k < FRAME_LEN && k != place ==> changed[k] == frame[k],
    ensures
        !frame_is_valid(changed),
{
    let guarded = frame.subrange(1, CHECKSUM_OFFSET as int);
    let guarded_changed = changed.subrange(1, CHECKSUM_OFFSET as int);
    if place == CHECKSUM_OFFSET {
        assert(guarded_changed =~= guarded);
    } else {
        lemma_crc8_detects_one_changed_byte(guarded, guarded_changed, place - 1);
    }
}

/// What was encoded can be read back: a payload of 60 bytes sits unchanged at
/// the payload offset, and the command sits in byte 2 when a feature selector
/// is given. Byte 1 holds the selector, or the command when there is no
/// selector: its low three bits are those of that code, and where the code
/// has no higher bits, the upper five bits are the nonce.
pub proof fn lemma_encode_round_trip(nonce: u8, command: u8, feature: Option<u8>, payload: Seq<u8>)
    requires
        is_nonce(nonce),
        payload.len() == PAYLOAD_LEN,
    ensures
        encode_spec(nonce, command, feature, Some(payload)).len() == FRAME_LEN,
        encode_spec(nonce, command, feature, Some(payload)).subrange(
            payload_offset(feature),
            payload_offset(feature) + PAYLOAD_LEN,
        ) == payload,
        feature is Some ==> encode_spec(nonce, command, feature, Some(payload))[2] == command,
        encode_spec(nonce, command, feature, Some(payload))[1] & 0x07 == byte_one_code(
            command,
            feature,
        ) & 0x07,
        byte_one_code(command, feature) <= 0x07 ==> encode_spec(
            nonce,
            command,
            feature,
            Some(payload),
        )[1] & 0xf8 == nonce,
{
    let frame = encode_spec(nonce, command, feature, Some(payload));
    let offset = payload_offset(feature);
    assert(frame.subrange(offset, offset + PAYLOAD_LEN) =~= payload);
    lemma_nonce_low_bits(nonce);
    let code = byte_one_code(command, feature);
    assert(frame[1] == nonce | code);
    assert((nonce | code) & 0x07 == code & 0x07 && (code <= 0x07 ==> (nonce | code) & 0xf8
        == nonce)) by (bit_vector)
        requires
            nonce & 0x07 == 0,
    ;
}

} // verus!
