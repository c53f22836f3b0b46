//! Wire protocol of a closed-loop liquid cooler: 64-byte frames guarded by an
//! 8-bit checksum, the payloads that configure lighting, fans and pump, and the
//! decoding of telemetry frames into measurements.
//!
//! The library builds and checks frames; it does not talk to the device. A
//! caller writes the frames that it is handed and hands back the frames that
//! it read.
//!
//! - [`utils`]: the checksum, the nonce, and the conversions between duty
//!   bytes and percentages.
//! - [`frame`]: the envelope of every request and response.
//! - [`colors`]: colour text, the rainbow and gradient patterns, and the
//!   lighting payload.
//! - [`pump`] and [`fans`]: the configuration payload that the two share.
//! - [`info`]: the measurements of a telemetry frame.
//! - [`text`]: numerals and digits.
//!
//! Every function states its result over mathematical models (`Seq<u8>` for
//! frames and payloads, `Seq<char>` for text), and the statements are proved.
//! Three things are taken on trust and say so where they stand: the bounds of
//! a random draw in [`utils`], and two string functions of the standard
//! library in [`text`].

pub mod colors;
pub mod fans;
pub mod frame;
pub mod info;
pub mod pump;
pub mod text;
pub mod utils;
