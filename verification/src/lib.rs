//! Binary serial-link codec for a mobile-robot base controller.
//!
//! The crate turns structured command intents (drive, sound, digital I/O,
//! PID gain configuration) into byte-exact outbound frames, and turns a
//! continuous, possibly fragmented stream of inbound bytes into validated
//! feedback frames.  Every frame starts with the two marker bytes
//! `0xAA 0x55`, carries a length, an identifier, a size and a payload, and
//! ends with a single-byte XOR checksum over the payload region.
//!
//! Decoding is a streaming-reassembly problem: the transport delivers bytes
//! at arbitrary chunk boundaries, so the decoder scans for markers, validates
//! length and checksum, emits zero or more complete frames per call, and
//! carries trailing incomplete bytes forward as an explicit residue value.

pub mod checksum;
pub mod decode;
pub mod encode;
pub mod frame;

pub use checksum::generate_crc;
pub use decode::decode;
pub use decode::decode_condition;
pub use decode::DecodeCondition;
pub use encode::base_control_command;
pub use encode::general_purpose_output_command;
pub use encode::get_controller_gain;
pub use encode::request_extra_command;
pub use encode::set_controller_gain;
pub use encode::sound_command;
pub use encode::sound_sequence_command;
pub use encode::EncodeError;
pub use frame::CommandId;
pub use frame::FeedbackFrame;
