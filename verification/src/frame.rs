//! The shared frame grammar: marker bytes, per-command length and size
//! constants, command identifiers, and the shape of a complete frame.

use vstd::prelude::*;

use crate::checksum::xor_fold;

verus! {

/// First byte of the two-byte frame start marker.
pub const MARKER0: u8 = 0xaa;

/// Second byte of the two-byte frame start marker.
pub const MARKER1: u8 = 0x55;

// Length field of each command: the count of bytes from the id byte through
// the checksum byte inclusive (id + size + payload + checksum).
pub const CMD_LEN_BASE_CONTROL: u8 = 7;
pub const CMD_LEN_SOUND: u8 = 6;
pub const CMD_LEN_SOUND_SEQUENCE: u8 = 4;
pub const CMD_LEN_REQUEST_EXTRA: u8 = 5;
pub const CMD_LEN_GENERAL_PURPOSE_OUTPUT: u8 = 5;
pub const CMD_LEN_SET_CONTROLLER_GAIN: u8 = 16;
pub const CMD_LEN_GET_CONTROLLER_GAIN: u8 = 4;

// Size field of each command: the declared payload byte count.
pub const CMD_SIZE_BASE_CONTROL: u8 = 4;
pub const CMD_SIZE_SOUND: u8 = 3;
pub const CMD_SIZE_SOUND_SEQUENCE: u8 = 1;
pub const CMD_SIZE_REQUEST_EXTRA: u8 = 2;
pub const CMD_SIZE_GENERAL_PURPOSE_OUTPUT: u8 = 2;
pub const CMD_SIZE_SET_CONTROLLER_GAIN: u8 = 13;
pub const CMD_SIZE_GET_CONTROLLER_GAIN: u8 = 1;

/// Identifier of each outbound command.
#[derive(Clone, Copy, Debug, PartialEq, Eq, Structural)]
pub enum CommandId {
    BaseControl,
    Sound,
    SoundSequence,
    RequestExtra,
    GeneralPurposeOutput,
    SetControllerGain,
    GetControllerGain,
}

impl CommandId {
    /// The wire identifier byte of this command.
    pub open spec fn spec_byte(self) -> u8 {
        match self {
            CommandId::BaseControl => 1,
            CommandId::Sound => 3,
            CommandId::SoundSequence => 4,
            CommandId::RequestExtra => 9,
            CommandId::GeneralPurposeOutput => 12,
            CommandId::SetControllerGain => 13,
            CommandId::GetControllerGain => 14,
        }
    }

    /// Returns the wire identifier byte of this command.
    pub fn byte(self) -> (r: u8)
        ensures
            r == self.spec_byte(),
    {
        match self {
            CommandId::BaseControl => 1,
            CommandId::Sound => 3,
            CommandId::SoundSequence => 4,
            CommandId::RequestExtra => 9,
            CommandId::GeneralPurposeOutput => 12,
            CommandId::SetControllerGain => 13,
            CommandId::GetControllerGain => 14,
        }
    }
}

/// A complete outbound frame: the two markers, the length byte, the id byte,
/// the size byte, the payload, and the XOR-fold checksum of the payload.
pub open spec fn spec_frame(length: u8, id: u8, size: u8, payload: Seq<u8>) -> Seq<u8> {
    seq![MARKER0, MARKER1, length, id, size] + payload + seq![xor_fold(payload)]
}

/// A decoded inbound frame: the id byte and the payload bytes of a frame
/// whose checksum validated.
#[derive(Debug, PartialEq, Eq)]
pub struct FeedbackFrame {
    pub id: u8,
    pub payload: Vec<u8>,
}

/// Mathematical model of a feedback frame.
#[verifier::ext_equal]
pub struct FrameView {
    pub id: u8,
    pub payload: Seq<u8>,
}

impl View for FeedbackFrame {
    type V = FrameView;

    open spec fn view(&self) -> FrameView {
        FrameView { id: self.id, payload: self.payload@ }
    }
}

} // verus!
