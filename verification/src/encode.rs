//! The frame encoder: one builder per outbound command.
//!
//! Every builder pushes the two markers, the command's fixed length constant,
//! the command id byte, the fixed size constant, then the payload, then the
//! checksum of the payload region.  Multi-byte numeric payload fields are
//! little-endian.

use vstd::prelude::*;

use crate::checksum::generate_crc;
use crate::checksum::lemma_xor_fold1;
use crate::checksum::lemma_xor_fold4;
use crate::frame::spec_frame;
use crate::frame::CommandId;
use crate::frame::CMD_LEN_BASE_CONTROL;
use crate::frame::CMD_LEN_GET_CONTROLLER_GAIN;
use crate::frame::CMD_LEN_REQUEST_EXTRA;
use crate::frame::CMD_LEN_SET_CONTROLLER_GAIN;
use crate::frame::CMD_LEN_SOUND;
use crate::frame::CMD_LEN_SOUND_SEQUENCE;
use crate::frame::CMD_SIZE_BASE_CONTROL;
use crate::frame::CMD_SIZE_GET_CONTROLLER_GAIN;
use crate::frame::CMD_SIZE_REQUEST_EXTRA;
use crate::frame::CMD_SIZE_SET_CONTROLLER_GAIN;
use crate::frame::CMD_SIZE_SOUND;
use crate::frame::CMD_SIZE_SOUND_SEQUENCE;
use crate::frame::MARKER0;
use crate::frame::MARKER1;

verus! {

/// Failure of an encoder: an input constraint was violated, and no partial
/// frame is returned.
#[derive(Clone, Copy, Debug, PartialEq, Eq, Structural)]
pub enum EncodeError {
    InvalidInput,
}

/// Low byte of a 16-bit little-endian field.
pub open spec fn u16_lo(x: u16) -> u8 {
    (x & 0xff) as u8
}

/// High byte of a 16-bit little-endian field.
pub open spec fn u16_hi(x: u16) -> u8 {
    ((x & 0xff00) >> 8) as u8
}

/// The four bytes of a 32-bit field in little-endian order.
pub open spec fn u32_le(x: u32) -> Seq<u8> {
    seq![
        (x & 0x000000ff) as u8,
        ((x & 0x0000ff00) >> 8) as u8,
        ((x & 0x00ff0000) >> 16) as u8,
        ((x & 0xff000000) >> 24) as u8,
    ]
}

/// A boolean as one payload byte.
pub open spec fn flag(b: bool) -> u8 {
    if b {
        1
    } else {
        0
    }
}

/// Builds the drive command for a target speed and turn radius.
///
/// The resulting frame is always the same ten bytes: markers, length 7,
/// id 1, size 4, the two little-endian fields, and the XOR of the four
/// payload bytes as checksum.
pub fn base_control_command(speed: u16, radius: u16) -> (r: Result<Vec<u8>, EncodeError>)
    ensures
        r is Ok,
        r->Ok_0@ == spec_frame(
            CMD_LEN_BASE_CONTROL,
            CommandId::BaseControl.spec_byte(),
            CMD_SIZE_BASE_CONTROL,
            seq![u16_lo(speed), u16_hi(speed), u16_lo(radius), u16_hi(radius)],
        ),
        r->Ok_0@ == seq![
            0xaau8,
            0x55u8,
            7u8,
            1u8,
            4u8,
            u16_lo(speed),
            u16_hi(speed),
            u16_lo(radius),
            u16_hi(radius),
            (u16_lo(speed) ^ u16_hi(speed) ^ u16_lo(radius) ^ u16_hi(radius)),
        ],
{
    let ghost payload = seq![u16_lo(speed), u16_hi(speed), u16_lo(radius), u16_hi(radius)];
    let mut cmd: Vec<u8> = Vec::new();
    cmd.push(MARKER0);
    cmd.push(MARKER1);
    cmd.push(CMD_LEN_BASE_CONTROL);
    cmd.push(CommandId::BaseControl.byte());
    cmd.push(CMD_SIZE_BASE_CONTROL);
    cmd.push((speed & 0xff) as u8);
    cmd.push(((speed & 0xff00) >> 8) as u8);
    cmd.push((radius & 0xff) as u8);
    cmd.push(((radius & 0xff00) >> 8) as u8);
    proof {
        assert(cmd@.skip(5) =~= payload);
    }
    let crc = generate_crc(&cmd);
    cmd.push(crc);
    proof {
        assert(cmd@ =~= spec_frame(
            CMD_LEN_BASE_CONTROL,
            CommandId::BaseControl.spec_byte(),
            CMD_SIZE_BASE_CONTROL,
            payload,
        ));
        lemma_xor_fold4(u16_lo(speed), u16_hi(speed), u16_lo(radius), u16_hi(radius));
        assert(cmd@ =~= seq![
            0xaau8,
            0x55u8,
            7u8,
            1u8,
            4u8,
            u16_lo(speed),
            u16_hi(speed),
            u16_lo(radius),
            u16_hi(radius),
            (u16_lo(speed) ^ u16_hi(speed) ^ u16_lo(radius) ^ u16_hi(radius)),
        ]);
    }
    Ok(cmd)
}

/// The 16-bit value carried by the sound command: the whole-number quotient
/// `1 / (freq * amp)`, which is 1 when both factors are 1 and 0 otherwise.
pub open spec fn spec_sound_value(freq: u8, amp: u8) -> u16
    recommends
        freq > 0,
        amp > 0,
{
    ((1 as int) / (freq as int * amp as int)) as u16
}

/// Builds the sound command for a frequency, an amplitude and a duration.
///
/// Fails with `InvalidInput` exactly when any of the three inputs is zero.
pub fn sound_command(freq: u8, amp: u8, duration: u8) -> (r: Result<Vec<u8>, EncodeError>)
    ensures
        r is Err <==> (freq == 0 || amp == 0 || duration == 0),
        r is Err ==> r->Err_0 == EncodeError::InvalidInput,
        r is Ok ==> r->Ok_0@ == spec_frame(
            CMD_LEN_SOUND,
            CommandId::Sound.spec_byte(),
            CMD_SIZE_SOUND,
            seq![
                u16_lo(spec_sound_value(freq, amp)),
                u16_hi(spec_sound_value(freq, amp)),
                duration,
            ],
        ),
{
    if freq == 0 || amp == 0 || duration == 0 {
        return Err(EncodeError::InvalidInput);
    }
    proof {
        assert(freq as int * amp as int <= 65025) by (nonlinear_arith)
            requires
                0 <= freq as int <= 255,
                0 <= amp as int <= 255,
        ;
        assert(freq as int * amp as int >= 1) by (nonlinear_arith)
            requires
                freq as int >= 1,
                amp as int >= 1,
        ;
    }
    let prod: u16 = (freq as u16) * (amp as u16);
    let tmp: u16 = 1 / prod;
    let ghost payload = seq![u16_lo(tmp), u16_hi(tmp), duration];
    let mut cmd: Vec<u8> = Vec::new();
    cmd.push(MARKER0);
    cmd.push(MARKER1);
    cmd.push(CMD_LEN_SOUND);
    cmd.push(CommandId::Sound.byte());
    cmd.push(CMD_SIZE_SOUND);
    cmd.push((tmp & 0xff) as u8);
    cmd.push(((tmp & 0xff00) >> 8) as u8);
    cmd.push(duration);
    proof {
        assert(tmp == spec_sound_value(freq, amp));
        assert(cmd@.skip(5) =~= payload);
    }
    let crc = generate_crc(&cmd);
    cmd.push(crc);
    proof {
        assert(cmd@ =~= spec_frame(
            CMD_LEN_SOUND,
            CommandId::Sound.spec_byte(),
            CMD_SIZE_SOUND,
            payload,
        ));
    }
    Ok(cmd)
}

/// Builds the sound-sequence command for a stored sequence number.
pub fn sound_sequence_command(seq_no: u8) -> (r: Result<Vec<u8>, EncodeError>)
    ensures
        r is Ok,
        r->Ok_0@ == spec_frame(
            CMD_LEN_SOUND_SEQUENCE,
            CommandId::SoundSequence.spec_byte(),
            CMD_SIZE_SOUND_SEQUENCE,
            seq![seq_no],
        ),
        r->Ok_0@ == seq![0xaau8, 0x55u8, 4u8, 4u8, 1u8, seq_no, seq_no],
{
    let ghost payload = seq![seq_no];
    let mut cmd: Vec<u8> = Vec::new();
    cmd.push(MARKER0);
    cmd.push(MARKER1);
    cmd.push(CMD_LEN_SOUND_SEQUENCE);
    cmd.push(CommandId::SoundSequence.byte());
    cmd.push(CMD_SIZE_SOUND_SEQUENCE);
    cmd.push(seq_no);
    proof {
        assert(cmd@.skip(5) =~= payload);
    }
    let crc = generate_crc(&cmd);
    cmd.push(crc);
    proof {
        assert(cmd@ =~= spec_frame(
            CMD_LEN_SOUND_SEQUENCE,
            CommandId::SoundSequence.spec_byte(),
            CMD_SIZE_SOUND_SEQUENCE,
            payload,
        ));
        lemma_xor_fold1(seq_no);
        assert(cmd@ =~= seq![0xaau8, 0x55u8, 4u8, 4u8, 1u8, seq_no, seq_no]);
    }
    Ok(cmd)
}

/// The request flag byte: bit 0 asks for the hardware version, bit 1 for the
/// firmware version, bit 7 for the unique device id.
pub open spec fn spec_request_flags(hw_ver: bool, fw_ver: bool, udid: bool) -> u8 {
    flag(hw_ver) | (flag(fw_ver) << 1) | (flag(udid) << 7)
}

/// Builds the command that requests extra version information.
///
/// The declared size constant is 2, yet a single flag byte is the whole
/// payload that is written; the frame is kept exactly as the device link has
/// always seen it.
pub fn request_extra_command(hw_ver: bool, fw_ver: bool, udid: bool) -> (r: Result<
    Vec<u8>,
    EncodeError,
>)
    ensures
        r is Ok,
        r->Ok_0@ == spec_frame(
            CMD_LEN_REQUEST_EXTRA,
            CommandId::RequestExtra.spec_byte(),
            CMD_SIZE_REQUEST_EXTRA,
            seq![spec_request_flags(hw_ver, fw_ver, udid)],
        ),
{
    let f_hw: u8 = if hw_ver {
        1
    } else {
        0
    };
    let f_fw: u8 = if fw_ver {
        1
    } else {
        0
    };
    let f_udid: u8 = if udid {
        1
    } else {
        0
    };
    let tmp: u8 = f_hw | (f_fw << 1) | (f_udid << 7);
    let ghost payload = seq![spec_request_flags(hw_ver, fw_ver, udid)];
    let mut cmd: Vec<u8> = Vec::new();
    cmd.push(MARKER0);
    cmd.push(MARKER1);
    cmd.push(CMD_LEN_REQUEST_EXTRA);
    cmd.push(CommandId::RequestExtra.byte());
    cmd.push(CMD_SIZE_REQUEST_EXTRA);
    cmd.push(tmp);
    proof {
        assert(cmd@.skip(5) =~= payload);
    }
    let crc = generate_crc(&cmd);
    cmd.push(crc);
    proof {
        assert(cmd@ =~= spec_frame(
            CMD_LEN_REQUEST_EXTRA,
            CommandId::RequestExtra.spec_byte(),
            CMD_SIZE_REQUEST_EXTRA,
            payload,
        ));
    }
    Ok(cmd)
}

/// First output byte: bits 0 to 3 are the digital output channels, bits 4 to
/// 7 the four power rails (3.3V, 5.0V, 12V/5A, 12V/1.5A).
pub open spec fn spec_output_byte0(
    d_out_ch0: bool,
    d_out_ch1: bool,
    d_out_ch2: bool,
    d_out_ch3: bool,
    power_3v3: bool,
    power_5v0: bool,
    power_12v5a: bool,
    power_12v1a5: bool,
) -> u8 {
    flag(d_out_ch0) | (flag(d_out_ch1) << 1) | (flag(d_out_ch2) << 2) | (flag(d_out_ch3) << 3) | (
    flag(power_3v3) << 4) | (flag(power_5v0) << 5) | (flag(power_12v5a) << 6) | (flag(power_12v1a5)
        << 7)
}

/// Second output byte: bits 0 to 3 drive red LED 1, green LED 1, red LED 2
/// and green LED 2.
pub open spec fn spec_output_byte1(
    red_led1: bool,
    green_led1: bool,
    red_led2: bool,
    green_led2: bool,
) -> u8 {
    flag(red_led1) | (flag(green_led1) << 1) | (flag(red_led2) << 2) | (flag(green_led2) << 3)
}

/// Builds the general-purpose output command: digital outputs, power rails
/// and LEDs.
///
/// The frame reuses the request-extra length, id and size constants; that is
/// what the device link has always been sent, so it is kept as observed.
pub fn general_purpose_output_command(
    d_out_ch0: bool,
    d_out_ch1: bool,
    d_out_ch2: bool,
    d_out_ch3: bool,
    power_3v3: bool,
    power_5v0: bool,
    power_12v5a: bool,
    power_12v1a5: bool,
    red_led1: bool,
    red_led2: bool,
    green_led1: bool,
    green_led2: bool,
) -> (r: Result<Vec<u8>, EncodeError>)
    ensures
        r is Ok,
        r->Ok_0@ == spec_frame(
            CMD_LEN_REQUEST_EXTRA,
            CommandId::RequestExtra.spec_byte(),
            CMD_SIZE_REQUEST_EXTRA,
            seq![
                spec_output_byte0(
                    d_out_ch0,
                    d_out_ch1,
                    d_out_ch2,
                    d_out_ch3,
                    power_3v3,
                    power_5v0,
                    power_12v5a,
                    power_12v1a5,
                ),
                spec_output_byte1(red_led1, green_led1, red_led2, green_led2),
            ],
        ),
{
    let b0: u8 = if d_out_ch0 {
        1
    } else {
        0
    };
    let b1: u8 = if d_out_ch1 {
        1
    } else {
        0
    };
    let b2: u8 = if d_out_ch2 {
        1
    } else {
        0
    };
    let b3: u8 = if d_out_ch3 {
        1
    } else {
        0
    };
    let b4: u8 = if power_3v3 {
        1
    } else {
        0
    };
    let b5: u8 = if power_5v0 {
        1
    } else {
        0
    };
    let b6: u8 = if power_12v5a {
        1
    } else {
        0
    };
    let b7: u8 = if power_12v1a5 {
        1
    } else {
        0
    };
    let tmp0: u8 = b0 | (b1 << 1) | (b2 << 2) | (b3 << 3) | (b4 << 4) | (b5 << 5) | (b6 << 6) | (b7
        << 7);
    let c0: u8 = if red_led1 {
        1
    } else {
        0
    };
    let c1: u8 = if green_led1 {
        1
    } else {
        0
    };
    let c2: u8 = if red_led2 {
        1
    } else {
        0
    };
    let c3: u8 = if green_led2 {
        1
    } else {
        0
    };
    let tmp1: u8 = c0 | (c1 << 1) | (c2 << 2) | (c3 << 3);
    let ghost payload = seq![
        spec_output_byte0(
            d_out_ch0,
            d_out_ch1,
            d_out_ch2,
            d_out_ch3,
            power_3v3,
            power_5v0,
            power_12v5a,
            power_12v1a5,
        ),
        spec_output_byte1(red_led1, green_led1, red_led2, green_led2),
    ];
    let mut cmd: Vec<u8> = Vec::new();
    cmd.push(MARKER0);
    cmd.push(MARKER1);
    cmd.push(CMD_LEN_REQUEST_EXTRA);
    cmd.push(CommandId::RequestExtra.byte());
    cmd.push(CMD_SIZE_REQUEST_EXTRA);
    cmd.push(tmp0);
    cmd.push(tmp1);
    proof {
        assert(cmd@.skip(5) =~= payload);
    }
    let crc = generate_crc(&cmd);
    cmd.push(crc);
    proof {
        assert(cmd@ =~= spec_frame(
            CMD_LEN_REQUEST_EXTRA,
            CommandId::RequestExtra.spec_byte(),
            CMD_SIZE_REQUEST_EXTRA,
            payload,
        ));
    }
    Ok(cmd)
}

/// The P gain as sent on the wire: thousandths, with 1000 substituted when
/// the configured gain is zero.
pub open spec fn spec_p_gain(p: u32) -> u32
    recommends
        p * 1000 <= u32::MAX,
{
    if p == 0 {
        1000
    } else {
        (p * 1000) as u32
    }
}

/// The I gain as sent on the wire, from the configured gain expressed in
/// thousandths: values outside the accepted range (0.1 to 32000.0, i.e. 100
/// to 32000000 thousandths) fall back to 100.
pub open spec fn spec_i_gain(i_milli: u64) -> u32 {
    if i_milli < 100 || i_milli > 32000000 {
        100
    } else {
        i_milli as u32
    }
}

/// The D gain as sent on the wire: thousandths, with 2000 substituted when
/// the configured gain is zero.
pub open spec fn spec_d_gain(d: u32) -> u32
    recommends
        d * 1000 <= u32::MAX,
{
    if d == 0 {
        2000
    } else {
        (d * 1000) as u32
    }
}

/// The thirteen payload bytes of the gain-setting command: the user-configured
/// flag, then P, I and D as little-endian 32-bit fields.
pub open spec fn spec_gain_payload(
    is_user_configured: bool,
    p: u32,
    i_milli: u64,
    d: u32,
) -> Seq<u8> {
    seq![flag(is_user_configured)] + u32_le(spec_p_gain(p)) + u32_le(spec_i_gain(i_milli)) + u32_le(
        spec_d_gain(d),
    )
}

/// Builds the command that configures the controller's PID gains.
///
/// `i_milli` is the integral gain expressed in thousandths; a caller that
/// holds it as a fractional number truncates toward zero when converting.
/// Out-of-range I gains fall back to 100, zero P and D gains to 1000 and
/// 2000.
pub fn set_controller_gain(is_user_configured: bool, p: u32, i_milli: u64, d: u32) -> (r: Result<
    Vec<u8>,
    EncodeError,
>)
    requires
        p * 1000 <= u32::MAX,
        d * 1000 <= u32::MAX,
    ensures
        r is Ok,
        r->Ok_0@ == spec_frame(
            CMD_LEN_SET_CONTROLLER_GAIN,
            CommandId::SetControllerGain.spec_byte(),
            CMD_SIZE_SET_CONTROLLER_GAIN,
            spec_gain_payload(is_user_configured, p, i_milli, d),
        ),
{
    let pp: u32 = if p == 0 {
        1000
    } else {
        p * 1000
    };
    let ii: u32 = if i_milli < 100 || i_milli > 32000000 {
        100
    } else {
        i_milli as u32
    };
    let dd: u32 = if d == 0 {
        2000
    } else {
        d * 1000
    };
    let f_user: u8 = if is_user_configured {
        1
    } else {
        0
    };
    let ghost payload = spec_gain_payload(is_user_configured, p, i_milli, d);
    let mut cmd: Vec<u8> = Vec::new();
    cmd.push(MARKER0);
    cmd.push(MARKER1);
    cmd.push(CMD_LEN_SET_CONTROLLER_GAIN);
    cmd.push(CommandId::SetControllerGain.byte());
    cmd.push(CMD_SIZE_SET_CONTROLLER_GAIN);
    cmd.push(f_user);
    cmd.push((pp & 0x000000ff) as u8);
    cmd.push(((pp & 0x0000ff00) >> 8) as u8);
    cmd.push(((pp & 0x00ff0000) >> 16) as u8);
    cmd.push(((pp & 0xff000000) >> 24) as u8);
    cmd.push((ii & 0x000000ff) as u8);
    cmd.push(((ii & 0x0000ff00) >> 8) as u8);
    cmd.push(((ii & 0x00ff0000) >> 16) as u8);
    cmd.push(((ii & 0xff000000) >> 24) as u8);
    cmd.push((dd & 0x000000ff) as u8);
    cmd.push(((dd & 0x0000ff00) >> 8) as u8);
    cmd.push(((dd & 0x00ff0000) >> 16) as u8);
    cmd.push(((dd & 0xff000000) >> 24) as u8);
    proof {
        assert(pp == spec_p_gain(p));
        assert(ii == spec_i_gain(i_milli));
        assert(dd == spec_d_gain(d));
        assert(cmd@.skip(5) =~= payload);
    }
    let crc = generate_crc(&cmd);
    cmd.push(crc);
    proof {
        assert(cmd@ =~= spec_frame(
            CMD_LEN_SET_CONTROLLER_GAIN,
            CommandId::SetControllerGain.spec_byte(),
            CMD_SIZE_SET_CONTROLLER_GAIN,
            payload,
        ));
    }
    Ok(cmd)
}

/// Builds the command that asks the controller to report its PID gains.
///
/// The frame is one constant seven-byte sequence; the single payload byte is
/// the request sentinel `0xFF`, which is therefore also the checksum.
pub fn get_controller_gain() -> (r: Result<Vec<u8>, EncodeError>)
    ensures
        r is Ok,
        r->Ok_0@ == spec_frame(
            CMD_LEN_GET_CONTROLLER_GAIN,
            CommandId::GetControllerGain.spec_byte(),
            CMD_SIZE_GET_CONTROLLER_GAIN,
            seq![0xffu8],
        ),
        r->Ok_0@ == seq![0xaau8, 0x55u8, 4u8, 14u8, 1u8, 0xffu8, 0xffu8],
{
    let ghost payload = seq![0xffu8];
    let mut cmd: Vec<u8> = Vec::new();
    cmd.push(MARKER0);
    cmd.push(MARKER1);
    cmd.push(CMD_LEN_GET_CONTROLLER_GAIN);
    cmd.push(CommandId::GetControllerGain.byte());
    cmd.push(CMD_SIZE_GET_CONTROLLER_GAIN);
    cmd.push(0xff);
    proof {
        assert(cmd@.skip(5) =~= payload);
    }
    let crc = generate_crc(&cmd);
    cmd.push(crc);
    proof {
        assert(cmd@ =~= spec_frame(
            CMD_LEN_GET_CONTROLLER_GAIN,
            CommandId::GetControllerGain.spec_byte(),
            CMD_SIZE_GET_CONTROLLER_GAIN,
            payload,
        ));
        lemma_xor_fold1(0xffu8);
        assert(cmd@ =~= seq![0xaau8, 0x55u8, 4u8, 14u8, 1u8, 0xffu8, 0xffu8]);
    }
    Ok(cmd)
}

} // verus!
