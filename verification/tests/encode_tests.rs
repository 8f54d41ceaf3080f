use kobuki_codec::base_control_command;
use kobuki_codec::general_purpose_output_command;
use kobuki_codec::generate_crc;
use kobuki_codec::get_controller_gain;
use kobuki_codec::request_extra_command;
use kobuki_codec::set_controller_gain;
use kobuki_codec::sound_command;
use kobuki_codec::sound_sequence_command;
use kobuki_codec::EncodeError;

fn xor_of(bytes: &[u8]) -> u8 {
    let mut acc: u8 = 0;
    for b in bytes {
        acc ^= *b;
    }
    acc
}

#[test]
fn base_control_unit_speed_and_radius() {
    let cmd = base_control_command(1, 1).unwrap();
    assert_eq!(cmd, vec![0xaa, 0x55, 7, 1, 4, 1, 0, 1, 0, 0]);
}

#[test]
fn base_control_checksum_is_xor_of_payload() {
    let cmd = base_control_command(0x1234, 0xabcd).unwrap();
    assert_eq!(cmd.len(), 10);
    assert_eq!(
        cmd,
        vec![0xaa, 0x55, 7, 1, 4, 0x34, 0x12, 0xcd, 0xab, 0x34 ^ 0x12 ^ 0xcd ^ 0xab]
    );
}

#[test]
fn generate_crc_folds_payload_region_only() {
    let frame = vec![0xaa, 0x55, 7, 1, 4, 0x34, 0x12, 0xcd, 0xab];
    assert_eq!(generate_crc(&frame), 0x34 ^ 0x12 ^ 0xcd ^ 0xab);
    let short = vec![0xaa, 0x55, 7];
    assert_eq!(generate_crc(&short), 0);
}

#[test]
fn sound_rejects_any_zero_input() {
    assert_eq!(sound_command(0, 5, 9), Err(EncodeError::InvalidInput));
    assert_eq!(sound_command(5, 0, 9), Err(EncodeError::InvalidInput));
    assert_eq!(sound_command(5, 9, 0), Err(EncodeError::InvalidInput));
    assert_eq!(sound_command(0, 0, 0), Err(EncodeError::InvalidInput));
    assert_eq!(sound_command(0, 255, 1), Err(EncodeError::InvalidInput));
}

#[test]
fn sound_unit_factors_give_value_one() {
    let cmd = sound_command(1, 1, 5).unwrap();
    assert_eq!(cmd, vec![0xaa, 0x55, 6, 3, 3, 1, 0, 5, 1 ^ 0 ^ 5]);
}

#[test]
fn sound_larger_factors_truncate_to_zero() {
    let cmd = sound_command(2, 3, 4).unwrap();
    assert_eq!(cmd, vec![0xaa, 0x55, 6, 3, 3, 0, 0, 4, 4]);
}

#[test]
fn sound_sequence_echoes_sequence_number() {
    let cmd = sound_sequence_command(7).unwrap();
    assert_eq!(cmd, vec![0xaa, 0x55, 4, 4, 1, 7, 7]);
}

#[test]
fn request_extra_packs_flag_bits() {
    let cmd = request_extra_command(true, true, true).unwrap();
    assert_eq!(cmd, vec![0xaa, 0x55, 5, 9, 2, 0x83, 0x83]);
    let cmd = request_extra_command(true, false, false).unwrap();
    assert_eq!(cmd, vec![0xaa, 0x55, 5, 9, 2, 1, 1]);
    let cmd = request_extra_command(false, true, false).unwrap();
    assert_eq!(cmd, vec![0xaa, 0x55, 5, 9, 2, 2, 2]);
    let cmd = request_extra_command(false, false, true).unwrap();
    assert_eq!(cmd, vec![0xaa, 0x55, 5, 9, 2, 0x80, 0x80]);
}

#[test]
fn general_purpose_output_all_off() {
    let cmd = general_purpose_output_command(
        false, false, false, false, false, false, false, false, false, false, false, false,
    )
    .unwrap();
    assert_eq!(cmd, vec![0xaa, 0x55, 5, 9, 2, 0, 0, 0]);
}

#[test]
fn general_purpose_output_packs_both_bytes() {
    // digital out channel 0, the 12V/1.5A rail, and red LED 2.
    let cmd = general_purpose_output_command(
        true, false, false, false, false, false, false, true, false, true, false, false,
    )
    .unwrap();
    assert_eq!(cmd, vec![0xaa, 0x55, 5, 9, 2, 0x81, 0x04, 0x81 ^ 0x04]);
}

#[test]
fn set_controller_gain_applies_fallbacks() {
    // A fractional I gain below 0.1 falls back to 100 thousandths; zero P
    // and D gains fall back to 1000 and 2000.
    let i: f32 = 0.05;
    let i_milli = (i * 1000.0) as u64;
    let cmd = set_controller_gain(true, 0, i_milli, 0).unwrap();
    let payload: Vec<u8> = vec![1, 0xe8, 3, 0, 0, 100, 0, 0, 0, 0xd0, 7, 0, 0];
    let mut expected: Vec<u8> = vec![0xaa, 0x55, 16, 13, 13];
    expected.extend_from_slice(&payload);
    expected.push(xor_of(&payload));
    assert_eq!(cmd, expected);
}

#[test]
fn set_controller_gain_scales_in_range_gains() {
    let cmd = set_controller_gain(false, 2, 1500, 3).unwrap();
    let payload: Vec<u8> = vec![0, 0xd0, 7, 0, 0, 0xdc, 5, 0, 0, 0xb8, 0x0b, 0, 0];
    let mut expected: Vec<u8> = vec![0xaa, 0x55, 16, 13, 13];
    expected.extend_from_slice(&payload);
    expected.push(xor_of(&payload));
    assert_eq!(cmd, expected);
}

#[test]
fn set_controller_gain_rejects_oversized_i_gain() {
    // An I gain above 32000.0 (32000000 thousandths) falls back to 100.
    let cmd = set_controller_gain(false, 1, 32_000_001, 1).unwrap();
    assert_eq!(&cmd[10..14], &[100, 0, 0, 0]);
}

#[test]
fn get_controller_gain_is_constant() {
    let cmd = get_controller_gain().unwrap();
    assert_eq!(cmd, vec![0xaa, 0x55, 4, 14, 1, 0xff, 0xff]);
}
