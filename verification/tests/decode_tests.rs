use kobuki_codec::base_control_command;
use kobuki_codec::decode;
use kobuki_codec::decode_condition;
use kobuki_codec::request_extra_command;
use kobuki_codec::sound_sequence_command;
use kobuki_codec::DecodeCondition;
use kobuki_codec::FeedbackFrame;

#[test]
fn empty_input_and_empty_residue_yield_nothing() {
    let (frames, residue) = decode(&vec![], &vec![]);
    assert!(frames.is_empty());
    assert!(residue.is_empty());
}

#[test]
fn one_complete_frame_is_decoded() {
    let frame = base_control_command(1, 1).unwrap();
    let (frames, residue) = decode(&frame, &vec![]);
    assert_eq!(
        frames,
        vec![FeedbackFrame { id: 1, payload: vec![1, 0, 1, 0] }]
    );
    assert!(residue.is_empty());
}

#[test]
fn two_frames_in_one_chunk_are_both_decoded() {
    let mut bytes = base_control_command(0x1234, 0xabcd).unwrap();
    bytes.extend_from_slice(&sound_sequence_command(9).unwrap());
    let (frames, residue) = decode(&bytes, &vec![]);
    assert_eq!(
        frames,
        vec![
            FeedbackFrame { id: 1, payload: vec![0x34, 0x12, 0xcd, 0xab] },
            FeedbackFrame { id: 4, payload: vec![9] },
        ]
    );
    assert!(residue.is_empty());
}

#[test]
fn any_chunk_boundary_gives_the_same_frames() {
    // A noisy stream: noise, a valid frame, a corrupt frame, another valid
    // frame, and a trailing incomplete frame.
    let mut stream: Vec<u8> = vec![0x07, 0xaa, 0x31];
    stream.extend_from_slice(&base_control_command(300, 1).unwrap());
    let mut corrupt = sound_sequence_command(2).unwrap();
    corrupt[5] ^= 0xff;
    stream.extend_from_slice(&corrupt);
    stream.extend_from_slice(&sound_sequence_command(3).unwrap());
    stream.extend_from_slice(&[0xaa, 0x55, 7, 1]);

    let (whole_frames, whole_residue) = decode(&stream, &vec![]);
    for cut in 0..=stream.len() {
        let chunk1 = stream[..cut].to_vec();
        let chunk2 = stream[cut..].to_vec();
        let (frames1, residue1) = decode(&chunk1, &vec![]);
        let (frames2, residue2) = decode(&chunk2, &residue1);
        let mut collected = frames1;
        collected.extend(frames2);
        assert_eq!(collected, whole_frames, "cut at {}", cut);
        assert_eq!(residue2, whole_residue, "cut at {}", cut);
    }
}

#[test]
fn corrupted_payload_byte_drops_frame_and_resyncs() {
    let mut first = base_control_command(1, 1).unwrap();
    first[6] ^= 0x10; // corrupt one payload byte, not the markers
    let mut bytes = first;
    bytes.extend_from_slice(&sound_sequence_command(7).unwrap());
    let (frames, residue) = decode(&bytes, &vec![]);
    assert_eq!(frames, vec![FeedbackFrame { id: 4, payload: vec![7] }]);
    assert!(residue.is_empty());
}

#[test]
fn noise_before_the_marker_is_discarded() {
    let mut bytes: Vec<u8> = vec![0x00, 0x12, 0x55, 0xaa];
    // the 0xaa above is followed by the real marker, so it is plain noise
    bytes.extend_from_slice(&sound_sequence_command(1).unwrap());
    let (frames, residue) = decode(&bytes, &vec![]);
    assert_eq!(frames, vec![FeedbackFrame { id: 4, payload: vec![1] }]);
    assert!(residue.is_empty());
}

#[test]
fn incomplete_frame_is_kept_as_residue() {
    let frame = base_control_command(5, 6).unwrap();
    let partial = frame[..6].to_vec();
    let (frames, residue) = decode(&partial, &vec![]);
    assert!(frames.is_empty());
    assert_eq!(residue, partial);
}

#[test]
fn trailing_first_marker_byte_is_kept_as_residue() {
    let mut bytes = sound_sequence_command(4).unwrap();
    bytes.extend_from_slice(&[0x09, 0xaa]);
    let (frames, residue) = decode(&bytes, &vec![]);
    assert_eq!(frames, vec![FeedbackFrame { id: 4, payload: vec![4] }]);
    assert_eq!(residue, vec![0xaa]);
}

#[test]
fn residue_completes_into_a_frame_on_the_next_call() {
    let frame = base_control_command(2, 9).unwrap();
    let (frames1, residue1) = decode(&frame[..4].to_vec(), &vec![]);
    assert!(frames1.is_empty());
    assert_eq!(residue1, frame[..4].to_vec());
    let (frames2, residue2) = decode(&frame[4..].to_vec(), &residue1);
    assert_eq!(
        frames2,
        vec![FeedbackFrame { id: 1, payload: vec![2, 0, 9, 0] }]
    );
    assert!(residue2.is_empty());
}

#[test]
fn pure_noise_without_marker_leaves_nothing() {
    let bytes: Vec<u8> = vec![0x01, 0x02, 0x03, 0x55, 0x04];
    let (frames, residue) = decode(&bytes, &vec![]);
    assert!(frames.is_empty());
    assert!(residue.is_empty());
}

#[test]
fn a_call_without_frames_reports_no_complete_frame() {
    let frame = base_control_command(1, 1).unwrap();
    let (frames, _) = decode(&frame[..3].to_vec(), &vec![]);
    assert_eq!(decode_condition(&frames), DecodeCondition::NoCompleteFrame);
    let (frames, _) = decode(&frame, &vec![]);
    assert_eq!(decode_condition(&frames), DecodeCondition::FramesAvailable);
}

#[test]
fn request_extra_frame_reads_as_incomplete() {
    // The request-extra builder declares a length of 5 but writes a single
    // payload byte, so its seven-byte frame never satisfies its own length
    // field: a decoder keeps it as residue, waiting for the missing byte.
    let frame = request_extra_command(true, false, false).unwrap();
    let (frames, residue) = decode(&frame, &vec![]);
    assert!(frames.is_empty());
    assert_eq!(residue, frame);
}

#[test]
fn candidate_with_tiny_length_byte_is_skipped() {
    // length byte 2 cannot cover id, size and checksum: the decoder must
    // step past the marker and find the real frame behind it.
    let mut bytes: Vec<u8> = vec![0xaa, 0x55, 2, 0, 0];
    bytes.extend_from_slice(&sound_sequence_command(6).unwrap());
    let (frames, residue) = decode(&bytes, &vec![]);
    assert_eq!(frames, vec![FeedbackFrame { id: 4, payload: vec![6] }]);
    assert!(residue.is_empty());
}
