use step_sequencer::mixdown::render_pattern;
use step_sequencer::recording::{
    encode_recording, fresh_recording_name, interleave, record_pattern, recording_file_name, RecordError,
    MAX_RECORDING_FRAMES, RECORDING_BITS, RECORDING_CHANNELS, RECORDING_SAMPLE_RATE,
};
use step_sequencer::scale::SequenceScale;

#[test]
fn recording_format_is_cd_stereo() {
    assert_eq!(RECORDING_CHANNELS, 2);
    assert_eq!(RECORDING_SAMPLE_RATE, 44100);
    assert_eq!(RECORDING_BITS, 16);
    assert_eq!(MAX_RECORDING_FRAMES as u64 * 4 + 36, u32::MAX as u64 - 3);
}

#[test]
fn interleave_is_left_right() {
    assert_eq!(interleave(&vec![]), Vec::<i16>::new());
    assert_eq!(interleave(&vec![(1, 2), (3, 4), (-5, 6)]), vec![1, 2, 3, 4, -5, 6]);
}

#[test]
fn encode_recording_writes_a_wav_file() {
    let buffer = vec![(1i16, -1i16), (256, -256), (i16::MAX, i16::MIN)];
    let bytes = encode_recording(&buffer).unwrap();
    assert_eq!(bytes.len(), 44 + 12);
    assert_eq!(&bytes[0..4], b"RIFF");
    assert_eq!(&bytes[8..12], b"WAVE");
    assert_eq!(&bytes[4..8], &(36u32 + 12).to_le_bytes());
    assert_eq!(&bytes[40..44], &12u32.to_le_bytes());
    assert_eq!(
        &bytes[44..],
        &[0x01, 0x00, 0xff, 0xff, 0x00, 0x01, 0x00, 0xff, 0xff, 0x7f, 0x00, 0x80]
    );
    let mut reader = hound::WavReader::new(std::io::Cursor::new(bytes)).unwrap();
    let spec = reader.spec();
    assert_eq!(spec.channels, 2);
    assert_eq!(spec.sample_rate, 44100);
    assert_eq!(spec.bits_per_sample, 16);
    assert!(matches!(spec.sample_format, hound::SampleFormat::Int));
    let samples: Vec<i16> = reader.samples::<i16>().map(|sample| sample.unwrap()).collect();
    assert_eq!(samples, vec![1, -1, 256, -256, i16::MAX, i16::MIN]);
}

#[test]
fn encode_recording_of_nothing_is_a_bare_header() {
    let bytes = encode_recording(&vec![]).unwrap();
    assert_eq!(bytes.len(), 44);
    assert_eq!(&bytes[40..44], &0u32.to_le_bytes());
}

#[test]
fn record_pattern_holds_the_mixdown() {
    let pattern = vec![vec![true, false, true, false], vec![false, true, false, false]];
    let decoded = vec![vec![100i16, -100, 200, -200], vec![7i16, 8, 9]];
    let bytes = record_pattern(&pattern, &decoded, 240, 4, SequenceScale::OneSixteenth).unwrap();
    let buffer = render_pattern(&pattern, &decoded, 240, 4, 44100, SequenceScale::OneSixteenth);
    assert_eq!(buffer.len(), 2756 * 4);
    assert_eq!(bytes.len(), 44 + buffer.len() * 4);
    let mut reader = hound::WavReader::new(std::io::Cursor::new(bytes)).unwrap();
    let samples: Vec<i16> = reader.samples::<i16>().map(|sample| sample.unwrap()).collect();
    assert_eq!(samples, interleave(&buffer));
    assert_eq!(samples[0], 100);
    assert_eq!(samples[1], -100);
    assert_eq!(samples[2 * 2756], 7);
    assert_eq!(samples[2 * 2756 + 1], 8);
    assert_eq!(samples[2 * 2756 + 2], 9);
    assert_eq!(samples[2 * 2756 + 3], 0);
}

#[test]
fn record_pattern_twice_gives_the_same_bytes() {
    let pattern = vec![vec![true, true, false, true]];
    let decoded = vec![vec![30000i16, 30000, -5, 5]];
    let first = record_pattern(&pattern, &decoded, 180, 4, SequenceScale::OneEighth);
    let second = record_pattern(&pattern, &decoded, 180, 4, SequenceScale::OneEighth);
    assert!(first.is_ok());
    assert_eq!(first, second);
}

#[test]
fn record_pattern_refuses_what_no_wav_can_hold() {
    let pattern = vec![vec![false; 2]];
    let decoded = vec![vec![0i16; 2]];
    // 2646000 frames a beat at one beat per minute
    assert_eq!(
        record_pattern(&pattern, &decoded, 1, 406, SequenceScale::OneFourth),
        Err(RecordError::TooLong)
    );
    assert_eq!(
        record_pattern(&pattern, &decoded, 1, u32::MAX, SequenceScale::OneFourth),
        Err(RecordError::TooLong)
    );
}

#[test]
fn recording_file_name_wraps_the_stamp() {
    assert_eq!(recording_file_name("20240131_235959"), "pattern_20240131_235959.wav");
    assert_eq!(recording_file_name(""), "pattern_.wav");
}

#[test]
fn fresh_recording_name_is_stamped_to_the_second() {
    let name = fresh_recording_name();
    assert!(name.starts_with("pattern_"));
    assert!(name.ends_with(".wav"));
    assert!(name.len() >= 27);
    assert_ne!(name, recording_file_name(""));
    let stamp = &name["pattern_".len()..name.len() - ".wav".len()];
    assert_eq!(stamp.len(), 15);
    for (i, c) in stamp.chars().enumerate() {
        if i == 8 {
            assert_eq!(c, '_');
        } else {
            assert!(c.is_ascii_digit());
        }
    }
    assert_eq!(name, recording_file_name(stamp));
}
