//! Recording: the mixdown of a pattern as the bytes of a stereo, 16-bit,
//! 44.1 kHz WAV file, and the name such a file gets.

use vstd::prelude::*;
use vstd::string::*;
use crate::mixdown::{decoded_view, interleaved, render_pattern, spec_render};
use crate::pattern::grid;
use crate::scale::SequenceScale;
use crate::timing::{beat_duration_frames, spec_beat_frames};

verus! {

/// Channels of a recording: stereo.
pub const RECORDING_CHANNELS: u16 = 2;

/// Frames per second of a recording.
pub const RECORDING_SAMPLE_RATE: u32 = 44100;

/// Bits per sample of a recording.
pub const RECORDING_BITS: u16 = 16;

/// The most frames a recording can hold: four bytes a frame and the header's
/// 36 counted bytes must fit the 32-bit size field of the container.
pub const MAX_RECORDING_FRAMES: u32 = 1073741814;

/// Why a recording could not be made.
#[derive(Debug, Clone, Copy, PartialEq, Eq, Structural)]
pub enum RecordError {
    /// The mixdown has more frames than a WAV container can hold.
    TooLong,
    /// The encoder refused the samples.
    Encoding,
}

/// The bytes that hound's `WavWriter` produces for integer samples of the
/// given format written in order into an empty in-memory file and finalized;
/// `None` where it reports an error.
pub uninterp spec fn wav_encoding(
    channels: u16,
    sample_rate: u32,
    bits_per_sample: u16,
    samples: Seq<i16>,
) -> Option<Seq<u8>>;

/// What an encoder result stands for.
pub open spec fn encoded_view(encoded: Option<Vec<u8>>) -> Option<Seq<u8>> {
    match encoded {
        Some(bytes) => Some(bytes@),
        None => None,
    }
}

/// What a recording result stands for.
pub open spec fn recording_view(recording: Result<Vec<u8>, RecordError>) -> Result<
    Seq<u8>,
    RecordError,
> {
    match recording {
        Ok(bytes) => Ok(bytes@),
        Err(error) => Err(error),
    }
}

/// The recording of a stereo buffer: too long above the container's limit,
/// else whatever the encoder makes of the interleaved samples.
pub open spec fn spec_encode_recording(buffer: Seq<(i16, i16)>) -> Result<Seq<u8>, RecordError> {
    if buffer.len() > MAX_RECORDING_FRAMES {
        Err(RecordError::TooLong)
    } else {
        match wav_encoding(
            RECORDING_CHANNELS,
            RECORDING_SAMPLE_RATE,
            RECORDING_BITS,
            interleaved(buffer),
        ) {
            Some(bytes) => Ok(bytes),
            None => Err(RecordError::Encoding),
        }
    }
}

/// The recording of a pattern: too long where the mixdown would exceed the
/// container's limit, else the recording of its mixdown at 44.1 kHz.
pub open spec fn spec_record_pattern(
    cells: Seq<Seq<bool>>,
    decoded: Seq<Seq<i16>>,
    bpm: int,
    sequence_length: int,
    scale: SequenceScale,
) -> Result<Seq<u8>, RecordError> {
    let beat_frames = spec_beat_frames(bpm, RECORDING_SAMPLE_RATE as int, scale);
    if beat_frames * sequence_length > MAX_RECORDING_FRAMES {
        Err(RecordError::TooLong)
    } else {
        spec_encode_recording(spec_render(cells, decoded, beat_frames, sequence_length))
    }
}

/// The name of a recording made at the moment that `stamp` spells.
pub open spec fn spec_recording_name(stamp: Seq<char>) -> Seq<char> {
    "pattern_"@ + stamp + ".wav"@
}

/// Runs hound's `WavWriter` over an in-memory file: `WavWriter::new` with the
/// given integer format, `write_sample` for each sample in order, `finalize`.
/// The contract only names the outcome; the bounds keep hound's header and
/// byte-count arithmetic, which is unchecked, within 32 bits.
#[verifier::external_body]
fn encode_wav(channels: u16, sample_rate: u32, bits_per_sample: u16, samples: &Vec<i16>) -> (encoded:
    Option<Vec<u8>>)
    requires
        1 <= channels <= 2,
        1 <= sample_rate,
        sample_rate * 2 * channels <= u32::MAX,
        bits_per_sample == 16,
        samples.len() * 2 + 36 <= u32::MAX,
    ensures
        encoded_view(encoded) == wav_encoding(channels, sample_rate, bits_per_sample, samples@),
{
    let sample_format = hound::SampleFormat::Int;
    let spec = hound::WavSpec { channels, sample_rate, bits_per_sample, sample_format };
    let mut file = std::io::Cursor::new(Vec::new());
    let mut writer = hound::WavWriter::new(&mut file, spec).ok()?;
    for sample in samples.iter() {
        writer.write_sample(*sample).ok()?;
    }
    writer.finalize().ok()?;
    Some(file.into_inner())
}

/// The local time from chrono's `Local::now`, written out by `DateTime::format`
/// with the given pattern: the year in at least four digits, then month, day,
/// an underscore, hour, minute and second in two digits each, so at least
/// fifteen characters. Which ones is not promised: that depends on the clock
/// and the time zone.
#[verifier::external_body]
fn local_time_text(pattern: &str) -> (text: String)
    requires
        pattern@ == "%Y%m%d_%H%M%S"@,
    ensures
        text@.len() >= 15,
{
    chrono::Local::now().format(pattern).to_string()
}

/// The samples of a stereo buffer in file order.
pub fn interleave(buffer: &Vec<(i16, i16)>) -> (samples: Vec<i16>)
    ensures
        samples@ == interleaved(buffer@),
{
    let mut samples: Vec<i16> = Vec::new();
    let mut f: usize = 0;
    while f < buffer.len()
        invariant
            f <= buffer.len(),
            samples.len() == 2 * f,
            forall|i: int| 0 <= i < samples.len() ==> #[trigger] samples[i] == interleaved(buffer@)[i],
        decreases buffer.len() - f,
    {
        let frame: (i16, i16) = buffer[f];
        samples.push(frame.0);
        samples.push(frame.1);
        f += 1;
    }
    proof {
        assert(samples@ =~= interleaved(buffer@));
    }
    samples
}

/// The WAV file of a stereo buffer, as bytes.
pub fn encode_recording(buffer: &Vec<(i16, i16)>) -> (recording: Result<Vec<u8>, RecordError>)
    ensures
        recording_view(recording) == spec_encode_recording(buffer@),
{
    if buffer.len() > MAX_RECORDING_FRAMES as usize {
        return Err(RecordError::TooLong);
    }
    let samples = interleave(buffer);
    match encode_wav(RECORDING_CHANNELS, RECORDING_SAMPLE_RATE, RECORDING_BITS, &samples) {
        Some(bytes) => Ok(bytes),
        None => Err(RecordError::Encoding),
    }
}

/// Renders the pattern at the recording's sample rate and encodes the mixdown
/// as a WAV file. `decoded[t]` is the interleaved stereo sample of track `t`.
pub fn record_pattern(
    beat_pattern: &Vec<Vec<bool>>,
    decoded: &Vec<Vec<i16>>,
    bpm: u32,
    sequence_length: u32,
    scale: SequenceScale,
) -> (recording: Result<Vec<u8>, RecordError>)
    requires
        bpm > 0,
    ensures
        recording_view(recording) == spec_record_pattern(
            grid(beat_pattern@),
            decoded_view(decoded@),
            bpm as int,
            sequence_length as int,
            scale,
        ),
{
    let beat_frames: u64 = beat_duration_frames(bpm, RECORDING_SAMPLE_RATE, scale);
    assert(beat_frames * sequence_length <= 2646000 * 0xffff_ffff) by (nonlinear_arith)
        requires
            0 <= beat_frames <= 2646000,
            0 <= sequence_length <= 0xffff_ffff,
    ;
    let total: u64 = beat_frames * (sequence_length as u64);
    if total > MAX_RECORDING_FRAMES as u64 {
        return Err(RecordError::TooLong);
    }
    let buffer = render_pattern(
        beat_pattern,
        decoded,
        bpm,
        sequence_length,
        RECORDING_SAMPLE_RATE,
        scale,
    );
    encode_recording(&buffer)
}

/// The file name of a recording stamped `stamp`.
pub fn recording_file_name(stamp: &str) -> (name: String)
    ensures
        name@ == spec_recording_name(stamp@),
{
    let mut name = String::from_str("pattern_");
    name.append(stamp);
    name.append(".wav");
    name
}

/// A file name for a recording made now: the local date and time, to the
/// second, between the fixed prefix and extension. The stamp has at least
/// fifteen characters, so no two seconds share a name.
pub fn fresh_recording_name() -> (name: String)
    ensures
        exists|stamp: Seq<char>|
            stamp.len() >= 15 && name@ == #[trigger] spec_recording_name(stamp),
        name@.len() >= 27,
{
    let stamp = local_time_text("%Y%m%d_%H%M%S");
    let name = recording_file_name(stamp.as_str());
    proof {
        reveal_strlit("pattern_");
        reveal_strlit(".wav");
        assert(stamp@.len() >= 15 && name@ == spec_recording_name(stamp@));
    }
    name
}

} // verus!
