//! The offline mixdown: every active cell adds its track's decoded sample into
//! one stereo buffer, frame by frame, saturating at the 16-bit bounds.

use vstd::prelude::*;
use crate::pattern::grid;
use crate::scale::SequenceScale;
use crate::timing::{beat_duration_frames, spec_beat_frames};

verus! {

/// `v` clamped to the range of a signed 16-bit sample.
pub open spec fn clamp16(v: int) -> i16 {
    if v > 32767 {
        32767i16
    } else if v < -32768 {
        (-32768i16)
    } else {
        v as i16
    }
}

/// The decoded samples that a vector of sample buffers stands for.
pub open spec fn decoded_view(decoded: Seq<Vec<i16>>) -> Seq<Seq<i16>> {
    Seq::new(decoded.len(), |i: int| decoded[i]@)
}

/// The number of stereo frames in an interleaved sample sequence; a trailing
/// sample without a partner is a frame with a left channel only.
pub open spec fn frame_count(samples: Seq<i16>) -> int {
    (samples.len() / 2 + samples.len() % 2) as int
}

/// One buffer frame after frame `k` of `samples` was added to it. Outside the
/// sample the frame is unchanged.
pub open spec fn mix_frame(frame: (i16, i16), samples: Seq<i16>, k: int) -> (i16, i16) {
    if 0 <= k && 2 * k < samples.len() {
        (
            clamp16(frame.0 + samples[2 * k]),
            if 2 * k + 1 < samples.len() {
                clamp16(frame.1 + samples[2 * k + 1])
            } else {
                frame.1
            },
        )
    } else {
        frame
    }
}

/// The buffer after one hit: `samples` added frame by frame from frame `start`,
/// cut off at the buffer's end.
pub open spec fn mix_hit(buffer: Seq<(i16, i16)>, samples: Seq<i16>, start: int) -> Seq<(i16, i16)> {
    Seq::new(buffer.len(), |f: int| mix_frame(buffer[f], samples, f - start))
}

/// The buffer after the hits of the first `beats` cells of one row, in beat order.
pub open spec fn mix_row(
    buffer: Seq<(i16, i16)>,
    row: Seq<bool>,
    samples: Seq<i16>,
    beat_frames: int,
    beats: nat,
) -> Seq<(i16, i16)>
    decreases beats,
{
    if beats == 0 {
        buffer
    } else {
        let beat = beats - 1;
        let before = mix_row(buffer, row, samples, beat_frames, beat as nat);
        if beat < row.len() && row[beat] {
            mix_hit(before, samples, beat * beat_frames)
        } else {
            before
        }
    }
}

/// The buffer after the first `tracks` rows were mixed, in track order. A row
/// without a decoded sample adds nothing.
pub open spec fn mix_tracks(
    buffer: Seq<(i16, i16)>,
    cells: Seq<Seq<bool>>,
    decoded: Seq<Seq<i16>>,
    beat_frames: int,
    tracks: nat,
) -> Seq<(i16, i16)>
    decreases tracks,
{
    if tracks == 0 {
        buffer
    } else {
        let track = tracks - 1;
        let before = mix_tracks(buffer, cells, decoded, beat_frames, track as nat);
        if track < cells.len() && track < decoded.len() {
            mix_row(before, cells[track], decoded[track], beat_frames, cells[track].len())
        } else {
            before
        }
    }
}

/// A buffer of `frames` silent frames.
pub open spec fn silence(frames: nat) -> Seq<(i16, i16)> {
    Seq::new(frames, |f: int| (0i16, 0i16))
}

/// The mixdown of a whole pattern: silence of `beat_frames * sequence_length`
/// frames with every track mixed in.
pub open spec fn spec_render(
    cells: Seq<Seq<bool>>,
    decoded: Seq<Seq<i16>>,
    beat_frames: int,
    sequence_length: int,
) -> Seq<(i16, i16)> {
    mix_tracks(
        silence((beat_frames * sequence_length) as nat),
        cells,
        decoded,
        beat_frames,
        cells.len(),
    )
}

/// The samples of a stereo buffer in file order: left, right, left, right.
pub open spec fn interleaved(buffer: Seq<(i16, i16)>) -> Seq<i16> {
    Seq::new(
        2 * buffer.len(),
        |i: int| if i % 2 == 0 { buffer[i / 2].0 } else { buffer[i / 2].1 },
    )
}

/// Adds two samples, clamping the sum to the 16-bit range instead of wrapping.
pub fn saturating_mix(a: i16, b: i16) -> (sum: i16)
    ensures
        sum == clamp16(a + b),
        a + b > i16::MAX ==> sum == i16::MAX,
        a + b < i16::MIN ==> sum == i16::MIN,
        i16::MIN <= a + b <= i16::MAX ==> sum == a + b,
{
    let wide: i32 = (a as i32) + (b as i32);
    if wide > 32767 {
        32767
    } else if wide < -32768 {
        -32768
    } else {
        wide as i16
    }
}

/// A hit that starts at or past the buffer's end changes nothing.
pub proof fn lemma_hit_past_end(buffer: Seq<(i16, i16)>, samples: Seq<i16>, start: int)
    requires
        start >= buffer.len(),
    ensures
        mix_hit(buffer, samples, start) == buffer,
{
    assert(mix_hit(buffer, samples, start) =~= buffer);
}

/// Mixes one decoded sample into the buffer from frame `start` on.
pub fn mix_sample(buffer: &mut Vec<(i16, i16)>, samples: &Vec<i16>, start: usize)
    ensures
        final(buffer)@ == mix_hit(old(buffer)@, samples@, start as int),
{
    if start >= buffer.len() {
        proof {
            lemma_hit_past_end(buffer@, samples@, start as int);
        }
        return ;
    }
    let frames: usize = samples.len() / 2 + samples.len() % 2;
    let room: usize = buffer.len() - start;
    let count: usize = if frames < room { frames } else { room };
    let mut k: usize = 0;
    while k < count
        invariant
            k <= count,
            count <= frames,
            count <= room,
            count == frames || count == room,
            frames == frame_count(samples@),
            start + room == buffer.len(),
            buffer.len() == old(buffer).len(),
            forall|f: int|
                0 <= f < buffer.len() ==> #[trigger] buffer[f] == if start <= f < start + k {
                    mix_frame(old(buffer)[f], samples@, f - start)
                } else {
                    old(buffer)[f]
                },
        decreases count - k,
    {
        assert(samples.len() == 2 * (samples.len() / 2) + samples.len() % 2);
        assert(2 * k < samples.len());
        let at: usize = start + k;
        let frame: (i16, i16) = buffer[at];
        let left: i16 = saturating_mix(frame.0, samples[2 * k]);
        let right: i16 = if 2 * k + 1 < samples.len() {
            saturating_mix(frame.1, samples[2 * k + 1])
        } else {
            frame.1
        };
        buffer[at] = (left, right);
        k += 1;
    }
    proof {
        assert(buffer@ =~= mix_hit(old(buffer)@, samples@, start as int));
    }
}

/// Mixes every active cell of one row into the buffer, in beat order; the hit
/// of beat `b` starts at frame `b * beat_frames`.
pub fn mix_track(buffer: &mut Vec<(i16, i16)>, row: &Vec<bool>, samples: &Vec<i16>, beat_frames: usize)
    ensures
        final(buffer)@ == mix_row(
            old(buffer)@,
            row@,
            samples@,
            beat_frames as int,
            row.len() as nat,
        ),
{
    let mut beat: usize = 0;
    while beat < row.len()
        invariant
            beat <= row.len(),
            buffer@ == mix_row(old(buffer)@, row@, samples@, beat_frames as int, beat as nat),
        decreases row.len() - beat,
    {
        if row[beat] {
            match beat.checked_mul(beat_frames) {
                Some(start) => {
                    mix_sample(buffer, samples, start);
                },
                None => {
                    proof {
                        assert(buffer.len() <= usize::MAX);
                        lemma_hit_past_end(buffer@, samples@, beat * beat_frames);
                    }
                },
            }
        }
        beat += 1;
    }
}

/// A buffer of `frames` silent frames.
pub fn silent_buffer(frames: usize) -> (buffer: Vec<(i16, i16)>)
    ensures
        buffer@ == silence(frames as nat),
{
    let mut buffer: Vec<(i16, i16)> = Vec::new();
    while buffer.len() < frames
        invariant
            buffer.len() <= frames,
            forall|f: int| 0 <= f < buffer.len() ==> buffer[f] == (0i16, 0i16),
        decreases frames - buffer.len(),
    {
        buffer.push((0, 0));
    }
    proof {
        assert(buffer@ =~= silence(frames as nat));
    }
    buffer
}

/// Renders the pattern into one stereo buffer. `decoded[t]` is the interleaved
/// stereo sample of track `t`.
pub fn render_pattern(
    beat_pattern: &Vec<Vec<bool>>,
    decoded: &Vec<Vec<i16>>,
    bpm: u32,
    sequence_length: u32,
    sample_rate: u32,
    scale: SequenceScale,
) -> (buffer: Vec<(i16, i16)>)
    requires
        bpm > 0,
        spec_beat_frames(bpm as int, sample_rate as int, scale) * sequence_length <= usize::MAX,
    ensures
        buffer@ == spec_render(
            grid(beat_pattern@),
            decoded_view(decoded@),
            spec_beat_frames(bpm as int, sample_rate as int, scale),
            sequence_length as int,
        ),
        buffer.len() == spec_beat_frames(bpm as int, sample_rate as int, scale) * sequence_length,
{
    let beat_frames: u64 = beat_duration_frames(bpm, sample_rate, scale);
    if sequence_length == 0 {
        let buffer = silent_buffer(0);
        proof {
            assert(beat_frames * 0 == 0) by (nonlinear_arith);
            lemma_mix_tracks_len(
                silence(0),
                grid(beat_pattern@),
                decoded_view(decoded@),
                beat_frames as int,
                beat_pattern.len() as nat,
            );
            assert(spec_render(
                grid(beat_pattern@),
                decoded_view(decoded@),
                beat_frames as int,
                0,
            ) =~= buffer@);
        }
        return buffer;
    }
    proof {
        assert(beat_frames <= beat_frames * sequence_length) by (nonlinear_arith)
            requires
                sequence_length >= 1,
                beat_frames >= 0,
        ;
    }
    let step: usize = beat_frames as usize;
    let total: usize = step * (sequence_length as usize);
    let mut buffer = silent_buffer(total);
    let ghost cells = grid(beat_pattern@);
    let ghost sounds = decoded_view(decoded@);
    let mut track: usize = 0;
    while track < beat_pattern.len()
        invariant
            track <= beat_pattern.len(),
            cells == grid(beat_pattern@),
            sounds == decoded_view(decoded@),
            buffer@ == mix_tracks(silence(total as nat), cells, sounds, step as int, track as nat),
        decreases beat_pattern.len() - track,
    {
        if track < decoded.len() {
            mix_track(&mut buffer, &beat_pattern[track], &decoded[track], step);
        }
        track += 1;
    }
    proof {
        lemma_mix_tracks_len(silence(total as nat), cells, sounds, step as int, cells.len());
    }
    buffer
}

/// Mixing one row keeps the buffer's length.
pub proof fn lemma_mix_row_len(
    buffer: Seq<(i16, i16)>,
    row: Seq<bool>,
    samples: Seq<i16>,
    beat_frames: int,
    beats: nat,
)
    ensures
        mix_row(buffer, row, samples, beat_frames, beats).len() == buffer.len(),
    decreases beats,
{
    if beats > 0 {
        lemma_mix_row_len(buffer, row, samples, beat_frames, (beats - 1) as nat);
    }
}

/// Mixing any number of tracks keeps the buffer's length.
pub proof fn lemma_mix_tracks_len(
    buffer: Seq<(i16, i16)>,
    cells: Seq<Seq<bool>>,
    decoded: Seq<Seq<i16>>,
    beat_frames: int,
    tracks: nat,
)
    ensures
        mix_tracks(buffer, cells, decoded, beat_frames, tracks).len() == buffer.len(),
    decreases tracks,
{
    if tracks > 0 {
        let track = tracks - 1;
        lemma_mix_tracks_len(buffer, cells, decoded, beat_frames, track as nat);
        if track < cells.len() && track < decoded.len() {
            lemma_mix_row_len(
                mix_tracks(buffer, cells, decoded, beat_frames, track as nat),
                cells[track],
                decoded[track],
                beat_frames,
                cells[track].len(),
            );
        }
    }
}

/// The mixdown has exactly `beat_frames * sequence_length` frames, whichever
/// cells are active and whatever the samples hold.
pub proof fn lemma_render_length(
    cells: Seq<Seq<bool>>,
    decoded: Seq<Seq<i16>>,
    beat_frames: int,
    sequence_length: int,
)
    requires
        beat_frames >= 0,
        sequence_length >= 0,
    ensures
        spec_render(cells, decoded, beat_frames, sequence_length).len() == beat_frames
            * sequence_length,
{
    assert(beat_frames * sequence_length >= 0) by (nonlinear_arith)
        requires
            beat_frames >= 0,
            sequence_length >= 0,
    ;
    lemma_mix_tracks_len(
        silence((beat_frames * sequence_length) as nat),
        cells,
        decoded,
        beat_frames,
        cells.len(),
    );
}

/// Where a buffer sample and a sample mixed onto it sum above the 16-bit
/// maximum the mixed frame holds the maximum, and below the minimum the
/// minimum: the sum never wraps.
pub proof fn lemma_mix_saturates(frame: (i16, i16), samples: Seq<i16>, k: int)
    requires
        0 <= k,
        2 * k < samples.len(),
    ensures
        frame.0 + samples[2 * k] > i16::MAX ==> mix_frame(frame, samples, k).0 == i16::MAX,
        frame.0 + samples[2 * k] < i16::MIN ==> mix_frame(frame, samples, k).0 == i16::MIN,
        2 * k + 1 < samples.len() && frame.1 + samples[2 * k + 1] > i16::MAX ==> mix_frame(
            frame,
            samples,
            k,
        ).1 == i16::MAX,
        2 * k + 1 < samples.len() && frame.1 + samples[2 * k + 1] < i16::MIN ==> mix_frame(
            frame,
            samples,
            k,
        ).1 == i16::MIN,
{
}

/// Whether a hit of `samples` that starts at frame `start` reaches `frame`.
pub open spec fn hit_covers(samples: Seq<i16>, start: int, frame: int) -> bool {
    start <= frame && 2 * (frame - start) < samples.len()
}

/// Whether a hit of some active cell of the row reaches `frame`.
pub open spec fn row_covers(row: Seq<bool>, samples: Seq<i16>, beat_frames: int, frame: int) -> bool {
    exists|beat: int|
        0 <= beat < row.len() && #[trigger] row[beat] && hit_covers(samples, beat * beat_frames, frame)
}

/// Whether a hit of some active cell of a track with a sample reaches `frame`.
pub open spec fn pattern_covers(
    cells: Seq<Seq<bool>>,
    decoded: Seq<Seq<i16>>,
    beat_frames: int,
    frame: int,
) -> bool {
    exists|track: int|
        0 <= track < cells.len() && track < decoded.len() && row_covers(
            #[trigger] cells[track],
            decoded[track],
            beat_frames,
            frame,
        )
}

/// Mixing a row leaves every frame as it was that no hit of the row reaches.
pub proof fn lemma_row_keeps_uncovered(
    buffer: Seq<(i16, i16)>,
    row: Seq<bool>,
    samples: Seq<i16>,
    beat_frames: int,
    beats: nat,
    frame: int,
)
    requires
        0 <= frame < buffer.len(),
        beats <= row.len(),
        !row_covers(row, samples, beat_frames, frame),
    ensures
        mix_row(buffer, row, samples, beat_frames, beats)[frame] == buffer[frame],
    decreases beats,
{
    if beats > 0 {
        let beat = beats - 1;
        lemma_row_keeps_uncovered(buffer, row, samples, beat_frames, beat as nat, frame);
        lemma_mix_row_len(buffer, row, samples, beat_frames, beat as nat);
        if row[beat] {
            assert(!hit_covers(samples, beat * beat_frames, frame));
        }
    }
}

/// Mixing tracks leaves every frame as it was that no hit of theirs reaches.
pub proof fn lemma_tracks_keep_uncovered(
    buffer: Seq<(i16, i16)>,
    cells: Seq<Seq<bool>>,
    decoded: Seq<Seq<i16>>,
    beat_frames: int,
    tracks: nat,
    frame: int,
)
    requires
        0 <= frame < buffer.len(),
        tracks <= cells.len(),
        !pattern_covers(cells, decoded, beat_frames, frame),
    ensures
        mix_tracks(buffer, cells, decoded, beat_frames, tracks)[frame] == buffer[frame],
    decreases tracks,
{
    if tracks > 0 {
        let track = tracks - 1;
        let before = mix_tracks(buffer, cells, decoded, beat_frames, track as nat);
        lemma_tracks_keep_uncovered(buffer, cells, decoded, beat_frames, track as nat, frame);
        lemma_mix_tracks_len(buffer, cells, decoded, beat_frames, track as nat);
        if track < decoded.len() {
            assert(!row_covers(cells[track], decoded[track], beat_frames, frame));
            lemma_row_keeps_uncovered(
                before,
                cells[track],
                decoded[track],
                beat_frames,
                cells[track].len(),
                frame,
            );
        }
    }
}

/// The mixdown is silent at every frame that no hit reaches: sound begins
/// exactly where an active cell's beat begins and lasts as long as its sample.
pub proof fn lemma_silent_where_uncovered(
    cells: Seq<Seq<bool>>,
    decoded: Seq<Seq<i16>>,
    beat_frames: int,
    sequence_length: int,
    frame: int,
)
    requires
        0 <= frame < beat_frames * sequence_length,
        !pattern_covers(cells, decoded, beat_frames, frame),
    ensures
        spec_render(cells, decoded, beat_frames, sequence_length)[frame] == (0i16, 0i16),
{
    lemma_tracks_keep_uncovered(
        silence((beat_frames * sequence_length) as nat),
        cells,
        decoded,
        beat_frames,
        cells.len(),
        frame,
    );
}

/// Whether the cell is active and its track has a sample, so that it gives a hit.
pub open spec fn is_hit(cells: Seq<Seq<bool>>, decoded: Seq<Seq<i16>>, track: int, beat: int) -> bool {
    &&& 0 <= track < cells.len()
    &&& track < decoded.len()
    &&& 0 <= beat < cells[track].len()
    &&& cells[track][beat]
}

/// Mixing a row in which only the hit of `beat` can reach `frame` changes the
/// frame as that one hit does.
pub proof fn lemma_row_lone_hit(
    buffer: Seq<(i16, i16)>,
    row: Seq<bool>,
    samples: Seq<i16>,
    beat_frames: int,
    beats: nat,
    beat: int,
    frame: int,
)
    requires
        0 <= frame < buffer.len(),
        beats <= row.len(),
        0 <= beat < row.len(),
        row[beat],
        forall|other: int|
            0 <= other < row.len() && other != beat && #[trigger] row[other] ==> !hit_covers(
                samples,
                other * beat_frames,
                frame,
            ),
    ensures
        mix_row(buffer, row, samples, beat_frames, beats)[frame] == if beats > beat {
            mix_frame(buffer[frame], samples, frame - beat * beat_frames)
        } else {
            buffer[frame]
        },
    decreases beats,
{
    if beats > 0 {
        let last = beats - 1;
        lemma_row_lone_hit(buffer, row, samples, beat_frames, last as nat, beat, frame);
        lemma_mix_row_len(buffer, row, samples, beat_frames, last as nat);
        if row[last] && last != beat {
            assert(!hit_covers(samples, last * beat_frames, frame));
        }
    }
}

/// Mixing tracks of which only the hit of cell (`track`, `beat`) can reach
/// `frame` changes the frame as that one hit does.
pub proof fn lemma_tracks_lone_hit(
    buffer: Seq<(i16, i16)>,
    cells: Seq<Seq<bool>>,
    decoded: Seq<Seq<i16>>,
    beat_frames: int,
    tracks: nat,
    track: int,
    beat: int,
    frame: int,
)
    requires
        0 <= frame < buffer.len(),
        tracks <= cells.len(),
        is_hit(cells, decoded, track, beat),
        forall|t: int, b: int|
            #[trigger] is_hit(cells, decoded, t, b) && (t != track || b != beat) ==> !hit_covers(
                decoded[t],
                b * beat_frames,
                frame,
            ),
    ensures
        mix_tracks(buffer, cells, decoded, beat_frames, tracks)[frame] == if tracks > track {
            mix_frame(buffer[frame], decoded[track], frame - beat * beat_frames)
        } else {
            buffer[frame]
        },
    decreases tracks,
{
    if tracks > 0 {
        let last = tracks - 1;
        let before = mix_tracks(buffer, cells, decoded, beat_frames, last as nat);
        lemma_tracks_lone_hit(buffer, cells, decoded, beat_frames, last as nat, track, beat, frame);
        lemma_mix_tracks_len(buffer, cells, decoded, beat_frames, last as nat);
        if last < decoded.len() {
            let row = cells[last];
            if last == track {
                assert forall|other: int|
                    0 <= other < row.len() && other != beat && #[trigger] row[other] implies !hit_covers(
                    decoded[last],
                    other * beat_frames,
                    frame,
                ) by {
                    assert(is_hit(cells, decoded, last, other));
                }
                lemma_row_lone_hit(before, row, decoded[last], beat_frames, row.len(), beat, frame);
            } else {
                assert forall|b: int| 0 <= b < row.len() && #[trigger] row[b] implies !hit_covers(
                    decoded[last],
                    b * beat_frames,
                    frame,
                ) by {
                    assert(is_hit(cells, decoded, last, b));
                }
                lemma_row_keeps_uncovered(before, row, decoded[last], beat_frames, row.len(), frame);
            }
        }
    }
}

/// Where one hit alone reaches a frame, the mixdown holds the sample itself
/// there: frame `k` of the sample at frame `k` after the beat's start, with a
/// silent right channel where the sample ends on a lone left one.
pub proof fn lemma_lone_hit_is_the_sample(
    cells: Seq<Seq<bool>>,
    decoded: Seq<Seq<i16>>,
    beat_frames: int,
    sequence_length: int,
    track: int,
    beat: int,
    frame: int,
)
    requires
        0 <= frame < beat_frames * sequence_length,
        is_hit(cells, decoded, track, beat),
        hit_covers(decoded[track], beat * beat_frames, frame),
        forall|t: int, b: int|
            #[trigger] is_hit(cells, decoded, t, b) && (t != track || b != beat) ==> !hit_covers(
                decoded[t],
                b * beat_frames,
                frame,
            ),
    ensures
        spec_render(cells, decoded, beat_frames, sequence_length)[frame].0 == decoded[track][2 * (
        frame - beat * beat_frames)],
        2 * (frame - beat * beat_frames) + 1 < decoded[track].len() ==> spec_render(
            cells,
            decoded,
            beat_frames,
            sequence_length,
        )[frame].1 == decoded[track][2 * (frame - beat * beat_frames) + 1],
        2 * (frame - beat * beat_frames) + 1 >= decoded[track].len() ==> spec_render(
            cells,
            decoded,
            beat_frames,
            sequence_length,
        )[frame].1 == 0,
{
    lemma_tracks_lone_hit(
        silence((beat_frames * sequence_length) as nat),
        cells,
        decoded,
        beat_frames,
        cells.len(),
        track,
        beat,
        frame,
    );
}

/// Two renders whose patterns, samples, tempo and length agree give the same
/// buffer, frame for frame.
pub proof fn lemma_render_deterministic(
    first_pattern: Vec<Vec<bool>>,
    second_pattern: Vec<Vec<bool>>,
    first_decoded: Vec<Vec<i16>>,
    second_decoded: Vec<Vec<i16>>,
    beat_frames: int,
    sequence_length: int,
)
    requires
        first_pattern.len() == second_pattern.len(),
        forall|t: int| 0 <= t < first_pattern.len() ==> first_pattern[t]@ == second_pattern[t]@,
        first_decoded.len() == second_decoded.len(),
        forall|t: int| 0 <= t < first_decoded.len() ==> first_decoded[t]@ == second_decoded[t]@,
    ensures
        spec_render(
            grid(first_pattern@),
            decoded_view(first_decoded@),
            beat_frames,
            sequence_length,
        ) == spec_render(
            grid(second_pattern@),
            decoded_view(second_decoded@),
            beat_frames,
            sequence_length,
        ),
{
    assert(grid(first_pattern@) =~= grid(second_pattern@));
    assert(decoded_view(first_decoded@) =~= decoded_view(second_decoded@));
}

} // verus!
