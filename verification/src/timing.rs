//! Tempo arithmetic: how long a tick lasts, in time and in audio frames.

use vstd::prelude::*;
use crate::scale::SequenceScale;

verus! {

/// Milliseconds in a minute: the numerator of every tick length.
pub const MILLIS_PER_MINUTE: u32 = 60000;

/// Nanoseconds in a minute.
pub const NANOS_PER_MINUTE: u64 = 60000000000;

/// The length of one tick in whole milliseconds: a minute over the tempo, over
/// the scale's multiplier, each division rounding down.
pub open spec fn spec_tick_millis(bpm: int, scale: SequenceScale) -> int
    recommends
        bpm > 0,
{
    60000int / bpm / scale.spec_multiplier()
}

/// The length of one tick in nanoseconds: a minute over the tempo, over the
/// scale's multiplier. This is the exact quotient of a minute by the ticks of
/// a minute, rounded down to the nanosecond
/// (`lemma_tick_nanos_is_the_quotient`).
pub open spec fn spec_tick_nanos(bpm: int, scale: SequenceScale) -> int
    recommends
        bpm > 0,
{
    60000000000int / bpm / scale.spec_multiplier()
}

/// The length of one tick in audio frames at `sample_rate` frames per second:
/// the frames of a minute over the tempo, over the scale's multiplier, each
/// division rounding down.
pub open spec fn spec_beat_frames(bpm: int, sample_rate: int, scale: SequenceScale) -> int
    recommends
        bpm > 0,
{
    60int * sample_rate / bpm / scale.spec_multiplier()
}

/// The length of one tick at this tempo and scale, in whole milliseconds.
pub fn tick_duration_ms(bpm: u32, scale: SequenceScale) -> (millis: u64)
    requires
        bpm > 0,
    ensures
        millis == spec_tick_millis(bpm as int, scale),
        millis == 60000int / (bpm as int) / scale.spec_multiplier(),
        millis <= 60000,
{
    let beat: u32 = MILLIS_PER_MINUTE / bpm;
    let tick: u32 = beat / scale.multiplier();
    tick as u64
}

/// The length of one tick at this tempo and scale, in nanoseconds: what the
/// scheduler waits between two beats. It is never zero.
pub fn tick_duration_nanos(bpm: u32, scale: SequenceScale) -> (nanos: u64)
    requires
        bpm > 0,
    ensures
        nanos == spec_tick_nanos(bpm as int, scale),
        0 < nanos <= 60000000000,
{
    let per_beat: u64 = NANOS_PER_MINUTE / (bpm as u64);
    let multiplier: u64 = scale.multiplier() as u64;
    proof {
        assert(13 <= per_beat <= 60000000000) by (nonlinear_arith)
            requires
                per_beat == 60000000000int / (bpm as int),
                0 < bpm <= 0xffff_ffff,
        ;
        if multiplier == 1 {
            assert(per_beat / 1 == per_beat);
        } else if multiplier == 2 {
            assert(6 <= per_beat / 2 <= per_beat);
        } else {
            assert(3 <= per_beat / 4 <= per_beat);
        }
    }
    per_beat / multiplier
}

/// The tick length is the exact quotient of a minute by the ticks of a
/// minute, rounded down to the nanosecond: that many ticks fit a minute, and
/// ticks one nanosecond longer would not.
pub proof fn lemma_tick_nanos_is_the_quotient(bpm: int, scale: SequenceScale)
    requires
        bpm > 0,
    ensures
        spec_tick_nanos(bpm, scale) == 60000000000int / (bpm * scale.spec_multiplier()),
        spec_tick_nanos(bpm, scale) * (bpm * scale.spec_multiplier()) <= 60000000000,
        60000000000 < (spec_tick_nanos(bpm, scale) + 1) * (bpm * scale.spec_multiplier()),
{
    let m = scale.spec_multiplier();
    let ticks = bpm * m;
    assert(ticks > 0) by (nonlinear_arith)
        requires
            ticks == bpm * m,
            bpm > 0,
            m > 0,
    ;
    let q = 60000000000int / ticks;
    vstd::arithmetic::div_mod::lemma_fundamental_div_mod(60000000000int, ticks);
    vstd::arithmetic::div_mod::lemma_mod_pos_bound(60000000000int, ticks);
    vstd::arithmetic::div_mod::lemma_div_denominator(60000000000int, bpm, m);
    assert(q * ticks == ticks * q && (q + 1) * ticks == ticks * q + ticks) by (nonlinear_arith);
}

/// The whole milliseconds of a tick are its nanoseconds with the part below a
/// millisecond cut off.
pub proof fn lemma_tick_millis_of_nanos(bpm: int, scale: SequenceScale)
    requires
        bpm > 0,
    ensures
        spec_tick_millis(bpm, scale) == spec_tick_nanos(bpm, scale) / 1000000,
        spec_tick_millis(bpm, scale) * 1000000 <= spec_tick_nanos(bpm, scale),
        spec_tick_nanos(bpm, scale) < (spec_tick_millis(bpm, scale) + 1) * 1000000,
{
    let m = scale.spec_multiplier();
    let ticks = bpm * m;
    assert(ticks > 0) by (nonlinear_arith)
        requires
            ticks == bpm * m,
            bpm > 0,
            m > 0,
    ;
    vstd::arithmetic::div_mod::lemma_div_denominator(60000int, bpm, m);
    vstd::arithmetic::div_mod::lemma_div_denominator(60000000000int, bpm, m);
    vstd::arithmetic::div_mod::lemma_div_denominator(60000000000int, ticks, 1000000);
    vstd::arithmetic::div_mod::lemma_div_denominator(60000000000int, 1000000, ticks);
    assert(ticks * 1000000 == 1000000 * ticks) by (nonlinear_arith);
}

/// The floor of the exact quotient: dividing by the tempo and then by the
/// multiplier loses no more than dividing by their product at once.
pub proof fn lemma_beat_frames_is_floor(bpm: int, sample_rate: int, scale: SequenceScale)
    requires
        bpm > 0,
        sample_rate >= 0,
    ensures
        spec_beat_frames(bpm, sample_rate, scale) == (60 * sample_rate) / (bpm
            * scale.spec_multiplier()),
{
    let m = scale.spec_multiplier();
    let n = 60 * sample_rate;
    vstd::arithmetic::div_mod::lemma_div_denominator(n, bpm, m);
}

/// The length of one tick at this tempo and scale, in audio frames: what the
/// mixdown leaves between the starts of two beats.
pub fn beat_duration_frames(bpm: u32, sample_rate: u32, scale: SequenceScale) -> (frames: u64)
    requires
        bpm > 0,
    ensures
        frames == spec_beat_frames(bpm as int, sample_rate as int, scale),
        frames <= 60 * sample_rate,
{
    let per_minute: u64 = 60 * (sample_rate as u64);
    let per_beat: u64 = per_minute / (bpm as u64);
    per_beat / (scale.multiplier() as u64)
}

} // verus!
