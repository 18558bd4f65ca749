//! The sequence state: the pattern grids, the tempo and the subdivision
//! scales that the editor changes and the schedulers read.

use vstd::prelude::*;
use crate::pattern::{
    blank, blank_row, copy_pattern, grid, is_rectangular, rectangular, resize_pattern, resized_grid, set_cell,
    with_cell,
};
use crate::scale::SequenceScale;

verus! {

/// Beats of a new sequence.
pub const DEFAULT_SEQUENCE_LENGTH: u32 = 16;

/// Tempo of a new sequence.
pub const DEFAULT_BPM: u32 = 120;

/// Rows of the note grid: the twelve semitones of an octave.
pub const NOTE_ROWS: usize = 12;

/// Columns of the note grid.
pub const NOTE_COLUMNS: usize = 32;

#[derive(Debug, Clone, PartialEq, Eq)]
/// What the editor and the schedulers share: the grids, the tempo and the
/// scales. `sequence_length` is the number of beats of every beat row.
pub struct SequenceState {
    pub sequence_length: u32,
    pub beat_pattern: Vec<Vec<bool>>,
    pub note_pattern: Vec<Vec<bool>>,
    pub bpm: u32,
    pub drum_scale: SequenceScale,
    pub synth_scale: SequenceScale,
    pub drum_sequence_on: bool,
    pub synth_sequence_on: bool,
    pub octave: u32,
}

/// The sequence state as plain mathematical values.
pub struct SequenceStateView {
    pub sequence_length: nat,
    pub beat_pattern: Seq<Seq<bool>>,
    pub note_pattern: Seq<Seq<bool>>,
    pub bpm: nat,
    pub drum_scale: SequenceScale,
    pub synth_scale: SequenceScale,
    pub drum_sequence_on: bool,
    pub synth_sequence_on: bool,
    pub octave: nat,
}

impl SequenceStateView {
    /// The state of a new engine: sixteen beats at 120 beats per minute, quarter
    /// scale, no track, and an empty note grid of twelve rows.
    pub open spec fn initial() -> SequenceStateView {
        SequenceStateView {
            sequence_length: 16,
            beat_pattern: Seq::empty(),
            note_pattern: Seq::new(12, |i: int| blank(32)),
            bpm: 120,
            drum_scale: SequenceScale::OneFourth,
            synth_scale: SequenceScale::OneFourth,
            drum_sequence_on: false,
            synth_sequence_on: false,
            octave: 0,
        }
    }

    /// The length is positive and even, the tempo positive, and every row of
    /// the beat grid has one cell per beat.
    pub open spec fn wf(self) -> bool {
        &&& self.sequence_length > 0
        &&& self.sequence_length % 2 == 0
        &&& self.bpm > 0
        &&& rectangular(self.beat_pattern, self.sequence_length as int)
    }

    /// A length request is taken where twice the request is a positive 32-bit
    /// number.
    pub open spec fn accepts_length(length: int) -> bool {
        0 < length && 2 * length <= u32::MAX
    }

    /// The state after a request for `length` beat pairs: the sequence gets
    /// twice as many beats and every beat row is cut or padded to fit.
    pub open spec fn with_length(self, length: int) -> SequenceStateView {
        if Self::accepts_length(length) {
            SequenceStateView {
                sequence_length: (2 * length) as nat,
                beat_pattern: resized_grid(self.beat_pattern, (2 * length) as nat),
                ..self
            }
        } else {
            self
        }
    }

    /// The state after a tempo request; a tempo of zero is refused.
    pub open spec fn with_bpm(self, bpm: nat) -> SequenceStateView {
        if bpm > 0 {
            SequenceStateView { bpm, ..self }
        } else {
            self
        }
    }

    /// Whether the beat grid has the cell.
    pub open spec fn has_cell(self, track: int, beat: int) -> bool {
        0 <= track < self.beat_pattern.len() && 0 <= beat < self.beat_pattern[track].len()
    }

    /// The state after an edit of one beat cell; an edit outside the grid
    /// changes nothing.
    pub open spec fn with_beat(self, track: int, beat: int, active: bool) -> SequenceStateView {
        if self.has_cell(track, beat) {
            SequenceStateView {
                beat_pattern: with_cell(self.beat_pattern, track, beat, active),
                ..self
            }
        } else {
            self
        }
    }

    /// Whether the note grid has the cell.
    pub open spec fn has_note(self, note: int, beat: int) -> bool {
        0 <= note < self.note_pattern.len() && 0 <= beat < self.note_pattern[note].len()
    }

    /// The state after an edit of one note cell; an edit outside the grid
    /// changes nothing.
    pub open spec fn with_note(self, note: int, beat: int, active: bool) -> SequenceStateView {
        if self.has_note(note, beat) {
            SequenceStateView {
                note_pattern: with_cell(self.note_pattern, note, beat, active),
                ..self
            }
        } else {
            self
        }
    }

    /// The state with one more track, all of its cells inactive.
    pub open spec fn with_track(self) -> SequenceStateView {
        SequenceStateView { beat_pattern: self.beat_pattern.push(blank(self.sequence_length)), ..self }
    }

    /// The state without track `track`; the rows behind it move up by one.
    pub open spec fn without_track(self, track: int) -> SequenceStateView
        recommends
            0 <= track < self.beat_pattern.len(),
    {
        SequenceStateView { beat_pattern: self.beat_pattern.remove(track), ..self }
    }
}

impl View for SequenceState {
    type V = SequenceStateView;

    open spec fn view(&self) -> SequenceStateView {
        SequenceStateView {
            sequence_length: self.sequence_length as nat,
            beat_pattern: grid(self.beat_pattern@),
            note_pattern: grid(self.note_pattern@),
            bpm: self.bpm as nat,
            drum_scale: self.drum_scale,
            synth_scale: self.synth_scale,
            drum_sequence_on: self.drum_sequence_on,
            synth_sequence_on: self.synth_sequence_on,
            octave: self.octave as nat,
        }
    }
}

impl SequenceState {
    /// The state of a new engine.
    pub fn new() -> (state: SequenceState)
        ensures
            state@ == SequenceStateView::initial(),
            state@.wf(),
    {
        let mut note_pattern: Vec<Vec<bool>> = Vec::new();
        while note_pattern.len() < NOTE_ROWS
            invariant
                note_pattern.len() <= NOTE_ROWS,
                forall|i: int| 0 <= i < note_pattern.len() ==> (#[trigger] note_pattern[i])@ == blank(32),
            decreases NOTE_ROWS - note_pattern.len(),
        {
            note_pattern.push(blank_row(NOTE_COLUMNS));
        }
        let state = SequenceState {
            sequence_length: DEFAULT_SEQUENCE_LENGTH,
            beat_pattern: Vec::new(),
            note_pattern,
            bpm: DEFAULT_BPM,
            drum_scale: SequenceScale::OneFourth,
            synth_scale: SequenceScale::OneFourth,
            drum_sequence_on: false,
            synth_sequence_on: false,
            octave: 0,
        };
        proof {
            assert(state@.beat_pattern =~= Seq::empty());
            assert(state@.note_pattern =~= SequenceStateView::initial().note_pattern);
        }
        state
    }

    /// A copy of the whole state, to read after the store's lock is released.
    pub fn snapshot(&self) -> (copy: SequenceState)
        ensures
            copy@ == self@,
    {
        SequenceState {
            sequence_length: self.sequence_length,
            beat_pattern: copy_pattern(&self.beat_pattern),
            note_pattern: copy_pattern(&self.note_pattern),
            bpm: self.bpm,
            drum_scale: self.drum_scale,
            synth_scale: self.synth_scale,
            drum_sequence_on: self.drum_sequence_on,
            synth_sequence_on: self.synth_sequence_on,
            octave: self.octave,
        }
    }

    /// Whether the state is well-formed.
    pub fn is_well_formed(&self) -> (yes: bool)
        ensures
            yes == self@.wf(),
    {
        self.sequence_length > 0 && self.sequence_length % 2 == 0 && self.bpm > 0 && is_rectangular(
            &self.beat_pattern,
            self.sequence_length as usize,
        )
    }

    /// Sets the sequence to `2 * length` beats and fits every beat row to it.
    /// Says whether the request was taken.
    pub fn update_sequence_length(&mut self, length: u32) -> (taken: bool)
        ensures
            taken == SequenceStateView::accepts_length(length as int),
            final(self)@ == old(self)@.with_length(length as int),
            old(self)@.wf() ==> final(self)@.wf(),
    {
        if length == 0 || length > u32::MAX / 2 {
            return false;
        }
        let beats: u32 = 2 * length;
        self.sequence_length = beats;
        resize_pattern(&mut self.beat_pattern, beats as usize);
        true
    }

    /// Sets the tempo. Says whether the request was taken: a tempo of zero is not.
    pub fn update_bpm(&mut self, bpm: u32) -> (taken: bool)
        ensures
            taken == (bpm > 0),
            final(self)@ == old(self)@.with_bpm(bpm as nat),
            old(self)@.wf() ==> final(self)@.wf(),
    {
        if bpm == 0 {
            return false;
        }
        self.bpm = bpm;
        true
    }

    /// Sets one beat cell. Says whether the grid has the cell.
    pub fn update_beat_pattern(&mut self, track: usize, beat: usize, active: bool) -> (changed: bool)
        ensures
            changed == old(self)@.has_cell(track as int, beat as int),
            final(self)@ == old(self)@.with_beat(track as int, beat as int, active),
            old(self)@.wf() ==> final(self)@.wf(),
    {
        let changed = set_cell(&mut self.beat_pattern, track, beat, active);
        changed
    }

    /// Sets one note cell. Says whether the grid has the cell.
    pub fn toggle_note(&mut self, note: usize, beat: usize, active: bool) -> (changed: bool)
        ensures
            changed == old(self)@.has_note(note as int, beat as int),
            final(self)@ == old(self)@.with_note(note as int, beat as int, active),
            old(self)@.wf() ==> final(self)@.wf(),
    {
        let changed = set_cell(&mut self.note_pattern, note, beat, active);
        changed
    }

    /// Adds a track of inactive cells behind the others.
    pub fn add_track(&mut self)
        ensures
            final(self)@ == old(self)@.with_track(),
            old(self)@.wf() ==> final(self)@.wf(),
    {
        let row = blank_row(self.sequence_length as usize);
        self.beat_pattern.push(row);
        proof {
            assert(grid(self.beat_pattern@) =~= old(self)@.beat_pattern.push(
                blank(old(self)@.sequence_length),
            ));
        }
    }

    /// Removes track `track`.
    pub fn remove_track(&mut self, track: usize)
        requires
            track < old(self).beat_pattern.len(),
        ensures
            final(self)@ == old(self)@.without_track(track as int),
            old(self)@.wf() ==> final(self)@.wf(),
    {
        self.beat_pattern.remove(track);
        proof {
            assert(grid(self.beat_pattern@) =~= old(self)@.beat_pattern.remove(track as int));
        }
    }
}

} // verus!
