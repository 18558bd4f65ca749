//! The melodic sequencer's editor side: a grid of twelve semitone rows, and
//! what each editor message does to it.

use vstd::prelude::*;
use vstd::string::*;
use crate::scale::SequenceScale;
use crate::state::{SequenceState, SequenceStateView};

verus! {

/// The row of the note A, from which the pitch of every row is counted.
pub const REFERENCE_NOTE: usize = 9;

/// What the editor asks of the synth.
#[derive(Debug, Clone, Copy, PartialEq, Eq, Structural)]
pub enum Message {
    ToggleNote(usize, usize, bool),
    PlaySequence,
    StopSequence,
    PlaybackFinished,
    ChangeSequenceScale(SequenceScale),
}

/// What the caller has to do after a message was handled.
#[derive(Debug, Clone, Copy, PartialEq, Eq, Structural)]
pub enum Action {
    Nothing,
    /// Start the note scheduler.
    StartPlayback,
    /// Stop the note scheduler.
    StopPlayback,
}

/// The editor side of the synth: the names of its rows and whether it plays.
#[derive(Debug, Clone, PartialEq, Eq)]
pub struct Synth {
    pub notes: Vec<String>,
    pub is_playing: bool,
}

/// The synth as plain values.
pub struct SynthView {
    pub notes: Seq<Seq<char>>,
    pub is_playing: bool,
}

/// A synth and a state after a message, with the action.
pub struct Step {
    pub synth: SynthView,
    pub state: SequenceStateView,
    pub action: Action,
}

/// The names of the twelve rows, from C up to B.
pub open spec fn note_names() -> Seq<Seq<char>> {
    seq![
        "C"@,
        "C#"@,
        "D"@,
        "D#"@,
        "E"@,
        "F"@,
        "F#"@,
        "G"@,
        "G#"@,
        "A"@,
        "A#"@,
        "B"@,
    ]
}

/// How many semitones row `note` lies above the reference note A; negative
/// below it.
pub open spec fn spec_semitones(note: int) -> int {
    note - 9
}

impl SynthView {
    /// A new synth: the twelve note names, stopped.
    pub open spec fn initial() -> SynthView {
        SynthView { notes: note_names(), is_playing: false }
    }

    /// What a message does to the synth and the state, and what it asks of the
    /// caller.
    pub open spec fn step(self, state: SequenceStateView, message: Message) -> Step {
        match message {
            Message::ToggleNote(note, beat, active) => Step {
                synth: self,
                state: state.with_note(note as int, beat as int, active),
                action: Action::Nothing,
            },
            Message::PlaySequence => if self.is_playing {
                Step { synth: self, state, action: Action::Nothing }
            } else {
                Step {
                    synth: SynthView { is_playing: true, ..self },
                    state,
                    action: Action::StartPlayback,
                }
            },
            Message::StopSequence => Step {
                synth: SynthView { is_playing: false, ..self },
                state,
                action: Action::StopPlayback,
            },
            Message::PlaybackFinished => Step {
                synth: SynthView { is_playing: false, ..self },
                state,
                action: Action::Nothing,
            },
            Message::ChangeSequenceScale(scale) => Step {
                synth: self,
                state: SequenceStateView { synth_scale: scale, ..state },
                action: Action::Nothing,
            },
        }
    }
}

impl View for Synth {
    type V = SynthView;

    open spec fn view(&self) -> SynthView {
        SynthView {
            notes: Seq::new(self.notes@.len(), |i: int| self.notes@[i]@),
            is_playing: self.is_playing,
        }
    }
}

/// The semitone distance of row `note` from the reference note A.
pub fn semitones_from_reference(note: usize) -> (semitones: i64)
    requires
        note <= i64::MAX,
    ensures
        semitones == spec_semitones(note as int),
{
    (note as i64) - (REFERENCE_NOTE as i64)
}

impl Synth {
    /// A stopped synth with its twelve note names.
    pub fn new() -> (synth: Synth)
        ensures
            synth@ == SynthView::initial(),
    {
        let mut notes: Vec<String> = Vec::new();
        notes.push(String::from_str("C"));
        notes.push(String::from_str("C#"));
        notes.push(String::from_str("D"));
        notes.push(String::from_str("D#"));
        notes.push(String::from_str("E"));
        notes.push(String::from_str("F"));
        notes.push(String::from_str("F#"));
        notes.push(String::from_str("G"));
        notes.push(String::from_str("G#"));
        notes.push(String::from_str("A"));
        notes.push(String::from_str("A#"));
        notes.push(String::from_str("B"));
        let synth = Synth { notes, is_playing: false };
        proof {
            assert(synth@.notes =~= note_names());
        }
        synth
    }

    /// Handles one editor message.
    pub fn update(&mut self, state: &mut SequenceState, message: Message) -> (action: Action)
        ensures
            final(self)@ == old(self)@.step(old(state)@, message).synth,
            final(state)@ == old(self)@.step(old(state)@, message).state,
            action == old(self)@.step(old(state)@, message).action,
            old(state)@.wf() ==> final(state)@.wf(),
    {
        match message {
            Message::ToggleNote(note, beat, active) => {
                state.toggle_note(note, beat, active);
                Action::Nothing
            },
            Message::PlaySequence => {
                if self.is_playing {
                    Action::Nothing
                } else {
                    self.is_playing = true;
                    Action::StartPlayback
                }
            },
            Message::StopSequence => {
                self.is_playing = false;
                Action::StopPlayback
            },
            Message::PlaybackFinished => {
                self.is_playing = false;
                Action::Nothing
            },
            Message::ChangeSequenceScale(scale) => {
                state.synth_scale = scale;
                Action::Nothing
            },
        }
    }
}

} // verus!
