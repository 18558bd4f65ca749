//! The drum machine's editor side: the sample slots, co-indexed with the rows
//! of the beat grid, and what each editor message does to them.

use vstd::prelude::*;
use vstd::string::*;
use crossbeam_channel::Sender;
use crate::pattern::copy_pattern;
use crate::scale::{SampleFolder, SequenceScale};
use crate::state::{SequenceState, SequenceStateView};

verus! {

/// The sending end of the pattern update channel.
#[verifier::external_type_specification]
#[verifier::external_body]
#[verifier::reject_recursive_types(T)]
pub struct ExSender<T>(crossbeam_channel::Sender<T>);

/// Whether the drum sequence is playing.
#[derive(Debug, Clone, Copy, PartialEq, Eq)]
pub struct PlaybackState {
    pub play_sequence_on: bool,
}

/// The sample of one track: a file name within a kit.
#[derive(Debug, Clone, PartialEq, Eq)]
pub struct SampleSlot {
    pub name: String,
    pub folder: SampleFolder,
}

/// A sample slot as plain values.
pub struct SampleSlotView {
    pub name: Seq<char>,
    pub folder: SampleFolder,
}

impl View for SampleSlot {
    type V = SampleSlotView;

    open spec fn view(&self) -> SampleSlotView {
        SampleSlotView { name: self.name@, folder: self.folder }
    }
}

/// The slots that a vector of slots stands for, by track index.
pub open spec fn slots_view(slots: Seq<SampleSlot>) -> Seq<SampleSlotView> {
    Seq::new(slots.len(), |i: int| slots[i]@)
}

/// What the editor asks of the drum machine.
#[derive(Debug, Clone, PartialEq, Eq)]
pub enum Message {
    UpdateBeatPattern(usize, usize, bool),
    PlayAndAddSample(String),
    RecordPattern,
    ChangeSequenceScale(SequenceScale),
    RemoveSample(usize),
    ChangeSampleFolder(SampleFolder),
    ToggleAddSampleOnPlay(bool),
    PlaySequence,
    StopSequence,
}

/// What the caller has to do after a message was handled.
#[derive(Debug, Clone, PartialEq, Eq)]
pub enum Action {
    Nothing,
    /// Play the named file of the given directory once.
    PlaySample(String, String),
    /// List the sample files of the given directory anew.
    ListSamples(String),
    /// Start the playback scheduler.
    StartPlayback,
    /// Stop the playback scheduler.
    StopPlayback,
    /// Render the pattern to a file.
    Record,
}

/// An action as plain values.
pub enum ActionView {
    Nothing,
    PlaySample(Seq<char>, Seq<char>),
    ListSamples(Seq<char>),
    StartPlayback,
    StopPlayback,
    Record,
}

impl View for Action {
    type V = ActionView;

    open spec fn view(&self) -> ActionView {
        match self {
            Action::Nothing => ActionView::Nothing,
            Action::PlaySample(directory, name) => ActionView::PlaySample(directory@, name@),
            Action::ListSamples(directory) => ActionView::ListSamples(directory@),
            Action::StartPlayback => ActionView::StartPlayback,
            Action::StopPlayback => ActionView::StopPlayback,
            Action::Record => ActionView::Record,
        }
    }
}

/// The outcome of a message for the world outside: a pattern snapshot to push
/// to the scheduler, where the grid changed, and an action.
#[derive(Debug, Clone, PartialEq, Eq)]
pub struct Effects {
    pub pattern_update: Option<Vec<Vec<bool>>>,
    pub action: Action,
}

/// Effects as plain values.
pub struct EffectsView {
    pub pattern_update: Option<Seq<Seq<bool>>>,
    pub action: ActionView,
}

impl View for Effects {
    type V = EffectsView;

    open spec fn view(&self) -> EffectsView {
        EffectsView {
            pattern_update: match self.pattern_update {
                Some(pattern) => Some(crate::pattern::grid(pattern@)),
                None => None,
            },
            action: self.action@,
        }
    }
}

/// One `send` on crossbeam's `Sender`; says whether the message was taken,
/// which it is not once the receiving end is gone. On an unbounded channel
/// the call returns at once; on a bounded one it waits while the channel is
/// full. Nothing is promised of the answer: it depends on the receiving
/// thread.
#[verifier::external_body]
fn send_pattern(updates: &Sender<Vec<Vec<bool>>>, pattern: Vec<Vec<bool>>) -> (sent: bool) {
    updates.send(pattern).is_ok()
}

impl Effects {
    /// Pushes the pattern snapshot, where there is one, to the scheduler and
    /// hands back what is left to do. A scheduler that is gone is no error.
    /// The channel is meant to be unbounded, so that the editor never waits
    /// for the scheduler: a sender of a bounded channel holds the caller up
    /// while that channel is full.
    pub fn publish(self, updates: &Sender<Vec<Vec<bool>>>) -> (action: Action)
        ensures
            action == self.action,
    {
        match self.pattern_update {
            Some(pattern) => {
                send_pattern(updates, pattern);
            },
            None => {},
        }
        self.action
    }
}

/// The editor side of the drum machine. `selected_samples[t]` is the sample
/// of track `t`, the row `t` of the beat grid.
#[derive(Debug, Clone, PartialEq, Eq)]
pub struct DrumMachine {
    pub selected_samples: Vec<SampleSlot>,
    pub sequence_scale: SequenceScale,
    pub playback_state: PlaybackState,
    pub root_sample_folder: String,
    pub sample_folder: SampleFolder,
    pub add_sample_on_play: bool,
}

/// The drum machine as plain values.
pub struct DrumMachineView {
    pub selected_samples: Seq<SampleSlotView>,
    pub sequence_scale: SequenceScale,
    pub playing: bool,
    pub root_sample_folder: Seq<char>,
    pub sample_folder: SampleFolder,
    pub add_sample_on_play: bool,
}

/// A machine and a state after a message, with the effects.
pub struct Step {
    pub machine: DrumMachineView,
    pub state: SequenceStateView,
    pub effects: EffectsView,
}

impl DrumMachineView {
    /// A new machine: no slot, quarter scale, stopped, the 909 kit below
    /// `drumKits`, and samples are played without being added.
    pub open spec fn initial() -> DrumMachineView {
        DrumMachineView {
            selected_samples: Seq::empty(),
            sequence_scale: SequenceScale::OneFourth,
            playing: false,
            root_sample_folder: "drumKits"@,
            sample_folder: SampleFolder::NineONine,
            add_sample_on_play: false,
        }
    }

    /// The state is well-formed and there is one slot for each row of the beat
    /// grid.
    pub open spec fn wf(self, state: SequenceStateView) -> bool {
        state.wf() && self.selected_samples.len() == state.beat_pattern.len()
    }

    /// Whether a slot holds the sample of that name.
    pub open spec fn has_sample(self, name: Seq<char>) -> bool {
        exists|i: int| 0 <= i < self.selected_samples.len() && (#[trigger] self.selected_samples[i]).name == name
    }

    /// The directory of the current kit.
    pub open spec fn directory(self) -> Seq<char> {
        self.root_sample_folder + "/"@ + self.sample_folder.spec_label()
    }

    /// Whether playing the named sample also adds it as a track.
    pub open spec fn adds(self, name: Seq<char>) -> bool {
        self.add_sample_on_play && !self.has_sample(name)
    }

    /// The machine with one more slot, for the named sample of the current kit.
    pub open spec fn with_sample(self, name: Seq<char>) -> DrumMachineView {
        DrumMachineView {
            selected_samples: self.selected_samples.push(
                SampleSlotView { name, folder: self.sample_folder },
            ),
            ..self
        }
    }

    /// The machine without slot `index`; the slots behind it move up by one.
    pub open spec fn without_sample(self, index: int) -> DrumMachineView
        recommends
            0 <= index < self.selected_samples.len(),
    {
        DrumMachineView { selected_samples: self.selected_samples.remove(index), ..self }
    }

    /// No pattern to push and nothing to do.
    pub open spec fn quiet() -> EffectsView {
        EffectsView { pattern_update: None, action: ActionView::Nothing }
    }

    /// What a message does to the machine and the state, and what it asks of
    /// the caller.
    pub open spec fn step(self, state: SequenceStateView, message: Message) -> Step {
        match message {
            Message::UpdateBeatPattern(track, beat, active) => Step {
                machine: self,
                state: state.with_beat(track as int, beat as int, active),
                effects: EffectsView {
                    pattern_update: if state.has_cell(track as int, beat as int) {
                        Some(state.with_beat(track as int, beat as int, active).beat_pattern)
                    } else {
                        None
                    },
                    action: ActionView::Nothing,
                },
            },
            Message::PlayAndAddSample(name) => Step {
                machine: if self.adds(name@) {
                    self.with_sample(name@)
                } else {
                    self
                },
                state: if self.adds(name@) {
                    state.with_track()
                } else {
                    state
                },
                effects: EffectsView {
                    pattern_update: if self.adds(name@) {
                        Some(state.with_track().beat_pattern)
                    } else {
                        None
                    },
                    action: ActionView::PlaySample(self.directory(), name@),
                },
            },
            Message::RecordPattern => Step {
                machine: self,
                state,
                effects: EffectsView { pattern_update: None, action: ActionView::Record },
            },
            Message::ChangeSequenceScale(scale) => Step {
                machine: DrumMachineView { sequence_scale: scale, ..self },
                state: SequenceStateView { drum_scale: scale, ..state },
                effects: Self::quiet(),
            },
            Message::RemoveSample(index) => if index < self.selected_samples.len() {
                Step {
                    machine: self.without_sample(index as int),
                    state: state.without_track(index as int),
                    effects: EffectsView {
                        pattern_update: Some(state.without_track(index as int).beat_pattern),
                        action: ActionView::Nothing,
                    },
                }
            } else {
                Step { machine: self, state, effects: Self::quiet() }
            },
            Message::ChangeSampleFolder(folder) => Step {
                machine: DrumMachineView { sample_folder: folder, ..self },
                state,
                effects: EffectsView {
                    pattern_update: None,
                    action: ActionView::ListSamples(
                        DrumMachineView { sample_folder: folder, ..self }.directory(),
                    ),
                },
            },
            Message::ToggleAddSampleOnPlay(checked) => Step {
                machine: DrumMachineView { add_sample_on_play: checked, ..self },
                state,
                effects: Self::quiet(),
            },
            Message::PlaySequence => if self.playing {
                Step { machine: self, state, effects: Self::quiet() }
            } else {
                Step {
                    machine: DrumMachineView { playing: true, ..self },
                    state,
                    effects: EffectsView { pattern_update: None, action: ActionView::StartPlayback },
                }
            },
            Message::StopSequence => Step {
                machine: DrumMachineView { playing: false, ..self },
                state,
                effects: EffectsView { pattern_update: None, action: ActionView::StopPlayback },
            },
        }
    }
}

impl View for DrumMachine {
    type V = DrumMachineView;

    open spec fn view(&self) -> DrumMachineView {
        DrumMachineView {
            selected_samples: slots_view(self.selected_samples@),
            sequence_scale: self.sequence_scale,
            playing: self.playback_state.play_sequence_on,
            root_sample_folder: self.root_sample_folder@,
            sample_folder: self.sample_folder,
            add_sample_on_play: self.add_sample_on_play,
        }
    }
}

/// A copy of the slot table, to read after the store's lock is released.
pub fn copy_slots(slots: &Vec<SampleSlot>) -> (copy: Vec<SampleSlot>)
    ensures
        slots_view(copy@) == slots_view(slots@),
{
    let mut copy: Vec<SampleSlot> = Vec::new();
    let mut i: usize = 0;
    while i < slots.len()
        invariant
            i <= slots.len(),
            copy.len() == i,
            forall|j: int| 0 <= j < i ==> (#[trigger] copy[j])@ == slots[j]@,
        decreases slots.len() - i,
    {
        copy.push(SampleSlot { name: slots[i].name.clone(), folder: slots[i].folder });
        i += 1;
    }
    proof {
        assert(slots_view(copy@) =~= slots_view(slots@));
    }
    copy
}

impl DrumMachine {
    /// A machine without slots, stopped, on the 909 kit.
    pub fn new() -> (machine: DrumMachine)
        ensures
            machine@ == DrumMachineView::initial(),
    {
        let machine = DrumMachine {
            selected_samples: Vec::new(),
            sequence_scale: SequenceScale::OneFourth,
            playback_state: PlaybackState { play_sequence_on: false },
            root_sample_folder: String::from_str("drumKits"),
            sample_folder: SampleFolder::NineONine,
            add_sample_on_play: false,
        };
        proof {
            assert(slots_view(machine.selected_samples@) =~= Seq::empty());
        }
        machine
    }

    /// Whether the state is well-formed and the slots are in step with the
    /// rows of its beat grid.
    pub fn is_well_formed(&self, state: &SequenceState) -> (yes: bool)
        ensures
            yes == self@.wf(state@),
    {
        state.is_well_formed() && self.selected_samples.len() == state.beat_pattern.len()
    }

    /// Whether a slot holds the sample of that name.
    pub fn has_sample(&self, name: &String) -> (found: bool)
        ensures
            found == self@.has_sample(name@),
    {
        let mut i: usize = 0;
        while i < self.selected_samples.len()
            invariant
                i <= self.selected_samples.len(),
                forall|j: int| 0 <= j < i ==> (#[trigger] self@.selected_samples[j]).name != name@,
            decreases self.selected_samples.len() - i,
        {
            if self.selected_samples[i].name == *name {
                assert(self@.selected_samples[i as int].name == name@);
                return true;
            }
            i += 1;
        }
        false
    }

    /// The directory of the current kit: the sample root, a slash, the kit's
    /// folder.
    pub fn sample_directory(&self) -> (path: String)
        ensures
            path@ == self@.directory(),
    {
        self.sample_folder.directory(self.root_sample_folder.as_str())
    }

    /// Adds a slot for the named sample of the current kit, and its track.
    pub fn add_sample(&mut self, state: &mut SequenceState, name: String)
        ensures
            final(self)@ == old(self)@.with_sample(name@),
            final(state)@ == old(state)@.with_track(),
            old(self)@.wf(old(state)@) ==> final(self)@.wf(final(state)@),
    {
        let folder = self.sample_folder;
        self.selected_samples.push(SampleSlot { name, folder });
        state.add_track();
        proof {
            assert(slots_view(self.selected_samples@) =~= old(self)@.selected_samples.push(
                SampleSlotView { name: name@, folder },
            ));
        }
    }

    /// Removes slot `index` and its track; the slots and rows behind it move
    /// up by one, in their order. Says whether there was such a slot.
    pub fn remove_sample(&mut self, state: &mut SequenceState, index: usize) -> (removed: bool)
        requires
            old(self)@.wf(old(state)@),
        ensures
            removed == (index < old(self)@.selected_samples.len()),
            removed ==> final(self)@ == old(self)@.without_sample(index as int),
            removed ==> final(state)@ == old(state)@.without_track(index as int),
            !removed ==> final(self)@ == old(self)@ && final(state)@ == old(state)@,
            final(self)@.wf(final(state)@),
    {
        if index < self.selected_samples.len() {
            self.selected_samples.remove(index);
            state.remove_track(index);
            proof {
                assert(slots_view(self.selected_samples@) =~= old(self)@.selected_samples.remove(
                    index as int,
                ));
            }
            true
        } else {
            false
        }
    }

    /// Handles one editor message.
    pub fn update(&mut self, state: &mut SequenceState, message: Message) -> (effects: Effects)
        requires
            old(self)@.wf(old(state)@),
        ensures
            final(self)@ == old(self)@.step(old(state)@, message).machine,
            final(state)@ == old(self)@.step(old(state)@, message).state,
            effects@ == old(self)@.step(old(state)@, message).effects,
            final(self)@.wf(final(state)@),
    {
        match message {
            Message::UpdateBeatPattern(track, beat, active) => {
                let changed = state.update_beat_pattern(track, beat, active);
                let pattern_update = if changed {
                    Some(copy_pattern(&state.beat_pattern))
                } else {
                    None
                };
                Effects { pattern_update, action: Action::Nothing }
            },
            Message::PlayAndAddSample(name) => {
                let directory = self.sample_directory();
                let adds = self.add_sample_on_play && !self.has_sample(&name);
                let pattern_update = if adds {
                    self.add_sample(state, name.clone());
                    Some(copy_pattern(&state.beat_pattern))
                } else {
                    None
                };
                Effects { pattern_update, action: Action::PlaySample(directory, name) }
            },
            Message::RecordPattern => Effects { pattern_update: None, action: Action::Record },
            Message::ChangeSequenceScale(scale) => {
                self.sequence_scale = scale;
                state.drum_scale = scale;
                Effects { pattern_update: None, action: Action::Nothing }
            },
            Message::RemoveSample(index) => {
                let removed = self.remove_sample(state, index);
                let pattern_update = if removed {
                    Some(copy_pattern(&state.beat_pattern))
                } else {
                    None
                };
                Effects { pattern_update, action: Action::Nothing }
            },
            Message::ChangeSampleFolder(folder) => {
                self.sample_folder = folder;
                let directory = self.sample_directory();
                Effects { pattern_update: None, action: Action::ListSamples(directory) }
            },
            Message::ToggleAddSampleOnPlay(checked) => {
                self.add_sample_on_play = checked;
                Effects { pattern_update: None, action: Action::Nothing }
            },
            Message::PlaySequence => {
                if self.playback_state.play_sequence_on {
                    Effects { pattern_update: None, action: Action::Nothing }
                } else {
                    self.playback_state.play_sequence_on = true;
                    Effects { pattern_update: None, action: Action::StartPlayback }
                }
            },
            Message::StopSequence => {
                self.playback_state.play_sequence_on = false;
                Effects { pattern_update: None, action: Action::StopPlayback }
            },
        }
    }
}

/// Removing a slot keeps the machine and the grid in step: one slot and one
/// row fewer, the slots and rows before the removed one where they were, and
/// those behind it one place up, each slot still beside its own row.
pub proof fn lemma_remove_reindexes(machine: DrumMachineView, state: SequenceStateView, index: int)
    requires
        machine.wf(state),
        0 <= index < machine.selected_samples.len(),
    ensures
        machine.without_sample(index).wf(state.without_track(index)),
        machine.without_sample(index).selected_samples.len() == machine.selected_samples.len() - 1,
        state.without_track(index).beat_pattern.len() == state.beat_pattern.len() - 1,
        forall|i: int|
            0 <= i < index ==> {
                &&& machine.without_sample(index).selected_samples[i] == machine.selected_samples[i]
                &&& state.without_track(index).beat_pattern[i] == state.beat_pattern[i]
            },
        forall|i: int|
            index <= i < machine.selected_samples.len() - 1 ==> {
                &&& machine.without_sample(index).selected_samples[i] == machine.selected_samples[i + 1]
                &&& state.without_track(index).beat_pattern[i] == state.beat_pattern[i + 1]
            },
{
}

/// Every message keeps the slots and the rows of the beat grid co-indexed.
pub proof fn lemma_step_keeps_lockstep(machine: DrumMachineView, state: SequenceStateView, message: Message)
    requires
        machine.wf(state),
    ensures
        machine.step(state, message).machine.wf(machine.step(state, message).state),
{
}

} // verus!
