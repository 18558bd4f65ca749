//! The top of the editor: the page shown, the theme, and the messages that
//! reach the drum machine, the synth and the state they share.

use vstd::prelude::*;
use vstd::string::*;
use crate::drum_machine::{DrumMachine, DrumMachineView, Effects, EffectsView};
use crate::state::{SequenceState, SequenceStateView};
use crate::synth::{Synth, SynthView};

verus! {

/// The pages of the editor.
#[derive(Debug, Clone, Copy, PartialEq, Eq, Structural)]
pub enum Page {
    DrumMachine,
    Synth,
    Arranger,
    Settings,
}

/// The two looks of the editor.
#[derive(Debug, Clone, Copy, PartialEq, Eq, Structural)]
pub enum ThemeKind {
    Dark,
    Light,
}

/// The settings page: which theme its checkbox shows.
#[derive(Debug, Clone, Copy, PartialEq, Eq)]
pub struct SettingsPage {
    pub is_dark_theme: bool,
}

impl SettingsPage {
    /// A settings page that shows the given theme as chosen.
    pub fn new(is_dark_theme: bool) -> (page: SettingsPage)
        ensures
            page.is_dark_theme == is_dark_theme,
    {
        SettingsPage { is_dark_theme }
    }
}

/// What the editor asks of the whole application.
#[derive(Debug, Clone, PartialEq, Eq)]
pub enum Message {
    DrumMachineMessage(crate::drum_machine::Message),
    ChangePage(Page),
    ToggleTheme(bool),
    SynthMessage(crate::synth::Message),
    UpdateSequenceLength(u32),
    UpdateBpm(u32),
    StartBothSequences(bool),
}

/// What the caller has to do after a message was handled: for the drum
/// machine and for the synth.
#[derive(Debug, Clone, PartialEq, Eq)]
pub struct Outcome {
    pub drum: Effects,
    pub synth: crate::synth::Action,
}

/// The whole application: the pages, the theme, and the state that the drum
/// machine and the synth share.
#[derive(Debug, Clone, PartialEq, Eq)]
pub struct MainUi {
    pub current_page: Page,
    pub drum_machine: DrumMachine,
    pub settings_page: SettingsPage,
    pub sequence_state: SequenceState,
    pub synth: Synth,
    pub is_dark_theme: bool,
}

/// The application as plain values.
pub struct MainUiView {
    pub current_page: Page,
    pub drum_machine: DrumMachineView,
    pub settings_dark: bool,
    pub sequence_state: SequenceStateView,
    pub synth: SynthView,
    pub is_dark_theme: bool,
}

/// An application after a message, with what it asks of the caller.
pub struct Step {
    pub ui: MainUiView,
    pub drum: EffectsView,
    pub synth: crate::synth::Action,
}

/// The message that starts or stops the drum sequence.
pub open spec fn drum_transport(play: bool) -> crate::drum_machine::Message {
    if play {
        crate::drum_machine::Message::PlaySequence
    } else {
        crate::drum_machine::Message::StopSequence
    }
}

/// The message that starts or stops the note sequence.
pub open spec fn synth_transport(play: bool) -> crate::synth::Message {
    if play {
        crate::synth::Message::PlaySequence
    } else {
        crate::synth::Message::StopSequence
    }
}

impl MainUiView {
    /// A new application: the drum machine page, the dark theme, and a new
    /// state, drum machine and synth.
    pub open spec fn initial() -> MainUiView {
        MainUiView {
            current_page: Page::DrumMachine,
            drum_machine: DrumMachineView::initial(),
            settings_dark: true,
            sequence_state: SequenceStateView::initial(),
            synth: SynthView::initial(),
            is_dark_theme: true,
        }
    }

    /// The drum machine's slots and the beat grid are in step.
    pub open spec fn wf(self) -> bool {
        self.drum_machine.wf(self.sequence_state)
    }

    /// What a message does to the application, and what it asks of the caller.
    pub open spec fn step(self, message: Message) -> Step {
        match message {
            Message::DrumMachineMessage(inner) => {
                let drum = self.drum_machine.step(self.sequence_state, inner);
                Step {
                    ui: MainUiView { drum_machine: drum.machine, sequence_state: drum.state, ..self },
                    drum: drum.effects,
                    synth: crate::synth::Action::Nothing,
                }
            },
            Message::ChangePage(page) => Step {
                ui: MainUiView { current_page: page, ..self },
                drum: DrumMachineView::quiet(),
                synth: crate::synth::Action::Nothing,
            },
            Message::ToggleTheme(_) => Step {
                ui: MainUiView {
                    settings_dark: !self.is_dark_theme,
                    is_dark_theme: !self.is_dark_theme,
                    ..self
                },
                drum: DrumMachineView::quiet(),
                synth: crate::synth::Action::Nothing,
            },
            Message::SynthMessage(inner) => {
                let synth = self.synth.step(self.sequence_state, inner);
                Step {
                    ui: MainUiView { synth: synth.synth, sequence_state: synth.state, ..self },
                    drum: DrumMachineView::quiet(),
                    synth: synth.action,
                }
            },
            Message::UpdateSequenceLength(length) => Step {
                ui: MainUiView {
                    sequence_state: self.sequence_state.with_length(length as int),
                    ..self
                },
                drum: EffectsView {
                    pattern_update: if SequenceStateView::accepts_length(length as int) {
                        Some(self.sequence_state.with_length(length as int).beat_pattern)
                    } else {
                        None
                    },
                    action: crate::drum_machine::ActionView::Nothing,
                },
                synth: crate::synth::Action::Nothing,
            },
            Message::UpdateBpm(bpm) => Step {
                ui: MainUiView { sequence_state: self.sequence_state.with_bpm(bpm as nat), ..self },
                drum: DrumMachineView::quiet(),
                synth: crate::synth::Action::Nothing,
            },
            Message::StartBothSequences(play) => {
                let drum = self.drum_machine.step(self.sequence_state, drum_transport(play));
                let synth = self.synth.step(drum.state, synth_transport(play));
                Step {
                    ui: MainUiView {
                        drum_machine: drum.machine,
                        synth: synth.synth,
                        sequence_state: SequenceStateView {
                            drum_sequence_on: play,
                            synth_sequence_on: play,
                            ..synth.state
                        },
                        ..self
                    },
                    drum: drum.effects,
                    synth: synth.action,
                }
            },
        }
    }
}

impl View for MainUi {
    type V = MainUiView;

    open spec fn view(&self) -> MainUiView {
        MainUiView {
            current_page: self.current_page,
            drum_machine: self.drum_machine@,
            settings_dark: self.settings_page.is_dark_theme,
            sequence_state: self.sequence_state@,
            synth: self.synth@,
            is_dark_theme: self.is_dark_theme,
        }
    }
}

impl MainUi {
    /// A new application on the drum machine page, in the dark theme.
    pub fn new() -> (ui: MainUi)
        ensures
            ui@ == MainUiView::initial(),
            ui@.wf(),
    {
        MainUi {
            current_page: Page::DrumMachine,
            drum_machine: DrumMachine::new(),
            settings_page: SettingsPage::new(true),
            sequence_state: SequenceState::new(),
            synth: Synth::new(),
            is_dark_theme: true,
        }
    }

    /// Whether the drum machine's slots and the beat grid are in step.
    pub fn is_well_formed(&self) -> (yes: bool)
        ensures
            yes == self@.wf(),
    {
        self.drum_machine.is_well_formed(&self.sequence_state)
    }

    /// The look to draw with.
    pub fn theme(&self) -> (theme: ThemeKind)
        ensures
            theme == if self.is_dark_theme {
                ThemeKind::Dark
            } else {
                ThemeKind::Light
            },
    {
        if self.is_dark_theme {
            ThemeKind::Dark
        } else {
            ThemeKind::Light
        }
    }

    /// The window's title.
    pub fn title(&self) -> (title: String)
        ensures
            title@ == "DAW"@,
    {
        String::from_str("DAW")
    }

    /// Hands a message on to the drum machine.
    fn to_drum_machine(&mut self, inner: crate::drum_machine::Message) -> (outcome: Outcome)
        requires
            old(self)@.wf(),
        ensures
            final(self)@ == old(self)@.step(Message::DrumMachineMessage(inner)).ui,
            outcome.drum@ == old(self)@.step(Message::DrumMachineMessage(inner)).drum,
            outcome.synth == old(self)@.step(Message::DrumMachineMessage(inner)).synth,
            final(self)@.wf(),
    {
        let drum = self.drum_machine.update(&mut self.sequence_state, inner);
        Outcome { drum, synth: crate::synth::Action::Nothing }
    }

    /// Hands a message on to the synth.
    fn to_synth(&mut self, inner: crate::synth::Message) -> (outcome: Outcome)
        requires
            old(self)@.wf(),
        ensures
            final(self)@ == old(self)@.step(Message::SynthMessage(inner)).ui,
            outcome.drum@ == old(self)@.step(Message::SynthMessage(inner)).drum,
            outcome.synth == old(self)@.step(Message::SynthMessage(inner)).synth,
            final(self)@.wf(),
    {
        let synth = self.synth.update(&mut self.sequence_state, inner);
        Outcome { drum: quiet_effects(), synth }
    }

    /// Changes the sequence length and pushes the fitted grid to the scheduler.
    fn change_length(&mut self, length: u32) -> (outcome: Outcome)
        requires
            old(self)@.wf(),
        ensures
            final(self)@ == old(self)@.step(Message::UpdateSequenceLength(length)).ui,
            outcome.drum@ == old(self)@.step(Message::UpdateSequenceLength(length)).drum,
            outcome.synth == old(self)@.step(Message::UpdateSequenceLength(length)).synth,
            final(self)@.wf(),
    {
        let taken = self.sequence_state.update_sequence_length(length);
        let pattern_update = if taken {
            Some(crate::pattern::copy_pattern(&self.sequence_state.beat_pattern))
        } else {
            None
        };
        Outcome {
            drum: Effects { pattern_update, action: crate::drum_machine::Action::Nothing },
            synth: crate::synth::Action::Nothing,
        }
    }

    /// Starts or stops both sequences.
    fn start_both(&mut self, play: bool) -> (outcome: Outcome)
        requires
            old(self)@.wf(),
        ensures
            final(self)@ == old(self)@.step(Message::StartBothSequences(play)).ui,
            outcome.drum@ == old(self)@.step(Message::StartBothSequences(play)).drum,
            outcome.synth == old(self)@.step(Message::StartBothSequences(play)).synth,
            final(self)@.wf(),
    {
        let drum_message = if play {
            crate::drum_machine::Message::PlaySequence
        } else {
            crate::drum_machine::Message::StopSequence
        };
        let synth_message = if play {
            crate::synth::Message::PlaySequence
        } else {
            crate::synth::Message::StopSequence
        };
        let drum = self.drum_machine.update(&mut self.sequence_state, drum_message);
        let synth = self.synth.update(&mut self.sequence_state, synth_message);
        self.sequence_state.drum_sequence_on = play;
        self.sequence_state.synth_sequence_on = play;
        Outcome { drum, synth }
    }

    /// Handles one editor message.
    pub fn update(&mut self, message: Message) -> (outcome: Outcome)
        requires
            old(self)@.wf(),
        ensures
            final(self)@ == old(self)@.step(message).ui,
            outcome.drum@ == old(self)@.step(message).drum,
            outcome.synth == old(self)@.step(message).synth,
            final(self)@.wf(),
    {
        match message {
            Message::DrumMachineMessage(inner) => self.to_drum_machine(inner),
            Message::ChangePage(page) => {
                self.current_page = page;
                Outcome { drum: quiet_effects(), synth: crate::synth::Action::Nothing }
            },
            Message::ToggleTheme(_) => {
                let dark = !self.is_dark_theme;
                self.settings_page.is_dark_theme = dark;
                self.is_dark_theme = dark;
                Outcome { drum: quiet_effects(), synth: crate::synth::Action::Nothing }
            },
            Message::SynthMessage(inner) => self.to_synth(inner),
            Message::UpdateSequenceLength(length) => self.change_length(length),
            Message::UpdateBpm(bpm) => {
                self.sequence_state.update_bpm(bpm);
                Outcome { drum: quiet_effects(), synth: crate::synth::Action::Nothing }
            },
            Message::StartBothSequences(play) => self.start_both(play),
        }
    }
}

/// No pattern to push and nothing to do.
fn quiet_effects() -> (effects: Effects)
    ensures
        effects@ == DrumMachineView::quiet(),
{
    Effects { pattern_update: None, action: crate::drum_machine::Action::Nothing }
}

} // verus!
