use step_sequencer::drum_machine::{copy_slots, Action, DrumMachine, Effects, Message, SampleSlot};
use step_sequencer::main_ui::Message as Ui;
use step_sequencer::main_ui::{MainUi, Page, SettingsPage};
use step_sequencer::pattern::{
    blank_row, copy_pattern, copy_row, is_rectangular, resize_pattern, resize_row, set_cell,
};
use step_sequencer::scale::{SampleFolder, SequenceScale};
use step_sequencer::state::SequenceState;
use step_sequencer::synth::{semitones_from_reference, Synth};
use step_sequencer::synth::{Action as Do, Message as Note};

fn quiet() -> Effects {
    Effects { pattern_update: None, action: Action::Nothing }
}

fn machine_with(names: &[&str]) -> (DrumMachine, SequenceState) {
    let mut machine = DrumMachine::new();
    let mut state = SequenceState::new();
    machine.update(&mut state, Message::ToggleAddSampleOnPlay(true));
    for name in names {
        machine.update(&mut state, Message::PlayAndAddSample(name.to_string()));
    }
    (machine, state)
}

#[test]
fn pattern_helpers() {
    assert_eq!(blank_row(0), Vec::<bool>::new());
    assert_eq!(blank_row(3), vec![false, false, false]);
    assert_eq!(copy_row(&vec![true, false]), vec![true, false]);
    assert_eq!(copy_pattern(&vec![vec![true], vec![], vec![false, true]]), vec![vec![true], vec![], vec![false, true]]);
    let mut row = vec![true, true, true];
    resize_row(&mut row, 5);
    assert_eq!(row, vec![true, true, true, false, false]);
    resize_row(&mut row, 2);
    assert_eq!(row, vec![true, true]);
    let mut rows = vec![vec![true; 3], vec![], vec![true; 1]];
    resize_pattern(&mut rows, 2);
    assert_eq!(rows, vec![vec![true, true], vec![false, false], vec![true, false]]);
    assert!(set_cell(&mut rows, 1, 1, true));
    assert_eq!(rows[1], vec![false, true]);
    assert!(!set_cell(&mut rows, 3, 0, true));
    assert!(!set_cell(&mut rows, 0, 2, true));
    assert_eq!(rows, vec![vec![true, true], vec![false, true], vec![true, false]]);
    assert!(is_rectangular(&rows, 2));
    assert!(!is_rectangular(&rows, 3));
    assert!(is_rectangular(&vec![], 5));
    assert!(!is_rectangular(&vec![vec![true], vec![]], 1));
}

#[test]
fn new_state_has_the_defaults() {
    let state = SequenceState::new();
    assert_eq!(state.sequence_length, 16);
    assert_eq!(state.bpm, 120);
    assert_eq!(state.drum_scale, SequenceScale::OneFourth);
    assert_eq!(state.synth_scale, SequenceScale::OneFourth);
    assert!(state.beat_pattern.is_empty());
    assert_eq!(state.note_pattern, vec![vec![false; 32]; 12]);
    assert!(!state.drum_sequence_on);
    assert!(!state.synth_sequence_on);
    assert_eq!(state.octave, 0);
}

#[test]
fn sequence_length_doubles_the_request() {
    let mut state = SequenceState::new();
    state.add_track();
    state.update_beat_pattern(0, 15, true);
    state.update_beat_pattern(0, 3, true);
    assert!(state.update_sequence_length(2));
    assert_eq!(state.sequence_length, 4);
    assert_eq!(state.beat_pattern, vec![vec![false, false, false, true]]);
    assert!(state.update_sequence_length(3));
    assert_eq!(state.sequence_length, 6);
    assert_eq!(state.beat_pattern, vec![vec![false, false, false, true, false, false]]);
}

#[test]
fn sequence_length_refuses_zero_and_overflow() {
    let mut state = SequenceState::new();
    state.add_track();
    let before = state.clone();
    assert!(!state.update_sequence_length(0));
    assert_eq!(state, before);
    assert!(!state.update_sequence_length(u32::MAX / 2 + 1));
    assert_eq!(state, before);
    assert!(!state.update_sequence_length(u32::MAX));
    assert_eq!(state, before);
}

#[test]
fn bpm_refuses_zero() {
    let mut state = SequenceState::new();
    assert!(state.update_bpm(90));
    assert_eq!(state.bpm, 90);
    assert!(!state.update_bpm(0));
    assert_eq!(state.bpm, 90);
}

#[test]
fn tracks_are_added_blank_and_removed_in_place() {
    let mut state = SequenceState::new();
    state.add_track();
    state.add_track();
    state.add_track();
    assert_eq!(state.beat_pattern, vec![vec![false; 16]; 3]);
    assert!(state.update_beat_pattern(0, 0, true));
    assert!(state.update_beat_pattern(2, 2, true));
    assert!(!state.update_beat_pattern(3, 0, true));
    assert!(!state.update_beat_pattern(0, 16, true));
    state.remove_track(1);
    assert_eq!(state.beat_pattern.len(), 2);
    assert!(state.beat_pattern[0][0]);
    assert!(state.beat_pattern[1][2]);
}

#[test]
fn snapshot_is_an_equal_copy() {
    let mut state = SequenceState::new();
    state.add_track();
    state.update_beat_pattern(0, 5, true);
    state.toggle_note(3, 7, true);
    state.update_bpm(99);
    assert_eq!(state.snapshot(), state);
    assert!(state.is_well_formed());
    state.beat_pattern[0].pop();
    assert!(!state.is_well_formed());
    state.beat_pattern[0].push(false);
    state.bpm = 0;
    assert!(!state.is_well_formed());
    state.bpm = 120;
    state.sequence_length = 15;
    assert!(!state.is_well_formed());
}

#[test]
fn machine_and_state_must_be_in_step() {
    let (mut machine, state) = machine_with(&["kick.wav", "snare.wav"]);
    assert!(machine.is_well_formed(&state));
    assert_eq!(copy_slots(&machine.selected_samples), machine.selected_samples);
    machine.selected_samples.pop();
    assert!(!machine.is_well_formed(&state));
    let mut ui = MainUi::new();
    assert!(ui.is_well_formed());
    ui.sequence_state.beat_pattern.push(vec![false; 16]);
    assert!(!ui.is_well_formed());
}

#[test]
fn new_machine_has_the_defaults() {
    let machine = DrumMachine::new();
    assert!(machine.selected_samples.is_empty());
    assert_eq!(machine.sequence_scale, SequenceScale::OneFourth);
    assert!(!machine.playback_state.play_sequence_on);
    assert_eq!(machine.root_sample_folder, "drumKits");
    assert_eq!(machine.sample_folder, SampleFolder::NineONine);
    assert!(!machine.add_sample_on_play);
    assert_eq!(machine.sample_directory(), "drumKits/909");
}

#[test]
fn removing_slot_one_of_three_repacks_slots_and_rows() {
    let (mut machine, mut state) = machine_with(&["kick.wav", "snare.wav", "hat.wav"]);
    assert_eq!(machine.selected_samples.len(), 3);
    assert_eq!(state.beat_pattern.len(), 3);
    machine.update(&mut state, Message::UpdateBeatPattern(0, 0, true));
    machine.update(&mut state, Message::UpdateBeatPattern(1, 1, true));
    machine.update(&mut state, Message::UpdateBeatPattern(2, 2, true));
    let row_zero = state.beat_pattern[0].clone();
    let row_two = state.beat_pattern[2].clone();
    let effects = machine.update(&mut state, Message::RemoveSample(1));
    assert_eq!(
        machine.selected_samples,
        vec![
            SampleSlot { name: "kick.wav".to_string(), folder: SampleFolder::NineONine },
            SampleSlot { name: "hat.wav".to_string(), folder: SampleFolder::NineONine },
        ]
    );
    assert_eq!(state.beat_pattern.len(), 2);
    assert_eq!(state.beat_pattern, vec![row_zero, row_two]);
    assert_eq!(effects.pattern_update, Some(state.beat_pattern.clone()));
    assert_eq!(effects.action, Action::Nothing);
}

#[test]
fn removing_a_slot_that_is_not_there_changes_nothing() {
    let (mut machine, mut state) = machine_with(&["kick.wav"]);
    let machine_before = machine.clone();
    let state_before = state.clone();
    assert_eq!(machine.update(&mut state, Message::RemoveSample(1)), quiet());
    assert_eq!(machine, machine_before);
    assert_eq!(state, state_before);
    assert!(!machine.remove_sample(&mut state, 7));
    assert!(machine.remove_sample(&mut state, 0));
    assert!(machine.selected_samples.is_empty());
    assert!(state.beat_pattern.is_empty());
}

#[test]
fn playing_a_sample_adds_it_only_when_asked_and_new() {
    let mut machine = DrumMachine::new();
    let mut state = SequenceState::new();
    let effects = machine.update(&mut state, Message::PlayAndAddSample("kick.wav".to_string()));
    assert_eq!(
        effects,
        Effects {
            pattern_update: None,
            action: Action::PlaySample("drumKits/909".to_string(), "kick.wav".to_string()),
        }
    );
    assert!(machine.selected_samples.is_empty());
    assert!(state.beat_pattern.is_empty());

    assert_eq!(machine.update(&mut state, Message::ToggleAddSampleOnPlay(true)), quiet());
    assert!(machine.add_sample_on_play);
    let effects = machine.update(&mut state, Message::PlayAndAddSample("kick.wav".to_string()));
    assert_eq!(effects.pattern_update, Some(vec![vec![false; 16]]));
    assert_eq!(effects.action, Action::PlaySample("drumKits/909".to_string(), "kick.wav".to_string()));
    assert!(machine.has_sample(&"kick.wav".to_string()));
    assert!(!machine.has_sample(&"snare.wav".to_string()));
    assert_eq!(state.beat_pattern, vec![vec![false; 16]]);

    let again = machine.update(&mut state, Message::PlayAndAddSample("kick.wav".to_string()));
    assert_eq!(again.pattern_update, None);
    assert_eq!(machine.selected_samples.len(), 1);
    assert_eq!(state.beat_pattern.len(), 1);
}

#[test]
fn added_rows_follow_the_sequence_length() {
    let mut machine = DrumMachine::new();
    let mut state = SequenceState::new();
    state.update_sequence_length(3);
    machine.add_sample(&mut state, "clap.wav".to_string());
    assert_eq!(state.beat_pattern, vec![vec![false; 6]]);
    assert_eq!(machine.selected_samples[0].name, "clap.wav");
}

#[test]
fn toggling_a_cell_pushes_a_snapshot() {
    let (mut machine, mut state) = machine_with(&["kick.wav", "snare.wav"]);
    let effects = machine.update(&mut state, Message::UpdateBeatPattern(1, 4, true));
    let mut expected = vec![vec![false; 16]; 2];
    expected[1][4] = true;
    assert_eq!(state.beat_pattern, expected);
    assert_eq!(effects, Effects { pattern_update: Some(expected.clone()), action: Action::Nothing });
    let off = machine.update(&mut state, Message::UpdateBeatPattern(1, 4, false));
    assert_eq!(off.pattern_update, Some(vec![vec![false; 16]; 2]));
    assert_eq!(machine.update(&mut state, Message::UpdateBeatPattern(2, 0, true)), quiet());
    assert_eq!(machine.update(&mut state, Message::UpdateBeatPattern(0, 16, true)), quiet());
    assert_eq!(state.beat_pattern, vec![vec![false; 16]; 2]);
}

#[test]
fn transport_and_settings_messages() {
    let mut machine = DrumMachine::new();
    let mut state = SequenceState::new();
    assert_eq!(machine.update(&mut state, Message::PlaySequence).action, Action::StartPlayback);
    assert!(machine.playback_state.play_sequence_on);
    assert_eq!(machine.update(&mut state, Message::PlaySequence).action, Action::Nothing);
    assert_eq!(machine.update(&mut state, Message::StopSequence).action, Action::StopPlayback);
    assert!(!machine.playback_state.play_sequence_on);
    assert_eq!(machine.update(&mut state, Message::StopSequence).action, Action::StopPlayback);
    assert_eq!(machine.update(&mut state, Message::RecordPattern).action, Action::Record);
    assert_eq!(machine.update(&mut state, Message::ChangeSequenceScale(SequenceScale::OneSixteenth)), quiet());
    assert_eq!(machine.sequence_scale, SequenceScale::OneSixteenth);
    assert_eq!(state.drum_scale, SequenceScale::OneSixteenth);
    assert_eq!(
        machine.update(&mut state, Message::ChangeSampleFolder(SampleFolder::EightOEight)).action,
        Action::ListSamples("drumKits/TR-808 Kit".to_string())
    );
    assert_eq!(machine.sample_folder, SampleFolder::EightOEight);
    machine.update(&mut state, Message::ToggleAddSampleOnPlay(true));
    machine.update(&mut state, Message::PlayAndAddSample("cowbell.wav".to_string()));
    assert_eq!(machine.selected_samples[0].folder, SampleFolder::EightOEight);
}

#[test]
fn settings_page_keeps_its_theme() {
    assert!(SettingsPage::new(true).is_dark_theme);
    assert!(!SettingsPage::new(false).is_dark_theme);
}

#[test]
fn main_ui_starts_on_the_drum_machine() {
    let ui = MainUi::new();
    assert_eq!(ui.current_page, Page::DrumMachine);
    assert!(ui.is_dark_theme);
    assert!(ui.settings_page.is_dark_theme);
    assert_eq!(ui.title(), "DAW");
    assert_eq!(ui.sequence_state, SequenceState::new());
    assert_eq!(ui.drum_machine, DrumMachine::new());
    assert_eq!(ui.synth, Synth::new());
}

#[test]
fn main_ui_messages() {
    let mut ui = MainUi::new();
    ui.update(Ui::ChangePage(Page::Settings));
    assert_eq!(ui.current_page, Page::Settings);
    ui.update(Ui::ToggleTheme(true));
    assert!(!ui.is_dark_theme);
    assert!(!ui.settings_page.is_dark_theme);
    ui.update(Ui::ToggleTheme(true));
    assert!(ui.is_dark_theme);
    ui.update(Ui::UpdateBpm(200));
    assert_eq!(ui.sequence_state.bpm, 200);
    ui.update(Ui::UpdateBpm(0));
    assert_eq!(ui.sequence_state.bpm, 200);

    ui.update(Ui::DrumMachineMessage(Message::ToggleAddSampleOnPlay(true)));
    ui.update(Ui::DrumMachineMessage(Message::PlayAndAddSample("kick.wav".to_string())));
    let outcome = ui.update(Ui::UpdateSequenceLength(2));
    assert_eq!(ui.sequence_state.sequence_length, 4);
    assert_eq!(outcome.drum.pattern_update, Some(vec![vec![false; 4]]));
    let refused = ui.update(Ui::UpdateSequenceLength(0));
    assert_eq!(refused.drum, quiet());
    assert_eq!(ui.sequence_state.sequence_length, 4);

    let started = ui.update(Ui::StartBothSequences(true));
    assert_eq!(started.drum.action, Action::StartPlayback);
    assert_eq!(started.synth, step_sequencer::synth::Action::StartPlayback);
    assert!(ui.sequence_state.drum_sequence_on);
    assert!(ui.sequence_state.synth_sequence_on);
    assert!(ui.drum_machine.playback_state.play_sequence_on);
    assert!(ui.synth.is_playing);
    let stopped = ui.update(Ui::StartBothSequences(false));
    assert_eq!(stopped.drum.action, Action::StopPlayback);
    assert_eq!(stopped.synth, step_sequencer::synth::Action::StopPlayback);
    assert!(!ui.sequence_state.drum_sequence_on);
    assert!(!ui.synth.is_playing);
}

#[test]
fn synth_messages() {
    let mut synth = Synth::new();
    let mut state = SequenceState::new();
    assert_eq!(
        synth.notes,
        vec!["C", "C#", "D", "D#", "E", "F", "F#", "G", "G#", "A", "A#", "B"]
    );
    assert_eq!(synth.update(&mut state, Note::ToggleNote(9, 31, true)), Do::Nothing);
    assert!(state.note_pattern[9][31]);
    let before = state.clone();
    synth.update(&mut state, Note::ToggleNote(12, 0, true));
    synth.update(&mut state, Note::ToggleNote(0, 32, true));
    assert_eq!(state, before);
    assert_eq!(synth.update(&mut state, Note::PlaySequence), Do::StartPlayback);
    assert_eq!(synth.update(&mut state, Note::PlaySequence), Do::Nothing);
    assert_eq!(synth.update(&mut state, Note::PlaybackFinished), Do::Nothing);
    assert!(!synth.is_playing);
    assert_eq!(synth.update(&mut state, Note::StopSequence), Do::StopPlayback);
    synth.update(&mut state, Note::ChangeSequenceScale(SequenceScale::OneEighth));
    assert_eq!(state.synth_scale, SequenceScale::OneEighth);
    assert_eq!(state.drum_scale, SequenceScale::OneFourth);
}

#[test]
fn semitones_are_counted_from_a() {
    assert_eq!(semitones_from_reference(9), 0);
    assert_eq!(semitones_from_reference(0), -9);
    assert_eq!(semitones_from_reference(11), 2);
}
