use step_sequencer::dispatcher::{dispatch, resolve_sample, Hit};
use step_sequencer::drum_machine::{Action, DrumMachine, Effects, Message, SampleSlot};
use step_sequencer::main_ui::{MainUi, ThemeKind};
use step_sequencer::main_ui::Message as Ui;
use step_sequencer::samples::{audio_files_among, is_audio_file};
use step_sequencer::scale::{SampleFolder, SequenceScale};
use step_sequencer::scheduler::{Scheduler, Tick};
use step_sequencer::state::SequenceState;

fn slots() -> Vec<SampleSlot> {
    vec![
        SampleSlot { name: "kick.wav".to_string(), folder: SampleFolder::NineONine },
        SampleSlot { name: "cowbell.wav".to_string(), folder: SampleFolder::EightOEight },
    ]
}

#[test]
fn sample_names_end_in_wav() {
    assert!(is_audio_file("kick.wav"));
    assert!(is_audio_file(".wav"));
    assert!(is_audio_file("a.b.wav"));
    assert!(is_audio_file("snare drum é.wav"));
    assert!(!is_audio_file("wav"));
    assert!(!is_audio_file(""));
    assert!(!is_audio_file("kick.WAV"));
    assert!(!is_audio_file("kick.wav "));
    assert!(!is_audio_file("kick.mp3"));
    assert!(!is_audio_file("kickwav"));
    assert!(!is_audio_file("kick.wa"));
}

fn entry(name: &str, is_file: bool) -> (String, bool) {
    (name.to_string(), is_file)
}

#[test]
fn audio_files_keep_their_order() {
    let listed = vec![
        entry("snare.wav", true),
        entry("readme.txt", true),
        entry("kick.wav", true),
        entry("wav", true),
        entry("hat.wav", true),
        entry("kick.wav", true),
    ];
    assert_eq!(audio_files_among(&listed), vec!["snare.wav", "kick.wav", "hat.wav", "kick.wav"]);
    assert_eq!(audio_files_among(&vec![]), Vec::<String>::new());
    assert_eq!(audio_files_among(&vec![entry("a", true)]), Vec::<String>::new());
}

#[test]
fn audio_files_are_regular_files_only() {
    let listed = vec![
        entry("kick.wav", true),
        entry("readme.txt", true),
        entry("loops.wav", false),
        entry("SNARE.WAV", true),
    ];
    assert_eq!(audio_files_among(&listed), vec!["kick.wav"]);
    assert_eq!(audio_files_among(&vec![entry("loops.wav", false)]), Vec::<String>::new());
}

#[test]
fn resolve_sample_finds_the_slot_file() {
    assert_eq!(
        resolve_sample(&slots(), "drumKits", 0),
        Some(("drumKits/909".to_string(), "kick.wav".to_string()))
    );
    assert_eq!(
        resolve_sample(&slots(), "drumKits", 1),
        Some(("drumKits/TR-808 Kit".to_string(), "cowbell.wav".to_string()))
    );
    assert_eq!(resolve_sample(&slots(), "drumKits", 2), None);
    assert_eq!(resolve_sample(&vec![], "drumKits", 0), None);
}

#[test]
fn dispatch_gives_one_hit_per_triggered_slot() {
    let tick = Tick { beat: 3, triggers: vec![0, 1, 2], duration_nanos: 250_000_000 };
    assert_eq!(
        dispatch(&slots(), "kits", &tick),
        vec![
            Hit {
                track: 0,
                directory: "kits/909".to_string(),
                name: "kick.wav".to_string(),
                duration_nanos: 250_000_000,
            },
            Hit {
                track: 1,
                directory: "kits/TR-808 Kit".to_string(),
                name: "cowbell.wav".to_string(),
                duration_nanos: 250_000_000,
            },
        ]
    );
    let silent = Tick { beat: 0, triggers: vec![], duration_nanos: 1 };
    assert_eq!(dispatch(&slots(), "kits", &silent), Vec::<Hit>::new());
}

#[test]
fn a_tick_of_a_running_machine_dispatches_its_active_tracks() {
    let mut machine = DrumMachine::new();
    let mut state = SequenceState::new();
    machine.update(&mut state, Message::ToggleAddSampleOnPlay(true));
    machine.update(&mut state, Message::PlayAndAddSample("kick.wav".to_string()));
    machine.update(&mut state, Message::PlayAndAddSample("hat.wav".to_string()));
    machine.update(&mut state, Message::UpdateBeatPattern(1, 0, true));
    let mut scheduler = Scheduler::new();
    scheduler.start(state.beat_pattern.clone());
    let tick = scheduler.tick(state.bpm, state.drum_scale, state.sequence_length).unwrap();
    let hits = dispatch(&machine.selected_samples, &machine.root_sample_folder, &tick);
    assert_eq!(hits.len(), 1);
    assert_eq!(hits[0].track, 1);
    assert_eq!(hits[0].directory, "drumKits/909");
    assert_eq!(hits[0].name, "hat.wav");
    assert_eq!(hits[0].duration_nanos, 500_000_000);
    assert_eq!(state.drum_scale, SequenceScale::OneFourth);
}

#[test]
fn publish_sends_the_snapshot_and_returns_the_action() {
    let (sender, receiver) = crossbeam_channel::unbounded::<Vec<Vec<bool>>>();
    let effects = Effects {
        pattern_update: Some(vec![vec![true, false]]),
        action: Action::PlaySample("d".to_string(), "n".to_string()),
    };
    assert_eq!(effects.publish(&sender), Action::PlaySample("d".to_string(), "n".to_string()));
    assert_eq!(receiver.try_recv(), Ok(vec![vec![true, false]]));
    let nothing = Effects { pattern_update: None, action: Action::Record };
    assert_eq!(nothing.publish(&sender), Action::Record);
    assert!(receiver.try_recv().is_err());
}

#[test]
fn publish_to_a_scheduler_that_is_gone_is_no_error() {
    let (sender, receiver) = crossbeam_channel::unbounded::<Vec<Vec<bool>>>();
    drop(receiver);
    let effects = Effects { pattern_update: Some(vec![vec![true]]), action: Action::Nothing };
    assert_eq!(effects.publish(&sender), Action::Nothing);
}

#[test]
fn an_edit_reaches_a_running_scheduler_at_its_next_tick() {
    let (sender, receiver) = crossbeam_channel::unbounded::<Vec<Vec<bool>>>();
    let mut machine = DrumMachine::new();
    let mut state = SequenceState::new();
    machine.update(&mut state, Message::ToggleAddSampleOnPlay(true));
    machine.update(&mut state, Message::PlayAndAddSample("kick.wav".to_string()));
    let mut scheduler = Scheduler::new();
    scheduler.start(state.beat_pattern.clone());
    scheduler.drain(&receiver);
    assert_eq!(scheduler.tick(120, SequenceScale::OneFourth, 16).unwrap().triggers, Vec::<usize>::new());
    machine.update(&mut state, Message::UpdateBeatPattern(0, 1, true)).publish(&sender);
    assert_eq!(scheduler.pattern[0][1], false);
    scheduler.drain(&receiver);
    let tick = scheduler.tick(120, SequenceScale::OneFourth, 16).unwrap();
    assert_eq!(tick.beat, 1);
    assert_eq!(tick.triggers, vec![0]);
}

#[test]
fn theme_follows_the_toggle() {
    let mut ui = MainUi::new();
    assert_eq!(ui.theme(), ThemeKind::Dark);
    ui.update(Ui::ToggleTheme(false));
    assert_eq!(ui.theme(), ThemeKind::Light);
}
