//! A step-sequencer engine: the pattern grid and its sample slots, the tempo
//! arithmetic, the playback scheduler's decisions, and the offline mixdown.

pub mod dispatcher;
pub mod drum_machine;
pub mod main_ui;
pub mod mixdown;
pub mod pattern;
pub mod recording;
pub mod samples;
pub mod scale;
pub mod scheduler;
pub mod state;
pub mod synth;
pub mod timing;
