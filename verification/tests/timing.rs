use step_sequencer::scale::{SampleFolder, SequenceScale};
use step_sequencer::timing::{beat_duration_frames, tick_duration_ms, tick_duration_nanos};

#[test]
fn multipliers_are_one_two_four() {
    assert_eq!(SequenceScale::OneFourth.multiplier(), 1);
    assert_eq!(SequenceScale::OneEighth.multiplier(), 2);
    assert_eq!(SequenceScale::OneSixteenth.multiplier(), 4);
}

#[test]
fn scale_labels() {
    assert_eq!(SequenceScale::OneFourth.to_string(), "1/4");
    assert_eq!(SequenceScale::OneEighth.to_string(), "1/8");
    assert_eq!(SequenceScale::OneSixteenth.to_string(), "1/16");
    assert_eq!(
        SequenceScale::options(),
        vec![SequenceScale::OneFourth, SequenceScale::OneEighth, SequenceScale::OneSixteenth]
    );
}

#[test]
fn folder_labels_and_directories() {
    assert_eq!(SampleFolder::NineONine.to_string(), "909");
    assert_eq!(SampleFolder::EightOEight.to_string(), "TR-808 Kit");
    assert_eq!(SampleFolder::NineONine.directory("drumKits"), "drumKits/909");
    assert_eq!(SampleFolder::EightOEight.directory("kits"), "kits/TR-808 Kit");
    assert_eq!(SampleFolder::options(), vec![SampleFolder::NineONine, SampleFolder::EightOEight]);
}

#[test]
fn tick_millis_at_120() {
    assert_eq!(tick_duration_ms(120, SequenceScale::OneFourth), 500);
    assert_eq!(tick_duration_ms(120, SequenceScale::OneEighth), 250);
    assert_eq!(tick_duration_ms(120, SequenceScale::OneSixteenth), 125);
}

#[test]
fn tick_millis_round_down_twice() {
    // 60000 / 7 = 8571, 8571 / 2 = 4285, 8571 / 4 = 2142
    assert_eq!(tick_duration_ms(7, SequenceScale::OneFourth), 8571);
    assert_eq!(tick_duration_ms(7, SequenceScale::OneEighth), 4285);
    assert_eq!(tick_duration_ms(7, SequenceScale::OneSixteenth), 2142);
}

#[test]
fn tick_millis_for_every_slider_tempo() {
    for bpm in 60u32..=240 {
        for (scale, multiplier) in [
            (SequenceScale::OneFourth, 1u64),
            (SequenceScale::OneEighth, 2),
            (SequenceScale::OneSixteenth, 4),
        ] {
            assert_eq!(tick_duration_ms(bpm, scale), (60000 / bpm) as u64 / multiplier);
        }
    }
}

#[test]
fn tick_millis_extremes() {
    assert_eq!(tick_duration_ms(1, SequenceScale::OneFourth), 60000);
    assert_eq!(tick_duration_ms(60000, SequenceScale::OneFourth), 1);
    assert_eq!(tick_duration_ms(60001, SequenceScale::OneFourth), 0);
    assert_eq!(tick_duration_ms(u32::MAX, SequenceScale::OneSixteenth), 0);
}

#[test]
fn tick_nanos_are_the_quotient_to_the_nanosecond() {
    assert_eq!(tick_duration_nanos(120, SequenceScale::OneFourth), 500_000_000);
    assert_eq!(tick_duration_nanos(120, SequenceScale::OneSixteenth), 125_000_000);
    assert_eq!(tick_duration_nanos(90, SequenceScale::OneSixteenth), 166_666_666);
    assert_eq!(tick_duration_nanos(90, SequenceScale::OneEighth), 333_333_333);
    assert_eq!(tick_duration_nanos(7, SequenceScale::OneEighth), 4_285_714_285);
    assert_eq!(tick_duration_nanos(7, SequenceScale::OneSixteenth), 2_142_857_142);
    assert_eq!(tick_duration_nanos(1, SequenceScale::OneFourth), 60_000_000_000);
}

#[test]
fn tick_nanos_for_every_slider_tempo() {
    for bpm in 60u64..=240 {
        for (scale, multiplier) in [
            (SequenceScale::OneFourth, 1u64),
            (SequenceScale::OneEighth, 2),
            (SequenceScale::OneSixteenth, 4),
        ] {
            let nanos = tick_duration_nanos(bpm as u32, scale);
            assert_eq!(nanos, 60_000_000_000 / (bpm * multiplier));
            assert_eq!(nanos / 1_000_000, tick_duration_ms(bpm as u32, scale));
        }
    }
}

#[test]
fn tick_nanos_are_never_zero() {
    assert_eq!(tick_duration_nanos(60_000, SequenceScale::OneFourth), 1_000_000);
    assert_eq!(tick_duration_nanos(60_001, SequenceScale::OneFourth), 999_983);
    assert_eq!(tick_duration_nanos(u32::MAX, SequenceScale::OneFourth), 13);
    assert_eq!(tick_duration_nanos(u32::MAX, SequenceScale::OneSixteenth), 3);
}

#[test]
fn beat_frames() {
    assert_eq!(beat_duration_frames(120, 44100, SequenceScale::OneFourth), 22050);
    assert_eq!(beat_duration_frames(120, 44100, SequenceScale::OneEighth), 11025);
    assert_eq!(beat_duration_frames(120, 44100, SequenceScale::OneSixteenth), 5512);
    assert_eq!(beat_duration_frames(7, 44100, SequenceScale::OneFourth), 378000);
    assert_eq!(beat_duration_frames(90, 44100, SequenceScale::OneFourth), 29400);
    assert_eq!(beat_duration_frames(u32::MAX, 44100, SequenceScale::OneFourth), 0);
    assert_eq!(beat_duration_frames(1, u32::MAX, SequenceScale::OneFourth), 60 * (u32::MAX as u64));
}
