use keysfx::asset::{AssetStore, AudioAsset};
use keysfx::output::{
    is_silent, Action, OutputLoop, WriteOutcome, IDLE_MILLIS, OUTPUT_CHANNELS, PACE_MILLIS,
    PERIOD_FRAMES, PERIOD_SAMPLES, SAMPLE_RATE,
};
use keysfx::track::{push, ActiveTrack};
use std::collections::VecDeque;

fn queue_with(samples: Vec<i16>) -> VecDeque<ActiveTrack> {
    let mut store = AssetStore::new();
    store.publish(AudioAsset::new(44100, 2, samples));
    let mut tracks: VecDeque<ActiveTrack> = VecDeque::new();
    push(&mut tracks, &store);
    tracks
}

#[test]
fn device_parameters_are_fixed() {
    assert_eq!(SAMPLE_RATE, 44100);
    assert_eq!(OUTPUT_CHANNELS, 2);
    assert_eq!(PERIOD_FRAMES, 256);
    assert_eq!(PERIOD_SAMPLES, 512);
    assert_eq!(IDLE_MILLIS, 1);
    assert_eq!(PACE_MILLIS, 10);
    assert!(5 * IDLE_MILLIS * (SAMPLE_RATE as u64) < 1000 * (PERIOD_FRAMES as u64));
}

#[test]
fn silence_is_all_zeros() {
    assert!(is_silent(&vec![0, 0, 0]));
    assert!(is_silent(&Vec::new()));
    assert!(!is_silent(&vec![0, 0, 1]));
    assert!(!is_silent(&vec![-1, 0, 0]));
}

#[test]
fn new_loop_has_nothing_pending() {
    let state = OutputLoop::new();
    assert!(state.pending().is_empty());
}

#[test]
fn silent_pass_idles_without_writing() {
    let mut tracks: VecDeque<ActiveTrack> = VecDeque::new();
    let mut state = OutputLoop::new();
    assert_eq!(state.begin_cycle(&mut tracks), Action::Idle { millis: 1 });
    assert!(state.pending().is_empty());
}

#[test]
fn silent_track_idles_but_still_advances() {
    let mut tracks = queue_with(vec![0; 600]);
    let mut state = OutputLoop::new();
    assert_eq!(state.begin_cycle(&mut tracks), Action::Idle { millis: 1 });
    assert!(state.pending().is_empty());
    assert_eq!(tracks[0].cursor(), 512);
}

#[test]
fn audible_pass_is_written_in_parts() {
    let samples: Vec<i16> = (1..=600).collect();
    let mut tracks = queue_with(samples.clone());
    let mut state = OutputLoop::new();

    assert_eq!(state.begin_cycle(&mut tracks), Action::Write);
    assert_eq!(state.pending(), &samples[0..512]);
    assert_eq!(tracks[0].cursor(), 512);

    assert_eq!(state.after_write(WriteOutcome::Written(100)), Action::Write);
    assert_eq!(state.pending(), &samples[200..512]);

    assert_eq!(state.after_write(WriteOutcome::Written(0)), Action::Write);
    assert_eq!(state.pending(), &samples[200..512]);

    assert_eq!(state.after_write(WriteOutcome::Written(155)), Action::Write);
    assert_eq!(state.pending(), &samples[510..512]);

    assert_eq!(state.after_write(WriteOutcome::Written(1)), Action::Pace { millis: 10 });
    assert!(state.pending().is_empty());

    assert_eq!(state.begin_cycle(&mut tracks), Action::Write);
    let mut tail: Vec<i16> = samples[512..600].to_vec();
    tail.resize(512, 0);
    assert_eq!(state.pending(), &tail[..]);
    assert!(tracks.is_empty());
}

#[test]
fn whole_buffer_taken_at_once_paces() {
    let mut tracks = queue_with(vec![7; 512]);
    let mut state = OutputLoop::new();
    assert_eq!(state.begin_cycle(&mut tracks), Action::Write);
    assert_eq!(state.after_write(WriteOutcome::Written(256)), Action::Pace { millis: 10 });
    assert!(state.pending().is_empty());
}

#[test]
fn more_frames_than_pending_never_overrun() {
    let mut tracks = queue_with(vec![7; 512]);
    let mut state = OutputLoop::new();
    assert_eq!(state.begin_cycle(&mut tracks), Action::Write);
    assert_eq!(state.after_write(WriteOutcome::Written(10)), Action::Write);
    assert_eq!(state.after_write(WriteOutcome::Written(usize::MAX)), Action::Pace { millis: 10 });
    assert!(state.pending().is_empty());

    let mut tracks = queue_with(vec![7; 512]);
    assert_eq!(state.begin_cycle(&mut tracks), Action::Write);
    assert_eq!(state.after_write(WriteOutcome::Written(300)), Action::Pace { millis: 10 });
    assert!(state.pending().is_empty());
}

#[test]
fn underrun_keeps_the_same_samples_pending() {
    let samples: Vec<i16> = (1..=512).collect();
    let mut tracks = queue_with(samples.clone());
    let mut state = OutputLoop::new();
    assert_eq!(state.begin_cycle(&mut tracks), Action::Write);
    assert_eq!(state.after_write(WriteOutcome::Underrun), Action::Recover);
    assert_eq!(state.pending(), &samples[..]);
    assert_eq!(state.after_write(WriteOutcome::Written(128)), Action::Write);
    assert_eq!(state.after_write(WriteOutcome::Underrun), Action::Recover);
    assert_eq!(state.pending(), &samples[256..]);
    assert_eq!(state.after_write(WriteOutcome::Written(128)), Action::Pace { millis: 10 });
}

#[test]
fn other_failure_gives_the_buffer_up() {
    let mut tracks = queue_with(vec![9; 1024]);
    let mut state = OutputLoop::new();
    assert_eq!(state.begin_cycle(&mut tracks), Action::Write);
    assert_eq!(state.after_write(WriteOutcome::Written(10)), Action::Write);
    assert_eq!(state.after_write(WriteOutcome::Failed), Action::Report { millis: 10 });
    assert!(state.pending().is_empty());
    assert_eq!(state.begin_cycle(&mut tracks), Action::Write);
    assert_eq!(state.pending().len(), 512);
    assert!(tracks.is_empty());
}
