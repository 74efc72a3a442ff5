use keysfx::oneshot::{OneShot, CHUNK_FRAMES};
use keysfx::output::WriteOutcome;

#[test]
fn chunk_holds_1024_frames() {
    assert_eq!(CHUNK_FRAMES, 1024);
}

#[test]
fn clip_is_streamed_in_chunks() {
    let mut state = OneShot::new(5000, 2);
    assert_eq!(state.next_chunk(), Some((0, 2048)));
    state.after_write(WriteOutcome::Written(1024));
    assert_eq!(state.next_chunk(), Some((2048, 4096)));
    state.after_write(WriteOutcome::Written(1024));
    assert_eq!(state.next_chunk(), Some((4096, 5000)));
    state.after_write(WriteOutcome::Written(452));
    assert_eq!(state.next_chunk(), None);
}

#[test]
fn partial_write_moves_the_next_chunk() {
    let mut state = OneShot::new(6000, 2);
    assert_eq!(state.next_chunk(), Some((0, 2048)));
    state.after_write(WriteOutcome::Written(10));
    assert_eq!(state.next_chunk(), Some((20, 2068)));
    state.after_write(WriteOutcome::Written(0));
    assert_eq!(state.next_chunk(), Some((20, 2068)));
}

#[test]
fn trailing_partial_frame_is_not_played_alone() {
    let mut state = OneShot::new(7, 2);
    assert_eq!(state.next_chunk(), Some((0, 7)));
    state.after_write(WriteOutcome::Written(3));
    assert_eq!(state.next_chunk(), None);
}

#[test]
fn failed_write_ends_the_playback() {
    let mut state = OneShot::new(5000, 2);
    state.after_write(WriteOutcome::Written(100));
    state.after_write(WriteOutcome::Failed);
    assert_eq!(state.next_chunk(), None);

    let mut state = OneShot::new(5000, 2);
    state.after_write(WriteOutcome::Underrun);
    assert_eq!(state.next_chunk(), None);
}

#[test]
fn empty_clip_has_no_chunk() {
    assert_eq!(OneShot::new(0, 2).next_chunk(), None);
    assert_eq!(OneShot::new(1, 2).next_chunk(), None);
}

#[test]
fn device_cannot_take_more_than_the_clip() {
    let mut state = OneShot::new(100, 1);
    assert_eq!(state.next_chunk(), Some((0, 100)));
    state.after_write(WriteOutcome::Written(usize::MAX));
    assert_eq!(state.next_chunk(), None);
}

#[test]
fn mono_clip_chunks_by_1024_samples() {
    let mut state = OneShot::new(3000, 1);
    assert_eq!(state.next_chunk(), Some((0, 1024)));
    state.after_write(WriteOutcome::Written(1024));
    assert_eq!(state.next_chunk(), Some((1024, 2048)));
}
