//! The decisions of the output loop: what to do with each mixed buffer and
//! with each answer of the audio device. The caller owns the device, performs
//! the actions and reports what the device said.

use vstd::prelude::*;
use vstd::slice::slice_subrange;
use std::collections::VecDeque;
use crate::mixer::{mix, mixed, survivors};
use crate::track::ActiveTrack;

verus! {

/// The sample rate that the device is opened with, in frames per second.
pub const SAMPLE_RATE: u32 = 44100;

/// The number of channels that the device is opened with.
pub const OUTPUT_CHANNELS: usize = 2;

/// The number of frames that one mixing pass produces.
pub const PERIOD_FRAMES: usize = 256;

/// The number of samples that one mixing pass produces.
pub const PERIOD_SAMPLES: usize = PERIOD_FRAMES * OUTPUT_CHANNELS;

/// How long the loop rests after a silent pass, in milliseconds.
pub const IDLE_MILLIS: u64 = 1;

/// How long the loop rests after a buffer has gone to the device, in
/// milliseconds.
pub const PACE_MILLIS: u64 = 10;

/// Every sample of `buffer` is zero.
pub open spec fn silent(buffer: Seq<i16>) -> bool {
    forall|i: int| 0 <= i < buffer.len() ==> buffer[i] == 0
}

/// Whether every sample of `buffer` is zero.
pub fn is_silent(buffer: &Vec<i16>) -> (quiet: bool)
    ensures
        quiet == silent(buffer@),
{
    let mut i: usize = 0;
    while i < buffer.len()
        invariant
            i <= buffer.len(),
            forall|j: int| 0 <= j < i ==> buffer@[j] == 0,
        decreases buffer.len() - i,
    {
        if buffer[i] != 0 {
            return false;
        }
        i += 1;
    }
    true
}

/// What the device answered to a write.
#[derive(Clone, Copy, Debug, PartialEq, Eq, Structural)]
pub enum WriteOutcome {
    /// It took this many frames.
    Written(usize),
    /// It failed because the buffer under- or overran.
    Underrun,
    /// It failed for any other reason.
    Failed,
}

/// What the loop's owner has to do next.
#[derive(Clone, Copy, Debug, PartialEq, Eq, Structural)]
pub enum Action {
    /// The pass was silent: rest for `millis`, then begin the next cycle.
    Idle { millis: u64 },
    /// Write the pending samples to the device and report the outcome.
    Write,
    /// Prepare the device again, then write the pending samples and report
    /// the outcome; report `Failed` if the device cannot be prepared.
    Recover,
    /// The buffer has gone out whole: rest for `millis`, then begin the next
    /// cycle.
    Pace { millis: u64 },
    /// The rest of the buffer is given up: log the error, rest for `millis`,
    /// then begin the next cycle.
    Report { millis: u64 },
}

/// The mathematical content of an [`OutputLoop`].
pub struct OutputView {
    /// The buffer of the current cycle.
    pub buffer: Seq<i16>,
    /// How many of its samples need no writing any more.
    pub written: nat,
}

impl OutputView {
    /// The samples that still have to go to the device.
    pub open spec fn pending(self) -> Seq<i16> {
        self.buffer.subrange(self.written as int, self.buffer.len() as int)
    }

    /// The state in which a cycle starts on the mixed buffer `buffer`:
    /// nothing of an audible buffer is written yet, and nothing of a silent
    /// one is ever written.
    pub open spec fn begun(buffer: Seq<i16>) -> OutputView {
        OutputView {
            buffer,
            written: if silent(buffer) {
                buffer.len()
            } else {
                0
            },
        }
    }

    /// The state after the device answered `outcome` to a write of the
    /// pending samples.
    pub open spec fn after(self, outcome: WriteOutcome) -> OutputView {
        match outcome {
            WriteOutcome::Written(frames) => {
                if self.written + frames * OUTPUT_CHANNELS >= self.buffer.len() {
                    OutputView { written: self.buffer.len(), ..self }
                } else {
                    OutputView {
                        written: (self.written + frames * OUTPUT_CHANNELS) as nat,
                        ..self
                    }
                }
            },
            WriteOutcome::Underrun => self,
            WriteOutcome::Failed => OutputView { written: self.buffer.len(), ..self },
        }
    }

    /// What follows a cycle's start.
    pub open spec fn first_action(self) -> Action {
        if self.written < self.buffer.len() {
            Action::Write
        } else {
            Action::Idle { millis: IDLE_MILLIS }
        }
    }

    /// What follows the device's answer `outcome`, in the state `self` that
    /// the answer led to.
    pub open spec fn next_action(self, outcome: WriteOutcome) -> Action {
        match outcome {
            WriteOutcome::Written(_) => {
                if self.written < self.buffer.len() {
                    Action::Write
                } else {
                    Action::Pace { millis: PACE_MILLIS }
                }
            },
            WriteOutcome::Underrun => Action::Recover,
            WriteOutcome::Failed => Action::Report { millis: PACE_MILLIS },
        }
    }
}

/// The state of the output loop between two of its owner's actions.
pub struct OutputLoop {
    buffer: Vec<i16>,
    written: usize,
}

impl View for OutputLoop {
    type V = OutputView;

    closed spec fn view(&self) -> OutputView {
        OutputView { buffer: self.buffer@, written: self.written as nat }
    }
}

impl OutputLoop {
    #[verifier::type_invariant]
    spec fn written_in_bounds(self) -> bool {
        self.written <= self.buffer.len()
    }

    /// A loop that has not begun its first cycle.
    pub fn new() -> (state: OutputLoop)
        ensures
            state@ == (OutputView { buffer: Seq::empty(), written: 0 }),
    {
        OutputLoop { buffer: Vec::new(), written: 0 }
    }

    /// Begins a cycle: runs one mixing pass of [`PERIOD_FRAMES`] frames over
    /// the queue and decides whether its buffer goes to the device. Whatever
    /// was pending before is dropped.
    pub fn begin_cycle(&mut self, tracks: &mut VecDeque<ActiveTrack>) -> (action: Action)
        ensures
            final(tracks).deep_view() == survivors(
                old(tracks).deep_view(),
                PERIOD_SAMPLES as nat,
            ),
            final(self)@ == OutputView::begun(
                mixed(old(tracks).deep_view(), PERIOD_SAMPLES as nat),
            ),
            action == final(self)@.first_action(),
    {
        let buffer = mix(tracks, PERIOD_FRAMES, OUTPUT_CHANNELS);
        let written: usize = if is_silent(&buffer) {
            buffer.len()
        } else {
            0
        };
        let action = if written < buffer.len() {
            Action::Write
        } else {
            Action::Idle { millis: IDLE_MILLIS }
        };
        *self = OutputLoop { buffer, written };
        action
    }

    /// The samples that still have to go to the device.
    pub fn pending(&self) -> (samples: &[i16])
        ensures
            samples@ == self@.pending(),
    {
        proof {
            use_type_invariant(self);
        }
        slice_subrange(self.buffer.as_slice(), self.written, self.buffer.len())
    }

    /// Takes the device's answer to a write of the pending samples and
    /// decides what follows. Frames that the device took are not written
    /// again; after an under- or overrun the same samples stay pending; after
    /// any other failure the rest of the buffer is given up.
    pub fn after_write(&mut self, outcome: WriteOutcome) -> (action: Action)
        ensures
            final(self)@ == old(self)@.after(outcome),
            action == final(self)@.next_action(outcome),
    {
        proof {
            use_type_invariant(&*self);
        }
        match outcome {
            WriteOutcome::Written(frames) => {
                let left: usize = self.buffer.len() - self.written;
                let taken: usize = match frames.checked_mul(OUTPUT_CHANNELS) {
                    Some(samples) => if samples < left {
                        samples
                    } else {
                        left
                    },
                    None => left,
                };
                self.written = self.written + taken;
                if self.written < self.buffer.len() {
                    Action::Write
                } else {
                    Action::Pace { millis: PACE_MILLIS }
                }
            },
            WriteOutcome::Underrun => Action::Recover,
            WriteOutcome::Failed => {
                self.written = self.buffer.len();
                Action::Report { millis: PACE_MILLIS }
            },
        }
    }
}

/// No answer of the device moves the end of the cycle away: the buffer stays
/// the same, what was written stays written, and every write of which the
/// device took a frame leaves less pending than before.
pub proof fn lemma_writes_make_progress(state: OutputView, outcome: WriteOutcome)
    requires
        state.written <= state.buffer.len(),
    ensures
        state.after(outcome).buffer == state.buffer,
        state.written <= state.after(outcome).written <= state.buffer.len(),
        state.after(outcome).pending() == state.pending().subrange(
            state.after(outcome).written - state.written,
            state.pending().len() as int,
        ),
        outcome matches WriteOutcome::Written(frames) && frames > 0 && state.written
            < state.buffer.len() ==> state.after(outcome).pending().len() < state.pending().len(),
{
}

/// The rest after a silent pass is shorter than a fifth of the time that one
/// period of frames takes to play.
pub proof fn lemma_idle_is_short()
    ensures
        5 * IDLE_MILLIS * SAMPLE_RATE < 1000 * PERIOD_FRAMES,
{
}

} // verus!
