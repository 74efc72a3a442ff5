//! One-shot playback: the decisions of a task that streams one whole clip to
//! a device of its own, chunk by chunk. The caller owns the device, writes
//! each chunk and reports what the device said.

use vstd::prelude::*;
use crate::output::WriteOutcome;

verus! {

/// The number of frames that one chunk holds at most.
pub const CHUNK_FRAMES: usize = 1024;

/// The mathematical content of a [`OneShot`].
pub struct OneShotView {
    /// The number of samples of the clip.
    pub total: nat,
    /// The number of channels that the samples interleave.
    pub channels: nat,
    /// The number of frames that the device has taken.
    pub frame: nat,
    /// Whether a failed write has ended the playback.
    pub stopped: bool,
}

impl OneShotView {
    /// The number of whole frames of the clip.
    pub open spec fn frames(self) -> nat {
        self.total / self.channels
    }

    /// The span of samples to write next, from its first index to the index
    /// behind its last: it starts at the first frame that the device has not
    /// taken, and holds [`CHUNK_FRAMES`] frames or what is left of the clip.
    /// There is none once every whole frame is taken or a write has failed.
    pub open spec fn chunk(self) -> Option<(nat, nat)> {
        if !self.stopped && self.frame < self.frames() {
            let start = self.frame * self.channels;
            let end = (start + CHUNK_FRAMES * self.channels) as nat;
            Some(
                (
                    start,
                    if end <= self.total {
                        end
                    } else {
                        self.total
                    },
                ),
            )
        } else {
            None
        }
    }

    /// The state after the device answered `outcome` to a write of the
    /// chunk: the frames it took are behind the playback, and any failure
    /// ends it.
    pub open spec fn after(self, outcome: WriteOutcome) -> OneShotView {
        match outcome {
            WriteOutcome::Written(frames) => OneShotView {
                frame: if self.frame + frames <= self.frames() {
                    (self.frame + frames) as nat
                } else {
                    self.frames()
                },
                ..self
            },
            _ => OneShotView { stopped: true, ..self },
        }
    }
}

/// The progress of one playback of a clip through a device of its own.
pub struct OneShot {
    total: usize,
    channels: u16,
    frame: usize,
    stopped: bool,
}

impl View for OneShot {
    type V = OneShotView;

    closed spec fn view(&self) -> OneShotView {
        OneShotView {
            total: self.total as nat,
            channels: self.channels as nat,
            frame: self.frame as nat,
            stopped: self.stopped,
        }
    }
}

impl OneShot {
    #[verifier::type_invariant]
    spec fn in_bounds(self) -> bool {
        &&& self.channels > 0
        &&& self.frame <= self.total / (self.channels as usize)
    }

    /// A playback that is about to start on a clip of `total_samples`
    /// samples, interleaved over `channels` channels.
    pub fn new(total_samples: usize, channels: u16) -> (state: OneShot)
        requires
            channels > 0,
        ensures
            state@ == (OneShotView {
                total: total_samples as nat,
                channels: channels as nat,
                frame: 0,
                stopped: false,
            }),
    {
        OneShot { total: total_samples, channels, frame: 0, stopped: false }
    }

    /// The span of samples to write next, or `None` when the playback is
    /// over.
    pub fn next_chunk(&self) -> (chunk: Option<(usize, usize)>)
        ensures
            match chunk {
                Some((start, end)) => self@.chunk() == Some((start as nat, end as nat)),
                None => self@.chunk() is None,
            },
    {
        proof {
            use_type_invariant(self);
        }
        let channels: usize = self.channels as usize;
        let frames: usize = self.total / channels;
        if self.stopped || self.frame >= frames {
            return None;
        }
        proof {
            lemma_frames_fit(self.total as nat, channels as nat, self.frame as nat);
        }
        let start: usize = self.frame * channels;
        let span: usize = CHUNK_FRAMES * channels;
        let end: usize = if self.total - start < span {
            self.total
        } else {
            start + span
        };
        Some((start, end))
    }

    /// Takes the device's answer to a write of the chunk: the frames that
    /// the device took are not written again, and a failure ends the
    /// playback.
    pub fn after_write(&mut self, outcome: WriteOutcome)
        ensures
            final(self)@ == old(self)@.after(outcome),
    {
        proof {
            use_type_invariant(&*self);
        }
        match outcome {
            WriteOutcome::Written(frames) => {
                let left: usize = self.total / (self.channels as usize) - self.frame;
                let taken: usize = if frames < left {
                    frames
                } else {
                    left
                };
                self.frame = self.frame + taken;
            },
            _ => {
                self.stopped = true;
            },
        }
    }
}

proof fn lemma_frames_fit(total: nat, channels: nat, frame: nat)
    requires
        channels > 0,
        frame < total / channels,
    ensures
        frame * channels + channels <= total,
{
    assert((total / channels) * channels <= total) by (nonlinear_arith)
        requires
            channels > 0,
    ;
    assert((frame + 1) * channels <= (total / channels) * channels) by (nonlinear_arith)
        requires
            frame + 1 <= total / channels,
    ;
    assert((frame + 1) * channels == frame * channels + channels) by (nonlinear_arith);
}

/// Every chunk lies within the clip, starts on a frame and is not empty; and
/// there is a chunk for as long as whole frames are left and no write has
/// failed.
pub proof fn lemma_chunks_are_in_bounds(state: OneShotView)
    requires
        state.channels > 0,
    ensures
        state.chunk() is Some <==> !state.stopped && state.frame < state.frames(),
        state.chunk() matches Some((start, end)) ==> {
            &&& start == state.frame * state.channels
            &&& start + state.channels <= end <= state.total
            &&& end - start <= CHUNK_FRAMES * state.channels
        },
{
    if state.chunk() is Some {
        lemma_frames_fit(state.total, state.channels, state.frame);
        assert(CHUNK_FRAMES * state.channels >= state.channels) by (nonlinear_arith)
            requires
                CHUNK_FRAMES >= 1,
        ;
    }
}

} // verus!
