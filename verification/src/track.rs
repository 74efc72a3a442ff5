//! Active tracks: the playbacks that are under way, each with its own cursor.

use vstd::prelude::*;
use std::collections::VecDeque;
use crate::asset::{AssetStore, AssetView, AudioAsset};

verus! {

/// The mathematical content of an [`ActiveTrack`].
pub struct TrackView {
    /// The samples that the track plays, interleaved by channel.
    pub samples: Seq<i16>,
    /// How many of them have been played.
    pub cursor: nat,
    /// The number of channels of the asset that the track was made from.
    pub channel_count: u16,
}

impl TrackView {
    /// The cursor has not run past the samples.
    pub open spec fn wf(self) -> bool {
        self.cursor <= self.samples.len()
    }

    /// A track that is about to play `asset` from its start.
    pub open spec fn fresh(asset: AssetView) -> TrackView {
        TrackView { samples: asset.samples, cursor: 0, channel_count: asset.channel_count }
    }

    /// How many samples are still to be played.
    pub open spec fn remaining(self) -> nat {
        if self.cursor <= self.samples.len() {
            (self.samples.len() - self.cursor) as nat
        } else {
            0
        }
    }

    /// Nothing is left to play.
    pub open spec fn finished(self) -> bool {
        self.remaining() == 0
    }

    /// How many samples the track gives to a pass that asks for `want`.
    pub open spec fn take(self, want: nat) -> nat {
        if want <= self.remaining() {
            want
        } else {
            self.remaining()
        }
    }

    /// What the track adds at offset `i` of a pass that asks for `want`
    /// samples: its next samples in order, and nothing past its end.
    pub open spec fn contribution(self, want: nat, i: int) -> int {
        if 0 <= i < self.take(want) {
            self.samples[self.cursor + i] as int
        } else {
            0
        }
    }

    /// The track after a pass that asked for `want` samples.
    pub open spec fn advanced(self, want: nat) -> TrackView {
        TrackView { cursor: self.cursor + self.take(want), ..self }
    }
}

/// One playback under way: the samples and a cursor into them.
pub struct ActiveTrack {
    samples: Vec<i16>,
    pos: usize,
    channels: u16,
}

impl View for ActiveTrack {
    type V = TrackView;

    closed spec fn view(&self) -> TrackView {
        TrackView { samples: self.samples@, cursor: self.pos as nat, channel_count: self.channels }
    }
}

impl DeepView for ActiveTrack {
    type V = TrackView;

    open spec fn deep_view(&self) -> TrackView {
        self@
    }
}

impl ActiveTrack {
    #[verifier::type_invariant]
    spec fn cursor_in_bounds(self) -> bool {
        self.pos <= self.samples.len()
    }

    /// A track that plays `asset` from its start.
    pub fn new(asset: &AudioAsset) -> (track: ActiveTrack)
        ensures
            track@ == TrackView::fresh(asset@),
    {
        let samples = asset.samples().clone();
        ActiveTrack { samples, pos: 0, channels: asset.channel_count() }
    }

    /// How many samples have been played.
    pub fn cursor(&self) -> (cursor: usize)
        ensures
            cursor == self@.cursor,
            self@.wf(),
    {
        proof {
            use_type_invariant(self);
        }
        self.pos
    }

    /// How many samples are still to be played.
    pub fn remaining(&self) -> (left: usize)
        ensures
            left == self@.remaining(),
    {
        proof {
            use_type_invariant(self);
        }
        self.samples.len() - self.pos
    }

    /// The number of channels that the samples interleave.
    pub fn channel_count(&self) -> (count: u16)
        ensures
            count == self@.channel_count,
    {
        self.channels
    }

    /// Whether nothing is left to play.
    pub fn is_finished(&self) -> (finished: bool)
        ensures
            finished == self@.finished(),
    {
        proof {
            use_type_invariant(self);
        }
        self.pos >= self.samples.len()
    }

    /// Adds the track's next samples, at most `sums.len()` of them, onto
    /// `sums` from its start, and moves the cursor past them.
    pub(crate) fn pour(&mut self, sums: &mut Vec<i128>)
        requires
            forall|i: int|
                0 <= i < old(sums)@.len() ==> i128::MIN + 32768 <= #[trigger] old(sums)@[i]
                    <= i128::MAX - 32767,
        ensures
            final(sums)@.len() == old(sums)@.len(),
            forall|i: int|
                0 <= i < old(sums)@.len() ==> #[trigger] final(sums)@[i] == old(sums)@[i] + old(
                    self,
                )@.contribution(old(sums)@.len(), i),
            final(self)@ == old(self)@.advanced(old(sums)@.len()),
    {
        proof {
            use_type_invariant(&*self);
        }
        let remain: usize = self.samples.len() - self.pos;
        let can_read: usize = if sums.len() <= remain {
            sums.len()
        } else {
            remain
        };
        let mut i: usize = 0;
        while i < can_read
            invariant
                i <= can_read <= sums@.len(),
                can_read == old(self)@.take(old(sums)@.len()),
                self.pos + can_read <= self.samples.len(),
                *self == *old(self),
                sums@.len() == old(sums)@.len(),
                forall|j: int|
                    0 <= j < i ==> #[trigger] sums@[j] == old(sums)@[j] + self.samples@[self.pos
                        + j],
                forall|j: int| i <= j < sums@.len() ==> #[trigger] sums@[j] == old(sums)@[j],
                forall|j: int|
                    0 <= j < old(sums)@.len() ==> i128::MIN + 32768 <= #[trigger] old(sums)@[j]
                        <= i128::MAX - 32767,
            decreases can_read - i,
        {
            let sample: i16 = self.samples[self.pos + i];
            let sum: i128 = sums[i] + sample as i128;
            sums.set(i, sum);
            i += 1;
        }
        self.pos = self.pos + can_read;
    }
}

/// The queue after one trigger: one fresh track more at its back, if an asset
/// is published.
pub open spec fn pushed(queue: Seq<TrackView>, published: Option<AssetView>) -> Seq<TrackView> {
    match published {
        Some(asset) => queue.push(TrackView::fresh(asset)),
        None => queue,
    }
}

/// Starts one more playback of the published asset at the back of the queue.
/// While nothing is published the queue stays as it is.
pub fn push(tracks: &mut VecDeque<ActiveTrack>, store: &AssetStore)
    ensures
        final(tracks).deep_view() == pushed(old(tracks).deep_view(), store@),
{
    match store.current() {
        Some(asset) => {
            let track = ActiveTrack::new(asset);
            tracks.push_back(track);
        },
        None => {},
    }
}

/// The queue after `count` triggers in a row with no mixing pass between them.
pub open spec fn pushed_times(
    queue: Seq<TrackView>,
    published: Option<AssetView>,
    count: nat,
) -> Seq<TrackView>
    decreases count,
{
    if count == 0 {
        queue
    } else {
        pushed(pushed_times(queue, published, (count - 1) as nat), published)
    }
}

/// With an asset published, `count` triggers in a row leave the tracks that
/// were queued where they were and add exactly `count` tracks behind them,
/// each with the asset's samples and its cursor at 0.
pub proof fn lemma_triggers_queue_fresh_tracks(queue: Seq<TrackView>, asset: AssetView, count: nat)
    ensures
        pushed_times(queue, Some(asset), count).len() == queue.len() + count,
        pushed_times(queue, Some(asset), count).subrange(0, queue.len() as int) == queue,
        forall|i: int|
            queue.len() <= i < queue.len() + count ==> {
                let track = #[trigger] pushed_times(queue, Some(asset), count)[i];
                &&& track.cursor == 0
                &&& track.samples == asset.samples
                &&& track.channel_count == asset.channel_count
            },
    decreases count,
{
    if count > 0 {
        lemma_triggers_queue_fresh_tracks(queue, asset, (count - 1) as nat);
    }
}

/// While nothing is published, triggers leave the queue as it is.
pub proof fn lemma_triggers_without_asset(queue: Seq<TrackView>, count: nat)
    ensures
        pushed_times(queue, None, count) == queue,
    decreases count,
{
    if count > 0 {
        lemma_triggers_without_asset(queue, (count - 1) as nat);
    }
}

/// A pass moves a cursor forward only, never past the end of the samples, and
/// leaves the samples as they are.
pub proof fn lemma_advance_stays_in_bounds(track: TrackView, want: nat)
    requires
        track.wf(),
    ensures
        track.advanced(want).wf(),
        track.cursor <= track.advanced(want).cursor,
        track.advanced(want).samples == track.samples,
        track.advanced(want).finished() <==> track.remaining() <= want,
{
}

/// Two passes in a row read a track as one pass of their joint length does:
/// no sample is skipped, and none is read twice.
pub proof fn lemma_passes_read_in_sequence(track: TrackView, first: nat, second: nat)
    requires
        track.wf(),
    ensures
        track.advanced(first).advanced(second) == track.advanced(first + second),
        forall|i: int|
            0 <= i < first ==> #[trigger] track.contribution(first, i) == track.contribution(
                first + second,
                i,
            ),
        first <= track.remaining() ==> forall|i: int|
            0 <= i < second ==> #[trigger] track.advanced(first).contribution(second, i)
                == track.contribution(first + second, first + i),
{
}

} // verus!
