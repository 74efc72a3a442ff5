//! The mixing pass: the sum of every active track, clipped to 16 bits.

use vstd::prelude::*;
use std::collections::VecDeque;
use crate::sample::{clamp16, narrow};
use crate::track::{ActiveTrack, TrackView};

verus! {

/// The sum of what the tracks of `queue` add at offset `i` of a pass that
/// asks for `want` samples.
pub open spec fn mixed_sum(queue: Seq<TrackView>, want: nat, i: int) -> int
    decreases queue.len(),
{
    if queue.len() == 0 {
        0
    } else {
        mixed_sum(queue.drop_last(), want, i) + queue.last().contribution(want, i)
    }
}

/// The buffer that a pass over `queue` gives: `want` samples, each the sum of
/// the tracks at its offset, clipped to the signed 16-bit range.
pub open spec fn mixed(queue: Seq<TrackView>, want: nat) -> Seq<i16> {
    Seq::new(want, |i: int| clamp16(mixed_sum(queue, want, i)) as i16)
}

/// The queue that a pass over `queue` leaves: every track moved on by what it
/// gave, in the same order, without those that have nothing left.
pub open spec fn survivors(queue: Seq<TrackView>, want: nat) -> Seq<TrackView> {
    queue.map_values(|t: TrackView| t.advanced(want)).filter(|t: TrackView| !t.finished())
}

/// The queue that a pass leaves, told track by track from the back: the last
/// track is moved on and kept behind the others unless it has nothing left.
pub proof fn lemma_survivors_step(queue: Seq<TrackView>, want: nat)
    requires
        queue.len() > 0,
    ensures
        survivors(queue, want) == if queue.last().advanced(want).finished() {
            survivors(queue.drop_last(), want)
        } else {
            survivors(queue.drop_last(), want).push(queue.last().advanced(want))
        },
{
    let moved = queue.map_values(|t: TrackView| t.advanced(want));
    assert(moved.drop_last() == queue.drop_last().map_values(|t: TrackView| t.advanced(want)));
    reveal(Seq::filter);
}

/// Runs one mixing pass over the queue. The buffer holds `frames * channels`
/// samples; every track is moved on by what it gave, and a track that reached
/// its end leaves the queue.
///
/// The sums are kept 128 bits wide, so that no number of tracks can overflow
/// them before they are clipped.
pub fn mix(tracks: &mut VecDeque<ActiveTrack>, frames: usize, channels: usize) -> (out: Vec<i16>)
    requires
        frames * channels <= usize::MAX,
    ensures
        out@.len() == frames * channels,
        out@ == mixed(old(tracks).deep_view(), (frames * channels) as nat),
        final(tracks).deep_view() == survivors(
            old(tracks).deep_view(),
            (frames * channels) as nat,
        ),
{
    let want: usize = frames * channels;
    let ghost before = tracks.deep_view();
    let mut sums: Vec<i128> = vec![0i128; want];
    let count: usize = tracks.len();
    let mut seen: usize = 0;
    assert(survivors(Seq::<TrackView>::empty(), want as nat) == Seq::<TrackView>::empty()) by {
        reveal(Seq::filter);
    }
    while seen < count
        invariant
            seen <= count,
            count == before.len(),
            sums@.len() == want,
            tracks.deep_view() == before.subrange(seen as int, count as int) + survivors(
                before.subrange(0, seen as int),
                want as nat,
            ),
            forall|i: int|
                0 <= i < want ==> sums@[i] == mixed_sum(
                    before.subrange(0, seen as int),
                    want as nat,
                    i,
                ),
            forall|i: int| 0 <= i < want ==> -32768 * seen <= #[trigger] sums@[i] <= 32767 * seen,
        decreases count - seen,
    {
        let ghost queued = tracks.deep_view();
        let ghost done = before.subrange(0, seen as int);
        assert(queued[0] == before[seen as int]);
        let mut track = tracks.pop_front().unwrap();
        assert(tracks.deep_view() == queued.subrange(1, queued.len() as int));
        let ghost rest = tracks.deep_view();
        track.pour(&mut sums);
        if !track.is_finished() {
            tracks.push_back(track);
            assert(tracks.deep_view() == rest.push(track@));
        }
        proof {
            let next = before.subrange(0, seen + 1);
            assert(next.drop_last() == done);
            lemma_survivors_step(next, want as nat);
        }
        seen += 1;
    }
    assert(before.subrange(0, seen as int) == before);
    narrow(&sums)
}

/// One track more at the back of the queue adds what it gives to every sum.
pub proof fn lemma_mixed_sum_push(queue: Seq<TrackView>, track: TrackView, want: nat, i: int)
    ensures
        mixed_sum(queue.push(track), want, i) == mixed_sum(queue, want, i) + track.contribution(
            want,
            i,
        ),
{
    assert(queue.push(track).drop_last() == queue);
}

/// The sums of a queue are the sums of its front part plus those of its back
/// part.
pub proof fn lemma_mixed_sum_concat(
    front: Seq<TrackView>,
    back: Seq<TrackView>,
    want: nat,
    i: int,
)
    ensures
        mixed_sum(front + back, want, i) == mixed_sum(front, want, i) + mixed_sum(back, want, i),
    decreases back.len(),
{
    if back.len() > 0 {
        assert((front + back).drop_last() == front + back.drop_last());
        lemma_mixed_sum_concat(front, back.drop_last(), want, i);
    }
}

/// The buffer of a pass does not depend on the order in which the tracks
/// were queued: two parts of a queue may change places.
pub proof fn lemma_mix_ignores_order(front: Seq<TrackView>, back: Seq<TrackView>, want: nat)
    ensures
        mixed(front + back, want) == mixed(back + front, want),
{
    assert forall|i: int| 0 <= i < want implies mixed_sum(front + back, want, i) == mixed_sum(
        back + front,
        want,
        i,
    ) by {
        lemma_mixed_sum_concat(front, back, want, i);
        lemma_mixed_sum_concat(back, front, want, i);
    }
}

/// A pass over an empty queue gives silence of the length asked for, and
/// leaves the queue empty.
pub proof fn lemma_empty_queue_is_silent(want: nat)
    ensures
        mixed(Seq::empty(), want) == Seq::new(want, |i: int| 0i16),
        survivors(Seq::empty(), want) == Seq::<TrackView>::empty(),
{
    reveal(Seq::filter);
}

/// A pass over one track that has at least `want` samples left gives exactly
/// its next `want` samples.
pub proof fn lemma_single_track_passes_through(track: TrackView, want: nat)
    requires
        track.wf(),
        track.remaining() >= want,
    ensures
        mixed(seq![track], want) == track.samples.subrange(
            track.cursor as int,
            (track.cursor + want) as int,
        ),
{
    let queue = seq![track];
    assert forall|i: int| 0 <= i < want implies #[trigger] mixed(queue, want)[i]
        == track.samples[track.cursor + i] by {
        lemma_mixed_sum_push(Seq::empty(), track, want, i);
    }
}

/// A pass over two tracks with the same samples and cursor gives, at every
/// offset, twice what one of them adds there, clipped: twice the source
/// sample as far as the samples reach.
pub proof fn lemma_two_equal_tracks_double(track: TrackView, want: nat)
    ensures
        ({
            let out = mixed(seq![track, track], want);
            &&& out.len() == want
            &&& forall|i: int|
                0 <= i < want ==> #[trigger] out[i] == clamp16(2 * track.contribution(want, i))
            &&& forall|i: int|
                0 <= i < track.take(want) ==> #[trigger] out[i] == clamp16(
                    2 * track.samples[track.cursor + i],
                )
        }),
{
    let one = Seq::empty().push(track);
    let queue = one.push(track);
    assert(queue == seq![track, track]);
    let out = mixed(queue, want);
    assert forall|i: int| 0 <= i < want implies #[trigger] out[i] == clamp16(
        2 * track.contribution(want, i),
    ) by {
        lemma_mixed_sum_push(Seq::empty(), track, want, i);
        lemma_mixed_sum_push(one, track, want, i);
    }
}

/// A pass keeps exactly the tracks that still have samples left after it: a
/// track leaves the queue in the pass in which its cursor reaches its end,
/// and every track that is kept has its cursor before its end.
pub proof fn lemma_pass_retires_finished_tracks(queue: Seq<TrackView>, want: nat)
    ensures
        forall|i: int|
            0 <= i < survivors(queue, want).len() ==> {
                let kept = #[trigger] survivors(queue, want)[i];
                !kept.finished() && kept.cursor < kept.samples.len()
            },
        forall|k: int|
            0 <= k < queue.len() ==> (survivors(queue, want).contains(
                #[trigger] queue[k].advanced(want),
            ) <==> !queue[k].advanced(want).finished()),
    decreases queue.len(),
{
    if queue.len() > 0 {
        lemma_pass_retires_finished_tracks(queue.drop_last(), want);
        lemma_survivors_step(queue, want);
        let kept = survivors(queue.drop_last(), want);
        assert forall|k: int| 0 <= k < queue.len() implies (survivors(queue, want).contains(
            #[trigger] queue[k].advanced(want),
        ) <==> !queue[k].advanced(want).finished()) by {
            let t = queue[k].advanced(want);
            if k < queue.len() - 1 {
                assert(queue.drop_last()[k] == queue[k]);
            }
            if !t.finished() {
                if k < queue.len() - 1 {
                    let j = choose|j: int| 0 <= j < kept.len() && kept[j] == t;
                    assert(survivors(queue, want)[j] == t);
                } else {
                    assert(survivors(queue, want)[kept.len() as int] == t);
                }
            }
        }
    } else {
        reveal(Seq::filter);
    }
}

/// A track that has reached its end adds nothing to any pass.
pub proof fn lemma_finished_track_is_silent(track: TrackView, want: nat, i: int)
    requires
        track.finished(),
    ensures
        track.contribution(want, i) == 0,
{
}

/// Retiring changes nothing that is heard: what the kept tracks add to a
/// later pass is what all the tracks would have added, had the finished ones
/// stayed queued.
pub proof fn lemma_retired_tracks_stay_silent(queue: Seq<TrackView>, want: nat, later: nat, i: int)
    ensures
        mixed_sum(survivors(queue, want), later, i) == mixed_sum(
            queue.map_values(|t: TrackView| t.advanced(want)),
            later,
            i,
        ),
    decreases queue.len(),
{
    let moved = queue.map_values(|t: TrackView| t.advanced(want));
    if queue.len() > 0 {
        lemma_retired_tracks_stay_silent(queue.drop_last(), want, later, i);
        lemma_survivors_step(queue, want);
        assert(moved.drop_last() == queue.drop_last().map_values(|t: TrackView| t.advanced(want)));
        let kept = survivors(queue.drop_last(), want);
        let last = queue.last().advanced(want);
        if !last.finished() {
            assert(kept.push(last).drop_last() == kept);
        }
    } else {
        reveal(Seq::filter);
    }
}

/// Retiring twice is retiring once: a pass that asks for nothing finds
/// nothing more to retire in the queue that a pass has left.
pub proof fn lemma_retirement_is_idempotent(queue: Seq<TrackView>, want: nat)
    ensures
        survivors(survivors(queue, want), 0) == survivors(queue, want),
{
    lemma_pass_retires_finished_tracks(queue, want);
    lemma_unfinished_tracks_stay(survivors(queue, want));
}

proof fn lemma_unfinished_tracks_stay(queue: Seq<TrackView>)
    requires
        forall|i: int| 0 <= i < queue.len() ==> !(#[trigger] queue[i]).finished(),
    ensures
        survivors(queue, 0) == queue,
    decreases queue.len(),
{
    if queue.len() > 0 {
        lemma_unfinished_tracks_stay(queue.drop_last());
        lemma_survivors_step(queue, 0);
    } else {
        reveal(Seq::filter);
    }
}

} // verus!
