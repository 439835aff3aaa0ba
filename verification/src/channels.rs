//! Channel-major sample blocks.
//!
//! A block is a sequence of channels, each a sequence of samples:
//! `block[c][i]` is sample `i` of channel `c`. The functions here are the
//! vocabulary in which the re-blocking adapter states what it does, and the
//! small verified loops it is built from.

use vstd::prelude::*;

verus! {

/// The block held by a vector of channel buffers.
pub open spec fn channels_of<T>(v: Vec<Vec<T>>) -> Seq<Seq<T>> {
    Seq::new(v@.len(), |c: int| v@[c]@)
}

/// Samples per channel of a block whose channels all have one length
/// (0 for a block without channels).
pub open spec fn frames_of<T>(block: Seq<Seq<T>>) -> nat {
    if block.len() == 0 {
        0
    } else {
        block[0].len()
    }
}

/// `block` has `channels` channels of exactly `frames` samples each.
pub open spec fn is_block<T>(block: Seq<Seq<T>>, channels: nat, frames: nat) -> bool {
    &&& block.len() == channels
    &&& forall|c: int| 0 <= c < block.len() ==> (#[trigger] block[c]).len() == frames
}

/// `block` has `channels` channels of at least `frames` samples each.
pub open spec fn covers<T>(block: Seq<Seq<T>>, channels: nat, frames: nat) -> bool {
    &&& block.len() == channels
    &&& forall|c: int| 0 <= c < block.len() ==> (#[trigger] block[c]).len() >= frames
}

/// A block of `channels` x `frames` copies of `value`.
pub open spec fn constant_block<T>(value: T, channels: nat, frames: nat) -> Seq<Seq<T>> {
    Seq::new(channels, |c: int| Seq::new(frames, |i: int| value))
}

/// The block of `channels` channels without a sample.
pub open spec fn empty_block<T>(channels: nat) -> Seq<Seq<T>> {
    Seq::new(channels, |c: int| Seq::<T>::empty())
}

/// Channel by channel, `a` followed by `b`.
pub open spec fn join<T>(a: Seq<Seq<T>>, b: Seq<Seq<T>>) -> Seq<Seq<T>> {
    Seq::new(a.len(), |c: int| a[c] + b[c])
}

/// Channel by channel, the samples `from..to`.
pub open spec fn window<T>(block: Seq<Seq<T>>, from: int, to: int) -> Seq<Seq<T>> {
    Seq::new(block.len(), |c: int| block[c].subrange(from, to))
}

/// Channel by channel, all of `frames` one after the other, over `channels`
/// channels.
pub open spec fn join_all<T>(frames: Seq<Seq<Seq<T>>>, channels: nat) -> Seq<Seq<T>>
    decreases frames.len(),
{
    if frames.len() == 0 {
        empty_block(channels)
    } else {
        join(join_all(frames.drop_last(), channels), frames.last())
    }
}

/// Channel by channel, the first `n` samples of `front` followed by what
/// `back` holds from sample `n` on.
pub open spec fn overwrite_front<T>(back: Seq<Seq<T>>, front: Seq<Seq<T>>, n: int) -> Seq<Seq<T>> {
    Seq::new(back.len(), |c: int| front[c].subrange(0, n) + back[c].subrange(n, back[c].len() as int))
}

/// Joining blocks of known sizes gives a block of the summed size.
pub proof fn lemma_join_is_block<T>(a: Seq<Seq<T>>, b: Seq<Seq<T>>, channels: nat, m: nat, n: nat)
    requires
        is_block(a, channels, m),
        is_block(b, channels, n),
    ensures
        is_block(join(a, b), channels, m + n),
{
    assert forall|c: int| 0 <= c < join(a, b).len() implies (#[trigger] join(a, b)[c]).len() == m
        + n by {
        assert(a[c].len() == m);
        assert(b[c].len() == n);
    }
}

/// `join_all` of `count` frames of `size` samples is a block of
/// `count * size` samples.
pub proof fn lemma_join_all_is_block<T>(frames: Seq<Seq<Seq<T>>>, channels: nat, size: nat)
    requires
        forall|j: int| 0 <= j < frames.len() ==> is_block(#[trigger] frames[j], channels, size),
    ensures
        is_block(join_all(frames, channels), channels, frames.len() * size),
    decreases frames.len(),
{
    if frames.len() == 0 {
        assert(frames.len() * size == 0) by (nonlinear_arith)
            requires
                frames.len() == 0,
        ;
    } else {
        let rest = frames.drop_last();
        assert forall|j: int| 0 <= j < rest.len() implies is_block(
            #[trigger] rest[j],
            channels,
            size,
        ) by {
            assert(rest[j] == frames[j]);
        }
        lemma_join_all_is_block(rest, channels, size);
        assert(is_block(frames.last(), channels, size));
        lemma_join_is_block(join_all(rest, channels), frames.last(), channels, rest.len() * size, size);
        assert(rest.len() * size + size == frames.len() * size) by (nonlinear_arith)
            requires
                rest.len() + 1 == frames.len(),
        ;
    }
}

/// One more frame at the end of `frames` is one more `join` at the end of
/// `join_all`.
pub proof fn lemma_join_all_push<T>(frames: Seq<Seq<Seq<T>>>, frame: Seq<Seq<T>>, channels: nat)
    ensures
        join_all(frames.push(frame), channels) == join(join_all(frames, channels), frame),
{
    assert(frames.push(frame).drop_last() =~= frames);
    assert(frames.push(frame).last() == frame);
}

/// Appends sample `i` of every channel of `src` to the matching channel of
/// `dst`.
pub fn push_column<T: Copy>(dst: &mut Vec<Vec<T>>, src: &Vec<Vec<T>>, i: usize)
    requires
        covers(channels_of(*src), old(dst)@.len() as nat, (i + 1) as nat),
    ensures
        final(dst)@.len() == old(dst)@.len(),
        channels_of(*final(dst)) == join(channels_of(*old(dst)), window(channels_of(*src), i as int, i + 1)),
{
    let ghost before = channels_of(*dst);
    let ghost column = window(channels_of(*src), i as int, i + 1);
    let channels = dst.len();
    let mut c: usize = 0;
    while c < channels
        invariant
            c <= channels,
            channels == dst@.len(),
            before.len() == channels,
            covers(channels_of(*src), channels as nat, (i + 1) as nat),
            column == window(channels_of(*src), i as int, i + 1),
            forall|d: int| 0 <= d < c ==> (#[trigger] dst@[d])@ == before[d] + column[d],
            forall|d: int| c <= d < channels ==> (#[trigger] dst@[d])@ == before[d],
        decreases channels - c,
    {
        assert(channels_of(*src)[c as int].len() >= i + 1);
        let v = src[c][i];
        dst[c].push(v);
        proof {
            assert(column[c as int] =~= seq![v]);
            assert(before[c as int].push(v) =~= before[c as int] + column[c as int]);
        }
        c += 1;
    }
    assert(channels_of(*dst) =~= join(before, column));
}

/// Overwrites every sample of every channel of `dst` with `value`.
pub fn fill_all<T: Copy>(dst: &mut Vec<Vec<T>>, value: T)
    ensures
        final(dst)@.len() == old(dst)@.len(),
        forall|c: int|
            0 <= c < old(dst)@.len() ==> (#[trigger] final(dst)@[c])@ == Seq::new(
                old(dst)@[c]@.len(),
                |i: int| value,
            ),
{
    let ghost before = channels_of(*dst);
    let channels = dst.len();
    let mut c: usize = 0;
    while c < channels
        invariant
            c <= channels,
            channels == dst@.len(),
            before.len() == channels,
            forall|d: int| 0 <= d < c ==> (#[trigger] dst@[d])@ == Seq::new(before[d].len(), |i: int| value),
            forall|d: int| c <= d < channels ==> (#[trigger] dst@[d])@ == before[d],
        decreases channels - c,
    {
        let len = dst[c].len();
        let mut i: usize = 0;
        while i < len
            invariant
                i <= len,
                c < channels,
                channels == dst@.len(),
                before.len() == channels,
                len == before[c as int].len(),
                dst@[c as int]@.len() == len,
                forall|k: int| 0 <= k < i ==> (#[trigger] dst@[c as int]@[k]) == value,
                forall|d: int| 0 <= d < c ==> (#[trigger] dst@[d])@ == Seq::new(before[d].len(), |i: int| value),
                forall|d: int| c < d < channels ==> (#[trigger] dst@[d])@ == before[d],
            decreases len - i,
        {
            dst[c][i] = value;
            i += 1;
        }
        assert(dst@[c as int]@ =~= Seq::new(before[c as int].len(), |i: int| value));
        c += 1;
    }
}

/// Appends every channel of `src` to the matching channel of `dst`.
pub fn append_all<T: Copy>(dst: &mut Vec<Vec<T>>, src: &Vec<Vec<T>>)
    requires
        src@.len() == old(dst)@.len(),
    ensures
        final(dst)@.len() == old(dst)@.len(),
        channels_of(*final(dst)) == join(channels_of(*old(dst)), channels_of(*src)),
{
    let ghost before = channels_of(*dst);
    let ghost added = channels_of(*src);
    let channels = dst.len();
    let mut c: usize = 0;
    while c < channels
        invariant
            c <= channels,
            channels == dst@.len(),
            channels == src@.len(),
            before.len() == channels,
            added == channels_of(*src),
            forall|d: int| 0 <= d < c ==> (#[trigger] dst@[d])@ == before[d] + added[d],
            forall|d: int| c <= d < channels ==> (#[trigger] dst@[d])@ == before[d],
        decreases channels - c,
    {
        let len = src[c].len();
        let mut i: usize = 0;
        while i < len
            invariant
                i <= len,
                c < channels,
                channels == dst@.len(),
                channels == src@.len(),
                before.len() == channels,
                added == channels_of(*src),
                len == added[c as int].len(),
                dst@[c as int]@ == before[c as int] + added[c as int].subrange(0, i as int),
                forall|d: int| 0 <= d < c ==> (#[trigger] dst@[d])@ == before[d] + added[d],
                forall|d: int| c < d < channels ==> (#[trigger] dst@[d])@ == before[d],
            decreases len - i,
        {
            let v = src[c][i];
            dst[c].push(v);
            proof {
                assert(added[c as int].subrange(0, i + 1) =~= added[c as int].subrange(0, i as int).push(v));
                assert((before[c as int] + added[c as int].subrange(0, i as int)).push(v) =~= before[c as int]
                    + added[c as int].subrange(0, i + 1));
            }
            i += 1;
        }
        assert(added[c as int].subrange(0, len as int) =~= added[c as int]);
        c += 1;
    }
    assert(channels_of(*dst) =~= join(before, added));
}

/// Empties every channel of `dst`.
pub fn clear_all<T>(dst: &mut Vec<Vec<T>>)
    ensures
        final(dst)@.len() == old(dst)@.len(),
        forall|c: int| 0 <= c < old(dst)@.len() ==> (#[trigger] final(dst)@[c])@.len() == 0,
{
    let channels = dst.len();
    let mut c: usize = 0;
    while c < channels
        invariant
            c <= channels,
            channels == dst@.len(),
            forall|d: int| 0 <= d < c ==> (#[trigger] dst@[d])@.len() == 0,
        decreases channels - c,
    {
        dst[c].clear();
        c += 1;
    }
}

/// Makes room for `room` samples in every channel of `dst` that holds fewer.
pub fn reserve_all<T>(dst: &mut Vec<Vec<T>>, room: usize)
    ensures
        channels_of(*final(dst)) == channels_of(*old(dst)),
{
    let ghost before = channels_of(*dst);
    let channels = dst.len();
    let mut c: usize = 0;
    while c < channels
        invariant
            c <= channels,
            channels == dst@.len(),
            before.len() == channels,
            forall|d: int| 0 <= d < channels ==> (#[trigger] dst@[d])@ == before[d],
        decreases channels - c,
    {
        let len = dst[c].len();
        if room > len {
            dst[c].reserve(room - len);
        }
        c += 1;
    }
    assert(channels_of(*dst) =~~= before);
}

/// Replaces every channel of `dst` by `frames` samples of `value`.
pub fn reset_all<T: Copy>(dst: &mut Vec<Vec<T>>, frames: usize, value: T)
    ensures
        channels_of(*final(dst)) == constant_block(value, old(dst)@.len() as nat, frames as nat),
{
    let channels = dst.len();
    let mut c: usize = 0;
    while c < channels
        invariant
            c <= channels,
            channels == dst@.len(),
            forall|d: int| 0 <= d < c ==> (#[trigger] dst@[d])@ == Seq::new(frames as nat, |i: int| value),
        decreases channels - c,
    {
        let mut channel: Vec<T> = Vec::with_capacity(frames);
        let mut i: usize = 0;
        while i < frames
            invariant
                i <= frames,
                channel@ == Seq::new(i as nat, |k: int| value),
            decreases frames - i,
        {
            channel.push(value);
            assert(channel@ =~= Seq::new((i + 1) as nat, |k: int| value));
            i += 1;
        }
        dst[c] = channel;
        c += 1;
    }
    assert(channels_of(*dst) =~~= constant_block(value, channels as nat, frames as nat));
}

/// Moves the first `n` samples of every channel of `queue` to the front of
/// the matching channel of `dst`, and closes the gap in `queue`.
pub fn drain_front<T: Copy>(queue: &mut Vec<Vec<T>>, dst: &mut Vec<Vec<T>>, n: usize)
    requires
        old(dst)@.len() == old(queue)@.len(),
        covers(channels_of(*old(queue)), old(queue)@.len() as nat, n as nat),
        covers(channels_of(*old(dst)), old(queue)@.len() as nat, n as nat),
    ensures
        final(queue)@.len() == old(queue)@.len(),
        final(dst)@.len() == old(dst)@.len(),
        forall|c: int|
            0 <= c < old(queue)@.len() ==> (#[trigger] final(queue)@[c])@ == old(queue)@[c]@.subrange(
                n as int,
                old(queue)@[c]@.len() as int,
            ),
        channels_of(*final(dst)) == overwrite_front(channels_of(*old(dst)), channels_of(*old(queue)), n as int),
{
    let ghost queued = channels_of(*queue);
    let ghost target = channels_of(*dst);
    let channels = queue.len();
    let mut c: usize = 0;
    while c < channels
        invariant
            c <= channels,
            channels == queue@.len(),
            channels == dst@.len(),
            queued.len() == channels,
            target.len() == channels,
            covers(queued, channels as nat, n as nat),
            covers(target, channels as nat, n as nat),
            forall|d: int|
                0 <= d < c ==> (#[trigger] queue@[d])@ == queued[d].subrange(n as int, queued[d].len() as int),
            forall|d: int| c <= d < channels ==> (#[trigger] queue@[d])@ == queued[d],
            forall|d: int|
                0 <= d < c ==> (#[trigger] dst@[d])@ == queued[d].subrange(0, n as int) + target[d].subrange(
                    n as int,
                    target[d].len() as int,
                ),
            forall|d: int| c <= d < channels ==> (#[trigger] dst@[d])@ == target[d],
        decreases channels - c,
    {
        assert(queued[c as int].len() >= n);
        assert(target[c as int].len() >= n);
        let len = queue[c].len();
        let mut i: usize = 0;
        while i < n
            invariant
                i <= n,
                n <= len,
                c < channels,
                channels == queue@.len(),
                channels == dst@.len(),
                queued.len() == channels,
                target.len() == channels,
                queue@[c as int]@ == queued[c as int],
                len == queued[c as int].len(),
                n <= target[c as int].len(),
                dst@[c as int]@ == queued[c as int].subrange(0, i as int) + target[c as int].subrange(
                    i as int,
                    target[c as int].len() as int,
                ),
                forall|d: int|
                    0 <= d < c ==> (#[trigger] queue@[d])@ == queued[d].subrange(
                        n as int,
                        queued[d].len() as int,
                    ),
                forall|d: int| c < d < channels ==> (#[trigger] queue@[d])@ == queued[d],
                forall|d: int|
                    0 <= d < c ==> (#[trigger] dst@[d])@ == queued[d].subrange(0, n as int) + target[d].subrange(
                        n as int,
                        target[d].len() as int,
                    ),
                forall|d: int| c < d < channels ==> (#[trigger] dst@[d])@ == target[d],
            decreases n - i,
        {
            let v = queue[c][i];
            dst[c][i] = v;
            assert(dst@[c as int]@ =~= queued[c as int].subrange(0, i + 1) + target[c as int].subrange(
                i + 1,
                target[c as int].len() as int,
            ));
            i += 1;
        }
        let rest = len - n;
        let mut k: usize = 0;
        while k < rest
            invariant
                k <= rest,
                rest == len - n,
                n <= len,
                c < channels,
                channels == queue@.len(),
                channels == dst@.len(),
                queued.len() == channels,
                len == queued[c as int].len(),
                queue@[c as int]@.len() == len,
                forall|m: int| 0 <= m < k ==> (#[trigger] queue@[c as int]@[m]) == queued[c as int][m + n],
                forall|m: int| k <= m < len ==> (#[trigger] queue@[c as int]@[m]) == queued[c as int][m],
                forall|d: int|
                    0 <= d < c ==> (#[trigger] queue@[d])@ == queued[d].subrange(
                        n as int,
                        queued[d].len() as int,
                    ),
                forall|d: int| c < d < channels ==> (#[trigger] queue@[d])@ == queued[d],
            decreases rest - k,
        {
            let v = queue[c][k + n];
            queue[c][k] = v;
            k += 1;
        }
        queue[c].truncate(rest);
        assert(queue@[c as int]@ =~= queued[c as int].subrange(n as int, len as int));
        c += 1;
    }
    assert(channels_of(*dst) =~= overwrite_front(target, queued, n as int));
}

} // verus!
