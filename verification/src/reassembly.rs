//! What the accumulator does to a whole stream.
//!
//! One call of [`FixedProcessBlock::process`](crate::nodes::FixedProcessBlock::process)
//! is stated in terms of [`BlockState::fed`] and [`BlockState::released`].
//! This module looks at any number of calls in a row and proves that the
//! cutting of the stream into blocks leaves no trace: the effect sees the
//! frames of the uncut stream, and its output leaves in the order it was
//! produced.

use crate::channels::{
    covers, empty_block, is_block, join, join_all, lemma_join_is_block, window,
};
use crate::nodes::BlockState;
use crate::channels::lemma_join_all_is_block;
use vstd::arithmetic::div_mod::{
    lemma_basic_div, lemma_div_pos_is_pos, lemma_fundamental_div_mod,
    lemma_fundamental_div_mod_converse, lemma_mod_pos_bound, lemma_small_mod,
};
use vstd::prelude::*;

verus! {

/// One call as the model sees it: the block that came in, how many of its
/// samples count, how many samples were asked for, and the frames that the
/// effect handed back.
pub struct Call<T> {
    pub block: Seq<Seq<T>>,
    pub frames: nat,
    pub requested: nat,
    pub outs: Seq<Seq<Seq<T>>>,
}

impl<T> BlockState<T> {
    /// Whether `call` can follow on this state: its block covers the channels
    /// and the effect handed back one well-shaped frame for each frame that
    /// completes.
    pub open spec fn admits(self, call: Call<T>) -> bool {
        &&& covers(call.block, self.in_channels(), call.frames)
        &&& call.outs.len() == self.completed(call.frames)
        &&& forall|j: int|
            0 <= j < call.outs.len() ==> is_block(
                #[trigger] call.outs[j],
                self.out_channels(),
                self.frame_size,
            )
    }

    /// The state after `call`.
    pub open spec fn after(self, call: Call<T>) -> Self {
        self.fed(call.block, call.frames, call.outs).released(call.requested)
    }

    /// Whether `call` is served.
    pub open spec fn answers(self, call: Call<T>) -> bool {
        self.fed(call.block, call.frames, call.outs).serves(call.requested)
    }

    /// The samples that `call` releases: none where the output is held back.
    pub open spec fn yields(self, call: Call<T>) -> Seq<Seq<T>> {
        if self.answers(call) {
            window(self.fed(call.block, call.frames, call.outs).queued, 0, call.requested as int)
        } else {
            empty_block(self.out_channels())
        }
    }

    /// The frames that the effect is given during `call`.
    pub open spec fn hands_over(self, call: Call<T>) -> Seq<Seq<Seq<T>>> {
        Seq::new(self.completed(call.frames), |j: int| self.input_frame(call.block, call.frames, j))
    }
}

/// The state after all of `calls`, starting from `start`.
pub open spec fn replay<T>(start: BlockState<T>, calls: Seq<Call<T>>) -> BlockState<T>
    decreases calls.len(),
{
    if calls.len() == 0 {
        start
    } else {
        replay(start, calls.drop_last()).after(calls.last())
    }
}

/// Whether each of `calls` can follow on the state that the calls before it
/// leave.
pub open spec fn admissible<T>(start: BlockState<T>, calls: Seq<Call<T>>) -> bool
    decreases calls.len(),
{
    calls.len() == 0 || (admissible(start, calls.drop_last()) && replay(
        start,
        calls.drop_last(),
    ).admits(calls.last()))
}

/// Samples per channel that came in over all of `calls`.
pub open spec fn frames_total<T>(calls: Seq<Call<T>>) -> nat
    decreases calls.len(),
{
    if calls.len() == 0 {
        0
    } else {
        frames_total(calls.drop_last()) + calls.last().frames
    }
}

/// The uncut input: the counted samples of every block of `calls`, one block
/// after the other.
pub open spec fn input_total<T>(calls: Seq<Call<T>>, channels: nat) -> Seq<Seq<T>>
    decreases calls.len(),
{
    if calls.len() == 0 {
        empty_block(channels)
    } else {
        join(input_total(calls.drop_last(), channels), window(calls.last().block, 0, calls.last().frames as int))
    }
}

/// All frames that the effect handed back over `calls`, in order.
pub open spec fn outs_total<T>(calls: Seq<Call<T>>) -> Seq<Seq<Seq<T>>>
    decreases calls.len(),
{
    if calls.len() == 0 {
        Seq::empty()
    } else {
        outs_total(calls.drop_last()) + calls.last().outs
    }
}

/// All frames that the effect was given over `calls`, in order.
pub open spec fn frames_fed<T>(start: BlockState<T>, calls: Seq<Call<T>>) -> Seq<Seq<Seq<T>>>
    decreases calls.len(),
{
    if calls.len() == 0 {
        Seq::empty()
    } else {
        frames_fed(start, calls.drop_last()) + replay(start, calls.drop_last()).hands_over(calls.last())
    }
}

/// Everything that `calls` released, in order.
pub open spec fn released_total<T>(start: BlockState<T>, calls: Seq<Call<T>>) -> Seq<Seq<T>>
    decreases calls.len(),
{
    if calls.len() == 0 {
        empty_block(start.out_channels())
    } else {
        join(released_total(start, calls.drop_last()), replay(start, calls.drop_last()).yields(calls.last()))
    }
}

/// Samples per channel that `calls` released.
pub open spec fn released_frames<T>(start: BlockState<T>, calls: Seq<Call<T>>) -> nat
    decreases calls.len(),
{
    if calls.len() == 0 {
        0
    } else {
        released_frames(start, calls.drop_last()) + if replay(start, calls.drop_last()).answers(
            calls.last(),
        ) {
            calls.last().requested
        } else {
            0
        }
    }
}

/// Frames that complete while `a` and then `b` samples come in are the
/// frames that complete while `a + b` samples come in.
pub proof fn lemma_split_frames(pending: nat, a: nat, b: nat, size: nat)
    requires
        size > 0,
    ensures
        (pending + a) / size + ((pending + a) % size + b) / size == (pending + a + b) / size,
        ((pending + a) % size + b) % size == (pending + a + b) % size,
        ((pending + a) / size) * size <= pending + a,
        0 <= (pending + a) / size,
{
    let x = (pending + a) as int;
    let d = size as int;
    let y = x % d + b;
    lemma_fundamental_div_mod(x, d);
    lemma_fundamental_div_mod(y, d);
    lemma_mod_pos_bound(x, d);
    lemma_mod_pos_bound(y, d);
    let q = x / d + y / d;
    assert(x + b == q * d + y % d) by (nonlinear_arith)
        requires
            x == d * (x / d) + x % d,
            y == d * (y / d) + y % d,
            y == x % d + b,
            q == x / d + y / d,
    ;
    lemma_fundamental_div_mod_converse(x + b, d, q, y % d);
    assert((x / d) * d <= x) by (nonlinear_arith)
        requires
            x == d * (x / d) + x % d,
            0 <= x % d,
    ;
    lemma_div_pos_is_pos(x, d);
}

/// `join` is associative.
pub proof fn lemma_join_assoc<T>(a: Seq<Seq<T>>, b: Seq<Seq<T>>, c: Seq<Seq<T>>)
    requires
        a.len() == b.len(),
    ensures
        join(join(a, b), c) == join(a, join(b, c)),
{
    assert forall|i: int| 0 <= i < a.len() implies #[trigger] join(join(a, b), c)[i] == join(a, join(b, c))[i] by {
        assert((a[i] + b[i]) + c[i] =~= a[i] + (b[i] + c[i]));
    }
    assert(join(join(a, b), c) =~= join(a, join(b, c)));
}

/// `join_all` has as many channels as it was asked for.
pub proof fn lemma_join_all_channels<T>(frames: Seq<Seq<Seq<T>>>, channels: nat)
    ensures
        join_all(frames, channels).len() == channels,
    decreases frames.len(),
{
    if frames.len() > 0 {
        lemma_join_all_channels(frames.drop_last(), channels);
    }
}

/// The frames of `x` and then the frames of `y`, all joined, are the joined
/// frames of `x` followed by the joined frames of `y`.
pub proof fn lemma_join_all_concat<T>(x: Seq<Seq<Seq<T>>>, y: Seq<Seq<Seq<T>>>, channels: nat)
    ensures
        join_all(x + y, channels) == join(join_all(x, channels), join_all(y, channels)),
    decreases y.len(),
{
    lemma_join_all_channels(x, channels);
    if y.len() == 0 {
        assert(x + y =~= x);
        assert forall|c: int| 0 <= c < channels implies #[trigger] join(
            join_all(x, channels),
            join_all(y, channels),
        )[c] == join_all(x, channels)[c] by {
            assert(join_all(x, channels)[c] + Seq::<T>::empty() =~= join_all(x, channels)[c]);
        }
        assert(join(join_all(x, channels), join_all(y, channels)) =~= join_all(x, channels));
    } else {
        assert((x + y).drop_last() =~= x + y.drop_last());
        assert((x + y).last() == y.last());
        lemma_join_all_concat(x, y.drop_last(), channels);
        lemma_join_all_channels(y.drop_last(), channels);
        lemma_join_assoc(join_all(x, channels), join_all(y.drop_last(), channels), y.last());
    }
}

/// Feeding `m` samples of `block` to the state `mid`, which the input
/// `input` of `n` samples has led to, continues the uncut stream: the frames
/// that complete are the next frames of `input` followed by `block`, and what
/// is left waiting is the end of that stream.
pub proof fn lemma_feed_continues<T>(
    start: BlockState<T>,
    input: Seq<Seq<T>>,
    n: nat,
    mid: BlockState<T>,
    block: Seq<Seq<T>>,
    m: nat,
)
    requires
        start.wf(),
        is_block(input, start.in_channels(), n),
        mid.frame_size == start.frame_size,
        mid.pending_frames == (start.pending_frames + n) % start.frame_size,
        mid.pending == window(
            start.stream(input, n),
            (start.completed(n) * start.frame_size) as int,
            (start.pending_frames + n) as int,
        ),
        covers(block, start.in_channels(), m),
    ensures
        is_block(join(input, window(block, 0, m as int)), start.in_channels(), n + m),
        start.completed(n) + mid.completed(m) == start.completed(n + m),
        (mid.pending_frames + m) % start.frame_size == (start.pending_frames + n + m) % start.frame_size,
        window(
            mid.stream(block, m),
            (mid.completed(m) * mid.frame_size) as int,
            (mid.pending_frames + m) as int,
        ) == window(
            start.stream(join(input, window(block, 0, m as int)), n + m),
            (start.completed(n + m) * start.frame_size) as int,
            (start.pending_frames + n + m) as int,
        ),
        forall|j: int|
            0 <= j < mid.completed(m) ==> #[trigger] mid.input_frame(block, m, j) == start.input_frame(
                join(input, window(block, 0, m as int)),
                n + m,
                start.completed(n) + j,
            ),
        forall|j: int|
            0 <= j < start.completed(n) ==> #[trigger] start.input_frame(input, n, j) == start.input_frame(
                join(input, window(block, 0, m as int)),
                n + m,
                j,
            ),
{
    let size = start.frame_size as int;
    let waiting = start.pending_frames as int;
    let k1 = start.completed(n) as int;
    let k2 = mid.completed(m) as int;
    let carried = mid.pending_frames as int;
    let input2 = join(input, window(block, 0, m as int));
    let s1 = start.stream(input, n);
    let s2 = start.stream(input2, n + m);
    let ms = mid.stream(block, m);
    let base = k1 * size;
    lemma_split_frames(start.pending_frames, n, m, start.frame_size);
    lemma_fundamental_div_mod(waiting + n, size);
    lemma_fundamental_div_mod(carried + m, size);
    lemma_mod_pos_bound(carried + m, size);
    assert(base + carried == waiting + n) by (nonlinear_arith)
        requires
            waiting + n == size * k1 + carried,
            base == k1 * size,
    ;
    assert(0 <= base) by (nonlinear_arith)
        requires
            base == k1 * size,
            0 <= k1,
            0 <= size,
    ;
    assert((k1 + k2) * size == base + k2 * size) by (nonlinear_arith)
        requires
            base == k1 * size,
    ;
    assert(k2 * size <= carried + m && 0 <= k2 * size) by (nonlinear_arith)
        requires
            carried + m == size * k2 + (carried + m) % size,
            0 <= (carried + m) % size,
            0 <= k2,
            0 <= size,
    ;
    assert(is_block(input2, start.in_channels(), n + m)) by {
        assert forall|c: int| 0 <= c < input2.len() implies (#[trigger] input2[c]).len() == n + m by {
            assert(input[c].len() == n);
            assert(block[c].len() >= m);
        }
    }
    assert forall|c: int| 0 <= c < start.in_channels() implies (#[trigger] ms[c]) == s2[c].subrange(
        base,
        waiting + n + m,
    ) && s1[c] == s2[c].subrange(0, waiting + n) && s2[c].len() == waiting + n + m by {
        assert(start.pending[c].len() == waiting);
        assert(input[c].len() == n);
        assert(block[c].len() >= m);
        assert(input2[c].len() == n + m);
        assert(s1[c] =~= start.pending[c] + input[c]);
        assert(s2[c] =~= start.pending[c] + input[c] + block[c].subrange(0, m as int));
        assert(mid.pending[c] == s1[c].subrange(base, waiting + n));
        assert(ms[c] =~= s2[c].subrange(base, waiting + n + m));
        assert(s1[c] =~= s2[c].subrange(0, waiting + n));
    }
    assert(ms.len() == start.in_channels());
    assert(s2.len() == start.in_channels());
    assert(s1.len() == start.in_channels());
    assert(window(ms, k2 * size, carried + m) =~~= window(s2, (k1 + k2) * size, waiting + n + m)) by {
        assert forall|c: int| 0 <= c < start.in_channels() implies #[trigger] window(ms, k2 * size, carried + m)[c]
            == window(s2, (k1 + k2) * size, waiting + n + m)[c] by {
            assert(ms[c] == s2[c].subrange(base, waiting + n + m));
            assert(ms[c].subrange(k2 * size, carried + m) =~= s2[c].subrange(base + k2 * size, waiting + n + m));
        }
    }
    assert forall|j: int| 0 <= j < mid.completed(m) implies #[trigger] mid.input_frame(block, m, j)
        == start.input_frame(input2, n + m, start.completed(n) + j) by {
        assert((k1 + j) * size == base + j * size) by (nonlinear_arith)
            requires
                base == k1 * size,
        ;
        assert((k1 + j + 1) * size == base + (j + 1) * size) by (nonlinear_arith)
            requires
                base == k1 * size,
        ;
        assert(0 <= j * size <= (j + 1) * size <= k2 * size) by (nonlinear_arith)
            requires
                0 <= j < k2,
                0 <= size,
        ;
        assert(window(ms, j * size, (j + 1) * size) =~~= window(s2, (k1 + j) * size, (k1 + j + 1) * size))
            by {
            assert forall|c: int| 0 <= c < start.in_channels() implies #[trigger] window(
                ms,
                j * size,
                (j + 1) * size,
            )[c] == window(s2, (k1 + j) * size, (k1 + j + 1) * size)[c] by {
                assert(ms[c] == s2[c].subrange(base, waiting + n + m));
                assert(ms[c].subrange(j * size, (j + 1) * size) =~= s2[c].subrange(
                    base + j * size,
                    base + (j + 1) * size,
                ));
            }
        }
    }
    assert forall|j: int| 0 <= j < start.completed(n) implies #[trigger] start.input_frame(input, n, j)
        == start.input_frame(input2, n + m, j) by {
        assert(0 <= j * size <= (j + 1) * size <= base) by (nonlinear_arith)
            requires
                0 <= j < k1,
                0 <= size,
                base == k1 * size,
        ;
        assert(window(s1, j * size, (j + 1) * size) =~~= window(s2, j * size, (j + 1) * size)) by {
            assert forall|c: int| 0 <= c < start.in_channels() implies #[trigger] window(
                s1,
                j * size,
                (j + 1) * size,
            )[c] == window(s2, j * size, (j + 1) * size)[c] by {
                assert(s1[c] == s2[c].subrange(0, waiting + n));
                assert(s1[c].subrange(j * size, (j + 1) * size) =~= s2[c].subrange(
                    j * size,
                    (j + 1) * size,
                ));
            }
        }
    }
}

/// A call that a consistent state admits leaves a consistent state with the
/// same frame size, largest block and channels, and before the release the
/// queue is longer by the frames that completed.
pub proof fn lemma_call_keeps_wf<T>(state: BlockState<T>, call: Call<T>)
    requires
        state.wf(),
        state.admits(call),
    ensures
        state.after(call).wf(),
        state.after(call).frame_size == state.frame_size,
        state.after(call).max_block_frames == state.max_block_frames,
        state.after(call).in_channels() == state.in_channels(),
        state.after(call).out_channels() == state.out_channels(),
        state.after(call).pending_frames == (state.pending_frames + call.frames) % state.frame_size,
        is_block(
            state.fed(call.block, call.frames, call.outs).queued,
            state.out_channels(),
            state.queued_frames() + state.completed(call.frames) * state.frame_size,
        ),
        state.fed(call.block, call.frames, call.outs).queued_frames() == if state.out_channels() == 0 {
            0
        } else {
            state.queued_frames() + state.completed(call.frames) * state.frame_size
        },
        is_block(
            state.yields(call),
            state.out_channels(),
            if state.answers(call) {
                call.requested
            } else {
                0
            },
        ),
        join(state.yields(call), state.after(call).queued) == state.fed(
            call.block,
            call.frames,
            call.outs,
        ).queued,
{
    let size = state.frame_size as int;
    let total = (state.pending_frames + call.frames) as int;
    let k = state.completed(call.frames) as int;
    let fed = state.fed(call.block, call.frames, call.outs);
    let end = state.after(call);
    let channels = state.out_channels();
    let added = join_all(call.outs, channels);
    lemma_fundamental_div_mod(total, size);
    lemma_mod_pos_bound(total, size);
    lemma_div_pos_is_pos(total, size);
    assert(k * size + total % size == total && 0 <= k * size) by (nonlinear_arith)
        requires
            total == size * k + total % size,
            0 <= k,
            0 <= size,
    ;
    lemma_join_all_is_block(call.outs, channels, state.frame_size);
    assert(call.outs.len() * state.frame_size == k * size);
    lemma_join_is_block(state.queued, added, channels, state.queued_frames(), (k * size) as nat);
    assert(is_block(fed.queued, channels, (state.queued_frames() + k * size) as nat));
    if channels > 0 {
        assert(fed.queued[0].len() == state.queued_frames() + k * size);
    }
    assert(is_block(fed.pending, state.in_channels(), fed.pending_frames)) by {
        assert forall|c: int| 0 <= c < fed.pending.len() implies (#[trigger] fed.pending[c]).len()
            == fed.pending_frames by {
            assert(state.pending[c].len() == state.pending_frames);
            assert(call.block[c].len() >= call.frames);
            assert(state.stream(call.block, call.frames)[c].len() == total);
        }
    }
    assert(fed.wf());
    let queued = fed.queued_frames();
    if fed.serves(call.requested) {
        assert(is_block(end.queued, channels, (queued - call.requested) as nat)) by {
            assert forall|c: int| 0 <= c < end.queued.len() implies (#[trigger] end.queued[c]).len() == queued
                - call.requested by {
                assert(fed.queued[c].len() == queued);
            }
        }
        assert(end.queued[0].len() == queued - call.requested);
        assert(is_block(state.yields(call), channels, call.requested)) by {
            assert forall|c: int| 0 <= c < state.yields(call).len() implies (#[trigger] state.yields(
                call,
            )[c]).len() == call.requested by {
                assert(fed.queued[c].len() == queued);
            }
        }
        assert(join(state.yields(call), end.queued) =~~= fed.queued) by {
            assert forall|c: int| 0 <= c < channels implies #[trigger] join(state.yields(call), end.queued)[c]
                == fed.queued[c] by {
                assert(fed.queued[c].len() == queued);
                assert(fed.queued[c].subrange(0, call.requested as int) + fed.queued[c].subrange(
                    call.requested as int,
                    queued as int,
                ) =~= fed.queued[c]);
            }
        }
    } else {
        assert(end.queued == fed.queued);
        assert(join(state.yields(call), end.queued) =~~= fed.queued) by {
            assert forall|c: int| 0 <= c < channels implies #[trigger] join(state.yields(call), end.queued)[c]
                == fed.queued[c] by {
                assert(Seq::<T>::empty() + fed.queued[c] =~= fed.queued[c]);
            }
        }
    }
}

/// Frame reassembly: however a stream is cut into blocks and however its
/// output is asked for, the effect is given exactly the frames of the uncut
/// stream, the input that waits is the end of the uncut stream, and what was
/// released followed by what is still queued is what the effect handed back,
/// in order.
pub proof fn lemma_reassembly<T>(start: BlockState<T>, calls: Seq<Call<T>>)
    requires
        start.wf(),
        admissible(start, calls),
    ensures
        replay(start, calls).wf(),
        replay(start, calls).frame_size == start.frame_size,
        replay(start, calls).max_block_frames == start.max_block_frames,
        replay(start, calls).in_channels() == start.in_channels(),
        replay(start, calls).out_channels() == start.out_channels(),
        is_block(input_total(calls, start.in_channels()), start.in_channels(), frames_total(calls)),
        outs_total(calls).len() == start.completed(frames_total(calls)),
        forall|j: int|
            0 <= j < outs_total(calls).len() ==> is_block(
                #[trigger] outs_total(calls)[j],
                start.out_channels(),
                start.frame_size,
            ),
        frames_fed(start, calls) == Seq::new(
            start.completed(frames_total(calls)),
            |j: int| start.input_frame(input_total(calls, start.in_channels()), frames_total(calls), j),
        ),
        replay(start, calls).pending_frames == start.fed(
            input_total(calls, start.in_channels()),
            frames_total(calls),
            outs_total(calls),
        ).pending_frames,
        replay(start, calls).pending == start.fed(
            input_total(calls, start.in_channels()),
            frames_total(calls),
            outs_total(calls),
        ).pending,
        is_block(released_total(start, calls), start.out_channels(), released_frames(start, calls)),
        join(released_total(start, calls), replay(start, calls).queued) == start.fed(
            input_total(calls, start.in_channels()),
            frames_total(calls),
            outs_total(calls),
        ).queued,
    decreases calls.len(),
{
    let in_channels = start.in_channels();
    let out_channels = start.out_channels();
    let size = start.frame_size as int;
    let waiting = start.pending_frames as int;
    if calls.len() == 0 {
        let input = empty_block::<T>(in_channels);
        let whole = start.fed(input, 0, Seq::empty());
        lemma_small_mod(start.pending_frames, start.frame_size);
        lemma_basic_div(waiting, size);
        assert(start.completed(0) == 0);
        assert(0 * size == 0);
        assert(whole.pending =~~= start.pending) by {
            assert forall|c: int| 0 <= c < in_channels implies (#[trigger] whole.pending[c]) == start.pending[c] by {
                assert(start.pending[c].len() == start.pending_frames);
                assert(start.stream(input, 0)[c] =~= start.pending[c]);
                assert(start.stream(input, 0)[c].subrange(0, waiting) =~= start.pending[c]);
            }
        }
        assert(join_all(Seq::<Seq<Seq<T>>>::empty(), out_channels) == empty_block::<T>(out_channels));
        assert(join(empty_block::<T>(out_channels), start.queued) =~~= whole.queued) by {
            assert forall|c: int| 0 <= c < out_channels implies #[trigger] join(
                empty_block::<T>(out_channels),
                start.queued,
            )[c] == whole.queued[c] by {
                assert(Seq::<T>::empty() + start.queued[c] =~= start.queued[c] + Seq::<T>::empty());
            }
        }
        assert(frames_fed(start, calls) =~= Seq::new(
            start.completed(0),
            |j: int| start.input_frame(input, 0, j),
        ));
    } else {
        let before = calls.drop_last();
        let call = calls.last();
        let mid = replay(start, before);
        let input1 = input_total(before, in_channels);
        let n = frames_total(before);
        let outs1 = outs_total(before);
        let m = call.frames;
        let input2 = input_total(calls, in_channels);
        let outs2 = outs_total(calls);
        lemma_reassembly(start, before);
        lemma_call_keeps_wf(mid, call);
        lemma_feed_continues(start, input1, n, mid, call.block, m);
        let end = replay(start, calls);
        let whole = start.fed(input2, n + m, outs2);
        assert(end == mid.after(call));
        assert(input2 == join(input1, window(call.block, 0, m as int)));
        // the frames
        assert forall|j: int| 0 <= j < outs2.len() implies is_block(
            #[trigger] outs2[j],
            out_channels,
            start.frame_size,
        ) by {
            if j < outs1.len() {
                assert(outs2[j] == outs1[j]);
            } else {
                assert(outs2[j] == call.outs[j - outs1.len()]);
            }
        }
        assert(frames_fed(start, calls) =~= Seq::new(
            start.completed(n + m),
            |j: int| start.input_frame(input2, n + m, j),
        )) by {
            let first = frames_fed(start, before);
            let second = mid.hands_over(call);
            assert forall|j: int| 0 <= j < start.completed(n + m) implies (first + second)[j]
                == start.input_frame(input2, n + m, j) by {
                if j < start.completed(n) {
                    assert(first[j] == start.input_frame(input1, n, j));
                } else {
                    let i = j - start.completed(n);
                    assert(second[i] == mid.input_frame(call.block, m, i));
                }
            }
        }
        // the waiting input
        assert(end.pending == whole.pending);
        // the queue
        let released1 = released_total(start, before);
        let given = mid.yields(call);
        let added = join_all(call.outs, out_channels);
        let fed = mid.fed(call.block, m, call.outs);
        lemma_join_all_channels(outs1, out_channels);
        lemma_join_all_channels(call.outs, out_channels);
        lemma_join_all_concat(outs1, call.outs, out_channels);
        lemma_join_assoc(released1, given, end.queued);
        lemma_join_assoc(released1, mid.queued, added);
        lemma_join_assoc(start.queued, join_all(outs1, out_channels), added);
        lemma_join_is_block(
            released1,
            given,
            out_channels,
            released_frames(start, before),
            if mid.answers(call) {
                call.requested
            } else {
                0
            },
        );
    }
}

/// Whether every one of `calls` brings as many samples as it asks for, and
/// no more than the largest block.
pub open spec fn balanced<T>(calls: Seq<Call<T>>, max_block_frames: nat) -> bool {
    forall|t: int|
        0 <= t < calls.len() ==> (#[trigger] calls[t]).frames == calls[t].requested && calls[t].frames
            <= max_block_frames
}

/// One balanced call in a steady state is served, leaves a steady state and
/// keeps the backlog as it was.
pub proof fn lemma_steady_step<T>(state: BlockState<T>, call: Call<T>)
    requires
        state.steady(),
        state.admits(call),
        call.frames == call.requested,
        call.frames <= state.max_block_frames,
    ensures
        state.answers(call),
        state.after(call).steady(),
        state.after(call).backlog() == state.backlog(),
{
    let size = state.frame_size as int;
    let total = (state.pending_frames + call.frames) as int;
    let k = state.completed(call.frames) as int;
    lemma_call_keeps_wf(state, call);
    lemma_fundamental_div_mod(total, size);
    lemma_mod_pos_bound(total, size);
    assert(k * size + total % size == total) by (nonlinear_arith)
        requires
            total == size * k + total % size,
    ;
    let fed = state.fed(call.block, call.frames, call.outs);
    assert(fed.queued_frames() == state.queued_frames() + k * size);
    assert(fed.serves(call.requested));
    let end = state.after(call);
    assert(end.queued[0] == fed.queued[0].subrange(call.requested as int, fed.queued_frames() as int));
    assert(fed.queued[0].len() == fed.queued_frames());
}

/// No growth in a steady state: any number of balanced calls from a steady
/// state are all served, release as much as came in, and leave a steady
/// state, in which the output queue never outgrew its reserve.
pub proof fn lemma_steady_forever<T>(start: BlockState<T>, calls: Seq<Call<T>>)
    requires
        start.steady(),
        admissible(start, calls),
        balanced(calls, start.max_block_frames),
    ensures
        replay(start, calls).steady(),
        replay(start, calls).backlog() == start.backlog(),
        !replay(start, calls).outgrown(),
        released_frames(start, calls) == frames_total(calls),
    decreases calls.len(),
{
    if calls.len() > 0 {
        let before = calls.drop_last();
        assert forall|t: int| 0 <= t < before.len() implies (#[trigger] before[t]).frames
            == before[t].requested && before[t].frames <= start.max_block_frames by {
            assert(before[t] == calls[t]);
        }
        lemma_steady_forever(start, before);
        lemma_reassembly(start, before);
        assert(calls.last() == calls[calls.len() - 1]);
        lemma_steady_step(replay(start, before), calls.last());
    }
}

} // verus!
