//! The fixed frame accumulator.
//!
//! An audio callback hands over blocks of whatever length the engine chose;
//! the spatial effects work on frames of one fixed length. A
//! [`FixedProcessBlock`] stands between the two: it collects incoming samples
//! until a frame is complete, runs the frame through the effect, queues what
//! comes out, and releases queued samples in the block length that the engine
//! asks for.

use crate::channels::{
    append_all, channels_of, clear_all, constant_block, covers, drain_front, empty_block, fill_all,
    frames_of, is_block, join, join_all, lemma_join_all_push, lemma_join_is_block, overwrite_front,
    push_column, reserve_all, reset_all, window,
};
use crate::reassembly::{lemma_steady_step, Call};
use vstd::arithmetic::div_mod::lemma_fundamental_div_mod_converse;
use vstd::prelude::*;

verus! {

/// What a call of [`FixedProcessBlock::process`] did to the caller's output
/// buffers.
#[derive(Clone, Copy, Debug, PartialEq, Eq, Structural)]
pub enum ProcessStatus {
    /// Nothing was written: the caller treats all outputs as silence.
    ClearAllOutputs,
    /// The requested samples were written to every output channel.
    OutputsModified,
}

/// The mathematical state of an accumulator.
#[verifier::ext_equal]
pub struct BlockState<T> {
    /// Samples per channel in one frame.
    pub frame_size: nat,
    /// The largest block the engine hands over or asks for.
    pub max_block_frames: nat,
    /// Samples per channel that wait for their frame to fill up.
    pub pending_frames: nat,
    /// The waiting input, `pending_frames` samples in each input channel.
    pub pending: Seq<Seq<T>>,
    /// Processed output that has not been released yet.
    pub queued: Seq<Seq<T>>,
    /// Whether output has been released before.
    pub started: bool,
    /// The longest that the output queue has been.
    pub peak: nat,
}

impl<T> BlockState<T> {
    /// The number of input channels.
    pub open spec fn in_channels(self) -> nat {
        self.pending.len()
    }

    /// The number of output channels.
    pub open spec fn out_channels(self) -> nat {
        self.queued.len()
    }

    /// Samples per channel in the output queue.
    pub open spec fn queued_frames(self) -> nat {
        frames_of(self.queued)
    }

    /// Samples per channel that are inside the accumulator, waiting or queued.
    pub open spec fn backlog(self) -> nat {
        self.pending_frames + self.queued_frames()
    }

    /// Samples per channel that the output queue has room for without growing.
    pub open spec fn reserve(self) -> nat {
        2 * self.max_block_frames
    }

    /// Whether the output queue ever outgrew its reserve.
    pub open spec fn outgrown(self) -> bool {
        self.peak > self.reserve()
    }

    /// The state is consistent: a frame holds at least one sample, less
    /// than a frame waits, every channel holds as much as the others, and
    /// the peak is no less than what is queued.
    pub open spec fn wf(self) -> bool {
        &&& self.frame_size > 0
        &&& self.pending_frames < self.frame_size
        &&& is_block(self.pending, self.in_channels(), self.pending_frames)
        &&& is_block(self.queued, self.out_channels(), self.queued_frames())
        &&& self.queued_frames() <= self.peak
    }

    /// The state of a new accumulator.
    pub open spec fn initial(
        frame_size: nat,
        max_block_frames: nat,
        in_channels: nat,
        out_channels: nat,
    ) -> Self {
        BlockState {
            frame_size,
            max_block_frames,
            pending_frames: 0,
            pending: empty_block(in_channels),
            queued: empty_block(out_channels),
            started: false,
            peak: 0,
        }
    }

    /// The waiting input followed by the first `n` samples of `block`.
    pub open spec fn stream(self, block: Seq<Seq<T>>, n: nat) -> Seq<Seq<T>> {
        join(self.pending, window(block, 0, n as int))
    }

    /// Frames that complete while `n` more samples come in.
    pub open spec fn completed(self, n: nat) -> nat {
        (self.pending_frames + n) / self.frame_size
    }

    /// The `j`-th frame that completes while the first `n` samples of `block`
    /// come in.
    pub open spec fn input_frame(self, block: Seq<Seq<T>>, n: nat, j: int) -> Seq<Seq<T>> {
        window(self.stream(block, n), j * self.frame_size, (j + 1) * self.frame_size)
    }

    /// The state after the first `n` samples of `block` came in and the
    /// effect turned the completed frames into `outs`.
    pub open spec fn fed(self, block: Seq<Seq<T>>, n: nat, outs: Seq<Seq<Seq<T>>>) -> Self {
        let total = self.pending_frames + n;
        let queued = join(self.queued, join_all(outs, self.out_channels()));
        BlockState {
            pending_frames: (total % self.frame_size) as nat,
            pending: window(
                self.stream(block, n),
                (self.completed(n) * self.frame_size) as int,
                total as int,
            ),
            queued,
            peak: if frames_of(queued) > self.peak {
                frames_of(queued)
            } else {
                self.peak
            },
            ..self
        }
    }

    /// Whether output may be released: it has been before, or the queue has
    /// reached one and a half times the largest block.
    pub open spec fn primed(self) -> bool {
        self.started || 2 * self.queued_frames() >= 3 * self.max_block_frames
    }

    /// Whether a request for `requested` samples per channel is served.
    pub open spec fn serves(self, requested: nat) -> bool {
        self.out_channels() > 0 && self.primed() && self.queued_frames() >= requested
    }

    /// The state after a request for `requested` samples per channel.
    pub open spec fn released(self, requested: nat) -> Self {
        BlockState {
            started: self.primed(),
            queued: if self.serves(requested) {
                window(self.queued, requested as int, self.queued_frames() as int)
            } else {
                self.queued
            },
            ..self
        }
    }

    /// The state after the frame size and the largest block changed. Queued
    /// output stays. Waiting input stays where it leaves the new frame
    /// incomplete, and is dropped where it would not.
    pub open spec fn resized(self, frame_size: nat, max_block_frames: nat) -> Self {
        let keeps = self.pending_frames < frame_size;
        BlockState {
            frame_size,
            max_block_frames,
            pending_frames: if keeps {
                self.pending_frames
            } else {
                0
            },
            pending: if keeps {
                self.pending
            } else {
                empty_block(self.in_channels())
            },
            peak: self.queued_frames(),
            ..self
        }
    }

    /// A primed state from which equal input and output blocks can go on for
    /// ever: every request is served and the queue stays inside its reserve.
    pub open spec fn steady(self) -> bool {
        &&& self.wf()
        &&& self.started
        &&& self.out_channels() > 0
        &&& self.frame_size <= self.backlog() + 1
        &&& self.backlog() + self.max_block_frames <= self.reserve()
        &&& self.peak <= self.reserve()
    }
}

/// `after` is what the effect `f` may hand back for the frame `input` when
/// it is given output buffers that hold `before`.
pub open spec fn frame_processed<T, F: FnMut(&Vec<Vec<T>>, Vec<Vec<T>>) -> Vec<Vec<T>>>(
    f: F,
    input: Seq<Seq<T>>,
    before: Seq<Seq<T>>,
    after: Seq<Seq<T>>,
) -> bool {
    exists|i: &Vec<Vec<T>>, o: Vec<Vec<T>>, r: Vec<Vec<T>>|
        channels_of(*i) == input && channels_of(o) == before && channels_of(r) == after
            && #[trigger] call_ensures(f, (i, o), r)
}

/// The effect `f` accepts every frame of `in_channels` x `frame_size` samples
/// together with silent output buffers of `out_channels` x `frame_size`
/// samples, and hands output buffers of that shape back.
pub open spec fn effect_fits<T, F: FnMut(&Vec<Vec<T>>, Vec<Vec<T>>) -> Vec<Vec<T>>>(
    f: F,
    silence: T,
    in_channels: nat,
    out_channels: nat,
    frame_size: nat,
) -> bool {
    &&& forall|i: &Vec<Vec<T>>, o: Vec<Vec<T>>|
        is_block(channels_of(*i), in_channels, frame_size) && channels_of(o) == constant_block(
            silence,
            out_channels,
            frame_size,
        ) ==> #[trigger] call_requires(f, (i, o))
    &&& forall|i: &Vec<Vec<T>>, o: Vec<Vec<T>>, r: Vec<Vec<T>>|
        is_block(channels_of(*i), in_channels, frame_size) && channels_of(o) == constant_block(
            silence,
            out_channels,
            frame_size,
        ) && #[trigger] call_ensures(f, (i, o), r) ==> is_block(
            channels_of(r),
            out_channels,
            frame_size,
        )
}

/// Whether `outs` are frames that the effect `f` may produce, one for each
/// frame that completes while the first `n` samples of `block` come in.
pub open spec fn effect_produced<T, F: FnMut(&Vec<Vec<T>>, Vec<Vec<T>>) -> Vec<Vec<T>>>(
    f: F,
    silence: T,
    state: BlockState<T>,
    block: Seq<Seq<T>>,
    n: nat,
    outs: Seq<Seq<Seq<T>>>,
) -> bool {
    &&& outs.len() == state.completed(n)
    &&& forall|j: int|
        0 <= j < outs.len() ==> is_block(#[trigger] outs[j], state.out_channels(), state.frame_size)
            && frame_processed(
            f,
            state.input_frame(block, n, j),
            constant_block(silence, state.out_channels(), state.frame_size),
            outs[j],
        )
}

/// Whether a call that found `state`, took the first `n` samples of `block`
/// and a request for `requested` samples, and got `outs` from the effect,
/// ends in `after`, returns `status` and turns the caller's output buffers
/// from `out_before` into `out_after`.
pub open spec fn process_outcome<T>(
    state: BlockState<T>,
    block: Seq<Seq<T>>,
    n: nat,
    requested: nat,
    outs: Seq<Seq<Seq<T>>>,
    after: BlockState<T>,
    status: ProcessStatus,
    out_before: Seq<Seq<T>>,
    out_after: Seq<Seq<T>>,
) -> bool {
    let fed = state.fed(block, n, outs);
    &&& after == fed.released(requested)
    &&& status == if fed.serves(requested) {
        ProcessStatus::OutputsModified
    } else {
        ProcessStatus::ClearAllOutputs
    }
    &&& out_after == if fed.serves(requested) {
        overwrite_front(out_before, fed.queued, requested as int)
    } else {
        out_before
    }
}

/// Collects samples into frames of a fixed size, runs each complete frame
/// through an effect and queues the result for release in blocks of any size.
pub struct FixedProcessBlock<T> {
    frame_size: usize,
    max_block_frames: usize,
    silence: T,
    fill: usize,
    inputs: Vec<Vec<T>>,
    scratch: Vec<Vec<T>>,
    outputs: Vec<Vec<T>>,
    started_draining: bool,
    peak: usize,
}

impl<T: Copy> View for FixedProcessBlock<T> {
    type V = BlockState<T>;

    closed spec fn view(&self) -> BlockState<T> {
        BlockState {
            frame_size: self.frame_size as nat,
            max_block_frames: self.max_block_frames as nat,
            pending_frames: self.fill as nat,
            pending: channels_of(self.inputs),
            queued: channels_of(self.outputs),
            started: self.started_draining,
            peak: self.peak as nat,
        }
    }
}

impl<T: Copy> FixedProcessBlock<T> {
    /// The sample that stands for silence.
    pub closed spec fn silence(&self) -> T {
        self.silence
    }

    /// The accumulator is consistent: its state is, and its scratch buffers
    /// have the shape of one output frame.
    pub closed spec fn wf(&self) -> bool {
        &&& self@.wf()
        &&& is_block(channels_of(self.scratch), self.outputs@.len() as nat, self.frame_size as nat)
    }

    /// An empty accumulator for frames of `fixed_block_size` samples, for an
    /// engine whose blocks hold at most `max_output_size` samples.
    pub fn new(
        fixed_block_size: usize,
        max_output_size: usize,
        input_channels: usize,
        output_channels: usize,
        silence: T,
    ) -> (block: Self)
        requires
            fixed_block_size > 0,
        ensures
            block.wf(),
            block.silence() == silence,
            block@ == BlockState::<T>::initial(
                fixed_block_size as nat,
                max_output_size as nat,
                input_channels as nat,
                output_channels as nat,
            ),
    {
        let reserve = if max_output_size <= usize::MAX / 2 {
            2 * max_output_size
        } else {
            usize::MAX
        };
        let mut inputs: Vec<Vec<T>> = Vec::with_capacity(input_channels);
        let mut c: usize = 0;
        while c < input_channels
            invariant
                c <= input_channels,
                inputs@.len() == c,
                forall|d: int| 0 <= d < c ==> (#[trigger] inputs@[d])@.len() == 0,
            decreases input_channels - c,
        {
            inputs.push(Vec::with_capacity(fixed_block_size));
            c += 1;
        }
        let mut scratch: Vec<Vec<T>> = Vec::with_capacity(output_channels);
        let mut outputs: Vec<Vec<T>> = Vec::with_capacity(output_channels);
        let mut c: usize = 0;
        while c < output_channels
            invariant
                c <= output_channels,
                outputs@.len() == c,
                scratch@.len() == c,
                forall|d: int| 0 <= d < c ==> (#[trigger] outputs@[d])@.len() == 0,
                forall|d: int| 0 <= d < c ==> (#[trigger] scratch@[d])@.len() == fixed_block_size,
            decreases output_channels - c,
        {
            outputs.push(Vec::with_capacity(reserve));
            scratch.push(silent_channel(fixed_block_size, silence));
            c += 1;
        }
        let block = FixedProcessBlock {
            frame_size: fixed_block_size,
            max_block_frames: max_output_size,
            silence,
            fill: 0,
            inputs,
            scratch,
            outputs,
            started_draining: false,
            peak: 0,
        };
        proof {
            assert(block@.pending =~~= empty_block::<T>(input_channels as nat));
            assert(block@.queued =~~= empty_block::<T>(output_channels as nat));
        }
        block
    }

    /// Samples per channel in one frame.
    pub fn frame_size(&self) -> (size: usize)
        ensures
            size == self@.frame_size,
    {
        self.frame_size
    }

    /// The largest block that the engine hands over or asks for.
    pub fn max_block_frames(&self) -> (frames: usize)
        ensures
            frames == self@.max_block_frames,
    {
        self.max_block_frames
    }

    /// The number of input channels.
    pub fn input_channels(&self) -> (channels: usize)
        ensures
            channels == self@.in_channels(),
    {
        self.inputs.len()
    }

    /// The number of output channels.
    pub fn output_channels(&self) -> (channels: usize)
        ensures
            channels == self@.out_channels(),
    {
        self.outputs.len()
    }

    /// Whether a stream with these parameters needs other buffers and
    /// effects than the ones in use: it does unless the sample rate and the
    /// largest block are what they were.
    pub fn stream_changed(&self, sample_rate: u32, prev_sample_rate: u32, max_block_frames: usize) -> (changed:
        bool)
        ensures
            changed == (sample_rate != prev_sample_rate || max_block_frames != self@.max_block_frames),
    {
        sample_rate != prev_sample_rate || max_block_frames != self.max_block_frames
    }

    /// Whether no input waits for its frame to fill up.
    pub fn inputs_clear(&self) -> (clear: bool)
        ensures
            clear == (self@.pending_frames == 0),
    {
        self.fill == 0
    }

    /// Samples per channel in the output queue.
    pub fn queued_frames(&self) -> (frames: usize)
        ensures
            frames == self@.queued_frames(),
    {
        if self.outputs.len() == 0 {
            0
        } else {
            self.outputs[0].len()
        }
    }

    /// Whether output has been released before.
    pub fn started_draining(&self) -> (started: bool)
        ensures
            started == self@.started,
    {
        self.started_draining
    }

    /// Samples per channel that are inside the accumulator, waiting or
    /// queued.
    pub fn backlog(&self) -> (backlog: u128)
        ensures
            backlog == self@.backlog(),
    {
        let queued = self.queued_frames();
        self.fill as u128 + queued as u128
    }

    /// Whether the accumulator is in a steady state: it has released output
    /// before, its backlog is at most one sample short of a frame, and the
    /// backlog and one more block of the largest size fit into the reserve,
    /// which the queue has never outgrown.
    pub fn is_steady(&self) -> (steady: bool)
        requires
            self.wf(),
        ensures
            steady == self@.steady(),
    {
        let backlog = self.backlog();
        let reserve = 2 * (self.max_block_frames as u128);
        self.started_draining && self.outputs.len() > 0 && self.frame_size as u128 <= backlog + 1
            && backlog + self.max_block_frames as u128 <= reserve && self.peak as u128 <= reserve
    }

    /// Whether the output queue ever grew beyond the room reserved for it,
    /// which breaks the promise that a running stream allocates nothing.
    pub fn outgrew_reserve(&self) -> (outgrown: bool)
        ensures
            outgrown == self@.outgrown(),
    {
        self.max_block_frames <= usize::MAX / 2 && self.peak > 2 * self.max_block_frames
    }

    /// Adapts the buffers to frames of `fixed_block_size` samples and to an
    /// engine whose blocks hold at most `max_output_size` samples. What is
    /// queued is kept, sample for sample.
    pub fn resize(&mut self, fixed_block_size: usize, max_output_size: usize)
        requires
            old(self).wf(),
            fixed_block_size > 0,
        ensures
            final(self).wf(),
            final(self).silence() == old(self).silence(),
            final(self)@ == old(self)@.resized(fixed_block_size as nat, max_output_size as nat),
    {
        let reserve = if max_output_size <= usize::MAX / 2 {
            2 * max_output_size
        } else {
            usize::MAX
        };
        reserve_all(&mut self.outputs, reserve);
        if fixed_block_size != self.frame_size {
            reset_all(&mut self.scratch, fixed_block_size, self.silence);
            if self.fill < fixed_block_size {
                reserve_all(&mut self.inputs, fixed_block_size);
            } else {
                clear_all(&mut self.inputs);
                self.fill = 0;
            }
            self.frame_size = fixed_block_size;
        }
        self.max_block_frames = max_output_size;
        self.peak = self.queued_frames();
        proof {
            let target = old(self)@.resized(fixed_block_size as nat, max_output_size as nat);
            assert(self@.pending =~~= target.pending);
            assert(self@ =~= target);
        }
    }

    /// Drops the waiting input and the queued output.
    pub fn clear(&mut self)
        requires
            old(self).wf(),
        ensures
            final(self).wf(),
            final(self).silence() == old(self).silence(),
            final(self)@ == (BlockState {
                pending_frames: 0,
                pending: empty_block(old(self)@.in_channels()),
                queued: empty_block(old(self)@.out_channels()),
                ..old(self)@
            }),
    {
        clear_all(&mut self.inputs);
        clear_all(&mut self.outputs);
        self.fill = 0;
        proof {
            assert(self@.pending =~~= empty_block::<T>(old(self)@.in_channels()));
            assert(self@.queued =~~= empty_block::<T>(old(self)@.out_channels()));
        }
    }
}

impl<T: Copy> FixedProcessBlock<T> {
    /// Takes the first `frames` samples of every channel of `inputs`, runs
    /// every frame that completes through `process_fn` and queues what it
    /// hands back.
    fn absorb<F>(&mut self, inputs: &Vec<Vec<T>>, frames: usize, process_fn: &mut F) -> (outs: Ghost<
        Seq<Seq<Seq<T>>>,
    >) where F: FnMut(&Vec<Vec<T>>, Vec<Vec<T>>) -> Vec<Vec<T>>
        requires
            old(self).wf(),
            covers(channels_of(*inputs), old(self)@.in_channels(), frames as nat),
            effect_fits(
                *old(process_fn),
                old(self).silence(),
                old(self)@.in_channels(),
                old(self)@.out_channels(),
                old(self)@.frame_size,
            ),
        ensures
            final(self).wf(),
            final(self).silence() == old(self).silence(),
            effect_produced(
                *old(process_fn),
                old(self).silence(),
                old(self)@,
                channels_of(*inputs),
                frames as nat,
                outs@,
            ),
            final(self)@ == old(self)@.fed(channels_of(*inputs), frames as nat, outs@),
    {
        let ghost start = self@;
        let ghost block = channels_of(*inputs);
        let ghost stream = start.stream(block, frames as nat);
        let ghost effect = *process_fn;
        let ghost quiet = self.silence;
        let ghost silent = constant_block(self.silence, start.out_channels(), start.frame_size);
        let ghost mut outs: Seq<Seq<Seq<T>>> = Seq::empty();
        let ghost size = start.frame_size as int;
        let ghost mut k: int = 0;
        proof {
            assert(channels_of(self.inputs) =~~= window(stream, 0, self.fill as int)) by {
                assert forall|c: int| 0 <= c < start.pending.len() implies (#[trigger] start.pending[c])
                    == stream[c].subrange(0, self.fill as int) by {
                    assert(start.pending[c].len() == self.fill);
                    assert(stream[c].subrange(0, self.fill as int) =~= start.pending[c]);
                }
            }
            assert(join_all(outs, start.out_channels()) == empty_block::<T>(start.out_channels()));
            assert(channels_of(self.outputs) =~~= join(start.queued, join_all(outs, start.out_channels())))
                by {
                assert forall|c: int| 0 <= c < start.queued.len() implies (#[trigger] start.queued[c])
                    == start.queued[c] + Seq::<T>::empty() by {
                    assert(start.queued[c] + Seq::<T>::empty() =~= start.queued[c]);
                }
            }
        }
        let mut i: usize = 0;
        while i < frames
            invariant
                i <= frames,
                start.wf(),
                self.silence == quiet,
                size == start.frame_size,
                0 <= k,
                block == channels_of(*inputs),
                stream == start.stream(block, frames as nat),
                silent == constant_block(self.silence, start.out_channels(), start.frame_size),
                covers(block, start.in_channels(), frames as nat),
                *process_fn == effect,
                effect_fits(effect, self.silence, start.in_channels(), start.out_channels(), start.frame_size),
                self.frame_size == start.frame_size,
                self.max_block_frames == start.max_block_frames,
                self.started_draining == start.started,
                self.peak == start.peak,
                self.fill < self.frame_size,
                start.pending_frames + i == k * size + self.fill,
                outs.len() == k,
                self.inputs@.len() == start.in_channels(),
                self.outputs@.len() == start.out_channels(),
                channels_of(self.inputs) == window(
                    stream,
                    k * size,
                    k * size + self.fill,
                ),
                channels_of(self.outputs) == join(start.queued, join_all(outs, start.out_channels())),
                is_block(join_all(outs, start.out_channels()), start.out_channels(), (k * size) as nat),
                is_block(channels_of(self.scratch), start.out_channels(), start.frame_size),
                forall|j: int|
                    0 <= j < outs.len() ==> is_block(
                        #[trigger] outs[j],
                        start.out_channels(),
                        start.frame_size,
                    ) && frame_processed(
                        effect,
                        window(stream, j * size, (j + 1) * size),
                        silent,
                        outs[j],
                    ),
            decreases frames - i,
        {
            let ghost base = k * size;
            let ghost held = channels_of(self.inputs);
            push_column(&mut self.inputs, inputs, i);
            proof {
                assert(channels_of(self.inputs) =~~= window(stream, base, base + self.fill + 1)) by {
                    assert forall|c: int| 0 <= c < start.in_channels() implies #[trigger] join(
                        held,
                        window(block, i as int, i + 1),
                    )[c] == stream[c].subrange(base, base + self.fill + 1) by {
                        assert(start.pending[c].len() == start.pending_frames);
                        assert(block[c].len() >= frames);
                        assert(held[c] == stream[c].subrange(base, base + self.fill));
                        assert(stream[c] == start.pending[c] + block[c].subrange(0, frames as int));
                        assert(stream[c][base + self.fill] == block[c][i as int]);
                        assert(block[c].subrange(i as int, i + 1) =~= seq![block[c][i as int]]);
                        assert(stream[c].subrange(base, base + self.fill) + seq![block[c][i as int]]
                            =~= stream[c].subrange(base, base + self.fill + 1));
                    }
                }
            }
            self.fill = self.fill + 1;
            if self.fill == self.frame_size {
                let mut buffers: Vec<Vec<T>> = Vec::new();
                core::mem::swap(&mut buffers, &mut self.scratch);
                let ghost stale = channels_of(buffers);
                fill_all(&mut buffers, self.silence);
                proof {
                    assert forall|c: int| 0 <= c < start.out_channels() implies (#[trigger] channels_of(
                        buffers,
                    )[c]) =~= silent[c] by {
                        assert(stale[c].len() == start.frame_size);
                        assert(buffers@[c]@ == Seq::new(stale[c].len(), |i: int| quiet));
                    }
                    assert(channels_of(buffers) =~~= silent);
                    assert(is_block(channels_of(self.inputs), start.in_channels(), start.frame_size)) by {
                        assert forall|c: int| 0 <= c < start.in_channels() implies (#[trigger] channels_of(
                            self.inputs,
                        )[c]).len() == start.frame_size by {
                            assert(start.pending[c].len() == start.pending_frames);
                            assert(block[c].len() >= frames);
                            assert(stream[c].len() == start.pending_frames + frames);
                        }
                    }
                }
                let ghost frame = channels_of(self.inputs);
                let produced = process_fn(&self.inputs, buffers);
                proof {
                    assert(call_ensures(effect, (&self.inputs, buffers), produced));
                    assert(is_block(channels_of(produced), start.out_channels(), start.frame_size));
                    assert(frame_processed(effect, frame, silent, channels_of(produced)));
                    assert(frame == window(stream, k * size, (k + 1) * size)) by {
                        assert((k + 1) * size == k * size + size) by (nonlinear_arith);
                    }
                }
                let ghost queue = channels_of(self.outputs);
                append_all(&mut self.outputs, &produced);
                self.scratch = produced;
                clear_all(&mut self.inputs);
                self.fill = 0;
                proof {
                    let grown = outs.push(channels_of(self.scratch));
                    lemma_join_all_push(outs, channels_of(self.scratch), start.out_channels());
                    lemma_join_is_block(
                        join_all(outs, start.out_channels()),
                        channels_of(self.scratch),
                        start.out_channels(),
                        (k * size) as nat,
                        start.frame_size,
                    );
                    assert((k + 1) * size == k * size + size) by (nonlinear_arith);
                    assert(0 <= k * size) by (nonlinear_arith)
                        requires
                            0 <= k,
                            0 <= size,
                    ;
                    assert(channels_of(self.outputs) =~~= join(
                        start.queued,
                        join_all(grown, start.out_channels()),
                    )) by {
                        assert forall|c: int| 0 <= c < start.out_channels() implies #[trigger] join(
                            queue,
                            channels_of(self.scratch),
                        )[c] == start.queued[c] + join_all(grown, start.out_channels())[c] by {
                            assert((start.queued[c] + join_all(outs, start.out_channels())[c]) + channels_of(
                                self.scratch,
                            )[c] =~= start.queued[c] + (join_all(outs, start.out_channels())[c]
                                + channels_of(self.scratch)[c]));
                        }
                    }
                    assert forall|j: int| 0 <= j < grown.len() implies is_block(
                        #[trigger] grown[j],
                        start.out_channels(),
                        start.frame_size,
                    ) && frame_processed(
                        effect,
                        window(stream, j * size, (j + 1) * size),
                        silent,
                        grown[j],
                    ) by {
                        if j < outs.len() {
                            assert(grown[j] == outs[j]);
                        }
                    }
                    assert(channels_of(self.inputs) =~~= window(
                        stream,
                        (k + 1) * size,
                        (k + 1) * size + 0,
                    ));
                    outs = grown;
                    k = k + 1;
                }
            }
            i += 1;
        }
        let queued = self.queued_frames();
        if queued > self.peak {
            self.peak = queued;
        }
        proof {
            let total = (start.pending_frames + frames) as int;
            lemma_fundamental_div_mod_converse(total, size, k, self.fill as int);
            assert(k == start.completed(frames as nat));
            assert(self.fill == total % size);
            let target = start.fed(block, frames as nat, outs);
            assert(self@.queued == target.queued);
            assert(self@.pending == target.pending);
            assert(self@ =~= target);
            assert(is_block(self@.queued, self@.out_channels(), self@.queued_frames())) by {
                lemma_join_is_block(
                    start.queued,
                    join_all(outs, start.out_channels()),
                    start.out_channels(),
                    start.queued_frames(),
                    (k * size) as nat,
                );
            }
            assert(is_block(self@.pending, self@.in_channels(), self@.pending_frames)) by {
                assert forall|c: int| 0 <= c < self@.pending.len() implies (#[trigger] self@.pending[c]).len()
                    == self.fill by {
                    assert(start.pending[c].len() == start.pending_frames);
                    assert(block[c].len() >= frames);
                    assert(stream[c].len() == start.pending_frames + frames);
                }
            }
            assert forall|j: int| 0 <= j < outs.len() implies is_block(
                #[trigger] outs[j],
                start.out_channels(),
                start.frame_size,
            ) && frame_processed(
                effect,
                start.input_frame(block, frames as nat, j),
                silent,
                outs[j],
            ) by {
                assert(start.input_frame(block, frames as nat, j) == window(
                    stream,
                    j * size,
                    (j + 1) * size,
                ));
            }
        }
        Ghost(outs)
    }

    /// Serves a request for `requested` samples per channel from the queue,
    /// or holds the output back.
    fn release(&mut self, outputs: &mut Vec<Vec<T>>, requested: usize) -> (status: ProcessStatus)
        requires
            old(self).wf(),
            covers(channels_of(*old(outputs)), old(self)@.out_channels(), requested as nat),
        ensures
            final(self).wf(),
            final(self).silence() == old(self).silence(),
            final(self)@ == old(self)@.released(requested as nat),
            status == if old(self)@.serves(requested as nat) {
                ProcessStatus::OutputsModified
            } else {
                ProcessStatus::ClearAllOutputs
            },
            channels_of(*final(outputs)) == if old(self)@.serves(requested as nat) {
                overwrite_front(channels_of(*old(outputs)), old(self)@.queued, requested as int)
            } else {
                channels_of(*old(outputs))
            },
    {
        let queued = self.queued_frames();
        if !self.started_draining {
            if (queued as u128) * 2 < (self.max_block_frames as u128) * 3 {
                assert(self@ =~= old(self)@.released(requested as nat));
                return ProcessStatus::ClearAllOutputs;
            }
            self.started_draining = true;
        }
        if self.outputs.len() == 0 || queued < requested {
            assert(self@ =~= old(self)@.released(requested as nat));
            return ProcessStatus::ClearAllOutputs;
        }
        let ghost before = self@;
        drain_front(&mut self.outputs, outputs, requested);
        proof {
            assert(self@.queued =~~= window(before.queued, requested as int, before.queued_frames() as int))
                by {
                assert forall|c: int| 0 <= c < before.queued.len() implies (#[trigger] self@.queued[c])
                    == before.queued[c].subrange(requested as int, before.queued_frames() as int) by {
                    assert(before.queued[c].len() == before.queued_frames());
                }
            }
            assert(self@ =~= old(self)@.released(requested as nat));
            assert(is_block(self@.queued, self@.out_channels(), self@.queued_frames())) by {
                assert forall|c: int| 0 <= c < self@.queued.len() implies (#[trigger] self@.queued[c]).len()
                    == self@.queued_frames() by {
                    assert(before.queued[c].len() == before.queued_frames());
                    assert(before.queued[0].len() == before.queued_frames());
                }
            }
        }
        ProcessStatus::OutputsModified
    }

    /// Takes the first `frames` samples of every channel of `inputs` and
    /// answers a request for `requested` samples per channel.
    ///
    /// Every frame that completes on the way goes through `process_fn`, which
    /// gets the frame and silent output buffers, and hands the buffers back
    /// filled. What it hands back joins the end of the output queue. Output is
    /// held back until the queue has once reached one and a half times the
    /// largest block; from then on a request is served whenever the queue
    /// holds enough, by writing the oldest queued samples to the front of
    /// `outputs`. In a steady state a call that brings as much as it asks
    /// for, and no more than the largest block, is always served and leaves
    /// the queue inside its reserve.
    pub fn process<F>(
        &mut self,
        inputs: &Vec<Vec<T>>,
        frames: usize,
        outputs: &mut Vec<Vec<T>>,
        requested: usize,
        process_fn: F,
    ) -> (status: ProcessStatus) where F: FnMut(&Vec<Vec<T>>, Vec<Vec<T>>) -> Vec<Vec<T>>
        requires
            old(self).wf(),
            covers(channels_of(*inputs), old(self)@.in_channels(), frames as nat),
            covers(channels_of(*old(outputs)), old(self)@.out_channels(), requested as nat),
            effect_fits(
                process_fn,
                old(self).silence(),
                old(self)@.in_channels(),
                old(self)@.out_channels(),
                old(self)@.frame_size,
            ),
        ensures
            final(self).wf(),
            final(self).silence() == old(self).silence(),
            exists|outs: Seq<Seq<Seq<T>>>|
                effect_produced(
                    process_fn,
                    old(self).silence(),
                    old(self)@,
                    channels_of(*inputs),
                    frames as nat,
                    outs,
                ) && #[trigger] process_outcome(
                    old(self)@,
                    channels_of(*inputs),
                    frames as nat,
                    requested as nat,
                    outs,
                    final(self)@,
                    status,
                    channels_of(*old(outputs)),
                    channels_of(*final(outputs)),
                ),
            old(self)@.steady() && frames == requested && frames <= old(self)@.max_block_frames ==> {
                &&& status == ProcessStatus::OutputsModified
                &&& final(self)@.steady()
                &&& final(self)@.backlog() == old(self)@.backlog()
                &&& !final(self)@.outgrown()
            },
    {
        let mut effect = process_fn;
        let outs = self.absorb(inputs, frames, &mut effect);
        let status = self.release(outputs, requested);
        proof {
            if old(self)@.steady() && frames == requested && frames <= old(self)@.max_block_frames {
                lemma_steady_step(
                    old(self)@,
                    Call {
                        block: channels_of(*inputs),
                        frames: frames as nat,
                        requested: requested as nat,
                        outs: outs@,
                    },
                );
            }
            assert(process_outcome(
                old(self)@,
                channels_of(*inputs),
                frames as nat,
                requested as nat,
                outs@,
                self@,
                status,
                channels_of(*old(outputs)),
                channels_of(*outputs),
            ));
        }
        status
    }
}

/// The channels of an ambisonic signal of the given order: the square of the
/// order plus one.
pub fn order_to_num_channels(order: u32) -> (channels: u32)
    requires
        order < 65535,
    ensures
        channels == (order + 1) * (order + 1),
{
    let side = order + 1;
    assert(side * side <= 65535 * 65535) by (nonlinear_arith)
        requires
            0 <= side <= 65535,
    ;
    side * side
}

/// A buffer of `len` samples of `value`.
fn silent_channel<T: Copy>(len: usize, value: T) -> (channel: Vec<T>)
    ensures
        channel@ == Seq::new(len as nat, |i: int| value),
{
    let mut channel: Vec<T> = Vec::with_capacity(len);
    let mut i: usize = 0;
    while i < len
        invariant
            i <= len,
            channel@ == Seq::new(i as nat, |k: int| value),
        decreases len - i,
    {
        channel.push(value);
        assert(channel@ =~= Seq::new((i + 1) as nat, |k: int| value));
        i += 1;
    }
    channel
}

} // verus!
