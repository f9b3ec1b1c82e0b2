//! Sample-rate conversion of a mono stream by a fixed ratio. The conversion
//! itself is the work of an engine that is handed in; what is decided here
//! is how input is framed for it, what is asked of its answers, and how its
//! output is put out.

use crate::fifo::{append_block, copy_block, push_all, take_block};
use rubato::ResampleError;
use std::collections::VecDeque;
use vstd::prelude::*;
use vstd::slice::slice_subrange;

verus! {

/// `rubato::ResampleError`, an engine's report of a failed run. Nothing is
/// known of what is inside.
#[verifier::external_type_specification]
#[verifier::external_body]
pub struct ExResampleError(ResampleError);

/// Why a resampler could not be built.
#[derive(Debug, Clone, Copy, PartialEq, Eq, Structural)]
pub enum ConstructionError {
    /// A sample rate is zero.
    InvalidSampleRate { input: usize, output: usize },
    /// The engine's blocks are empty, or their sizes are not in the ratio
    /// of the rates.
    InvalidBlockSizes { input_frames: usize, output_frames: usize },
}

/// Why a call to a resampler failed.
#[derive(Debug)]
pub enum ResamplerError {
    /// The input does not have the length that the resampler takes.
    InvalidInputLength {
        /// Number of input samples that the resampler takes.
        expected: usize,
        /// Number of input samples that were given.
        actual: usize,
    },
    /// The engine did not write the one block of output that it owes for a
    /// block of input.
    InvalidOutputLength {
        /// Number of output samples in a block.
        expected: usize,
        /// Number of output samples that the engine says it wrote.
        actual: usize,
    },
    /// The engine failed to resample a block.
    ResampleError(ResampleError),
}

/// What a resampler needs of the engine that converts for it. The engine
/// is handed in rather than built here because it works on what the
/// samples hold, and may not bear every value of them; that is for the one
/// who knows the samples to see to.
pub trait ResampleEngine<T> {
    /// Converts one block of input. Writes the output to the front of
    /// `output` and returns the number of samples written, or the reason
    /// why it failed.
    fn process(&mut self, input: &[T], output: &mut [T]) -> Result<usize, ResampleError>;
}

/// A resampler of a continuous mono stream. It takes input and appends
/// what the conversion gives to `output`, block by block.
pub trait AudioResampler<T> {
    /// The resampler is in a state in which it can be used.
    spec fn ready(&self) -> bool;

    /// Takes mono input and puts out resampled audio. Returns the number of
    /// samples put out by this call. What `output` held before stays where
    /// it is, also where the call fails.
    fn process_callback(&mut self, input: &[T], output: &mut Vec<T>) -> (result: Result<
        usize,
        ResamplerError,
    >)
        requires
            old(self).ready(),
        ensures
            final(self).ready(),
            old(output)@.is_prefix_of(final(output)@),
            result matches Ok(count) ==> final(output)@.len() == old(output)@.len() + count,
    ;
}

/// The sizes that a resampler works with.
#[derive(Debug, Clone, Copy, PartialEq, Eq, Structural)]
pub struct BlockSizes {
    /// Input samples in a block.
    pub block_len: usize,
    /// Output samples that the engine owes for a block of input.
    pub output_block: usize,
    /// Samples per second of the input.
    pub original_rate: u32,
    /// Samples per second of the output.
    pub target_rate: u32,
}

impl BlockSizes {
    /// No size and no rate is zero, and a block of input is as long in time
    /// as the block of output that it gives.
    pub open spec fn valid(&self) -> bool {
        &&& self.original_rate > 0
        &&& self.target_rate > 0
        &&& self.block_len > 0
        &&& self.output_block > 0
        &&& self.block_len * self.target_rate == self.output_block * self.original_rate
    }
}

/// What `check_sizes` answers.
pub open spec fn checked_sizes(
    block_len: usize,
    output_block: usize,
    original_rate: u32,
    target_rate: u32,
) -> Result<BlockSizes, ConstructionError> {
    let sizes = BlockSizes { block_len, output_block, original_rate, target_rate };
    if original_rate == 0 || target_rate == 0 {
        Err(
            ConstructionError::InvalidSampleRate {
                input: original_rate as usize,
                output: target_rate as usize,
            },
        )
    } else if !sizes.valid() {
        Err(
            ConstructionError::InvalidBlockSizes {
                input_frames: block_len,
                output_frames: output_block,
            },
        )
    } else {
        Ok(sizes)
    }
}

/// Checks the sizes of an engine's blocks against the rates. A rate of
/// zero is refused first; then blocks that are empty or not in the ratio
/// of the rates.
pub fn check_sizes(block_len: usize, output_block: usize, original_rate: u32, target_rate: u32) -> (sizes:
    Result<BlockSizes, ConstructionError>)
    ensures
        sizes == checked_sizes(block_len, output_block, original_rate, target_rate),
        sizes matches Ok(valid) ==> valid.valid(),
{
    if original_rate == 0 || target_rate == 0 {
        return Err(
            ConstructionError::InvalidSampleRate {
                input: original_rate as usize,
                output: target_rate as usize,
            },
        );
    }
    assert(block_len * target_rate <= 0xFFFF_FFFF_FFFF_FFFF * 0xFFFF_FFFF) by (nonlinear_arith)
        requires
            0 <= block_len <= 0xFFFF_FFFF_FFFF_FFFF,
            0 <= target_rate <= 0xFFFF_FFFF,
    ;
    assert(output_block * original_rate <= 0xFFFF_FFFF_FFFF_FFFF * 0xFFFF_FFFF)
        by (nonlinear_arith)
        requires
            0 <= output_block <= 0xFFFF_FFFF_FFFF_FFFF,
            0 <= original_rate <= 0xFFFF_FFFF,
    ;
    let input_time: u128 = block_len as u128 * target_rate as u128;
    let output_time: u128 = output_block as u128 * original_rate as u128;
    if block_len == 0 || output_block == 0 || input_time != output_time {
        return Err(
            ConstructionError::InvalidBlockSizes {
                input_frames: block_len,
                output_frames: output_block,
            },
        );
    }
    Ok(BlockSizes { block_len, output_block, original_rate, target_rate })
}

/// The samples of `blocks`, one block after the other.
pub open spec fn joined<T>(blocks: Seq<Seq<T>>) -> Seq<T>
    decreases blocks.len(),
{
    if blocks.len() == 0 {
        Seq::empty()
    } else {
        joined(blocks.drop_last()) + blocks.last()
    }
}

/// How many whole blocks of `block_len` samples `pending` samples hold.
pub open spec fn whole_blocks(pending: int, block_len: int) -> int {
    if block_len > 0 {
        pending / block_len
    } else {
        0
    }
}

/// What `put_out` returns and appends for an engine's answer: the answer is
/// taken where the engine wrote exactly one block of `expected` samples,
/// which the buffer can hold.
pub open spec fn answer_is_block<T>(written: usize, engine_output: Seq<T>, expected: usize) -> bool {
    written == expected && written <= engine_output.len()
}

/// Puts out what one run of the engine gave. `result` is the engine's
/// answer and `engine_output` the buffer that it wrote to. Where the engine
/// wrote one block of `expected` samples, they are appended to `output`,
/// and their number is returned. Where it says that it wrote any other
/// number, or more than the buffer holds, nothing is put out and the call
/// fails with both numbers. Where the engine failed, nothing is put out and
/// its failure is passed on.
pub fn put_out<T: Copy>(
    result: Result<usize, ResampleError>,
    engine_output: &[T],
    expected: usize,
    output: &mut Vec<T>,
) -> (put: Result<usize, ResamplerError>)
    ensures
        match result {
            Ok(written) => if answer_is_block(written, engine_output@, expected) {
                &&& put == Ok::<usize, ResamplerError>(expected)
                &&& final(output)@ == old(output)@ + engine_output@.take(expected as int)
            } else {
                &&& put == Err::<usize, ResamplerError>(
                    ResamplerError::InvalidOutputLength { expected, actual: written },
                )
                &&& final(output)@ == old(output)@
            },
            Err(error) => {
                &&& put == Err::<usize, ResamplerError>(ResamplerError::ResampleError(error))
                &&& final(output)@ == old(output)@
            },
        },
{
    match result {
        Err(error) => Err(ResamplerError::ResampleError(error)),
        Ok(written) => {
            if written != expected || written > engine_output.len() {
                return Err(ResamplerError::InvalidOutputLength { expected, actual: written });
            }
            let block = slice_subrange(engine_output, 0, written);
            append_block(output, block);
            Ok(written)
        },
    }
}

/// A resampler that takes exactly one block of input per call and puts out
/// one block of output for it.
pub struct FixedBlockResampler<T, E> {
    input_buffer: Vec<T>,
    output_buffer: Vec<T>,
    resampler: E,
    sizes: BlockSizes,
}

impl<T: Copy, E: ResampleEngine<T>> FixedBlockResampler<T, E> {
    /// The sizes that the resampler works with.
    pub closed spec fn sizes(&self) -> BlockSizes {
        self.sizes
    }

    /// The block that was last handed to the engine.
    pub closed spec fn handed(&self) -> Seq<T> {
        self.input_buffer@
    }

    /// A resampler from `original_rate` to `target_rate` around `engine`,
    /// with the buffers that the engine wants: a block of input is as long
    /// as `input_buffer`, a block of output as long as `output_buffer`.
    /// Rates and sizes are checked as `check_sizes` says.
    pub fn new(
        engine: E,
        input_buffer: Vec<T>,
        output_buffer: Vec<T>,
        original_rate: u32,
        target_rate: u32,
    ) -> (resampler: Result<Self, ConstructionError>)
        ensures
            match checked_sizes(
                input_buffer.len(),
                output_buffer.len(),
                original_rate,
                target_rate,
            ) {
                Ok(sizes) => resampler matches Ok(made) && made.sizes() == sizes && sizes.valid(),
                Err(error) => resampler matches Err(refused) && refused == error,
            },
    {
        match check_sizes(input_buffer.len(), output_buffer.len(), original_rate, target_rate) {
            Err(error) => Err(error),
            Ok(sizes) => Ok(Self { input_buffer, output_buffer, resampler: engine, sizes }),
        }
    }

    /// The number of input samples that every call has to bring.
    pub fn input_frames(&self) -> (frames: usize)
        ensures
            frames == self.sizes().block_len,
    {
        self.sizes.block_len
    }

    /// The number of output samples that every call puts out.
    pub fn output_frames(&self) -> (frames: usize)
        ensures
            frames == self.sizes().output_block,
    {
        self.sizes.output_block
    }

}

impl<T: Copy, E: ResampleEngine<T>> AudioResampler<T> for FixedBlockResampler<T, E> {
    open spec fn ready(&self) -> bool {
        true
    }

    /// Resamples one block. Input of any other length than the block
    /// length is refused, and nothing else happens: the engine is not
    /// touched, nothing is put out. A block of the right length goes
    /// through the engine as it is, and the engine's answer is dealt with
    /// as `put_out` says: a call that succeeds has appended exactly one block
    /// of output to `output` and returns its length; a call that fails has
    /// put out nothing.
    fn process_callback(&mut self, input: &[T], output: &mut Vec<T>) -> (result: Result<
        usize,
        ResamplerError,
    >)
        ensures
            final(self).sizes() == old(self).sizes(),
            input@.len() != old(self).sizes().block_len <==> result is Err && result->Err_0
                is InvalidInputLength,
            input@.len() != old(self).sizes().block_len ==> *final(self) == *old(self),
            input@.len() == old(self).sizes().block_len ==> final(self).handed() == input@,
            result matches Err(ResamplerError::InvalidInputLength { expected, actual }) ==> expected
                == old(self).sizes().block_len && actual == input@.len(),
            result matches Err(ResamplerError::InvalidOutputLength { expected, .. }) ==> expected
                == old(self).sizes().output_block,
            result is Err ==> final(output)@ == old(output)@,
            result matches Ok(count) ==> {
                &&& count == old(self).sizes().output_block
                &&& final(output)@.len() == old(output)@.len() + count
                &&& old(output)@.is_prefix_of(final(output)@)
            },
    {
        let expected_len = self.sizes.block_len;
        if input.len() != expected_len {
            return Err(
                ResamplerError::InvalidInputLength { expected: expected_len, actual: input.len() },
            );
        }
        copy_block(&mut self.input_buffer, input);
        let result = self.resampler.process(
            self.input_buffer.as_slice(),
            self.output_buffer.as_mut_slice(),
        );
        put_out(result, self.output_buffer.as_slice(), self.sizes.output_block, output)
    }
}

/// The state of a streaming resampler as a mathematical value.
pub ghost struct StreamingState<T> {
    /// Input that has arrived and not yet been handed to the engine.
    pub queue: Seq<T>,
    /// The block that was last handed to the engine.
    pub handed: Seq<T>,
    /// The sizes that the resampler works with.
    pub sizes: BlockSizes,
}

/// A resampler that takes input of any length. It queues what arrives and
/// hands it to the engine one block at a time, as long as a whole block is
/// waiting.
pub struct StreamingResampler<T, E> {
    resampler: E,
    frames_queue: VecDeque<T>,
    input_buffer: Vec<T>,
    output_buffer: Vec<T>,
    sizes: BlockSizes,
}

/// What a call leaves in the queue after `steps` blocks of `block_len`
/// samples were taken from `pending`.
pub open spec fn left_after<T>(pending: Seq<T>, steps: int, block_len: int) -> Seq<T> {
    pending.skip(steps * block_len)
}

/// A call on `input` in state `state` went like this: `taken` blocks left
/// the queue, oldest samples first, and went to the engine, the last of
/// them being the block that `after` shows as handed; the blocks `emitted`
/// were appended to the output, and the call ended with `result`, in state
/// `after`. Every block put out has
/// the one output size. A call that succeeds has put out one block for
/// each block taken and returns the number of samples put out; it has
/// taken every whole block that was waiting, unless that number has come so
/// close to the largest that can be counted that one more block might not
/// fit. A call that fails has put out one block for each block taken but
/// the last, on which the engine failed or did not answer with one block;
/// the input length is never the reason.
pub open spec fn is_drain<T>(
    state: StreamingState<T>,
    input: Seq<T>,
    taken: int,
    emitted: Seq<Seq<T>>,
    after: StreamingState<T>,
    output_before: Seq<T>,
    output_after: Seq<T>,
    result: Result<usize, ResamplerError>,
) -> bool {
    let pending = state.queue + input;
    let block_len = state.sizes.block_len as int;
    let steps = whole_blocks(pending.len() as int, block_len);
    &&& 0 <= taken <= steps
    &&& after.sizes == state.sizes
    &&& after.queue == left_after(pending, taken, block_len)
    &&& after.handed == if taken == 0 {
        state.handed
    } else {
        pending.subrange((taken - 1) * block_len, taken * block_len)
    }
    &&& output_after == output_before + joined(emitted)
    &&& forall|i: int|
        0 <= i < emitted.len() ==> (#[trigger] emitted[i]).len() == state.sizes.output_block
    &&& match result {
        Ok(count) => {
            &&& taken == steps || count > usize::MAX - state.sizes.output_block
            &&& emitted.len() == taken
            &&& count == taken * state.sizes.output_block
        },
        Err(error) => {
            &&& taken >= 1
            &&& emitted.len() == taken - 1
            &&& !(error is InvalidInputLength)
            &&& error matches ResamplerError::InvalidOutputLength { expected, .. } ==> expected
                == state.sizes.output_block
        },
    }
}

/// Joining one more block appends it.
pub proof fn lemma_joined_push<T>(blocks: Seq<Seq<T>>, block: Seq<T>)
    ensures
        joined(blocks.push(block)) == joined(blocks) + block,
{
    assert(blocks.push(block).drop_last() =~= blocks);
}

/// Blocks of one length hold that length times their number of samples.
pub proof fn lemma_joined_len<T>(blocks: Seq<Seq<T>>, per_block: int)
    requires
        forall|i: int| 0 <= i < blocks.len() ==> (#[trigger] blocks[i]).len() == per_block,
    ensures
        joined(blocks).len() == blocks.len() * per_block,
    decreases blocks.len(),
{
    if blocks.len() > 0 {
        let front = blocks.drop_last();
        assert forall|i: int| 0 <= i < front.len() implies (#[trigger] front[i]).len()
            == per_block by {
            assert(front[i] == blocks[i]);
        }
        lemma_joined_len(front, per_block);
        assert(blocks[blocks.len() - 1].len() == per_block);
        assert(blocks.len() * per_block == front.len() * per_block + per_block)
            by (nonlinear_arith)
            requires
                blocks.len() == front.len() + 1,
        ;
    }
}

/// However a stream is cut into calls, the same number of whole blocks is
/// drained and the same samples are left waiting: taking `first` and then
/// `second` is taking both at once.
pub proof fn lemma_drain_any_call_pattern<T>(
    queue: Seq<T>,
    first: Seq<T>,
    second: Seq<T>,
    block_len: int,
)
    requires
        block_len > 0,
    ensures
        ({
            let one = whole_blocks((queue + first).len() as int, block_len);
            let rest = left_after(queue + first, one, block_len);
            let two = whole_blocks((rest + second).len() as int, block_len);
            let all = whole_blocks((queue + first + second).len() as int, block_len);
            &&& one + two == all
            &&& left_after(rest + second, two, block_len) == left_after(
                queue + first + second,
                all,
                block_len,
            )
            &&& left_after(queue + first + second, all, block_len).len() < block_len
        }),
{
    let pending = (queue + first).len() as int;
    let one = whole_blocks(pending, block_len);
    let rest = left_after(queue + first, one, block_len);
    let two = whole_blocks((rest + second).len() as int, block_len);
    let whole = queue + first + second;
    let all = whole_blocks(whole.len() as int, block_len);
    vstd::arithmetic::div_mod::lemma_fundamental_div_mod(pending, block_len);
    vstd::arithmetic::div_mod::lemma_mod_bound(pending, block_len);
    assert(0 <= one * block_len <= pending) by (nonlinear_arith)
        requires
            pending == block_len * one + pending % block_len,
            0 <= pending % block_len,
            block_len > 0,
            pending >= 0,
    ;
    let later = (rest + second).len() as int;
    vstd::arithmetic::div_mod::lemma_fundamental_div_mod(later, block_len);
    vstd::arithmetic::div_mod::lemma_mod_bound(later, block_len);
    vstd::arithmetic::div_mod::lemma_fundamental_div_mod(whole.len() as int, block_len);
    vstd::arithmetic::div_mod::lemma_mod_bound(whole.len() as int, block_len);
    assert(all == one + two) by {
        assert(whole.len() == (one + two) * block_len + later % block_len) by (nonlinear_arith)
            requires
                whole.len() == one * block_len + later,
                later == block_len * two + later % block_len,
        ;
        vstd::arithmetic::div_mod::lemma_fundamental_div_mod_converse(
            whole.len() as int,
            block_len,
            one + two,
            later % block_len,
        );
    }
    assert(0 <= two * block_len <= later) by (nonlinear_arith)
        requires
            later == block_len * two + later % block_len,
            0 <= later % block_len,
            block_len > 0,
            later >= 0,
    ;
    assert(all * block_len == one * block_len + two * block_len) by (nonlinear_arith)
        requires
            all == one + two,
    ;
    assert(whole.len() - all * block_len == whole.len() as int % block_len) by (nonlinear_arith)
        requires
            whole.len() as int == block_len * all + whole.len() as int % block_len,
    ;
}

/// Throughput of one call that drained every whole block: the samples put
/// out are to the samples taken from the queue as the output rate is to the
/// input rate, and less than a block is left waiting.
pub proof fn lemma_drain_throughput<T>(
    state: StreamingState<T>,
    input: Seq<T>,
    taken: int,
    emitted: Seq<Seq<T>>,
    after: StreamingState<T>,
    output_before: Seq<T>,
    output_after: Seq<T>,
    count: usize,
)
    requires
        state.sizes.valid(),
        is_drain(
            state,
            input,
            taken,
            emitted,
            after,
            output_before,
            output_after,
            Ok::<usize, ResamplerError>(count),
        ),
        count <= usize::MAX - state.sizes.output_block,
    ensures
        output_after.len() == output_before.len() + count,
        after.queue.len() < state.sizes.block_len,
        count * state.sizes.original_rate == (state.queue.len() + input.len() - after.queue.len())
            * state.sizes.target_rate,
{
    let block_len = state.sizes.block_len as int;
    let per_block = state.sizes.output_block as int;
    let pending = (state.queue + input).len() as int;
    lemma_joined_len(emitted, per_block);
    vstd::arithmetic::div_mod::lemma_fundamental_div_mod(pending, block_len);
    vstd::arithmetic::div_mod::lemma_mod_bound(pending, block_len);
    assert(0 <= taken * block_len <= pending) by (nonlinear_arith)
        requires
            pending == block_len * taken + pending % block_len,
            0 <= pending % block_len,
            0 <= taken,
            block_len > 0,
    ;
    assert(after.queue.len() == pending - taken * block_len);
    assert(pending - taken * block_len == pending % block_len) by (nonlinear_arith)
        requires
            pending == block_len * taken + pending % block_len,
    ;
    assert(count * state.sizes.original_rate == (taken * block_len) * state.sizes.target_rate)
        by (nonlinear_arith)
        requires
            count == taken * per_block,
            block_len * state.sizes.target_rate == per_block * state.sizes.original_rate,
    ;
}

/// The lengths of the inputs of a run of calls, added up.
pub open spec fn total_input(lengths: Seq<nat>) -> nat
    decreases lengths.len(),
{
    if lengths.len() == 0 {
        0
    } else {
        total_input(lengths.drop_last()) + lengths.last()
    }
}

/// The samples left waiting after a run of calls that each drained every
/// whole block, on a queue that held `queued` samples before.
pub open spec fn left_over(queued: nat, lengths: Seq<nat>, block_len: int) -> int
    decreases lengths.len(),
{
    if lengths.len() == 0 {
        queued as int
    } else {
        (left_over(queued, lengths.drop_last(), block_len) + lengths.last()) % block_len
    }
}

/// The blocks drained by a run of calls that each drained every whole
/// block.
pub open spec fn blocks_drained(queued: nat, lengths: Seq<nat>, block_len: int) -> int
    decreases lengths.len(),
{
    if lengths.len() == 0 {
        0
    } else {
        blocks_drained(queued, lengths.drop_last(), block_len) + (left_over(
            queued,
            lengths.drop_last(),
            block_len,
        ) + lengths.last()) / block_len
    }
}

/// Throughput of a stream, however it is cut into calls: every sample that
/// has arrived was either drained in a whole block or is still waiting, and
/// what waits after a call is less than a block. With `output_block`
/// samples put out for each block, the samples put out are to the samples
/// drained as the output rate is to the input rate. A stream that ends on a
/// block boundary so comes out as exactly `N * out_rate / in_rate` samples;
/// any other falls short of that by the share of what still waits.
pub proof fn lemma_stream_throughput(queued: nat, lengths: Seq<nat>, sizes: BlockSizes)
    requires
        sizes.valid(),
    ensures
        ({
            let block_len = sizes.block_len as int;
            let blocks = blocks_drained(queued, lengths, block_len);
            let left = left_over(queued, lengths, block_len);
            let put_out = blocks * sizes.output_block;
            &&& blocks >= 0
            &&& left >= 0
            &&& lengths.len() > 0 ==> left < block_len
            &&& blocks * block_len + left == queued + total_input(lengths)
            &&& put_out * sizes.original_rate == (queued + total_input(lengths) - left)
                * sizes.target_rate
            &&& left == 0 ==> put_out == (queued + total_input(lengths)) * sizes.target_rate
                / (sizes.original_rate as int)
        }),
    decreases lengths.len(),
{
    let block_len = sizes.block_len as int;
    let blocks = blocks_drained(queued, lengths, block_len);
    let left = left_over(queued, lengths, block_len);
    let put_out = blocks * sizes.output_block;
    let all = queued + total_input(lengths);
    if lengths.len() > 0 {
        let front = lengths.drop_last();
        lemma_stream_throughput(queued, front, sizes);
        let before = left_over(queued, front, block_len);
        let pending = before + lengths.last();
        vstd::arithmetic::div_mod::lemma_fundamental_div_mod(pending, block_len);
        vstd::arithmetic::div_mod::lemma_mod_bound(pending, block_len);
        vstd::arithmetic::div_mod::lemma_div_pos_is_pos(pending, block_len);
        assert(blocks * block_len + left == all) by (nonlinear_arith)
            requires
                blocks == blocks_drained(queued, front, block_len) + pending / block_len,
                left == pending % block_len,
                pending == block_len * (pending / block_len) + pending % block_len,
                blocks_drained(queued, front, block_len) * block_len + before == queued
                    + total_input(front),
                pending == before + lengths.last(),
                all == queued + total_input(front) + lengths.last(),
        ;
    }
    assert(put_out * sizes.original_rate == (all - left) * sizes.target_rate) by (nonlinear_arith)
        requires
            put_out == blocks * sizes.output_block,
            blocks * block_len + left == all,
            block_len * sizes.target_rate == sizes.output_block * sizes.original_rate,
    ;
    if left == 0 {
        vstd::arithmetic::div_mod::lemma_fundamental_div_mod_converse(
            all * sizes.target_rate,
            sizes.original_rate as int,
            put_out,
            0,
        );
    }
}

impl<T: Copy, E: ResampleEngine<T>> StreamingResampler<T, E> {
    /// The state as a mathematical value.
    pub closed spec fn view(&self) -> StreamingState<T> {
        StreamingState { queue: self.frames_queue@, handed: self.input_buffer@, sizes: self.sizes }
    }

    /// A resampler from `original_rate` to `target_rate` around `engine`,
    /// with the buffers that the engine wants: a block of input is as long
    /// as `input_buffer`, a block of output as long as `output_buffer`.
    /// Rates and sizes are checked as `check_sizes` says. The queue is
    /// empty.
    pub fn new(
        engine: E,
        input_buffer: Vec<T>,
        output_buffer: Vec<T>,
        original_rate: u32,
        target_rate: u32,
    ) -> (resampler: Result<Self, ConstructionError>)
        ensures
            match checked_sizes(
                input_buffer.len(),
                output_buffer.len(),
                original_rate,
                target_rate,
            ) {
                Ok(sizes) => resampler matches Ok(made) && made@ == (StreamingState {
                    queue: Seq::<T>::empty(),
                    handed: input_buffer@,
                    sizes,
                }) && sizes.valid(),
                Err(error) => resampler matches Err(refused) && refused == error,
            },
    {
        match check_sizes(input_buffer.len(), output_buffer.len(), original_rate, target_rate) {
            Err(error) => Err(error),
            Ok(sizes) => Ok(
                Self {
                    resampler: engine,
                    frames_queue: VecDeque::new(),
                    input_buffer,
                    output_buffer,
                    sizes,
                },
            ),
        }
    }

    /// The number of samples that the engine takes per call.
    pub fn input_frames(&self) -> (frames: usize)
        ensures
            frames == self@.sizes.block_len,
    {
        self.sizes.block_len
    }

    /// The number of samples that the engine owes for a block of input.
    pub fn output_frames(&self) -> (frames: usize)
        ensures
            frames == self@.sizes.output_block,
    {
        self.sizes.output_block
    }

    /// The number of samples waiting in the queue.
    pub fn queued(&self) -> (samples: usize)
        ensures
            samples == self@.queue.len(),
    {
        self.frames_queue.len()
    }

}

impl<T: Copy, E: ResampleEngine<T>> AudioResampler<T> for StreamingResampler<T, E> {
    open spec fn ready(&self) -> bool {
        self@.sizes.valid()
    }

    /// Queues `input` and drains the queue block by block, oldest samples
    /// first. Each block goes through the engine, and the engine's answer
    /// is dealt with as `put_out` says, so that every block taken puts out
    /// one block of the output size. Draining ends when less than a block
    /// is waiting, or when a block fails: that block is lost, the samples
    /// behind it stay queued. It also ends before the number of samples put
    /// out could outgrow its counter; what is left then waits for the next
    /// call. Returns the number of samples put out.
    fn process_callback(&mut self, input: &[T], output: &mut Vec<T>) -> (result: Result<
        usize,
        ResamplerError,
    >)
        ensures
            final(self)@.sizes == old(self)@.sizes,
            exists|taken: int, emitted: Seq<Seq<T>>|
                #[trigger] is_drain(
                    old(self)@,
                    input@,
                    taken,
                    emitted,
                    final(self)@,
                    old(output)@,
                    final(output)@,
                    result,
                ),
    {
        let ghost pending = self.frames_queue@ + input@;
        let ghost block_len = self.sizes.block_len as int;
        let ghost per_block = self.sizes.output_block as int;
        let ghost steps = whole_blocks(pending.len() as int, block_len);
        let ghost mut taken: int = 0;
        let ghost mut emitted: Seq<Seq<T>> = Seq::empty();
        let mut total_written: usize = 0;
        push_all(&mut self.frames_queue, input);
        proof {
            vstd::arithmetic::div_mod::lemma_fundamental_div_mod(pending.len() as int, block_len);
            vstd::arithmetic::div_mod::lemma_mod_bound(pending.len() as int, block_len);
            assert(pending.skip(0) =~= pending);
            assert(old(output)@ + joined(emitted) =~= old(output)@);
        }
        while self.frames_queue.len() >= self.sizes.block_len && total_written <= usize::MAX
            - self.sizes.output_block
            invariant
                self.sizes == old(self)@.sizes,
                self.sizes.valid(),
                block_len == self.sizes.block_len,
                per_block == self.sizes.output_block,
                pending == old(self)@.queue + input@,
                steps == whole_blocks(pending.len() as int, block_len),
                pending.len() == block_len * steps + pending.len() as int % block_len,
                0 <= pending.len() as int % block_len < block_len,
                0 <= taken <= steps,
                0 <= taken * block_len <= pending.len(),
                self.frames_queue@ == left_after(pending, taken, block_len),
                self.input_buffer@ == if taken == 0 {
                    old(self)@.handed
                } else {
                    pending.subrange((taken - 1) * block_len, taken * block_len)
                },
                output@ == old(output)@ + joined(emitted),
                emitted.len() == taken,
                forall|i: int| 0 <= i < emitted.len() ==> (#[trigger] emitted[i]).len() == per_block,
                total_written == taken * per_block,
            decreases self.frames_queue@.len(),
        {
            take_block(&mut self.frames_queue, &mut self.input_buffer, self.sizes.block_len);
            proof {
                assert((taken + 1) * block_len == taken * block_len + block_len)
                    by (nonlinear_arith);
                assert(self.frames_queue@ =~= left_after(pending, taken + 1, block_len));
                assert(self.input_buffer@ =~= pending.subrange(
                    taken * block_len,
                    (taken + 1) * block_len,
                ));
                assert(taken + 1 <= steps) by (nonlinear_arith)
                    requires
                        (taken + 1) * block_len <= pending.len(),
                        pending.len() == block_len * steps + pending.len() as int % block_len,
                        0 <= pending.len() as int % block_len < block_len,
                        block_len > 0,
                ;
                assert((taken + 1) * per_block == taken * per_block + per_block)
                    by (nonlinear_arith);
                taken = taken + 1;
            }
            let answer = self.resampler.process(
                self.input_buffer.as_slice(),
                self.output_buffer.as_mut_slice(),
            );
            match put_out(answer, self.output_buffer.as_slice(), self.sizes.output_block, output) {
                Err(error) => {
                    let failure = Err(error);
                    proof {
                        lemma_joined_len(emitted, per_block);
                    }
                    assert(is_drain(
                        old(self)@,
                        input@,
                        taken,
                        emitted,
                        self@,
                        old(output)@,
                        output@,
                        failure,
                    ));
                    return failure;
                },
                Ok(written) => {
                    total_written = total_written + written;
                    proof {
                        let block = self.output_buffer@.take(written as int);
                        lemma_joined_push(emitted, block);
                        assert(old(output)@ + joined(emitted) + block =~= old(output)@ + (joined(
                            emitted,
                        ) + block));
                        emitted = emitted.push(block);
                    }
                },
            }
        }
        proof {
            if total_written <= usize::MAX - per_block {
                assert(taken == steps) by (nonlinear_arith)
                    requires
                        taken <= steps,
                        pending.len() - taken * block_len < block_len,
                        pending.len() == block_len * steps + pending.len() as int % block_len,
                        0 <= pending.len() as int % block_len < block_len,
                        block_len > 0,
                ;
            }
            assert(is_drain(
                old(self)@,
                input@,
                taken,
                emitted,
                self@,
                old(output)@,
                output@,
                Ok(total_written),
            ));
            lemma_joined_len(emitted, per_block);
        }
        Ok(total_written)
    }
}

} // verus!
