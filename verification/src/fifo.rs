//! Small helpers on the sample queues that several parts share.

use std::collections::VecDeque;
use vstd::prelude::*;

verus! {

/// The last `count` items of `items`; all of them where there are fewer.
pub open spec fn keep_last<T>(items: Seq<T>, count: int) -> Seq<T> {
    if items.len() <= count {
        items
    } else if count <= 0 {
        Seq::empty()
    } else {
        items.subrange(items.len() - count, items.len() as int)
    }
}

/// Appends `samples` to `queue`.
pub fn push_all<T: Copy>(queue: &mut VecDeque<T>, samples: &[T])
    ensures
        final(queue)@ == old(queue)@ + samples@,
{
    let mut index: usize = 0;
    while index < samples.len()
        invariant
            index <= samples.len(),
            queue@ == old(queue)@ + samples@.take(index as int),
        decreases samples.len() - index,
    {
        queue.push_back(samples[index]);
        index = index + 1;
    }
}

/// Drops the oldest items of `queue` until at most `limit` are left.
pub fn drop_oldest<T>(queue: &mut VecDeque<T>, limit: usize)
    ensures
        final(queue)@ == keep_last(old(queue)@, limit as int),
{
    while queue.len() > limit
        invariant
            queue@.len() <= old(queue)@.len(),
            queue@.len() >= limit || queue@.len() == old(queue)@.len(),
            queue@ == old(queue)@.subrange(
                old(queue)@.len() - queue@.len(),
                old(queue)@.len() as int,
            ),
        decreases queue@.len(),
    {
        queue.pop_front();
    }
}

/// Moves the `count` oldest items of `queue` into `block`, which then holds
/// nothing else.
pub fn take_block<T>(queue: &mut VecDeque<T>, block: &mut Vec<T>, count: usize)
    requires
        old(queue)@.len() >= count,
    ensures
        final(block)@ == old(queue)@.take(count as int),
        final(queue)@ == old(queue)@.skip(count as int),
{
    block.clear();
    let mut moved: usize = 0;
    while moved < count
        invariant
            moved <= count <= old(queue)@.len(),
            block@ == old(queue)@.take(moved as int),
            queue@ == old(queue)@.skip(moved as int),
        decreases count - moved,
    {
        let item = queue.pop_front();
        match item {
            Some(value) => {
                block.push(value);
            },
            None => {
                assert(false);
            },
        }
        moved = moved + 1;
    }
}

/// Appends `samples` to `output`.
pub fn append_block<T: Copy>(output: &mut Vec<T>, samples: &[T])
    ensures
        final(output)@ == old(output)@ + samples@,
{
    let mut index: usize = 0;
    while index < samples.len()
        invariant
            index <= samples.len(),
            output@ == old(output)@ + samples@.take(index as int),
        decreases samples.len() - index,
    {
        output.push(samples[index]);
        index = index + 1;
    }
}

/// Makes `block` a copy of `samples`.
pub fn copy_block<T: Copy>(block: &mut Vec<T>, samples: &[T])
    ensures
        final(block)@ == samples@,
{
    block.clear();
    let mut index: usize = 0;
    while index < samples.len()
        invariant
            index <= samples.len(),
            block@ == samples@.take(index as int),
        decreases samples.len() - index,
    {
        block.push(samples[index]);
        index = index + 1;
    }
}

} // verus!
