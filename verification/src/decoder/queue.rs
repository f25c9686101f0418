//! The queue of compressed bytes that wait to be decoded.

use vstd::prelude::*;
use std::collections::VecDeque;

verus! {

/// A first-in, first-out queue of bytes: bytes are appended at the back and
/// removed in bulk from the front.
#[derive(Debug, Clone)]
pub struct InputQueue {
    bytes: VecDeque<u8>,
}

impl View for InputQueue {
    type V = Seq<u8>;

    /// The queued bytes, oldest first.
    closed spec fn view(&self) -> Seq<u8> {
        self.bytes@
    }
}

/// `VecDeque::as_slices`: the two slices hold, in order, the contents of the
/// deque.
#[verifier::external_body]
fn deque_as_slices(deque: &VecDeque<u8>) -> (slices: (&[u8], &[u8]))
    ensures
        slices.0@ + slices.1@ == deque@,
{
    deque.as_slices()
}

impl InputQueue {
    /// An empty queue.
    pub fn new() -> (queue: Self)
        ensures
            queue@ == Seq::<u8>::empty(),
    {
        Self { bytes: VecDeque::new() }
    }

    /// The length of a queue fits in `usize`.
    pub proof fn lemma_len_fits(&self)
        ensures
            self@.len() <= usize::MAX,
    {
        vstd::std_specs::vecdeque::axiom_spec_len(&self.bytes);
    }

    /// The number of queued bytes.
    pub fn len(&self) -> (len: usize)
        ensures
            len == self@.len(),
    {
        self.bytes.len()
    }

    /// The queued byte at `index`, counted from the front.
    pub fn get(&self, index: usize) -> (byte: u8)
        requires
            index < self@.len(),
        ensures
            byte == self@[index as int],
    {
        self.bytes[index]
    }

    /// Append `bytes` at the back.
    pub fn extend(&mut self, bytes: &[u8])
        ensures
            final(self)@ == old(self)@ + bytes@,
    {
        let mut i: usize = 0;
        while i < bytes.len()
            invariant
                i <= bytes@.len(),
                self@ == old(self)@ + bytes@.subrange(0, i as int),
            decreases bytes@.len() - i,
        {
            self.bytes.push_back(bytes[i]);
            i += 1;
            assert(self@ =~= old(self)@ + bytes@.subrange(0, i as int));
        }
        assert(bytes@.subrange(0, i as int) =~= bytes@);
    }

    /// Remove the first `count` bytes.
    pub fn drain_front(&mut self, count: usize)
        requires
            count <= old(self)@.len(),
        ensures
            final(self)@ == old(self)@.subrange(count as int, old(self)@.len() as int),
    {
        let mut i: usize = 0;
        while i < count
            invariant
                i <= count <= old(self)@.len(),
                self@ == old(self)@.subrange(i as int, old(self)@.len() as int),
            decreases count - i,
        {
            let _ = self.bytes.pop_front();
            i += 1;
            assert(self@ =~= old(self)@.subrange(i as int, old(self)@.len() as int));
        }
    }

    /// The queued bytes as two contiguous slices: the first followed by the
    /// second is the whole queue, front to back. Either may be empty.
    pub fn as_slices(&self) -> (slices: (&[u8], &[u8]))
        ensures
            slices.0@ + slices.1@ == self@,
    {
        deque_as_slices(&self.bytes)
    }
}

} // verus!
