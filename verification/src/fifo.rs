//! A bounded first-in-first-out queue of bytes, the size of the chip's FIFO.
use vstd::prelude::*;
use crate::error::Error;

verus! {

/// The number of bytes that the FIFO holds at most.
pub const FIFO_CAPACITY: usize = 64;

/// A queue of at most [`FIFO_CAPACITY`] bytes.
///
/// The bytes live in a ring: `level` of them, the oldest at `head`. The view
/// is the queue's content, oldest byte first, so the level is the length of
/// the view by construction.
pub struct FifoBuffer {
    slots: [u8; 64],
    head: usize,
    level: usize,
}

impl View for FifoBuffer {
    type V = Seq<u8>;

    closed spec fn view(&self) -> Seq<u8> {
        Seq::new(self.level as nat, |i: int| self.slots@[(self.head + i) % 64])
    }
}

impl Default for FifoBuffer {
    fn default() -> (fifo: Self)
        ensures
            fifo@ == Seq::<u8>::empty(),
    {
        FifoBuffer::new()
    }
}

impl FifoBuffer {
    #[verifier::type_invariant]
    spec fn in_bounds(&self) -> bool {
        self.head < 64 && self.level <= 64
    }

    /// An empty queue.
    pub fn new() -> (fifo: Self)
        ensures
            fifo@ == Seq::<u8>::empty(),
    {
        let fifo = FifoBuffer { slots: [0u8; 64], head: 0, level: 0 };
        assert(fifo@ =~= Seq::<u8>::empty());
        fifo
    }

    /// The number of bytes in the queue.
    pub fn level(&self) -> (level: u8)
        ensures
            level == self@.len(),
            level <= FIFO_CAPACITY,
    {
        proof {
            use_type_invariant(self);
        }
        self.level as u8
    }

    /// The number of bytes that can still be pushed.
    pub fn remaining(&self) -> (room: usize)
        ensures
            room == FIFO_CAPACITY - self@.len(),
    {
        proof {
            use_type_invariant(self);
        }
        64 - self.level
    }

    /// Appends `bytes`, all of them or none.
    ///
    /// Fails with [`Error::Overflow`] exactly when `bytes` is longer than the
    /// room that is left, and then leaves the queue as it was.
    pub fn push(&mut self, bytes: &[u8]) -> (result: Result<(), Error>)
        ensures
            result is Ok <==> old(self)@.len() + bytes@.len() <= FIFO_CAPACITY,
            result is Ok ==> final(self)@ == old(self)@ + bytes@,
            result is Err ==> result == Err::<(), Error>(Error::Overflow) && *final(self) == *old(
                self,
            ),
    {
        proof {
            use_type_invariant(&*self);
        }
        let count = bytes.len();
        if count > 64 - self.level {
            return Err(Error::Overflow);
        }
        let mut i: usize = 0;
        while i < count
            invariant
                i <= count,
                count == bytes@.len(),
                self.head == old(self).head,
                self.head < 64,
                self.level == old(self).level + i,
                old(self).level + count <= 64,
                self@ == old(self)@ + bytes@.take(i as int),
            decreases count - i,
        {
            let slot = (self.head + self.level) % 64;
            let ghost before = *self;
            self.slots[slot] = bytes[i];
            self.level = self.level + 1;
            i = i + 1;
            assert(self@ =~= before@.push(bytes@[i - 1]));
            assert(bytes@.take(i as int) =~= bytes@.take(i - 1).push(bytes@[i - 1]));
        }
        assert(bytes@.take(count as int) =~= bytes@);
        Ok(())
    }

    /// Removes the `count` oldest bytes and returns them, oldest first.
    ///
    /// Fails with [`Error::Underflow`] exactly when the queue holds fewer than
    /// `count` bytes, and then leaves the queue as it was.
    pub fn pull(&mut self, count: usize) -> (result: Result<Vec<u8>, Error>)
        ensures
            result is Ok <==> count <= old(self)@.len(),
            result matches Ok(bytes) ==> bytes@ == old(self)@.take(count as int) && final(self)@
                == old(self)@.skip(count as int),
            result is Err ==> result == Err::<Vec<u8>, Error>(Error::Underflow) && *final(self)
                == *old(self),
    {
        proof {
            use_type_invariant(&*self);
        }
        if count > self.level {
            return Err(Error::Underflow);
        }
        let mut bytes: Vec<u8> = Vec::new();
        let mut i: usize = 0;
        while i < count
            invariant
                i <= count,
                self.head < 64,
                self.level == old(self).level - i,
                count <= old(self).level <= 64,
                bytes@ == old(self)@.take(i as int),
                self@ == old(self)@.skip(i as int),
            decreases count - i,
        {
            let ghost before = *self;
            bytes.push(self.slots[self.head]);
            self.head = (self.head + 1) % 64;
            self.level = self.level - 1;
            i = i + 1;
            assert(before@[0] == before.slots@[before.head as int]);
            assert(self@ =~= before@.skip(1));
            assert(before@.skip(1) =~= old(self)@.skip(i as int));
            assert(bytes@ =~= old(self)@.take(i as int));
        }
        Ok(bytes)
    }

    /// Empties the queue.
    pub fn clear(&mut self)
        ensures
            final(self)@ == Seq::<u8>::empty(),
    {
        proof {
            use_type_invariant(&*self);
        }
        self.level = 0;
        assert(self@ =~= Seq::<u8>::empty());
    }

    /// A copy of the queue's content, oldest byte first. The queue keeps it.
    pub fn contents(&self) -> (bytes: Vec<u8>)
        ensures
            bytes@ == self@,
            bytes@.len() <= FIFO_CAPACITY,
    {
        proof {
            use_type_invariant(self);
        }
        let mut bytes: Vec<u8> = Vec::new();
        let mut i: usize = 0;
        while i < self.level
            invariant
                i <= self.level <= 64,
                self.head < 64,
                bytes@ == self@.take(i as int),
            decreases self.level - i,
        {
            bytes.push(self.slots[(self.head + i) % 64]);
            i = i + 1;
            assert(bytes@ =~= self@.take(i as int));
        }
        assert(self@.take(self.level as int) =~= self@);
        bytes
    }
}

/// Bytes that are pushed into an empty queue and pulled at once come back as
/// they went in, and the queue is empty again.
pub proof fn lemma_push_then_pull(bytes: Seq<u8>)
    ensures
        (Seq::<u8>::empty() + bytes).take(bytes.len() as int) == bytes,
        (Seq::<u8>::empty() + bytes).skip(bytes.len() as int) == Seq::<u8>::empty(),
{
    assert((Seq::<u8>::empty() + bytes).take(bytes.len() as int) =~= bytes);
    assert((Seq::<u8>::empty() + bytes).skip(bytes.len() as int) =~= Seq::<u8>::empty());
}

} // verus!
