//! A circular buffer of audio samples.
use vstd::prelude::*;

verus! {

/// The position `p` wrapped into a buffer of `n` slots, for `p < 2 * n`.
pub open spec fn slot(p: int, n: int) -> int {
    if p < n {
        p
    } else {
        p - n
    }
}

/// The last `n` items of `s` (all of them when it is not longer).
pub open spec fn keep_last<T>(s: Seq<T>, n: nat) -> Seq<T> {
    if s.len() <= n {
        s
    } else {
        s.subrange(s.len() - n, s.len() as int)
    }
}

/// A circular buffer for audio sample storage.
///
/// Provides FIFO storage for audio samples with automatic wraparound.
/// When the buffer is full, new data overwrites the oldest samples.
pub struct AudioRingBuffer<T> {
    buffer: Vec<T>,
    size: usize,
    write_pos: usize,
    read_pos: usize,
    count: usize,
}

impl<T: Copy> View for AudioRingBuffer<T> {
    type V = Seq<T>;

    /// The stored samples, oldest first.
    closed spec fn view(&self) -> Seq<T> {
        Seq::new(
            self.count as nat,
            |i: int| self.buffer@[slot(self.read_pos + i, self.size as int)],
        )
    }
}

impl<T: Copy> AudioRingBuffer<T> {
    /// The number of samples the buffer can hold.
    pub closed spec fn capacity(&self) -> nat {
        self.size as nat
    }

    /// The positions agree with the slots filled so far.
    pub closed spec fn wf(&self) -> bool {
        &&& self.buffer@.len() <= self.size
        &&& self.count <= self.buffer@.len()
        &&& if self.size == 0 {
            self.read_pos == 0 && self.write_pos == 0
        } else {
            self.read_pos < self.size && self.write_pos < self.size
        }
        &&& self.buffer@.len() < self.size ==> self.write_pos == self.buffer@.len()
            && self.read_pos + self.count == self.buffer@.len()
        &&& self.buffer@.len() == self.size ==> self.write_pos == slot(
            self.read_pos + self.count,
            self.size as int,
        )
    }

    /// Creates an empty ring buffer that holds up to `capacity` samples.
    pub fn new(capacity: usize) -> (r: Self)
        ensures
            r.wf(),
            r@ == Seq::<T>::empty(),
            r.capacity() == capacity,
    {
        let r = AudioRingBuffer { buffer: Vec::new(), size: capacity, write_pos: 0, read_pos: 0, count: 0 };
        assert(r@ =~= Seq::<T>::empty());
        r
    }

    fn next(&self, p: usize) -> (r: usize)
        requires
            p < self.size,
        ensures
            r == slot(p + 1, self.size as int),
    {
        if p + 1 == self.size {
            0
        } else {
            p + 1
        }
    }

    fn push_one(&mut self, sample: T)
        requires
            old(self).wf(),
            old(self).size > 0,
        ensures
            final(self).wf(),
            final(self).size == old(self).size,
            final(self)@ == keep_last(old(self)@.push(sample), old(self).size as nat),
    {
        let ghost old_view = self@;
        let n = self.size;
        if self.buffer.len() < n {
            self.buffer.push(sample);
        } else {
            self.buffer.set(self.write_pos, sample);
        }
        self.write_pos = self.next(self.write_pos);
        if self.count < n {
            self.count = self.count + 1;
            proof {
                assert(self@ =~= old_view.push(sample));
            }
        } else {
            self.read_pos = self.next(self.read_pos);
            proof {
                assert(self@ =~= old_view.push(sample).subrange(1, n as int + 1));
            }
        }
    }

    /// Adds audio samples to the buffer. If the buffer becomes full, the
    /// oldest samples are overwritten.
    pub fn push(&mut self, data: &[T])
        requires
            old(self).wf(),
            old(self).capacity() > 0 || data@.len() == 0,
        ensures
            final(self).wf(),
            final(self).capacity() == old(self).capacity(),
            final(self)@ == keep_last(old(self)@ + data@, old(self).capacity()),
    {
        let ghost start = self@;
        let ghost n = self.size as nat;
        let mut i: usize = 0;
        proof {
            assert(start + data@.subrange(0, 0) =~= start);
        }
        while i < data.len()
            invariant
                self.wf(),
                self.size == n,
                i <= data@.len(),
                n > 0 || data@.len() == 0,
                start.len() <= n,
                self@ == keep_last(start + data@.subrange(0, i as int), n),
            decreases data@.len() - i,
        {
            self.push_one(data[i]);
            proof {
                let s = start + data@.subrange(0, i as int);
                let s2 = start + data@.subrange(0, i + 1);
                assert(s2 =~= s.push(data@[i as int]));
                assert(keep_last(keep_last(s, n).push(data@[i as int]), n) =~= keep_last(s2, n));
            }
            i = i + 1;
        }
        proof {
            assert(start + data@.subrange(0, data@.len() as int) =~= start + data@);
        }
    }

    /// Takes the `chunk_size` oldest samples, or `None` (leaving the buffer
    /// as it is) when fewer are stored.
    pub fn pop_chunk(&mut self, chunk_size: usize) -> (r: Option<Vec<T>>)
        requires
            old(self).wf(),
        ensures
            final(self).wf(),
            final(self).capacity() == old(self).capacity(),
            match r {
                Some(chunk) => chunk_size <= old(self)@.len() && chunk@ == old(self)@.subrange(
                    0,
                    chunk_size as int,
                ) && final(self)@ == old(self)@.subrange(
                    chunk_size as int,
                    old(self)@.len() as int,
                ),
                None => old(self)@.len() < chunk_size && final(self)@ == old(self)@,
            },
    {
        if self.count < chunk_size {
            return None;
        }
        let ghost old_view = self@;
        let ghost r0 = self.read_pos as int;
        let mut chunk: Vec<T> = Vec::new();
        let mut k: usize = 0;
        while k < chunk_size
            invariant
                old(self).wf(),
                self.buffer == old(self).buffer,
                self.size == old(self).size,
                self.count == old(self).count,
                self.write_pos == old(self).write_pos,
                old_view == old(self)@,
                r0 == old(self).read_pos,
                k <= chunk_size <= self.count,
                self.size > 0 || chunk_size == 0,
                self.read_pos == slot(r0 + k, self.size as int),
                self.size > 0 ==> self.read_pos < self.size,
                chunk@ == old_view.subrange(0, k as int),
            decreases chunk_size - k,
        {
            chunk.push(self.buffer[self.read_pos]);
            self.read_pos = self.next(self.read_pos);
            k = k + 1;
            proof {
                assert(chunk@ =~= old_view.subrange(0, k as int));
            }
        }
        self.count = self.count - chunk_size;
        proof {
            assert(self@ =~= old_view.subrange(chunk_size as int, old_view.len() as int));
        }
        Some(chunk)
    }
}

/// Samples come out in the order they went in: when nothing is
/// overwritten, popping everything gives the stored samples followed by the
/// pushed ones.
pub proof fn lemma_ring_buffer_fifo<T>(stored: Seq<T>, data: Seq<T>, capacity: nat)
    requires
        stored.len() + data.len() <= capacity,
    ensures
        keep_last(stored + data, capacity) == stored + data,
        keep_last(stored + data, capacity).subrange(0, stored.len() as int) == stored,
{
    assert((stored + data).subrange(0, stored.len() as int) =~= stored);
}

/// Once more samples are pushed than the buffer holds, it keeps exactly the
/// newest `capacity` of them.
pub proof fn lemma_ring_buffer_keeps_newest<T>(stored: Seq<T>, data: Seq<T>, capacity: nat)
    requires
        data.len() >= capacity,
    ensures
        keep_last(stored + data, capacity) == data.subrange(
            data.len() - capacity,
            data.len() as int,
        ),
{
    let s = stored + data;
    if s.len() > capacity {
        assert(s.subrange(s.len() - capacity, s.len() as int) =~= data.subrange(
            data.len() - capacity,
            data.len() as int,
        ));
    } else {
        assert(stored.len() == 0);
        assert(data.subrange(0, data.len() as int) =~= data);
        assert(s =~= data);
    }
}

} // verus!
