//! A growable byte buffer whose base is aligned to a caller-chosen power of
//! two.
//!
//! The buffer models an allocation whose first byte sits on a
//! `base_alignment` boundary, so that a value written at a buffer index that
//! is a multiple of its alignment is naturally aligned in memory. Capacity is
//! tracked explicitly and grows by doubling, so `reserve` gives amortized
//! constant-time growth.

use crate::memory::is_power_of_two;
use vstd::prelude::*;

verus! {

/// A vector of bytes aligned to a given base alignment.
pub struct RawVec {
    buffer: Vec<u8>,
    base_alignment: usize,
    capacity: usize,
}

impl RawVec {
    /// The bytes currently stored, in order.
    pub closed spec fn bytes(&self) -> Seq<u8> {
        self.buffer@
    }

    /// The alignment of the buffer's base.
    pub closed spec fn spec_base_alignment(&self) -> usize {
        self.base_alignment
    }

    /// The reserved capacity, in bytes.
    pub closed spec fn spec_capacity(&self) -> usize {
        self.capacity
    }

    /// The buffer never holds more bytes than its capacity, and its base
    /// alignment is a power of two.
    pub open spec fn wf(&self) -> bool {
        &&& self.bytes().len() <= self.spec_capacity()
        &&& is_power_of_two(self.spec_base_alignment() as nat)
    }

    /// Creates a new `RawVec` with the given base alignment and no capacity.
    pub fn with_base_alignment(base_alignment: usize) -> (r: Self)
        requires
            is_power_of_two(base_alignment as nat),
        ensures
            r.wf(),
            r.bytes() == Seq::<u8>::empty(),
            r.spec_base_alignment() == base_alignment,
            r.spec_capacity() == 0,
    {
        let r = RawVec { buffer: Vec::new(), base_alignment, capacity: 0 };
        proof {
            assert(r.bytes() =~= Seq::<u8>::empty());
        }
        r
    }

    /// Creates a new `RawVec` with the given base alignment and capacity.
    pub fn with_base_alignment_and_capacity(base_alignment: usize, capacity: usize) -> (r: Self)
        requires
            is_power_of_two(base_alignment as nat),
        ensures
            r.wf(),
            r.bytes() == Seq::<u8>::empty(),
            r.spec_base_alignment() == base_alignment,
            r.spec_capacity() == capacity,
    {
        let r = RawVec { buffer: Vec::with_capacity(capacity), base_alignment, capacity };
        proof {
            assert(r.bytes() =~= Seq::<u8>::empty());
        }
        r
    }

    /// Returns the capacity of the vector in bytes.
    pub fn capacity(&self) -> (c: usize)
        ensures
            c == self.spec_capacity(),
    {
        self.capacity
    }

    /// Returns the current length of the vector in bytes.
    pub fn len(&self) -> (n: usize)
        ensures
            n == self.bytes().len(),
    {
        self.buffer.len()
    }

    /// Returns true if the vector contains no bytes.
    pub fn is_empty(&self) -> (r: bool)
        ensures
            r == (self.bytes().len() == 0),
    {
        self.buffer.len() == 0
    }

    /// Returns the base alignment the buffer was created with.
    pub fn base_alignment(&self) -> (a: usize)
        ensures
            a == self.spec_base_alignment(),
    {
        self.base_alignment
    }

    /// Reserves capacity for at least `addition` more bytes, doubling the
    /// current capacity when that is larger. Does nothing if the capacity is
    /// already sufficient.
    pub fn reserve(&mut self, addition: usize)
        requires
            old(self).wf(),
            old(self).bytes().len() + addition <= usize::MAX,
        ensures
            final(self).wf(),
            final(self).bytes() == old(self).bytes(),
            final(self).spec_base_alignment() == old(self).spec_base_alignment(),
            final(self).spec_capacity() >= old(self).bytes().len() + addition,
            final(self).spec_capacity() >= old(self).spec_capacity(),
            old(self).bytes().len() + addition <= old(self).spec_capacity()
                ==> final(self).spec_capacity() == old(self).spec_capacity(),
            old(self).bytes().len() + addition > old(self).spec_capacity()
                ==> final(self).spec_capacity() == ({
                let needed = old(self).bytes().len() + addition;
                let doubled: int = if old(self).spec_capacity() <= usize::MAX / 2 {
                    2 * old(self).spec_capacity()
                } else {
                    usize::MAX as int
                };
                if needed > doubled {
                    needed
                } else {
                    doubled
                }
            }),
    {
        let needed = self.buffer.len() + addition;
        if needed > self.capacity {
            let doubled = if self.capacity <= usize::MAX / 2 {
                self.capacity * 2
            } else {
                usize::MAX
            };
            self.capacity = if needed > doubled {
                needed
            } else {
                doubled
            };
            self.buffer.reserve(addition);
        }
    }

    /// Sets the length of the vector. Bytes beyond the old length are zero.
    pub fn set_len(&mut self, len: usize)
        requires
            old(self).wf(),
            len <= old(self).spec_capacity(),
        ensures
            final(self).wf(),
            final(self).spec_base_alignment() == old(self).spec_base_alignment(),
            final(self).spec_capacity() == old(self).spec_capacity(),
            final(self).bytes().len() == len,
            len <= old(self).bytes().len() ==> final(self).bytes() == old(self).bytes().subrange(
                0,
                len as int,
            ),
            len > old(self).bytes().len() ==> final(self).bytes() == old(self).bytes() + Seq::new(
                (len - old(self).bytes().len()) as nat,
                |i: int| 0u8,
            ),
    {
        if len <= self.buffer.len() {
            self.buffer.truncate(len);
        } else {
            let ghost start = self.buffer@;
            while self.buffer.len() < len
                invariant
                    start.len() < len,
                    start.len() <= self.buffer@.len() <= len,
                    len <= self.capacity,
                    self.base_alignment == old(self).base_alignment,
                    self.capacity == old(self).capacity,
                    is_power_of_two(self.base_alignment as nat),
                    self.buffer@ == start + Seq::new(
                        (self.buffer@.len() - start.len()) as nat,
                        |i: int| 0u8,
                    ),
                decreases len - self.buffer@.len(),
            {
                self.buffer.push(0u8);
                proof {
                    assert(self.buffer@ =~= start + Seq::new(
                        (self.buffer@.len() - start.len()) as nat,
                        |i: int| 0u8,
                    ));
                }
            }
        }
    }

    /// Shortens the vector, keeping the first `len` bytes. Has no effect if
    /// `len` is at or above the current length.
    pub fn truncate(&mut self, len: usize)
        requires
            old(self).wf(),
        ensures
            final(self).wf(),
            final(self).spec_base_alignment() == old(self).spec_base_alignment(),
            final(self).spec_capacity() == old(self).spec_capacity(),
            len <= old(self).bytes().len() ==> final(self).bytes() == old(self).bytes().subrange(
                0,
                len as int,
            ),
            len > old(self).bytes().len() ==> final(self).bytes() == old(self).bytes(),
    {
        self.buffer.truncate(len);
    }

    /// Reads the byte at index `i`.
    pub fn get_byte(&self, i: usize) -> (b: u8)
        requires
            i < self.bytes().len(),
        ensures
            b == self.bytes()[i as int],
    {
        self.buffer[i]
    }

    /// Overwrites the byte at index `i`.
    pub fn set_byte(&mut self, i: usize, b: u8)
        requires
            old(self).wf(),
            i < old(self).bytes().len(),
        ensures
            final(self).wf(),
            final(self).spec_base_alignment() == old(self).spec_base_alignment(),
            final(self).spec_capacity() == old(self).spec_capacity(),
            final(self).bytes() == old(self).bytes().update(i as int, b),
    {
        self.buffer[i] = b;
    }

    /// Overwrites the run of bytes starting at `at` with `src`.
    pub fn write_run(&mut self, at: usize, src: &Vec<u8>)
        requires
            old(self).wf(),
            at + src@.len() <= old(self).bytes().len(),
        ensures
            final(self).wf(),
            final(self).spec_base_alignment() == old(self).spec_base_alignment(),
            final(self).spec_capacity() == old(self).spec_capacity(),
            final(self).bytes() == old(self).bytes().subrange(0, at as int) + src@ + old(
                self,
            ).bytes().subrange(at + src@.len(), old(self).bytes().len() as int),
    {
        let mut i: usize = 0;
        while i < src.len()
            invariant
                self.wf(),
                i <= src@.len(),
                at + src@.len() <= self.bytes().len(),
                self.spec_base_alignment() == old(self).spec_base_alignment(),
                self.spec_capacity() == old(self).spec_capacity(),
                self.bytes().len() == old(self).bytes().len(),
                forall|j: int|
                    0 <= j < self.bytes().len() && !(at <= j < at + i) ==> self.bytes()[j] == old(
                        self,
                    ).bytes()[j],
                forall|j: int| 0 <= j < i ==> self.bytes()[at + j] == src@[j],
            decreases src@.len() - i,
        {
            self.buffer[at + i] = src[i];
            i += 1;
        }
        proof {
            assert(self.bytes() =~= old(self).bytes().subrange(0, at as int) + src@ + old(
                self,
            ).bytes().subrange(at + src@.len(), old(self).bytes().len() as int));
        }
    }

    /// Copies out the run of `count` bytes starting at `start`.
    pub fn read_run(&self, start: usize, count: usize) -> (r: Vec<u8>)
        requires
            start + count <= self.bytes().len(),
        ensures
            r@ == self.bytes().subrange(start as int, start + count),
    {
        let n = self.buffer.len();
        let mut r: Vec<u8> = Vec::new();
        let mut i: usize = 0;
        while i < count
            invariant
                i <= count,
                start + count <= n,
                n == self.bytes().len(),
                r@ == self.bytes().subrange(start as int, start + i),
            decreases count - i,
        {
            r.push(self.buffer[start + i]);
            i += 1;
            proof {
                assert(r@ =~= self.bytes().subrange(start as int, start + i));
            }
        }
        r
    }
}

} // verus!
