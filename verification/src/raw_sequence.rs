//! An append-only store for heterogeneous byte runs with proper alignment.
//!
//! The sequence keeps each pushed run at an offset aligned for it, up to a
//! maximum alignment of 4096 bytes, padding with zeros in between. Reading
//! walks the store front to back: a cursor names the end of the previous run,
//! and `next` aligns it, copies the run out, and returns the advanced cursor.

use crate::memory::{is_power_of_two, lemma_align_index_properties, lemma_power_of_two_pos,
    align_index, spec_align_index};
use crate::raw_vec::RawVec;
use vstd::prelude::*;

verus! {

/// Ghost record of one stored byte run.
pub ghost struct SeqEntry {
    /// The stored bytes.
    pub bytes: Seq<u8>,
    /// The alignment the run was stored with.
    pub align: nat,
    /// Zero padding inserted before the run.
    pub pad: nat,
    /// The buffer index where the run begins.
    pub start: nat,
}

/// The buffer index just past an entry's bytes.
pub open spec fn seq_entry_end(e: SeqEntry) -> nat {
    e.start + e.bytes.len()
}

/// The buffer index just past the entry below index `i` (zero at the front).
pub open spec fn seq_prev_end(es: Seq<SeqEntry>, i: int) -> nat {
    if i == 0 {
        0
    } else {
        seq_entry_end(es[i - 1])
    }
}

/// The bytes one entry contributes: zero padding, then the run.
pub open spec fn seq_entry_bytes(e: SeqEntry) -> Seq<u8> {
    Seq::new(e.pad, |i: int| 0u8) + e.bytes
}

/// The whole buffer contents determined by the stored runs.
pub open spec fn seq_code(es: Seq<SeqEntry>) -> Seq<u8>
    decreases es.len(),
{
    if es.len() == 0 {
        Seq::<u8>::empty()
    } else {
        seq_code(es.drop_last()) + seq_entry_bytes(es.last())
    }
}

/// Every run sits at the aligned index computed from the end of the run
/// before it.
pub open spec fn seq_chain(es: Seq<SeqEntry>) -> bool {
    forall|i: int|
        0 <= i < es.len() ==> {
            &&& #[trigger] es[i].start == spec_align_index(es[i].align, seq_prev_end(es, i))
            &&& es[i].pad == es[i].start - seq_prev_end(es, i)
            &&& is_power_of_two(es[i].align)
        }
}

/// The buffer index just past the last run (zero when empty).
pub open spec fn seq_end(es: Seq<SeqEntry>) -> nat {
    if es.len() == 0 {
        0
    } else {
        seq_entry_end(es.last())
    }
}

/// Under `seq_chain`, the encoded bytes end exactly at `seq_end`.
#[verifier::rlimit(100)]
proof fn lemma_seq_code_len(es: Seq<SeqEntry>)
    requires
        seq_chain(es),
    ensures
        seq_code(es).len() == seq_end(es),
    decreases es.len(),
{
    if es.len() > 0 {
        let front = es.drop_last();
        assert(seq_chain(front)) by {
            assert(forall|i: int| 0 <= i < front.len() ==> front[i] == es[i]);
            assert(forall|i: int|
                0 <= i < front.len() ==> seq_prev_end(front, i) == seq_prev_end(es, i));
        }
        lemma_seq_code_len(front);
        let i = es.len() - 1;
        assert(es[i].start == spec_align_index(es[i].align, seq_prev_end(es, i)));
        assert(seq_end(front) == seq_prev_end(es, i));
    }
}

/// No run ends past the end of the store.
#[verifier::rlimit(100)]
proof fn lemma_seq_end_bound(es: Seq<SeqEntry>, i: int)
    requires
        seq_chain(es),
        0 <= i < es.len(),
    ensures
        seq_entry_end(es[i]) <= seq_end(es),
        es[i].start >= seq_prev_end(es, i),
    decreases es.len(),
{
    assert(es[i].start == spec_align_index(es[i].align, seq_prev_end(es, i)));
    lemma_power_of_two_pos(es[i].align);
    lemma_align_index_properties(es[i].align, seq_prev_end(es, i));
    if i < es.len() - 1 {
        let front = es.drop_last();
        assert(seq_chain(front)) by {
            assert(forall|k: int| 0 <= k < front.len() ==> front[k] == es[k]);
            assert(forall|k: int|
                0 <= k < front.len() ==> seq_prev_end(front, k) == seq_prev_end(es, k));
        }
        lemma_seq_end_bound(front, i);
        let j = es.len() - 1;
        assert(es[j].start == spec_align_index(es[j].align, seq_prev_end(es, j)));
        lemma_power_of_two_pos(es[j].align);
        lemma_align_index_properties(es[j].align, seq_prev_end(es, j));
        assert(seq_end(front) == seq_prev_end(es, j));
    }
}

/// Reading a run's byte range out of the encoded store gives back the run.
#[verifier::rlimit(100)]
proof fn lemma_seq_read(es: Seq<SeqEntry>, i: int)
    requires
        seq_chain(es),
        0 <= i < es.len(),
    ensures
        seq_code(es).subrange(es[i].start as int, seq_entry_end(es[i]) as int) == es[i].bytes,
    decreases es.len(),
{
    lemma_seq_code_len(es);
    let front = es.drop_last();
    assert(seq_chain(front)) by {
        assert(forall|k: int| 0 <= k < front.len() ==> front[k] == es[k]);
        assert(forall|k: int|
            0 <= k < front.len() ==> seq_prev_end(front, k) == seq_prev_end(es, k));
    }
    lemma_seq_code_len(front);
    if i == es.len() - 1 {
        assert(es[i].start == spec_align_index(es[i].align, seq_prev_end(es, i)));
        assert(seq_end(front) == seq_prev_end(es, i));
        assert(seq_code(es) == seq_code(front) + seq_entry_bytes(es.last()));
        assert(seq_code(es).subrange(es[i].start as int, seq_entry_end(es[i]) as int)
            =~= es[i].bytes);
    } else {
        lemma_seq_read(front, i);
        lemma_seq_end_bound(front, i);
        assert(seq_code(es) == seq_code(front) + seq_entry_bytes(es.last()));
        assert(seq_code(es).subrange(es[i].start as int, seq_entry_end(es[i]) as int)
            =~= seq_code(front).subrange(es[i].start as int, seq_entry_end(es[i]) as int));
    }
}

/// A sequence that stores heterogeneous byte runs with proper alignment, up
/// to a maximum alignment of 4096 bytes.
pub struct RawSequence {
    buffer: RawVec,
    entries: Ghost<Seq<SeqEntry>>,
}

/// The base alignment of every sequence, and the largest run alignment it
/// accepts.
pub open spec fn max_sequence_align() -> nat {
    4096
}

impl RawSequence {
    /// The stored runs, in push order.
    pub closed spec fn entries_view(&self) -> Seq<SeqEntry> {
        self.entries@
    }

    /// The stored runs' bytes, in push order.
    pub open spec fn runs(&self) -> Seq<Seq<u8>> {
        self.entries_view().map_values(|e: SeqEntry| e.bytes)
    }

    /// The buffer length in bytes.
    pub closed spec fn byte_len(&self) -> nat {
        self.buffer.bytes().len()
    }

    /// The store invariant: the buffer is exactly the aligned encoding of
    /// the stored runs.
    pub closed spec fn wf(&self) -> bool {
        &&& self.buffer.wf()
        &&& seq_chain(self.entries@)
        &&& self.buffer.bytes() == seq_code(self.entries@)
        &&& self.byte_len() == seq_end(self.entries@)
        &&& forall|i: int|
            0 <= i < self.entries@.len() ==> (#[trigger] self.entries@[i].align)
                <= max_sequence_align()
    }

    /// Creates a new empty `RawSequence` with a 4096-byte aligned buffer.
    pub fn new() -> (r: Self)
        ensures
            r.wf(),
            r.entries_view() == Seq::<SeqEntry>::empty(),
            r.byte_len() == 0,
    {
        proof {
            reveal_with_fuel(is_power_of_two, 14);
            assert(is_power_of_two(4096nat));
        }
        let r = RawSequence { buffer: RawVec::with_base_alignment(4096), entries: Ghost(
            Seq::empty(),
        ) };
        proof {
            assert(seq_code(r.entries@) =~= Seq::<u8>::empty());
        }
        r
    }

    /// Pushes a byte run with the given alignment onto the sequence. The
    /// run is stored at the next index aligned for it.
    #[verifier::rlimit(100)]
    #[verifier::spinoff_prover]
    pub fn push(&mut self, value: Vec<u8>, align: usize) -> (at: usize)
        requires
            old(self).wf(),
            is_power_of_two(align as nat),
            align <= 4096,
            old(self).byte_len() + align + value@.len() <= usize::MAX,
        ensures
            final(self).wf(),
            final(self).entries_view() == old(self).entries_view().push(
                final(self).entries_view().last(),
            ),
            final(self).entries_view().last().bytes == value@,
            final(self).entries_view().last().align == align as nat,
            final(self).entries_view().last().start == spec_align_index(
                align as nat,
                old(self).byte_len(),
            ),
            at == final(self).entries_view().last().start,
            final(self).byte_len() == spec_align_index(align as nat, old(self).byte_len())
                + value@.len(),
    {
        let len = self.buffer.len();
        proof {
            lemma_power_of_two_pos(align as nat);
            lemma_align_index_properties(align as nat, len as nat);
        }
        let aligned = align_index(align, len);
        let new_len = aligned + value.len();
        self.buffer.reserve(new_len - len);
        self.buffer.set_len(new_len);
        self.buffer.write_run(aligned, &value);
        let ghost e = SeqEntry {
            bytes: value@,
            align: align as nat,
            pad: (aligned - len) as nat,
            start: aligned as nat,
        };
        proof {
            let es0 = old(self).entries@;
            let es1 = es0.push(e);
            self.entries@ = es1;
            lemma_seq_code_len(es0);
            assert(es1.drop_last() =~= es0);
            assert(es1.last() == e);
            assert(self.buffer.bytes() =~= seq_code(es0) + seq_entry_bytes(e));
            assert(seq_code(es1) == seq_code(es0) + seq_entry_bytes(e));
            assert(seq_chain(es1)) by {
                assert(forall|i: int| 0 <= i < es0.len() ==> es1[i] == es0[i]);
                assert(forall|i: int|
                    0 <= i < es0.len() ==> seq_prev_end(es1, i) == seq_prev_end(es0, i));
                assert(seq_prev_end(es1, es0.len() as int) == seq_end(es0));
            }
        }
        aligned
    }

    /// True when reading at cursor `p` with the given size and alignment
    /// addresses run `i`.
    pub open spec fn valid_read(&self, i: int, p: nat, size: nat, align: nat) -> bool {
        &&& 0 <= i < self.entries_view().len()
        &&& p == seq_prev_end(self.entries_view(), i)
        &&& self.entries_view()[i].align == align
        &&& self.entries_view()[i].bytes.len() == size
    }

    /// Retrieves a copy of the run at cursor `p`, which must name the end of
    /// the previous run; returns the run and the cursor just past it.
    #[verifier::rlimit(100)]
    pub fn next(&self, p: usize, size: usize, align: usize) -> (r: (Vec<u8>, usize))
        requires
            self.wf(),
            is_power_of_two(align as nat),
            exists|i: int| self.valid_read(i, p as nat, size as nat, align as nat),
        ensures
            forall|i: int|
                self.valid_read(i, p as nat, size as nat, align as nat) ==> {
                    &&& r.0@ == self.entries_view()[i].bytes
                    &&& r.1 == seq_entry_end(self.entries_view()[i])
                },
    {
        let ghost i = choose|i: int| self.valid_read(i, p as nat, size as nat, align as nat);
        proof {
            lemma_power_of_two_pos(align as nat);
            lemma_align_index_properties(align as nat, p as nat);
            lemma_seq_end_bound(self.entries@, i);
            lemma_seq_code_len(self.entries@);
            assert(self.entries@[i].start == spec_align_index(align as nat, p as nat));
        }
        let aligned = align_index(align, p);
        proof {
            lemma_seq_read(self.entries@, i);
        }
        let run = self.buffer.read_run(aligned, size);
        let r = (run, aligned + size);
        proof {
            assert forall|k: int|
                self.valid_read(k, p as nat, size as nat, align as nat) implies {
                &&& r.0@ == self.entries_view()[k].bytes
                &&& r.1 == seq_entry_end(self.entries_view()[k])
            } by {
                assert(self.entries@[k].start == spec_align_index(align as nat, p as nat));
                lemma_seq_read(self.entries@, k);
            }
        }
        r
    }

    /// Advances the cursor past the run at `p` without reading it. The runs
    /// hold plain bytes, so stepping over one releases nothing.
    pub fn drop_in_place(&mut self, p: usize, size: usize, align: usize) -> (r: usize)
        requires
            old(self).wf(),
            is_power_of_two(align as nat),
            exists|i: int| old(self).valid_read(i, p as nat, size as nat, align as nat),
        ensures
            *final(self) == *old(self),
            forall|i: int|
                old(self).valid_read(i, p as nat, size as nat, align as nat) ==> r
                    == seq_entry_end(old(self).entries_view()[i]),
    {
        let ghost i = choose|i: int| old(self).valid_read(i, p as nat, size as nat, align as nat);
        proof {
            lemma_power_of_two_pos(align as nat);
            lemma_align_index_properties(align as nat, p as nat);
            lemma_seq_end_bound(self.entries@, i);
            assert(self.entries@[i].start == spec_align_index(align as nat, p as nat));
        }
        let aligned = align_index(align, p);
        aligned + size
    }

    /// Returns the total length of the store in bytes.
    pub fn len(&self) -> (n: usize)
        ensures
            n == self.byte_len(),
    {
        self.buffer.len()
    }

    /// Returns true when nothing has been pushed.
    pub fn is_empty(&self) -> (r: bool)
        ensures
            r == (self.byte_len() == 0),
    {
        self.buffer.is_empty()
    }
}

} // verus!
