//! A LIFO stack of heterogeneous values over an aligned byte buffer.
//!
//! Values are stored back to back with natural alignment. When a push has to
//! insert padding, the padding is written as a `0x01` sentinel byte followed
//! by zeros; a pop that is told its value was padded scans backwards over the
//! zeros and consumes the sentinel, which restores the exact buffer length
//! from before the push. Scalar values are stored as their little-endian
//! encoding; strings and drop tokens live in a side arena and the stack
//! holds their eight-byte handle.
//!
//! The ghost state [`StackEntry`] records, per live value, its mathematical
//! value, the padding inserted beneath it, the buffer index where its bytes
//! begin, and its arena handle. The well-formedness predicate ties the byte
//! buffer and arena to that ghost stack, which is what the contracts of
//! `push`, `pop` and `drop` speak of.

use crate::memory::{is_power_of_two, lemma_align_index_properties, lemma_power_of_two_pos,
    align_index, spec_align_index};
use crate::raw_vec::RawVec;
use crate::value::{AbsVal, HeapVal, Tag, Value, destroy_value, is_arena_tag,
    lemma_entry_code_len, lemma_tag_align_power_of_two, spec_entry_code, spec_tag_align,
    spec_tag_size, tag_align, tag_size, tag_of};
use vstd::prelude::*;

verus! {

/// Ghost record of one live stack value.
pub ghost struct StackEntry {
    /// The mathematical value.
    pub v: AbsVal,
    /// How many padding bytes sit directly beneath the value's bytes.
    pub pad: nat,
    /// The buffer index where the value's bytes begin.
    pub start: nat,
    /// The arena slot holding the payload, for string and token values.
    pub handle: nat,
}

/// The buffer index just past an entry's bytes.
pub open spec fn entry_end(e: StackEntry) -> nat {
    e.start + spec_tag_size(tag_of(e.v))
}

/// The buffer index just past the entry below index `i` (zero at the bottom).
pub open spec fn prev_end(es: Seq<StackEntry>, i: int) -> nat {
    if i == 0 {
        0
    } else {
        entry_end(es[i - 1])
    }
}

/// The byte pattern of a padding run: a `0x01` sentinel, then zeros.
pub open spec fn pad_run(p: nat) -> Seq<u8> {
    if p == 0 {
        Seq::<u8>::empty()
    } else {
        seq![1u8] + Seq::new((p - 1) as nat, |i: int| 0u8)
    }
}

/// The bytes one entry contributes to the buffer: its padding run, then its
/// value or handle encoding.
pub open spec fn entry_bytes(e: StackEntry) -> Seq<u8> {
    pad_run(e.pad) + spec_entry_code(e.v, e.handle)
}

/// The whole buffer contents determined by a ghost stack.
pub open spec fn stack_code(es: Seq<StackEntry>) -> Seq<u8>
    decreases es.len(),
{
    if es.len() == 0 {
        Seq::<u8>::empty()
    } else {
        stack_code(es.drop_last()) + entry_bytes(es.last())
    }
}

/// Every entry sits at the aligned index computed from the end of the entry
/// below it, with its padding recording exactly the gap.
pub open spec fn entries_chain(es: Seq<StackEntry>) -> bool {
    forall|i: int|
        0 <= i < es.len() ==> {
            let a = spec_tag_align(tag_of(es[i].v));
            &&& #[trigger] es[i].start == spec_align_index(a, prev_end(es, i))
            &&& es[i].pad == es[i].start - prev_end(es, i)
        }
}

/// The buffer index just past the topmost entry (zero when empty).
pub open spec fn stack_end(es: Seq<StackEntry>) -> nat {
    if es.len() == 0 {
        0
    } else {
        entry_end(es.last())
    }
}

/// Under `entries_chain`, the bytes of a ghost stack end exactly at
/// `stack_end`.
#[verifier::rlimit(100)]
pub proof fn lemma_stack_code_len(es: Seq<StackEntry>)
    requires
        entries_chain(es),
    ensures
        stack_code(es).len() == stack_end(es),
    decreases es.len(),
{
    if es.len() > 0 {
        let front = es.drop_last();
        assert(entries_chain(front)) by {
            assert(forall|i: int| 0 <= i < front.len() ==> front[i] == es[i]);
            assert(forall|i: int|
                0 <= i < front.len() ==> prev_end(front, i) == prev_end(es, i));
        }
        lemma_stack_code_len(front);
        lemma_entry_code_len(es.last().v, es.last().handle);
        let i = es.len() - 1;
        assert(es[i].start == spec_align_index(
            spec_tag_align(tag_of(es[i].v)),
            prev_end(es, i),
        ));
        assert(stack_end(front) == prev_end(es, i));
    }
}

/// An arena slot matches a stack value when it holds that value's payload.
pub open spec fn slot_matches(slot: Option<HeapVal>, v: AbsVal) -> bool {
    match v {
        AbsVal::Str(sq) => match slot {
            Some(HeapVal::Str(s)) => s@ == sq,
            _ => false,
        },
        AbsVal::Token(c) => match slot {
            Some(HeapVal::Token(c2)) => c2 == c,
            _ => false,
        },
        _ => true,
    }
}

/// Every arena-backed entry points at a live arena slot holding its payload,
/// and no two live entries share a slot.
pub open spec fn arena_ok(es: Seq<StackEntry>, heap: Seq<Option<HeapVal>>) -> bool {
    &&& forall|i: int|
        0 <= i < es.len() && is_arena_tag(tag_of(#[trigger] es[i].v)) ==> {
            &&& es[i].handle < heap.len()
            &&& slot_matches(heap[es[i].handle as int], es[i].v)
        }
    &&& forall|i: int, j: int|
        0 <= i < es.len() && 0 <= j < es.len() && i != j && is_arena_tag(
            tag_of(#[trigger] es[i].v),
        ) && is_arena_tag(tag_of(#[trigger] es[j].v)) ==> es[i].handle != es[j].handle
}

/// A byte sequence that keeps an old buffer, then shows a sentinel padding
/// run, then a value's code, is exactly the concatenation of the three.
#[verifier::rlimit(100)]
proof fn lemma_bytes_form(b0: Seq<u8>, b: Seq<u8>, len: nat, pad: nat, code: Seq<u8>)
    requires
        b0.len() == len,
        b.len() == len + pad + code.len(),
        forall|j: int| 0 <= j < len ==> b[j] == b0[j],
        pad > 0 ==> b[len as int] == 1u8,
        forall|j: int| len < j < len + pad ==> b[j] == 0u8,
        forall|j: int| len + pad <= j < b.len() ==> b[j] == code[j - len - pad],
    ensures
        b == b0 + pad_run(pad) + code,
{
    assert(pad_run(pad).len() == pad);
    assert(forall|k: int| 0 < k < pad ==> #[trigger] pad_run(pad)[k] == 0u8);
    assert(b =~= b0 + pad_run(pad) + code);
}

/// Appending a correctly padded and chained entry keeps the stack
/// well-formed: the chain extends, the bytes are the old bytes plus the
/// entry's bytes, and the arena (grown by one slot for arena values)
/// still backs every entry.
#[verifier::rlimit(100)]
proof fn lemma_push_wf(
    es0: Seq<StackEntry>,
    e: StackEntry,
    heap0: Seq<Option<HeapVal>>,
    heap1: Seq<Option<HeapVal>>,
    b: Seq<u8>,
)
    requires
        entries_chain(es0),
        arena_ok(es0, heap0),
        e.start == spec_align_index(spec_tag_align(tag_of(e.v)), stack_end(es0)),
        e.pad == e.start - stack_end(es0),
        e.start >= stack_end(es0),
        b == stack_code(es0) + pad_run(e.pad) + spec_entry_code(e.v, e.handle),
        is_arena_tag(tag_of(e.v)) ==> {
            &&& e.handle == heap0.len()
            &&& heap1.len() == heap0.len() + 1
            &&& (forall|k: int| 0 <= k < heap0.len() ==> heap1[k] == heap0[k])
            &&& slot_matches(heap1[e.handle as int], e.v)
        },
        !is_arena_tag(tag_of(e.v)) ==> heap1 == heap0,
    ensures
        entries_chain(es0.push(e)),
        b == stack_code(es0.push(e)),
        b.len() == stack_end(es0.push(e)),
        arena_ok(es0.push(e), heap1),
{
    let es1 = es0.push(e);
    assert(es1.drop_last() =~= es0);
    assert(es1.last() == e);
    assert(stack_code(es1) == stack_code(es0) + entry_bytes(e));
    assert(b =~= stack_code(es1));
    assert(entries_chain(es1)) by {
        assert(forall|i: int| 0 <= i < es0.len() ==> es1[i] == es0[i]);
        assert(forall|i: int| 0 <= i < es0.len() ==> prev_end(es1, i) == prev_end(es0, i));
        assert(prev_end(es1, es0.len() as int) == stack_end(es0));
    }
    lemma_stack_code_len(es1);
    assert(arena_ok(es1, heap1)) by {
        assert(forall|i: int| 0 <= i < es0.len() ==> es1[i] == es0[i]);
    }
}

/// Removing the topmost entry keeps the rest chained, and identifies the
/// buffer's layout: the remaining bytes, then the popped entry's padding
/// run, then its code.
#[verifier::rlimit(100)]
#[verifier::spinoff_prover]
proof fn lemma_pop_decompose(es: Seq<StackEntry>)
    requires
        entries_chain(es),
        es.len() > 0,
    ensures
        entries_chain(es.drop_last()),
        stack_code(es) == stack_code(es.drop_last()) + pad_run(es.last().pad) + spec_entry_code(
            es.last().v,
            es.last().handle,
        ),
        stack_code(es.drop_last()).len() == es.last().start - es.last().pad,
        stack_code(es).len() == stack_end(es),
        es.last().start - es.last().pad == stack_end(es.drop_last()),
        es.last().start >= es.last().pad,
{
    let front = es.drop_last();
    assert(entries_chain(front)) by {
        assert(forall|i: int| 0 <= i < front.len() ==> front[i] == es[i]);
        assert(forall|i: int| 0 <= i < front.len() ==> prev_end(front, i) == prev_end(es, i));
    }
    lemma_stack_code_len(front);
    lemma_stack_code_len(es);
    let i = es.len() - 1;
    assert(es[i].start == spec_align_index(spec_tag_align(tag_of(es[i].v)), prev_end(es, i)));
    assert(stack_end(front) == prev_end(es, i));
    assert(stack_code(es) == stack_code(front) + entry_bytes(es.last()));
    assert(entry_bytes(es.last()) == pad_run(es.last().pad) + spec_entry_code(
        es.last().v,
        es.last().handle,
    ));
    assert(stack_code(es) == stack_code(front) + pad_run(es.last().pad) + spec_entry_code(
        es.last().v,
        es.last().handle,
    )) by {
        assert(stack_code(front) + entry_bytes(es.last()) =~= stack_code(front) + pad_run(
            es.last().pad,
        ) + spec_entry_code(es.last().v, es.last().handle));
    }
}

/// After the topmost entry leaves (and its arena slot, if any, is cleared),
/// the arena still backs every remaining entry.
#[verifier::rlimit(100)]
proof fn lemma_pop_arena(
    es: Seq<StackEntry>,
    heap0: Seq<Option<HeapVal>>,
    heap1: Seq<Option<HeapVal>>,
)
    requires
        arena_ok(es, heap0),
        es.len() > 0,
        is_arena_tag(tag_of(es.last().v)) ==> heap1 == heap0.update(
            es.last().handle as int,
            None::<HeapVal>,
        ),
        !is_arena_tag(tag_of(es.last().v)) ==> heap1 == heap0,
    ensures
        arena_ok(es.drop_last(), heap1),
{
    let front = es.drop_last();
    assert(forall|i: int| 0 <= i < front.len() ==> front[i] == es[i]);
}

/// A raw stack: the aligned byte buffer, the arena for string and token
/// payloads, and the ghost stack plus the log of values the drop protocol
/// has destroyed.
pub struct RawStack {
    buffer: RawVec,
    heap: Vec<Option<HeapVal>>,
    entries: Ghost<Seq<StackEntry>>,
    destroyed: Ghost<Seq<AbsVal>>,
}

impl RawStack {
    /// The ghost stack of live values, bottom first.
    pub closed spec fn entries_view(&self) -> Seq<StackEntry> {
        self.entries@
    }

    /// The live values, bottom first.
    pub open spec fn values(&self) -> Seq<AbsVal> {
        self.entries_view().map_values(|e: StackEntry| e.v)
    }

    /// The buffer length in bytes.
    pub closed spec fn byte_len(&self) -> nat {
        self.buffer.bytes().len()
    }

    /// The values destroyed so far by the drop protocol, oldest first.
    pub closed spec fn gone(&self) -> Seq<AbsVal> {
        self.destroyed@
    }

    /// The base alignment the stack was created with.
    pub closed spec fn spec_base_alignment(&self) -> usize {
        self.buffer.spec_base_alignment()
    }

    /// The stack invariant: the byte buffer is exactly the encoding of the
    /// ghost stack, whose entries are chained with correct padding, and the
    /// arena backs every string and token entry.
    pub closed spec fn wf(&self) -> bool {
        &&& self.buffer.wf()
        &&& entries_chain(self.entries@)
        &&& self.buffer.bytes() == stack_code(self.entries@)
        &&& self.byte_len() == stack_end(self.entries@)
        &&& arena_ok(self.entries@, self.heap@)
    }

    /// Creates a new empty `RawStack` with the given base alignment.
    pub fn with_base_alignment(base_alignment: usize) -> (r: Self)
        requires
            is_power_of_two(base_alignment as nat),
        ensures
            r.wf(),
            r.values() == Seq::<AbsVal>::empty(),
            r.entries_view() == Seq::<StackEntry>::empty(),
            r.byte_len() == 0,
            r.gone() == Seq::<AbsVal>::empty(),
            r.spec_base_alignment() == base_alignment,
    {
        let r = RawStack {
            buffer: RawVec::with_base_alignment(base_alignment),
            heap: Vec::new(),
            entries: Ghost(Seq::empty()),
            destroyed: Ghost(Seq::empty()),
        };
        proof {
            assert(r.values() =~= Seq::<AbsVal>::empty());
            assert(stack_code(r.entries@) =~= Seq::<u8>::empty());
        }
        r
    }

    /// Encodes `v` into the byte run it contributes to the stack, moving
    /// string and token payloads into the arena behind a fresh handle.
    fn encode(heap: &mut Vec<Option<HeapVal>>, v: Value) -> (code: Vec<u8>)
        ensures
            code@ == spec_entry_code(v.dv(), old(heap)@.len()),
            is_arena_tag(tag_of(v.dv())) ==> {
                &&& final(heap)@.len() == old(heap)@.len() + 1
                &&& (forall|k: int|
                    0 <= k < old(heap)@.len() ==> final(heap)@[k] == old(heap)@[k])
                &&& slot_matches(final(heap)@[old(heap)@.len() as int], v.dv())
            },
            !is_arena_tag(tag_of(v.dv())) ==> final(heap)@ == old(heap)@,
    {
        proof {
            vstd::bytes::lemma_auto_spec_u32_to_from_le_bytes();
            vstd::bytes::lemma_auto_spec_u64_to_from_le_bytes();
        }
        match v {
            Value::Unit => Vec::new(),
            Value::Bool(b) => {
                let mut c: Vec<u8> = Vec::new();
                c.push(if b { 1u8 } else { 0u8 });
                c
            },
            Value::U8(x) => {
                let mut c: Vec<u8> = Vec::new();
                c.push(x);
                c
            },
            Value::U32(x) => vstd::bytes::u32_to_le_bytes(x),
            Value::U64(x) => vstd::bytes::u64_to_le_bytes(x),
            Value::Str(st) => {
                let h = heap.len();
                heap.push(Some(HeapVal::Str(st)));
                vstd::bytes::u64_to_le_bytes(h as u64)
            },
            Value::Token(c) => {
                let h = heap.len();
                heap.push(Some(HeapVal::Token(c)));
                vstd::bytes::u64_to_le_bytes(h as u64)
            },
        }
    }

    /// Rebuilds a value of kind `t` from its byte run, taking string and
    /// token payloads back out of the arena.
    fn decode(heap: &mut Vec<Option<HeapVal>>, t: Tag, code: &Vec<u8>, Ghost(ev): Ghost<AbsVal>,
        Ghost(handle): Ghost<nat>) -> (v: Value)
        requires
            tag_of(ev) == t,
            code@ == spec_entry_code(ev, handle),
            is_arena_tag(t) ==> {
                &&& handle < old(heap)@.len()
                &&& slot_matches(old(heap)@[handle as int], ev)
            },
        ensures
            v.dv() == ev,
            is_arena_tag(t) ==> final(heap)@ == old(heap)@.update(handle as int, None::<HeapVal>),
            !is_arena_tag(t) ==> final(heap)@ == old(heap)@,
    {
        proof {
            vstd::bytes::lemma_auto_spec_u32_to_from_le_bytes();
            vstd::bytes::lemma_auto_spec_u64_to_from_le_bytes();
            lemma_entry_code_len(ev, handle);
        }
        match t {
            Tag::Unit => Value::Unit,
            Tag::Bool => Value::Bool(code[0] == 1),
            Tag::U8 => Value::U8(code[0]),
            Tag::U32 => Value::U32(vstd::bytes::u32_from_le_bytes(code.as_slice())),
            Tag::U64 => Value::U64(vstd::bytes::u64_from_le_bytes(code.as_slice())),
            Tag::Str => {
                let hl = heap.len();
                let h64 = vstd::bytes::u64_from_le_bytes(code.as_slice());
                proof {
                    assert(handle < hl as nat);
                    assert(h64 == handle as u64);
                }
                let h = h64 as usize;
                let slot = heap[h].take();
                match slot {
                    Some(HeapVal::Str(st)) => Value::Str(st),
                    _ => {
                        proof {
                            assert(false);
                        }
                        Value::Unit
                    },
                }
            },
            Tag::Token => {
                let hl = heap.len();
                let h64 = vstd::bytes::u64_from_le_bytes(code.as_slice());
                proof {
                    assert(handle < hl as nat);
                    assert(h64 == handle as u64);
                }
                let h = h64 as usize;
                let slot = heap[h].take();
                match slot {
                    Some(HeapVal::Token(c)) => Value::Token(c),
                    _ => {
                        proof {
                            assert(false);
                        }
                        Value::Unit
                    },
                }
            },
        }
    }

    /// Pushes a value onto the stack, inserting sentinel padding when the
    /// current length is not aligned for it. Returns whether padding was
    /// inserted.
    #[verifier::rlimit(100)]
    #[verifier::spinoff_prover]
    pub fn push(&mut self, v: Value) -> (padded: bool)
        requires
            old(self).wf(),
            old(self).byte_len() + 16 <= usize::MAX,
        ensures
            final(self).wf(),
            final(self).entries_view() == old(self).entries_view().push(
                final(self).entries_view().last(),
            ),
            final(self).entries_view().last().v == v.dv(),
            final(self).entries_view().last().pad == spec_align_index(
                spec_tag_align(tag_of(v.dv())),
                old(self).byte_len(),
            ) - old(self).byte_len(),
            final(self).entries_view().last().start == spec_align_index(
                spec_tag_align(tag_of(v.dv())),
                old(self).byte_len(),
            ),
            final(self).values() == old(self).values().push(v.dv()),
            final(self).byte_len() == spec_align_index(
                spec_tag_align(tag_of(v.dv())),
                old(self).byte_len(),
            ) + spec_tag_size(tag_of(v.dv())),
            final(self).gone() == old(self).gone(),
            final(self).spec_base_alignment() == old(self).spec_base_alignment(),
            padded == (final(self).entries_view().last().pad > 0),
    {
        let ghost dv = v.dv();
        let t = v.tag();
        let a = tag_align(t);
        let s = tag_size(t);
        let len = self.buffer.len();
        proof {
            lemma_tag_align_power_of_two(t);
            lemma_power_of_two_pos(a as nat);
            lemma_align_index_properties(a as nat, len as nat);
        }
        let aligned = align_index(a, len);
        let new_len = aligned + s;
        let ghost pad = (aligned - len) as nat;
        self.buffer.reserve(new_len - len);
        self.buffer.set_len(new_len);
        if aligned > len {
            self.buffer.set_byte(len, 1);
        }
        let ghost handle = self.heap@.len();
        let code = Self::encode(&mut self.heap, v);
        proof {
            lemma_entry_code_len(dv, handle);
        }
        self.buffer.write_run(aligned, &code);
        let ghost e = StackEntry { v: dv, pad, start: aligned as nat, handle };
        proof {
            let es0 = old(self).entries@;
            self.entries@ = es0.push(e);
            lemma_stack_code_len(es0);
            lemma_bytes_form(stack_code(es0), self.buffer.bytes(), len as nat, pad, code@);
            lemma_push_wf(es0, e, old(self).heap@, self.heap@, self.buffer.bytes());
            assert(self.values() =~= old(self).values().push(dv));
        }
        aligned > len
    }

    /// Pops the topmost value. The caller states the value's kind and
    /// whether its push inserted padding; after the pop, the buffer length
    /// is exactly what it was before that push.
    #[verifier::rlimit(100)]
    #[verifier::spinoff_prover]
    pub fn pop(&mut self, t: Tag, padded: bool) -> (v: Value)
        requires
            old(self).wf(),
            old(self).entries_view().len() > 0,
            tag_of(old(self).entries_view().last().v) == t,
            padded == (old(self).entries_view().last().pad > 0),
        ensures
            final(self).wf(),
            v.dv() == old(self).entries_view().last().v,
            final(self).entries_view() == old(self).entries_view().drop_last(),
            final(self).values() == old(self).values().drop_last(),
            final(self).byte_len() == old(self).entries_view().last().start - old(
                self,
            ).entries_view().last().pad,
            final(self).gone() == old(self).gone(),
            final(self).spec_base_alignment() == old(self).spec_base_alignment(),
    {
        let ghost es = old(self).entries@;
        let ghost e = es.last();
        let ghost front = es.drop_last();
        let s = tag_size(t);
        proof {
            lemma_entry_code_len(e.v, e.handle);
            lemma_pop_decompose(es);
        }
        let len = self.buffer.len();
        let p = len - s;
        proof {
            assert(p == e.start);
            assert(self.buffer.bytes().subrange(p as int, p + s as int) =~= spec_entry_code(
                e.v,
                e.handle,
            ));
        }
        let code = self.buffer.read_run(p, s);
        let v = Self::decode(&mut self.heap, t, &code, Ghost(e.v), Ghost(e.handle));
        let removed: usize = if padded {
            let ghost pe = (e.start - e.pad) as nat;
            let mut count: usize = 0;
            while self.buffer.get_byte(p - 1 - count) == 0
                invariant
                    self.buffer.bytes() == stack_code(es),
                    e.pad > 0,
                    count <= e.pad - 1,
                    p == e.start,
                    s == spec_tag_size(tag_of(e.v)),
                    pe == e.start - e.pad,
                    stack_code(front).len() == pe,
                    stack_code(es) == stack_code(front) + pad_run(e.pad) + spec_entry_code(
                        e.v,
                        e.handle,
                    ),
                    p <= self.buffer.bytes().len(),
                decreases e.pad - count,
            {
                proof {
                    let j = p - 1 - count;
                    assert(pe <= j < p);
                    assert(self.buffer.bytes()[j as int] == pad_run(e.pad)[j - pe]);
                    assert(j > pe) by {
                        if j == pe {
                            assert(pad_run(e.pad)[0] == 1u8);
                        }
                    }
                }
                count = count + 1;
            }
            proof {
                let j = p - 1 - count;
                assert(self.buffer.bytes()[j as int] == pad_run(e.pad)[j - pe]);
                assert(j == pe) by {
                    if j > pe {
                        assert(pad_run(e.pad)[j - pe] == 0u8);
                    }
                }
                assert(count + 1 == e.pad);
            }
            count + 1
        } else {
            0
        };
        self.buffer.truncate(p - removed);
        proof {
            self.entries@ = front;
            assert(self.buffer.bytes() =~= stack_code(front));
            lemma_pop_arena(es, old(self).heap@, self.heap@);
            assert(self.values() =~= old(self).values().drop_last());
        }
        v
    }

    /// Pops the topmost value and destroys it: a token bumps its counter,
    /// everything else is discarded. The destroyed value is logged.
    pub fn drop(&mut self, t: Tag, padded: bool)
        requires
            old(self).wf(),
            old(self).entries_view().len() > 0,
            tag_of(old(self).entries_view().last().v) == t,
            padded == (old(self).entries_view().last().pad > 0),
        ensures
            final(self).wf(),
            final(self).entries_view() == old(self).entries_view().drop_last(),
            final(self).values() == old(self).values().drop_last(),
            final(self).byte_len() == old(self).entries_view().last().start - old(
                self,
            ).entries_view().last().pad,
            final(self).gone() == old(self).gone().push(old(self).entries_view().last().v),
            final(self).spec_base_alignment() == old(self).spec_base_alignment(),
    {
        let v = self.pop(t, padded);
        proof {
            self.destroyed@ = self.destroyed@.push(v.dv());
        }
        destroy_value(v);
    }
}


/// Law of alignment: every live value's bytes begin at a buffer index that
/// is a multiple of its kind's alignment.
pub proof fn lemma_values_aligned(s: RawStack, i: int)
    requires
        s.wf(),
        0 <= i < s.entries_view().len(),
    ensures
        s.entries_view()[i].start % spec_tag_align(tag_of(s.entries_view()[i].v)) == 0,
{
    let es = s.entries_view();
    let a = spec_tag_align(tag_of(es[i].v));
    assert(es[i].start == spec_align_index(a, prev_end(es, i)));
    lemma_tag_align_power_of_two(tag_of(es[i].v));
    lemma_power_of_two_pos(a);
    lemma_align_index_properties(a, prev_end(es, i));
}

/// Law of LIFO length restoration over whole programs: at every depth, the
/// length that popping the entry above restores — its start minus its
/// padding, which is what `pop`'s contract truncates to — equals the buffer
/// length the stack had when the entries below were the whole stack.
/// Chaining this over any run of pops in LIFO order with the matching kinds
/// and padding flags, the buffer length after the run is exactly the length
/// from before the corresponding pushes.
#[verifier::rlimit(100)]
#[verifier::spinoff_prover]
pub proof fn lemma_lifo_restoration(s: RawStack, i: int)
    requires
        s.wf(),
        0 <= i <= s.entries_view().len(),
    ensures
        stack_code(s.entries_view().take(i)).len() == stack_end(s.entries_view().take(i)),
        i < s.entries_view().len() ==> s.entries_view()[i].start - s.entries_view()[i].pad
            == stack_end(s.entries_view().take(i)),
{
    let es = s.entries_view();
    let pre = es.take(i);
    assert(entries_chain(pre)) by {
        assert(forall|k: int| 0 <= k < pre.len() ==> pre[k] == es[k]);
        assert(forall|k: int| 0 <= k < pre.len() ==> prev_end(pre, k) == prev_end(es, k));
    }
    lemma_stack_code_len(pre);
    if i < es.len() {
        assert(es[i].start == spec_align_index(
            spec_tag_align(tag_of(es[i].v)),
            prev_end(es, i),
        ));
        assert(prev_end(es, i) == stack_end(pre));
    }
}

/// Law: popping restores the buffer length from before the matching push.
/// The topmost entry's start minus its padding — the length `pop` truncates
/// to — is exactly the stack's byte length as it stood beneath that entry.
pub proof fn lemma_pop_restores_length(s: RawStack)
    requires
        s.wf(),
        s.entries_view().len() > 0,
    ensures
        s.entries_view().last().start - s.entries_view().last().pad == stack_end(
            s.entries_view().drop_last(),
        ),
{
    let es = s.entries_view();
    let i = es.len() - 1;
    assert(es[i].start == spec_align_index(spec_tag_align(tag_of(es[i].v)), prev_end(es, i)));
}

} // verus!
