//! The runtime-checked segment builder.
//!
//! [`DynSegment`] assembles a [`RawSegment`] while tracking a shadow stack
//! of value kinds, padding flags and byte positions. Every append verifies
//! that the kinds on the shadow stack match what the operation consumes and
//! refuses the operation otherwise, so a successfully built segment always
//! satisfies the executor's type checker — that is the builder's invariant,
//! and it is what lets `call0`, `call1` and `call2` hand the segment to the
//! executor.
//!
//! Conditional execution is built from *fragments*: child segments created
//! with [`DynSegment::new_fragment`] while the condition value is on top of
//! the shadow stack, so that they are laid out for the byte index at which
//! they will actually run. [`DynSegment::join2`] validates the two
//! fragments and appends a single operation that pops the boolean and runs
//! one of them.
//!
//! The shadow stack is preserved across calls: calling a segment validates
//! the declared arguments and result against the shadow but consumes
//! nothing, so a segment may be called any number of times.

use crate::error::SegError;
use crate::ops::{BinOp, FallibleUnOp, FallibleValue, TernOp, UnOp, bin_in_tag, bin_out_tag,
    fall_un_in_tag, fall_un_out_tag, spec_bin_in, spec_bin_out, spec_fall_un_in,
    spec_fall_un_out, spec_fallible_out, spec_tern_in, spec_tern_out, spec_un_in, spec_un_out,
    tern_in_tag, tern_out_tag, un_in_tag, un_out_tag};
use crate::memory::{align_index, lemma_align_index_properties, lemma_align_index_zero,
    lemma_power_of_two_pos, spec_align_index};
use crate::raw_segment::{OpRec, ROut, RawSegment, TSlot, TState, UnwindStep, check_from,
    raised_alignment,
    check_op, frame_ts, lemma_check_frame, lemma_check_snoc, lemma_ts_chain_pop,
    lemma_ts_chain_push, run_from_spec, tprev, ts_chain, ts_pop, ts_push};
use crate::value::{AbsVal, Tag, Value, lemma_tag_align_power_of_two, spec_tag_align,
    spec_tag_size, tag_align, tag_of, tag_size};
use vstd::prelude::*;

verus! {

/// Metadata for one entry of the shadow stack: the kind of the value, its
/// padding, and where its bytes begin.
#[derive(Clone, Copy)]
pub struct StackInfo {
    /// The kind of the value.
    pub stack_id: Tag,
    /// Whether the value's push inserted padding.
    pub padded: bool,
    /// How many padding bytes the push inserted.
    pub pad: usize,
    /// The byte index where the value begins.
    pub start: usize,
}

/// The shadow slot an entry describes.
pub open spec fn info_slot(s: StackInfo) -> TSlot {
    TSlot { tag: s.stack_id, pad: s.pad as nat, start: s.start as nat }
}

/// The shadow state reached by pushing the argument kinds, left to right,
/// onto an empty stack that begins at `base`.
pub open spec fn fold_args(args: Seq<Tag>, base: nat) -> TState
    decreases args.len(),
{
    if args.len() == 0 {
        TState { slots: Seq::empty(), idx: base }
    } else {
        ts_push(fold_args(args.drop_last(), base), args.last())
    }
}

/// The error reported when one of two consumed entries has the wrong kind:
/// the first mismatch in argument order, named expected-then-actual.
pub open spec fn mismatch2(exp0: Tag, act0: Tag, exp1: Tag, act1: Tag) -> SegError {
    if act0 != exp0 {
        SegError::StackTypeMismatch(exp0, act0)
    } else {
        SegError::StackTypeMismatch(exp1, act1)
    }
}

/// The error reported when one of three consumed entries has the wrong
/// kind: the first mismatch in argument order.
pub open spec fn mismatch3(
    exp0: Tag,
    act0: Tag,
    exp1: Tag,
    act1: Tag,
    exp2: Tag,
    act2: Tag,
) -> SegError {
    if act0 != exp0 {
        SegError::StackTypeMismatch(exp0, act0)
    } else if act1 != exp1 {
        SegError::StackTypeMismatch(exp1, act1)
    } else {
        SegError::StackTypeMismatch(exp2, act2)
    }
}

/// True when `r` is the outcome the run function assigns to executing
/// `ops` on the given arguments: the single final value on success, or the
/// failing operation's message.
pub open spec fn outcome_matches(ops: Vec<OpRec>, args: Seq<AbsVal>, r: Result<
    Value,
    SegError,
>) -> bool {
    match run_from_spec(ops, 0, args, Seq::empty()) {
        ROut::Good { vals, gone } => (r matches Ok(v) && vals.len() == 1 && v.dv() == vals[0]),
        ROut::Fail { msg, vals, gone } => (r matches Err(SegError::User(m2)) && m2@ == msg),
        ROut::Stuck => false,
    }
}

/// Law: a segment's outcome is a function of its operations and arguments.
/// Two calls on the same segment with the same arguments agree: both
/// succeed with the same value, or both fail with the same message.
pub proof fn lemma_outcome_deterministic(ops: Vec<OpRec>, args: Seq<AbsVal>, r1: Result<
    Value,
    SegError,
>, r2: Result<Value, SegError>)
    requires
        outcome_matches(ops, args, r1),
        outcome_matches(ops, args, r2),
    ensures
        (r1 is Ok) == (r2 is Ok),
        r1 matches Ok(a) ==> (r2 matches Ok(b) && a.dv() == b.dv()),
        r1 matches Err(e1) ==> (r2 matches Err(e2) && e1 matches SegError::User(m1)
            && e2 matches SegError::User(m2) && m1@ == m2@),
{
}

/// A segment builder that validates operation kinds as it appends.
pub struct DynSegment {
    pub(crate) segment: RawSegment,
    pub(crate) argument_ids: Vec<Tag>,
    pub(crate) stack_ids: Vec<StackInfo>,
    stack_index: usize,
    base_index: usize,
}

impl DynSegment {
    /// The recorded operations.
    pub closed spec fn op_recs(&self) -> Vec<OpRec> {
        self.segment.op_list()
    }

    /// The declared argument kinds, in argument order.
    pub closed spec fn arg_ids(&self) -> Seq<Tag> {
        self.argument_ids@
    }

    /// The shadow stack as the executor's type checker sees it.
    pub closed spec fn shadow_ts(&self) -> TState {
        TState {
            slots: self.stack_ids@.map_values(|s: StackInfo| info_slot(s)),
            idx: self.stack_index as nat,
        }
    }

    /// The byte index at which this segment's stack begins: zero, except for
    /// fragments, which begin where the parent's stack stood.
    pub closed spec fn spec_base_index(&self) -> nat {
        self.base_index as nat
    }

    /// The current predicted byte length of the execution stack.
    pub closed spec fn spec_stack_index(&self) -> nat {
        self.stack_index as nat
    }

    /// The shadow stack is internally consistent: chained from the base
    /// index, with each entry's flag agreeing with its padding.
    pub closed spec fn shadow_wf(&self) -> bool {
        &&& ts_chain(self.shadow_ts(), self.spec_base_index())
        &&& forall|i: int|
            0 <= i < self.stack_ids@.len() ==> (#[trigger] self.stack_ids@[i]).padded == (
            self.stack_ids@[i].pad > 0)
    }

    /// The builder invariant: the shadow stack is exactly what the type
    /// checker computes for the recorded operations from the argument
    /// layout.
    pub closed spec fn wf(&self) -> bool {
        &&& self.segment.wf()
        &&& self.shadow_wf()
        &&& check_from(
            self.segment.op_list(),
            0,
            fold_args(self.argument_ids@, self.spec_base_index()),
        ) == Some(self.shadow_ts())
    }

    /// The recorded base alignment of the underlying segment.
    pub closed spec fn spec_base_alignment(&self) -> usize {
        self.segment.spec_base_alignment()
    }

    /// The predicted byte length is the shadow stack's index: this is what
    /// lets a caller discharge the headroom precondition of the append
    /// methods from the shadow state their contracts describe.
    pub proof fn lemma_stack_index_agrees(&self)
        ensures
            self.spec_stack_index() == self.shadow_ts().idx,
    {
    }

    /// Creates a new empty segment taking arguments of the given kinds.
    pub fn new(argument_ids: Vec<Tag>) -> (r: DynSegment)
        requires
            argument_ids@.len() <= 4096,
        ensures
            r.wf(),
            r.arg_ids() == argument_ids@,
            r.op_recs()@ == Seq::<OpRec>::empty(),
            r.spec_base_index() == 0,
            r.shadow_ts() == fold_args(argument_ids@, 0),
    {
        let n = argument_ids.len();
        let mut stack_ids: Vec<StackInfo> = Vec::new();
        let mut stack_index: usize = 0;
        let mut i: usize = 0;
        proof {
            assert(stack_ids@.map_values(|s: StackInfo| info_slot(s)) =~= Seq::<TSlot>::empty());
            assert(fold_args(argument_ids@.take(0), 0) == (TState {
                slots: Seq::<TSlot>::empty(),
                idx: 0nat,
            }));
        }
        while i < n
            invariant
                i <= n,
                n == argument_ids@.len(),
                n <= 4096,
                stack_index <= 16 * i,
                (TState {
                    slots: stack_ids@.map_values(|s: StackInfo| info_slot(s)),
                    idx: stack_index as nat,
                }) == fold_args(argument_ids@.take(i as int), 0),
                ts_chain(
                    (TState {
                        slots: stack_ids@.map_values(|s: StackInfo| info_slot(s)),
                        idx: stack_index as nat,
                    }),
                    0,
                ),
                forall|j: int|
                    0 <= j < stack_ids@.len() ==> (#[trigger] stack_ids@[j]).padded == (
                    stack_ids@[j].pad > 0),
            decreases n - i,
        {
            let t = argument_ids[i];
            let a = tag_align(t);
            let s = tag_size(t);
            proof {
                lemma_tag_align_power_of_two(t);
                lemma_power_of_two_pos(a as nat);
                lemma_align_index_properties(a as nat, stack_index as nat);
            }
            let aligned = align_index(a, stack_index);
            let info = StackInfo {
                stack_id: t,
                padded: aligned > stack_index,
                pad: aligned - stack_index,
                start: aligned,
            };
            let ghost before = TState {
                slots: stack_ids@.map_values(|s2: StackInfo| info_slot(s2)),
                idx: stack_index as nat,
            };
            stack_ids.push(info);
            stack_index = aligned + s;
            proof {
                lemma_ts_chain_push(before, t, 0);
                assert(stack_ids@.map_values(|s2: StackInfo| info_slot(s2)) =~= before.slots.push(
                    info_slot(info),
                ));
                assert(argument_ids@.take(i + 1).drop_last() =~= argument_ids@.take(i as int));
                assert(argument_ids@.take(i + 1).last() == argument_ids@[i as int]);
            }
            i = i + 1;
        }
        proof {
            assert(argument_ids@.take(n as int) =~= argument_ids@);
        }
        let r = DynSegment {
            segment: RawSegment::new(),
            argument_ids,
            stack_ids,
            stack_index,
            base_index: 0,
        };
        r
    }

    /// Creates a fragment of this segment, to be joined back with
    /// [`DynSegment::join2`]. The fragment takes no arguments and begins at
    /// the byte index beneath the parent's topmost value — the index at
    /// which it will run once the join has popped the condition.
    pub fn new_fragment(&self) -> (r: DynSegment)
        requires
            self.wf(),
        ensures
            r.wf(),
            r.arg_ids() == Seq::<Tag>::empty(),
            r.shadow_ts().slots == Seq::<TSlot>::empty(),
            r.op_recs()@ == Seq::<OpRec>::empty(),
            self.shadow_ts().slots.len() > 0 ==> r.spec_base_index() == self.shadow_ts()
                .slots.last().start - self.shadow_ts().slots.last().pad,
            self.shadow_ts().slots.len() == 0 ==> r.spec_base_index()
                == self.spec_stack_index(),
            r.spec_stack_index() == r.spec_base_index(),
    {
        let n = self.stack_ids.len();
        let base = if n > 0 {
            let top = self.stack_ids[n - 1];
            top.start - top.pad
        } else {
            self.stack_index
        };
        let r = DynSegment {
            segment: RawSegment::new(),
            argument_ids: Vec::new(),
            stack_ids: Vec::new(),
            stack_index: base,
            base_index: base,
        };
        proof {
            assert(r.stack_ids@.map_values(|s: StackInfo| info_slot(s)) =~= Seq::<
                TSlot,
            >::empty());
            assert(r.argument_ids@ =~= Seq::<Tag>::empty());
            assert(fold_args(r.argument_ids@, r.spec_base_index()) == r.shadow_ts());
        }
        r
    }

    /// Returns the padding flags of the top `n` shadow entries, deepest
    /// first; positions past the available entries are false.
    pub fn get_last_n_padded(&self, n: usize) -> (r: Vec<bool>)
        requires
            self.wf(),
        ensures
            r@.len() == n,
            ({
                let slots = self.shadow_ts().slots;
                let count = if n <= slots.len() {
                    n as int
                } else {
                    slots.len() as int
                };
                &&& forall|i: int|
                    0 <= i < count ==> r@[i] == ((#[trigger] slots[slots.len() - count
                        + i]).pad > 0)
                &&& forall|i: int| count <= i < n ==> r@[i] == false
            }),
    {
        let len = self.stack_ids.len();
        let count = if n <= len {
            n
        } else {
            len
        };
        let start = len - count;
        let mut r: Vec<bool> = Vec::new();
        let mut i: usize = 0;
        while i < count
            invariant
                self.wf(),
                i <= count,
                count <= len,
                len == self.stack_ids@.len(),
                start == len - count,
                r@.len() == i,
                forall|j: int|
                    0 <= j < i ==> r@[j] == (#[trigger] self.stack_ids@[start + j]).padded,
            decreases count - i,
        {
            r.push(self.stack_ids[start + i].padded);
            i = i + 1;
        }
        while i < n
            invariant
                self.wf(),
                count <= i <= n,
                count <= len,
                len == self.stack_ids@.len(),
                start == len - count,
                r@.len() == i,
                forall|j: int|
                    0 <= j < count ==> r@[j] == (#[trigger] self.stack_ids@[start + j]).padded,
                forall|j: int| count <= j < i ==> r@[j] == false,
            decreases n - i,
        {
            r.push(false);
            i = i + 1;
        }
        r
    }

    /// Pushes the result kind of an appended operation onto the shadow
    /// stack, computing its padding from the current byte index.
    fn push_type(&mut self, t: Tag)
        requires
            old(self).shadow_wf(),
            old(self).spec_stack_index() + 16 <= usize::MAX,
        ensures
            final(self).shadow_wf(),
            final(self).shadow_ts() == ts_push(old(self).shadow_ts(), t),
            final(self).segment == old(self).segment,
            final(self).argument_ids == old(self).argument_ids,
            final(self).spec_base_index() == old(self).spec_base_index(),
    {
        let a = tag_align(t);
        let s = tag_size(t);
        proof {
            lemma_tag_align_power_of_two(t);
            lemma_power_of_two_pos(a as nat);
            lemma_align_index_properties(a as nat, self.stack_index as nat);
        }
        let aligned = align_index(a, self.stack_index);
        let info = StackInfo {
            stack_id: t,
            padded: aligned > self.stack_index,
            pad: aligned - self.stack_index,
            start: aligned,
        };
        let ghost before = self.shadow_ts();
        self.stack_ids.push(info);
        self.stack_index = aligned + s;
        proof {
            lemma_ts_chain_push(before, t, self.spec_base_index());
            assert(self.stack_ids@.map_values(|s2: StackInfo| info_slot(s2)) =~=
                before.slots.push(info_slot(info)));
        }
    }

    /// Removes the top shadow entry, restoring the byte index from before
    /// its push.
    fn pop_type(&mut self)
        requires
            old(self).shadow_wf(),
            old(self).stack_ids@.len() > 0,
        ensures
            final(self).shadow_wf(),
            final(self).shadow_ts() == ts_pop(old(self).shadow_ts()),
            final(self).segment == old(self).segment,
            final(self).argument_ids == old(self).argument_ids,
            final(self).spec_base_index() == old(self).spec_base_index(),
    {
        let n = self.stack_ids.len();
        let top = self.stack_ids[n - 1];
        let ghost before = self.shadow_ts();
        self.stack_ids.pop();
        self.stack_index = top.start - top.pad;
        proof {
            lemma_ts_chain_pop(before, self.spec_base_index());
            assert(self.stack_ids@.map_values(|s2: StackInfo| info_slot(s2)) =~=
                before.slots.drop_last());
        }
    }

    /// Snapshots the bottom `count` shadow entries as an unwind list, in
    /// stack order.
    fn snapshot_unwind(&self, count: usize) -> (unwind: Vec<UnwindStep>)
        requires
            count <= self.stack_ids@.len(),
        ensures
            unwind@.len() == count,
            forall|j: int|
                0 <= j < count ==> {
                    &&& (#[trigger] unwind@[j]).t == self.stack_ids@[j].stack_id
                    &&& unwind@[j].padded == self.stack_ids@[j].padded
                },
    {
        let mut unwind: Vec<UnwindStep> = Vec::new();
        let mut i: usize = 0;
        while i < count
            invariant
                i <= count,
                count <= self.stack_ids@.len(),
                unwind@.len() == i,
                forall|j: int|
                    0 <= j < i ==> {
                        &&& (#[trigger] unwind@[j]).t == self.stack_ids@[j].stack_id
                        &&& unwind@[j].padded == self.stack_ids@[j].padded
                    },
            decreases count - i,
        {
            let info = self.stack_ids[i];
            unwind.push(UnwindStep { t: info.stack_id, padded: info.padded });
            i = i + 1;
        }
        unwind
    }

    /// Pushes a nullary operation: each run pushes a copy of `v`.
    #[verifier::rlimit(100)]
    #[verifier::spinoff_prover]
    pub fn op0(&mut self, v: Value)
        requires
            old(self).wf(),
            old(self).spec_stack_index() + 16 <= usize::MAX,
        ensures
            final(self).wf(),
            final(self).op_recs()@ == old(self).op_recs()@.push(OpRec::Op0 { v }),
            final(self).arg_ids() == old(self).arg_ids(),
            final(self).spec_base_index() == old(self).spec_base_index(),
            final(self).spec_base_alignment() == raised_alignment(
                old(self).spec_base_alignment(),
                tag_of(v.dv()),
            ),
            final(self).shadow_ts() == ts_push(old(self).shadow_ts(), tag_of(v.dv())),
    {
        let t = v.tag();
        let ghost op = OpRec::Op0 { v };
        let ghost ops0 = self.segment.op_list();
        let ghost init = fold_args(self.argument_ids@, self.spec_base_index());
        self.segment.push_op0(v);
        self.push_type(t);
        proof {
            lemma_check_snoc(self.segment.op_list(), ops0, op, 0, init);
        }
    }

    /// Pushes a fallible nullary operation. If it fails at run time, every
    /// value then live on the stack is dropped in LIFO order before the
    /// error propagates.
    #[verifier::rlimit(100)]
    #[verifier::spinoff_prover]
    pub fn op0r(&mut self, src: FallibleValue)
        requires
            old(self).wf(),
            old(self).spec_stack_index() + 16 <= usize::MAX,
        ensures
            final(self).wf(),
            final(self).op_recs()@.len() == old(self).op_recs()@.len() + 1,
            final(self).op_recs()@.take(old(self).op_recs()@.len() as int) == old(
                self,
            ).op_recs()@,
            final(self).op_recs()@.last() matches OpRec::Op0r { src: s2, unwind } && s2 == src
                && unwind@.len() == old(self).shadow_ts().slots.len(),
            final(self).arg_ids() == old(self).arg_ids(),
            final(self).spec_base_index() == old(self).spec_base_index(),
            final(self).spec_base_alignment() == raised_alignment(
                old(self).spec_base_alignment(),
                spec_fallible_out(src),
            ),
            final(self).shadow_ts() == ts_push(old(self).shadow_ts(), spec_fallible_out(src)),
    {
        let t = match &src {
            FallibleValue::Value(v) => v.tag(),
            FallibleValue::Error(t2, _) => *t2,
        };
        let n = self.stack_ids.len();
        let unwind = self.snapshot_unwind(n);
        let ghost op = OpRec::Op0r { src, unwind };
        let ghost ops0 = self.segment.op_list();
        let ghost init = fold_args(self.argument_ids@, self.spec_base_index());
        proof {
            assert(crate::raw_segment::unwind_matches(unwind@, self.shadow_ts().slots));
        }
        self.segment.raw0(src, unwind);
        self.push_type(t);
        proof {
            lemma_check_snoc(self.segment.op_list(), ops0, op, 0, init);
            assert(self.segment.op_list()@.take(ops0@.len() as int) =~= ops0@);
        }
    }

    /// Pushes a unary operation after verifying that the top of the shadow
    /// stack matches what it consumes.
    #[verifier::rlimit(100)]
    #[verifier::spinoff_prover]
    pub fn op1(&mut self, f: UnOp) -> (r: Result<(), SegError>)
        requires
            old(self).wf(),
            old(self).spec_stack_index() + 16 <= usize::MAX,
        ensures
            final(self).wf(),
            final(self).arg_ids() == old(self).arg_ids(),
            final(self).spec_base_index() == old(self).spec_base_index(),
            old(self).shadow_ts().slots.len() < 1 ==> r == Err::<(), SegError>(
                SegError::StackUnderflow,
            ) && *final(self) == *old(self),
            old(self).shadow_ts().slots.len() >= 1 && old(self).shadow_ts().slots.last().tag
                != spec_un_in(f) ==> r == Err::<(), SegError>(
                SegError::StackTypeMismatch(
                    spec_un_in(f),
                    old(self).shadow_ts().slots.last().tag,
                ),
            ) && *final(self) == *old(self),
            old(self).shadow_ts().slots.len() >= 1 && old(self).shadow_ts().slots.last().tag
                == spec_un_in(f) ==> {
                &&& r == Ok::<(), SegError>(())
                &&& final(self).op_recs()@ == old(self).op_recs()@.push(
                    OpRec::Op1 { f, p0: (old(self).shadow_ts().slots.last().pad > 0) },
                )
                &&& final(self).spec_base_alignment() == raised_alignment(
                    old(self).spec_base_alignment(),
                    spec_un_out(f),
                )
                &&& final(self).shadow_ts() == ts_push(
                    ts_pop(old(self).shadow_ts()),
                    spec_un_out(f),
                )
            },
    {
        let n = self.stack_ids.len();
        if n < 1 {
            return Err(SegError::StackUnderflow);
        }
        let top = self.stack_ids[n - 1];
        let t_in = un_in_tag(&f);
        if !(top.stack_id == t_in) {
            return Err(SegError::StackTypeMismatch(t_in, top.stack_id));
        }
        let t_out = un_out_tag(&f);
        let ghost op = OpRec::Op1 { f, p0: top.padded };
        let ghost ops0 = self.segment.op_list();
        let ghost init = fold_args(self.argument_ids@, self.spec_base_index());
        self.segment.push_op1(f, top.padded);
        self.pop_type();
        self.push_type(t_out);
        proof {
            lemma_check_snoc(self.segment.op_list(), ops0, op, 0, init);
        }
        Ok(())
    }

    /// Pushes a fallible unary operation after verifying the top of the
    /// shadow stack. If it fails at run time, its input is consumed and
    /// every other value then live on the stack is dropped in LIFO order
    /// before the error propagates.
    #[verifier::rlimit(100)]
    #[verifier::spinoff_prover]
    pub fn op1r(&mut self, f: FallibleUnOp) -> (r: Result<(), SegError>)
        requires
            old(self).wf(),
            old(self).spec_stack_index() + 16 <= usize::MAX,
        ensures
            final(self).wf(),
            final(self).arg_ids() == old(self).arg_ids(),
            final(self).spec_base_index() == old(self).spec_base_index(),
            old(self).shadow_ts().slots.len() < 1 ==> r == Err::<(), SegError>(
                SegError::StackUnderflow,
            ) && *final(self) == *old(self),
            old(self).shadow_ts().slots.len() >= 1 && old(self).shadow_ts().slots.last().tag
                != spec_fall_un_in(f) ==> r == Err::<(), SegError>(
                SegError::StackTypeMismatch(
                    spec_fall_un_in(f),
                    old(self).shadow_ts().slots.last().tag,
                ),
            ) && *final(self) == *old(self),
            old(self).shadow_ts().slots.len() >= 1 && old(self).shadow_ts().slots.last().tag
                == spec_fall_un_in(f) ==> {
                &&& r == Ok::<(), SegError>(())
                &&& final(self).op_recs()@.len() == old(self).op_recs()@.len() + 1
                &&& final(self).op_recs()@.take(old(self).op_recs()@.len() as int) == old(
                    self,
                ).op_recs()@
                &&& final(self).op_recs()@.last() matches OpRec::Op1r { f: f2, p0, unwind }
                    && f2 == f && p0 == (old(self).shadow_ts().slots.last().pad > 0)
                    && unwind@.len() == old(self).shadow_ts().slots.len() - 1
                &&& final(self).spec_base_alignment() == raised_alignment(
                    old(self).spec_base_alignment(),
                    spec_fall_un_out(f),
                )
                &&& final(self).shadow_ts() == ts_push(
                    ts_pop(old(self).shadow_ts()),
                    spec_fall_un_out(f),
                )
            },
    {
        let n = self.stack_ids.len();
        if n < 1 {
            return Err(SegError::StackUnderflow);
        }
        let top = self.stack_ids[n - 1];
        let t_in = fall_un_in_tag(&f);
        if !(top.stack_id == t_in) {
            return Err(SegError::StackTypeMismatch(t_in, top.stack_id));
        }
        self.append_op1r(f);
        Ok(())
    }

    /// Appends a fallible unary operation whose input kind has already been
    /// verified against the shadow stack.
    #[verifier::rlimit(100)]
    #[verifier::spinoff_prover]
    fn append_op1r(&mut self, f: FallibleUnOp)
        requires
            old(self).wf(),
            old(self).spec_stack_index() + 16 <= usize::MAX,
            old(self).shadow_ts().slots.len() >= 1,
            old(self).shadow_ts().slots.last().tag == spec_fall_un_in(f),
        ensures
            final(self).wf(),
            final(self).arg_ids() == old(self).arg_ids(),
            final(self).spec_base_index() == old(self).spec_base_index(),
            final(self).op_recs()@.len() == old(self).op_recs()@.len() + 1,
            final(self).op_recs()@.take(old(self).op_recs()@.len() as int) == old(
                self,
            ).op_recs()@,
            final(self).op_recs()@.last() matches OpRec::Op1r { f: f2, p0, unwind } && f2 == f
                && p0 == (old(self).shadow_ts().slots.last().pad > 0) && unwind@.len() == old(
                self,
            ).shadow_ts().slots.len() - 1,
            final(self).spec_base_alignment() == raised_alignment(
                old(self).spec_base_alignment(),
                spec_fall_un_out(f),
            ),
            final(self).shadow_ts() == ts_push(
                ts_pop(old(self).shadow_ts()),
                spec_fall_un_out(f),
            ),
    {
        let n = self.stack_ids.len();
        let top = self.stack_ids[n - 1];
        let t_out = fall_un_out_tag(&f);
        let unwind = self.snapshot_unwind(n - 1);
        let ghost op = OpRec::Op1r { f, p0: top.padded, unwind };
        let ghost ops0 = self.segment.op_list();
        let ghost init = fold_args(self.argument_ids@, self.spec_base_index());
        proof {
            assert(crate::raw_segment::unwind_matches(
                unwind@,
                ts_pop(self.shadow_ts()).slots,
            ));
        }
        self.segment.raw1(f, top.padded, unwind);
        self.pop_type();
        self.push_type(t_out);
        proof {
            lemma_check_snoc(self.segment.op_list(), ops0, op, 0, init);
            assert(self.segment.op_list()@.take(ops0@.len() as int) =~= ops0@);
        }
    }

    /// Pushes a binary operation after verifying the top two shadow
    /// entries; the top of the stack is the right operand.
    #[verifier::rlimit(100)]
    #[verifier::spinoff_prover]
    pub fn op2(&mut self, f: BinOp) -> (r: Result<(), SegError>)
        requires
            old(self).wf(),
            old(self).spec_stack_index() + 16 <= usize::MAX,
        ensures
            final(self).wf(),
            final(self).arg_ids() == old(self).arg_ids(),
            final(self).spec_base_index() == old(self).spec_base_index(),
            old(self).shadow_ts().slots.len() < 2 ==> r == Err::<(), SegError>(
                SegError::StackUnderflow,
            ) && *final(self) == *old(self),
            old(self).shadow_ts().slots.len() >= 2 && !(old(self).shadow_ts().slots.last().tag
                == spec_bin_in(f).1 && old(self).shadow_ts().slots[old(
                self,
            ).shadow_ts().slots.len() - 2].tag == spec_bin_in(f).0) ==> r == Err::<
                (),
                SegError,
            >(
                mismatch2(
                    spec_bin_in(f).0,
                    old(self).shadow_ts().slots[old(self).shadow_ts().slots.len() - 2].tag,
                    spec_bin_in(f).1,
                    old(self).shadow_ts().slots.last().tag,
                ),
            ) && *final(self) == *old(self),
            old(self).shadow_ts().slots.len() >= 2 && old(self).shadow_ts().slots.last().tag
                == spec_bin_in(f).1 && old(self).shadow_ts().slots[old(
                self,
            ).shadow_ts().slots.len() - 2].tag == spec_bin_in(f).0 ==> {
                &&& r == Ok::<(), SegError>(())
                &&& final(self).op_recs()@ == old(self).op_recs()@.push(
                    OpRec::Op2 {
                        f,
                        p0: (old(self).shadow_ts().slots[old(self).shadow_ts().slots.len()
                            - 2].pad > 0),
                        p1: (old(self).shadow_ts().slots.last().pad > 0),
                    },
                )
                &&& final(self).spec_base_alignment() == raised_alignment(
                    old(self).spec_base_alignment(),
                    spec_bin_out(f),
                )
                &&& final(self).shadow_ts() == ts_push(
                    ts_pop(ts_pop(old(self).shadow_ts())),
                    spec_bin_out(f),
                )
            },
    {
        let n = self.stack_ids.len();
        if n < 2 {
            return Err(SegError::StackUnderflow);
        }
        let top = self.stack_ids[n - 1];
        let below = self.stack_ids[n - 2];
        let (in0, in1) = bin_in_tag(&f);
        if !(below.stack_id == in0) {
            return Err(SegError::StackTypeMismatch(in0, below.stack_id));
        }
        if !(top.stack_id == in1) {
            return Err(SegError::StackTypeMismatch(in1, top.stack_id));
        }
        let t_out = bin_out_tag(&f);
        let ghost op = OpRec::Op2 { f, p0: below.padded, p1: top.padded };
        let ghost ops0 = self.segment.op_list();
        let ghost init = fold_args(self.argument_ids@, self.spec_base_index());
        self.segment.push_op2(f, below.padded, top.padded);
        self.pop_type();
        self.pop_type();
        self.push_type(t_out);
        proof {
            lemma_check_snoc(self.segment.op_list(), ops0, op, 0, init);
        }
        Ok(())
    }

    /// Pushes a ternary operation after verifying the top three shadow
    /// entries; the top of the stack is the last operand.
    #[verifier::rlimit(100)]
    #[verifier::spinoff_prover]
    pub fn op3(&mut self, f: TernOp) -> (r: Result<(), SegError>)
        requires
            old(self).wf(),
            old(self).spec_stack_index() + 16 <= usize::MAX,
        ensures
            final(self).wf(),
            final(self).arg_ids() == old(self).arg_ids(),
            final(self).spec_base_index() == old(self).spec_base_index(),
            old(self).shadow_ts().slots.len() < 3 ==> r == Err::<(), SegError>(
                SegError::StackUnderflow,
            ) && *final(self) == *old(self),
            old(self).shadow_ts().slots.len() >= 3 && !(old(self).shadow_ts().slots.last().tag
                == spec_tern_in(f).2 && old(self).shadow_ts().slots[old(
                self,
            ).shadow_ts().slots.len() - 2].tag == spec_tern_in(f).1 && old(
                self,
            ).shadow_ts().slots[old(self).shadow_ts().slots.len() - 3].tag == spec_tern_in(
                f,
            ).0) ==> r == Err::<(), SegError>(
                mismatch3(
                    spec_tern_in(f).0,
                    old(self).shadow_ts().slots[old(self).shadow_ts().slots.len() - 3].tag,
                    spec_tern_in(f).1,
                    old(self).shadow_ts().slots[old(self).shadow_ts().slots.len() - 2].tag,
                    spec_tern_in(f).2,
                    old(self).shadow_ts().slots.last().tag,
                ),
            ) && *final(self) == *old(self),
            old(self).shadow_ts().slots.len() >= 3 && old(self).shadow_ts().slots.last().tag
                == spec_tern_in(f).2 && old(self).shadow_ts().slots[old(
                self,
            ).shadow_ts().slots.len() - 2].tag == spec_tern_in(f).1 && old(
                self,
            ).shadow_ts().slots[old(self).shadow_ts().slots.len() - 3].tag == spec_tern_in(
                f,
            ).0 ==> {
                &&& r == Ok::<(), SegError>(())
                &&& final(self).op_recs()@ == old(self).op_recs()@.push(
                    OpRec::Op3 {
                        f,
                        p0: (old(self).shadow_ts().slots[old(self).shadow_ts().slots.len()
                            - 3].pad > 0),
                        p1: (old(self).shadow_ts().slots[old(self).shadow_ts().slots.len()
                            - 2].pad > 0),
                        p2: (old(self).shadow_ts().slots.last().pad > 0),
                    },
                )
                &&& final(self).spec_base_alignment() == raised_alignment(
                    old(self).spec_base_alignment(),
                    spec_tern_out(f),
                )
                &&& final(self).shadow_ts() == ts_push(
                    ts_pop(ts_pop(ts_pop(old(self).shadow_ts()))),
                    spec_tern_out(f),
                )
            },
    {
        let n = self.stack_ids.len();
        if n < 3 {
            return Err(SegError::StackUnderflow);
        }
        let top = self.stack_ids[n - 1];
        let mid = self.stack_ids[n - 2];
        let low = self.stack_ids[n - 3];
        let (in0, in1, in2) = tern_in_tag(&f);
        if !(low.stack_id == in0) {
            return Err(SegError::StackTypeMismatch(in0, low.stack_id));
        }
        if !(mid.stack_id == in1) {
            return Err(SegError::StackTypeMismatch(in1, mid.stack_id));
        }
        if !(top.stack_id == in2) {
            return Err(SegError::StackTypeMismatch(in2, top.stack_id));
        }
        let t_out = tern_out_tag(&f);
        let ghost op = OpRec::Op3 { f, p0: low.padded, p1: mid.padded, p2: top.padded };
        let ghost ops0 = self.segment.op_list();
        let ghost init = fold_args(self.argument_ids@, self.spec_base_index());
        self.segment.push_op3(f, low.padded, mid.padded, top.padded);
        self.pop_type();
        self.pop_type();
        self.pop_type();
        self.push_type(t_out);
        proof {
            lemma_check_snoc(self.segment.op_list(), ops0, op, 0, init);
        }
        Ok(())
    }

    /// True when the two fragments fit this join point: argument-less,
    /// single-result, of one result kind, and laid out for the byte index
    /// beneath the condition value.
    pub open spec fn join_shape_ok(&self, f0: &DynSegment, f1: &DynSegment) -> bool {
        &&& f0.arg_ids().len() == 0
        &&& f1.arg_ids().len() == 0
        &&& f0.shadow_ts().slots.len() == 1
        &&& f1.shadow_ts().slots.len() == 1
        &&& f0.shadow_ts().slots[0].tag == f1.shadow_ts().slots[0].tag
        &&& f0.spec_base_index() == ts_pop(self.shadow_ts()).idx
        &&& f1.spec_base_index() == ts_pop(self.shadow_ts()).idx
    }

    /// Joins two fragments under a boolean condition: pops the boolean from
    /// the shadow stack and appends one operation that, at run time, pops
    /// it from the live stack and runs the matching fragment. Both
    /// fragments must take no arguments, produce exactly one value of the
    /// same kind, and have been created at this join point.
    #[verifier::rlimit(100)]
    pub fn join2(&mut self, fragment_0: DynSegment, fragment_1: DynSegment) -> (r: Result<
        (),
        SegError,
    >)
        requires
            old(self).wf(),
            fragment_0.wf(),
            fragment_1.wf(),
            old(self).spec_stack_index() + 16 <= usize::MAX,
        ensures
            final(self).wf(),
            final(self).arg_ids() == old(self).arg_ids(),
            final(self).spec_base_index() == old(self).spec_base_index(),
            old(self).shadow_ts().slots.len() < 1 ==> r == Err::<(), SegError>(
                SegError::StackUnderflow,
            ) && *final(self) == *old(self),
            old(self).shadow_ts().slots.len() >= 1 && old(self).shadow_ts().slots.last().tag
                != Tag::Bool ==> r == Err::<(), SegError>(
                SegError::StackTypeMismatch(Tag::Bool, old(self).shadow_ts().slots.last().tag),
            ) && *final(self) == *old(self),
            old(self).shadow_ts().slots.len() >= 1 && old(self).shadow_ts().slots.last().tag
                == Tag::Bool && !old(self).join_shape_ok(&fragment_0, &fragment_1) ==> r
                == Err::<(), SegError>(SegError::JoinShape) && *final(self) == *old(self),
            old(self).shadow_ts().slots.len() >= 1 && old(self).shadow_ts().slots.last().tag
                == Tag::Bool && old(self).join_shape_ok(&fragment_0, &fragment_1) ==> {
                &&& r == Ok::<(), SegError>(())
                &&& final(self).op_recs()@ == old(self).op_recs()@.push(
                    OpRec::Join2 {
                        p0: (old(self).shadow_ts().slots.last().pad > 0),
                        then_ops: fragment_0.op_recs(),
                        else_ops: fragment_1.op_recs(),
                    },
                )
                &&& final(self).spec_base_alignment() == ({
                    let pa = old(self).spec_base_alignment();
                    let f0a = fragment_0.spec_base_alignment();
                    let f1a = fragment_1.spec_base_alignment();
                    if pa >= f0a && pa >= f1a {
                        pa
                    } else if f0a >= f1a {
                        f0a
                    } else {
                        f1a
                    }
                })
                &&& final(self).shadow_ts() == ts_push(
                    ts_pop(old(self).shadow_ts()),
                    fragment_0.shadow_ts().slots[0].tag,
                )
            },
    {
        let n = self.stack_ids.len();
        if n < 1 {
            return Err(SegError::StackUnderflow);
        }
        let top = self.stack_ids[n - 1];
        if !(top.stack_id == Tag::Bool) {
            return Err(SegError::StackTypeMismatch(Tag::Bool, top.stack_id));
        }
        let idx_after = top.start - top.pad;
        if !(fragment_0.argument_ids.len() == 0 && fragment_1.argument_ids.len() == 0
            && fragment_0.stack_ids.len() == 1 && fragment_1.stack_ids.len() == 1) {
            return Err(SegError::JoinShape);
        }
        let s0 = fragment_0.stack_ids[0];
        let s1 = fragment_1.stack_ids[0];
        if !(s0.stack_id == s1.stack_id) {
            return Err(SegError::JoinShape);
        }
        if !(fragment_0.base_index == idx_after && fragment_1.base_index == idx_after) {
            return Err(SegError::JoinShape);
        }
        let out = s0.stack_id;
        let ghost op = OpRec::Join2 {
            p0: top.padded,
            then_ops: fragment_0.segment.op_list(),
            else_ops: fragment_1.segment.op_list(),
        };
        let ghost ops0 = self.segment.op_list();
        let ghost init = fold_args(self.argument_ids@, self.spec_base_index());
        proof {
            let pts = self.shadow_ts();
            let st1 = ts_pop(pts);
            let e0 = fold_args(fragment_0.argument_ids@, fragment_0.spec_base_index());
            let e1 = fold_args(fragment_1.argument_ids@, fragment_1.spec_base_index());
            assert(fragment_0.argument_ids@ =~= Seq::<Tag>::empty());
            assert(fragment_1.argument_ids@ =~= Seq::<Tag>::empty());
            lemma_check_frame(fragment_0.segment.op_list(), 0, e0, st1.slots);
            lemma_check_frame(fragment_1.segment.op_list(), 0, e1, st1.slots);
            assert(frame_ts(st1.slots, e0).slots =~= st1.slots);
            assert(frame_ts(st1.slots, e1).slots =~= st1.slots);
            assert(frame_ts(st1.slots, e0) == st1);
            assert(frame_ts(st1.slots, e1) == st1);
            let t0 = frame_ts(st1.slots, fragment_0.shadow_ts());
            let t1 = frame_ts(st1.slots, fragment_1.shadow_ts());
            assert(check_from(fragment_0.segment.op_list(), 0, st1) == Some(t0));
            assert(check_from(fragment_1.segment.op_list(), 0, st1) == Some(t1));
            // both fragments put their one result slot at the aligned index
            // past the join point, so their outcomes agree
            let fs0 = fragment_0.shadow_ts().slots[0];
            let fs1 = fragment_1.shadow_ts().slots[0];
            assert(fs0.start == spec_align_index(
                spec_tag_align(fs0.tag),
                tprev(fragment_0.shadow_ts().slots, 0, fragment_0.spec_base_index()),
            ));
            assert(fs1.start == spec_align_index(
                spec_tag_align(fs1.tag),
                tprev(fragment_1.shadow_ts().slots, 0, fragment_1.spec_base_index()),
            ));
            assert(fs0 == fs1);
            assert(fragment_0.shadow_ts().slots =~= fragment_1.shadow_ts().slots);
            assert(fragment_0.shadow_ts().idx == fs0.start + spec_tag_size(fs0.tag));
            assert(fragment_1.shadow_ts().idx == fs1.start + spec_tag_size(fs1.tag));
            assert(t0 == t1);
            assert(check_op(op, pts) == Some(t0));
            // the join's verdict is exactly a push of the result kind
            assert(ts_push(st1, out).slots =~= t0.slots);
            assert(ts_push(st1, out) == t0);
        }
        let DynSegment { segment: f0_segment, .. } = fragment_0;
        let DynSegment { segment: f1_segment, .. } = fragment_1;
        self.segment.push_join(top.padded, f0_segment, f1_segment);
        self.pop_type();
        self.push_type(out);
        proof {
            lemma_check_snoc(self.segment.op_list(), ops0, op, 0, init);
        }
        Ok(())
    }

    /// Executes the segment with no arguments, returning the single value
    /// its operations leave behind, which must have kind `out`. The shadow
    /// stack is only validated, never consumed, so the segment may be
    /// called again. Only a segment whose stack begins at index zero can be
    /// called: a fragment is meant to be joined, not called.
    #[verifier::rlimit(100)]
    pub fn call0(&self, out: Tag) -> (r: Result<Value, SegError>)
        requires
            self.wf(),
            self.spec_base_index() == 0,
        ensures
            self.arg_ids().len() != 0 ==> r == Err::<Value, SegError>(SegError::ArityMismatch),
            self.arg_ids().len() == 0 && self.op_recs()@.len() == 0 && out == Tag::Unit ==> (r
                matches Ok(v) && v.dv() == AbsVal::Unit),
            self.arg_ids().len() == 0 && !(self.op_recs()@.len() == 0 && out == Tag::Unit)
                ==> {
                if self.shadow_ts().slots.len() == 0 {
                    r == Err::<Value, SegError>(SegError::StackUnderflow)
                } else if self.shadow_ts().slots.last().tag != out {
                    r == Err::<Value, SegError>(
                        SegError::StackTypeMismatch(out, self.shadow_ts().slots.last().tag),
                    )
                } else if self.shadow_ts().slots.len() > 1 {
                    r == Err::<Value, SegError>(SegError::UnconsumedStack)
                } else {
                    outcome_matches(self.op_recs(), Seq::empty(), r)
                }
            },
    {
        if self.argument_ids.len() != 0 {
            return Err(SegError::ArityMismatch);
        }
        proof {
            assert(self.argument_ids@ =~= Seq::<Tag>::empty());
            assert(fold_args(self.argument_ids@, 0) == (TState {
                slots: Seq::<TSlot>::empty(),
                idx: 0nat,
            }));
        }
        if self.segment.op_count() == 0 && matches!(out, Tag::Unit) {
            return Ok(Value::Unit);
        }
        let n = self.stack_ids.len();
        if n == 0 {
            return Err(SegError::StackUnderflow);
        }
        let top = self.stack_ids[n - 1];
        if !(top.stack_id == out) {
            return Err(SegError::StackTypeMismatch(out, top.stack_id));
        }
        if n > 1 {
            return Err(SegError::UnconsumedStack);
        }
        proof {
            self.lemma_final_slot_unpadded();
        }
        self.segment.call0(out)
    }

    /// When exactly one slot remains on a shadow stack that began at byte
    /// index zero, that slot sits at the bottom and carries no padding.
    proof fn lemma_final_slot_unpadded(&self)
        requires
            self.wf(),
            self.spec_base_index() == 0,
            self.shadow_ts().slots.len() == 1,
        ensures
            self.shadow_ts().slots[0].pad == 0,
    {
        let slot = self.shadow_ts().slots[0];
        assert(slot.start == spec_align_index(
            spec_tag_align(slot.tag),
            tprev(self.shadow_ts().slots, 0, 0),
        ));
        lemma_tag_align_power_of_two(slot.tag);
        lemma_power_of_two_pos(spec_tag_align(slot.tag));
        lemma_align_index_zero(spec_tag_align(slot.tag));
    }

    /// Executes the segment with one argument, validating its kind against
    /// the declared argument list. As with [`DynSegment::call0`], fragments
    /// cannot be called.
    #[verifier::rlimit(100)]
    pub fn call1(&self, arg: Value, out: Tag) -> (r: Result<Value, SegError>)
        requires
            self.wf(),
            self.spec_base_index() == 0,
        ensures
            self.arg_ids().len() != 1 ==> r == Err::<Value, SegError>(SegError::ArityMismatch),
            self.arg_ids().len() == 1 && self.arg_ids()[0] != tag_of(arg.dv()) ==> r == Err::<
                Value,
                SegError,
            >(SegError::ArgumentTypeMismatch(self.arg_ids()[0], tag_of(arg.dv()))),
            self.arg_ids().len() == 1 && self.arg_ids()[0] == tag_of(arg.dv()) ==> {
                if self.shadow_ts().slots.len() == 0 {
                    r == Err::<Value, SegError>(SegError::StackUnderflow)
                } else if self.shadow_ts().slots.last().tag != out {
                    r == Err::<Value, SegError>(
                        SegError::StackTypeMismatch(out, self.shadow_ts().slots.last().tag),
                    )
                } else if self.shadow_ts().slots.len() > 1 {
                    r == Err::<Value, SegError>(SegError::UnconsumedStack)
                } else {
                    outcome_matches(self.op_recs(), seq![arg.dv()], r)
                }
            },
    {
        if self.argument_ids.len() != 1 {
            return Err(SegError::ArityMismatch);
        }
        let t = arg.tag();
        let declared = self.argument_ids[0];
        if !(declared == t) {
            return Err(SegError::ArgumentTypeMismatch(declared, t));
        }
        let n = self.stack_ids.len();
        if n == 0 {
            return Err(SegError::StackUnderflow);
        }
        let top = self.stack_ids[n - 1];
        if !(top.stack_id == out) {
            return Err(SegError::StackTypeMismatch(out, top.stack_id));
        }
        if n > 1 {
            return Err(SegError::UnconsumedStack);
        }
        proof {
            self.lemma_final_slot_unpadded();
            let ids = self.argument_ids@;
            let empty_ts = TState { slots: Seq::<TSlot>::empty(), idx: 0nat };
            assert(fold_args(ids, 0) == ts_push(fold_args(ids.drop_last(), 0), ids.last()));
            assert(ids.drop_last() =~= Seq::<Tag>::empty());
            assert(fold_args(Seq::<Tag>::empty(), 0) == empty_ts);
            assert(ids.last() == tag_of(arg.dv()));
            assert(fold_args(ids, 0) == ts_push(empty_ts, tag_of(arg.dv())));
        }
        self.segment.call1(arg, out)
    }

    /// Executes the segment with two arguments, pushed left to right. As
    /// with [`DynSegment::call0`], fragments cannot be called.
    #[verifier::rlimit(100)]
    pub fn call2(&self, args: (Value, Value), out: Tag) -> (r: Result<Value, SegError>)
        requires
            self.wf(),
            self.spec_base_index() == 0,
        ensures
            self.arg_ids().len() != 2 ==> r == Err::<Value, SegError>(SegError::ArityMismatch),
            self.arg_ids().len() == 2 && !(self.arg_ids()[0] == tag_of(args.0.dv())
                && self.arg_ids()[1] == tag_of(args.1.dv())) ==> r == Err::<Value, SegError>(
                if self.arg_ids()[0] != tag_of(args.0.dv()) {
                    SegError::ArgumentTypeMismatch(self.arg_ids()[0], tag_of(args.0.dv()))
                } else {
                    SegError::ArgumentTypeMismatch(self.arg_ids()[1], tag_of(args.1.dv()))
                },
            ),
            self.arg_ids().len() == 2 && self.arg_ids()[0] == tag_of(args.0.dv())
                && self.arg_ids()[1] == tag_of(args.1.dv()) ==> {
                if self.shadow_ts().slots.len() == 0 {
                    r == Err::<Value, SegError>(SegError::StackUnderflow)
                } else if self.shadow_ts().slots.last().tag != out {
                    r == Err::<Value, SegError>(
                        SegError::StackTypeMismatch(out, self.shadow_ts().slots.last().tag),
                    )
                } else if self.shadow_ts().slots.len() > 1 {
                    r == Err::<Value, SegError>(SegError::UnconsumedStack)
                } else {
                    outcome_matches(self.op_recs(), seq![args.0.dv(), args.1.dv()], r)
                }
            },
    {
        if self.argument_ids.len() != 2 {
            return Err(SegError::ArityMismatch);
        }
        let ta = args.0.tag();
        let tb = args.1.tag();
        if !(self.argument_ids[0] == ta) {
            return Err(SegError::ArgumentTypeMismatch(self.argument_ids[0], ta));
        }
        if !(self.argument_ids[1] == tb) {
            return Err(SegError::ArgumentTypeMismatch(self.argument_ids[1], tb));
        }
        let n = self.stack_ids.len();
        if n == 0 {
            return Err(SegError::StackUnderflow);
        }
        let top = self.stack_ids[n - 1];
        if !(top.stack_id == out) {
            return Err(SegError::StackTypeMismatch(out, top.stack_id));
        }
        if n > 1 {
            return Err(SegError::UnconsumedStack);
        }
        proof {
            self.lemma_final_slot_unpadded();
            let ids = self.argument_ids@;
            let empty_ts = TState { slots: Seq::<TSlot>::empty(), idx: 0nat };
            assert(fold_args(ids, 0) == ts_push(fold_args(ids.drop_last(), 0), ids.last()));
            assert(fold_args(ids.drop_last(), 0) == ts_push(
                fold_args(ids.drop_last().drop_last(), 0),
                ids.drop_last().last(),
            ));
            assert(ids.drop_last().drop_last() =~= Seq::<Tag>::empty());
            assert(fold_args(Seq::<Tag>::empty(), 0) == empty_ts);
            assert(ids.drop_last().last() == tag_of(args.0.dv()));
            assert(ids.last() == tag_of(args.1.dv()));
            assert(fold_args(ids, 0) == ts_push(
                ts_push(empty_ts, tag_of(args.0.dv())),
                tag_of(args.1.dv()),
            ));
        }
        self.segment.call2(args, out)
    }
}



} // verus!
