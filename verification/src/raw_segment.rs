//! The instruction list and its executor.
//!
//! A segment stores its operations as records ([`OpRec`]); executing one
//! walks the list in order against a [`RawStack`]. The module gives the list
//! two specifications that the executor is proved against:
//!
//! - a *type checker* ([`check_from`]) over [`TState`], the shadow of the
//!   stack's kinds, padding and byte positions — when it accepts a list, no
//!   pop in the run can see the wrong kind or the wrong padding flag;
//! - a *run function* ([`run_from_spec`]) over abstract values — the exact
//!   result (or failure, with what was unwound) of executing the list.
//!
//! `call0`, `call1` and `call2` require a checked list and promise the run
//! function's outcome, so a segment's behaviour is pinned down to a
//! mathematical function of its operations and arguments.

use crate::error::SegError;
use crate::memory::{is_power_of_two, spec_align_index};
use crate::ops::{BinOp, FallibleUnOp, FallibleValue, TernOp, UnOp, eval_bin, eval_fall_un,
    eval_tern, eval_un, spec_bin_in, spec_bin_out, spec_eval_bin, spec_eval_fall_un,
    spec_eval_tern, spec_eval_un, spec_fall_un_in, spec_fall_un_out, spec_fallible_out,
    spec_tern_in, spec_tern_out, spec_un_in, spec_un_out};
use crate::raw_stack::{RawStack, StackEntry};
use crate::value::{AbsVal, Tag, Value, lemma_tag_align_power_of_two, spec_tag_align,
    spec_tag_size, tag_of};
use vstd::prelude::*;

verus! {

broadcast use vstd::std_specs::vec::axiom_vec_index_decreases;

/// One step of a drop-on-error unwind list: the kind to drop and whether its
/// push inserted padding.
#[derive(Clone, Copy)]
pub struct UnwindStep {
    /// The kind of the value to drop.
    pub t: Tag,
    /// Whether the value's push inserted padding.
    pub padded: bool,
}

/// One stored operation.
pub enum OpRec {
    /// Push a copy of a constant value.
    Op0 { v: Value },
    /// Run a fallible source: push a copy of its value, or drop the values
    /// named by the unwind list (top first) and fail.
    Op0r { src: FallibleValue, unwind: Vec<UnwindStep> },
    /// Pop one value (with the recorded padding flag) and push the
    /// operation's result.
    Op1 { f: UnOp, p0: bool },
    /// Pop one value and run a fallible operation on it: push its result,
    /// or drop the values named by the unwind list (top first) and fail.
    Op1r { f: FallibleUnOp, p0: bool, unwind: Vec<UnwindStep> },
    /// Pop two values (top is the right operand) and push the result.
    Op2 { f: BinOp, p0: bool, p1: bool },
    /// Pop three values (top is the last operand) and push the result.
    Op3 { f: TernOp, p0: bool, p1: bool, p2: bool },
    /// Pop one value of the given kind and destroy it.
    Drop1 { t: Tag, p0: bool },
    /// Pop a boolean; run the first list when it is true, the second when it
    /// is false.
    Join2 { p0: bool, then_ops: Vec<OpRec>, else_ops: Vec<OpRec> },
}

/// Shadow of one stack entry: its kind, padding and byte position.
pub ghost struct TSlot {
    /// The kind of the value.
    pub tag: Tag,
    /// The padding inserted beneath it.
    pub pad: nat,
    /// The buffer index where its bytes begin.
    pub start: nat,
}

/// Shadow of the whole stack: the slots (bottom first) and the buffer
/// length.
pub ghost struct TState {
    /// The shadow slots.
    pub slots: Seq<TSlot>,
    /// The buffer length in bytes.
    pub idx: nat,
}

/// The shadow of a live stack.
pub open spec fn ts_of(stack: RawStack) -> TState {
    TState {
        slots: stack.entries_view().map_values(
            |e: StackEntry| TSlot { tag: tag_of(e.v), pad: e.pad, start: e.start },
        ),
        idx: stack.byte_len(),
    }
}

/// The shadow after pushing a value of kind `t`.
pub open spec fn ts_push(ts: TState, t: Tag) -> TState {
    let s = spec_align_index(spec_tag_align(t), ts.idx);
    TState {
        slots: ts.slots.push(TSlot { tag: t, pad: (s - ts.idx) as nat, start: s }),
        idx: s + spec_tag_size(t),
    }
}

/// The shadow after pushing a value of kind `t`, refusing a push that could
/// run the buffer past the address space.
pub open spec fn ts_try_push(ts: TState, t: Tag) -> Option<TState> {
    if ts.idx + 16 <= usize::MAX {
        Some(ts_push(ts, t))
    } else {
        None
    }
}

/// The shadow after popping the top slot: the buffer shrinks back to where
/// that slot's padding began.
pub open spec fn ts_pop(ts: TState) -> TState
    recommends
        ts.slots.len() > 0,
{
    TState { slots: ts.slots.drop_last(), idx: (ts.slots.last().start - ts.slots.last().pad) as nat }
}

/// True when the top slot has the given kind and padding flag.
pub open spec fn ts_top_is(ts: TState, t: Tag, padded: bool) -> bool {
    &&& ts.slots.len() >= 1
    &&& ts.slots.last().tag == t
    &&& (ts.slots.last().pad > 0) == padded
}

/// True when the unwind list names exactly the top `unwind.len()` slots,
/// top of the stack last.
pub open spec fn unwind_matches(unwind: Seq<UnwindStep>, slots: Seq<TSlot>) -> bool {
    &&& unwind.len() <= slots.len()
    &&& forall|j: int|
        0 <= j < unwind.len() ==> {
            &&& (#[trigger] unwind[j]).t == slots[slots.len() - unwind.len() + j].tag
            &&& unwind[j].padded == (slots[slots.len() - unwind.len() + j].pad > 0)
        }
}

/// Checks one operation against the shadow: `Some` with the new shadow when
/// every pop sees the kind and padding flag the record names, `None`
/// otherwise.
pub open spec fn check_op(op: OpRec, ts: TState) -> Option<TState>
    decreases op, 0int,
{
    match op {
        OpRec::Op0 { v } => ts_try_push(ts, tag_of(v.dv())),
        OpRec::Op0r { src, unwind } => {
            if unwind_matches(unwind@, ts.slots) {
                ts_try_push(ts, spec_fallible_out(src))
            } else {
                None
            }
        },
        OpRec::Op1 { f, p0 } => {
            if ts_top_is(ts, spec_un_in(f), p0) {
                ts_try_push(ts_pop(ts), spec_un_out(f))
            } else {
                None
            }
        },
        OpRec::Op1r { f, p0, unwind } => {
            if ts_top_is(ts, spec_fall_un_in(f), p0) && unwind_matches(
                unwind@,
                ts_pop(ts).slots,
            ) {
                ts_try_push(ts_pop(ts), spec_fall_un_out(f))
            } else {
                None
            }
        },
        OpRec::Op2 { f, p0, p1 } => {
            let ts1 = ts_pop(ts);
            if ts_top_is(ts, spec_bin_in(f).1, p1) && ts_top_is(ts1, spec_bin_in(f).0, p0) {
                ts_try_push(ts_pop(ts1), spec_bin_out(f))
            } else {
                None
            }
        },
        OpRec::Op3 { f, p0, p1, p2 } => {
            let ts1 = ts_pop(ts);
            let ts2 = ts_pop(ts1);
            if ts_top_is(ts, spec_tern_in(f).2, p2) && ts_top_is(ts1, spec_tern_in(f).1, p1)
                && ts_top_is(ts2, spec_tern_in(f).0, p0) {
                ts_try_push(ts_pop(ts2), spec_tern_out(f))
            } else {
                None
            }
        },
        OpRec::Drop1 { t, p0 } => {
            if ts_top_is(ts, t, p0) {
                Some(ts_pop(ts))
            } else {
                None
            }
        },
        OpRec::Join2 { p0, then_ops, else_ops } => {
            if ts_top_is(ts, Tag::Bool, p0) {
                let st = ts_pop(ts);
                match (check_from(then_ops, 0, st), check_from(else_ops, 0, st)) {
                    (Some(t1), Some(t2)) => if t1 == t2 {
                        Some(t1)
                    } else {
                        None
                    },
                    _ => None,
                }
            } else {
                None
            }
        },
    }
}

/// Checks the operations from index `i` on, threading the shadow.
pub open spec fn check_from(ops: Vec<OpRec>, i: int, ts: TState) -> Option<TState>
    decreases ops, ops@.len() - i,
{
    if i < 0 || i > ops@.len() {
        None
    } else if i == ops@.len() {
        Some(ts)
    } else {
        match check_op(ops@[i], ts) {
            Some(ts2) => check_from(ops, i + 1, ts2),
            None => None,
        }
    }
}

/// The outcome of running operations over abstract values: the final stack,
/// or a failure with its message and the stack and destruction log it left
/// behind; `Stuck` marks a run a checked list can never reach.
pub ghost enum ROut {
    /// The run finished; `vals` is the stack, `gone` the destruction log.
    Good { vals: Seq<AbsVal>, gone: Seq<AbsVal> },
    /// A fallible operation failed with `msg` after unwinding.
    Fail { msg: Seq<char>, vals: Seq<AbsVal>, gone: Seq<AbsVal> },
    /// The run would pop from too short a stack.
    Stuck,
}

/// Runs one operation over abstract values.
pub open spec fn run_op_spec(op: OpRec, vals: Seq<AbsVal>, gone: Seq<AbsVal>) -> ROut
    decreases op, 0int,
{
    match op {
        OpRec::Op0 { v } => ROut::Good { vals: vals.push(v.dv()), gone },
        OpRec::Op0r { src, unwind } => match src {
            FallibleValue::Value(v) => ROut::Good { vals: vals.push(v.dv()), gone },
            FallibleValue::Error(_, m) => {
                if unwind@.len() <= vals.len() {
                    let keep = vals.len() - unwind@.len();
                    ROut::Fail {
                        msg: m@,
                        vals: vals.take(keep as int),
                        gone: gone + vals.skip(keep as int).reverse(),
                    }
                } else {
                    ROut::Stuck
                }
            },
        },
        OpRec::Op1 { f, p0 } => {
            if vals.len() >= 1 {
                ROut::Good {
                    vals: vals.drop_last().push(spec_eval_un(f, vals.last())),
                    gone,
                }
            } else {
                ROut::Stuck
            }
        },
        OpRec::Op1r { f, p0, unwind } => {
            if vals.len() >= 1 {
                let rest = vals.drop_last();
                match spec_eval_fall_un(f, vals.last()) {
                    Ok(v) => ROut::Good { vals: rest.push(v), gone },
                    Err(m) => {
                        if unwind@.len() <= rest.len() {
                            let keep = rest.len() - unwind@.len();
                            ROut::Fail {
                                msg: m,
                                vals: rest.take(keep as int),
                                gone: gone + rest.skip(keep as int).reverse(),
                            }
                        } else {
                            ROut::Stuck
                        }
                    },
                }
            } else {
                ROut::Stuck
            }
        },
        OpRec::Op2 { f, p0, p1 } => {
            if vals.len() >= 2 {
                let u = vals.last();
                let t = vals.drop_last().last();
                ROut::Good {
                    vals: vals.drop_last().drop_last().push(spec_eval_bin(f, t, u)),
                    gone,
                }
            } else {
                ROut::Stuck
            }
        },
        OpRec::Op3 { f, p0, p1, p2 } => {
            if vals.len() >= 3 {
                let z = vals.last();
                let y = vals.drop_last().last();
                let x = vals.drop_last().drop_last().last();
                ROut::Good {
                    vals: vals.drop_last().drop_last().drop_last().push(
                        spec_eval_tern(f, x, y, z),
                    ),
                    gone,
                }
            } else {
                ROut::Stuck
            }
        },
        OpRec::Drop1 { t, p0 } => {
            if vals.len() >= 1 {
                ROut::Good { vals: vals.drop_last(), gone: gone.push(vals.last()) }
            } else {
                ROut::Stuck
            }
        },
        OpRec::Join2 { p0, then_ops, else_ops } => {
            if vals.len() >= 1 && vals.last() is Bool {
                let rest = vals.drop_last();
                if vals.last()->Bool_0 {
                    run_from_spec(then_ops, 0, rest, gone)
                } else {
                    run_from_spec(else_ops, 0, rest, gone)
                }
            } else {
                ROut::Stuck
            }
        },
    }
}

/// Runs the operations from index `i` on, stopping at the first failure.
pub open spec fn run_from_spec(ops: Vec<OpRec>, i: int, vals: Seq<AbsVal>, gone: Seq<AbsVal>) -> ROut
    decreases ops, ops@.len() - i,
{
    if i < 0 || i > ops@.len() {
        ROut::Stuck
    } else if i == ops@.len() {
        ROut::Good { vals, gone }
    } else {
        match run_op_spec(ops@[i], vals, gone) {
            ROut::Good { vals: v2, gone: g2 } => run_from_spec(ops, i + 1, v2, g2),
            out => out,
        }
    }
}

/// The base alignment after recording an operation whose result has kind
/// `t`: the old alignment, raised to the kind's alignment if that is
/// larger.
pub open spec fn raised_alignment(base: usize, t: Tag) -> usize {
    if spec_tag_align(t) > base as nat {
        spec_tag_align(t) as usize
    } else {
        base
    }
}

/// A segment: its operation records and the largest alignment any value
/// pushed by a run can need, which sizes the execution stack's base.
pub struct RawSegment {
    ops: Vec<OpRec>,
    base_alignment: usize,
}

impl RawSegment {
    /// The stored operations.
    pub closed spec fn op_list(&self) -> Vec<OpRec> {
        self.ops
    }

    /// The recorded base alignment.
    pub closed spec fn spec_base_alignment(&self) -> usize {
        self.base_alignment
    }

    /// The base alignment is a power of two.
    pub open spec fn wf(&self) -> bool {
        is_power_of_two(self.spec_base_alignment() as nat)
    }

    /// Creates a new empty segment.
    pub fn new() -> (r: Self)
        ensures
            r.wf(),
            r.op_list()@ == Seq::<OpRec>::empty(),
            r.spec_base_alignment() == 1,
    {
        proof {
            reveal_with_fuel(is_power_of_two, 2);
        }
        let r = RawSegment { ops: Vec::new(), base_alignment: 1 };
        proof {
            assert(r.op_list()@ =~= Seq::<OpRec>::empty());
        }
        r
    }

    /// Raises the recorded base alignment to at least `a`.
    pub(crate) fn update_base_alignment(&mut self, a: usize)
        requires
            old(self).wf(),
            is_power_of_two(a as nat),
        ensures
            final(self).wf(),
            final(self).op_list() == old(self).op_list(),
            final(self).spec_base_alignment() == if a > old(self).spec_base_alignment() {
                a
            } else {
                old(self).spec_base_alignment()
            },
    {
        if a > self.base_alignment {
            self.base_alignment = a;
        }
    }

    /// The number of recorded operations.
    pub(crate) fn op_count(&self) -> (n: usize)
        ensures
            n == self.op_list()@.len(),
    {
        self.ops.len()
    }

    /// The recorded base alignment.
    pub(crate) fn base_alignment(&self) -> (a: usize)
        ensures
            a == self.spec_base_alignment(),
    {
        self.base_alignment
    }

    /// Appends an operation record and raises the base alignment for its
    /// result kind.
    fn push_rec(&mut self, rec: OpRec, out: Tag)
        requires
            old(self).wf(),
        ensures
            final(self).wf(),
            final(self).op_list()@ == old(self).op_list()@.push(rec),
            final(self).spec_base_alignment() == raised_alignment(old(self).spec_base_alignment(), out),
            final(self).spec_base_alignment() >= old(self).spec_base_alignment(),
    {
        proof {
            lemma_tag_align_power_of_two(out);
        }
        let a = crate::value::tag_align(out);
        if a > self.base_alignment {
            self.base_alignment = a;
        }
        self.ops.push(rec);
    }

    /// Pushes a nullary operation: each run pushes a copy of `v`.
    pub fn push_op0(&mut self, v: Value)
        requires
            old(self).wf(),
        ensures
            final(self).wf(),
            final(self).op_list()@ == old(self).op_list()@.push(OpRec::Op0 { v }),
            final(self).spec_base_alignment() == raised_alignment(old(self).spec_base_alignment(), tag_of(v.dv())),
            final(self).spec_base_alignment() >= old(self).spec_base_alignment(),
    {
        let t = v.tag();
        self.push_rec(OpRec::Op0 { v }, t);
    }

    /// Pushes a fallible nullary operation with its drop-on-error unwind
    /// list.
    pub fn raw0(&mut self, src: FallibleValue, unwind: Vec<UnwindStep>)
        requires
            old(self).wf(),
        ensures
            final(self).wf(),
            final(self).op_list()@ == old(self).op_list()@.push(
                OpRec::Op0r { src, unwind },
            ),
            final(self).spec_base_alignment() == raised_alignment(old(self).spec_base_alignment(), spec_fallible_out(src)),
            final(self).spec_base_alignment() >= old(self).spec_base_alignment(),
    {
        let t = match &src {
            FallibleValue::Value(v) => v.tag(),
            FallibleValue::Error(t, _) => *t,
        };
        self.push_rec(OpRec::Op0r { src, unwind }, t);
    }

    /// Pushes a unary operation; `padding0` is its input's padding flag.
    pub fn push_op1(&mut self, f: UnOp, padding0: bool)
        requires
            old(self).wf(),
        ensures
            final(self).wf(),
            final(self).op_list()@ == old(self).op_list()@.push(
                OpRec::Op1 { f, p0: padding0 },
            ),
            final(self).spec_base_alignment() == raised_alignment(old(self).spec_base_alignment(), spec_un_out(f)),
            final(self).spec_base_alignment() >= old(self).spec_base_alignment(),
    {
        let t = crate::ops::un_out_tag(&f);
        self.push_rec(OpRec::Op1 { f, p0: padding0 }, t);
    }

    /// Pushes a fallible unary operation with its drop-on-error unwind
    /// list; `padding0` is its input's padding flag.
    pub fn raw1(&mut self, f: FallibleUnOp, padding0: bool, unwind: Vec<UnwindStep>)
        requires
            old(self).wf(),
        ensures
            final(self).wf(),
            final(self).op_list()@ == old(self).op_list()@.push(
                OpRec::Op1r { f, p0: padding0, unwind },
            ),
            final(self).spec_base_alignment() == raised_alignment(old(self).spec_base_alignment(), spec_fall_un_out(f)),
            final(self).spec_base_alignment() >= old(self).spec_base_alignment(),
    {
        let t = crate::ops::fall_un_out_tag(&f);
        self.push_rec(OpRec::Op1r { f, p0: padding0, unwind }, t);
    }

    /// Pushes a binary operation; the padding flags belong to its inputs,
    /// deeper value first.
    pub fn push_op2(&mut self, f: BinOp, padding0: bool, padding1: bool)
        requires
            old(self).wf(),
        ensures
            final(self).wf(),
            final(self).op_list()@ == old(self).op_list()@.push(
                OpRec::Op2 { f, p0: padding0, p1: padding1 },
            ),
            final(self).spec_base_alignment() == raised_alignment(old(self).spec_base_alignment(), spec_bin_out(f)),
            final(self).spec_base_alignment() >= old(self).spec_base_alignment(),
    {
        let t = crate::ops::bin_out_tag(&f);
        self.push_rec(OpRec::Op2 { f, p0: padding0, p1: padding1 }, t);
    }

    /// Pushes a ternary operation; the padding flags belong to its inputs,
    /// deepest value first.
    pub fn push_op3(&mut self, f: TernOp, padding0: bool, padding1: bool, padding2: bool)
        requires
            old(self).wf(),
        ensures
            final(self).wf(),
            final(self).op_list()@ == old(self).op_list()@.push(
                OpRec::Op3 { f, p0: padding0, p1: padding1, p2: padding2 },
            ),
            final(self).spec_base_alignment() == raised_alignment(old(self).spec_base_alignment(), spec_tern_out(f)),
            final(self).spec_base_alignment() >= old(self).spec_base_alignment(),
    {
        let t = crate::ops::tern_out_tag(&f);
        self.push_rec(OpRec::Op3 { f, p0: padding0, p1: padding1, p2: padding2 }, t);
    }

    /// Pushes an operation that pops one value of kind `t` and destroys it.
    pub fn drop1(&mut self, t: Tag, padding0: bool)
        requires
            old(self).wf(),
        ensures
            final(self).wf(),
            final(self).op_list()@ == old(self).op_list()@.push(
                OpRec::Drop1 { t, p0: padding0 },
            ),
            final(self).spec_base_alignment() == old(self).spec_base_alignment(),
    {
        self.ops.push(OpRec::Drop1 { t, p0: padding0 });
    }

    /// Pushes a conditional: pop a boolean (with flag `padding0`) and run
    /// one of the two fragments' operation lists against the same stack.
    pub(crate) fn push_join(&mut self, padding0: bool, then_seg: RawSegment, else_seg: RawSegment)
        requires
            old(self).wf(),
            then_seg.wf(),
            else_seg.wf(),
        ensures
            final(self).wf(),
            final(self).op_list()@ == old(self).op_list()@.push(
                OpRec::Join2 {
                    p0: padding0,
                    then_ops: then_seg.op_list(),
                    else_ops: else_seg.op_list(),
                },
            ),
            final(self).spec_base_alignment() == if old(self).spec_base_alignment()
                >= then_seg.spec_base_alignment() && old(self).spec_base_alignment()
                >= else_seg.spec_base_alignment() {
                old(self).spec_base_alignment()
            } else if then_seg.spec_base_alignment() >= else_seg.spec_base_alignment() {
                then_seg.spec_base_alignment()
            } else {
                else_seg.spec_base_alignment()
            },
    {
        let a0 = then_seg.base_alignment;
        let a1 = else_seg.base_alignment;
        if a0 > self.base_alignment {
            self.base_alignment = a0;
        }
        if a1 > self.base_alignment {
            self.base_alignment = a1;
        }
        self.ops.push(OpRec::Join2 {
            p0: padding0,
            then_ops: then_seg.ops,
            else_ops: else_seg.ops,
        });
    }

    /// Drops the values named by an unwind list, top of the stack first,
    /// logging each destroyed value.
    #[verifier::rlimit(100)]
    #[verifier::spinoff_prover]
    fn unwind_frames(stack: &mut RawStack, unwind: &Vec<UnwindStep>)
        requires
            old(stack).wf(),
            unwind_matches(unwind@, ts_of(*old(stack)).slots),
        ensures
            final(stack).wf(),
            final(stack).spec_base_alignment() == old(stack).spec_base_alignment(),
            final(stack).values() == old(stack).values().take(
                old(stack).values().len() - unwind@.len(),
            ),
            final(stack).gone() == old(stack).gone() + old(stack).values().skip(
                old(stack).values().len() - unwind@.len(),
            ).reverse(),
    {
        let k = unwind.len();
        let ghost vals0 = old(stack).values();
        let ghost gone0 = old(stack).gone();
        let ghost n0 = vals0.len();
        proof {
            lemma_ts_slots_len(*old(stack));
        }
        let mut j = k;
        while j > 0
            invariant
                stack.wf(),
                j <= k,
                k == unwind@.len(),
                k <= n0,
                n0 == vals0.len(),
                n0 == ts_of(*old(stack)).slots.len(),
                stack.spec_base_alignment() == old(stack).spec_base_alignment(),
                stack.values() == vals0.take((n0 - k + j) as int),
                stack.gone() == gone0 + vals0.skip((n0 - k + j) as int).reverse(),
                unwind_matches(unwind@, ts_of(*old(stack)).slots),
                ts_of(*stack).slots == ts_of(*old(stack)).slots.take((n0 - k + j) as int),
            decreases j,
        {
            j = j - 1;
            let step = unwind[j];
            proof {
                lemma_ts_slots_len(*stack);
                assert(ts_of(*stack).slots.last() == ts_of(*old(stack)).slots[(n0 - k
                    + j) as int]);
                assert(stack.entries_view().len() == ts_of(*stack).slots.len());
            }
            let ghost stack_before = *stack;
            stack.drop(step.t, step.padded);
            proof {
                lemma_ts_of_drop(stack_before, *stack);
                assert(stack.values() =~= vals0.take((n0 - k + j) as int));
                assert(stack.gone() =~= gone0 + vals0.skip((n0 - k + j) as int).reverse()) by {
                    assert(vals0.skip((n0 - k + j) as int).reverse() =~= vals0.skip(
                        (n0 - k + j + 1) as int,
                    ).reverse().push(vals0[(n0 - k + j) as int]));
                }
                assert(ts_of(*stack).slots =~= ts_of(*old(stack)).slots.take(
                    (n0 - k + j) as int,
                ));
            }
        }
    }

    /// Executes one operation against the stack.
    #[verifier::rlimit(100)]
    #[verifier::spinoff_prover]
    fn run_op(op: &OpRec, stack: &mut RawStack) -> (r: Result<(), SegError>)
        requires
            old(stack).wf(),
            check_op(*op, ts_of(*old(stack))) is Some,
        ensures
            final(stack).wf(),
            final(stack).spec_base_alignment() == old(stack).spec_base_alignment(),
            !(run_op_spec(*op, old(stack).values(), old(stack).gone()) is Stuck),
            ({
                let out = run_op_spec(*op, old(stack).values(), old(stack).gone());
                match out {
                    ROut::Good { vals, gone } => {
                        &&& r is Ok
                        &&& final(stack).values() == vals
                        &&& final(stack).gone() == gone
                        &&& Some(ts_of(*final(stack))) == check_op(*op, ts_of(*old(stack)))
                    },
                    ROut::Fail { msg, vals, gone } => {
                        &&& r matches Err(SegError::User(m2)) && m2@ == msg
                        &&& final(stack).values() == vals
                        &&& final(stack).gone() == gone
                    },
                    ROut::Stuck => false,
                }
            }),
        decreases *op,
    {
        match op {
            OpRec::Op0 { v } => {
                let c = v.clone();
                stack.push(c);
                proof {
                    lemma_ts_of_push(*old(stack), *stack, v.dv());
                }
                Ok(())
            },
            OpRec::Op0r { src, unwind } => match src {
                FallibleValue::Value(v) => {
                    let c = v.clone();
                    stack.push(c);
                    proof {
                        lemma_ts_of_push(*old(stack), *stack, v.dv());
                    }
                    Ok(())
                },
                FallibleValue::Error(_, m) => {
                    proof {
                        lemma_ts_slots_len(*old(stack));
                    }
                    Self::unwind_frames(stack, unwind);
                    Err(SegError::User(m.clone()))
                },
            },
            OpRec::Op1r { f, p0, unwind } => {
                proof {
                    lemma_ts_slots_len(*stack);
                }
                let x = stack.pop(crate::ops::fall_un_in_tag(f), *p0);
                let ghost mid = *stack;
                proof {
                    lemma_ts_of_pop(*old(stack), mid);
                    lemma_ts_slots_len(mid);
                }
                match eval_fall_un(f, x) {
                    Ok(v) => {
                        stack.push(v);
                        proof {
                            lemma_ts_of_push(
                                mid,
                                *stack,
                                spec_eval_fall_un(*f, x.dv())->Ok_0,
                            );
                            assert(stack.values() =~= old(stack).values().drop_last().push(
                                spec_eval_fall_un(*f, old(stack).values().last())->Ok_0,
                            ));
                        }
                        Ok(())
                    },
                    Err(msg) => {
                        Self::unwind_frames(stack, unwind);
                        proof {
                            assert(stack.values() =~= old(stack).values().drop_last().take(
                                old(stack).values().len() - 1 - unwind@.len(),
                            ));
                            assert(stack.gone() =~= old(stack).gone() + old(
                                stack,
                            ).values().drop_last().skip(
                                old(stack).values().len() - 1 - unwind@.len(),
                            ).reverse());
                        }
                        Err(SegError::User(msg))
                    },
                }
            },
            OpRec::Op1 { f, p0 } => {
                proof {
                    lemma_ts_slots_len(*stack);
                }
                let x = stack.pop(crate::ops::un_in_tag(f), *p0);
                let ghost mid = *stack;
                let r = eval_un(f, x);
                stack.push(r);
                proof {
                    lemma_ts_of_pop(*old(stack), mid);
                    lemma_ts_of_push(mid, *stack, spec_eval_un(*f, x.dv()));
                    assert(stack.values() =~= old(stack).values().drop_last().push(
                        spec_eval_un(*f, old(stack).values().last()),
                    ));
                }
                Ok(())
            },
            OpRec::Op2 { f, p0, p1 } => {
                proof {
                    lemma_ts_slots_len(*stack);
                }
                let u = stack.pop(crate::ops::bin_in_tag(f).1, *p1);
                let ghost mid1 = *stack;
                proof {
                    lemma_ts_of_pop(*old(stack), mid1);
                    lemma_ts_slots_len(mid1);
                }
                let t = stack.pop(crate::ops::bin_in_tag(f).0, *p0);
                let ghost mid2 = *stack;
                let r = eval_bin(f, t, u);
                stack.push(r);
                proof {
                    lemma_ts_of_pop(mid1, mid2);
                    lemma_ts_of_push(mid2, *stack, spec_eval_bin(*f, t.dv(), u.dv()));
                    assert(stack.values() =~= old(stack).values().drop_last().drop_last().push(
                        spec_eval_bin(
                            *f,
                            old(stack).values().drop_last().last(),
                            old(stack).values().last(),
                        ),
                    ));
                }
                Ok(())
            },
            OpRec::Op3 { f, p0, p1, p2 } => {
                proof {
                    lemma_ts_slots_len(*stack);
                }
                let z = stack.pop(crate::ops::tern_in_tag(f).2, *p2);
                let ghost mid1 = *stack;
                proof {
                    lemma_ts_of_pop(*old(stack), mid1);
                    lemma_ts_slots_len(mid1);
                }
                let y = stack.pop(crate::ops::tern_in_tag(f).1, *p1);
                let ghost mid2 = *stack;
                proof {
                    lemma_ts_of_pop(mid1, mid2);
                    lemma_ts_slots_len(mid2);
                }
                let x = stack.pop(crate::ops::tern_in_tag(f).0, *p0);
                let ghost mid3 = *stack;
                let r = eval_tern(f, x, y, z);
                stack.push(r);
                proof {
                    lemma_ts_of_pop(mid2, mid3);
                    lemma_ts_of_push(mid3, *stack, spec_eval_tern(*f, x.dv(), y.dv(), z.dv()));
                    assert(stack.values() =~= old(stack).values().drop_last().drop_last()
                        .drop_last().push(
                        spec_eval_tern(
                            *f,
                            old(stack).values().drop_last().drop_last().last(),
                            old(stack).values().drop_last().last(),
                            old(stack).values().last(),
                        ),
                    ));
                }
                Ok(())
            },
            OpRec::Drop1 { t, p0 } => {
                proof {
                    lemma_ts_slots_len(*stack);
                }
                let ghost stack_before = *stack;
                stack.drop(*t, *p0);
                proof {
                    lemma_ts_of_drop(stack_before, *stack);
                }
                Ok(())
            },
            OpRec::Join2 { p0, then_ops, else_ops } => {
                proof {
                    lemma_ts_slots_len(*stack);
                }
                let c = stack.pop(Tag::Bool, *p0);
                let ghost mid = *stack;
                proof {
                    lemma_ts_of_pop(*old(stack), mid);
                }
                let b = match c {
                    Value::Bool(b) => b,
                    _ => {
                        proof {
                            assert(false);
                        }
                        false
                    },
                };
                if b {
                    Self::run_list(then_ops, stack)
                } else {
                    Self::run_list(else_ops, stack)
                }
            },
        }
    }

    /// Executes an operation list in order against the stack, stopping at
    /// the first failure.
    #[verifier::rlimit(100)]
    #[verifier::spinoff_prover]
    fn run_list(ops: &Vec<OpRec>, stack: &mut RawStack) -> (r: Result<(), SegError>)
        requires
            old(stack).wf(),
            check_from(*ops, 0, ts_of(*old(stack))) is Some,
        ensures
            final(stack).wf(),
            final(stack).spec_base_alignment() == old(stack).spec_base_alignment(),
            !(run_from_spec(*ops, 0, old(stack).values(), old(stack).gone()) is Stuck),
            ({
                let out = run_from_spec(*ops, 0, old(stack).values(), old(stack).gone());
                match out {
                    ROut::Good { vals, gone } => {
                        &&& r is Ok
                        &&& final(stack).values() == vals
                        &&& final(stack).gone() == gone
                        &&& Some(ts_of(*final(stack))) == check_from(
                            *ops,
                            0,
                            ts_of(*old(stack)),
                        )
                    },
                    ROut::Fail { msg, vals, gone } => {
                        &&& r matches Err(SegError::User(m2)) && m2@ == msg
                        &&& final(stack).values() == vals
                        &&& final(stack).gone() == gone
                    },
                    ROut::Stuck => false,
                }
            }),
        decreases *ops,
    {
        let n = ops.len();
        let mut i: usize = 0;
        while i < n
            invariant
                stack.wf(),
                i <= n,
                n == ops@.len(),
                stack.spec_base_alignment() == old(stack).spec_base_alignment(),
                check_from(*ops, i as int, ts_of(*stack)) == check_from(
                    *ops,
                    0,
                    ts_of(*old(stack)),
                ),
                check_from(*ops, 0, ts_of(*old(stack))) is Some,
                run_from_spec(*ops, i as int, stack.values(), stack.gone()) == run_from_spec(
                    *ops,
                    0,
                    old(stack).values(),
                    old(stack).gone(),
                ),
            decreases n - i,
        {
            let op = &ops[i];
            match Self::run_op(op, stack) {
                Ok(()) => {},
                Err(e) => {
                    return Err(e);
                },
            }
            i = i + 1;
        }
        Ok(())
    }
}

impl RawSegment {
    /// Executes the segment on an empty stack and returns the final value.
    ///
    /// The checked shadow must end with exactly one slot of kind `out` and
    /// no padding; the result is exactly what the run function yields.
    #[verifier::rlimit(100)]
    pub fn call0(&self, out: Tag) -> (r: Result<Value, SegError>)
        requires
            self.wf(),
            check_from(self.op_list(), 0, TState { slots: Seq::empty(), idx: 0 }) matches Some(
                fin,
            ) && fin.slots.len() == 1 && fin.slots[0].tag == out && fin.slots[0].pad == 0,
        ensures
            ({
                let res = run_from_spec(self.op_list(), 0, Seq::empty(), Seq::empty());
                match res {
                    ROut::Good { vals, gone } => r matches Ok(v) && vals.len() == 1 && v.dv()
                        == vals[0],
                    ROut::Fail { msg, vals, gone } => r matches Err(SegError::User(m2)) && m2@
                        == msg,
                    ROut::Stuck => false,
                }
            }),
    {
        let mut stack = RawStack::with_base_alignment(self.base_alignment);
        proof {
            assert(ts_of(stack).slots =~= Seq::<TSlot>::empty());
            assert(stack.values() =~= Seq::<AbsVal>::empty());
        }
        match Self::run_list(&self.ops, &mut stack) {
            Err(e) => Err(e),
            Ok(()) => {
                proof {
                    lemma_ts_slots_len(stack);
                }
                let v = stack.pop(out, false);
                Ok(v)
            },
        }
    }

    /// Executes the segment with one argument pushed first.
    #[verifier::rlimit(100)]
    pub fn call1(&self, arg: Value, out: Tag) -> (r: Result<Value, SegError>)
        requires
            self.wf(),
            check_from(
                self.op_list(),
                0,
                ts_push(TState { slots: Seq::empty(), idx: 0 }, tag_of(arg.dv())),
            ) matches Some(fin) && fin.slots.len() == 1 && fin.slots[0].tag == out
                && fin.slots[0].pad == 0,
        ensures
            ({
                let res = run_from_spec(self.op_list(), 0, seq![arg.dv()], Seq::empty());
                match res {
                    ROut::Good { vals, gone } => r matches Ok(v) && vals.len() == 1 && v.dv()
                        == vals[0],
                    ROut::Fail { msg, vals, gone } => r matches Err(SegError::User(m2)) && m2@
                        == msg,
                    ROut::Stuck => false,
                }
            }),
    {
        let ghost a0 = arg.dv();
        let mut stack = RawStack::with_base_alignment(self.base_alignment);
        proof {
            assert(ts_of(stack).slots =~= Seq::<TSlot>::empty());
            assert(stack.values() =~= Seq::<AbsVal>::empty());
        }
        let ghost s0 = stack;
        stack.push(arg);
        proof {
            lemma_ts_of_push(s0, stack, a0);
            assert(stack.values() =~= seq![a0]);
        }
        match Self::run_list(&self.ops, &mut stack) {
            Err(e) => Err(e),
            Ok(()) => {
                proof {
                    lemma_ts_slots_len(stack);
                }
                let v = stack.pop(out, false);
                Ok(v)
            },
        }
    }

    /// Executes the segment with two arguments pushed left to right.
    #[verifier::rlimit(100)]
    pub fn call2(&self, args: (Value, Value), out: Tag) -> (r: Result<Value, SegError>)
        requires
            self.wf(),
            check_from(
                self.op_list(),
                0,
                ts_push(
                    ts_push(TState { slots: Seq::empty(), idx: 0 }, tag_of(args.0.dv())),
                    tag_of(args.1.dv()),
                ),
            ) matches Some(fin) && fin.slots.len() == 1 && fin.slots[0].tag == out
                && fin.slots[0].pad == 0,
        ensures
            ({
                let res = run_from_spec(
                    self.op_list(),
                    0,
                    seq![args.0.dv(), args.1.dv()],
                    Seq::empty(),
                );
                match res {
                    ROut::Good { vals, gone } => r matches Ok(v) && vals.len() == 1 && v.dv()
                        == vals[0],
                    ROut::Fail { msg, vals, gone } => r matches Err(SegError::User(m2)) && m2@
                        == msg,
                    ROut::Stuck => false,
                }
            }),
    {
        let (a, b) = args;
        let ghost a0 = a.dv();
        let ghost b0 = b.dv();
        let mut stack = RawStack::with_base_alignment(self.base_alignment);
        proof {
            assert(ts_of(stack).slots =~= Seq::<TSlot>::empty());
            assert(stack.values() =~= Seq::<AbsVal>::empty());
        }
        let ghost s0 = stack;
        a.tag();
        proof {
            lemma_tag_align_power_of_two(tag_of(a0));
            crate::memory::lemma_power_of_two_pos(spec_tag_align(tag_of(a0)));
            crate::memory::lemma_align_index_properties(spec_tag_align(tag_of(a0)), 0);
        }
        stack.push(a);
        proof {
            lemma_ts_of_push(s0, stack, a0);
        }
        let ghost s1 = stack;
        stack.push(b);
        proof {
            lemma_ts_of_push(s1, stack, b0);
            assert(stack.values() =~= seq![a0, b0]);
        }
        match Self::run_list(&self.ops, &mut stack) {
            Err(e) => Err(e),
            Ok(()) => {
                proof {
                    lemma_ts_slots_len(stack);
                }
                let v = stack.pop(out, false);
                Ok(v)
            },
        }
    }
}

/// Checking an operation list with one more operation at its end first
/// checks the old list, then the new operation.
#[verifier::rlimit(100)]
pub proof fn lemma_check_snoc(ops1: Vec<OpRec>, ops0: Vec<OpRec>, op: OpRec, i: int, ts: TState)
    requires
        ops1@ == ops0@.push(op),
        0 <= i <= ops0@.len(),
    ensures
        check_from(ops1, i, ts) == match check_from(ops0, i, ts) {
            Some(t) => check_op(op, t),
            None => None,
        },
    decreases ops0@.len() - i,
{
    if i == ops0@.len() {
        assert(ops1@[i] == op);
    } else {
        assert(ops1@[i] == ops0@[i]);
        match check_op(ops0@[i], ts) {
            Some(t2) => {
                lemma_check_snoc(ops1, ops0, op, i + 1, t2);
            },
            None => {},
        }
    }
}

/// The framed copy of a shadow: the same slots on top of a fixed prefix.
pub open spec fn frame_ts(prefix: Seq<TSlot>, ts: TState) -> TState {
    TState { slots: prefix + ts.slots, idx: ts.idx }
}

/// An accepted operation is still accepted, with the same effect, when the
/// stack holds additional values beneath everything it touches.
#[verifier::rlimit(100)]
pub proof fn lemma_check_frame_op(op: OpRec, ts: TState, prefix: Seq<TSlot>)
    requires
        check_op(op, ts) is Some,
    ensures
        check_op(op, frame_ts(prefix, ts)) == Some(frame_ts(prefix, check_op(op, ts)->Some_0)),
    decreases op, 0int,
{
    let fts = frame_ts(prefix, ts);
    match op {
        OpRec::Op0 { v } => {
            assert((prefix + ts.slots).push(ts_push(ts, tag_of(v.dv())).slots.last()) =~= prefix
                + ts.slots.push(ts_push(ts, tag_of(v.dv())).slots.last()));
        },
        OpRec::Op0r { src, unwind } => {
            assert(unwind_matches(unwind@, fts.slots)) by {
                assert(forall|j: int|
                    0 <= j < unwind@.len() ==> fts.slots[fts.slots.len() - unwind@.len() + j]
                        == #[trigger] ts.slots[ts.slots.len() - unwind@.len() + j]);
            }
            let t = spec_fallible_out(src);
            assert((prefix + ts.slots).push(ts_push(ts, t).slots.last()) =~= prefix
                + ts.slots.push(ts_push(ts, t).slots.last()));
        },
        OpRec::Op1 { f, p0 } => {
            assert(fts.slots.last() == ts.slots.last());
            assert(ts_pop(fts).slots =~= frame_ts(prefix, ts_pop(ts)).slots);
            let t = spec_un_out(f);
            assert((prefix + ts_pop(ts).slots).push(ts_push(ts_pop(ts), t).slots.last()) =~=
                prefix + ts_pop(ts).slots.push(ts_push(ts_pop(ts), t).slots.last()));
        },
        OpRec::Op1r { f, p0, unwind } => {
            assert(fts.slots.last() == ts.slots.last());
            assert(ts_pop(fts).slots =~= frame_ts(prefix, ts_pop(ts)).slots);
            let st = ts_pop(ts);
            assert(unwind_matches(unwind@, ts_pop(fts).slots)) by {
                assert(forall|j: int|
                    0 <= j < unwind@.len() ==> ts_pop(fts).slots[ts_pop(fts).slots.len()
                        - unwind@.len() + j] == #[trigger] st.slots[st.slots.len()
                        - unwind@.len() + j]);
            }
            let t = spec_fall_un_out(f);
            assert((prefix + st.slots).push(ts_push(st, t).slots.last()) =~= prefix
                + st.slots.push(ts_push(st, t).slots.last()));
        },
        OpRec::Op2 { f, p0, p1 } => {
            let ts1 = ts_pop(ts);
            let ts2 = ts_pop(ts1);
            assert(fts.slots.last() == ts.slots.last());
            assert(ts_pop(fts).slots =~= frame_ts(prefix, ts1).slots);
            assert(ts_pop(frame_ts(prefix, ts1)).slots =~= frame_ts(prefix, ts2).slots);
            let t = spec_bin_out(f);
            assert((prefix + ts2.slots).push(ts_push(ts2, t).slots.last()) =~= prefix
                + ts2.slots.push(ts_push(ts2, t).slots.last()));
        },
        OpRec::Op3 { f, p0, p1, p2 } => {
            let ts1 = ts_pop(ts);
            let ts2 = ts_pop(ts1);
            let ts3 = ts_pop(ts2);
            assert(fts.slots.last() == ts.slots.last());
            assert(ts_pop(fts).slots =~= frame_ts(prefix, ts1).slots);
            assert(ts_pop(frame_ts(prefix, ts1)).slots =~= frame_ts(prefix, ts2).slots);
            assert(ts_pop(frame_ts(prefix, ts2)).slots =~= frame_ts(prefix, ts3).slots);
            let t = spec_tern_out(f);
            assert((prefix + ts3.slots).push(ts_push(ts3, t).slots.last()) =~= prefix
                + ts3.slots.push(ts_push(ts3, t).slots.last()));
        },
        OpRec::Drop1 { t, p0 } => {
            assert(fts.slots.last() == ts.slots.last());
            assert(ts_pop(fts).slots =~= frame_ts(prefix, ts_pop(ts)).slots);
        },
        OpRec::Join2 { p0, then_ops, else_ops } => {
            let st = ts_pop(ts);
            assert(fts.slots.last() == ts.slots.last());
            assert(ts_pop(fts).slots =~= frame_ts(prefix, st).slots);
            assert(ts_pop(fts) == frame_ts(prefix, st));
            lemma_check_frame(then_ops, 0, st, prefix);
            lemma_check_frame(else_ops, 0, st, prefix);
        },
    }
}

/// An accepted operation list is still accepted, with the same effect, on
/// top of additional values beneath everything it touches.
#[verifier::rlimit(100)]
pub proof fn lemma_check_frame(ops: Vec<OpRec>, i: int, ts: TState, prefix: Seq<TSlot>)
    requires
        check_from(ops, i, ts) is Some,
    ensures
        check_from(ops, i, frame_ts(prefix, ts)) == Some(
            frame_ts(prefix, check_from(ops, i, ts)->Some_0),
        ),
    decreases ops, ops@.len() - i,
{
    if i == ops@.len() {
    } else {
        let t2 = check_op(ops@[i], ts)->Some_0;
        lemma_check_frame_op(ops@[i], ts, prefix);
        lemma_check_frame(ops, i + 1, t2, prefix);
    }
}

/// The byte position just past slot `i - 1`, or the base position for the
/// first slot.
pub open spec fn tprev(slots: Seq<TSlot>, i: int, base: nat) -> nat {
    if i == 0 {
        base
    } else {
        slots[i - 1].start + spec_tag_size(slots[i - 1].tag)
    }
}

/// The shadow's slots are chained from `base`: each slot sits at the
/// aligned position past the slot below it, its padding records the gap,
/// and the index points just past the top slot.
pub open spec fn ts_chain(ts: TState, base: nat) -> bool {
    &&& forall|i: int|
        0 <= i < ts.slots.len() ==> {
            &&& #[trigger] ts.slots[i].start == spec_align_index(
                spec_tag_align(ts.slots[i].tag),
                tprev(ts.slots, i, base),
            )
            &&& ts.slots[i].pad == ts.slots[i].start - tprev(ts.slots, i, base)
            &&& ts.slots[i].start >= tprev(ts.slots, i, base)
        }
    &&& ts.idx == if ts.slots.len() == 0 {
        base
    } else {
        (ts.slots.last().start + spec_tag_size(ts.slots.last().tag)) as nat
    }
}

/// Pushing keeps the shadow chained.
pub proof fn lemma_ts_chain_push(ts: TState, t: Tag, base: nat)
    requires
        ts_chain(ts, base),
    ensures
        ts_chain(ts_push(ts, t), base),
{
    lemma_tag_align_power_of_two(t);
    crate::memory::lemma_power_of_two_pos(spec_tag_align(t));
    crate::memory::lemma_align_index_properties(spec_tag_align(t), ts.idx);
    let ts2 = ts_push(ts, t);
    assert(forall|i: int|
        0 <= i < ts.slots.len() ==> ts2.slots[i] == ts.slots[i]);
    assert(forall|i: int|
        0 <= i < ts.slots.len() ==> tprev(ts2.slots, i, base) == tprev(ts.slots, i, base));
    assert(tprev(ts2.slots, ts.slots.len() as int, base) == ts.idx);
}

/// Popping keeps the shadow chained.
pub proof fn lemma_ts_chain_pop(ts: TState, base: nat)
    requires
        ts_chain(ts, base),
        ts.slots.len() > 0,
    ensures
        ts_chain(ts_pop(ts), base),
{
    let ts2 = ts_pop(ts);
    assert(forall|i: int|
        0 <= i < ts2.slots.len() ==> ts2.slots[i] == ts.slots[i]);
    assert(forall|i: int|
        0 <= i < ts2.slots.len() ==> tprev(ts2.slots, i, base) == tprev(ts.slots, i, base));
    assert(ts.slots.last().start - ts.slots.last().pad == tprev(
        ts.slots,
        ts.slots.len() - 1,
        base,
    ));
}

/// The shadow's slot count equals the stack's entry count, and the slots
/// project the entries.
proof fn lemma_ts_slots_len(stack: RawStack)
    ensures
        ts_of(stack).slots.len() == stack.entries_view().len(),
        stack.values().len() == stack.entries_view().len(),
        forall|i: int|
            0 <= i < stack.entries_view().len() ==> {
                &&& (#[trigger] ts_of(stack).slots[i]).tag == tag_of(stack.entries_view()[i].v)
                &&& ts_of(stack).slots[i].pad == stack.entries_view()[i].pad
                &&& ts_of(stack).slots[i].start == stack.entries_view()[i].start
                &&& stack.values()[i] == stack.entries_view()[i].v
            },
{
}

/// After a push whose contract holds, the shadow is `ts_push` of the old
/// shadow.
proof fn lemma_ts_of_push(s0: RawStack, s1: RawStack, v: AbsVal)
    requires
        s1.entries_view() == s0.entries_view().push(s1.entries_view().last()),
        s1.entries_view().last().v == v,
        s1.entries_view().last().pad == spec_align_index(
            spec_tag_align(tag_of(v)),
            s0.byte_len(),
        ) - s0.byte_len(),
        s1.entries_view().last().start == spec_align_index(
            spec_tag_align(tag_of(v)),
            s0.byte_len(),
        ),
        s1.byte_len() == spec_align_index(spec_tag_align(tag_of(v)), s0.byte_len())
            + spec_tag_size(tag_of(v)),
    ensures
        ts_of(s1) == ts_push(ts_of(s0), tag_of(v)),
{
    lemma_ts_slots_len(s0);
    lemma_ts_slots_len(s1);
    assert(ts_of(s1).slots =~= ts_push(ts_of(s0), tag_of(v)).slots);
}

/// After a pop whose contract holds, the shadow is `ts_pop` of the old
/// shadow.
proof fn lemma_ts_of_pop(s0: RawStack, s1: RawStack)
    requires
        s0.entries_view().len() > 0,
        s1.entries_view() == s0.entries_view().drop_last(),
        s1.byte_len() == s0.entries_view().last().start - s0.entries_view().last().pad,
    ensures
        ts_of(s1) == ts_pop(ts_of(s0)),
{
    lemma_ts_slots_len(s0);
    lemma_ts_slots_len(s1);
    assert(ts_of(s1).slots =~= ts_pop(ts_of(s0)).slots);
}

/// A drop changes the shadow exactly as a pop does.
proof fn lemma_ts_of_drop(s0: RawStack, s1: RawStack)
    requires
        s0.entries_view().len() > 0,
        s1.entries_view() == s0.entries_view().drop_last(),
        s1.byte_len() == s0.entries_view().last().start - s0.entries_view().last().pad,
    ensures
        ts_of(s1) == ts_pop(ts_of(s0)),
{
    lemma_ts_of_pop(s0, s1);
}


/// Running a list of operations depends only on the operations themselves.
pub proof fn lemma_run_from_view(ops1: Vec<OpRec>, ops2: Vec<OpRec>, i: int, vals: Seq<AbsVal>,
    gone: Seq<AbsVal>)
    requires
        ops1@ == ops2@,
    ensures
        run_from_spec(ops1, i, vals, gone) == run_from_spec(ops2, i, vals, gone),
    decreases ops1@.len() - i,
{
    if 0 <= i && i < ops1@.len() {
        assert(ops1@[i] == ops2@[i]);
        match run_op_spec(ops1@[i], vals, gone) {
            ROut::Good { vals: v2, gone: g2 } => {
                lemma_run_from_view(ops1, ops2, i + 1, v2, g2);
            },
            _ => {},
        }
    }
}

/// Law: a conditional whose branches hold the same operations yields the
/// same outcome whatever the condition value.
pub proof fn lemma_join_condition_irrelevant(op: OpRec, b1: bool, b2: bool, vals: Seq<AbsVal>,
    gone: Seq<AbsVal>)
    requires
        op matches OpRec::Join2 { p0, then_ops, else_ops } && then_ops@ == else_ops@,
    ensures
        run_op_spec(op, vals.push(AbsVal::Bool(b1)), gone) == run_op_spec(
            op,
            vals.push(AbsVal::Bool(b2)),
            gone,
        ),
{
    match op {
        OpRec::Join2 { p0, then_ops, else_ops } => {
            assert(vals.push(AbsVal::Bool(b1)).drop_last() =~= vals);
            assert(vals.push(AbsVal::Bool(b2)).drop_last() =~= vals);
            lemma_run_from_view(then_ops, else_ops, 0, vals, gone);
        },
        _ => {},
    }
}

/// Law of drop accounting: when a fallible operation whose unwind list
/// covers the whole stack fails, the run ends with an empty stack and the
/// destruction log has grown by exactly the values that were live, in LIFO
/// order — each exactly once.
pub proof fn lemma_unwind_accounting(op: OpRec, vals: Seq<AbsVal>, gone: Seq<AbsVal>)
    requires
        op matches OpRec::Op0r { src: FallibleValue::Error(t, m), unwind } && unwind@.len()
            == vals.len(),
    ensures
        ({
            let out = run_op_spec(op, vals, gone);
            &&& out matches ROut::Fail { msg, vals: rem, gone: g2 }
            &&& out->Fail_vals == Seq::<AbsVal>::empty()
            &&& out->Fail_gone == gone + vals.reverse()
        }),
{
    match op {
        OpRec::Op0r { src, unwind } => {
            assert(vals.take(0) =~= Seq::<AbsVal>::empty());
            assert(vals.skip(0) =~= vals);
        },
        _ => {},
    }
}

} // verus!
