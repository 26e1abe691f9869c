//! A stack-based mini-runtime for building and executing small programs.
//!
//! A program (a *segment*) is an ordered list of operations; each operation
//! takes its arguments from a typed value stack and pushes a single result.
//! The stack is a byte buffer with per-value alignment: inserted padding is
//! encoded inline with a sentinel byte so that popping a value can restore
//! the exact buffer length from before the corresponding push.
//!
//! The crate exposes three layers:
//!
//! - [`raw_vec::RawVec`], [`raw_stack::RawStack`] and
//!   [`raw_sequence::RawSequence`]: aligned byte storage, the padding-aware
//!   value stack, and an append-only heterogeneous store;
//! - [`raw_segment::RawSegment`]: the instruction list and its executor,
//!   specified by a small-step interpreter over abstract values; the
//!   operation vocabulary and the value universe live in [`ops`] and
//!   [`value`];
//! - [`dyn_segment::DynSegment`]: the builder, which tracks a shadow stack of
//!   value kinds and padding flags, rejects ill-typed operations, and keeps
//!   the drop-on-error unwind lists that make failed runs leak-free.
//!
//! [`list_traits`], [`tuple_list`] and [`type_list`] hold the cons-cell list
//! utilities used to describe argument layouts.

pub mod dyn_segment;
pub mod error;
pub mod list_traits;
pub mod memory;
pub mod ops;
pub mod raw_vec;
pub mod raw_segment;
pub mod raw_sequence;
pub mod raw_stack;
pub mod tuple_list;
pub mod type_list;
pub mod value;

use vstd::prelude::*;

verus! {

} // verus!
