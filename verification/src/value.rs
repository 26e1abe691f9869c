//! The value universe of the runtime.
//!
//! The stack machine is heterogeneous over a closed set of value kinds: unit,
//! booleans, small and wide integers, owned strings, and drop tokens. A
//! [`Tag`] names a kind; a [`Value`] carries a value of that kind. Scalar
//! values live on the byte stack as their little-endian encoding; strings and
//! tokens live in a side arena owned by the stack, and their stack footprint
//! is an eight-byte handle, mirroring how an owned string is represented by a
//! fixed-size header wherever it is stored.
//!
//! A drop token (`Value::Token`) exists to make the drop protocol
//! observable: whenever the runtime destroys a token while unwinding or
//! discarding, it adds one to the shared counter the token carries.

use crate::memory::is_power_of_two;
use std::sync::Arc;
use std::sync::atomic::AtomicUsize;
use vstd::prelude::*;

verus! {

/// The kind of a stack value.
#[derive(Clone, Copy, PartialEq, Eq, Structural, Debug)]
pub enum Tag {
    /// The unit value; zero bytes.
    Unit,
    /// A boolean; one byte.
    Bool,
    /// An unsigned byte.
    U8,
    /// A 32-bit unsigned integer.
    U32,
    /// A 64-bit unsigned integer.
    U64,
    /// An owned string; held in the arena behind an eight-byte handle.
    Str,
    /// A drop-counting token; held in the arena behind an eight-byte handle.
    Token,
}

/// A runtime value.
pub enum Value {
    /// The unit value.
    Unit,
    /// A boolean.
    Bool(bool),
    /// An unsigned byte.
    U8(u8),
    /// A 32-bit unsigned integer.
    U32(u32),
    /// A 64-bit unsigned integer.
    U64(u64),
    /// An owned string.
    Str(String),
    /// A drop-counting token: destroying it adds one to the shared counter.
    Token(Arc<AtomicUsize>),
}

/// The mathematical value of a [`Value`]: strings become character
/// sequences, everything else keeps its payload.
pub ghost enum AbsVal {
    /// The unit value.
    Unit,
    /// A boolean.
    Bool(bool),
    /// An unsigned byte.
    U8(u8),
    /// A 32-bit unsigned integer.
    U32(u32),
    /// A 64-bit unsigned integer.
    U64(u64),
    /// A string, as its character sequence.
    Str(Seq<char>),
    /// A drop token, as the counter it carries.
    Token(Arc<AtomicUsize>),
}

impl Value {
    /// The mathematical value.
    pub open spec fn dv(&self) -> AbsVal {
        match self {
            Value::Unit => AbsVal::Unit,
            Value::Bool(b) => AbsVal::Bool(*b),
            Value::U8(x) => AbsVal::U8(*x),
            Value::U32(x) => AbsVal::U32(*x),
            Value::U64(x) => AbsVal::U64(*x),
            Value::Str(s) => AbsVal::Str(s@),
            Value::Token(c) => AbsVal::Token(*c),
        }
    }

    /// The kind of this value.
    pub fn tag(&self) -> (t: Tag)
        ensures
            t == tag_of(self.dv()),
    {
        match self {
            Value::Unit => Tag::Unit,
            Value::Bool(_) => Tag::Bool,
            Value::U8(_) => Tag::U8,
            Value::U32(_) => Tag::U32,
            Value::U64(_) => Tag::U64,
            Value::Str(_) => Tag::Str,
            Value::Token(_) => Tag::Token,
        }
    }
}

impl Clone for Value {
    /// A clone has the same mathematical value; cloning a token shares its
    /// counter.
    fn clone(&self) -> (r: Self)
        ensures
            r.dv() == self.dv(),
    {
        match self {
            Value::Unit => Value::Unit,
            Value::Bool(b) => Value::Bool(*b),
            Value::U8(x) => Value::U8(*x),
            Value::U32(x) => Value::U32(*x),
            Value::U64(x) => Value::U64(*x),
            Value::Str(s) => Value::Str(s.clone()),
            Value::Token(c) => Value::Token(token_share(c)),
        }
    }
}

/// The kind of an abstract value.
pub open spec fn tag_of(v: AbsVal) -> Tag {
    match v {
        AbsVal::Unit => Tag::Unit,
        AbsVal::Bool(_) => Tag::Bool,
        AbsVal::U8(_) => Tag::U8,
        AbsVal::U32(_) => Tag::U32,
        AbsVal::U64(_) => Tag::U64,
        AbsVal::Str(_) => Tag::Str,
        AbsVal::Token(_) => Tag::Token,
    }
}

/// The number of bytes a value of kind `t` occupies on the stack.
pub open spec fn spec_tag_size(t: Tag) -> nat {
    match t {
        Tag::Unit => 0,
        Tag::Bool => 1,
        Tag::U8 => 1,
        Tag::U32 => 4,
        Tag::U64 => 8,
        Tag::Str => 8,
        Tag::Token => 8,
    }
}

/// The alignment a value of kind `t` needs on the stack.
pub open spec fn spec_tag_align(t: Tag) -> nat {
    match t {
        Tag::Unit => 1,
        Tag::Bool => 1,
        Tag::U8 => 1,
        Tag::U32 => 4,
        Tag::U64 => 8,
        Tag::Str => 8,
        Tag::Token => 8,
    }
}

/// Every kind's alignment is a power of two, and no size outgrows its
/// alignment by more than the sizes say.
pub proof fn lemma_tag_align_power_of_two(t: Tag)
    ensures
        is_power_of_two(spec_tag_align(t)),
        spec_tag_align(t) <= 8,
        spec_tag_size(t) <= 8,
{
    reveal_with_fuel(is_power_of_two, 5);
    assert(is_power_of_two(1nat));
    assert(is_power_of_two(4nat));
    assert(is_power_of_two(8nat));
}

/// The size of a value of kind `t`, as an executable function.
pub fn tag_size(t: Tag) -> (n: usize)
    ensures
        n == spec_tag_size(t),
{
    match t {
        Tag::Unit => 0,
        Tag::Bool => 1,
        Tag::U8 => 1,
        Tag::U32 => 4,
        Tag::U64 => 8,
        Tag::Str => 8,
        Tag::Token => 8,
    }
}

/// The alignment of a value of kind `t`, as an executable function.
pub fn tag_align(t: Tag) -> (n: usize)
    ensures
        n == spec_tag_align(t),
{
    match t {
        Tag::Unit => 1,
        Tag::Bool => 1,
        Tag::U8 => 1,
        Tag::U32 => 4,
        Tag::U64 => 8,
        Tag::Str => 8,
        Tag::Token => 8,
    }
}

/// The printable name of a kind.
pub open spec fn spec_tag_name(t: Tag) -> Seq<char> {
    match t {
        Tag::Unit => "unit"@,
        Tag::Bool => "bool"@,
        Tag::U8 => "u8"@,
        Tag::U32 => "u32"@,
        Tag::U64 => "u64"@,
        Tag::Str => "string"@,
        Tag::Token => "token"@,
    }
}

/// The printable name of a kind, as a piece of text.
pub fn tag_name(t: Tag) -> (r: &'static str)
    ensures
        r@ == spec_tag_name(t),
{
    match t {
        Tag::Unit => "unit",
        Tag::Bool => "bool",
        Tag::U8 => "u8",
        Tag::U32 => "u32",
        Tag::U64 => "u64",
        Tag::Str => "string",
        Tag::Token => "token",
    }
}

/// True when values of kind `t` live in the arena behind a handle.
pub open spec fn is_arena_tag(t: Tag) -> bool {
    t == Tag::Str || t == Tag::Token
}

/// An arena slot: the owned payload of a string or token value whose stack
/// footprint is a handle.
pub enum HeapVal {
    /// An owned string.
    Str(String),
    /// A drop token.
    Token(Arc<AtomicUsize>),
}

/// The byte encoding of a scalar value (little endian); arena values are
/// encoded as their handle instead, see `spec_entry_code`.
pub open spec fn spec_scalar_code(v: AbsVal) -> Seq<u8> {
    match v {
        AbsVal::Unit => Seq::<u8>::empty(),
        AbsVal::Bool(b) => seq![if b { 1u8 } else { 0u8 }],
        AbsVal::U8(x) => seq![x],
        AbsVal::U32(x) => vstd::bytes::spec_u32_to_le_bytes(x),
        AbsVal::U64(x) => vstd::bytes::spec_u64_to_le_bytes(x),
        AbsVal::Str(_) => Seq::<u8>::empty(),
        AbsVal::Token(_) => Seq::<u8>::empty(),
    }
}

/// The byte run a value contributes to the stack: its scalar encoding, or
/// the little-endian encoding of its arena handle.
pub open spec fn spec_entry_code(v: AbsVal, handle: nat) -> Seq<u8> {
    if is_arena_tag(tag_of(v)) {
        vstd::bytes::spec_u64_to_le_bytes(handle as u64)
    } else {
        spec_scalar_code(v)
    }
}

/// A value's byte run is exactly as long as its kind's size.
pub proof fn lemma_entry_code_len(v: AbsVal, handle: nat)
    ensures
        spec_entry_code(v, handle).len() == spec_tag_size(tag_of(v)),
{
    vstd::bytes::lemma_auto_spec_u32_to_from_le_bytes();
    vstd::bytes::lemma_auto_spec_u64_to_from_le_bytes();
}

/// Relies on `Arc::clone`: the returned handle shares the same allocation as
/// the argument, so as a specification-level value it equals the argument.
#[verifier::external_body]
pub(crate) fn token_share(c: &Arc<AtomicUsize>) -> (r: Arc<AtomicUsize>)
    ensures
        r == *c,
{
    Arc::clone(c)
}

/// Relies on `AtomicUsize::fetch_add`: adds one to the shared counter. Used
/// by the drop protocol so that destroying a token is observable.
#[verifier::external_body]
pub(crate) fn token_hit(c: &Arc<AtomicUsize>) {
    c.fetch_add(1, std::sync::atomic::Ordering::SeqCst);
}

/// Runs the drop protocol for one value: destroying a token adds one to its
/// counter; every other value is simply discarded.
pub fn destroy_value(v: Value) {
    match v {
        Value::Token(c) => token_hit(&c),
        _ => (),
    }
}

} // verus!
