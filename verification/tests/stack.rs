use cel_rs::raw_stack::RawStack;
use cel_rs::value::{Tag, Value};
use std::mem::align_of;

#[test]
fn push_pop_u32() {
    let mut stack = RawStack::with_base_alignment(align_of::<u32>());
    let padding = stack.push(Value::U32(10));
    let result = stack.pop(Tag::U32, padding);
    assert!(matches!(result, Value::U32(10)));
}

#[test]
fn multiple_push_pop() {
    let mut stack = RawStack::with_base_alignment(align_of::<u32>());
    let padding1 = stack.push(Value::U32(1));
    let padding2 = stack.push(Value::U32(2));
    let padding3 = stack.push(Value::U32(3));
    let v3 = stack.pop(Tag::U32, padding3);
    let v2 = stack.pop(Tag::U32, padding2);
    let v1 = stack.pop(Tag::U32, padding1);
    assert!(matches!(v1, Value::U32(1)));
    assert!(matches!(v2, Value::U32(2)));
    assert!(matches!(v3, Value::U32(3)));
}

// Two kinds of different alignments share the stack; the wide value is a
// 64-bit integer.
#[test]
fn push_pop_different_types() {
    let mut stack = RawStack::with_base_alignment(align_of::<u64>());
    let padding1 = stack.push(Value::U32(42));
    let padding2 = stack.push(Value::U64(314));
    let value_w = stack.pop(Tag::U64, padding2);
    let value_u = stack.pop(Tag::U32, padding1);
    assert!(matches!(value_w, Value::U64(314)));
    assert!(matches!(value_u, Value::U32(42)));
}

// Padding boundary: a one-byte value followed by an eight-byte value on a
// buffer with base alignment 8; the pop recovers both values and restores
// the length.
#[test]
fn padding_sentinel_roundtrip() {
    let mut stack = RawStack::with_base_alignment(8);
    let p1 = stack.push(Value::U8(5));
    let p2 = stack.push(Value::U64(7));
    assert!(!p1);
    assert!(p2);
    let top = stack.pop(Tag::U64, p2);
    assert!(matches!(top, Value::U64(7)));
    let below = stack.pop(Tag::U8, p1);
    assert!(matches!(below, Value::U8(5)));
}

#[test]
fn strings_share_the_arena() {
    let mut stack = RawStack::with_base_alignment(8);
    let p1 = stack.push(Value::Str("hello".to_string()));
    let p2 = stack.push(Value::Str("world".to_string()));
    match stack.pop(Tag::Str, p2) {
        Value::Str(s) => assert_eq!(s, "world"),
        _ => panic!("expected a string"),
    }
    match stack.pop(Tag::Str, p1) {
        Value::Str(s) => assert_eq!(s, "hello"),
        _ => panic!("expected a string"),
    }
}

#[test]
fn unit_values_are_zero_sized() {
    let mut stack = RawStack::with_base_alignment(8);
    let p1 = stack.push(Value::Unit);
    let p2 = stack.push(Value::U8(3));
    assert!(!p1);
    assert!(!p2);
    assert!(matches!(stack.pop(Tag::U8, p2), Value::U8(3)));
    assert!(matches!(stack.pop(Tag::Unit, p1), Value::Unit));
}
