use cel_rs::ops::{BinOp, TernOp, UnOp};
use cel_rs::raw_segment::RawSegment;
use cel_rs::value::{Tag, Value};

#[test]
fn test_nullary_operation() {
    let mut segment = RawSegment::new();
    segment.push_op0(Value::U32(42));
    assert!(matches!(segment.call0(Tag::U32).unwrap(), Value::U32(42)));
}

#[test]
fn test_unary_operation() {
    let mut segment = RawSegment::new();
    segment.push_op0(Value::U32(42));
    segment.push_op1(UnOp::DoubleU32, false);
    assert!(matches!(segment.call0(Tag::U32).unwrap(), Value::U32(84)));
}

#[test]
fn test_binary_operation() {
    let mut segment = RawSegment::new();
    segment.push_op0(Value::U32(10));
    segment.push_op0(Value::U32(5));
    segment.push_op2(BinOp::AddU32, false, false);
    assert!(matches!(segment.call0(Tag::U32).unwrap(), Value::U32(15)));
}

#[test]
fn test_ternary_operation() {
    let mut segment = RawSegment::new();
    segment.push_op0(Value::U32(2));
    segment.push_op0(Value::U32(3));
    segment.push_op0(Value::U32(4));
    segment.push_op3(TernOp::SumU32, false, false, false);
    assert!(matches!(segment.call0(Tag::U32).unwrap(), Value::U32(9)));
}

#[test]
fn test_complex_chain() {
    let mut segment = RawSegment::new();
    segment.push_op0(Value::U32(10));
    segment.push_op1(UnOp::DoubleU32, false);
    segment.push_op0(Value::U32(5));
    segment.push_op2(BinOp::AddU32, false, false);
    assert!(matches!(segment.call0(Tag::U32).unwrap(), Value::U32(25)));
}

#[test]
fn drop1_discards_the_top() {
    let mut segment = RawSegment::new();
    segment.push_op0(Value::U32(1));
    segment.push_op0(Value::U32(9));
    segment.drop1(Tag::U32, false);
    assert!(matches!(segment.call0(Tag::U32).unwrap(), Value::U32(1)));
}
