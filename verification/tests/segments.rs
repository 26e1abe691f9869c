use cel_rs::dyn_segment::DynSegment;
use cel_rs::error::SegError;
use cel_rs::ops::{BinOp, FallibleUnOp, FallibleValue, TernOp, UnOp};
use cel_rs::value::{Tag, Value};
use std::sync::Arc;
use std::sync::atomic::{AtomicUsize, Ordering};

fn format_result() -> UnOp {
    UnOp::Format("result: ".to_string(), String::new())
}

#[test]
fn drop_on_error() {
    let mut segment = DynSegment::new(vec![]);

    let drop_count = Arc::new(AtomicUsize::new(0));
    let tracker = drop_count.clone();

    segment.op0(Value::Token(tracker));
    segment.op0r(FallibleValue::Error(Tag::U32, "error".to_string()));
    segment
        .op2(BinOp::ConstOf(Tag::Token, Tag::U32, Value::U32(42)))
        .unwrap();

    assert_eq!(drop_count.load(Ordering::SeqCst), 0); // Nothing dropped yet
    let result = segment.call0(Tag::U32);
    assert!(matches!(result, Err(e) if e.message() == "error"));
    assert_eq!(drop_count.load(Ordering::SeqCst), 1); // The token from op0 was dropped
}

#[test]
fn segment_operations() {
    let mut operations = DynSegment::new(vec![]);

    operations.op0(Value::U32(30));
    operations.op0(Value::U32(12));
    operations.op2(BinOp::AddU32).unwrap();
    operations.op0(Value::U32(100));
    operations.op0(Value::U32(10));
    operations.op3(TernOp::AddSubU32).unwrap();
    operations.op1(format_result()).unwrap();

    match operations.call0(Tag::Str).unwrap() {
        Value::Str(s) => assert_eq!(s, "result: 132"),
        _ => panic!("expected a string result"),
    }
}

#[test]
fn segment_with_argument() {
    let mut operations = DynSegment::new(vec![Tag::U32]);

    operations.op0(Value::U32(12));
    operations.op2(BinOp::AddU32).unwrap();
    operations.op0(Value::U32(100));
    operations.op0(Value::U32(10));
    operations.op3(TernOp::AddSubU32).unwrap();
    operations.op1(format_result()).unwrap();

    match operations.call1(Value::U32(30), Tag::Str).unwrap() {
        Value::Str(s) => assert_eq!(s, "result: 132"),
        _ => panic!("expected a string result"),
    }
}

#[test]
fn example_conditional_expression() {
    let mut root_segment = DynSegment::new(vec![]);
    root_segment.op0(Value::Bool(true));
    root_segment.op0(Value::Bool(false));
    root_segment.op2(BinOp::AndBool).unwrap();

    let mut segment_1 = root_segment.new_fragment();
    segment_1.op0(Value::U32(42));

    let mut segment_2 = root_segment.new_fragment();
    segment_2.op0(Value::U32(2));

    root_segment.join2(segment_1, segment_2).unwrap();

    let result = root_segment.call0(Tag::U32).unwrap();
    assert!(matches!(result, Value::U32(2)));
}

// A conditional whose branches push the same value yields that value
// whatever the condition turns out to be.
#[test]
fn join_same_branches() {
    for cond in [true, false] {
        let mut root = DynSegment::new(vec![]);
        root.op0(Value::Bool(cond));
        let mut then_branch = root.new_fragment();
        then_branch.op0(Value::U32(7));
        let mut else_branch = root.new_fragment();
        else_branch.op0(Value::U32(7));
        root.join2(then_branch, else_branch).unwrap();
        assert!(matches!(root.call0(Tag::U32).unwrap(), Value::U32(7)));
    }
}

// A zero-operation segment with no arguments yields unit; the moment an
// operation is queued, the unit call is refused.
#[test]
fn zero_op_unit_call() {
    let segment = DynSegment::new(vec![]);
    assert!(matches!(segment.call0(Tag::Unit), Ok(Value::Unit)));

    let mut with_arg = DynSegment::new(vec![Tag::U32]);
    assert!(matches!(
        with_arg.call0(Tag::Unit),
        Err(SegError::ArityMismatch)
    ));
    with_arg.op0(Value::U32(1));

    let mut with_op = DynSegment::new(vec![]);
    with_op.op0(Value::U32(1));
    with_op.op1(UnOp::Ident(Tag::U32)).unwrap();
    assert!(matches!(
        with_op.call0(Tag::Unit),
        Err(SegError::StackTypeMismatch(Tag::Unit, Tag::U32))
    ));
}

#[test]
fn type_mismatch_at_build() {
    let mut segment = DynSegment::new(vec![]);
    segment.op0(Value::U32(1));
    let r = segment.op1(UnOp::Ident(Tag::Str));
    assert!(matches!(r, Err(SegError::StackTypeMismatch(Tag::Str, Tag::U32))));
    assert_eq!(
        r.unwrap_err().message(),
        "stack type ids do not match: expected string, got u32"
    );
}

#[test]
fn repeat_call_same_result() {
    let mut segment = DynSegment::new(vec![Tag::U32]);
    segment.op0(Value::U32(5));
    segment.op2(BinOp::AddU32).unwrap();
    let first = segment.call1(Value::U32(37), Tag::U32).unwrap();
    let second = segment.call1(Value::U32(37), Tag::U32).unwrap();
    assert!(matches!(first, Value::U32(42)));
    assert!(matches!(second, Value::U32(42)));
}

#[test]
fn error_variants_at_call() {
    let mut one_arg = DynSegment::new(vec![Tag::U32]);
    one_arg.op1(UnOp::Ident(Tag::U32)).unwrap();
    assert!(matches!(one_arg.call0(Tag::U32), Err(SegError::ArityMismatch)));
    match one_arg.call1(Value::Bool(true), Tag::U32) {
        Err(e) => {
            assert!(matches!(e, SegError::ArgumentTypeMismatch(Tag::U32, Tag::Bool)));
            assert_eq!(e.message(), "argument type mismatch: expected u32, got bool");
        }
        _ => panic!("expected an argument mismatch"),
    }

    let mut two_left = DynSegment::new(vec![]);
    two_left.op0(Value::U32(1));
    two_left.op0(Value::U32(2));
    assert!(matches!(
        two_left.call0(Tag::U32),
        Err(SegError::UnconsumedStack)
    ));

    let mut empty = DynSegment::new(vec![]);
    empty.op0(Value::U32(1));
    assert!(matches!(
        empty.call0(Tag::Bool),
        Err(SegError::StackTypeMismatch(Tag::Bool, Tag::U32))
    ));
}

#[test]
fn underflow_at_build() {
    let mut segment = DynSegment::new(vec![]);
    assert!(matches!(segment.op1(UnOp::Ident(Tag::U32)), Err(SegError::StackUnderflow)));
    assert!(matches!(segment.op2(BinOp::AddU32), Err(SegError::StackUnderflow)));
    assert!(matches!(segment.op3(TernOp::AddSubU32), Err(SegError::StackUnderflow)));
}

#[test]
fn join_shape_errors() {
    // fragments must be single-result
    let mut root = DynSegment::new(vec![]);
    root.op0(Value::Bool(true));
    let empty_then = root.new_fragment();
    let mut good_else = root.new_fragment();
    good_else.op0(Value::U32(1));
    assert!(matches!(
        root.join2(empty_then, good_else),
        Err(SegError::JoinShape)
    ));

    // fragment result kinds must agree
    let mut root2 = DynSegment::new(vec![]);
    root2.op0(Value::Bool(true));
    let mut then_u32 = root2.new_fragment();
    then_u32.op0(Value::U32(1));
    let mut else_bool = root2.new_fragment();
    else_bool.op0(Value::Bool(false));
    assert!(matches!(
        root2.join2(then_u32, else_bool),
        Err(SegError::JoinShape)
    ));

    // the join needs a boolean on top
    let mut root3 = DynSegment::new(vec![]);
    root3.op0(Value::U32(1));
    let mut t3 = root3.new_fragment();
    t3.op0(Value::U32(1));
    let mut e3 = root3.new_fragment();
    e3.op0(Value::U32(1));
    assert!(matches!(
        root3.join2(t3, e3),
        Err(SegError::StackTypeMismatch(Tag::Bool, Tag::U32))
    ));
}

#[test]
fn fallible_op_success_path() {
    let mut segment = DynSegment::new(vec![]);
    segment.op0r(FallibleValue::Value(Value::U32(40)));
    segment.op0(Value::U32(2));
    segment.op2(BinOp::AddU32).unwrap();
    assert!(matches!(segment.call0(Tag::U32).unwrap(), Value::U32(42)));
}

#[test]
fn string_ops_format_exact() {
    let mut segment = DynSegment::new(vec![]);
    segment.op0(Value::U32(0));
    segment.op1(UnOp::ToDecimal).unwrap();
    match segment.call0(Tag::Str).unwrap() {
        Value::Str(s) => assert_eq!(s, "0"),
        _ => panic!("expected a string"),
    }

    let mut wide = DynSegment::new(vec![]);
    wide.op0(Value::U32(4294967295));
    wide.op1(UnOp::ToDecimal).unwrap();
    match wide.call0(Tag::Str).unwrap() {
        Value::Str(s) => assert_eq!(s, "4294967295"),
        _ => panic!("expected a string"),
    }

    let mut concat = DynSegment::new(vec![]);
    concat.op0(Value::Str("ab".to_string()));
    concat.op0(Value::Str("cd".to_string()));
    concat.op2(BinOp::ConcatStr).unwrap();
    match concat.call0(Tag::Str).unwrap() {
        Value::Str(s) => assert_eq!(s, "abcd"),
        _ => panic!("expected a string"),
    }
}

#[test]
fn mixed_type_result() {
    let mut segment = DynSegment::new(vec![Tag::U32, Tag::Str]);
    segment.op1r(FallibleUnOp::ParseU32).unwrap();
    segment.op2(BinOp::AddU32).unwrap();
    segment.op1(UnOp::ToDecimal).unwrap();

    match segment
        .call2((Value::U32(1), Value::Str("2".to_string())), Tag::Str)
        .unwrap()
    {
        Value::Str(s) => assert_eq!(s, "3"),
        _ => panic!("expected a string result"),
    }
}

#[test]
fn parse_failure_unwinds() {
    let drop_count = Arc::new(AtomicUsize::new(0));

    let mut segment = DynSegment::new(vec![]);
    segment.op0(Value::Token(drop_count.clone()));
    segment.op0(Value::Str("not a number".to_string()));
    segment.op1r(FallibleUnOp::ParseU32).unwrap();
    segment
        .op2(BinOp::ConstOf(Tag::Token, Tag::U32, Value::U32(42)))
        .unwrap();

    assert_eq!(drop_count.load(Ordering::SeqCst), 0);
    let r = segment.call0(Tag::U32);
    assert!(matches!(r, Err(e) if e.message() == "invalid unsigned integer"));
    // the token that was live beneath the failing parse was dropped once
    assert_eq!(drop_count.load(Ordering::SeqCst), 1);
}

#[test]
fn arithmetic_and_boolean_ops() {
    let mut diff = DynSegment::new(vec![]);
    diff.op0(Value::U32(50));
    diff.op0(Value::U32(8));
    diff.op2(BinOp::SubU32).unwrap();
    assert!(matches!(diff.call0(Tag::U32).unwrap(), Value::U32(42)));

    let mut either = DynSegment::new(vec![]);
    either.op0(Value::Bool(false));
    either.op0(Value::Bool(true));
    either.op2(BinOp::OrBool).unwrap();
    assert!(matches!(either.call0(Tag::Bool).unwrap(), Value::Bool(true)));
}

#[test]
fn format_with_both_pieces() {
    let mut segment = DynSegment::new(vec![Tag::U32]);
    segment
        .op1(UnOp::Format("<".to_string(), ">".to_string()))
        .unwrap();
    match segment.call1(Value::U32(7), Tag::Str).unwrap() {
        Value::Str(s) => assert_eq!(s, "<7>"),
        _ => panic!("expected a string"),
    }
}
