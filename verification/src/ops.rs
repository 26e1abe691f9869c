//! The operation vocabulary of the runtime and its evaluation semantics.
//!
//! An operation is data: a record naming what it consumes, what it produces,
//! and any payload it carries (a constant to push, a format template, an
//! error message). Each arity has a spec-level evaluation function over
//! abstract values and an executable twin proved against it, so a segment's
//! entire run is a mathematical function of its operation list and
//! arguments.

use crate::value::{AbsVal, Tag, Value, destroy_value, tag_of};
use vstd::prelude::*;
use vstd::string::StringExecFns;

verus! {

/// A unary operation: consumes the top value, produces one value.
pub enum UnOp {
    /// Formats a 32-bit integer in decimal between two fixed pieces of
    /// text.
    Format(String, String),
    /// Formats a 32-bit integer in decimal.
    ToDecimal,
    /// Doubles a 32-bit integer, wrapping.
    DoubleU32,
    /// Passes a value of the given kind through unchanged.
    Ident(Tag),
}

/// A binary operation: consumes the top two values (the top is the right
/// operand), produces one value.
pub enum BinOp {
    /// Wrapping addition on 32-bit integers.
    AddU32,
    /// Wrapping subtraction on 32-bit integers.
    SubU32,
    /// Boolean conjunction.
    AndBool,
    /// Boolean disjunction.
    OrBool,
    /// String concatenation.
    ConcatStr,
    /// Consumes two values of the given kinds (destroying any tokens) and
    /// produces a copy of the carried constant.
    ConstOf(Tag, Tag, Value),
}

/// A ternary operation: consumes the top three values, produces one value.
pub enum TernOp {
    /// `x + y - z` on 32-bit integers, wrapping, where `z` is the top.
    AddSubU32,
    /// `x + y + z` on 32-bit integers, wrapping.
    SumU32,
}

/// What a fallible nullary operation does when it runs: produce a copy of a
/// value, or fail with a message while declaring the result kind it would
/// have produced.
pub enum FallibleValue {
    /// Succeed with a copy of this value.
    Value(Value),
    /// Fail with this message; the first field is the kind the operation
    /// declares as its result.
    Error(Tag, String),
}

/// The kind a unary operation consumes.
pub open spec fn spec_un_in(f: UnOp) -> Tag {
    match f {
        UnOp::Format(_, _) => Tag::U32,
        UnOp::ToDecimal => Tag::U32,
        UnOp::DoubleU32 => Tag::U32,
        UnOp::Ident(t) => t,
    }
}

/// The kind a unary operation produces.
pub open spec fn spec_un_out(f: UnOp) -> Tag {
    match f {
        UnOp::Format(_, _) => Tag::Str,
        UnOp::ToDecimal => Tag::Str,
        UnOp::DoubleU32 => Tag::U32,
        UnOp::Ident(t) => t,
    }
}

/// The kinds a binary operation consumes (deeper value first).
pub open spec fn spec_bin_in(f: BinOp) -> (Tag, Tag) {
    match f {
        BinOp::AddU32 => (Tag::U32, Tag::U32),
        BinOp::SubU32 => (Tag::U32, Tag::U32),
        BinOp::AndBool => (Tag::Bool, Tag::Bool),
        BinOp::OrBool => (Tag::Bool, Tag::Bool),
        BinOp::ConcatStr => (Tag::Str, Tag::Str),
        BinOp::ConstOf(t, u, _) => (t, u),
    }
}

/// The kind a binary operation produces.
pub open spec fn spec_bin_out(f: BinOp) -> Tag {
    match f {
        BinOp::AddU32 => Tag::U32,
        BinOp::SubU32 => Tag::U32,
        BinOp::AndBool => Tag::Bool,
        BinOp::OrBool => Tag::Bool,
        BinOp::ConcatStr => Tag::Str,
        BinOp::ConstOf(_, _, out) => tag_of(out.dv()),
    }
}

/// The kinds a ternary operation consumes (deepest first).
pub open spec fn spec_tern_in(f: TernOp) -> (Tag, Tag, Tag) {
    match f {
        TernOp::AddSubU32 => (Tag::U32, Tag::U32, Tag::U32),
        TernOp::SumU32 => (Tag::U32, Tag::U32, Tag::U32),
    }
}

/// The kind a ternary operation produces.
pub open spec fn spec_tern_out(f: TernOp) -> Tag {
    match f {
        TernOp::AddSubU32 => Tag::U32,
        TernOp::SumU32 => Tag::U32,
    }
}

/// The kind a fallible nullary operation declares as its result.
pub open spec fn spec_fallible_out(src: FallibleValue) -> Tag {
    match src {
        FallibleValue::Value(v) => tag_of(v.dv()),
        FallibleValue::Error(t, _) => t,
    }
}


/// The kind a unary operation consumes, as an executable function.
pub fn un_in_tag(f: &UnOp) -> (t: Tag)
    ensures
        t == spec_un_in(*f),
{
    match f {
        UnOp::Format(_, _) => Tag::U32,
        UnOp::ToDecimal => Tag::U32,
        UnOp::DoubleU32 => Tag::U32,
        UnOp::Ident(t) => *t,
    }
}

/// The kind a unary operation produces, as an executable function.
pub fn un_out_tag(f: &UnOp) -> (t: Tag)
    ensures
        t == spec_un_out(*f),
{
    match f {
        UnOp::Format(_, _) => Tag::Str,
        UnOp::ToDecimal => Tag::Str,
        UnOp::DoubleU32 => Tag::U32,
        UnOp::Ident(t) => *t,
    }
}

/// The kinds a binary operation consumes, as an executable function.
pub fn bin_in_tag(f: &BinOp) -> (r: (Tag, Tag))
    ensures
        r == spec_bin_in(*f),
{
    match f {
        BinOp::AddU32 => (Tag::U32, Tag::U32),
        BinOp::SubU32 => (Tag::U32, Tag::U32),
        BinOp::AndBool => (Tag::Bool, Tag::Bool),
        BinOp::OrBool => (Tag::Bool, Tag::Bool),
        BinOp::ConcatStr => (Tag::Str, Tag::Str),
        BinOp::ConstOf(t, u, _) => (*t, *u),
    }
}

/// The kind a binary operation produces, as an executable function.
pub fn bin_out_tag(f: &BinOp) -> (t: Tag)
    ensures
        t == spec_bin_out(*f),
{
    match f {
        BinOp::AddU32 => Tag::U32,
        BinOp::SubU32 => Tag::U32,
        BinOp::AndBool => Tag::Bool,
        BinOp::OrBool => Tag::Bool,
        BinOp::ConcatStr => Tag::Str,
        BinOp::ConstOf(_, _, out) => out.tag(),
    }
}

/// The kinds a ternary operation consumes, as an executable function.
pub fn tern_in_tag(f: &TernOp) -> (r: (Tag, Tag, Tag))
    ensures
        r == spec_tern_in(*f),
{
    match f {
        TernOp::AddSubU32 => (Tag::U32, Tag::U32, Tag::U32),
        TernOp::SumU32 => (Tag::U32, Tag::U32, Tag::U32),
    }
}

/// The kind a ternary operation produces, as an executable function.
pub fn tern_out_tag(f: &TernOp) -> (t: Tag)
    ensures
        t == spec_tern_out(*f),
{
    match f {
        TernOp::AddSubU32 => Tag::U32,
        TernOp::SumU32 => Tag::U32,
    }
}

/// A fallible unary operation: consumes the top value and either produces
/// one value or fails.
pub enum FallibleUnOp {
    /// Parses a string of decimal digits as a 32-bit unsigned integer;
    /// fails on anything else.
    ParseU32,
}

/// The kind a fallible unary operation consumes.
pub open spec fn spec_fall_un_in(f: FallibleUnOp) -> Tag {
    match f {
        FallibleUnOp::ParseU32 => Tag::Str,
    }
}

/// The kind a fallible unary operation produces on success.
pub open spec fn spec_fall_un_out(f: FallibleUnOp) -> Tag {
    match f {
        FallibleUnOp::ParseU32 => Tag::U32,
    }
}

/// The kind a fallible unary operation consumes, as an executable function.
pub fn fall_un_in_tag(f: &FallibleUnOp) -> (t: Tag)
    ensures
        t == spec_fall_un_in(*f),
{
    match f {
        FallibleUnOp::ParseU32 => Tag::Str,
    }
}

/// The kind a fallible unary operation produces, as an executable function.
pub fn fall_un_out_tag(f: &FallibleUnOp) -> (t: Tag)
    ensures
        t == spec_fall_un_out(*f),
{
    match f {
        FallibleUnOp::ParseU32 => Tag::U32,
    }
}

/// The numeric value of a decimal digit character, or a negative marker for
/// anything else.
pub open spec fn digit_of(c: char) -> int {
    if 48 <= c as int && c as int <= 57 {
        c as int - 48
    } else {
        -1
    }
}

/// The number a string of decimal digits spells, or a negative marker when
/// any character is not a digit or the string is empty.
pub open spec fn spec_parse_num(s: Seq<char>) -> int
    decreases s.len(),
{
    if s.len() == 0 {
        -1
    } else if s.len() == 1 {
        digit_of(s[0])
    } else {
        let front = spec_parse_num(s.drop_last());
        let d = digit_of(s.last());
        if front < 0 || d < 0 {
            -1
        } else {
            front * 10 + d
        }
    }
}

/// What parsing a string as a 32-bit unsigned integer yields: the spelled
/// number when the string is all decimal digits and the value fits.
pub open spec fn spec_parse_u32(s: Seq<char>) -> Option<u32> {
    let v = spec_parse_num(s);
    if 0 <= v && v <= u32::MAX {
        Some(v as u32)
    } else {
        None
    }
}

/// The spelled number is never below the invalid marker.
proof fn lemma_parse_num_min(s: Seq<char>)
    ensures
        spec_parse_num(s) >= -1,
    decreases s.len(),
{
    if s.len() > 1 {
        lemma_parse_num_min(s.drop_last());
    }
}

/// One character that is not a digit spoils the whole string.
proof fn lemma_parse_invalid(s: Seq<char>, i: int)
    requires
        0 <= i < s.len(),
        digit_of(s[i]) < 0,
    ensures
        spec_parse_num(s) < 0,
    decreases s.len(),
{
    if s.len() > 1 && i < s.len() - 1 {
        lemma_parse_invalid(s.drop_last(), i);
    }
}

/// The spelled number never shrinks as digits are appended: the whole
/// string spells a negative marker, or at least what any prefix spells.
proof fn lemma_parse_prefix(s: Seq<char>, i: int)
    requires
        1 <= i <= s.len(),
    ensures
        spec_parse_num(s) < 0 || spec_parse_num(s) >= spec_parse_num(s.take(i)),
    decreases s.len() - i,
{
    if i == s.len() {
        assert(s.take(i) =~= s);
    } else {
        lemma_parse_prefix(s, i + 1);
        assert(s.take(i + 1).drop_last() =~= s.take(i));
        assert(s.take(i + 1).last() == s[i]);
        lemma_parse_num_min(s);
        lemma_parse_num_min(s.take(i));
        if digit_of(s[i]) < 0 {
            lemma_parse_invalid(s, i);
        }
    }
}

/// Parses a string of decimal digits as a 32-bit unsigned integer.
#[verifier::rlimit(100)]
pub fn parse_u32_str(s: &str) -> (r: Option<u32>)
    ensures
        r == spec_parse_u32(s@),
{
    broadcast use vstd::string::is_ascii_spec_bytes;

    if !s.is_ascii() {
        proof {
            let i = choose|i: int|
                0 <= i < s@.len() && !('\0' <= #[trigger] s@[i] <= '\u{7f}');
            lemma_parse_invalid(s@, i);
        }
        return None;
    }
    let bytes = s.as_bytes();
    let n = bytes.len();
    if n == 0 {
        return None;
    }
    let ghost cs = s@;
    proof {
        assert(bytes@ =~= Seq::new(cs.len(), |i: int| cs[i] as u8));
    }
    let mut i: usize = 0;
    let mut acc: u64 = 0;
    while i < n
        invariant
            cs == s@,
            i <= n,
            n == cs.len(),
            n == bytes@.len(),
            forall|j: int| 0 <= j < n ==> bytes@[j] == cs[j] as u8,
            forall|j: int| 0 <= j < n ==> '\0' <= #[trigger] cs[j] <= '\u{7f}',
            i >= 1 ==> acc == spec_parse_num(cs.take(i as int)) && acc <= u32::MAX,
            i == 0 ==> acc == 0,
        decreases n - i,
    {
        let b = bytes[i];
        if b < 48 || b > 57 {
            proof {
                assert(cs[i as int] as int == b as int);
                assert(digit_of(cs[i as int]) < 0);
                lemma_parse_invalid(cs, i as int);
                assert(spec_parse_num(cs) < 0);
                assert(spec_parse_u32(s@) is None);
            }
            return None;
        }
        proof {
            assert(cs[i as int] as int == b as int);
            assert(digit_of(cs[i as int]) == b - 48);
        }
        let d = (b - 48) as u64;
        acc = acc * 10 + d;
        proof {
            assert(cs.take(i + 1).drop_last() =~= cs.take(i as int));
            assert(cs.take(i + 1).last() == cs[i as int]);
            if i == 0 {
                assert(spec_parse_num(cs.take(1)) == digit_of(cs[0]));
            }
            assert(acc == spec_parse_num(cs.take(i + 1)));
        }
        if acc > 0xffff_ffff {
            proof {
                lemma_parse_prefix(cs, i + 1);
                assert(spec_parse_num(cs) < 0 || spec_parse_num(cs) >= spec_parse_num(
                    cs.take(i + 1),
                ));
                assert(spec_parse_num(cs.take(i + 1)) == acc);
                assert(spec_parse_u32(s@) is None);
            }
            return None;
        }
        i = i + 1;
    }
    proof {
        assert(cs.take(n as int) =~= cs);
    }
    Some(acc as u32)
}

/// What a fallible unary operation yields on an abstract value: a value, or
/// the message it fails with.
pub open spec fn spec_eval_fall_un(f: FallibleUnOp, x: AbsVal) -> Result<AbsVal, Seq<char>> {
    match f {
        FallibleUnOp::ParseU32 => match x {
            AbsVal::Str(sq) => match spec_parse_u32(sq) {
                Some(v) => Ok(AbsVal::U32(v)),
                None => Err("invalid unsigned integer"@),
            },
            _ => Err(Seq::empty()),
        },
    }
}

/// Runs a fallible unary operation on its popped input.
pub fn eval_fall_un(f: &FallibleUnOp, x: Value) -> (r: Result<Value, String>)
    requires
        tag_of(x.dv()) == spec_fall_un_in(*f),
    ensures
        match spec_eval_fall_un(*f, x.dv()) {
            Ok(v) => (r matches Ok(rv) && rv.dv() == v && tag_of(rv.dv()) == spec_fall_un_out(
                *f,
            )),
            Err(m) => (r matches Err(ms) && ms@ == m),
        },
{
    match f {
        FallibleUnOp::ParseU32 => match x {
            Value::Str(sq) => match parse_u32_str(sq.as_str()) {
                Some(v) => Ok(Value::U32(v)),
                None => {
                    proof {
                        reveal_strlit("invalid unsigned integer");
                    }
                    Err("invalid unsigned integer".to_string())
                },
            },
            _ => {
                proof {
                    assert(false);
                }
                Err(String::new())
            },
        },
    }
}

/// The decimal digit character for `d`.
pub open spec fn digit_char(d: nat) -> char {
    if d == 0 {
        '0'
    } else if d == 1 {
        '1'
    } else if d == 2 {
        '2'
    } else if d == 3 {
        '3'
    } else if d == 4 {
        '4'
    } else if d == 5 {
        '5'
    } else if d == 6 {
        '6'
    } else if d == 7 {
        '7'
    } else if d == 8 {
        '8'
    } else {
        '9'
    }
}

/// The decimal spelling of `n`, most significant digit first.
pub open spec fn spec_dec(n: nat) -> Seq<char>
    decreases n,
{
    if n < 10 {
        seq![digit_char(n)]
    } else {
        spec_dec(n / 10).push(digit_char(n % 10))
    }
}

/// The decimal digit character for `d`, as a one-character piece of text.
fn digit_str(d: u32) -> (r: &'static str)
    requires
        d < 10,
    ensures
        r@ == seq![digit_char(d as nat)],
{
    proof {
        reveal_strlit("0");
        reveal_strlit("1");
        reveal_strlit("2");
        reveal_strlit("3");
        reveal_strlit("4");
        reveal_strlit("5");
        reveal_strlit("6");
        reveal_strlit("7");
        reveal_strlit("8");
        reveal_strlit("9");
    }
    let r = match d {
        0 => "0",
        1 => "1",
        2 => "2",
        3 => "3",
        4 => "4",
        5 => "5",
        6 => "6",
        7 => "7",
        8 => "8",
        _ => "9",
    };
    proof {
        assert(r@ =~= seq![digit_char(d as nat)]);
    }
    r
}

/// Formats `x` in decimal.
pub fn u32_to_decimal(x: u32) -> (s: String)
    ensures
        s@ == spec_dec(x as nat),
    decreases x,
{
    if x < 10 {
        let s = digit_str(x).to_string();
        proof {
            assert(s@ =~= spec_dec(x as nat));
        }
        s
    } else {
        let mut s = u32_to_decimal(x / 10);
        s.append(digit_str(x % 10));
        proof {
            assert(s@ =~= spec_dec(x as nat));
        }
        s
    }
}

/// What a unary operation produces, over abstract values.
pub open spec fn spec_eval_un(f: UnOp, x: AbsVal) -> AbsVal {
    match f {
        UnOp::Format(pre, post) => match x {
            AbsVal::U32(n) => AbsVal::Str(pre@ + spec_dec(n as nat) + post@),
            _ => AbsVal::Unit,
        },
        UnOp::ToDecimal => match x {
            AbsVal::U32(n) => AbsVal::Str(spec_dec(n as nat)),
            _ => AbsVal::Unit,
        },
        UnOp::DoubleU32 => match x {
            AbsVal::U32(n) => AbsVal::U32(vstd::wrapping::u32_specs::wrapping_add(n, n)),
            _ => AbsVal::Unit,
        },
        UnOp::Ident(_) => x,
    }
}

/// What a binary operation produces, over abstract values; the top of the
/// stack is the right operand `u`.
pub open spec fn spec_eval_bin(f: BinOp, t: AbsVal, u: AbsVal) -> AbsVal {
    match f {
        BinOp::AddU32 => match (t, u) {
            (AbsVal::U32(x), AbsVal::U32(y)) => AbsVal::U32(
                vstd::wrapping::u32_specs::wrapping_add(x, y),
            ),
            _ => AbsVal::Unit,
        },
        BinOp::SubU32 => match (t, u) {
            (AbsVal::U32(x), AbsVal::U32(y)) => AbsVal::U32(
                vstd::wrapping::u32_specs::wrapping_sub(x, y),
            ),
            _ => AbsVal::Unit,
        },
        BinOp::AndBool => match (t, u) {
            (AbsVal::Bool(x), AbsVal::Bool(y)) => AbsVal::Bool(x && y),
            _ => AbsVal::Unit,
        },
        BinOp::OrBool => match (t, u) {
            (AbsVal::Bool(x), AbsVal::Bool(y)) => AbsVal::Bool(x || y),
            _ => AbsVal::Unit,
        },
        BinOp::ConcatStr => match (t, u) {
            (AbsVal::Str(x), AbsVal::Str(y)) => AbsVal::Str(x + y),
            _ => AbsVal::Unit,
        },
        BinOp::ConstOf(_, _, out) => out.dv(),
    }
}

/// What a ternary operation produces, over abstract values; `z` is the top.
pub open spec fn spec_eval_tern(f: TernOp, x: AbsVal, y: AbsVal, z: AbsVal) -> AbsVal {
    match f {
        TernOp::AddSubU32 => match (x, y, z) {
            (AbsVal::U32(a), AbsVal::U32(b), AbsVal::U32(c)) => AbsVal::U32(
                vstd::wrapping::u32_specs::wrapping_sub(
                    vstd::wrapping::u32_specs::wrapping_add(a, b),
                    c,
                ),
            ),
            _ => AbsVal::Unit,
        },
        TernOp::SumU32 => match (x, y, z) {
            (AbsVal::U32(a), AbsVal::U32(b), AbsVal::U32(c)) => AbsVal::U32(
                vstd::wrapping::u32_specs::wrapping_add(
                    vstd::wrapping::u32_specs::wrapping_add(a, b),
                    c,
                ),
            ),
            _ => AbsVal::Unit,
        },
    }
}

/// Runs a unary operation on its popped input.
pub fn eval_un(f: &UnOp, x: Value) -> (r: Value)
    requires
        tag_of(x.dv()) == spec_un_in(*f),
    ensures
        r.dv() == spec_eval_un(*f, x.dv()),
        tag_of(r.dv()) == spec_un_out(*f),
{
    match f {
        UnOp::Format(pre, post) => match x {
            Value::U32(n) => Value::Str(pre.clone().concat(u32_to_decimal(n).as_str()).concat(
                post.as_str(),
            )),
            _ => {
                proof {
                    assert(false);
                }
                Value::Unit
            },
        },
        UnOp::ToDecimal => match x {
            Value::U32(n) => Value::Str(u32_to_decimal(n)),
            _ => {
                proof {
                    assert(false);
                }
                Value::Unit
            },
        },
        UnOp::DoubleU32 => match x {
            Value::U32(n) => Value::U32(n.wrapping_add(n)),
            _ => {
                proof {
                    assert(false);
                }
                Value::Unit
            },
        },
        UnOp::Ident(_) => x,
    }
}

/// Runs a binary operation on its popped inputs; `u` was the top of the
/// stack.
pub fn eval_bin(f: &BinOp, t: Value, u: Value) -> (r: Value)
    requires
        tag_of(t.dv()) == spec_bin_in(*f).0,
        tag_of(u.dv()) == spec_bin_in(*f).1,
    ensures
        r.dv() == spec_eval_bin(*f, t.dv(), u.dv()),
        tag_of(r.dv()) == spec_bin_out(*f),
{
    match f {
        BinOp::AddU32 => match (t, u) {
            (Value::U32(x), Value::U32(y)) => Value::U32(x.wrapping_add(y)),
            _ => {
                proof {
                    assert(false);
                }
                Value::Unit
            },
        },
        BinOp::SubU32 => match (t, u) {
            (Value::U32(x), Value::U32(y)) => Value::U32(x.wrapping_sub(y)),
            _ => {
                proof {
                    assert(false);
                }
                Value::Unit
            },
        },
        BinOp::AndBool => match (t, u) {
            (Value::Bool(x), Value::Bool(y)) => Value::Bool(x && y),
            _ => {
                proof {
                    assert(false);
                }
                Value::Unit
            },
        },
        BinOp::OrBool => match (t, u) {
            (Value::Bool(x), Value::Bool(y)) => Value::Bool(x || y),
            _ => {
                proof {
                    assert(false);
                }
                Value::Unit
            },
        },
        BinOp::ConcatStr => match (t, u) {
            (Value::Str(x), Value::Str(y)) => Value::Str(x.concat(y.as_str())),
            _ => {
                proof {
                    assert(false);
                }
                Value::Unit
            },
        },
        BinOp::ConstOf(_, _, out) => {
            destroy_value(t);
            destroy_value(u);
            out.clone()
        },
    }
}

/// Runs a ternary operation on its popped inputs; `z` was the top of the
/// stack.
pub fn eval_tern(f: &TernOp, x: Value, y: Value, z: Value) -> (r: Value)
    requires
        tag_of(x.dv()) == spec_tern_in(*f).0,
        tag_of(y.dv()) == spec_tern_in(*f).1,
        tag_of(z.dv()) == spec_tern_in(*f).2,
    ensures
        r.dv() == spec_eval_tern(*f, x.dv(), y.dv(), z.dv()),
        tag_of(r.dv()) == spec_tern_out(*f),
{
    match f {
        TernOp::AddSubU32 => match (x, y, z) {
            (Value::U32(a), Value::U32(b), Value::U32(c)) => Value::U32(
                a.wrapping_add(b).wrapping_sub(c),
            ),
            _ => {
                proof {
                    assert(false);
                }
                Value::Unit
            },
        },
        TernOp::SumU32 => match (x, y, z) {
            (Value::U32(a), Value::U32(b), Value::U32(c)) => Value::U32(
                a.wrapping_add(b).wrapping_add(c),
            ),
            _ => {
                proof {
                    assert(false);
                }
                Value::Unit
            },
        },
    }
}

} // verus!
