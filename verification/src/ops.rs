use vstd::prelude::*;
use std::collections::VecDeque;
use crate::text::owned;
use crate::value::{
    lemma_model_array, lemma_models_concat, lemma_models_cons, lemma_models_tail, models,
    values_equal, HtmlValueType, Value,
};

verus! {

/// A point at which a program cannot go on: the instruction has no meaning there.
///
/// Such a program has no answer: whoever runs it can only give up. The functions
/// `exec_html_instructions` and `html_exec_loop` therefore leave a run that reaches a fault
/// out by their `requires`. Whether a run reaches one is known only by running it, so
/// `run_node`, `run_main_loop` and `run_program` take every input and end such a run here,
/// at once and without an error message, so that the caller can give up.
#[derive(Debug, Clone, Copy, PartialEq, Eq, Structural)]
pub enum Fault {
    /// An `ol` whose items left fewer values on the stack than there were before it.
    ListShrankStack,
    /// An `a` whose selector matches no element.
    NoJumpTarget,
    /// A `var` on an empty stack.
    AssignFromEmptyStack,
    /// A `dfn` without children.
    CallWithoutBody,
    /// A `div` by zero.
    DivisionByZero,
}

/// Why a run stopped before its end.
pub enum Halt {
    /// The program is wrong; the message says how.
    Error(Seq<char>),
    /// The program reached a point at which it cannot go on.
    Fault(Fault),
    /// The run used up its fuel.
    OutOfFuel,
}

/// Why a run stopped before its end.
#[derive(Debug)]
pub enum Stop {
    /// The program is wrong; the message says how.
    Error(String),
    /// The program reached a point at which it cannot go on.
    Fault(Fault),
    /// The run used up its fuel.
    OutOfFuel,
}

impl View for Stop {
    type V = Halt;

    open spec fn view(&self) -> Halt {
        match self {
            Stop::Error(m) => Halt::Error(m@),
            Stop::Fault(f) => Halt::Fault(*f),
            Stop::OutOfFuel => Halt::OutOfFuel,
        }
    }
}

/// How a step ended: `None` where it went on normally.
pub open spec fn halt_of(r: Result<(), Stop>) -> Option<Halt> {
    match r {
        Ok(()) => None,
        Err(s) => Some(s@),
    }
}

/// An integer brought into the range of `i64`, as saturating arithmetic does.
pub open spec fn clamp(x: int) -> i64 {
    if x > i64::MAX {
        i64::MAX
    } else if x < i64::MIN {
        i64::MIN
    } else {
        x as i64
    }
}

/// Division rounded toward zero.
pub open spec fn trunc_div(x: int, d: int) -> int {
    if x == 0 {
        0
    } else if x > 0 && d > 0 {
        x / d
    } else if x < 0 && d < 0 {
        (-x) / (-d)
    } else if x < 0 {
        -((-x) / d)
    } else {
        -(x / (-d))
    }
}

/// `a + b`, saturating at the bounds of `i64`.
pub fn saturating_add(a: i64, b: i64) -> (r: i64)
    ensures
        r == clamp(a + b),
{
    match a.checked_add(b) {
        Some(x) => x,
        None => if b > 0 {
            i64::MAX
        } else {
            i64::MIN
        },
    }
}

/// `a - b`, saturating at the bounds of `i64`.
pub fn saturating_sub(a: i64, b: i64) -> (r: i64)
    ensures
        r == clamp(a - b),
{
    match a.checked_sub(b) {
        Some(x) => x,
        None => if b < 0 {
            i64::MAX
        } else {
            i64::MIN
        },
    }
}

/// `a * b`, saturating at the bounds of `i64`.
pub fn saturating_mul(a: i64, b: i64) -> (r: i64)
    ensures
        r == clamp(a * b),
{
    match a.checked_mul(b) {
        Some(x) => x,
        None => {
            if (a > 0 && b > 0) || (a < 0 && b < 0) {
                assert(a * b > 0) by (nonlinear_arith)
                    requires
                        (a > 0 && b > 0) || (a < 0 && b < 0),
                ;
                i64::MAX
            } else {
                assert(a * b <= 0) by (nonlinear_arith)
                    requires
                        !((a > 0 && b > 0) || (a < 0 && b < 0)),
                ;
                i64::MIN
            }
        },
    }
}

proof fn lemma_div_le(p: int, q: int)
    requires
        p >= 0,
        q >= 1,
    ensures
        0 <= p / q <= p,
{
    assert(0 <= p / q <= p) by (nonlinear_arith)
        requires
            p >= 0,
            q >= 1,
    ;
}

/// `a / b` rounded toward zero, saturating at the bounds of `i64`.
pub fn saturating_div(a: i64, b: i64) -> (r: i64)
    requires
        b != 0,
    ensures
        r == clamp(trunc_div(a as int, b as int)),
{
    proof {
        if a > 0 && b > 0 {
            lemma_div_le(a as int, b as int);
        } else if a < 0 && b < 0 {
            lemma_div_le(-a, -b);
        } else if a < 0 {
            lemma_div_le(-a, b as int);
        } else if a > 0 {
            lemma_div_le(a as int, -b);
        }
    }
    match a.checked_div(b) {
        Some(x) => x,
        None => i64::MAX,
    }
}

/// An instruction that works on the stack alone.
#[derive(Debug, Clone, Copy, PartialEq, Eq, Structural)]
pub enum StackOp {
    /// `dt`: push a copy of the top value.
    Dt,
    /// `del`: drop the top value.
    Del,
    /// `small`: whether the top value is larger than the one below it.
    Small,
    /// `big`: whether the top value is smaller than the one below it.
    Big,
    /// `em`: whether the two top values are equal.
    Em,
    /// `dd`: add, join strings or join arrays.
    Dd,
    /// `sub`: subtract the top value from the one below it.
    Sub,
    /// `ul`: multiply.
    Ul,
    /// `div`: divide the value below the top by the top value.
    Div,
    /// `b`: logical and.
    B,
    /// `bdo`: logical or.
    Bdo,
    /// `dbi`: logical not.
    Dbi,
}

/// The message of an instruction that finds the wrong values on the stack.
pub open spec fn op_error(op: StackOp) -> Seq<char> {
    match op {
        StackOp::Small => "Fail to compare with `small`, the stack must have at least two values valid compareable values"@,
        StackOp::Big => "Fail to compare with `big`, the stack must have at least two values valid compareable values"@,
        StackOp::Em => "Fail to compare with `em`, the stack must have at least two valid compareable values"@,
        StackOp::Dd => "Fail to add, the stack must have at least two intergers"@,
        StackOp::Sub => "Fail to substract, the stack must have at least two intergers"@,
        StackOp::Ul => "Fail to multiply, the stack must have at least two intergers"@,
        StackOp::Div => "Fail to divied, the stack must have at least two intergers"@,
        StackOp::B => "Fail logical and, the stack must have at least two booleans"@,
        StackOp::Bdo => "Fail logical or, the stack must have at least two booleans"@,
        StackOp::Dbi => "Fail logical not, the stack must have at least two booleans"@,
        _ => Seq::empty(),
    }
}

/// The number of bytes of a string in UTF-8, as `str::len` gives it.
pub open spec fn byte_len(s: Seq<char>) -> usize {
    vstd::utf8::encode_utf8(s).len() as usize
}

/// What a two-operand instruction computes from the top value `v1` and the value `v2`
/// below it; `None` where the operands are of the wrong kinds.
pub open spec fn combine(op: StackOp, v1: Value, v2: Value) -> Option<Value> {
    match (op, v1, v2) {
        (StackOp::Small, Value::Int(a), Value::Int(b)) => Some(Value::Bool(a > b)),
        (StackOp::Small, Value::Str(a), Value::Str(b)) => Some(Value::Bool(byte_len(a) > byte_len(b))),
        (StackOp::Small, Value::Array(a), Value::Array(b)) => Some(Value::Bool(a.len() > b.len())),
        (StackOp::Big, Value::Int(a), Value::Int(b)) => Some(Value::Bool(a < b)),
        (StackOp::Big, Value::Str(a), Value::Str(b)) => Some(Value::Bool(byte_len(a) < byte_len(b))),
        (StackOp::Big, Value::Array(a), Value::Array(b)) => Some(Value::Bool(a.len() < b.len())),
        (StackOp::Em, _, _) => Some(Value::Bool(v1 == v2)),
        (StackOp::Dd, Value::Int(a), Value::Int(b)) => Some(Value::Int(clamp(b + a))),
        (StackOp::Dd, Value::Str(a), Value::Str(b)) => Some(Value::Str(b + a)),
        (StackOp::Dd, Value::Array(a), Value::Array(b)) => Some(Value::Array(b + a)),
        (StackOp::Sub, Value::Int(a), Value::Int(b)) => Some(Value::Int(clamp(b - a))),
        (StackOp::Ul, Value::Int(a), Value::Int(b)) => Some(Value::Int(clamp(a * b))),
        (StackOp::Div, Value::Int(a), Value::Int(b)) => Some(
            Value::Int(clamp(trunc_div(b as int, a as int))),
        ),
        (StackOp::B, Value::Bool(a), Value::Bool(b)) => Some(Value::Bool(a && b)),
        (StackOp::Bdo, Value::Bool(a), Value::Bool(b)) => Some(Value::Bool(a || b)),
        _ => None,
    }
}

/// Whether the instruction is a division of an integer by zero.
pub open spec fn divides_by_zero(op: StackOp, v1: Value, v2: Value) -> bool {
    op == StackOp::Div && v1 == Value::Int(0) && v2 is Int
}

/// What a stack instruction does to the stack (front first), and whether it stops the run.
pub open spec fn apply_op(op: StackOp, stack: Seq<Value>) -> (Seq<Value>, Option<Halt>) {
    match op {
        StackOp::Dt => if stack.len() > 0 {
            (seq![stack[0]] + stack, None)
        } else {
            (stack, None)
        },
        StackOp::Del => if stack.len() > 0 {
            (stack.drop_first(), None)
        } else {
            (stack, None)
        },
        StackOp::Dbi => if stack.len() == 0 {
            (stack, Some(Halt::Error(op_error(op))))
        } else {
            match stack[0] {
                Value::Bool(b) => (seq![Value::Bool(!b)] + stack.drop_first(), None),
                _ => (stack.drop_first(), Some(Halt::Error(op_error(op)))),
            }
        },
        _ => if stack.len() < 2 {
            (Seq::empty(), Some(Halt::Error(op_error(op))))
        } else if divides_by_zero(op, stack[0], stack[1]) {
            (stack.skip(2), Some(Halt::Fault(Fault::DivisionByZero)))
        } else {
            match combine(op, stack[0], stack[1]) {
                Some(v) => (seq![v] + stack.skip(2), None),
                None => (stack.skip(2), Some(Halt::Error(op_error(op)))),
            }
        },
    }
}

/// The message of an instruction that finds the wrong values on the stack.
fn op_error_string(op: StackOp) -> (s: String)
    ensures
        s@ == op_error(op),
{
    match op {
        StackOp::Small => owned(
            "Fail to compare with `small`, the stack must have at least two values valid compareable values",
        ),
        StackOp::Big => owned(
            "Fail to compare with `big`, the stack must have at least two values valid compareable values",
        ),
        StackOp::Em => owned(
            "Fail to compare with `em`, the stack must have at least two valid compareable values",
        ),
        StackOp::Dd => owned("Fail to add, the stack must have at least two intergers"),
        StackOp::Sub => owned("Fail to substract, the stack must have at least two intergers"),
        StackOp::Ul => owned("Fail to multiply, the stack must have at least two intergers"),
        StackOp::Div => owned("Fail to divied, the stack must have at least two intergers"),
        StackOp::B => owned("Fail logical and, the stack must have at least two booleans"),
        StackOp::Bdo => owned("Fail logical or, the stack must have at least two booleans"),
        StackOp::Dbi => owned("Fail logical not, the stack must have at least two booleans"),
        _ => String::new(),
    }
}

/// What a two-operand instruction computes from the top value `v1` and the value `v2` below it.
fn combine_values(op: StackOp, v1: HtmlValueType, v2: HtmlValueType) -> (r: Result<
    HtmlValueType,
    Stop,
>)
    requires
        op != StackOp::Dt && op != StackOp::Del && op != StackOp::Dbi,
    ensures
        divides_by_zero(op, v1@, v2@) ==> r matches Err(Stop::Fault(Fault::DivisionByZero)),
        !divides_by_zero(op, v1@, v2@) ==> match combine(op, v1@, v2@) {
            Some(v) => r matches Ok(x) && x@ == v,
            None => r matches Err(e) && e@ == Halt::Error(op_error(op)),
        },
{
    match (op, v1, v2) {
        (StackOp::Small, HtmlValueType::Int(a), HtmlValueType::Int(b)) => Ok(
            HtmlValueType::Bool(a > b),
        ),
        (StackOp::Small, HtmlValueType::Str(a), HtmlValueType::Str(b)) => {
            Ok(HtmlValueType::Bool(a.as_str().len() > b.as_str().len()))
        },
        (StackOp::Small, HtmlValueType::Array(a), HtmlValueType::Array(b)) => {
            proof {
                lemma_model_array(a);
                lemma_model_array(b);
            }
            Ok(HtmlValueType::Bool(a.len() > b.len()))
        },
        (StackOp::Big, HtmlValueType::Int(a), HtmlValueType::Int(b)) => Ok(
            HtmlValueType::Bool(a < b),
        ),
        (StackOp::Big, HtmlValueType::Str(a), HtmlValueType::Str(b)) => Ok(
            HtmlValueType::Bool(a.as_str().len() < b.as_str().len()),
        ),
        (StackOp::Big, HtmlValueType::Array(a), HtmlValueType::Array(b)) => {
            proof {
                lemma_model_array(a);
                lemma_model_array(b);
            }
            Ok(HtmlValueType::Bool(a.len() < b.len()))
        },
        (StackOp::Em, x, y) => Ok(HtmlValueType::Bool(values_equal(&x, &y))),
        (StackOp::Dd, HtmlValueType::Int(a), HtmlValueType::Int(b)) => Ok(
            HtmlValueType::Int(saturating_add(b, a)),
        ),
        (StackOp::Dd, HtmlValueType::Str(a), HtmlValueType::Str(b)) => {
            let mut joined = b;
            crate::text::push_str(&mut joined, a.as_str());
            Ok(HtmlValueType::Str(joined))
        },
        (StackOp::Dd, HtmlValueType::Array(a), HtmlValueType::Array(b)) => {
            let mut a = a;
            let mut joined = b;
            proof {
                lemma_model_array(a);
                lemma_model_array(joined);
                lemma_models_concat(joined@, a@);
            }
            joined.append(&mut a);
            proof {
                lemma_model_array(joined);
            }
            Ok(HtmlValueType::Array(joined))
        },
        (StackOp::Sub, HtmlValueType::Int(a), HtmlValueType::Int(b)) => Ok(
            HtmlValueType::Int(saturating_sub(b, a)),
        ),
        (StackOp::Ul, HtmlValueType::Int(a), HtmlValueType::Int(b)) => Ok(
            HtmlValueType::Int(saturating_mul(a, b)),
        ),
        (StackOp::Div, HtmlValueType::Int(a), HtmlValueType::Int(b)) => {
            if a == 0 {
                Err(Stop::Fault(Fault::DivisionByZero))
            } else {
                Ok(HtmlValueType::Int(saturating_div(b, a)))
            }
        },
        (StackOp::B, HtmlValueType::Bool(a), HtmlValueType::Bool(b)) => Ok(
            HtmlValueType::Bool(a && b),
        ),
        (StackOp::Bdo, HtmlValueType::Bool(a), HtmlValueType::Bool(b)) => Ok(
            HtmlValueType::Bool(a || b),
        ),
        (op, x, y) => {
            proof {
                match x {
                    HtmlValueType::Array(v) => lemma_model_array(v),
                    _ => {},
                }
                match y {
                    HtmlValueType::Array(v) => lemma_model_array(v),
                    _ => {},
                }
            }
            Err(Stop::Error(op_error_string(op)))
        },
    }
}

/// Runs a stack instruction on the stack (front first).
pub fn apply_stack_op(op: StackOp, stack: &mut VecDeque<HtmlValueType>) -> (r: Result<(), Stop>)
    ensures
        models(final(stack)@) == apply_op(op, models(old(stack)@)).0,
        halt_of(r) == apply_op(op, models(old(stack)@)).1,
{
    let ghost s0 = old(stack)@;
    match op {
        StackOp::Dt => {
            if stack.len() > 0 {
                let top = stack[0].duplicate();
                proof {
                    lemma_models_tail(s0);
                    lemma_models_cons(top, s0);
                }
                stack.push_front(top);
            }
            Ok(())
        },
        StackOp::Del => {
            if stack.len() > 0 {
                proof {
                    lemma_models_tail(s0);
                }
            }
            stack.pop_front();
            Ok(())
        },
        StackOp::Dbi => {
            match stack.pop_front() {
                Some(HtmlValueType::Bool(b)) => {
                    proof {
                        lemma_models_tail(s0);
                        lemma_models_cons(HtmlValueType::Bool(!b), s0.subrange(1, s0.len() as int));
                    }
                    stack.push_front(HtmlValueType::Bool(!b));
                    Ok(())
                },
                Some(x) => {
                    proof {
                        lemma_models_tail(s0);
                        match x {
                            HtmlValueType::Array(v) => lemma_model_array(v),
                            _ => {},
                        }
                    }
                    Err(Stop::Error(op_error_string(op)))
                },
                None => Err(Stop::Error(op_error_string(op))),
            }
        },
        _ => {
            let a = stack.pop_front();
            let b = stack.pop_front();
            match (a, b) {
                (Some(x), Some(y)) => {
                    proof {
                        lemma_models_tail(s0);
                        lemma_models_tail(s0.subrange(1, s0.len() as int));
                        assert(s0.subrange(1, s0.len() as int).subrange(
                            1,
                            s0.len() - 1,
                        ) =~= s0.skip(2));
                        assert(models(s0).drop_first().drop_first() =~= models(s0).skip(2));
                    }
                    match combine_values(op, x, y) {
                        Ok(v) => {
                            proof {
                                lemma_models_cons(v, s0.skip(2));
                            }
                            stack.push_front(v);
                            Ok(())
                        },
                        Err(e) => Err(e),
                    }
                },
                _ => {
                    assert(models(stack@) =~= Seq::<Value>::empty());
                    Err(Stop::Error(op_error_string(op)))
                },
            }
        },
    }
}

} // verus!
