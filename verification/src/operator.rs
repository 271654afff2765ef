//! The binary operators and what they do to two values.
use vstd::prelude::*;
use crate::error::{EvalError, EvalErrorView};
use crate::text::same_text;
use crate::value::{Value, ValueView};

verus! {

/// A binary operator of the language.
#[derive(Debug, Clone, Copy, PartialEq, Eq, Structural)]
pub enum Operator {
    Plus,
    Minus,
    Multiply,
    Divide,
    Modulo,
    Equals,
    NotEquals,
    LessThan,
    LessThanOrEqual,
    GreaterThan,
    GreaterThanOrEqual,
    And,
    Or,
    Not,
}

/// The operator that a name stands for. The names are those of the
/// operator tokens.
pub open spec fn operator_named(name: Seq<char>) -> Option<Operator> {
    if name == "Plus"@ {
        Some(Operator::Plus)
    } else if name == "Minus"@ {
        Some(Operator::Minus)
    } else if name == "Multiply"@ {
        Some(Operator::Multiply)
    } else if name == "Divide"@ {
        Some(Operator::Divide)
    } else if name == "Modulo"@ {
        Some(Operator::Modulo)
    } else if name == "Equals"@ {
        Some(Operator::Equals)
    } else if name == "NotEquals"@ {
        Some(Operator::NotEquals)
    } else if name == "LessThan"@ {
        Some(Operator::LessThan)
    } else if name == "LessThanOrEqual"@ {
        Some(Operator::LessThanOrEqual)
    } else if name == "GreaterThan"@ {
        Some(Operator::GreaterThan)
    } else if name == "GreaterThanOrEqual"@ {
        Some(Operator::GreaterThanOrEqual)
    } else if name == "And"@ {
        Some(Operator::And)
    } else if name == "Or"@ {
        Some(Operator::Or)
    } else if name == "Not"@ {
        Some(Operator::Not)
    } else {
        None
    }
}

/// The absolute value of `i`.
pub open spec fn magnitude(i: int) -> int {
    if i < 0 {
        -i
    } else {
        i
    }
}

/// The quotient of `a` by `b`, rounded towards zero.
pub open spec fn truncated_quotient(a: int, b: int) -> int
    recommends
        b != 0,
{
    if (a < 0) == (b < 0) {
        magnitude(a) / magnitude(b)
    } else {
        -(magnitude(a) / magnitude(b))
    }
}

/// The remainder that goes with [`truncated_quotient`]; it has the sign
/// of `a`.
pub open spec fn truncated_remainder(a: int, b: int) -> int
    recommends
        b != 0,
{
    if a < 0 {
        -(magnitude(a) % magnitude(b))
    } else {
        magnitude(a) % magnitude(b)
    }
}

/// An integer result, if it fits in 32 signed bits.
pub open spec fn integer_result(i: int) -> Result<ValueView, EvalErrorView> {
    if i32::MIN <= i <= i32::MAX {
        Ok(ValueView::Integer(i as i32))
    } else {
        Err(EvalErrorView::Overflow)
    }
}

/// What `op` makes of `left` and `right`.
///
/// The arithmetic operators and the order comparisons take two integers;
/// `And` and `Or` take two booleans; `Not` takes a boolean on the left and
/// ignores what is on the right; `Equals` and `NotEquals` compare values of
/// any kind, and values of different kinds are unequal. Any other operand
/// is a type mismatch. Division and remainder round towards zero and fail
/// on a zero divisor; an arithmetic result that does not fit in 32 signed
/// bits is an overflow, and so is the remainder of the least integer by
/// minus one.
pub open spec fn apply_operator(op: Operator, left: ValueView, right: ValueView) -> Result<
    ValueView,
    EvalErrorView,
> {
    match op {
        Operator::Equals => Ok(ValueView::Boolean(left == right)),
        Operator::NotEquals => Ok(ValueView::Boolean(left != right)),
        Operator::And => match (left, right) {
            (ValueView::Boolean(a), ValueView::Boolean(b)) => Ok(ValueView::Boolean(a && b)),
            _ => Err(EvalErrorView::TypeMismatch),
        },
        Operator::Or => match (left, right) {
            (ValueView::Boolean(a), ValueView::Boolean(b)) => Ok(ValueView::Boolean(a || b)),
            _ => Err(EvalErrorView::TypeMismatch),
        },
        Operator::Not => match left {
            ValueView::Boolean(a) => Ok(ValueView::Boolean(!a)),
            _ => Err(EvalErrorView::TypeMismatch),
        },
        _ => match (left, right) {
            (ValueView::Integer(a), ValueView::Integer(b)) => match op {
                Operator::Plus => integer_result(a + b),
                Operator::Minus => integer_result(a - b),
                Operator::Multiply => integer_result(a * b),
                Operator::Divide => if b == 0 {
                    Err(EvalErrorView::DivisionByZero)
                } else {
                    integer_result(truncated_quotient(a as int, b as int))
                },
                Operator::Modulo => if b == 0 {
                    Err(EvalErrorView::DivisionByZero)
                } else if a == i32::MIN && b == -1 {
                    Err(EvalErrorView::Overflow)
                } else {
                    integer_result(truncated_remainder(a as int, b as int))
                },
                Operator::LessThan => Ok(ValueView::Boolean(a < b)),
                Operator::LessThanOrEqual => Ok(ValueView::Boolean(a <= b)),
                Operator::GreaterThan => Ok(ValueView::Boolean(a > b)),
                _ => Ok(ValueView::Boolean(a >= b)),
            },
            _ => Err(EvalErrorView::TypeMismatch),
        },
    }
}

/// What the operator called `name` makes of `left` and `right`; a name
/// that stands for no operator is an unsupported construct.
pub open spec fn operate(name: Seq<char>, left: ValueView, right: ValueView) -> Result<
    ValueView,
    EvalErrorView,
> {
    match operator_named(name) {
        Some(op) => apply_operator(op, left, right),
        None => Err(EvalErrorView::UnsupportedConstruct),
    }
}

/// The contents of the result of an evaluation.
pub open spec fn result_view(r: Result<Value, EvalError>) -> Result<ValueView, EvalErrorView> {
    match r {
        Ok(value) => Ok(value@),
        Err(error) => Err(error@),
    }
}

/// The operator that `name` stands for, if any.
pub fn operator_from_name(name: &str) -> (r: Option<Operator>)
    ensures
        r == operator_named(name@),
{
    if same_text(name, "Plus") {
        Some(Operator::Plus)
    } else if same_text(name, "Minus") {
        Some(Operator::Minus)
    } else if same_text(name, "Multiply") {
        Some(Operator::Multiply)
    } else if same_text(name, "Divide") {
        Some(Operator::Divide)
    } else if same_text(name, "Modulo") {
        Some(Operator::Modulo)
    } else if same_text(name, "Equals") {
        Some(Operator::Equals)
    } else if same_text(name, "NotEquals") {
        Some(Operator::NotEquals)
    } else if same_text(name, "LessThan") {
        Some(Operator::LessThan)
    } else if same_text(name, "LessThanOrEqual") {
        Some(Operator::LessThanOrEqual)
    } else if same_text(name, "GreaterThan") {
        Some(Operator::GreaterThan)
    } else if same_text(name, "GreaterThanOrEqual") {
        Some(Operator::GreaterThanOrEqual)
    } else if same_text(name, "And") {
        Some(Operator::And)
    } else if same_text(name, "Or") {
        Some(Operator::Or)
    } else if same_text(name, "Not") {
        Some(Operator::Not)
    } else {
        None
    }
}

/// An integer result of an arithmetic operator, or the overflow that
/// stood in its way.
fn checked(outcome: Option<i32>) -> (r: Result<Value, EvalError>)
    ensures
        result_view(r) == (match outcome {
            Some(i) => Ok::<ValueView, EvalErrorView>(ValueView::Integer(i)),
            None => Err::<ValueView, EvalErrorView>(EvalErrorView::Overflow),
        }),
{
    match outcome {
        Some(i) => Ok(Value::Integer(i)),
        None => Err(EvalError::Overflow),
    }
}

/// Applies an arithmetic operator or an order comparison to two integers.
fn apply_to_integers(op: Operator, a: i32, b: i32) -> (r: Result<Value, EvalError>)
    requires
        op != Operator::Equals,
        op != Operator::NotEquals,
        op != Operator::And,
        op != Operator::Or,
        op != Operator::Not,
    ensures
        result_view(r) == apply_operator(op, ValueView::Integer(a), ValueView::Integer(b)),
{
    match op {
        Operator::Plus => checked(a.checked_add(b)),
        Operator::Minus => checked(a.checked_sub(b)),
        Operator::Multiply => checked(a.checked_mul(b)),
        Operator::Divide => {
            if b == 0 {
                Err(EvalError::DivisionByZero)
            } else {
                checked(a.checked_div(b))
            }
        },
        Operator::Modulo => {
            if b == 0 {
                Err(EvalError::DivisionByZero)
            } else {
                checked(a.checked_rem(b))
            }
        },
        Operator::LessThan => Ok(Value::Boolean(a < b)),
        Operator::LessThanOrEqual => Ok(Value::Boolean(a <= b)),
        Operator::GreaterThan => Ok(Value::Boolean(a > b)),
        _ => Ok(Value::Boolean(a >= b)),
    }
}

/// Applies `op` to two values, as [`apply_operator`] describes.
pub fn apply(op: Operator, left: &Value, right: &Value) -> (r: Result<Value, EvalError>)
    ensures
        result_view(r) == apply_operator(op, left@, right@),
{
    match op {
        Operator::Equals => Ok(Value::Boolean(*left == *right)),
        Operator::NotEquals => Ok(Value::Boolean(!(*left == *right))),
        Operator::And => match (left, right) {
            (Value::Boolean(a), Value::Boolean(b)) => Ok(Value::Boolean(*a && *b)),
            _ => Err(EvalError::TypeMismatch),
        },
        Operator::Or => match (left, right) {
            (Value::Boolean(a), Value::Boolean(b)) => Ok(Value::Boolean(*a || *b)),
            _ => Err(EvalError::TypeMismatch),
        },
        Operator::Not => match left {
            Value::Boolean(a) => Ok(Value::Boolean(!*a)),
            _ => Err(EvalError::TypeMismatch),
        },
        _ => match (left, right) {
            (Value::Integer(a), Value::Integer(b)) => apply_to_integers(op, *a, *b),
            _ => Err(EvalError::TypeMismatch),
        },
    }
}

/// Applies the operator called `name` to two values, as [`operate`]
/// describes.
pub fn apply_named(name: &str, left: &Value, right: &Value) -> (r: Result<Value, EvalError>)
    ensures
        result_view(r) == operate(name@, left@, right@),
{
    match operator_from_name(name) {
        Some(op) => apply(op, left, right),
        None => Err(EvalError::UnsupportedConstruct),
    }
}

} // verus!
