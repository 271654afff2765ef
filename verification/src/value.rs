//! The values that expressions evaluate to.
use vstd::prelude::*;
use crate::error::EvalError;
use crate::text::{decimal_text, push_integer, push_text};

verus! {

/// The result of evaluating a node.
#[derive(Debug, Eq)]
pub enum Value {
    /// A 32-bit signed integer.
    Integer(i32),
    /// A truth value.
    Boolean(bool),
    /// A piece of text.
    String(String),
    /// The result of a statement that yields nothing.
    Void,
}

/// The mathematical content of a [`Value`].
pub ghost enum ValueView {
    Integer(i32),
    Boolean(bool),
    String(Seq<char>),
    Void,
}

impl ValueView {
    /// The truth value that a condition of this value stands for: a boolean
    /// stands for itself, an integer for "not zero", and nothing else for
    /// anything.
    pub open spec fn truth(self) -> Option<bool> {
        match self {
            ValueView::Boolean(b) => Some(b),
            ValueView::Integer(i) => Some(i != 0),
            _ => None,
        }
    }

    /// How the value is printed.
    pub open spec fn text(self) -> Seq<char> {
        match self {
            ValueView::Integer(i) => decimal_text(i as int),
            ValueView::Boolean(b) => if b {
                "true"@
            } else {
                "false"@
            },
            ValueView::String(s) => s,
            ValueView::Void => "void"@,
        }
    }
}

impl View for Value {
    type V = ValueView;

    open spec fn view(&self) -> ValueView {
        match self {
            Value::Integer(i) => ValueView::Integer(*i),
            Value::Boolean(b) => ValueView::Boolean(*b),
            Value::String(s) => ValueView::String(s@),
            Value::Void => ValueView::Void,
        }
    }
}

impl PartialEq for Value {
    /// Structural equality: values of different kinds are never equal.
    fn eq(&self, other: &Self) -> (r: bool) {
        match (self, other) {
            (Value::Integer(a), Value::Integer(b)) => *a == *b,
            (Value::Boolean(a), Value::Boolean(b)) => *a == *b,
            (Value::String(a), Value::String(b)) => *a == *b,
            (Value::Void, Value::Void) => true,
            _ => false,
        }
    }
}

impl vstd::std_specs::cmp::PartialEqSpecImpl for Value {
    open spec fn obeys_eq_spec() -> bool {
        true
    }

    open spec fn eq_spec(&self, other: &Self) -> bool {
        self@ == other@
    }
}

impl Clone for Value {
    fn clone(&self) -> (r: Self)
        ensures
            r@ == self@,
    {
        match self {
            Value::Integer(i) => Value::Integer(*i),
            Value::Boolean(b) => Value::Boolean(*b),
            Value::String(s) => Value::String(s.clone()),
            Value::Void => Value::Void,
        }
    }
}

impl Value {
    /// Converts the value to a boolean for use as a condition. Text and
    /// `Void` cannot be converted.
    pub fn as_bool(&self) -> (r: Result<bool, EvalError>)
        ensures
            r == (match self@.truth() {
                Some(b) => Ok::<bool, EvalError>(b),
                None => Err::<bool, EvalError>(EvalError::TypeMismatch),
            }),
    {
        match self {
            Value::Boolean(b) => Ok(*b),
            Value::Integer(i) => Ok(*i != 0),
            _ => Err(EvalError::TypeMismatch),
        }
    }

    /// The text that printing the value emits: an integer in decimal, a
    /// boolean as `true` or `false`, text as it is, and `Void` as `void`.
    pub fn to_string(&self) -> (s: String)
        ensures
            s@ == self@.text(),
    {
        let mut s: String = String::new();
        match self {
            Value::Integer(i) => push_integer(&mut s, *i),
            Value::Boolean(b) => {
                if *b {
                    push_text(&mut s, "true");
                } else {
                    push_text(&mut s, "false");
                }
            },
            Value::String(t) => push_text(&mut s, t.as_str()),
            Value::Void => push_text(&mut s, "void"),
        }
        s
    }
}

} // verus!
