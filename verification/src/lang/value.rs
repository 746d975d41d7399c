//! The values a running program holds on its stack.
use vstd::prelude::*;
use crate::lang::number::Number;
use crate::lang::string::api::StringApi;
use crate::lang::string::char_string::CharString;

verus! {

/// A value on the stack.
#[derive(Debug, PartialEq)]
pub enum Value {
    String(CharString),
    Number(Number),
    Bool(bool),
    /// A pointer to a function: the namespace it was taken in, and its name.
    Address(usize, String),
}

/// A value as a snapshot keeps it. Values own what they hold, so the two are the same.
pub type OwnedValue = Value;

/// The mathematical value of a [`Value`].
pub enum ValueModel {
    String(Seq<char>),
    Number(Number),
    Bool(bool),
    Address(usize, Seq<char>),
}

impl View for Value {
    type V = ValueModel;

    open spec fn view(&self) -> ValueModel {
        match *self {
            Value::String(s) => ValueModel::String(s@),
            Value::Number(n) => ValueModel::Number(n),
            Value::Bool(b) => ValueModel::Bool(b),
            Value::Address(ns, name) => ValueModel::Address(ns, name@),
        }
    }
}

impl ValueModel {
    /// A value counts as true unless it is an empty string, a zero, a NaN or `false`.
    pub open spec fn truthy(self) -> bool {
        match self {
            ValueModel::String(s) => s.len() > 0,
            ValueModel::Number(n) => n.truthy(),
            ValueModel::Bool(b) => b,
            ValueModel::Address(_, _) => true,
        }
    }
}

impl Value {
    /// Whether the value counts as true.
    pub fn is_truthy(&self) -> (r: bool)
        ensures
            r == self@.truthy(),
    {
        match self {
            Value::String(s) => {
                proof {
                    s.view_is_chars();
                }
                !s.is_empty()
            },
            Value::Number(v) => v.is_truthy(),
            Value::Bool(b) => *b,
            Value::Address(_, _) => true,
        }
    }

    /// A copy.
    pub fn duplicate(&self) -> (r: Value)
        ensures
            r@ == self@,
    {
        match self {
            Value::String(s) => Value::String(s.duplicate()),
            Value::Number(v) => Value::Number(*v),
            Value::Bool(b) => Value::Bool(*b),
            Value::Address(ns, name) => Value::Address(*ns, name.clone()),
        }
    }
}

} // verus!
