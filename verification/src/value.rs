//! The runtime value model: a dynamically tagged union of number, string
//! and boolean, with its display form and truthiness rule.

use vstd::prelude::*;
use crate::num::{Num, render_num};
use crate::text::string_from_chars;

verus! {

#[derive(Debug)]
pub enum Value {
    Number(Num),
    Str(String),
    Boolean(bool),
}

pub enum ValueV {
    Number(int),
    Str(Seq<char>),
    Boolean(bool),
}

impl View for Value {
    type V = ValueV;

    open spec fn view(&self) -> ValueV {
        match self {
            Value::Number(n) => ValueV::Number(n.mantissa as int),
            Value::Str(s) => ValueV::Str(s@),
            Value::Boolean(b) => ValueV::Boolean(*b),
        }
    }
}

impl DeepView for Value {
    type V = ValueV;

    open spec fn deep_view(&self) -> ValueV {
        self.view()
    }
}

impl Clone for Value {
    fn clone(&self) -> (r: Self)
        ensures
            r@ == self@,
    {
        match self {
            Value::Number(n) => Value::Number(*n),
            Value::Str(s) => Value::Str(s.clone()),
            Value::Boolean(b) => Value::Boolean(*b),
        }
    }
}

/// The rule converting any value to a boolean for control flow: a number
/// is true unless zero, a string is true unless empty.
pub open spec fn sp_truthy(v: ValueV) -> bool {
    match v {
        ValueV::Boolean(b) => b,
        ValueV::Number(m) => m != 0,
        ValueV::Str(s) => s.len() > 0,
    }
}

/// The canonical display form: numbers without a trailing fraction when
/// whole, strings as their text, booleans spelled out.
pub open spec fn sp_display(v: ValueV) -> Seq<char> {
    match v {
        ValueV::Number(m) => render_num(m),
        ValueV::Str(s) => s,
        ValueV::Boolean(b) => if b {
            seq!['t', 'r', 'u', 'e']
        } else {
            seq!['f', 'a', 'l', 's', 'e']
        },
    }
}

impl Value {
    pub fn truthy(&self) -> (r: bool)
        ensures
            r == sp_truthy(self@),
    {
        match self {
            Value::Boolean(b) => *b,
            Value::Number(n) => !n.is_zero(),
            Value::Str(s) => !s.as_str().is_empty(),
        }
    }

    /// The display form, as the interpreter prints it.
    pub fn to_display_string(&self) -> (r: String)
        ensures
            r@ == sp_display(self@),
    {
        match self {
            Value::Number(n) => string_from_chars(&n.to_chars()),
            Value::Str(s) => s.clone(),
            Value::Boolean(b) => {
                if *b {
                    let t = "true".to_owned();
                    proof {
                        reveal_strlit("true");
                    }
                    t
                } else {
                    let t = "false".to_owned();
                    proof {
                        reveal_strlit("false");
                    }
                    t
                }
            },
        }
    }
}

} // verus!
