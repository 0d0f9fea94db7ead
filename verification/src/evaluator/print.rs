//! The text of values and of evaluation errors.

use vstd::prelude::*;
use vstd::string::*;
use crate::evaluator::value::{EvalError, EvalErrorView, Value, ValueView};
use crate::text::{append_int, append_nat, int_text, nat_text};

verus! {

/// The text of a value: `()` for the empty list, `#t` and `#f` for booleans,
/// decimal digits for numbers, strings between double quotes, symbols as they
/// are, pairs between parentheses with a dot before a tail that is no list,
/// and a fixed mark for functions.
pub open spec fn value_text(v: ValueView) -> Seq<char>
    decreases v, 0nat,
{
    match v {
        ValueView::Nil => "()"@,
        ValueView::Bool(b) => if b {
            "#t"@
        } else {
            "#f"@
        },
        ValueView::Number(n) => int_text(n),
        ValueView::String(s) => seq!['"'] + s + seq!['"'],
        ValueView::Symbol(s) => s,
        ValueView::Cons(a, d) => seq!['('] + value_text(*a) + tail_text(*d) + seq![')'],
        ValueView::Primitive(_) => "#<primitive>"@,
        ValueView::Lambda { .. } => "#<lambda>"@,
    }
}

/// The text of what follows the first element inside a pair's parentheses.
pub open spec fn tail_text(d: ValueView) -> Seq<char>
    decreases d, 1nat,
{
    match d {
        ValueView::Nil => Seq::empty(),
        ValueView::Cons(a, rest) => seq![' '] + value_text(*a) + tail_text(*rest),
        _ => " . "@ + value_text(d),
    }
}

/// The message of an evaluation error.
pub open spec fn error_text(e: EvalErrorView) -> Seq<char> {
    match e {
        EvalErrorView::UndefinedVariable(name) => "Undefined variable: "@ + name,
        EvalErrorView::TypeError(msg) => "Type error: "@ + msg,
        EvalErrorView::ArityError { expected, got } => "Arity error: expected "@ + expected
            + ", got "@ + nat_text(got),
        EvalErrorView::RuntimeError(msg) => "Runtime error: "@ + msg,
    }
}

/// Appends the text of `v` to `out`.
pub fn append_value(out: &mut String, v: &Value)
    ensures
        final(out)@ == old(out)@ + value_text(v@),
    decreases v, 0nat,
{
    match v {
        Value::Nil => {
            out.append("()");
        },
        Value::Bool(b) => {
            if *b {
                out.append("#t");
            } else {
                out.append("#f");
            }
        },
        Value::Number(n) => {
            append_int(out, *n);
        },
        Value::String(s) => {
            out.push('"');
            out.append(s.as_str());
            out.push('"');
            assert(out@ =~= old(out)@ + value_text(v@));
        },
        Value::Symbol(s) => {
            out.append(s.as_str());
        },
        Value::Cons(a, d) => {
            out.push('(');
            append_value(out, &**a);
            append_tail(out, &**d);
            out.push(')');
            assert(out@ =~= old(out)@ + value_text(v@));
        },
        Value::Primitive(_) => {
            out.append("#<primitive>");
        },
        Value::Lambda { .. } => {
            out.append("#<lambda>");
        },
    }
}

/// Appends to `out` the text of what follows the first element of a pair.
pub fn append_tail(out: &mut String, d: &Value)
    ensures
        final(out)@ == old(out)@ + tail_text(d@),
    decreases d, 1nat,
{
    match d {
        Value::Nil => {
            assert(out@ =~= old(out)@ + tail_text(d@));
        },
        Value::Cons(a, rest) => {
            out.push(' ');
            append_value(out, &**a);
            append_tail(out, &**rest);
            assert(out@ =~= old(out)@ + tail_text(d@));
        },
        _ => {
            out.append(" . ");
            append_value(out, d);
            assert(out@ =~= old(out)@ + tail_text(d@));
        },
    }
}

impl Value {
    /// The text of the value.
    pub fn to_string(&self) -> (r: String)
        ensures
            r@ == value_text(self@),
    {
        let mut out = String::new();
        append_value(&mut out, self);
        assert(out@ =~= value_text(self@));
        out
    }
}

impl EvalError {
    /// The message of the error.
    pub fn to_string(&self) -> (r: String)
        ensures
            r@ == error_text(self@),
    {
        let mut out = String::new();
        match self {
            EvalError::UndefinedVariable(name) => {
                out.append("Undefined variable: ");
                out.append(name.as_str());
            },
            EvalError::TypeError(msg) => {
                out.append("Type error: ");
                out.append(msg.as_str());
            },
            EvalError::ArityError { expected, got } => {
                out.append("Arity error: expected ");
                out.append(expected.as_str());
                out.append(", got ");
                append_nat(&mut out, *got as u64);
            },
            EvalError::RuntimeError(msg) => {
                out.append("Runtime error: ");
                out.append(msg.as_str());
            },
        }
        assert(out@ =~= error_text(self@));
        out
    }
}

} // verus!
