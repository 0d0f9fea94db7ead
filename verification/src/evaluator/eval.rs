//! The evaluator: interprets syntax trees against an environment.

use vstd::prelude::*;
use std::rc::Rc;
use crate::evaluator::builtins::{
    builtin_assoc, builtin_car, builtin_cdr, builtin_cons, builtin_equal, builtin_null,
    group_by_bounded, wrong_arity,
};
use crate::evaluator::semantics::{
    apply_spec, bind_params, builtin_spec, eval_args, eval_body, eval_call, eval_define,
    eval_dotted, eval_dotted_head, eval_if, eval_lambda, eval_quote, eval_spec, head_is, is_truthy,
    lambda_params, quote_items, quote_value, symbol_name, symbol_names, ArgsOutcome, Outcome,
};
use crate::evaluator::value::{
    result_view, strings_view, values_view, EnvView, Environment, EvalError, PrimitiveFn,
    Value, ValueView,
};
use crate::parser::ast::{clone_sexpr, lemma_dotted_view, lemma_list_view, sexprs_view, Atom, Sexpr};
use crate::text::usize_to_string;

verus! {

/// The depth to which [`eval`] and [`apply_function`] evaluate.
///
/// The limit is this library's own; the language has none. An evaluation
/// has to end for its result to be stated, so each nested evaluation or
/// application takes one from a depth, and the depth is chosen such that an
/// evaluation that goes all the way down still fits the stack of a thread
/// of two megabytes. A function that calls itself through an `if` takes
/// three levels for each call. [`eval_bounded`] and [`apply_bounded`] take
/// the depth from their caller, who knows the stack there is.
pub const MAX_DEPTH: usize = 2048;

/// What an evaluation gave, as a model.
pub open spec fn outcome(r: Result<Value, EvalError>, env: EnvView) -> Outcome {
    Outcome { result: result_view(r), env }
}

/// What evaluating arguments gave, as a model.
pub open spec fn args_outcome(r: Result<Vec<Value>, EvalError>, env: EnvView) -> ArgsOutcome {
    ArgsOutcome {
        result: match r {
            Ok(vs) => Ok(values_view(vs@)),
            Err(e) => Err(e@),
        },
        env,
    }
}

/// Arguments with the values `acc` put in front.
pub open spec fn prepend_values(acc: Seq<ValueView>, rest: ArgsOutcome) -> ArgsOutcome {
    match rest.result {
        Ok(vs) => ArgsOutcome { result: Ok(acc + vs), env: rest.env },
        Err(_) => rest,
    }
}

/// The error of an evaluation that ran out of depth.
fn depth_exceeded() -> (e: EvalError)
    ensures
        e@ == crate::evaluator::semantics::depth_error(),
{
    EvalError::RuntimeError("evaluation depth limit exceeded".to_owned())
}

/// Whether a value counts as true: every value but false and the empty list.
pub fn truthy(v: &Value) -> (b: bool)
    ensures
        b == is_truthy(v@),
{
    match v {
        Value::Nil => false,
        Value::Bool(b) => *b,
        _ => true,
    }
}

/// The chain of pairs of the quoted `items`, ending in `tail`.
pub fn quote_list(items: &Vec<Sexpr>, tail: Value) -> (r: Value)
    ensures
        r@ == quote_items(sexprs_view(items@), 0, tail@),
    decreases items, 0nat,
{
    let ghost end = tail@;
    let mut acc = tail;
    let mut i: usize = items.len();
    while i > 0
        invariant
            i <= items.len(),
            acc@ == quote_items(sexprs_view(items@), i as int, end),
        decreases i,
    {
        i -= 1;
        acc = Value::Cons(Rc::new(sexpr_to_value(&items[i])), Rc::new(acc));
    }
    acc
}

/// The value that a quoted expression stands for.
pub fn sexpr_to_value(e: &Sexpr) -> (r: Value)
    ensures
        r@ == quote_value(e@),
    decreases e, 1nat,
{
    match e {
        Sexpr::Atom(a) => match a {
            Atom::Nil => Value::Nil,
            Atom::Symbol(s) => Value::Symbol(s.clone()),
            Atom::Number(n) => Value::Number(*n),
            Atom::String(s) => Value::String(s.clone()),
        },
        Sexpr::List(items) => {
            proof {
                lemma_list_view(*items);
            }
            quote_list(items, Value::Nil)
        },
        Sexpr::DottedList(items, tail) => {
            proof {
                lemma_dotted_view(*items, *tail);
            }
            let end = sexpr_to_value(tail);
            quote_list(items, end)
        },
    }
}

/// Whether the first of `items` is the symbol `word`.
fn is_head(items: &Vec<Sexpr>, word: &str) -> (b: bool)
    requires
        items.len() > 0,
    ensures
        b == head_is(sexprs_view(items@), word@),
{
    match &items[0] {
        Sexpr::Atom(Atom::Symbol(s)) => s.as_str().eq(word),
        _ => false,
    }
}

/// The names of a sequence of symbols, or `None` where one is no symbol.
fn names_of(ps: &Vec<Sexpr>) -> (r: Option<Vec<String>>)
    ensures
        match symbol_names(sexprs_view(ps@)) {
            Some(names) => r is Some && strings_view(r.unwrap()@) == names,
            None => r is None,
        },
{
    let mut out: Vec<String> = Vec::new();
    let mut i: usize = 0;
    while i < ps.len()
        invariant
            i <= ps.len(),
            out.len() == i,
            forall|j: int|
                0 <= j < i ==> symbol_name(#[trigger] sexprs_view(ps@)[j]) == Some(out[j]@),
        decreases ps.len() - i,
    {
        match &ps[i] {
            Sexpr::Atom(Atom::Symbol(s)) => {
                out.push(s.clone());
            },
            _ => {
                assert(symbol_name(sexprs_view(ps@)[i as int]) is None);
                return None;
            },
        }
        i += 1;
    }
    assert(strings_view(out@) =~= symbol_names(sexprs_view(ps@)).unwrap());
    Some(out)
}

/// The parameter names that the parameter list of a `lambda` gives.
fn params_of(e: &Sexpr) -> (r: Option<Vec<String>>)
    ensures
        match lambda_params(e@) {
            Some(names) => r is Some && strings_view(r.unwrap()@) == names,
            None => r is None,
        },
{
    match e {
        Sexpr::Atom(Atom::Nil) => {
            let out: Vec<String> = Vec::new();
            assert(strings_view(out@) =~= Seq::<Seq<char>>::empty());
            Some(out)
        },
        Sexpr::List(ps) => {
            proof {
                lemma_list_view(*ps);
            }
            names_of(ps)
        },
        _ => None,
    }
}

/// Evaluates `expr` in `env`, to the depth [`MAX_DEPTH`]: an evaluation
/// that would nest deeper ends in a runtime error. That limit is the
/// library's own, not the language's; see [`MAX_DEPTH`].
pub fn eval(expr: &Sexpr, env: &mut Environment) -> (r: Result<Value, EvalError>)
    ensures
        outcome(r, final(env)@) == eval_spec(expr@, old(env)@, MAX_DEPTH as nat),
{
    eval_bounded(expr, env, MAX_DEPTH)
}

/// Evaluates `expr` in `env`, to the depth `depth`: an evaluation that would
/// nest deeper ends in a runtime error.
pub fn eval_bounded(expr: &Sexpr, env: &mut Environment, depth: usize) -> (r: Result<
    Value,
    EvalError,
>)
    ensures
        outcome(r, final(env)@) == eval_spec(expr@, old(env)@, depth as nat),
    decreases depth, 3nat, 0nat,
{
    if depth == 0 {
        return Err(depth_exceeded());
    }
    match expr {
        Sexpr::Atom(a) => match a {
            Atom::Symbol(name) => match env.get(name.as_str()) {
                Some(v) => Ok(v),
                None => Err(EvalError::UndefinedVariable(name.clone())),
            },
            Atom::Nil => Ok(Value::Nil),
            Atom::Number(n) => Ok(Value::Number(*n)),
            Atom::String(s) => Ok(Value::String(s.clone())),
        },
        Sexpr::DottedList(head, tail) => {
            proof {
                lemma_dotted_view(*head, *tail);
            }
            eval_dotted_list(head, tail, env, depth)
        },
        Sexpr::List(items) => {
            proof {
                lemma_list_view(*items);
            }
            if items.len() == 0 {
                Ok(Value::Nil)
            } else if is_head(items, "quote") {
                eval_quote_form(items, env)
            } else if is_head(items, "define") {
                eval_define_form(items, env, depth)
            } else if is_head(items, "lambda") {
                eval_lambda_form(items, env)
            } else if is_head(items, "if") {
                eval_if_form(items, env, depth)
            } else {
                eval_call_form(items, env, depth)
            }
        },
    }
}

/// `(quote x)`.
fn eval_quote_form(items: &Vec<Sexpr>, env: &mut Environment) -> (r: Result<Value, EvalError>)
    requires
        items.len() > 0,
    ensures
        outcome(r, final(env)@) == eval_quote(sexprs_view(items@), old(env)@),
{
    if items.len() != 2 {
        return Err(wrong_arity("1", items.len() - 1));
    }
    Ok(sexpr_to_value(&items[1]))
}

/// `(define name x)`.
fn eval_define_form(items: &Vec<Sexpr>, env: &mut Environment, depth: usize) -> (r: Result<
    Value,
    EvalError,
>)
    requires
        items.len() > 0,
        depth > 0,
    ensures
        outcome(r, final(env)@) == eval_define(sexprs_view(items@), old(env)@, depth as nat),
    decreases depth, 2nat, 0nat,
{
    if items.len() != 3 {
        return Err(wrong_arity("2", items.len() - 1));
    }
    match &items[1] {
        Sexpr::Atom(Atom::Symbol(name)) => {
            match eval_bounded(&items[2], env, depth - 1) {
                Ok(v) => {
                    env.define(name.clone(), v.clone());
                    Ok(v)
                },
                Err(e) => Err(e),
            }
        },
        _ => Err(
            EvalError::TypeError("define requires a symbol as its first argument".to_owned()),
        ),
    }
}

/// `(lambda (p ...) body ...)`.
fn eval_lambda_form(items: &Vec<Sexpr>, env: &mut Environment) -> (r: Result<Value, EvalError>)
    requires
        items.len() > 0,
    ensures
        outcome(r, final(env)@) == eval_lambda(sexprs_view(items@), old(env)@),
{
    if items.len() < 3 {
        return Err(wrong_arity("at least 2", items.len() - 1));
    }
    match params_of(&items[1]) {
        Some(params) => {
            let mut body: Vec<Sexpr> = Vec::new();
            let mut i: usize = 2;
            while i < items.len()
                invariant
                    2 <= i <= items.len(),
                    body.len() == i - 2,
                    forall|j: int| 0 <= j < body.len() ==> body[j]@ == items[j + 2]@,
                decreases items.len() - i,
            {
                body.push(clone_sexpr(&items[i]));
                i += 1;
            }
            assert(sexprs_view(body@) =~= sexprs_view(items@).subrange(2, items.len() as int));
            let closure = env.current_frame();
            Ok(Value::Lambda { params, body, closure })
        },
        None => Err(
            EvalError::TypeError("lambda requires a list of symbols as parameters".to_owned()),
        ),
    }
}

/// `(if test then else)`.
fn eval_if_form(items: &Vec<Sexpr>, env: &mut Environment, depth: usize) -> (r: Result<
    Value,
    EvalError,
>)
    requires
        items.len() > 0,
        depth > 0,
    ensures
        outcome(r, final(env)@) == eval_if(sexprs_view(items@), old(env)@, depth as nat),
    decreases depth, 2nat, 0nat,
{
    if items.len() != 4 {
        return Err(wrong_arity("3", items.len() - 1));
    }
    match eval_bounded(&items[1], env, depth - 1) {
        Ok(v) => {
            if truthy(&v) {
                eval_bounded(&items[2], env, depth - 1)
            } else {
                eval_bounded(&items[3], env, depth - 1)
            }
        },
        Err(e) => Err(e),
    }
}

/// A call: head, then arguments, then application.
fn eval_call_form(items: &Vec<Sexpr>, env: &mut Environment, depth: usize) -> (r: Result<
    Value,
    EvalError,
>)
    requires
        items.len() > 0,
        depth > 0,
    ensures
        outcome(r, final(env)@) == eval_call(sexprs_view(items@), old(env)@, depth as nat),
    decreases depth, 2nat, 0nat,
{
    match eval_bounded(&items[0], env, depth - 1) {
        Ok(f) => match eval_arguments(items, 1, env, depth - 1) {
            Ok(args) => apply_bounded(&f, args.as_slice(), env, depth - 1),
            Err(e) => Err(e),
        },
        Err(e) => Err(e),
    }
}

/// Evaluates `items[from..]` from left to right.
pub(crate) fn eval_arguments(items: &Vec<Sexpr>, from: usize, env: &mut Environment, depth: usize) -> (r:
    Result<Vec<Value>, EvalError>)
    requires
        from <= items.len(),
    ensures
        args_outcome(r, final(env)@) == eval_args(
            sexprs_view(items@),
            from as int,
            old(env)@,
            depth as nat,
        ),
    decreases depth, 4nat, 0nat,
{
    let ghost s = sexprs_view(items@);
    let ghost whole = eval_args(s, from as int, old(env)@, depth as nat);
    let mut out: Vec<Value> = Vec::new();
    let mut i: usize = from;
    proof {
        assert(values_view(out@) =~= Seq::<ValueView>::empty());
        if whole.result is Ok {
            assert(values_view(out@) + whole.result->Ok_0 =~= whole.result->Ok_0);
        }
    }
    while i < items.len()
        invariant
            from <= i <= items.len(),
            s == sexprs_view(items@),
            whole == eval_args(s, from as int, old(env)@, depth as nat),
            whole == prepend_values(values_view(out@), eval_args(s, i as int, env@, depth as nat)),
        decreases items.len() - i,
    {
        match eval_bounded(&items[i], env, depth) {
            Ok(v) => {
                proof {
                    let rest = eval_args(s, i + 1, env@, depth as nat);
                    if rest.result is Ok {
                        assert(values_view(out@) + (seq![v@] + rest.result->Ok_0)
                            =~= values_view(out@.push(v)) + rest.result->Ok_0);
                    }
                }
                out.push(v);
            },
            Err(e) => {
                return Err(e);
            },
        }
        i += 1;
    }
    assert(values_view(out@) + Seq::<ValueView>::empty() =~= values_view(out@));
    Ok(out)
}

/// A dotted list: the tail first, then the head elements from the last to
/// the first.
fn eval_dotted_list(head: &Vec<Sexpr>, tail: &Sexpr, env: &mut Environment, depth: usize) -> (r:
    Result<Value, EvalError>)
    requires
        depth > 0,
    ensures
        outcome(r, final(env)@) == eval_dotted(
            sexprs_view(head@),
            tail@,
            old(env)@,
            depth as nat,
        ),
    decreases depth, 2nat, 0nat,
{
    let ghost s = sexprs_view(head@);
    let mut acc = match eval_bounded(tail, env, depth - 1) {
        Ok(v) => v,
        Err(e) => {
            return Err(e);
        },
    };
    let ghost whole = eval_dotted(s, tail@, old(env)@, depth as nat);
    let mut i: usize = head.len();
    while i > 0
        invariant
            i <= head.len(),
            s == sexprs_view(head@),
            depth > 0,
            eval_spec(tail@, old(env)@, (depth - 1) as nat).result is Ok,
            whole == eval_dotted(s, tail@, old(env)@, depth as nat),
            whole == eval_dotted_head(s, i as nat, acc@, env@, (depth - 1) as nat),
        decreases i,
    {
        i -= 1;
        match eval_bounded(&head[i], env, depth - 1) {
            Ok(v) => {
                acc = Value::Cons(Rc::new(v), Rc::new(acc));
            },
            Err(e) => {
                return Err(e);
            },
        }
    }
    Ok(acc)
}

/// Evaluates the expressions of `body` in order in `env`, and gives the
/// value of the last one; the empty list where there is none.
pub fn eval_sequence(body: &Vec<Sexpr>, env: &mut Environment, depth: usize) -> (r: Result<
    Value,
    EvalError,
>)
    ensures
        outcome(r, final(env)@) == eval_body(
            sexprs_view(body@),
            0,
            ValueView::Nil,
            old(env)@,
            depth as nat,
        ),
    decreases depth, 4nat, 0nat,
{
    let ghost s = sexprs_view(body@);
    let ghost whole = eval_body(s, 0, ValueView::Nil, old(env)@, depth as nat);
    let mut last = Value::Nil;
    let mut i: usize = 0;
    while i < body.len()
        invariant
            i <= body.len(),
            s == sexprs_view(body@),
            whole == eval_body(s, 0, ValueView::Nil, old(env)@, depth as nat),
            whole == eval_body(s, i as int, last@, env@, depth as nat),
        decreases body.len() - i,
    {
        match eval_bounded(&body[i], env, depth) {
            Ok(v) => {
                last = v;
            },
            Err(e) => {
                return Err(e);
            },
        }
        i += 1;
    }
    Ok(last)
}

/// Applies a built-in function.
fn apply_builtin(p: PrimitiveFn, args: &[Value], env: &mut Environment, depth: usize) -> (r:
    Result<Value, EvalError>)
    ensures
        outcome(r, final(env)@) == builtin_spec(p, values_view(args@), old(env)@, depth as nat),
    decreases depth, 6nat, 0nat,
{
    match p {
        PrimitiveFn::Cons => builtin_cons(args, env),
        PrimitiveFn::Car => builtin_car(args, env),
        PrimitiveFn::Cdr => builtin_cdr(args, env),
        PrimitiveFn::Null => builtin_null(args, env),
        PrimitiveFn::Equal => builtin_equal(args, env),
        PrimitiveFn::Assoc => builtin_assoc(args, env),
        PrimitiveFn::GroupBy => group_by_bounded(args, env, depth),
    }
}

/// The error of a function that refers to a frame which the environment
/// does not have.
fn no_such_frame() -> (e: EvalError)
    ensures
        e@ == crate::evaluator::semantics::frame_error(),
{
    EvalError::RuntimeError(
        "function refers to a frame that the environment does not have".to_owned(),
    )
}

/// Applies `func` to `args` in `env`, to the depth `depth`. A user-defined
/// function must have been made in `env`: it refers to its frame there.
pub fn apply_bounded(func: &Value, args: &[Value], env: &mut Environment, depth: usize) -> (r:
    Result<Value, EvalError>)
    ensures
        outcome(r, final(env)@) == apply_spec(
            func@,
            values_view(args@),
            old(env)@,
            depth as nat,
        ),
    decreases depth, 3nat, 0nat,
{
    if depth == 0 {
        return Err(depth_exceeded());
    }
    match func {
        Value::Primitive(p) => apply_builtin(*p, args, env, depth - 1),
        Value::Lambda { params, body, closure } => {
            if params.len() != args.len() {
                return Err(
                    EvalError::ArityError {
                        expected: usize_to_string(params.len()),
                        got: args.len(),
                    },
                );
            }
            if !env.has_frame(*closure) {
                return Err(no_such_frame());
            }
            let ghost ps = strings_view(params@);
            let ghost vs = values_view(args@);
            let ghost base = old(env)@.child_of(*closure as nat);
            let saved = env.current_frame();
            env.push_frame(*closure);
            let mut i: usize = 0;
            while i < params.len()
                invariant
                    i <= params.len(),
                    params.len() == args.len(),
                    ps == strings_view(params@),
                    vs == values_view(args@),
                    env@ == bind_params(base, ps, vs, i as nat),
                decreases params.len() - i,
            {
                env.define(params[i].clone(), args[i].clone());
                i += 1;
            }
            let r = eval_sequence(body, env, depth - 1);
            env.enter(saved);
            r
        },
        _ => {
            let mut msg = "Cannot apply non-function: ".to_owned();
            let text = func.to_string();
            vstd::string::StringExecFns::append(&mut msg, text.as_str());
            Err(EvalError::TypeError(msg))
        },
    }
}

/// Applies `func` to `args` in `env`, to the depth [`MAX_DEPTH`].
pub fn apply_function(func: &Value, args: &[Value], env: &mut Environment) -> (r: Result<
    Value,
    EvalError,
>)
    ensures
        outcome(r, final(env)@) == apply_spec(
            func@,
            values_view(args@),
            old(env)@,
            MAX_DEPTH as nat,
        ),
{
    apply_bounded(func, args, env, MAX_DEPTH)
}

} // verus!
