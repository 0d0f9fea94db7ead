//! The meaning of expressions: what evaluating an expression in an
//! environment gives, and what the environment is afterwards.
//!
//! An environment holds all its frames by number. A function refers to the
//! frame it was made in, and a call makes a fresh frame below that frame, in
//! the environment as it is at the call: what is bound in a frame after a
//! function was made in it is seen by the function, itself included.
//!
//! Evaluation is bounded by a depth: each nested evaluation or application
//! takes one from it, and an evaluation that runs out of depth ends in a
//! runtime error. This makes the meaning of every expression, also of one
//! that would otherwise run forever, a total function.

use vstd::prelude::*;
use crate::evaluator::print::value_text;
use crate::evaluator::value::{
    equal_values, list_items, list_value, EnvView, EvalErrorView, PrimitiveFn, ValueView,
};
use crate::parser::ast::{AtomView, SexprView};
use crate::text::{int_text, nat_text};

verus! {

/// What an evaluation gives: a value or an error, and the environment as the
/// evaluation left it.
pub struct Outcome {
    pub result: Result<ValueView, EvalErrorView>,
    pub env: EnvView,
}

/// What evaluating a sequence of arguments gives.
pub struct ArgsOutcome {
    pub result: Result<Seq<ValueView>, EvalErrorView>,
    pub env: EnvView,
}

/// What computing the keys of rows gives.
pub struct KeysOutcome {
    pub result: Result<Seq<Seq<char>>, EvalErrorView>,
    pub env: EnvView,
}

/// Every value counts as true but the boolean false and the empty list.
pub open spec fn is_truthy(v: ValueView) -> bool {
    !(v is Nil) && v != ValueView::Bool(false)
}

/// The error of an evaluation that ran out of depth.
pub open spec fn depth_error() -> EvalErrorView {
    EvalErrorView::RuntimeError("evaluation depth limit exceeded"@)
}

/// The error of a function that refers to a frame which the environment
/// it is applied in does not have.
pub open spec fn frame_error() -> EvalErrorView {
    EvalErrorView::RuntimeError("function refers to a frame that the environment does not have"@)
}

/// The error of a wrong number of arguments.
pub open spec fn arity_error(expected: Seq<char>, got: nat) -> EvalErrorView {
    EvalErrorView::ArityError { expected, got }
}

/// The name of an expression that is a symbol.
pub open spec fn symbol_name(e: SexprView) -> Option<Seq<char>> {
    match e {
        SexprView::Atom(AtomView::Symbol(s)) => Some(s),
        _ => None,
    }
}

/// Whether the first of `items` is the symbol `word`.
pub open spec fn head_is(items: Seq<SexprView>, word: Seq<char>) -> bool {
    items.len() > 0 && symbol_name(items[0]) == Some(word)
}

/// The names of a sequence of symbols, or `None` where one of the
/// expressions is no symbol.
pub open spec fn symbol_names(ps: Seq<SexprView>) -> Option<Seq<Seq<char>>> {
    if forall|i: int| 0 <= i < ps.len() ==> symbol_name(#[trigger] ps[i]) is Some {
        Some(Seq::new(ps.len(), |i: int| symbol_name(ps[i]).unwrap()))
    } else {
        None
    }
}

/// The parameter names that the parameter list of a `lambda` gives: the empty
/// list gives none, a list of symbols their names, anything else is refused.
pub open spec fn lambda_params(e: SexprView) -> Option<Seq<Seq<char>>> {
    match e {
        SexprView::Atom(AtomView::Nil) => Some(Seq::empty()),
        SexprView::List(ps) => symbol_names(ps),
        _ => None,
    }
}

/// The value that a quoted atom stands for.
pub open spec fn quote_atom(a: AtomView) -> ValueView {
    match a {
        AtomView::Nil => ValueView::Nil,
        AtomView::Symbol(s) => ValueView::Symbol(s),
        AtomView::Number(n) => ValueView::Number(n),
        AtomView::String(s) => ValueView::String(s),
    }
}

/// The value that a quoted expression stands for, nothing in it evaluated:
/// atoms become atoms, a list becomes a chain of pairs that ends in the empty
/// list, a dotted list one that ends in the value of its tail.
pub open spec fn quote_value(e: SexprView) -> ValueView
    decreases e, 0nat,
{
    match e {
        SexprView::Atom(a) => quote_atom(a),
        SexprView::List(items) => quote_items(items, 0, ValueView::Nil),
        SexprView::DottedList(items, tail) => quote_items(items, 0, quote_value(*tail)),
    }
}

/// The chain of pairs of the quoted `items[from..]`, ending in `tail`.
pub open spec fn quote_items(items: Seq<SexprView>, from: int, tail: ValueView) -> ValueView
    decreases items, items.len() - from,
{
    if from < 0 || from >= items.len() {
        tail
    } else {
        ValueView::Cons(
            Box::new(quote_value(items[from])),
            Box::new(quote_items(items, from + 1, tail)),
        )
    }
}

/// The frame in which the first `n` parameters are bound to their arguments,
/// one after another.
pub open spec fn bind_params(
    env: EnvView,
    params: Seq<Seq<char>>,
    args: Seq<ValueView>,
    n: nat,
) -> EnvView
    decreases n,
{
    if n == 0 || n > params.len() || n > args.len() {
        env
    } else {
        bind_params(env, params, args, (n - 1) as nat).define(params[n - 1], args[n - 1])
    }
}

/// The text that a grouping key stands for: a string or a symbol by its
/// text, a number by its decimal digits. No other value is a key.
pub open spec fn key_text(v: ValueView) -> Option<Seq<char>> {
    match v {
        ValueView::String(s) => Some(s),
        ValueView::Symbol(s) => Some(s),
        ValueView::Number(n) => Some(int_text(n)),
        _ => None,
    }
}

/// The distinct keys among `keys`, each at the place of its first occurrence.
pub open spec fn first_keys(keys: Seq<Seq<char>>) -> Seq<Seq<char>>
    decreases keys.len(),
{
    if keys.len() == 0 {
        Seq::empty()
    } else {
        let before = first_keys(keys.drop_last());
        if before.contains(keys.last()) {
            before
        } else {
            before.push(keys.last())
        }
    }
}

/// Those of the first `n` rows whose key is `key`, in their order.
pub open spec fn rows_of_key(
    rows: Seq<ValueView>,
    keys: Seq<Seq<char>>,
    key: Seq<char>,
    n: nat,
) -> Seq<ValueView>
    decreases n,
{
    if n == 0 || n > rows.len() || n > keys.len() {
        Seq::empty()
    } else {
        let before = rows_of_key(rows, keys, key, (n - 1) as nat);
        if keys[n - 1] == key {
            before.push(rows[n - 1])
        } else {
            before
        }
    }
}

/// A group: a key and the rows that have it.
pub struct Group {
    pub key: Seq<char>,
    pub rows: Seq<ValueView>,
}

/// The groups of `rows` by `keys`, where `keys[i]` is the key of `rows[i]`:
/// one group for each distinct key, in the order in which the keys first
/// occur, each with its rows in the order of the table.
pub open spec fn group_rows(rows: Seq<ValueView>, keys: Seq<Seq<char>>) -> Seq<Group> {
    let firsts = first_keys(keys);
    Seq::new(
        firsts.len(),
        |i: int| Group { key: firsts[i], rows: rows_of_key(rows, keys, firsts[i], rows.len()) },
    )
}

/// The pair that a group is returned as: its key as a string, and the list
/// of its rows.
pub open spec fn group_value(g: Group) -> ValueView {
    ValueView::Cons(
        Box::new(ValueView::String(g.key)),
        Box::new(list_value(g.rows, 0, ValueView::Nil)),
    )
}

/// The association list that groups are returned as.
pub open spec fn groups_value(groups: Seq<Group>) -> ValueView {
    list_value(Seq::new(groups.len(), |i: int| group_value(groups[i])), 0, ValueView::Nil)
}

/// `cons a b`: the pair of `a` and `b`.
pub open spec fn cons_spec(args: Seq<ValueView>) -> Result<ValueView, EvalErrorView> {
    if args.len() != 2 {
        Err(arity_error("2"@, args.len()))
    } else {
        Ok(ValueView::Cons(Box::new(args[0]), Box::new(args[1])))
    }
}

/// `car p`: the first part of a pair.
pub open spec fn car_spec(args: Seq<ValueView>) -> Result<ValueView, EvalErrorView> {
    if args.len() != 1 {
        Err(arity_error("1"@, args.len()))
    } else {
        match args[0] {
            ValueView::Cons(a, _) => Ok(*a),
            _ => Err(EvalErrorView::TypeError("car requires a cons cell"@)),
        }
    }
}

/// `cdr p`: the second part of a pair.
pub open spec fn cdr_spec(args: Seq<ValueView>) -> Result<ValueView, EvalErrorView> {
    if args.len() != 1 {
        Err(arity_error("1"@, args.len()))
    } else {
        match args[0] {
            ValueView::Cons(_, d) => Ok(*d),
            _ => Err(EvalErrorView::TypeError("cdr requires a cons cell"@)),
        }
    }
}

/// `null? v`: whether `v` is the empty list.
pub open spec fn null_spec(args: Seq<ValueView>) -> Result<ValueView, EvalErrorView> {
    if args.len() != 1 {
        Err(arity_error("1"@, args.len()))
    } else {
        Ok(ValueView::Bool(args[0] is Nil))
    }
}

/// `equal? a b`: whether `a` and `b` are structurally equal.
pub open spec fn equal_spec(args: Seq<ValueView>) -> Result<ValueView, EvalErrorView> {
    if args.len() != 2 {
        Err(arity_error("2"@, args.len()))
    } else {
        Ok(ValueView::Bool(equal_values(args[0], args[1])))
    }
}

/// The first pair of `alist` whose first part equals `key`, or the empty list
/// where the list ends before one is found. An element met on the way that
/// is no pair, or a tail that is no list, is a type error.
pub open spec fn assoc_scan(key: ValueView, alist: ValueView) -> Result<ValueView, EvalErrorView>
    decreases alist,
{
    match alist {
        ValueView::Nil => Ok(ValueView::Nil),
        ValueView::Cons(item, rest) => match *item {
            ValueView::Cons(k, _) => if equal_values(key, *k) {
                Ok(*item)
            } else {
                assoc_scan(key, *rest)
            },
            _ => Err(EvalErrorView::TypeError("assoc requires a list of pairs"@)),
        },
        _ => Err(EvalErrorView::TypeError("assoc requires a proper list"@)),
    }
}

/// `assoc key alist`: looks `key` up in an association list.
pub open spec fn assoc_spec(args: Seq<ValueView>) -> Result<ValueView, EvalErrorView> {
    if args.len() != 2 {
        Err(arity_error("2"@, args.len()))
    } else {
        assoc_scan(args[0], args[1])
    }
}

/// The keys with one more key put in front.
pub open spec fn prepend_key(key: Seq<char>, rest: KeysOutcome) -> KeysOutcome {
    match rest.result {
        Ok(keys) => KeysOutcome { result: Ok(seq![key] + keys), env: rest.env },
        Err(e) => rest,
    }
}

/// The result of a sequence of values with one more value put in front.
pub open spec fn prepend_value(v: ValueView, rest: ArgsOutcome) -> ArgsOutcome {
    match rest.result {
        Ok(vs) => ArgsOutcome { result: Ok(seq![v] + vs), env: rest.env },
        Err(e) => rest,
    }
}

/// The value of an expression in an environment, and the environment
/// afterwards.
///
/// An atom stands for itself, but for a symbol, which stands for what the
/// environment binds it to. A list whose head is one of the symbols `quote`,
/// `define`, `lambda` and `if` is a special form; any other list is a call:
/// its head and then its arguments are evaluated, from left to right, and
/// the head's value is applied to the arguments' values. The empty list
/// stands for itself. A dotted list builds a chain of pairs from its
/// evaluated parts. The first error ends the evaluation.
pub open spec fn eval_spec(e: SexprView, env: EnvView, fuel: nat) -> Outcome
    decreases fuel, 3nat, 0nat,
{
    if fuel == 0 {
        Outcome { result: Err(depth_error()), env }
    } else {
        match e {
            SexprView::Atom(AtomView::Symbol(name)) => match env.get(name) {
                Some(v) => Outcome { result: Ok(v), env },
                None => Outcome { result: Err(EvalErrorView::UndefinedVariable(name)), env },
            },
            SexprView::Atom(a) => Outcome { result: Ok(quote_atom(a)), env },
            SexprView::DottedList(head, tail) => eval_dotted(head, *tail, env, fuel),
            SexprView::List(items) => if items.len() == 0 {
                Outcome { result: Ok(ValueView::Nil), env }
            } else if head_is(items, "quote"@) {
                eval_quote(items, env)
            } else if head_is(items, "define"@) {
                eval_define(items, env, fuel)
            } else if head_is(items, "lambda"@) {
                eval_lambda(items, env)
            } else if head_is(items, "if"@) {
                eval_if(items, env, fuel)
            } else {
                eval_call(items, env, fuel)
            },
        }
    }
}

/// `(quote x)`: the value that `x` stands for, unevaluated. Takes exactly
/// one argument.
pub open spec fn eval_quote(items: Seq<SexprView>, env: EnvView) -> Outcome {
    if items.len() != 2 {
        Outcome { result: Err(arity_error("1"@, (items.len() - 1) as nat)), env }
    } else {
        Outcome { result: Ok(quote_value(items[1])), env }
    }
}

/// `(define name x)`: evaluates `x`, binds `name` to its value in the current
/// frame, and gives that value. Takes exactly two arguments, the first of
/// them a symbol.
pub open spec fn eval_define(items: Seq<SexprView>, env: EnvView, fuel: nat) -> Outcome
    decreases fuel, 2nat, 0nat,
{
    if items.len() != 3 {
        Outcome { result: Err(arity_error("2"@, (items.len() - 1) as nat)), env }
    } else if fuel == 0 {
        Outcome { result: Err(depth_error()), env }
    } else {
        match symbol_name(items[1]) {
            None => Outcome {
                result: Err(
                    EvalErrorView::TypeError("define requires a symbol as its first argument"@),
                ),
                env,
            },
            Some(name) => {
                let r = eval_spec(items[2], env, (fuel - 1) as nat);
                match r.result {
                    Ok(v) => Outcome { result: Ok(v), env: r.env.define(name, v) },
                    Err(_) => r,
                }
            },
        }
    }
}

/// `(lambda (p ...) body ...)`: a function of the parameters `p ...` whose
/// body is the expressions that follow, closed over the current frame: the
/// function refers to the frame itself, and so sees what is bound in it
/// when the function is called, not when it was made. Takes at least two
/// arguments, the first of them a list of symbols.
pub open spec fn eval_lambda(items: Seq<SexprView>, env: EnvView) -> Outcome {
    if items.len() < 3 {
        Outcome { result: Err(arity_error("at least 2"@, (items.len() - 1) as nat)), env }
    } else {
        match lambda_params(items[1]) {
            None => Outcome {
                result: Err(
                    EvalErrorView::TypeError("lambda requires a list of symbols as parameters"@),
                ),
                env,
            },
            Some(params) => Outcome {
                result: Ok(
                    ValueView::Lambda {
                        params,
                        body: items.subrange(2, items.len() as int),
                        closure: env.current,
                    },
                ),
                env,
            },
        }
    }
}

/// `(if test then else)`: evaluates `test`, and then `then` where its value
/// counts as true, `else` where it does not; never both. Takes exactly three
/// arguments.
pub open spec fn eval_if(items: Seq<SexprView>, env: EnvView, fuel: nat) -> Outcome
    decreases fuel, 2nat, 0nat,
{
    if items.len() != 4 {
        Outcome { result: Err(arity_error("3"@, (items.len() - 1) as nat)), env }
    } else if fuel == 0 {
        Outcome { result: Err(depth_error()), env }
    } else {
        let t = eval_spec(items[1], env, (fuel - 1) as nat);
        match t.result {
            Ok(v) => if is_truthy(v) {
                eval_spec(items[2], t.env, (fuel - 1) as nat)
            } else {
                eval_spec(items[3], t.env, (fuel - 1) as nat)
            },
            Err(_) => t,
        }
    }
}

/// A call: the head is evaluated, then the arguments from left to right, and
/// the head's value is applied to the arguments' values.
pub open spec fn eval_call(items: Seq<SexprView>, env: EnvView, fuel: nat) -> Outcome
    decreases fuel, 2nat, 0nat,
{
    if fuel == 0 {
        Outcome { result: Err(depth_error()), env }
    } else {
        let f = eval_spec(items[0], env, (fuel - 1) as nat);
        match f.result {
            Ok(fv) => {
                let a = eval_args(items, 1, f.env, (fuel - 1) as nat);
                match a.result {
                    Ok(argv) => apply_spec(fv, argv, a.env, (fuel - 1) as nat),
                    Err(e) => Outcome { result: Err(e), env: a.env },
                }
            },
            Err(_) => f,
        }
    }
}

/// The values of `items[from..]`, evaluated from left to right, each in the
/// environment that the one before it left.
pub open spec fn eval_args(items: Seq<SexprView>, from: int, env: EnvView, fuel: nat) -> ArgsOutcome
    decreases fuel, 4nat, items.len() - from,
{
    if from < 0 || from >= items.len() {
        ArgsOutcome { result: Ok(Seq::empty()), env }
    } else {
        let h = eval_spec(items[from], env, fuel);
        match h.result {
            Ok(v) => prepend_value(v, eval_args(items, from + 1, h.env, fuel)),
            Err(e) => ArgsOutcome { result: Err(e), env: h.env },
        }
    }
}

/// A dotted list: the tail is evaluated first, then the head elements from
/// the last to the first, each put in front of what has been built.
pub open spec fn eval_dotted(head: Seq<SexprView>, tail: SexprView, env: EnvView, fuel: nat) -> Outcome
    decreases fuel, 2nat, 0nat,
{
    if fuel == 0 {
        Outcome { result: Err(depth_error()), env }
    } else {
        let t = eval_spec(tail, env, (fuel - 1) as nat);
        match t.result {
            Ok(tv) => eval_dotted_head(head, head.len(), tv, t.env, (fuel - 1) as nat),
            Err(_) => t,
        }
    }
}

/// The chain of pairs built from the first `n` head elements of a dotted
/// list, evaluated from the last to the first, in front of `acc`.
pub open spec fn eval_dotted_head(
    head: Seq<SexprView>,
    n: nat,
    acc: ValueView,
    env: EnvView,
    fuel: nat,
) -> Outcome
    decreases fuel, 4nat, n,
{
    if n == 0 || n > head.len() {
        Outcome { result: Ok(acc), env }
    } else {
        let h = eval_spec(head[n - 1], env, fuel);
        match h.result {
            Ok(v) => eval_dotted_head(
                head,
                (n - 1) as nat,
                ValueView::Cons(Box::new(v), Box::new(acc)),
                h.env,
                fuel,
            ),
            Err(_) => h,
        }
    }
}

/// The expressions `body[from..]` evaluated in order: the value of the last
/// one, or `last` where there is none.
pub open spec fn eval_body(
    body: Seq<SexprView>,
    from: int,
    last: ValueView,
    env: EnvView,
    fuel: nat,
) -> Outcome
    decreases fuel, 4nat, body.len() - from,
{
    if from < 0 || from >= body.len() {
        Outcome { result: Ok(last), env }
    } else {
        let r = eval_spec(body[from], env, fuel);
        match r.result {
            Ok(v) => eval_body(body, from + 1, v, r.env, fuel),
            Err(_) => r,
        }
    }
}

/// A function applied to arguments in an environment.
///
/// A built-in function does what it is for. A user-defined function takes
/// exactly as many arguments as it has parameters; its body is evaluated in a
/// fresh frame below the frame it was made in, with the parameters bound to
/// the arguments, and the value of the last body expression is the result.
/// The fresh frame stays in the environment, for the functions made in it;
/// the current frame is afterwards the one it was before. Any other value
/// cannot be applied.
pub open spec fn apply_spec(f: ValueView, args: Seq<ValueView>, env: EnvView, fuel: nat) -> Outcome
    decreases fuel, 3nat, 0nat,
{
    if fuel == 0 {
        Outcome { result: Err(depth_error()), env }
    } else {
        match f {
            ValueView::Primitive(p) => builtin_spec(p, args, env, (fuel - 1) as nat),
            ValueView::Lambda { params, body, closure } => if params.len() != args.len() {
                Outcome { result: Err(arity_error(nat_text(params.len()), args.len())), env }
            } else if !env.has_frame(closure) {
                Outcome { result: Err(frame_error()), env }
            } else {
                let r = eval_body(
                    body,
                    0,
                    ValueView::Nil,
                    bind_params(env.child_of(closure), params, args, params.len()),
                    (fuel - 1) as nat,
                );
                Outcome { result: r.result, env: r.env.at(env.current) }
            },
            _ => Outcome {
                result: Err(
                    EvalErrorView::TypeError("Cannot apply non-function: "@ + value_text(f)),
                ),
                env,
            },
        }
    }
}

/// What a built-in function gives for its arguments. Only `group-by`, which
/// applies a function, can change the environment.
pub open spec fn builtin_spec(p: PrimitiveFn, args: Seq<ValueView>, env: EnvView, fuel: nat) -> Outcome
    decreases fuel, 6nat, 0nat,
{
    match p {
        PrimitiveFn::Cons => Outcome { result: cons_spec(args), env },
        PrimitiveFn::Car => Outcome { result: car_spec(args), env },
        PrimitiveFn::Cdr => Outcome { result: cdr_spec(args), env },
        PrimitiveFn::Null => Outcome { result: null_spec(args), env },
        PrimitiveFn::Equal => Outcome { result: equal_spec(args), env },
        PrimitiveFn::Assoc => Outcome { result: assoc_spec(args), env },
        PrimitiveFn::GroupBy => group_by_spec(args, env, fuel),
    }
}

/// `group-by table key-fn`: applies `key-fn` to each element of the proper
/// list `table`, in order, and groups the elements by the text of their
/// keys. Gives an association list of one pair per group, the key as a
/// string and the list of the group's elements.
pub open spec fn group_by_spec(args: Seq<ValueView>, env: EnvView, fuel: nat) -> Outcome
    decreases fuel, 5nat, 0nat,
{
    if args.len() != 2 {
        Outcome { result: Err(arity_error("2"@, args.len())), env }
    } else {
        match list_items(args[0]) {
            None => Outcome {
                result: Err(EvalErrorView::TypeError("group-by requires a proper list as table"@)),
                env,
            },
            Some(rows) => {
                let k = group_keys(args[1], rows, 0, env, fuel);
                match k.result {
                    Ok(keys) => Outcome {
                        result: Ok(groups_value(group_rows(rows, keys))),
                        env: k.env,
                    },
                    Err(e) => Outcome { result: Err(e), env: k.env },
                }
            },
        }
    }
}

/// The keys of `rows[from..]` under the key function `f`, in order, each
/// computed in the environment that the one before it left. The first row
/// whose key cannot be computed, or is no string, symbol or number, ends it
/// with an error.
pub open spec fn group_keys(
    f: ValueView,
    rows: Seq<ValueView>,
    from: int,
    env: EnvView,
    fuel: nat,
) -> KeysOutcome
    decreases fuel, 4nat, rows.len() - from,
{
    if from < 0 || from >= rows.len() {
        KeysOutcome { result: Ok(Seq::empty()), env }
    } else {
        let a = apply_spec(f, seq![rows[from]], env, fuel);
        match a.result {
            Ok(k) => match key_text(k) {
                Some(t) => prepend_key(t, group_keys(f, rows, from + 1, a.env, fuel)),
                None => KeysOutcome {
                    result: Err(
                        EvalErrorView::TypeError(
                            "group-by key must be string, symbol, or number"@,
                        ),
                    ),
                    env: a.env,
                },
            },
            Err(e) => KeysOutcome { result: Err(e), env: a.env },
        }
    }
}

/// The global environment: one frame that binds the built-in functions.
pub open spec fn global_env() -> EnvView {
    EnvView::empty().define("cons"@, ValueView::Primitive(PrimitiveFn::Cons)).define(
        "car"@,
        ValueView::Primitive(PrimitiveFn::Car),
    ).define("cdr"@, ValueView::Primitive(PrimitiveFn::Cdr)).define(
        "null?"@,
        ValueView::Primitive(PrimitiveFn::Null),
    ).define("equal?"@, ValueView::Primitive(PrimitiveFn::Equal)).define(
        "assoc"@,
        ValueView::Primitive(PrimitiveFn::Assoc),
    ).define("group-by"@, ValueView::Primitive(PrimitiveFn::GroupBy))
}

} // verus!
