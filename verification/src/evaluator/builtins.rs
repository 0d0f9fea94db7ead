//! The built-in functions and the global environment that binds them.

use vstd::prelude::*;
use std::rc::Rc;
use crate::evaluator::eval::{apply_bounded, outcome, MAX_DEPTH};
use crate::evaluator::semantics::{
    arity_error, assoc_scan, assoc_spec, car_spec, cdr_spec, cons_spec, equal_spec, first_keys,
    global_env, group_by_spec, group_keys, group_rows, group_value, groups_value, key_text,
    null_spec, rows_of_key, KeysOutcome,
};
use crate::evaluator::value::{
    list_items, list_to_vec, list_value, result_view, strings_view, values_equal, values_view,
    vec_to_list, Environment, EvalError, EvalErrorView, PrimitiveFn, Value, ValueView,
};
use crate::text::int_to_string;

verus! {

/// The global environment: one frame that binds the built-in functions.
pub fn create_global_env() -> (env: Environment)
    ensures
        env@ == global_env(),
{
    let mut env = Environment::new();
    env.define("cons".to_owned(), Value::Primitive(PrimitiveFn::Cons));
    env.define("car".to_owned(), Value::Primitive(PrimitiveFn::Car));
    env.define("cdr".to_owned(), Value::Primitive(PrimitiveFn::Cdr));
    env.define("null?".to_owned(), Value::Primitive(PrimitiveFn::Null));
    env.define("equal?".to_owned(), Value::Primitive(PrimitiveFn::Equal));
    env.define("assoc".to_owned(), Value::Primitive(PrimitiveFn::Assoc));
    env.define("group-by".to_owned(), Value::Primitive(PrimitiveFn::GroupBy));
    env
}

/// The error of a call with `got` arguments where `expected` says how many
/// are taken.
pub fn wrong_arity(expected: &str, got: usize) -> (e: EvalError)
    ensures
        e@ == arity_error(expected@, got as nat),
{
    EvalError::ArityError { expected: expected.to_owned(), got }
}

/// `(cons a b)`: the pair of `a` and `b`.
pub fn builtin_cons(args: &[Value], env: &mut Environment) -> (r: Result<Value, EvalError>)
    ensures
        result_view(r) == cons_spec(values_view(args@)),
        *final(env) == *old(env),
{
    if args.len() != 2 {
        return Err(wrong_arity("2", args.len()));
    }
    Ok(Value::Cons(Rc::new(args[0].clone()), Rc::new(args[1].clone())))
}

/// `(car p)`: the first part of the pair `p`.
pub fn builtin_car(args: &[Value], env: &mut Environment) -> (r: Result<Value, EvalError>)
    ensures
        result_view(r) == car_spec(values_view(args@)),
        *final(env) == *old(env),
{
    if args.len() != 1 {
        return Err(wrong_arity("1", args.len()));
    }
    match &args[0] {
        Value::Cons(a, _) => Ok((**a).clone()),
        _ => Err(EvalError::TypeError("car requires a cons cell".to_owned())),
    }
}

/// `(cdr p)`: the second part of the pair `p`.
pub fn builtin_cdr(args: &[Value], env: &mut Environment) -> (r: Result<Value, EvalError>)
    ensures
        result_view(r) == cdr_spec(values_view(args@)),
        *final(env) == *old(env),
{
    if args.len() != 1 {
        return Err(wrong_arity("1", args.len()));
    }
    match &args[0] {
        Value::Cons(_, d) => Ok((**d).clone()),
        _ => Err(EvalError::TypeError("cdr requires a cons cell".to_owned())),
    }
}

/// `(null? v)`: whether `v` is the empty list.
pub fn builtin_null(args: &[Value], env: &mut Environment) -> (r: Result<Value, EvalError>)
    ensures
        result_view(r) == null_spec(values_view(args@)),
        *final(env) == *old(env),
{
    if args.len() != 1 {
        return Err(wrong_arity("1", args.len()));
    }
    match &args[0] {
        Value::Nil => Ok(Value::Bool(true)),
        _ => Ok(Value::Bool(false)),
    }
}

/// `(equal? a b)`: whether `a` and `b` are structurally equal.
pub fn builtin_equal(args: &[Value], env: &mut Environment) -> (r: Result<Value, EvalError>)
    ensures
        result_view(r) == equal_spec(values_view(args@)),
        *final(env) == *old(env),
{
    if args.len() != 2 {
        return Err(wrong_arity("2", args.len()));
    }
    Ok(Value::Bool(values_equal(&args[0], &args[1])))
}

/// `(assoc key alist)`: the first pair of the association list `alist` whose
/// first part equals `key`, or the empty list where there is none.
pub fn builtin_assoc(args: &[Value], env: &mut Environment) -> (r: Result<Value, EvalError>)
    ensures
        result_view(r) == assoc_spec(values_view(args@)),
        *final(env) == *old(env),
{
    if args.len() != 2 {
        return Err(wrong_arity("2", args.len()));
    }
    let key = &args[0];
    let mut current: &Value = &args[1];
    loop
        invariant
            args.len() == 2,
            key@ == values_view(args@)[0],
            assoc_scan(key@, current@) == assoc_scan(key@, values_view(args@)[1]),
        decreases current,
    {
        match current {
            Value::Nil => {
                return Ok(Value::Nil);
            },
            Value::Cons(item, rest) => {
                match &**item {
                    Value::Cons(k, _) => {
                        if values_equal(key, &**k) {
                            return Ok((**item).clone());
                        }
                    },
                    _ => {
                        return Err(
                            EvalError::TypeError("assoc requires a list of pairs".to_owned()),
                        );
                    },
                }
                current = &**rest;
            },
            _ => {
                return Err(EvalError::TypeError("assoc requires a proper list".to_owned()));
            },
        }
    }
}

/// The text that a grouping key stands for; a type error for a value that is
/// no string, symbol or number.
pub fn value_to_string(value: &Value) -> (r: Result<String, EvalError>)
    ensures
        match key_text(value@) {
            Some(t) => r is Ok && r.unwrap()@ == t,
            None => r is Err && r->Err_0@ == EvalErrorView::TypeError(
                "group-by key must be string, symbol, or number"@,
            ),
        },
{
    match value {
        Value::String(s) => Ok(s.clone()),
        Value::Symbol(s) => Ok(s.clone()),
        Value::Number(n) => Ok(int_to_string(*n)),
        _ => Err(
            EvalError::TypeError("group-by key must be string, symbol, or number".to_owned()),
        ),
    }
}

/// Whether `key` is among `keys`.
fn has_key(keys: &Vec<String>, key: &String) -> (b: bool)
    ensures
        b == strings_view(keys@).contains(key@),
{
    let mut i: usize = 0;
    while i < keys.len()
        invariant
            i <= keys.len(),
            forall|j: int| 0 <= j < i ==> strings_view(keys@)[j] != key@,
        decreases keys.len() - i,
    {
        if keys[i] == *key {
            assert(strings_view(keys@)[i as int] == key@);
            return true;
        }
        i += 1;
    }
    false
}

/// The distinct keys among `keys`, each at the place of its first occurrence.
pub fn distinct_keys(keys: &Vec<String>) -> (r: Vec<String>)
    ensures
        strings_view(r@) == first_keys(strings_view(keys@)),
{
    let ghost ks = strings_view(keys@);
    let mut out: Vec<String> = Vec::new();
    let mut i: usize = 0;
    assert(ks.take(0) =~= Seq::<Seq<char>>::empty());
    assert(strings_view(out@) =~= first_keys(ks.take(0)));
    while i < keys.len()
        invariant
            i <= keys.len(),
            ks == strings_view(keys@),
            strings_view(out@) == first_keys(ks.take(i as int)),
        decreases keys.len() - i,
    {
        proof {
            assert(ks.take(i + 1).drop_last() =~= ks.take(i as int));
            assert(ks.take(i + 1).last() == keys[i as int]@);
        }
        if !has_key(&out, &keys[i]) {
            let ghost before = strings_view(out@);
            out.push(keys[i].clone());
            assert(strings_view(out@) =~= before.push(keys[i as int]@));
        }
        i += 1;
    }
    assert(ks.take(keys.len() as int) =~= ks);
    out
}

/// The list of those rows whose key is `key`, in their order. `keys[i]` is
/// the key of `rows[i]`.
pub(crate) fn rows_with_key(rows: &Vec<Value>, keys: &Vec<String>, key: &String) -> (r: Vec<Value>)
    requires
        rows.len() == keys.len(),
    ensures
        values_view(r@) == rows_of_key(
            values_view(rows@),
            strings_view(keys@),
            key@,
            rows.len() as nat,
        ),
{
    let mut out: Vec<Value> = Vec::new();
    let mut i: usize = 0;
    assert(values_view(out@) =~= Seq::<ValueView>::empty());
    while i < rows.len()
        invariant
            i <= rows.len(),
            rows.len() == keys.len(),
            values_view(out@) == rows_of_key(
                values_view(rows@),
                strings_view(keys@),
                key@,
                i as nat,
            ),
        decreases rows.len() - i,
    {
        if keys[i] == *key {
            let ghost before = values_view(out@);
            out.push(rows[i].clone());
            assert(values_view(out@) =~= before.push(rows[i as int]@));
        }
        i += 1;
    }
    out
}

/// Groups `rows` by `keys`, where `keys[i]` is the key of `rows[i]`, and
/// gives the groups as an association list: one pair for each distinct key,
/// in the order in which the keys first occur, of the key as a string and
/// the list of the rows that have it, in the order of the table.
pub(crate) fn group_by_keys(rows: &Vec<Value>, keys: &Vec<String>) -> (r: Value)
    requires
        rows.len() == keys.len(),
    ensures
        r@ == groups_value(group_rows(values_view(rows@), strings_view(keys@))),
{
    let firsts = distinct_keys(keys);
    let ghost groups = group_rows(values_view(rows@), strings_view(keys@));
    let ghost pairs = Seq::new(groups.len(), |i: int| group_value(groups[i]));
    let mut acc = Value::Nil;
    let mut i: usize = firsts.len();
    while i > 0
        invariant
            i <= firsts.len(),
            rows.len() == keys.len(),
            strings_view(firsts@) == first_keys(strings_view(keys@)),
            groups == group_rows(values_view(rows@), strings_view(keys@)),
            pairs == Seq::new(groups.len(), |i: int| group_value(groups[i])),
            acc@ == list_value(pairs, i as int, ValueView::Nil),
        decreases i,
    {
        i -= 1;
        let members = rows_with_key(rows, keys, &firsts[i]);
        let list = vec_to_list(&members, Value::Nil);
        let name = Value::String(firsts[i].clone());
        assert(name@ == ValueView::String(firsts[i as int]@));
        let pair = Value::Cons(Rc::new(name), Rc::new(list));
        proof {
            assert(strings_view(firsts@)[i as int] == firsts[i as int]@);
            assert(groups.len() == firsts.len());
            assert(groups[i as int].key == firsts[i as int]@);
            assert(groups[i as int].rows == values_view(members@));
            assert(pairs[i as int] == group_value(groups[i as int]));
            assert(pair@ == pairs[i as int]);
        }
        acc = Value::Cons(Rc::new(pair), Rc::new(acc));
    }
    acc
}

/// Keys with the keys `acc` put in front.
pub open spec fn prepend_keys(acc: Seq<Seq<char>>, rest: KeysOutcome) -> KeysOutcome {
    match rest.result {
        Ok(keys) => KeysOutcome { result: Ok(acc + keys), env: rest.env },
        Err(_) => rest,
    }
}

/// `(group-by table key-fn)`, with evaluation bounded by `depth`.
pub fn group_by_bounded(args: &[Value], env: &mut Environment, depth: usize) -> (r: Result<
    Value,
    EvalError,
>)
    ensures
        outcome(r, final(env)@) == group_by_spec(values_view(args@), old(env)@, depth as nat),
    decreases depth, 5nat, 0nat,
{
    if args.len() != 2 {
        return Err(wrong_arity("2", args.len()));
    }
    let rows = match list_to_vec(&args[0]) {
        Some(rows) => rows,
        None => {
            return Err(
                EvalError::TypeError("group-by requires a proper list as table".to_owned()),
            );
        },
    };
    let ghost f = args[1]@;
    let ghost rs = values_view(rows@);
    let ghost whole = group_keys(f, rs, 0, old(env)@, depth as nat);
    let mut keys: Vec<String> = Vec::new();
    let mut i: usize = 0;
    proof {
        assert(strings_view(keys@) =~= Seq::<Seq<char>>::empty());
        if whole.result is Ok {
            assert(strings_view(keys@) + whole.result->Ok_0 =~= whole.result->Ok_0);
        }
    }
    while i < rows.len()
        invariant
            i <= rows.len(),
            keys.len() == i,
            args.len() == 2,
            list_items(args[0]@) == Some(rs),
            f == args[1]@,
            rs == values_view(rows@),
            whole == group_keys(f, rs, 0, old(env)@, depth as nat),
            whole == prepend_keys(
                strings_view(keys@),
                group_keys(f, rs, i as int, env@, depth as nat),
            ),
        decreases rows.len() - i,
    {
        let mut one: Vec<Value> = Vec::new();
        one.push(rows[i].clone());
        assert(values_view(one@) =~= seq![rs[i as int]]);
        let key_value = match apply_bounded(&args[1], one.as_slice(), env, depth) {
            Ok(v) => v,
            Err(e) => {
                return Err(e);
            },
        };
        let key = match value_to_string(&key_value) {
            Ok(k) => k,
            Err(e) => {
                return Err(e);
            },
        };
        proof {
            let rest = group_keys(f, rs, i + 1, env@, depth as nat);
            if rest.result is Ok {
                assert(strings_view(keys@) + (seq![key@] + rest.result->Ok_0) =~= strings_view(
                    keys@.push(key),
                ) + rest.result->Ok_0);
            }
        }
        keys.push(key);
        i += 1;
    }
    assert(strings_view(keys@) + Seq::<Seq<char>>::empty() =~= strings_view(keys@));
    Ok(group_by_keys(&rows, &keys))
}

/// `(group-by table key-fn)`: groups the elements of the proper list `table`
/// by the key that the function `key-fn` gives for each.
pub fn builtin_group_by(args: &[Value], env: &mut Environment) -> (r: Result<Value, EvalError>)
    ensures
        outcome(r, final(env)@) == group_by_spec(
            values_view(args@),
            old(env)@,
            MAX_DEPTH as nat,
        ),
{
    group_by_bounded(args, env, MAX_DEPTH)
}

} // verus!
