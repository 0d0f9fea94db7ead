//! Laws of evaluation: facts that hold of every value, function and table.

use vstd::prelude::*;
use crate::evaluator::semantics::{
    apply_spec, bind_params, eval_args, eval_body, eval_dotted_head, eval_spec, first_keys,
    head_is, symbol_name, group_keys, group_rows, key_text, quote_items, quote_value,
    rows_of_key, Group, Outcome,
};
use crate::evaluator::value::{
    equal_values, list_items, EnvView, EvalErrorView, PrimitiveFn, ValueView,
};
use crate::parser::ast::{AtomView, SexprView};
use crate::text::nat_text;

verus! {

/// Whether a value is a function.
pub open spec fn is_function(v: ValueView) -> bool {
    v is Primitive || v is Lambda
}

/// Whether a value is data all through: no function in it.
pub open spec fn is_data(v: ValueView) -> bool
    decreases v,
{
    match v {
        ValueView::Cons(a, d) => is_data(*a) && is_data(*d),
        ValueView::Primitive(_) => false,
        ValueView::Lambda { .. } => false,
        _ => true,
    }
}

/// Equality of data is structural: two values without functions in them are
/// equal exactly when they are the same value.
pub proof fn lemma_equal_data(a: ValueView, b: ValueView)
    requires
        is_data(a),
        is_data(b),
    ensures
        equal_values(a, b) <==> a == b,
    decreases a,
{
    match (a, b) {
        (ValueView::Cons(a1, d1), ValueView::Cons(a2, d2)) => {
            lemma_equal_data(*a1, *a2);
            lemma_equal_data(*d1, *d2);
        },
        _ => {},
    }
}

/// A function is equal to nothing: not to another function, not to a copy
/// of itself.
pub proof fn lemma_function_never_equal(a: ValueView, b: ValueView)
    requires
        is_function(a) || is_function(b),
    ensures
        !equal_values(a, b),
{
}

/// A user-defined function called with another number of arguments than it
/// has parameters gives an arity error that tells both numbers, and leaves
/// the environment as it is.
pub proof fn lemma_arity_enforced(
    params: Seq<Seq<char>>,
    body: Seq<SexprView>,
    closure: nat,
    args: Seq<ValueView>,
    env: EnvView,
    fuel: nat,
)
    requires
        fuel > 0,
        params.len() != args.len(),
    ensures
        apply_spec(ValueView::Lambda { params, body, closure }, args, env, fuel) == (Outcome {
            result: Err(
                EvalErrorView::ArityError { expected: nat_text(params.len()), got: args.len() },
            ),
            env,
        }),
{
}

/// A function refers to the frame it was made in, not to a copy of it: what
/// is bound in that frame after the function was made is what the function
/// sees when it is called. Here the function of no parameters whose body is
/// the symbol `name`, made in the frame `closure`, gives the value that
/// `name` was bound to in that frame afterwards, from whatever frame it is
/// called.
pub proof fn lemma_function_sees_later_binding(
    env: EnvView,
    closure: nat,
    name: Seq<char>,
    value: ValueView,
    fuel: nat,
)
    requires
        env.has_frame(closure),
        fuel >= 2,
    ensures
        apply_spec(
            ValueView::Lambda {
                params: Seq::empty(),
                body: seq![SexprView::Atom(AtomView::Symbol(name))],
                closure,
            },
            Seq::empty(),
            env.at(closure).define(name, value).at(env.current),
            fuel,
        ).result == Ok::<ValueView, EvalErrorView>(value),
{
    let body = seq![SexprView::Atom(AtomView::Symbol(name))];
    let later = env.at(closure).define(name, value).at(env.current);
    let frame = bind_params(later.child_of(closure), Seq::empty(), Seq::empty(), 0);
    assert(frame == later.child_of(closure));
    assert(frame.lookup(closure, name) == Some(value));
    assert(frame.get(name) == Some(value));
    let first = eval_spec(body[0], frame, (fuel - 1) as nat);
    assert(first.result == Ok::<ValueView, EvalErrorView>(value));
    assert(eval_body(body, 1, value, first.env, (fuel - 1) as nat).result == Ok::<
        ValueView,
        EvalErrorView,
    >(value));
    assert(eval_body(body, 0, ValueView::Nil, frame, (fuel - 1) as nat).result == Ok::<
        ValueView,
        EvalErrorView,
    >(value));
}

/// The chain of pairs of quoted items that ends in a quoted list is the
/// chain of all the items together.
proof fn lemma_quote_items_append(
    head: Seq<SexprView>,
    tail: Seq<SexprView>,
    from: int,
)
    requires
        0 <= from <= head.len() + tail.len(),
    ensures
        quote_items(head + tail, from, ValueView::Nil) == if from < head.len() {
            quote_items(head, from, quote_items(tail, 0, ValueView::Nil))
        } else {
            quote_items(tail, from - head.len(), ValueView::Nil)
        },
    decreases head.len() + tail.len() - from,
{
    let all = head + tail;
    if from < all.len() {
        lemma_quote_items_append(head, tail, from + 1);
        if from < head.len() {
            assert(all[from] == head[from]);
        } else {
            assert(all[from] == tail[from - head.len()]);
        }
    }
}

/// A dotted list whose tail is a proper list stands, quoted, for the same
/// value as the proper list of all its elements: `(a . (b c))` is `(a b c)`.
pub proof fn lemma_dotted_list_collapses(head: Seq<SexprView>, tail: Seq<SexprView>)
    ensures
        quote_value(SexprView::DottedList(head, Box::new(SexprView::List(tail)))) == quote_value(
            SexprView::List(head + tail),
        ),
{
    lemma_quote_items_append(head, tail, 0);
    assert(quote_value(SexprView::List(tail)) == quote_items(tail, 0, ValueView::Nil));
    assert(quote_value(SexprView::List(head + tail)) == quote_items(
        head + tail,
        0,
        ValueView::Nil,
    ));
}

/// The environment in which `group-by` applies the key function `f` to the
/// row `from + i`, where it started on the row `from` in `env`: each
/// application leaves the environment for the next.
pub open spec fn env_at_row(
    f: ValueView,
    rows: Seq<ValueView>,
    from: int,
    i: nat,
    env: EnvView,
    fuel: nat,
) -> EnvView
    decreases i,
{
    if i == 0 {
        env
    } else {
        env_at_row(
            f,
            rows,
            from + 1,
            (i - 1) as nat,
            apply_spec(f, seq![rows[from]], env, fuel).env,
            fuel,
        )
    }
}

/// Whether the key function `f`, applied in `env`, gives a key of the text
/// `key` for `row`.
pub open spec fn maps_to_key(
    f: ValueView,
    fuel: nat,
    env: EnvView,
    row: ValueView,
    key: Seq<char>,
) -> bool {
    apply_spec(f, seq![row], env, fuel).result matches Ok(k) && key_text(k) == Some(key)
}

/// The keys that `group-by` computes are those of the rows, one by one: as
/// many keys as rows, each the text of what the key function gives for its
/// row.
pub proof fn lemma_group_keys(
    f: ValueView,
    rows: Seq<ValueView>,
    from: int,
    env: EnvView,
    fuel: nat,
    keys: Seq<Seq<char>>,
)
    requires
        0 <= from <= rows.len(),
        group_keys(f, rows, from, env, fuel).result == Ok::<Seq<Seq<char>>, EvalErrorView>(keys),
    ensures
        keys.len() == rows.len() - from,
        forall|i: int|
            0 <= i < keys.len() ==> maps_to_key(
                f,
                fuel,
                env_at_row(f, rows, from, i as nat, env, fuel),
                rows[from + i],
                #[trigger] keys[i],
            ),
    decreases rows.len() - from,
{
    if from < rows.len() {
        let a = apply_spec(f, seq![rows[from]], env, fuel);
        let rest = group_keys(f, rows, from + 1, a.env, fuel);
        lemma_group_keys(f, rows, from + 1, a.env, fuel, rest.result->Ok_0);
        assert forall|i: int| 0 <= i < keys.len() implies maps_to_key(
            f,
            fuel,
            env_at_row(f, rows, from, i as nat, env, fuel),
            rows[from + i],
            #[trigger] keys[i],
        ) by {
            if i > 0 {
                assert(keys[i] == rest.result->Ok_0[i - 1]);
                assert(rows[from + i] == rows[from + 1 + (i - 1)]);
                assert(env_at_row(f, rows, from, i as nat, env, fuel) == env_at_row(
                    f,
                    rows,
                    from + 1,
                    (i - 1) as nat,
                    a.env,
                    fuel,
                ));
            }
        }
    }
}

/// The number of rows in all of `groups` together.
pub open spec fn total_rows(groups: Seq<Group>) -> nat
    decreases groups.len(),
{
    if groups.len() == 0 {
        0
    } else {
        total_rows(groups.drop_last()) + groups.last().rows.len()
    }
}

/// The groups of the distinct keys `firsts` among the first `n` rows.
spec fn groups_upto(
    rows: Seq<ValueView>,
    keys: Seq<Seq<char>>,
    firsts: Seq<Seq<char>>,
    n: nat,
) -> Seq<Group> {
    Seq::new(
        firsts.len(),
        |i: int| Group { key: firsts[i], rows: rows_of_key(rows, keys, firsts[i], n) },
    )
}

/// The distinct keys are distinct, and they are the keys that occur.
proof fn lemma_first_keys(keys: Seq<Seq<char>>)
    ensures
        forall|i: int, j: int|
            0 <= i < j < first_keys(keys).len() ==> first_keys(keys)[i] != first_keys(keys)[j],
        forall|i: int| 0 <= i < keys.len() ==> first_keys(keys).contains(#[trigger] keys[i]),
        forall|j: int|
            0 <= j < first_keys(keys).len() ==> keys.contains(#[trigger] first_keys(keys)[j]),
    decreases keys.len(),
{
    if keys.len() > 0 {
        let front = keys.drop_last();
        lemma_first_keys(front);
        let before = first_keys(front);
        let firsts = first_keys(keys);
        assert forall|i: int| 0 <= i < keys.len() implies firsts.contains(#[trigger] keys[i]) by {
            if i < keys.len() - 1 {
                assert(front[i] == keys[i]);
                let j = choose|j: int| 0 <= j < before.len() && before[j] == front[i];
                assert(firsts[j] == keys[i]);
            } else {
                if before.contains(keys.last()) {
                } else {
                    assert(firsts[before.len() as int] == keys[i]);
                }
            }
        }
        assert forall|j: int| 0 <= j < firsts.len() implies keys.contains(
            #[trigger] firsts[j],
        ) by {
            if j < before.len() {
                let i = choose|i: int| 0 <= i < front.len() && front[i] == before[j];
                assert(keys[i] == firsts[j]);
            } else {
                assert(keys[keys.len() - 1] == firsts[j]);
            }
        }
    }
}

/// No row among the first `n` has a key that does not occur among the keys.
proof fn lemma_rows_of_absent_key(
    rows: Seq<ValueView>,
    keys: Seq<Seq<char>>,
    key: Seq<char>,
    n: nat,
)
    requires
        n <= rows.len(),
        n <= keys.len(),
        forall|i: int| 0 <= i < n ==> keys[i] != key,
    ensures
        rows_of_key(rows, keys, key, n).len() == 0,
    decreases n,
{
    if n > 0 {
        lemma_rows_of_absent_key(rows, keys, key, (n - 1) as nat);
    }
}

/// One more group adds its rows to the total.
proof fn lemma_total_rows_push(groups: Seq<Group>, g: Group)
    ensures
        total_rows(groups.push(g)) == total_rows(groups) + g.rows.len(),
{
    assert(groups.push(g).drop_last() =~= groups);
}

/// Groups that differ in one place, where one has a row more, have one row
/// more in total.
proof fn lemma_total_rows_grow(a: Seq<Group>, b: Seq<Group>, at: int)
    requires
        a.len() == b.len(),
        0 <= at < a.len(),
        forall|j: int| 0 <= j < a.len() && j != at ==> a[j].rows.len() == b[j].rows.len(),
        b[at].rows.len() == a[at].rows.len() + 1,
    ensures
        total_rows(b) == total_rows(a) + 1,
    decreases a.len(),
{
    if at == a.len() - 1 {
        lemma_total_rows_same(a.drop_last(), b.drop_last());
    } else {
        lemma_total_rows_grow(a.drop_last(), b.drop_last(), at);
    }
}

/// Groups of the same sizes have the same number of rows in total.
proof fn lemma_total_rows_same(a: Seq<Group>, b: Seq<Group>)
    requires
        a.len() == b.len(),
        forall|j: int| 0 <= j < a.len() ==> a[j].rows.len() == b[j].rows.len(),
    ensures
        total_rows(b) == total_rows(a),
    decreases a.len(),
{
    if a.len() > 0 {
        lemma_total_rows_same(a.drop_last(), b.drop_last());
    }
}

/// The groups of the first `n` rows hold `n` rows in all.
proof fn lemma_groups_total(rows: Seq<ValueView>, keys: Seq<Seq<char>>, n: nat)
    requires
        n <= rows.len(),
        n <= keys.len(),
    ensures
        total_rows(groups_upto(rows, keys, first_keys(keys.take(n as int)), n)) == n,
    decreases n,
{
    let firsts = first_keys(keys.take(n as int));
    if n == 0 {
        assert(keys.take(0).len() == 0);
    } else {
        let m = (n - 1) as nat;
        let key = keys[n - 1];
        let before = first_keys(keys.take(m as int));
        lemma_groups_total(rows, keys, m);
        lemma_first_keys(keys.take(m as int));
        assert(keys.take(n as int).drop_last() =~= keys.take(m as int));
        assert(keys.take(n as int).last() == key);
        let old_groups = groups_upto(rows, keys, before, m);
        let new_groups = groups_upto(rows, keys, firsts, n);
        if before.contains(key) {
            let at = choose|j: int| 0 <= j < before.len() && before[j] == key;
            lemma_total_rows_grow(old_groups, new_groups, at);
        } else {
            assert forall|i: int| 0 <= i < m implies keys[i] != key by {
                assert(keys.take(m as int)[i] == keys[i]);
                if keys[i] == key {
                    assert(before.contains(keys.take(m as int)[i]));
                }
            }
            lemma_rows_of_absent_key(rows, keys, key, m);
            let g = Group { key, rows: rows_of_key(rows, keys, key, n) };
            let kept = groups_upto(rows, keys, before, n);
            lemma_total_rows_same(old_groups, kept);
            assert(new_groups =~= kept.push(g));
            lemma_total_rows_push(kept, g);
        }
    }
}

/// Whether `v` is one of the first `n` rows and has the key `key`.
pub open spec fn is_row_with_key(
    rows: Seq<ValueView>,
    keys: Seq<Seq<char>>,
    key: Seq<char>,
    n: nat,
    v: ValueView,
) -> bool {
    exists|i: int| 0 <= i < n && i < rows.len() && i < keys.len() && keys[i] == key && rows[i] == v
}

/// Every row of a key's group among the first `n` is one of the rows that
/// have the key.
proof fn lemma_rows_of_key_members(
    rows: Seq<ValueView>,
    keys: Seq<Seq<char>>,
    key: Seq<char>,
    n: nat,
)
    requires
        n <= rows.len(),
        n <= keys.len(),
    ensures
        forall|j: int|
            0 <= j < rows_of_key(rows, keys, key, n).len() ==> is_row_with_key(
                rows,
                keys,
                key,
                n,
                #[trigger] rows_of_key(rows, keys, key, n)[j],
            ),
    decreases n,
{
    if n > 0 {
        let m = (n - 1) as nat;
        lemma_rows_of_key_members(rows, keys, key, m);
        let before = rows_of_key(rows, keys, key, m);
        let now = rows_of_key(rows, keys, key, n);
        assert forall|j: int| 0 <= j < now.len() implies is_row_with_key(
            rows,
            keys,
            key,
            n,
            #[trigger] now[j],
        ) by {
            if j < before.len() {
                assert(now[j] == before[j]);
                assert(is_row_with_key(rows, keys, key, m, before[j]));
                let i = choose|i: int|
                    0 <= i < m && i < rows.len() && i < keys.len() && keys[i] == key && rows[i]
                        == before[j];
                assert(0 <= i < n && keys[i] == key && rows[i] == now[j]);
            } else {
                assert(keys[n - 1] == key && rows[n - 1] == now[j]);
            }
        }
    }
}

/// Grouping partitions the rows: the groups hold as many rows in all as
/// there are rows, so none is dropped or taken twice; every row of a group
/// is a row whose key is the group's key; and no two groups have the same
/// key.
pub proof fn lemma_group_by_partitions(rows: Seq<ValueView>, keys: Seq<Seq<char>>)
    requires
        rows.len() == keys.len(),
    ensures
        total_rows(group_rows(rows, keys)) == rows.len(),
        forall|g: int, j: int|
            0 <= g < group_rows(rows, keys).len() && 0 <= j < group_rows(rows, keys)[g].rows.len()
                ==> is_row_with_key(
                rows,
                keys,
                group_rows(rows, keys)[g].key,
                rows.len(),
                #[trigger] group_rows(rows, keys)[g].rows[j],
            ),
        forall|g: int, h: int|
            0 <= g < h < group_rows(rows, keys).len() ==> group_rows(rows, keys)[g].key
                != group_rows(rows, keys)[h].key,
{
    let groups = group_rows(rows, keys);
    let n = rows.len();
    assert(keys.take(n as int) =~= keys);
    lemma_groups_total(rows, keys, n);
    assert(groups =~= groups_upto(rows, keys, first_keys(keys), n));
    lemma_first_keys(keys);
    assert forall|g: int, j: int|
        0 <= g < groups.len() && 0 <= j < groups[g].rows.len() implies is_row_with_key(
        rows,
        keys,
        groups[g].key,
        n,
        #[trigger] groups[g].rows[j],
    ) by {
        lemma_rows_of_key_members(rows, keys, groups[g].key, n);
    }
}

/// Whether `v` is a row of the table for which the key function `f`, at
/// its turn, gives a key of the text `key`.
pub open spec fn is_keyed_row(
    f: ValueView,
    rows: Seq<ValueView>,
    env: EnvView,
    fuel: nat,
    key: Seq<char>,
    v: ValueView,
) -> bool {
    exists|i: int|
        0 <= i < rows.len() && rows[i] == v && maps_to_key(
            f,
            fuel,
            env_at_row(f, rows, 0, i as nat, env, fuel),
            rows[i],
            key,
        )
}

/// `group-by` partitions its table: where the key function `f` gives a key
/// for every row, the groups hold as many rows in all as the table has, and
/// every row of a group is a row of the table for which `f` gives the key
/// of the group.
pub proof fn lemma_group_by(
    f: ValueView,
    rows: Seq<ValueView>,
    env: EnvView,
    fuel: nat,
    keys: Seq<Seq<char>>,
)
    requires
        group_keys(f, rows, 0, env, fuel).result == Ok::<Seq<Seq<char>>, EvalErrorView>(keys),
    ensures
        total_rows(group_rows(rows, keys)) == rows.len(),
        forall|g: int, j: int|
            0 <= g < group_rows(rows, keys).len() && 0 <= j < group_rows(rows, keys)[g].rows.len()
                ==> is_keyed_row(
                f,
                rows,
                env,
                fuel,
                group_rows(rows, keys)[g].key,
                #[trigger] group_rows(rows, keys)[g].rows[j],
            ),
{
    lemma_group_keys(f, rows, 0, env, fuel, keys);
    lemma_group_by_partitions(rows, keys);
    let groups = group_rows(rows, keys);
    assert forall|g: int, j: int|
        0 <= g < groups.len() && 0 <= j < groups[g].rows.len() implies is_keyed_row(
        f,
        rows,
        env,
        fuel,
        groups[g].key,
        #[trigger] groups[g].rows[j],
    ) by {
        let v = groups[g].rows[j];
        assert(is_row_with_key(rows, keys, groups[g].key, rows.len(), v));
        let i = choose|i: int|
            0 <= i < rows.len() && i < rows.len() && i < keys.len() && keys[i] == groups[g].key
                && rows[i] == v;
        assert(maps_to_key(
            f,
            fuel,
            env_at_row(f, rows, 0, i as nat, env, fuel),
            rows[0 + i],
            keys[i],
        ));
    }
}

/// Whether the environment `b` has all the frames of `a`, each below the
/// same parent, and the same current frame: what holds of an environment
/// before and after an evaluation.
pub open spec fn grown_from(a: EnvView, b: EnvView) -> bool {
    &&& b.current == a.current
    &&& keeps_frames(a, b)
}

/// Whether the environment `b` has all the frames of `a`, each below the
/// same parent.
pub open spec fn keeps_frames(a: EnvView, b: EnvView) -> bool {
    &&& a.frames.len() <= b.frames.len()
    &&& forall|i: int| 0 <= i < a.frames.len() ==> (#[trigger] b.frames[i]).parent == a.frames[i].parent
}

/// Binding parameters keeps the frames and the current frame.
proof fn lemma_bind_params_grows(
    env: EnvView,
    params: Seq<Seq<char>>,
    args: Seq<ValueView>,
    n: nat,
)
    ensures
        grown_from(env, bind_params(env, params, args, n)),
        bind_params(env, params, args, n).frames.len() == env.frames.len(),
    decreases n,
{
    if !(n == 0 || n > params.len() || n > args.len()) {
        lemma_bind_params_grows(env, params, args, (n - 1) as nat);
    }
}

/// Evaluation never removes a frame, never moves a frame below another
/// parent, and leaves the current frame the current one.
pub proof fn lemma_eval_grows(e: SexprView, env: EnvView, fuel: nat)
    ensures
        grown_from(env, eval_spec(e, env, fuel).env),
    decreases fuel, 3nat, 0nat,
{
    if fuel > 0 {
        match e {
            SexprView::DottedList(head, tail) => {
                lemma_eval_grows(*tail, env, (fuel - 1) as nat);
                let t = eval_spec(*tail, env, (fuel - 1) as nat);
                if t.result is Ok {
                    lemma_dotted_head_grows(
                        head,
                        head.len(),
                        t.result->Ok_0,
                        t.env,
                        (fuel - 1) as nat,
                    );
                }
            },
            SexprView::List(items) => {
                if items.len() == 0 {
                } else if head_is(items, "quote"@) {
                } else if head_is(items, "define"@) {
                    if items.len() == 3 && symbol_name(items[1]) is Some {
                        lemma_eval_grows(items[2], env, (fuel - 1) as nat);
                    }
                } else if head_is(items, "lambda"@) {
                } else if head_is(items, "if"@) {
                    if items.len() == 4 {
                        lemma_eval_grows(items[1], env, (fuel - 1) as nat);
                        let t = eval_spec(items[1], env, (fuel - 1) as nat);
                        lemma_eval_grows(items[2], t.env, (fuel - 1) as nat);
                        lemma_eval_grows(items[3], t.env, (fuel - 1) as nat);
                    }
                } else {
                    lemma_eval_grows(items[0], env, (fuel - 1) as nat);
                    let f = eval_spec(items[0], env, (fuel - 1) as nat);
                    if f.result is Ok {
                        lemma_args_grow(items, 1, f.env, (fuel - 1) as nat);
                        let a = eval_args(items, 1, f.env, (fuel - 1) as nat);
                        if a.result is Ok {
                            lemma_apply_grows(
                                f.result->Ok_0,
                                a.result->Ok_0,
                                a.env,
                                (fuel - 1) as nat,
                            );
                        }
                    }
                }
            },
            _ => {},
        }
    }
}

/// Evaluating arguments keeps the frames and the current frame.
proof fn lemma_args_grow(items: Seq<SexprView>, from: int, env: EnvView, fuel: nat)
    ensures
        grown_from(env, eval_args(items, from, env, fuel).env),
    decreases fuel, 4nat, items.len() - from,
{
    if !(from < 0 || from >= items.len()) {
        lemma_eval_grows(items[from], env, fuel);
        let h = eval_spec(items[from], env, fuel);
        if h.result is Ok {
            lemma_args_grow(items, from + 1, h.env, fuel);
        }
    }
}

/// Evaluating the head of a dotted list keeps the frames and the current
/// frame.
proof fn lemma_dotted_head_grows(
    head: Seq<SexprView>,
    n: nat,
    acc: ValueView,
    env: EnvView,
    fuel: nat,
)
    ensures
        grown_from(env, eval_dotted_head(head, n, acc, env, fuel).env),
    decreases fuel, 4nat, n,
{
    if !(n == 0 || n > head.len()) {
        lemma_eval_grows(head[n - 1], env, fuel);
        let h = eval_spec(head[n - 1], env, fuel);
        if h.result is Ok {
            lemma_dotted_head_grows(
                head,
                (n - 1) as nat,
                ValueView::Cons(Box::new(h.result->Ok_0), Box::new(acc)),
                h.env,
                fuel,
            );
        }
    }
}

/// Evaluating a body keeps the frames and the current frame.
proof fn lemma_body_grows(
    body: Seq<SexprView>,
    from: int,
    last: ValueView,
    env: EnvView,
    fuel: nat,
)
    ensures
        grown_from(env, eval_body(body, from, last, env, fuel).env),
    decreases fuel, 4nat, body.len() - from,
{
    if !(from < 0 || from >= body.len()) {
        lemma_eval_grows(body[from], env, fuel);
        let r = eval_spec(body[from], env, fuel);
        if r.result is Ok {
            lemma_body_grows(body, from + 1, r.result->Ok_0, r.env, fuel);
        }
    }
}

/// Applying a function never removes a frame, never moves a frame below
/// another parent, and leaves the current frame the current one.
pub proof fn lemma_apply_grows(f: ValueView, args: Seq<ValueView>, env: EnvView, fuel: nat)
    ensures
        grown_from(env, apply_spec(f, args, env, fuel).env),
    decreases fuel, 3nat, 0nat,
{
    if fuel > 0 {
        match f {
            ValueView::Primitive(p) => {
                if p == PrimitiveFn::GroupBy && args.len() == 2 {
                    match list_items(args[0]) {
                        Some(rows) => {
                            lemma_keys_grow(args[1], rows, 0, env, (fuel - 1) as nat);
                        },
                        None => {},
                    }
                }
            },
            ValueView::Lambda { params, body, closure } => {
                if params.len() == args.len() && env.has_frame(closure) {
                    let fresh = env.child_of(closure);
                    let bound = bind_params(fresh, params, args, params.len());
                    lemma_bind_params_grows(fresh, params, args, params.len());
                    lemma_body_grows(body, 0, ValueView::Nil, bound, (fuel - 1) as nat);
                    let r = eval_body(body, 0, ValueView::Nil, bound, (fuel - 1) as nat);
                    assert forall|i: int| 0 <= i < env.frames.len() implies (
                    #[trigger] r.env.frames[i]).parent == env.frames[i].parent by {
                        assert(fresh.frames[i] == env.frames[i]);
                        assert(bound.frames[i].parent == fresh.frames[i].parent);
                    }
                }
            },
            _ => {},
        }
    }
}

/// Computing the keys of rows keeps the frames and the current frame.
proof fn lemma_keys_grow(f: ValueView, rows: Seq<ValueView>, from: int, env: EnvView, fuel: nat)
    ensures
        grown_from(env, group_keys(f, rows, from, env, fuel).env),
    decreases fuel, 4nat, rows.len() - from,
{
    if !(from < 0 || from >= rows.len()) {
        lemma_apply_grows(f, seq![rows[from]], env, fuel);
        let a = apply_spec(f, seq![rows[from]], env, fuel);
        if a.result is Ok && key_text(a.result->Ok_0) is Some {
            lemma_keys_grow(f, rows, from + 1, a.env, fuel);
        }
    }
}

} // verus!
