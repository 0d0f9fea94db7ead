//! Laws of the reader: what it reads is well formed, reading the text of a
//! tree gives the tree back, and the quote shorthand is the long form.

use vstd::prelude::*;
use crate::parser::ast::{AtomView, SexprView};
use crate::parser::grammar::{
    in_class, is_symbol_char, is_symbol_start, lemma_run_len_bound, lemma_sexpr_end,
    lemma_ws_len_bound, quote_symbol, run_len, spec_atom, spec_list_body, spec_number, spec_sexpr,
    spec_string, spec_toplevel, ws_len, CharClass, ListBody,
};
use crate::parser::render::{atom_text, items_text, sexpr_text};
use crate::text::{is_digit, is_space, lemma_nat_text_digits, lemma_nat_text_value, nat_text};

verus! {

/// Whether an atom is one that the reader can give: a symbol made of a start
/// character and symbol characters, a number from zero up to the largest
/// signed 64-bit integer, a string without a double quote in it.
pub open spec fn readable_atom(a: AtomView) -> bool {
    match a {
        AtomView::Nil => true,
        AtomView::Symbol(s) => s.len() > 0 && is_symbol_start(s[0]) && forall|i: int|
            0 < i < s.len() ==> is_symbol_char(#[trigger] s[i]),
        AtomView::Number(n) => 0 <= n <= i64::MAX,
        AtomView::String(s) => forall|i: int| 0 <= i < s.len() ==> #[trigger] s[i] != '"',
    }
}

/// Whether an expression is one that the reader can give: its atoms are
/// readable, no list in it is empty, and no dotted list has an empty head.
pub open spec fn readable(e: SexprView) -> bool
    decreases e,
{
    match e {
        SexprView::Atom(a) => readable_atom(a),
        SexprView::List(items) => items.len() > 0 && forall|i: int|
            0 <= i < items.len() ==> readable(#[trigger] items[i]),
        SexprView::DottedList(items, tail) => items.len() > 0 && readable(*tail) && forall|i: int|
            0 <= i < items.len() ==> readable(#[trigger] items[i]),
    }
}

/// Whether all of `items` are readable.
pub open spec fn all_readable(items: Seq<SexprView>) -> bool {
    forall|i: int| 0 <= i < items.len() ==> readable(#[trigger] items[i])
}

/// An atom that is read is readable.
proof fn lemma_atom_readable(s: Seq<char>, i: int)
    requires
        0 <= i <= s.len(),
    ensures
        spec_atom(s, i) matches Some((a, _)) ==> readable_atom(a),
{
    lemma_run_len_bound(s, i, CharClass::Digit);
    if i < s.len() {
        lemma_run_len_bound(s, i + 1, CharClass::StringChar);
        lemma_run_len_bound(s, i + 1, CharClass::SymbolChar);
    }
    match spec_atom(s, i) {
        Some((AtomView::Symbol(name), _)) => {
            assert(name[0] == s[i]);
            assert forall|k: int| 0 < k < name.len() implies is_symbol_char(#[trigger] name[k]) by {
                assert(name[k] == s[i + k]);
            }
        },
        Some((AtomView::String(text), _)) => {
            assert forall|k: int| 0 <= k < text.len() implies #[trigger] text[k] != '"' by {
                assert(text[k] == s[i + 1 + k]);
            }
        },
        _ => {},
    }
}

/// An expression that is read is readable.
pub proof fn lemma_sexpr_readable(s: Seq<char>, i: int)
    requires
        0 <= i <= s.len(),
    ensures
        spec_sexpr(s, i) matches Some((e, _)) ==> readable(e),
    decreases s.len() - i, 0nat,
{
    lemma_ws_len_bound(s, i);
    let j = i + ws_len(s, i);
    if 0 <= j < s.len() {
        if s[j] == '\'' {
            lemma_sexpr_readable(s, j + 1);
            match spec_sexpr(s, j + 1) {
                Some((e, _)) => {
                    let items = seq![quote_symbol(), e];
                    reveal_strlit("quote");
                    assert(readable(quote_symbol()));
                    assert forall|k: int| 0 <= k < items.len() implies readable(
                        #[trigger] items[k],
                    ) by {}
                },
                None => {},
            }
        } else if s[j] == '(' {
            lemma_list_body_readable(s, j + 1);
        } else {
            lemma_atom_readable(s, j);
        }
    }
}

/// The elements and the tail of a list body that is read are readable.
pub proof fn lemma_list_body_readable(s: Seq<char>, i: int)
    requires
        0 <= i <= s.len(),
    ensures
        spec_list_body(s, i) matches Some(body) ==> all_readable(body.elements) && (
        body.tail matches Some(t) ==> readable(t)),
    decreases s.len() - i, 1nat,
{
    lemma_ws_len_bound(s, i);
    let k = i + ws_len(s, i);
    if 0 <= k < s.len() {
        if s[k] == ')' {
        } else if s[k] == '.' {
            lemma_sexpr_readable(s, k + 1);
        } else {
            lemma_sexpr_readable(s, k);
            lemma_sexpr_end(s, k);
            match spec_sexpr(s, k) {
                Some((e, m)) => {
                    lemma_list_body_readable(s, m);
                    match spec_list_body(s, m) {
                        Some(rest) => {
                            let all = seq![e] + rest.elements;
                            assert forall|x: int| 0 <= x < all.len() implies readable(
                                #[trigger] all[x],
                            ) by {
                                if x > 0 {
                                    assert(all[x] == rest.elements[x - 1]);
                                }
                            }
                        },
                        None => {},
                    }
                },
                None => {},
            }
        }
    }
}

/// The expressions that are read at top level are readable.
pub proof fn lemma_toplevel_readable(s: Seq<char>, i: int)
    requires
        0 <= i <= s.len(),
    ensures
        all_readable(spec_toplevel(s, i).0),
    decreases s.len() - i,
{
    lemma_sexpr_readable(s, i);
    match spec_sexpr(s, i) {
        Some((e, m)) => {
            if i < m <= s.len() {
                lemma_toplevel_readable(s, m);
                let rest = spec_toplevel(s, m).0;
                let all = seq![e] + rest;
                assert forall|x: int| 0 <= x < all.len() implies readable(#[trigger] all[x]) by {
                    if x > 0 {
                        assert(all[x] == rest[x - 1]);
                    }
                }
            }
        },
        None => {},
    }
}

/// Whether the text `t` stands in `s` at the position `i`.
pub open spec fn text_at(s: Seq<char>, i: int, t: Seq<char>) -> bool {
    0 <= i && i + t.len() <= s.len() && forall|k: int|
        0 <= k < t.len() ==> s[i + k] == #[trigger] t[k]
}

/// Whether a token that ends before the position `i` cannot go on there:
/// the text ends, or what stands there is no symbol character.
pub open spec fn token_ends(s: Seq<char>, i: int) -> bool {
    i >= s.len() || !is_symbol_char(s[i])
}

/// The characters that the text of an expression can start with.
pub open spec fn starts_expr(c: char) -> bool {
    c == '(' || c == '"' || is_digit(c) || is_symbol_start(c)
}

/// A text that stands at a position does so part by part.
proof fn lemma_text_at_split(s: Seq<char>, i: int, a: Seq<char>, b: Seq<char>)
    requires
        text_at(s, i, a + b),
    ensures
        text_at(s, i, a),
        text_at(s, i + a.len(), b),
{
    let t = a + b;
    assert forall|k: int| 0 <= k < a.len() implies s[i + k] == #[trigger] a[k] by {
        assert(t[k] == a[k]);
    }
    assert forall|k: int| 0 <= k < b.len() implies s[i + a.len() + k] == #[trigger] b[k] by {
        assert(t[a.len() + k] == b[k]);
    }
}

/// A run of exactly `n` characters of a class is the longest one.
proof fn lemma_run_exact(s: Seq<char>, i: int, k: CharClass, n: nat)
    requires
        0 <= i,
        i + n <= s.len(),
        forall|j: int| i <= j < i + n ==> in_class(k, #[trigger] s[j]),
        i + n == s.len() || !in_class(k, s[i + n]),
    ensures
        run_len(s, i, k) == n,
    decreases n,
{
    if n > 0 {
        lemma_run_exact(s, i + 1, k, (n - 1) as nat);
    }
}

/// The text of a readable expression is not empty and starts as an
/// expression does.
proof fn lemma_text_start(e: SexprView)
    requires
        readable(e),
    ensures
        sexpr_text(e).len() > 0,
        starts_expr(sexpr_text(e)[0]),
{
    match e {
        SexprView::Atom(AtomView::Number(n)) => {
            lemma_nat_text_digits(n as nat);
        },
        _ => {},
    }
}

/// Reading the text of a readable atom gives the atom back.
proof fn lemma_read_atom_back(a: AtomView, s: Seq<char>, i: int)
    requires
        readable_atom(a),
        !(a is Nil),
        text_at(s, i, atom_text(a)),
        token_ends(s, i + atom_text(a).len()),
    ensures
        spec_atom(s, i) == Some((a, i + atom_text(a).len())),
{
    let t = atom_text(a);
    match a {
        AtomView::Symbol(name) => {
            assert(s[i] == name[0]);
            assert(run_len(s, i, CharClass::Digit) == 0);
            assert forall|j: int| i + 1 <= j < i + name.len() implies in_class(
                CharClass::SymbolChar,
                #[trigger] s[j],
            ) by {
                assert(s[i + (j - i)] == name[j - i]);
            }
            lemma_run_exact(s, i + 1, CharClass::SymbolChar, (name.len() - 1) as nat);
            assert(s.subrange(i, i + name.len()) =~= name) by {
                assert forall|k: int| 0 <= k < name.len() implies s.subrange(i, i + name.len())[k]
                    == name[k] by {
                    assert(s[i + k] == name[k]);
                }
            }
        },
        AtomView::Number(n) => {
            let digits = nat_text(n as nat);
            lemma_nat_text_digits(n as nat);
            lemma_nat_text_value(n as nat);
            assert forall|j: int| i <= j < i + digits.len() implies in_class(
                CharClass::Digit,
                #[trigger] s[j],
            ) by {
                assert(s[i + (j - i)] == digits[j - i]);
            }
            lemma_run_exact(s, i, CharClass::Digit, digits.len());
            assert(s.subrange(i, i + digits.len()) =~= digits) by {
                assert forall|k: int| 0 <= k < digits.len() implies s.subrange(
                    i,
                    i + digits.len(),
                )[k] == digits[k] by {
                    assert(s[i + k] == digits[k]);
                }
            }
        },
        AtomView::String(text) => {
            assert(t[0] == '"');
            assert(s[i + 0] == t[0]);
            assert(run_len(s, i, CharClass::Digit) == 0);
            assert forall|j: int| i + 1 <= j < i + 1 + text.len() implies in_class(
                CharClass::StringChar,
                #[trigger] s[j],
            ) by {
                assert(t[j - i] == text[j - i - 1]);
                assert(s[i + (j - i)] == t[j - i]);
            }
            let last = text.len() as int + 1;
            assert(t[last] == '"');
            assert(s[i + last] == t[last]);
            lemma_run_exact(s, i + 1, CharClass::StringChar, text.len());
            assert(s.subrange(i + 1, i + 1 + text.len()) =~= text) by {
                assert forall|k: int| 0 <= k < text.len() implies s.subrange(
                    i + 1,
                    i + 1 + text.len(),
                )[k] == text[k] by {
                    assert(t[k + 1] == text[k]);
                    assert(s[i + (k + 1)] == t[k + 1]);
                }
            }
        },
        AtomView::Nil => {},
    }
}

/// The elements of a list or dotted list.
pub open spec fn items_of(e: SexprView) -> Seq<SexprView> {
    match e {
        SexprView::List(items) => items,
        SexprView::DottedList(items, _) => items,
        _ => Seq::empty(),
    }
}

/// The tail of a dotted list.
pub open spec fn tail_of(e: SexprView) -> Option<SexprView> {
    match e {
        SexprView::DottedList(_, tail) => Some(*tail),
        _ => None,
    }
}

/// The text that closes a list: the closing parenthesis, after ` . ` and
/// the tail where the list is dotted.
pub open spec fn closing_text(e: SexprView) -> Seq<char> {
    match e {
        SexprView::DottedList(_, tail) => seq![' ', '.', ' '] + sexpr_text(*tail) + seq![')'],
        _ => seq![')'],
    }
}

/// Leading whitespace does not change what is read.
proof fn lemma_sexpr_after_space(s: Seq<char>, i: int)
    requires
        0 <= i < s.len(),
        is_space(s[i]),
    ensures
        spec_sexpr(s, i) == spec_sexpr(s, i + 1),
{
    assert(ws_len(s, i) == 1 + ws_len(s, i + 1));
}

/// Leading whitespace does not change what is read of a list body.
proof fn lemma_list_body_after_space(s: Seq<char>, i: int)
    requires
        0 <= i < s.len(),
        is_space(s[i]),
    ensures
        spec_list_body(s, i) == spec_list_body(s, i + 1),
{
    assert(ws_len(s, i) == 1 + ws_len(s, i + 1));
}

/// Reading the text of a readable expression gives the expression back,
/// wherever the text stands, as long as its last token ends there.
pub proof fn lemma_read_back(e: SexprView, s: Seq<char>, i: int)
    requires
        readable(e),
        text_at(s, i, sexpr_text(e)),
        token_ends(s, i + sexpr_text(e).len()),
    ensures
        spec_sexpr(s, i) == Some((e, i + sexpr_text(e).len())),
    decreases e, 2nat, 0nat,
{
    let t = sexpr_text(e);
    lemma_text_start(e);
    assert(s[i + 0] == t[0]);
    assert(ws_len(s, i) == 0);
    match e {
        SexprView::Atom(AtomView::Nil) => {
            assert(s[i + 1] == t[1]);
            assert(ws_len(s, i + 1) == 0);
        },
        SexprView::Atom(a) => {
            lemma_read_atom_back(a, s, i);
        },
        SexprView::List(items) => {
            let inner = items_text(items, 0) + closing_text(e);
            assert(t =~= seq!['('] + inner);
            lemma_text_at_split(s, i, seq!['('], inner);
            lemma_read_items_back(e, 0, s, i + 1);
            assert(items.subrange(0, items.len() as int) =~= items);
        },
        SexprView::DottedList(items, tail) => {
            let inner = items_text(items, 0) + closing_text(e);
            assert(t =~= seq!['('] + inner);
            lemma_text_at_split(s, i, seq!['('], inner);
            lemma_read_items_back(e, 0, s, i + 1);
            assert(items.subrange(0, items.len() as int) =~= items);
        },
    }
}

/// Reading the texts of the elements of a readable list, from the element
/// `from` on and up to the end of the list, gives the elements back.
proof fn lemma_read_items_back(e: SexprView, from: int, s: Seq<char>, i: int)
    requires
        readable(e),
        e is List || e is DottedList,
        0 <= from < items_of(e).len(),
        text_at(s, i, items_text(items_of(e), from) + closing_text(e)),
    ensures
        spec_list_body(s, i) == Some(
            ListBody {
                elements: items_of(e).subrange(from, items_of(e).len() as int),
                tail: tail_of(e),
                end: i + items_text(items_of(e), from).len() + closing_text(e).len(),
            },
        ),
    decreases e, 1nat, items_of(e).len() - from,
{
    let items = items_of(e);
    let closing = closing_text(e);
    let x = items[from];
    let tx = sexpr_text(x);
    let last = from == items.len() - 1;
    let after: Seq<char> = if last {
        closing
    } else {
        seq![' '] + (items_text(items, from + 1) + closing)
    };
    assert(readable(x));
    assert(items_text(items, from) + closing =~= tx + after);
    lemma_text_at_split(s, i, tx, after);
    lemma_text_start(x);
    let m = i + tx.len();
    assert(s[i + 0] == tx[0]);
    assert(ws_len(s, i) == 0);
    assert(s[m + 0] == after[0]);
    assert(after[0] == ' ' || after[0] == ')');
    assert(token_ends(s, m));
    lemma_read_back(x, s, i);
    assert(spec_sexpr(s, i) == Some((x, m)));
    if !last {
        let rest = items_text(items, from + 1) + closing;
        lemma_text_at_split(s, m, seq![' '], rest);
        lemma_read_items_back(e, from + 1, s, m + 1);
        lemma_list_body_after_space(s, m);
        assert(seq![x] + items.subrange(from + 1, items.len() as int) =~= items.subrange(
            from,
            items.len() as int,
        ));
        assert(items_text(items, from).len() == tx.len() + 1 + items_text(items, from + 1).len());
    } else {
        assert(seq![x] + Seq::<SexprView>::empty() =~= items.subrange(from, items.len() as int));
        match e {
            SexprView::DottedList(_, tail) => {
                let tt = sexpr_text(*tail);
                assert(after =~= seq![' ', '.', ' '] + (tt + seq![')']));
                lemma_text_at_split(s, m, seq![' ', '.', ' '], tt + seq![')']);
                lemma_text_at_split(s, m + 3, tt, seq![')']);
                assert(s[m + 0] == seq![' ', '.', ' '][0]);
                assert(s[m + 1] == seq![' ', '.', ' '][1]);
                assert(s[m + 2] == seq![' ', '.', ' '][2]);
                let close = m + 3 + tt.len();
                assert(s[close + 0] == seq![')'][0]);
                lemma_text_start(*tail);
                assert(s[m + 3 + 0] == tt[0]);
                assert(ws_len(s, m + 1) == 0);
                assert(ws_len(s, m) == 1);
                lemma_read_back(*tail, s, m + 3);
                lemma_sexpr_after_space(s, m + 2);
                assert(ws_len(s, close) == 0);
            },
            _ => {
                assert(ws_len(s, m) == 0);
            },
        }
    }
}

/// Leading whitespace before an expression does not change what is read at
/// top level.
proof fn lemma_toplevel_after_space(s: Seq<char>, i: int)
    requires
        0 <= i < s.len(),
        is_space(s[i]),
        spec_sexpr(s, i + 1) is Some,
    ensures
        spec_toplevel(s, i) == spec_toplevel(s, i + 1),
{
    lemma_sexpr_after_space(s, i);
    lemma_sexpr_end(s, i + 1);
}

/// Reading the text of readable expressions, from the expression `from` on
/// and up to the end of the text, gives the expressions back.
proof fn lemma_read_program_back(items: Seq<SexprView>, from: int, s: Seq<char>, i: int)
    requires
        all_readable(items),
        0 <= from <= items.len(),
        text_at(s, i, items_text(items, from)),
        i + items_text(items, from).len() == s.len(),
    ensures
        spec_toplevel(s, i) == (items.subrange(from, items.len() as int), s.len() as int),
    decreases items.len() - from,
{
    if from == items.len() {
        assert(ws_len(s, i) == 0);
        assert(spec_sexpr(s, i) is None);
        assert(items.subrange(from, items.len() as int) =~= Seq::<SexprView>::empty());
    } else {
        let x = items[from];
        let tx = sexpr_text(x);
        let last = from == items.len() - 1;
        let m = i + tx.len();
        lemma_text_start(x);
        if last {
            lemma_read_back(x, s, i);
            lemma_read_program_back(items, from + 1, s, m);
        } else {
            let rest = items_text(items, from + 1);
            assert(items_text(items, from) =~= tx + (seq![' '] + rest));
            lemma_text_at_split(s, i, tx, seq![' '] + rest);
            lemma_text_at_split(s, m, seq![' '], rest);
            assert(s[m + 0] == seq![' '][0]);
            lemma_read_back(x, s, i);
            lemma_read_program_back(items, from + 1, s, m + 1);
            assert(spec_toplevel(s, m + 1).0.len() > 0);
            lemma_toplevel_after_space(s, m);
        }
        assert(seq![x] + items.subrange(from + 1, items.len() as int) =~= items.subrange(
            from,
            items.len() as int,
        ));
    }
}

/// Reading is idempotent on what it gives: the expressions read from any
/// text, written out and read again, are the same expressions, and the
/// second reading takes all of the text.
pub proof fn lemma_round_trip(text: Seq<char>)
    ensures
        ({
            let exprs = spec_toplevel(text, 0).0;
            let written = items_text(exprs, 0);
            spec_toplevel(written, 0) == (exprs, written.len() as int)
        }),
{
    let exprs = spec_toplevel(text, 0).0;
    let written = items_text(exprs, 0);
    lemma_toplevel_readable(text, 0);
    lemma_read_program_back(exprs, 0, written, 0);
    assert(exprs.subrange(0, exprs.len() as int) =~= exprs);
}

/// Whether `t` holds, from the position `off + i` on, the characters that
/// `s` holds from `i` on, and after them the end of a token: `s` stands
/// inside `t`, moved by `off`.
pub open spec fn stands_in(s: Seq<char>, t: Seq<char>, off: int, i: int) -> bool {
    0 <= off && off + s.len() <= t.len() && token_ends(t, off + s.len()) && forall|k: int|
        i <= k < s.len() ==> t[off + k] == #[trigger] s[k]
}

/// A run is the same in a text that stands inside another, where the run
/// ends inside the text or the class is one of token characters.
proof fn lemma_run_moved(s: Seq<char>, t: Seq<char>, off: int, i: int, k: CharClass)
    requires
        0 <= i <= s.len(),
        stands_in(s, t, off, i),
        i + run_len(s, i, k) < s.len() || k == CharClass::Digit || k == CharClass::SymbolChar,
    ensures
        run_len(t, off + i, k) == run_len(s, i, k),
    decreases s.len() - i,
{
    if i < s.len() {
        assert(t[off + i] == s[i]);
        if in_class(k, s[i]) {
            lemma_run_moved(s, t, off, i + 1, k);
        }
    }
}

/// Whitespace that ends inside a text is the same where the text stands
/// inside another.
proof fn lemma_ws_moved(s: Seq<char>, t: Seq<char>, off: int, i: int)
    requires
        0 <= i <= s.len(),
        stands_in(s, t, off, i),
        i + ws_len(s, i) < s.len(),
    ensures
        ws_len(t, off + i) == ws_len(s, i),
    decreases s.len() - i,
{
    assert(t[off + i] == s[i]);
    if is_space(s[i]) {
        lemma_ws_moved(s, t, off, i + 1);
    } else if s[i] == ';' {
        let n = run_len(s, i + 1, CharClass::CommentChar);
        lemma_run_len_bound(s, i + 1, CharClass::CommentChar);
        lemma_ws_len_bound(s, i + 1 + n);
        lemma_run_moved(s, t, off, i + 1, CharClass::CommentChar);
        lemma_ws_moved(s, t, off, i + 1 + n);
    }
}

/// A stretch of a text is the same stretch where the text stands inside
/// another.
proof fn lemma_subrange_moved(s: Seq<char>, t: Seq<char>, off: int, i: int, a: int, b: int)
    requires
        0 <= i <= a <= b <= s.len(),
        stands_in(s, t, off, i),
    ensures
        t.subrange(off + a, off + b) == s.subrange(a, b),
{
    let x = t.subrange(off + a, off + b);
    let y = s.subrange(a, b);
    assert forall|k: int| 0 <= k < y.len() implies #[trigger] x[k] == y[k] by {
        assert(t[off + (a + k)] == s[a + k]);
    }
    assert(x =~= y);
}

/// An atom that is read in a text is read the same where the text stands
/// inside another.
proof fn lemma_atom_moved(s: Seq<char>, t: Seq<char>, off: int, i: int)
    requires
        0 <= i < s.len(),
        stands_in(s, t, off, i),
        spec_atom(s, i) is Some,
    ensures
        spec_atom(t, off + i) == Some((spec_atom(s, i)->Some_0.0, off + spec_atom(s, i)->Some_0.1)),
{
    assert(t[off + i] == s[i]);
    lemma_run_len_bound(s, i, CharClass::Digit);
    lemma_run_moved(s, t, off, i, CharClass::Digit);
    let n = run_len(s, i, CharClass::Digit);
    lemma_subrange_moved(s, t, off, i, i, i + n);
    if spec_number(s, i) is None {
        if spec_string(s, i) is Some {
            let m = run_len(s, i + 1, CharClass::StringChar);
            lemma_run_moved(s, t, off, i + 1, CharClass::StringChar);
            lemma_subrange_moved(s, t, off, i, i + 1, i + 1 + m);
        } else {
            let m = run_len(s, i + 1, CharClass::SymbolChar);
            lemma_run_len_bound(s, i + 1, CharClass::SymbolChar);
            lemma_run_moved(s, t, off, i + 1, CharClass::SymbolChar);
            lemma_subrange_moved(s, t, off, i, i, i + 1 + m);
        }
    }
}

/// An expression that is read in a text is read the same where the text
/// stands inside another.
pub proof fn lemma_sexpr_moved(s: Seq<char>, t: Seq<char>, off: int, i: int)
    requires
        0 <= i <= s.len(),
        stands_in(s, t, off, i),
        spec_sexpr(s, i) is Some,
    ensures
        spec_sexpr(t, off + i) == Some(
            (spec_sexpr(s, i)->Some_0.0, off + spec_sexpr(s, i)->Some_0.1),
        ),
    decreases s.len() - i, 0nat,
{
    lemma_ws_len_bound(s, i);
    lemma_ws_moved(s, t, off, i);
    let j = i + ws_len(s, i);
    assert(t[off + j] == s[j]);
    assert forall|k: int| j <= k < s.len() implies t[off + k] == #[trigger] s[k] by {}
    if s[j] == '\'' {
        lemma_sexpr_moved(s, t, off, j + 1);
    } else if s[j] == '(' {
        lemma_list_body_moved(s, t, off, j + 1);
    } else {
        lemma_atom_moved(s, t, off, j);
    }
}

/// A list body that is read in a text is read the same where the text
/// stands inside another.
proof fn lemma_list_body_moved(s: Seq<char>, t: Seq<char>, off: int, i: int)
    requires
        0 <= i <= s.len(),
        stands_in(s, t, off, i),
        spec_list_body(s, i) is Some,
    ensures
        spec_list_body(t, off + i) == Some(
            ListBody {
                elements: spec_list_body(s, i)->Some_0.elements,
                tail: spec_list_body(s, i)->Some_0.tail,
                end: off + spec_list_body(s, i)->Some_0.end,
            },
        ),
    decreases s.len() - i, 1nat,
{
    lemma_ws_len_bound(s, i);
    lemma_ws_moved(s, t, off, i);
    let k = i + ws_len(s, i);
    assert(t[off + k] == s[k]);
    assert forall|x: int| k <= x < s.len() implies t[off + x] == #[trigger] s[x] by {}
    if s[k] == ')' {
    } else if s[k] == '.' {
        lemma_sexpr_moved(s, t, off, k + 1);
        lemma_sexpr_end(s, k + 1);
        let m = spec_sexpr(s, k + 1)->Some_0.1;
        lemma_ws_len_bound(s, m);
        lemma_ws_moved(s, t, off, m);
        let n = m + ws_len(s, m);
        assert(t[off + n] == s[n]);
    } else {
        lemma_sexpr_moved(s, t, off, k);
        lemma_sexpr_end(s, k);
        let m = spec_sexpr(s, k)->Some_0.1;
        lemma_list_body_moved(s, t, off, m);
    }
}

/// Skipping whitespace and comments is idempotent: after what was skipped
/// there is nothing more to skip.
pub proof fn lemma_ws_idempotent(s: Seq<char>, i: int)
    requires
        0 <= i <= s.len(),
    ensures
        ws_len(s, i + ws_len(s, i)) == 0,
{
    lemma_ws_len_bound(s, i);
}

/// Reading at a position and reading after the whitespace that stands
/// there give the same.
proof fn lemma_sexpr_skips_ws(s: Seq<char>, i: int)
    requires
        0 <= i <= s.len(),
    ensures
        spec_sexpr(s, i + ws_len(s, i)) == spec_sexpr(s, i),
{
    lemma_ws_len_bound(s, i);
    let j = i + ws_len(s, i);
    assert(ws_len(s, j) == 0);
}

/// The long form of a quoted expression: the list of the symbol `quote` and
/// the expression.
pub open spec fn quoted(e: SexprView) -> SexprView {
    SexprView::List(seq![quote_symbol(), e])
}

/// The text of the long form of the quote of the expression whose text is `x`.
pub open spec fn quote_form(x: Seq<char>) -> Seq<char> {
    seq!['(', 'q', 'u', 'o', 't', 'e', ' '] + x + seq![')']
}

/// The text of the shorthand of the quote of the expression whose text is `x`.
pub open spec fn quote_shorthand(x: Seq<char>) -> Seq<char> {
    seq!['\''] + x
}

/// The shorthand `'x` is read as the list of the symbol `quote` and the
/// expression that `x` is read as.
pub proof fn lemma_shorthand_read(x: Seq<char>, e: SexprView)
    requires
        spec_sexpr(x, 0) == Some((e, x.len() as int)),
    ensures
        spec_sexpr(quote_shorthand(x), 0) == Some((quoted(e), 1 + x.len() as int)),
{
    let t = quote_shorthand(x);
    assert(t[0] == '\'');
    assert(ws_len(t, 0) == 0);
    assert forall|k: int| 0 <= k < x.len() implies t[1 + k] == #[trigger] x[k] by {}
    lemma_sexpr_moved(x, t, 1, 0);
}

/// The long form `(quote x)` is read as the list of the symbol `quote` and
/// the expression that `x` is read as.
pub proof fn lemma_quote_form_read(x: Seq<char>, e: SexprView)
    requires
        spec_sexpr(x, 0) == Some((e, x.len() as int)),
    ensures
        spec_sexpr(quote_form(x), 0) == Some((quoted(e), 8 + x.len() as int)),
{
    let t = quote_form(x);
    let close = 7 + x.len() as int;
    assert(t.len() == close + 1);
    assert(t[0] == '(' && t[1] == 'q' && t[2] == 'u' && t[3] == 'o' && t[4] == 't' && t[5] == 'e'
        && t[6] == ' ');
    assert(t[close] == ')');
    assert forall|k: int| 0 <= k < x.len() implies t[7 + k] == #[trigger] x[k] by {}
    // The symbol `quote`.
    assert(ws_len(t, 0) == 0);
    assert(ws_len(t, 1) == 0);
    assert(run_len(t, 1, CharClass::Digit) == 0);
    lemma_run_exact(t, 2, CharClass::SymbolChar, 4);
    reveal_strlit("quote");
    assert(t.subrange(1, 6) =~= "quote"@);
    assert(spec_atom(t, 1) == Some((AtomView::Symbol("quote"@), 6int)));
    assert(spec_sexpr(t, 1) == Some((quote_symbol(), 6int)));
    // The expression.
    lemma_ws_len_bound(x, 0);
    let j = ws_len(x, 0) as int;
    assert(stands_in(x, t, 7, 0));
    lemma_sexpr_moved(x, t, 7, 0);
    lemma_ws_moved(x, t, 7, 0);
    lemma_sexpr_skips_ws(t, 7);
    let k = 7 + j;
    assert(t[k] == x[j]);
    assert(spec_sexpr(t, k) == Some((e, close)));
    lemma_atom_first(x, j);
    assert(x[j] != ')' && x[j] != '.');
    // The closing parenthesis.
    assert(ws_len(t, close) == 0);
    assert(spec_list_body(t, close) == Some(
        ListBody { elements: Seq::empty(), tail: None, end: close + 1 },
    ));
    lemma_sexpr_end(x, 0);
    assert(spec_list_body(t, 7) == Some(
        ListBody { elements: seq![e] + Seq::empty(), tail: None, end: close + 1 },
    ));
    lemma_list_body_after_space(t, 6);
    assert(seq![quote_symbol()] + (seq![e] + Seq::<SexprView>::empty()) =~= seq![
        quote_symbol(),
        e,
    ]);
    assert(spec_list_body(t, 1) == Some(
        ListBody { elements: seq![quote_symbol(), e], tail: None, end: close + 1 },
    ));
}

/// An atom starts with neither a closing parenthesis nor a dot.
proof fn lemma_atom_first(s: Seq<char>, j: int)
    requires
        0 <= j < s.len(),
    ensures
        spec_atom(s, j) is Some ==> s[j] != ')' && s[j] != '.',
{
}

/// The quote shorthand and the long form are read as the same expression:
/// for every text `x` that is read as one expression, `'x` and `(quote x)`
/// give the same tree, and each is read to its end.
pub proof fn lemma_quote_equivalence(x: Seq<char>, e: SexprView)
    requires
        spec_sexpr(x, 0) == Some((e, x.len() as int)),
    ensures
        spec_toplevel(quote_shorthand(x), 0) == (seq![quoted(e)], quote_shorthand(x).len() as int),
        spec_toplevel(quote_form(x), 0) == (seq![quoted(e)], quote_form(x).len() as int),
{
    lemma_shorthand_read(x, e);
    lemma_quote_form_read(x, e);
    let a = quote_shorthand(x);
    let b = quote_form(x);
    assert(ws_len(a, a.len() as int) == 0);
    assert(ws_len(b, b.len() as int) == 0);
    assert(spec_sexpr(a, a.len() as int) is None);
    assert(spec_sexpr(b, b.len() as int) is None);
    assert(spec_toplevel(a, a.len() as int) == (Seq::<SexprView>::empty(), a.len() as int));
    assert(spec_toplevel(b, b.len() as int) == (Seq::<SexprView>::empty(), b.len() as int));
    assert(seq![quoted(e)] + Seq::<SexprView>::empty() =~= seq![quoted(e)]);
}

} // verus!
