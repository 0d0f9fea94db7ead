//! The text of syntax trees: what the reader reads back as the same tree.

use vstd::prelude::*;
use crate::parser::ast::{lemma_dotted_view, lemma_list_view, sexprs_view, Atom, AtomView, Sexpr, SexprView};
use crate::text::{append_int, int_text};

verus! {

/// The text of an atom: `()` for the empty list, a symbol as it is, a number
/// in decimal, a string between double quotes.
pub open spec fn atom_text(a: AtomView) -> Seq<char> {
    match a {
        AtomView::Nil => seq!['(', ')'],
        AtomView::Symbol(s) => s,
        AtomView::Number(n) => int_text(n),
        AtomView::String(s) => seq!['"'] + s + seq!['"'],
    }
}

/// The text of an expression: a list between parentheses with one space
/// between its elements, a dotted list with ` . ` before its tail.
pub open spec fn sexpr_text(e: SexprView) -> Seq<char>
    decreases e, 0nat,
{
    match e {
        SexprView::Atom(a) => atom_text(a),
        SexprView::List(items) => seq!['('] + items_text(items, 0) + seq![')'],
        SexprView::DottedList(items, tail) => seq!['('] + items_text(items, 0) + seq![
            ' ',
            '.',
            ' ',
        ] + sexpr_text(*tail) + seq![')'],
    }
}

/// The texts of the expressions `items[from..]` with one space between them.
pub open spec fn items_text(items: Seq<SexprView>, from: int) -> Seq<char>
    decreases items, items.len() - from,
{
    if from < 0 || from >= items.len() {
        Seq::empty()
    } else if from == items.len() - 1 {
        sexpr_text(items[from])
    } else {
        sexpr_text(items[from]) + seq![' '] + items_text(items, from + 1)
    }
}

/// Appends the texts of `items[from..]`, with one space between them.
pub(crate) fn append_items(out: &mut String, items: &Vec<Sexpr>, from: usize)
    requires
        from <= items.len(),
    ensures
        final(out)@ == old(out)@ + items_text(sexprs_view(items@), from as int),
    decreases items, 0nat,
{
    let ghost s = sexprs_view(items@);
    let ghost start = out@;
    let ghost whole = items_text(s, from as int);
    let mut i: usize = from;
    while i < items.len()
        invariant
            from <= i <= items.len(),
            s == sexprs_view(items@),
            whole == items_text(s, from as int),
            start + whole == out@ + items_text(s, i as int),
        decreases items.len() - i,
    {
        let ghost before = out@;
        append_sexpr(out, &items[i]);
        if i + 1 < items.len() {
            out.push(' ');
        }
        proof {
            let t = sexpr_text(s[i as int]);
            let rest = items_text(s, i + 1);
            if i + 1 < items.len() {
                assert(before + (t + seq![' '] + rest) =~= out@ + rest);
            } else {
                assert(rest =~= Seq::<char>::empty());
                assert(before + t =~= out@ + rest);
            }
        }
        i += 1;
    }
    assert(out@ + Seq::<char>::empty() =~= out@);
}

/// Appends the text of `e`.
pub fn append_sexpr(out: &mut String, e: &Sexpr)
    ensures
        final(out)@ == old(out)@ + sexpr_text(e@),
    decreases e, 1nat,
{
    match e {
        Sexpr::Atom(a) => {
            match a {
                Atom::Nil => {
                    out.push('(');
                    out.push(')');
                },
                Atom::Symbol(s) => {
                    vstd::string::StringExecFns::append(out, s.as_str());
                },
                Atom::Number(n) => {
                    append_int(out, *n);
                },
                Atom::String(s) => {
                    out.push('"');
                    vstd::string::StringExecFns::append(out, s.as_str());
                    out.push('"');
                },
            }
            assert(out@ =~= old(out)@ + sexpr_text(e@));
        },
        Sexpr::List(items) => {
            proof {
                lemma_list_view(*items);
            }
            out.push('(');
            append_items(out, items, 0);
            out.push(')');
            assert(out@ =~= old(out)@ + sexpr_text(e@));
        },
        Sexpr::DottedList(items, tail) => {
            proof {
                lemma_dotted_view(*items, *tail);
            }
            out.push('(');
            append_items(out, items, 0);
            out.push(' ');
            out.push('.');
            out.push(' ');
            append_sexpr(out, tail);
            out.push(')');
            assert(out@ =~= old(out)@ + sexpr_text(e@));
        },
    }
}

impl Sexpr {
    /// The text of the expression.
    pub fn to_string(&self) -> (r: String)
        ensures
            r@ == sexpr_text(self@),
    {
        let mut out = String::new();
        append_sexpr(&mut out, self);
        assert(out@ =~= sexpr_text(self@));
        out
    }
}

/// The text of a program: the texts of its expressions with one space
/// between them.
pub fn render(exprs: &Vec<Sexpr>) -> (r: String)
    ensures
        r@ == items_text(sexprs_view(exprs@), 0),
{
    let mut out = String::new();
    append_items(&mut out, exprs, 0);
    assert(out@ =~= items_text(sexprs_view(exprs@), 0));
    out
}

} // verus!
