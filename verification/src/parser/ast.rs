//! Syntax trees of the Lisp dialect and their mathematical models.

use vstd::prelude::*;

verus! {

/// The smallest indivisible unit of the syntax.
#[derive(Debug, PartialEq)]
pub enum Atom {
    /// The empty list, `()`.
    Nil,
    /// A symbolic identifier, e.g. `define`, `ID-001`, or `+`.
    Symbol(String),
    /// An integer number, e.g. `60000`.
    Number(i64),
    /// A string literal, e.g. `"Alice"`.
    String(String),
}

/// A complete S-expression: the node type of the syntax tree.
#[derive(Debug, PartialEq)]
pub enum Sexpr {
    /// An atomic value.
    Atom(Atom),
    /// A proper list, e.g. `(a b c)`.
    List(Vec<Sexpr>),
    /// An improper list, e.g. `(a . b)` or `(a b . c)`.
    DottedList(Vec<Sexpr>, Box<Sexpr>),
}

/// The model of an [`Atom`]: text as character sequences, numbers as integers.
pub enum AtomView {
    Nil,
    Symbol(Seq<char>),
    Number(int),
    String(Seq<char>),
}

/// The model of a [`Sexpr`].
pub enum SexprView {
    Atom(AtomView),
    List(Seq<SexprView>),
    DottedList(Seq<SexprView>, Box<SexprView>),
}

impl View for Atom {
    type V = AtomView;

    open spec fn view(&self) -> AtomView {
        match self {
            Atom::Nil => AtomView::Nil,
            Atom::Symbol(s) => AtomView::Symbol(s@),
            Atom::Number(n) => AtomView::Number(*n as int),
            Atom::String(s) => AtomView::String(s@),
        }
    }
}

/// The model of a syntax tree, node by node.
pub open spec fn sexpr_view(e: Sexpr) -> SexprView
    decreases e,
{
    match e {
        Sexpr::Atom(a) => SexprView::Atom(a@),
        Sexpr::List(v) => SexprView::List(
            Seq::new(
                v.len() as nat,
                |i: int|
                    if 0 <= i < v.len() {
                        sexpr_view(v[i])
                    } else {
                        SexprView::Atom(AtomView::Nil)
                    },
            ),
        ),
        Sexpr::DottedList(v, t) => SexprView::DottedList(
            Seq::new(
                v.len() as nat,
                |i: int|
                    if 0 <= i < v.len() {
                        sexpr_view(v[i])
                    } else {
                        SexprView::Atom(AtomView::Nil)
                    },
            ),
            Box::new(sexpr_view(*t)),
        ),
    }
}

impl View for Sexpr {
    type V = SexprView;

    open spec fn view(&self) -> SexprView {
        sexpr_view(*self)
    }
}

/// The models of a sequence of syntax trees, in order.
pub open spec fn sexprs_view(v: Seq<Sexpr>) -> Seq<SexprView> {
    Seq::new(v.len(), |i: int| v[i]@)
}

/// A list node's model holds the models of its elements.
pub proof fn lemma_list_view(v: Vec<Sexpr>)
    ensures
        Sexpr::List(v)@ == SexprView::List(sexprs_view(v@)),
{
    assert(Sexpr::List(v)@->List_0 =~= sexprs_view(v@));
}

/// A dotted list node's model holds the models of its head elements and of its tail.
pub proof fn lemma_dotted_view(v: Vec<Sexpr>, t: Box<Sexpr>)
    ensures
        Sexpr::DottedList(v, t)@ == SexprView::DottedList(sexprs_view(v@), Box::new(t@)),
{
    assert(Sexpr::DottedList(v, t)@->DottedList_0 =~= sexprs_view(v@));
}

impl Clone for Atom {
    fn clone(&self) -> (r: Self)
        ensures
            r == *self,
    {
        match self {
            Atom::Nil => Atom::Nil,
            Atom::Symbol(s) => Atom::Symbol(s.clone()),
            Atom::Number(n) => Atom::Number(*n),
            Atom::String(s) => Atom::String(s.clone()),
        }
    }
}

/// Copies a sequence of syntax trees.
pub fn clone_sexprs(v: &Vec<Sexpr>) -> (r: Vec<Sexpr>)
    ensures
        sexprs_view(r@) == sexprs_view(v@),
    decreases v, 0nat,
{
    let mut out: Vec<Sexpr> = Vec::new();
    let mut i: usize = 0;
    while i < v.len()
        invariant
            i <= v.len(),
            out.len() == i,
            forall|j: int| 0 <= j < i ==> out[j]@ == v[j]@,
        decreases v.len() - i,
    {
        let c = clone_sexpr(&v[i]);
        out.push(c);
        i += 1;
    }
    assert(sexprs_view(out@) =~= sexprs_view(v@));
    out
}

/// Copies a syntax tree.
pub fn clone_sexpr(e: &Sexpr) -> (r: Sexpr)
    ensures
        r@ == e@,
    decreases e, 1nat,
{
    match e {
        Sexpr::Atom(a) => Sexpr::Atom(a.clone()),
        Sexpr::List(v) => {
            let c = clone_sexprs(v);
            proof {
                lemma_list_view(c);
                lemma_list_view(*v);
            }
            Sexpr::List(c)
        },
        Sexpr::DottedList(v, t) => {
            let c = clone_sexprs(v);
            let ct = Box::new(clone_sexpr(t));
            proof {
                lemma_dotted_view(c, ct);
                lemma_dotted_view(*v, *t);
            }
            Sexpr::DottedList(c, ct)
        },
    }
}

impl Clone for Sexpr {
    fn clone(&self) -> (r: Self)
        ensures
            r@ == self@,
    {
        clone_sexpr(self)
    }
}

} // verus!
