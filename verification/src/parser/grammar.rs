//! The grammar of the Lisp dialect, as functions from a text and a position to
//! what is read there and the position where reading ends.

use vstd::prelude::*;
use crate::parser::ast::{AtomView, SexprView};
use crate::text::{digits_value, is_digit, is_letter, is_line_end, is_space};

verus! {

/// The classes of characters that tokens are made of.
#[derive(Clone, Copy, Debug, PartialEq, Eq)]
pub enum CharClass {
    /// A decimal digit.
    Digit,
    /// A character that may follow the first one of a symbol.
    SymbolChar,
    /// Any character but the double quote that closes a string.
    StringChar,
    /// Any character but those that end a line.
    CommentChar,
}

/// The characters a symbol may start with: a letter or one of `+ - * / > < = ?`.
pub open spec fn is_symbol_start(c: char) -> bool {
    is_letter(c) || c == '+' || c == '-' || c == '*' || c == '/' || c == '>' || c == '<' || c
        == '=' || c == '?'
}

/// The characters a symbol may continue with: a letter, a digit or one of `- ? !`.
pub open spec fn is_symbol_char(c: char) -> bool {
    is_letter(c) || is_digit(c) || c == '-' || c == '?' || c == '!'
}

/// Whether `c` belongs to the class `k`.
pub open spec fn in_class(k: CharClass, c: char) -> bool {
    match k {
        CharClass::Digit => is_digit(c),
        CharClass::SymbolChar => is_symbol_char(c),
        CharClass::StringChar => c != '"',
        CharClass::CommentChar => !is_line_end(c),
    }
}

/// The length of the longest run of characters of class `k` that starts at `i`.
pub open spec fn run_len(s: Seq<char>, i: int, k: CharClass) -> nat
    decreases s.len() - i,
{
    if 0 <= i < s.len() && in_class(k, s[i]) {
        1 + run_len(s, i + 1, k)
    } else {
        0
    }
}

/// The length of the longest stretch of whitespace and line comments that
/// starts at `i`. A comment runs from `;` up to, and without, the end of its
/// line. The comment always ends within the text (`lemma_run_len_bound`); the
/// test of that is there for the recursion to be seen to end.
pub open spec fn ws_len(s: Seq<char>, i: int) -> nat
    decreases s.len() - i,
{
    if 0 <= i < s.len() && is_space(s[i]) {
        1 + ws_len(s, i + 1)
    } else if 0 <= i < s.len() && s[i] == ';' {
        let n = run_len(s, i + 1, CharClass::CommentChar);
        if i + 1 + n <= s.len() {
            1 + n + ws_len(s, i + 1 + n)
        } else {
            0
        }
    } else {
        0
    }
}

/// A number at `i`: one or more digits whose value fits a signed 64-bit integer.
pub open spec fn spec_number(s: Seq<char>, i: int) -> Option<(AtomView, int)> {
    let n = run_len(s, i, CharClass::Digit);
    let v = digits_value(s.subrange(i, i + n));
    if n == 0 || v > i64::MAX {
        None
    } else {
        Some((AtomView::Number(v as int), i + n))
    }
}

/// A string at `i`: a double quote, any characters but a double quote, and a
/// closing double quote.
pub open spec fn spec_string(s: Seq<char>, i: int) -> Option<(AtomView, int)> {
    if 0 <= i < s.len() && s[i] == '"' {
        let n = run_len(s, i + 1, CharClass::StringChar);
        if i + 1 + n < s.len() {
            Some((AtomView::String(s.subrange(i + 1, i + 1 + n)), i + 2 + n))
        } else {
            None
        }
    } else {
        None
    }
}

/// A symbol at `i`: a start character and the longest run of symbol characters.
pub open spec fn spec_symbol(s: Seq<char>, i: int) -> Option<(AtomView, int)> {
    if 0 <= i < s.len() && is_symbol_start(s[i]) {
        let n = run_len(s, i + 1, CharClass::SymbolChar);
        Some((AtomView::Symbol(s.subrange(i, i + 1 + n)), i + 1 + n))
    } else {
        None
    }
}

/// An atom at `i`: a number, else a string, else a symbol.
pub open spec fn spec_atom(s: Seq<char>, i: int) -> Option<(AtomView, int)> {
    match spec_number(s, i) {
        Some(r) => Some(r),
        None => match spec_string(s, i) {
            Some(r) => Some(r),
            None => spec_symbol(s, i),
        },
    }
}

/// The symbol `quote`, which the shorthand `'x` is read as a list of.
pub open spec fn quote_symbol() -> SexprView {
    SexprView::Atom(AtomView::Symbol("quote"@))
}

/// What stands between an opening parenthesis and its closing one: the
/// elements, the tail after a dot if there is one, and the position after the
/// closing parenthesis.
pub struct ListBody {
    pub elements: Seq<SexprView>,
    pub tail: Option<SexprView>,
    pub end: int,
}

/// The expression that a parenthesised body stands for: `Nil` where it is
/// empty, a proper list, or a dotted list, whose head is never empty.
pub open spec fn list_of_body(b: Option<ListBody>) -> Option<(SexprView, int)> {
    match b {
        Some(body) => if body.elements.len() == 0 {
            if body.tail is None {
                Some((SexprView::Atom(AtomView::Nil), body.end))
            } else {
                None
            }
        } else {
            match body.tail {
                None => Some((SexprView::List(body.elements), body.end)),
                Some(t) => Some((SexprView::DottedList(body.elements, Box::new(t)), body.end)),
            }
        },
        None => None,
    }
}

/// A list body with the elements `acc` put before its own.
pub open spec fn prepend_elements(acc: Seq<SexprView>, b: Option<ListBody>) -> Option<ListBody> {
    match b {
        Some(body) => Some(
            ListBody { elements: acc + body.elements, tail: body.tail, end: body.end },
        ),
        None => None,
    }
}

/// One expression at `i`, after any whitespace and comments: a quoted
/// expression, a list, or an atom. Gives the expression and the position
/// after it, or `None` where no expression can be read.
pub open spec fn spec_sexpr(s: Seq<char>, i: int) -> Option<(SexprView, int)>
    decreases s.len() - i, 0nat,
{
    let j = i + ws_len(s, i);
    if !(0 <= j < s.len()) {
        None
    } else if s[j] == '\'' {
        match spec_sexpr(s, j + 1) {
            Some((e, end)) => Some((SexprView::List(seq![quote_symbol(), e]), end)),
            None => None,
        }
    } else if s[j] == '(' {
        list_of_body(spec_list_body(s, j + 1))
    } else {
        match spec_atom(s, j) {
            Some((a, end)) => Some((SexprView::Atom(a), end)),
            None => None,
        }
    }
}

/// The rest of a list from `i` on: expressions up to a closing parenthesis, or
/// up to a dot that one more expression and the closing parenthesis follow.
/// An expression always ends after its start and within the text
/// (`lemma_sexpr_end`); the test of that is there for the recursion to be
/// seen to end.
pub open spec fn spec_list_body(s: Seq<char>, i: int) -> Option<ListBody>
    decreases s.len() - i, 1nat,
{
    let k = i + ws_len(s, i);
    if !(0 <= k < s.len()) {
        None
    } else if s[k] == ')' {
        Some(ListBody { elements: Seq::empty(), tail: None, end: k + 1 })
    } else if s[k] == '.' {
        match spec_sexpr(s, k + 1) {
            Some((t, m)) => {
                let n = m + ws_len(s, m);
                if 0 <= n < s.len() && s[n] == ')' {
                    Some(ListBody { elements: Seq::empty(), tail: Some(t), end: n + 1 })
                } else {
                    None
                }
            },
            None => None,
        }
    } else {
        match spec_sexpr(s, k) {
            Some((e, m)) => if k < m <= s.len() {
                match spec_list_body(s, m) {
                    Some(rest) => Some(
                        ListBody { elements: seq![e] + rest.elements, tail: rest.tail, end: rest.end },
                    ),
                    None => None,
                }
            } else {
                None
            },
            None => None,
        }
    }
}

/// The expressions read one after another from `i` on, and the position where
/// no further expression can be read. An expression always ends after its
/// start and within the text (`lemma_sexpr_end`); the test of that is there
/// for the recursion to be seen to end.
pub open spec fn spec_toplevel(s: Seq<char>, i: int) -> (Seq<SexprView>, int)
    decreases s.len() - i,
{
    match spec_sexpr(s, i) {
        Some((e, m)) => if i < m <= s.len() {
            let rest = spec_toplevel(s, m);
            (seq![e] + rest.0, rest.1)
        } else {
            (Seq::empty(), i)
        },
        None => (Seq::empty(), i),
    }
}

/// A run stays within the text.
pub proof fn lemma_run_len_bound(s: Seq<char>, i: int, k: CharClass)
    requires
        0 <= i <= s.len(),
    ensures
        i + run_len(s, i, k) <= s.len(),
        forall|j: int| i <= j < i + run_len(s, i, k) ==> in_class(k, #[trigger] s[j]),
        i + run_len(s, i, k) < s.len() ==> !in_class(k, s[i + run_len(s, i, k)]),
    decreases s.len() - i,
{
    if i < s.len() && in_class(k, s[i]) {
        lemma_run_len_bound(s, i + 1, k);
    }
}

/// Whitespace and comments stay within the text, and what follows them is
/// neither whitespace nor the start of a comment.
pub proof fn lemma_ws_len_bound(s: Seq<char>, i: int)
    requires
        0 <= i <= s.len(),
    ensures
        i + ws_len(s, i) <= s.len(),
        i + ws_len(s, i) < s.len() ==> !is_space(s[i + ws_len(s, i)]) && s[i + ws_len(s, i)] != ';',
    decreases s.len() - i,
{
    if i < s.len() && is_space(s[i]) {
        lemma_ws_len_bound(s, i + 1);
    } else if i < s.len() && s[i] == ';' {
        let n = run_len(s, i + 1, CharClass::CommentChar);
        lemma_run_len_bound(s, i + 1, CharClass::CommentChar);
        lemma_ws_len_bound(s, i + 1 + n);
    }
}

/// An atom that is read ends after its start and within the text.
pub proof fn lemma_atom_end(s: Seq<char>, i: int)
    requires
        0 <= i <= s.len(),
    ensures
        spec_atom(s, i) matches Some((_, end)) ==> i < end <= s.len(),
{
    lemma_run_len_bound(s, i, CharClass::Digit);
    if i < s.len() {
        lemma_run_len_bound(s, i + 1, CharClass::StringChar);
        lemma_run_len_bound(s, i + 1, CharClass::SymbolChar);
    }
}

/// An expression that is read ends after its start and within the text.
pub proof fn lemma_sexpr_end(s: Seq<char>, i: int)
    requires
        0 <= i <= s.len(),
    ensures
        spec_sexpr(s, i) matches Some((_, end)) ==> i < end <= s.len(),
    decreases s.len() - i, 0nat,
{
    lemma_ws_len_bound(s, i);
    let j = i + ws_len(s, i);
    if 0 <= j < s.len() {
        if s[j] == '\'' {
            lemma_sexpr_end(s, j + 1);
        } else if s[j] == '(' {
            lemma_list_body_end(s, j + 1);
        } else {
            lemma_atom_end(s, j);
        }
    }
}

/// A list body that is read ends after its start and within the text.
pub proof fn lemma_list_body_end(s: Seq<char>, i: int)
    requires
        0 <= i <= s.len(),
    ensures
        spec_list_body(s, i) matches Some(body) ==> i < body.end <= s.len(),
    decreases s.len() - i, 1nat,
{
    lemma_ws_len_bound(s, i);
    let k = i + ws_len(s, i);
    if 0 <= k < s.len() {
        if s[k] == ')' {
        } else if s[k] == '.' {
            lemma_sexpr_end(s, k + 1);
            match spec_sexpr(s, k + 1) {
                Some((t, m)) => {
                    lemma_ws_len_bound(s, m);
                },
                None => {},
            }
        } else {
            lemma_sexpr_end(s, k);
            match spec_sexpr(s, k) {
                Some((e, m)) => {
                    lemma_list_body_end(s, m);
                },
                None => {},
            }
        }
    }
}

/// Reading at top level ends within the text.
pub proof fn lemma_toplevel_end(s: Seq<char>, i: int)
    requires
        0 <= i <= s.len(),
    ensures
        i <= spec_toplevel(s, i).1 <= s.len(),
    decreases s.len() - i,
{
    match spec_sexpr(s, i) {
        Some((e, m)) => {
            if i < m <= s.len() {
                lemma_toplevel_end(s, m);
            }
        },
        None => {},
    }
}

} // verus!
