//! The reader: from text to syntax trees.

use vstd::prelude::*;
use vstd::string::*;
use crate::parser::ast::{
    lemma_dotted_view, lemma_list_view, sexprs_view, Atom, AtomView, Sexpr, SexprView,
};
use crate::parser::laws::{all_readable, lemma_sexpr_readable, lemma_toplevel_readable, readable};
use crate::parser::grammar::{
    in_class, is_symbol_start, lemma_run_len_bound, lemma_sexpr_end, lemma_toplevel_end,
    list_of_body, prepend_elements, quote_symbol, run_len, spec_atom, spec_list_body, spec_number,
    spec_sexpr, spec_string, spec_symbol, spec_toplevel, ws_len, CharClass,
};
use crate::text::{
    chars_of, digit_of, digits_value, is_digit, is_digit_char, is_letter_char, is_space_char,
    lemma_digits_prefix, lemma_digits_value_push, string_of,
};

verus! {

/// What reading an atom gave, as a model: the atom and the position after it.
pub open spec fn atom_read_view(r: Option<(Atom, usize)>) -> Option<(AtomView, int)> {
    match r {
        Some((a, end)) => Some((a@, end as int)),
        None => None,
    }
}

/// What reading an expression gave, as a model: the expression and the
/// position after it.
pub open spec fn sexpr_read_view(r: Option<(Sexpr, usize)>) -> Option<(SexprView, int)> {
    match r {
        Some((e, end)) => Some((e@, end as int)),
        None => None,
    }
}

fn class_has(k: CharClass, c: char) -> (b: bool)
    ensures
        b == in_class(k, c),
{
    match k {
        CharClass::Digit => is_digit_char(c),
        CharClass::SymbolChar => is_letter_char(c) || is_digit_char(c) || c == '-' || c == '?' || c
            == '!',
        CharClass::StringChar => c != '"',
        CharClass::CommentChar => !(c == '\n' || c == '\r'),
    }
}

fn symbol_start(c: char) -> (b: bool)
    ensures
        b == is_symbol_start(c),
{
    is_letter_char(c) || c == '+' || c == '-' || c == '*' || c == '/' || c == '>' || c == '<' || c
        == '=' || c == '?'
}

/// The end of the longest run of characters of class `k` that starts at `pos`.
fn scan_run(chars: &Vec<char>, pos: usize, k: CharClass) -> (end: usize)
    requires
        pos <= chars.len(),
    ensures
        end == pos + run_len(chars@, pos as int, k),
        end <= chars.len(),
{
    let mut i: usize = pos;
    while i < chars.len() && class_has(k, chars[i])
        invariant
            pos <= i <= chars.len(),
            run_len(chars@, pos as int, k) == (i - pos) + run_len(chars@, i as int, k),
        decreases chars.len() - i,
    {
        i += 1;
    }
    i
}

/// The position after the whitespace and comments that start at `pos`.
pub(crate) fn skip_ws(chars: &Vec<char>, pos: usize) -> (end: usize)
    requires
        pos <= chars.len(),
    ensures
        end == pos + ws_len(chars@, pos as int),
        end <= chars.len(),
{
    let mut i: usize = pos;
    let mut done = false;
    while !done
        invariant
            pos <= i <= chars.len(),
            ws_len(chars@, pos as int) == (i - pos) + ws_len(chars@, i as int),
            done ==> ws_len(chars@, i as int) == 0,
        decreases chars.len() - i, if done { 0nat } else { 1nat },
    {
        if i >= chars.len() {
            done = true;
        } else {
            let c = chars[i];
            if is_space_char(c) {
                i += 1;
            } else if c == ';' {
                i = scan_run(chars, i + 1, CharClass::CommentChar);
            } else {
                done = true;
            }
        }
    }
    i
}

/// Reads a number at `pos`.
pub(crate) fn parse_number(chars: &Vec<char>, pos: usize) -> (r: Option<(Atom, usize)>)
    requires
        pos <= chars.len(),
    ensures
        atom_read_view(r) == spec_number(chars@, pos as int),
{
    let end = scan_run(chars, pos, CharClass::Digit);
    if end == pos {
        return None;
    }
    proof {
        lemma_run_len_bound(chars@, pos as int, CharClass::Digit);
    }
    let mut acc: u64 = 0;
    let mut i: usize = pos;
    assert(chars@.subrange(pos as int, pos as int).len() == 0);
    while i < end
        invariant
            pos <= i <= end <= chars.len(),
            pos < end,
            end == pos + run_len(chars@, pos as int, CharClass::Digit),
            forall|j: int| pos <= j < end ==> is_digit(#[trigger] chars@[j]),
            acc == digits_value(chars@.subrange(pos as int, i as int)),
            acc <= i64::MAX,
        decreases end - i,
    {
        let d = digit_of(chars[i]);
        proof {
            lemma_digits_value_push(chars@.subrange(pos as int, i as int), chars@[i as int]);
            assert(chars@.subrange(pos as int, i as int).push(chars@[i as int]) =~= chars@.subrange(
                pos as int,
                i + 1,
            ));
            lemma_digits_prefix(chars@, pos as int, i + 1, end as int);
        }
        if acc > (9223372036854775807u64 - d) / 10 {
            return None;
        }
        acc = acc * 10 + d;
        i += 1;
    }
    Some((Atom::Number(acc as i64), end))
}

/// Reads a string at `pos`.
pub(crate) fn parse_string(chars: &Vec<char>, pos: usize) -> (r: Option<(Atom, usize)>)
    requires
        pos <= chars.len(),
    ensures
        atom_read_view(r) == spec_string(chars@, pos as int),
{
    if pos < chars.len() && chars[pos] == '"' {
        let end = scan_run(chars, pos + 1, CharClass::StringChar);
        if end < chars.len() {
            Some((Atom::String(string_of(chars, pos + 1, end)), end + 1))
        } else {
            None
        }
    } else {
        None
    }
}

/// Reads a symbol at `pos`.
pub(crate) fn parse_symbol(chars: &Vec<char>, pos: usize) -> (r: Option<(Atom, usize)>)
    requires
        pos <= chars.len(),
    ensures
        atom_read_view(r) == spec_symbol(chars@, pos as int),
{
    if pos < chars.len() && symbol_start(chars[pos]) {
        let end = scan_run(chars, pos + 1, CharClass::SymbolChar);
        Some((Atom::Symbol(string_of(chars, pos, end)), end))
    } else {
        None
    }
}

/// Reads an atom at `pos`: a number, else a string, else a symbol.
pub(crate) fn parse_atom_at(chars: &Vec<char>, pos: usize) -> (r: Option<(Atom, usize)>)
    requires
        pos <= chars.len(),
    ensures
        atom_read_view(r) == spec_atom(chars@, pos as int),
{
    match parse_number(chars, pos) {
        Some(r) => Some(r),
        None => match parse_string(chars, pos) {
            Some(r) => Some(r),
            None => parse_symbol(chars, pos),
        },
    }
}

/// Reads the rest of a list, from the position after its opening parenthesis.
pub(crate) fn parse_list(chars: &Vec<char>, start: usize) -> (r: Option<(Sexpr, usize)>)
    requires
        start <= chars.len(),
    ensures
        sexpr_read_view(r) == list_of_body(spec_list_body(chars@, start as int)),
        r matches Some((_, end)) ==> start < end <= chars.len(),
    decreases chars.len() - start, 1nat,
{
    let ghost s = chars@;
    let mut elements: Vec<Sexpr> = Vec::new();
    let mut cur: usize = start;
    assert(sexprs_view(elements@) + spec_list_body(s, start as int).unwrap().elements
        =~= spec_list_body(s, start as int).unwrap().elements);
    loop
        invariant
            s == chars@,
            start <= cur <= chars.len(),
            cur == start <==> elements.len() == 0,
            spec_list_body(s, start as int) == prepend_elements(
                sexprs_view(elements@),
                spec_list_body(s, cur as int),
            ),
        decreases chars.len() - cur,
    {
        let k = skip_ws(chars, cur);
        if k >= chars.len() {
            return None;
        }
        let c = chars[k];
        if c == ')' {
            assert(sexprs_view(elements@) + Seq::<SexprView>::empty() =~= sexprs_view(elements@));
            if elements.len() == 0 {
                return Some((Sexpr::Atom(Atom::Nil), k + 1));
            } else {
                proof {
                    lemma_list_view(elements);
                }
                return Some((Sexpr::List(elements), k + 1));
            }
        } else if c == '.' {
            match parse_sexpr_at(chars, k + 1) {
                Some((t, m)) => {
                    let n = skip_ws(chars, m);
                    if n < chars.len() && chars[n] == ')' {
                        assert(sexprs_view(elements@) + Seq::<SexprView>::empty() =~= sexprs_view(
                            elements@,
                        ));
                        if elements.len() == 0 {
                            return None;
                        } else {
                            let tail = Box::new(t);
                            proof {
                                lemma_dotted_view(elements, tail);
                            }
                            return Some((Sexpr::DottedList(elements, tail), n + 1));
                        }
                    } else {
                        return None;
                    }
                },
                None => {
                    return None;
                },
            }
        } else {
            match parse_sexpr_at(chars, k) {
                Some((e, m)) => {
                    proof {
                        let rest = spec_list_body(s, m as int);
                        if rest is Some {
                            assert(sexprs_view(elements@) + (seq![e@] + rest.unwrap().elements)
                                =~= sexprs_view(elements@.push(e)) + rest.unwrap().elements);
                        }
                    }
                    elements.push(e);
                    cur = m;
                },
                None => {
                    return None;
                },
            }
        }
    }
}

/// Reads one expression at `pos`, after any whitespace and comments.
pub(crate) fn parse_sexpr_at(chars: &Vec<char>, pos: usize) -> (r: Option<(Sexpr, usize)>)
    requires
        pos <= chars.len(),
    ensures
        sexpr_read_view(r) == spec_sexpr(chars@, pos as int),
        r matches Some((_, end)) ==> pos < end <= chars.len(),
    decreases chars.len() - pos, 0nat,
{
    proof {
        lemma_sexpr_end(chars@, pos as int);
    }
    let j = skip_ws(chars, pos);
    if j >= chars.len() {
        return None;
    }
    let c = chars[j];
    if c == '\'' {
        match parse_sexpr_at(chars, j + 1) {
            Some((e, end)) => {
                let mut items: Vec<Sexpr> = Vec::new();
                items.push(Sexpr::Atom(Atom::Symbol("quote".to_owned())));
                items.push(e);
                proof {
                    lemma_list_view(items);
                    assert(sexprs_view(items@) =~= seq![quote_symbol(), e@]);
                }
                Some((Sexpr::List(items), end))
            },
            None => None,
        }
    } else if c == '(' {
        parse_list(chars, j + 1)
    } else {
        match parse_atom_at(chars, j) {
            Some((a, end)) => Some((Sexpr::Atom(a), end)),
            None => None,
        }
    }
}

/// Reads expressions one after another from `pos` on, until no further
/// expression can be read.
pub(crate) fn parse_all(chars: &Vec<char>, pos: usize) -> (r: (Vec<Sexpr>, usize))
    requires
        pos <= chars.len(),
    ensures
        sexprs_view(r.0@) == spec_toplevel(chars@, pos as int).0,
        r.1 == spec_toplevel(chars@, pos as int).1,
        pos <= r.1 <= chars.len(),
{
    let ghost s = chars@;
    let mut out: Vec<Sexpr> = Vec::new();
    let mut cur: usize = pos;
    let mut done = false;
    proof {
        lemma_toplevel_end(s, pos as int);
        assert(sexprs_view(out@) + spec_toplevel(s, pos as int).0 =~= spec_toplevel(s, pos as int).0);
    }
    while !done
        invariant
            s == chars@,
            pos <= cur <= chars.len(),
            spec_toplevel(s, pos as int).0 == sexprs_view(out@) + spec_toplevel(s, cur as int).0,
            spec_toplevel(s, pos as int).1 == spec_toplevel(s, cur as int).1,
            done ==> spec_toplevel(s, cur as int) == (Seq::<SexprView>::empty(), cur as int),
        decreases chars.len() - cur, if done { 0nat } else { 1nat },
    {
        match parse_sexpr_at(chars, cur) {
            Some((e, m)) => {
                proof {
                    let rest = spec_toplevel(s, m as int);
                    assert(sexprs_view(out@) + (seq![e@] + rest.0) =~= sexprs_view(out@.push(e))
                        + rest.0);
                }
                out.push(e);
                cur = m;
            },
            None => {
                done = true;
            },
        }
    }
    assert(sexprs_view(out@) + Seq::<SexprView>::empty() =~= sexprs_view(out@));
    (out, cur)
}

/// Skips leading whitespace and line comments. Gives the text that is left
/// and the text that was skipped.
pub fn ws<'a>(input: &'a str) -> (r: (&'a str, &'a str))
    ensures
        r.0@ == input@.skip(ws_len(input@, 0) as int),
        r.1@ == input@.take(ws_len(input@, 0) as int),
{
    let chars = chars_of(input);
    let end = skip_ws(&chars, 0);
    let rest = input.substring_char(end, chars.len());
    let skipped = input.substring_char(0, end);
    (rest, skipped)
}

/// Reads one atom at the start of `input`. Gives the text after it and the
/// atom, or `None` where the text does not start with an atom.
pub fn parse_atom<'a>(input: &'a str) -> (r: Option<(&'a str, Atom)>)
    ensures
        match spec_atom(input@, 0) {
            Some((a, end)) => r matches Some((rest, x)) && x@ == a && rest@ == input@.skip(end),
            None => r is None,
        },
{
    let chars = chars_of(input);
    match parse_atom_at(&chars, 0) {
        Some((a, end)) => {
            proof {
                crate::parser::grammar::lemma_atom_end(chars@, 0);
            }
            Some((input.substring_char(end, chars.len()), a))
        },
        None => None,
    }
}

/// Reads one expression at the start of `input`, after any whitespace and
/// comments. Gives the text after it and the expression, or `None` where no
/// expression can be read.
pub fn parse_sexpr<'a>(input: &'a str) -> (r: Option<(&'a str, Sexpr)>)
    ensures
        match spec_sexpr(input@, 0) {
            Some((e, end)) => r matches Some((rest, x)) && x@ == e && rest@ == input@.skip(end),
            None => r is None,
        },
        r matches Some((_, x)) ==> readable(x@),
{
    proof {
        lemma_sexpr_readable(input@, 0);
    }
    let chars = chars_of(input);
    match parse_sexpr_at(&chars, 0) {
        Some((e, end)) => Some((input.substring_char(end, chars.len()), e)),
        None => None,
    }
}

/// Reads the expressions of a whole text, one after another. Reading never
/// fails: it stops where no further expression can be read, and gives the
/// text from there on together with the expressions read so far.
pub fn parse_toplevel<'a>(input: &'a str) -> (r: (&'a str, Vec<Sexpr>))
    ensures
        sexprs_view(r.1@) == spec_toplevel(input@, 0).0,
        r.0@ == input@.skip(spec_toplevel(input@, 0).1),
        all_readable(sexprs_view(r.1@)),
{
    proof {
        lemma_toplevel_readable(input@, 0);
    }
    let chars = chars_of(input);
    let (exprs, end) = parse_all(&chars, 0);
    (input.substring_char(end, chars.len()), exprs)
}

/// Reads the expressions of a whole text; the same as [`parse_toplevel`].
pub fn parse<'a>(input: &'a str) -> (r: (&'a str, Vec<Sexpr>))
    ensures
        sexprs_view(r.1@) == spec_toplevel(input@, 0).0,
        r.0@ == input@.skip(spec_toplevel(input@, 0).1),
        all_readable(sexprs_view(r.1@)),
{
    parse_toplevel(input)
}

} // verus!
