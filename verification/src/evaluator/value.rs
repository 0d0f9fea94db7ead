//! Runtime values, evaluation errors and environments, with their models.

use vstd::prelude::*;
use std::rc::Rc;
use crate::parser::ast::{clone_sexprs, sexprs_view, Sexpr, SexprView};

verus! {

/// The built-in functions.
#[derive(Clone, Copy, Debug, PartialEq, Eq)]
pub enum PrimitiveFn {
    /// `cons`: makes a pair.
    Cons,
    /// `car`: the first part of a pair.
    Car,
    /// `cdr`: the second part of a pair.
    Cdr,
    /// `null?`: whether a value is the empty list.
    Null,
    /// `equal?`: structural equality.
    Equal,
    /// `assoc`: looks a key up in an association list.
    Assoc,
    /// `group-by`: partitions a list by a key function.
    GroupBy,
}

/// A runtime value: the result of evaluating an expression.
#[derive(Debug)]
pub enum Value {
    /// The empty list.
    Nil,
    /// A boolean.
    Bool(bool),
    /// An integer.
    Number(i64),
    /// A string.
    String(String),
    /// A symbol, unevaluated.
    Symbol(String),
    /// A pair. Its parts are shared, and never change once the pair is made.
    Cons(Rc<Value>, Rc<Value>),
    /// A built-in function.
    Primitive(PrimitiveFn),
    /// A user-defined function together with the frame it was made in,
    /// which the function refers to by its number in the environment.
    Lambda { params: Vec<String>, body: Vec<Sexpr>, closure: usize },
}

/// A frame of variable bindings, and the number of the frame above it.
#[derive(Debug)]
pub struct Frame {
    bindings: Vec<(String, Value)>,
    parent: Option<usize>,
}

/// An environment: all the frames that were ever made in it, each with its
/// bindings and its parent, and the number of the current frame. Frames are
/// never removed, so that a function can refer to the frame it was made in
/// for as long as the environment lives, and sees every binding that is
/// added to that frame later.
#[derive(Debug)]
pub struct Environment {
    frames: Vec<Frame>,
    current: usize,
}

/// The model of a [`Value`].
pub enum ValueView {
    Nil,
    Bool(bool),
    Number(int),
    String(Seq<char>),
    Symbol(Seq<char>),
    Cons(Box<ValueView>, Box<ValueView>),
    Primitive(PrimitiveFn),
    Lambda { params: Seq<Seq<char>>, body: Seq<SexprView>, closure: nat },
}

/// The model of a [`Frame`]: its bindings as a map from names to values,
/// and the number of its parent frame.
pub struct FrameView {
    pub bindings: Map<Seq<char>, ValueView>,
    pub parent: Option<nat>,
}

/// The model of an [`Environment`]: its frames by their numbers, and the
/// number of the current frame.
pub struct EnvView {
    pub frames: Seq<FrameView>,
    pub current: nat,
}

impl FrameView {
    /// A frame without bindings below the frame `parent`.
    pub open spec fn below(parent: Option<nat>) -> FrameView {
        FrameView { bindings: Map::empty(), parent }
    }

    /// The frame with `name` bound to `value`.
    pub open spec fn bind(self, name: Seq<char>, value: ValueView) -> FrameView {
        FrameView { bindings: self.bindings.insert(name, value), parent: self.parent }
    }
}

impl EnvView {
    /// An environment of one frame, with no bindings.
    pub open spec fn empty() -> EnvView {
        EnvView { frames: seq![FrameView::below(None)], current: 0 }
    }

    /// Whether the environment has a frame of the number `id`.
    pub open spec fn has_frame(self, id: nat) -> bool {
        id < self.frames.len()
    }

    /// The environment with a fresh frame below the frame `parent`, which
    /// is made the current frame.
    pub open spec fn child_of(self, parent: nat) -> EnvView {
        EnvView {
            frames: self.frames.push(FrameView::below(Some(parent))),
            current: self.frames.len(),
        }
    }

    /// The environment with the frame `id` made the current frame.
    pub open spec fn at(self, id: nat) -> EnvView {
        EnvView { frames: self.frames, current: id }
    }

    /// The value bound to `name` in the nearest frame that binds it, looking
    /// from the frame `id` up through its parents. A parent has a smaller
    /// number than its child; a frame that names no such parent is where
    /// the search ends.
    pub open spec fn lookup(self, id: nat, name: Seq<char>) -> Option<ValueView>
        decreases id,
    {
        if id >= self.frames.len() {
            None
        } else if self.frames[id as int].bindings.contains_key(name) {
            Some(self.frames[id as int].bindings[name])
        } else {
            match self.frames[id as int].parent {
                Some(p) => if p < id {
                    self.lookup(p, name)
                } else {
                    None
                },
                None => None,
            }
        }
    }

    /// The value bound to `name` in the nearest frame that binds it, looking
    /// from the current frame up through its parents.
    pub open spec fn get(self, name: Seq<char>) -> Option<ValueView> {
        self.lookup(self.current, name)
    }

    /// Whether the current frame itself binds `name`.
    pub open spec fn binds_here(self, name: Seq<char>) -> bool {
        self.current < self.frames.len() && self.frames[self.current as int].bindings.contains_key(
            name,
        )
    }

    /// The environment with `name` bound to `value` in the current frame.
    /// An environment whose current frame does not exist stays as it is.
    pub open spec fn define(self, name: Seq<char>, value: ValueView) -> EnvView {
        if self.current < self.frames.len() {
            EnvView {
                frames: self.frames.update(
                    self.current as int,
                    self.frames[self.current as int].bind(name, value),
                ),
                current: self.current,
            }
        } else {
            self
        }
    }
}

/// The texts of a sequence of strings, in order.
pub open spec fn strings_view(v: Seq<String>) -> Seq<Seq<char>> {
    Seq::new(v.len(), |i: int| v[i]@)
}

/// The models of a sequence of values, in order.
pub open spec fn values_view(v: Seq<Value>) -> Seq<ValueView> {
    Seq::new(v.len(), |i: int| v[i]@)
}

/// The model of a value.
pub open spec fn value_view(v: Value) -> ValueView
    decreases v,
{
    match v {
        Value::Nil => ValueView::Nil,
        Value::Bool(b) => ValueView::Bool(b),
        Value::Number(n) => ValueView::Number(n as int),
        Value::String(s) => ValueView::String(s@),
        Value::Symbol(s) => ValueView::Symbol(s@),
        Value::Cons(a, d) => ValueView::Cons(Box::new(value_view(*a)), Box::new(value_view(*d))),
        Value::Primitive(p) => ValueView::Primitive(p),
        Value::Lambda { params, body, closure } => ValueView::Lambda {
            params: strings_view(params@),
            body: sexprs_view(body@),
            closure: closure as nat,
        },
    }
}

/// The map that the first `n` bindings of a frame stand for: a later binding
/// of a name hides an earlier one.
pub closed spec fn bindings_view(b: Seq<(String, Value)>, n: nat) -> Map<Seq<char>, ValueView>
    decreases n,
{
    if n == 0 || n > b.len() {
        Map::empty()
    } else {
        bindings_view(b, (n - 1) as nat).insert(b[n - 1].0@, value_view(b[n - 1].1))
    }
}

/// The model of a frame.
pub closed spec fn frame_view(f: Frame) -> FrameView {
    FrameView {
        bindings: bindings_view(f.bindings@, f.bindings.len() as nat),
        parent: match f.parent {
            Some(p) => Some(p as nat),
            None => None,
        },
    }
}

/// The model of an environment.
pub closed spec fn env_view(e: Environment) -> EnvView {
    EnvView {
        frames: Seq::new(e.frames.len() as nat, |i: int| frame_view(e.frames[i])),
        current: e.current as nat,
    }
}

/// The model of an optional value.
pub open spec fn option_view(v: Option<Value>) -> Option<ValueView> {
    match v {
        Some(x) => Some(x@),
        None => None,
    }
}

impl View for Value {
    type V = ValueView;

    open spec fn view(&self) -> ValueView {
        value_view(*self)
    }
}

impl View for Environment {
    type V = EnvView;

    open spec fn view(&self) -> EnvView {
        env_view(*self)
    }
}

/// An error of evaluation.
#[derive(Debug, PartialEq)]
pub enum EvalError {
    /// A symbol that no frame binds.
    UndefinedVariable(String),
    /// A value of the wrong shape for an operation.
    TypeError(String),
    /// A wrong number of arguments.
    ArityError { expected: String, got: usize },
    /// Any other failure.
    RuntimeError(String),
}

/// The model of an [`EvalError`].
pub enum EvalErrorView {
    UndefinedVariable(Seq<char>),
    TypeError(Seq<char>),
    ArityError { expected: Seq<char>, got: nat },
    RuntimeError(Seq<char>),
}

impl View for EvalError {
    type V = EvalErrorView;

    open spec fn view(&self) -> EvalErrorView {
        match self {
            EvalError::UndefinedVariable(s) => EvalErrorView::UndefinedVariable(s@),
            EvalError::TypeError(s) => EvalErrorView::TypeError(s@),
            EvalError::ArityError { expected, got } => EvalErrorView::ArityError {
                expected: expected@,
                got: *got as nat,
            },
            EvalError::RuntimeError(s) => EvalErrorView::RuntimeError(s@),
        }
    }
}

/// The model of the result of an evaluation.
pub open spec fn result_view(r: Result<Value, EvalError>) -> Result<ValueView, EvalErrorView> {
    match r {
        Ok(v) => Ok(v@),
        Err(e) => Err(e@),
    }
}

/// A second handle to a shared value: `Rc::clone` gives a pointer to the same
/// allocation, so what it points to is the same value.
#[verifier::external_body]
pub(crate) fn rc_clone<T>(rc: &Rc<T>) -> (res: Rc<T>)
    ensures
        res == *rc,
{
    Rc::clone(rc)
}

/// Copies a sequence of strings.
pub fn clone_strings(v: &Vec<String>) -> (r: Vec<String>)
    ensures
        strings_view(r@) == strings_view(v@),
{
    let mut out: Vec<String> = Vec::new();
    let mut i: usize = 0;
    while i < v.len()
        invariant
            i <= v.len(),
            out.len() == i,
            forall|j: int| 0 <= j < i ==> out[j]@ == v[j]@,
        decreases v.len() - i,
    {
        out.push(v[i].clone());
        i += 1;
    }
    assert(strings_view(out@) =~= strings_view(v@));
    out
}

impl Clone for Value {
    /// A copy of the value. The parts of a pair are shared with the value
    /// that was copied; a function keeps referring to the same frame.
    fn clone(&self) -> (r: Self)
        ensures
            r@ == self@,
    {
        match self {
            Value::Nil => Value::Nil,
            Value::Bool(b) => Value::Bool(*b),
            Value::Number(n) => Value::Number(*n),
            Value::String(s) => Value::String(s.clone()),
            Value::Symbol(s) => Value::Symbol(s.clone()),
            Value::Cons(a, d) => Value::Cons(rc_clone(a), rc_clone(d)),
            Value::Primitive(p) => Value::Primitive(*p),
            Value::Lambda { params, body, closure } => Value::Lambda {
                params: clone_strings(params),
                body: clone_sexprs(body),
                closure: *closure,
            },
        }
    }
}

/// Frames whose first `n` bindings agree, name by name and value by value,
/// stand for the same map.
proof fn lemma_bindings_agree(a: Seq<(String, Value)>, b: Seq<(String, Value)>, n: nat)
    requires
        n <= a.len(),
        n <= b.len(),
        forall|j: int| 0 <= j < n ==> a[j].0@ == b[j].0@ && a[j].1@ == b[j].1@,
    ensures
        bindings_view(a, n) == bindings_view(b, n),
    decreases n,
{
    if n > 0 {
        lemma_bindings_agree(a, b, (n - 1) as nat);
    }
}

/// Where no binding among the first `n` has the name, the map has no such key.
proof fn lemma_bindings_absent(b: Seq<(String, Value)>, n: nat, name: Seq<char>)
    requires
        n <= b.len(),
        forall|j: int| 0 <= j < n ==> b[j].0@ != name,
    ensures
        !bindings_view(b, n).contains_key(name),
    decreases n,
{
    if n > 0 {
        lemma_bindings_absent(b, (n - 1) as nat, name);
    }
}

/// The last binding of a name among the first `n` is the one the map holds.
proof fn lemma_bindings_last(b: Seq<(String, Value)>, n: nat, i: int, name: Seq<char>)
    requires
        0 <= i < n <= b.len(),
        b[i].0@ == name,
        forall|j: int| i < j < n ==> b[j].0@ != name,
    ensures
        bindings_view(b, n).contains_key(name),
        bindings_view(b, n)[name] == b[i].1@,
    decreases n,
{
    if n > i + 1 {
        lemma_bindings_last(b, (n - 1) as nat, i, name);
    }
}

/// Replacing the last binding of a name binds the name anew in the map.
proof fn lemma_bindings_replace(
    a: Seq<(String, Value)>,
    b: Seq<(String, Value)>,
    n: nat,
    i: int,
    name: Seq<char>,
    value: ValueView,
)
    requires
        0 <= i < n <= a.len(),
        a.len() == b.len(),
        a[i].0@ == name,
        forall|j: int| i < j < n ==> a[j].0@ != name,
        b[i].0@ == name,
        b[i].1@ == value,
        forall|j: int| 0 <= j < n && j != i ==> a[j].0@ == b[j].0@ && a[j].1@ == b[j].1@,
    ensures
        bindings_view(b, n) == bindings_view(a, n).insert(name, value),
    decreases n,
{
    if n == i + 1 {
        lemma_bindings_agree(a, b, i as nat);
        assert(bindings_view(b, n) =~= bindings_view(a, n).insert(name, value));
    } else {
        lemma_bindings_replace(a, b, (n - 1) as nat, i, name, value);
        assert(bindings_view(b, n) =~= bindings_view(a, n).insert(name, value));
    }
}

impl Frame {
    /// A frame without bindings below the frame `parent`.
    fn below(parent: Option<usize>) -> (r: Frame)
        ensures
            frame_view(r) == FrameView::below(
                match parent {
                    Some(p) => Some(p as nat),
                    None => None,
                },
            ),
    {
        let r = Frame { bindings: Vec::new(), parent };
        assert(bindings_view(r.bindings@, 0) =~= Map::empty());
        r
    }

    /// The place of the last binding of `name` in the frame.
    fn find(&self, name: &str) -> (r: Option<usize>)
        ensures
            match r {
                Some(i) => i < self.bindings.len() && self.bindings[i as int].0@ == name@
                    && frame_view(*self).bindings.contains_key(name@) && frame_view(
                    *self,
                ).bindings[name@] == self.bindings[i as int].1@ && forall|j: int|
                    i < j < self.bindings.len() ==> (#[trigger] self.bindings[j]).0@ != name@,
                None => !frame_view(*self).bindings.contains_key(name@) && forall|j: int|
                    0 <= j < self.bindings.len() ==> (#[trigger] self.bindings[j]).0@ != name@,
            },
    {
        let mut i: usize = self.bindings.len();
        while i > 0
            invariant
                i <= self.bindings.len(),
                forall|j: int|
                    i <= j < self.bindings.len() ==> (#[trigger] self.bindings[j]).0@ != name@,
            decreases i,
        {
            i -= 1;
            if self.bindings[i].0.as_str().eq(name) {
                proof {
                    lemma_bindings_last(
                        self.bindings@,
                        self.bindings.len() as nat,
                        i as int,
                        name@,
                    );
                }
                return Some(i);
            }
        }
        proof {
            lemma_bindings_absent(self.bindings@, self.bindings.len() as nat, name@);
        }
        None
    }

    /// Binds `name` to `value` in the frame; a binding of the same name is
    /// replaced.
    fn bind(&mut self, name: String, value: Value)
        ensures
            frame_view(*final(self)) == frame_view(*old(self)).bind(name@, value@),
    {
        let ghost before = self.bindings@;
        let ghost n = name@;
        let ghost v = value@;
        match self.find(name.as_str()) {
            Some(i) => {
                self.bindings.set(i, (name, value));
                proof {
                    lemma_bindings_replace(
                        before,
                        self.bindings@,
                        before.len() as nat,
                        i as int,
                        n,
                        v,
                    );
                }
            },
            None => {
                self.bindings.push((name, value));
                proof {
                    lemma_bindings_agree(before, self.bindings@, before.len() as nat);
                }
            },
        }
        assert(bindings_view(self.bindings@, self.bindings.len() as nat) =~= bindings_view(
            before,
            before.len() as nat,
        ).insert(n, v));
    }
}

impl Clone for Frame {
    fn clone(&self) -> (r: Self)
        ensures
            frame_view(r) == frame_view(*self),
    {
        let mut out: Vec<(String, Value)> = Vec::new();
        let mut i: usize = 0;
        while i < self.bindings.len()
            invariant
                i <= self.bindings.len(),
                out.len() == i,
                forall|j: int|
                    0 <= j < i ==> out[j].0@ == self.bindings[j].0@ && out[j].1@
                        == self.bindings[j].1@,
            decreases self.bindings.len() - i,
        {
            let name = self.bindings[i].0.clone();
            let value = self.bindings[i].1.clone();
            out.push((name, value));
            i += 1;
        }
        proof {
            lemma_bindings_agree(out@, self.bindings@, i as nat);
        }
        Frame { bindings: out, parent: self.parent }
    }
}

impl Environment {
    /// A new environment of one empty frame.
    pub fn new() -> (r: Self)
        ensures
            r@ == EnvView::empty(),
    {
        let mut frames: Vec<Frame> = Vec::new();
        frames.push(Frame::below(None));
        let r = Environment { frames, current: 0 };
        assert(r@.frames =~= EnvView::empty().frames);
        r
    }

    /// A copy of the environment `parent` with a fresh frame below its
    /// current frame, which is made the current frame.
    pub fn with_parent(parent: Rc<Environment>) -> (r: Self)
        ensures
            r@ == (*parent)@.child_of((*parent)@.current),
    {
        let mut r = (*parent).clone();
        let above = r.current;
        r.push_frame(above);
        r
    }

    /// The number of the current frame.
    pub fn current_frame(&self) -> (r: usize)
        ensures
            r == self@.current,
    {
        self.current
    }

    /// Whether the environment has a frame of the number `id`.
    pub fn has_frame(&self, id: usize) -> (r: bool)
        ensures
            r == self@.has_frame(id as nat),
    {
        id < self.frames.len()
    }

    /// Makes the frame `id` the current frame.
    pub fn enter(&mut self, id: usize)
        ensures
            final(self)@ == old(self)@.at(id as nat),
    {
        self.current = id;
        assert(self@.frames =~= old(self)@.frames);
    }

    /// Puts a fresh frame below the frame `parent` and makes it the current
    /// frame.
    pub fn push_frame(&mut self, parent: usize)
        ensures
            final(self)@ == old(self)@.child_of(parent as nat),
    {
        let id = self.frames.len();
        self.frames.push(Frame::below(Some(parent)));
        self.current = id;
        assert(self@.frames =~= old(self)@.frames.push(FrameView::below(Some(parent as nat))));
    }

    /// Binds `name` to `value` in the current frame. A binding of the same
    /// name in this frame is replaced; bindings in parent frames are hidden,
    /// never changed.
    pub fn define(&mut self, name: String, value: Value)
        ensures
            final(self)@ == old(self)@.define(name@, value@),
    {
        let cur = self.current;
        if cur < self.frames.len() {
            self.frames[cur].bind(name, value);
            assert(self@.frames =~= old(self)@.frames.update(
                cur as int,
                old(self)@.frames[cur as int].bind(name@, value@),
            ));
        }
    }

    /// The value bound to `name` in the nearest frame that binds it, looking
    /// from the frame `id` up through its parents.
    fn lookup(&self, id: usize, name: &str) -> (r: Option<Value>)
        ensures
            option_view(r) == self@.lookup(id as nat, name@),
        decreases id,
    {
        if id >= self.frames.len() {
            return None;
        }
        let frame = &self.frames[id];
        match frame.find(name) {
            Some(i) => Some(frame.bindings[i].1.clone()),
            None => match frame.parent {
                Some(p) => if p < id {
                    self.lookup(p, name)
                } else {
                    None
                },
                None => None,
            },
        }
    }

    /// The value bound to `name` in the nearest frame that binds it, looking
    /// from the current frame up through its parents.
    pub fn get(&self, name: &str) -> (r: Option<Value>)
        ensures
            option_view(r) == self@.get(name@),
    {
        self.lookup(self.current, name)
    }

    /// Binds `name` anew where the current frame already binds it. A name that
    /// only a parent frame binds, or none, is refused as undefined, and the
    /// environment stays as it is.
    pub fn set(&mut self, name: &str, value: Value) -> (r: Result<(), EvalError>)
        ensures
            old(self)@.binds_here(name@) ==> r is Ok && final(self)@ == old(self)@.define(
                name@,
                value@,
            ),
            !old(self)@.binds_here(name@) ==> r is Err && r->Err_0@
                == EvalErrorView::UndefinedVariable(name@) && final(self)@ == old(self)@,
    {
        let cur = self.current;
        if cur < self.frames.len() {
            match self.frames[cur].find(name) {
                Some(_) => {
                    self.define(name.to_owned(), value);
                    Ok(())
                },
                None => Err(EvalError::UndefinedVariable(name.to_owned())),
            }
        } else {
            Err(EvalError::UndefinedVariable(name.to_owned()))
        }
    }
}

impl Clone for Environment {
    /// A copy of the environment, frame by frame.
    fn clone(&self) -> (r: Self)
        ensures
            r@ == self@,
    {
        let mut out: Vec<Frame> = Vec::new();
        let mut i: usize = 0;
        while i < self.frames.len()
            invariant
                i <= self.frames.len(),
                out.len() == i,
                forall|j: int| 0 <= j < i ==> frame_view(out[j]) == frame_view(self.frames[j]),
            decreases self.frames.len() - i,
        {
            out.push(self.frames[i].clone());
            i += 1;
        }
        let r = Environment { frames: out, current: self.current };
        assert(r@.frames =~= self@.frames);
        r
    }
}

impl Default for Environment {
    fn default() -> (r: Self)
        ensures
            r@ == EnvView::empty(),
    {
        Environment::new()
    }
}

/// Structural equality of values: atoms by what they hold, pairs part by
/// part. A function is equal to nothing, not even to itself.
pub open spec fn equal_values(a: ValueView, b: ValueView) -> bool
    decreases a,
{
    match (a, b) {
        (ValueView::Nil, ValueView::Nil) => true,
        (ValueView::Bool(x), ValueView::Bool(y)) => x == y,
        (ValueView::Number(x), ValueView::Number(y)) => x == y,
        (ValueView::String(x), ValueView::String(y)) => x == y,
        (ValueView::Symbol(x), ValueView::Symbol(y)) => x == y,
        (ValueView::Cons(a1, d1), ValueView::Cons(a2, d2)) => equal_values(*a1, *a2)
            && equal_values(*d1, *d2),
        _ => false,
    }
}

/// Whether two values are structurally equal.
pub fn values_equal(a: &Value, b: &Value) -> (r: bool)
    ensures
        r == equal_values(a@, b@),
    decreases a,
{
    match (a, b) {
        (Value::Nil, Value::Nil) => true,
        (Value::Bool(x), Value::Bool(y)) => *x == *y,
        (Value::Number(x), Value::Number(y)) => *x == *y,
        (Value::String(x), Value::String(y)) => *x == *y,
        (Value::Symbol(x), Value::Symbol(y)) => *x == *y,
        (Value::Cons(a1, d1), Value::Cons(a2, d2)) => values_equal(&**a1, &**a2) && values_equal(
            &**d1,
            &**d2,
        ),
        _ => false,
    }
}

impl PartialEq for Value {
    fn eq(&self, other: &Self) -> (r: bool) {
        values_equal(self, other)
    }
}

impl vstd::std_specs::cmp::PartialEqSpecImpl for Value {
    open spec fn obeys_eq_spec() -> bool {
        true
    }

    open spec fn eq_spec(&self, other: &Self) -> bool {
        equal_values(self@, other@)
    }
}

/// The elements of a proper list: a chain of pairs that ends in the empty
/// list. `None` for any other value.
pub open spec fn list_items(v: ValueView) -> Option<Seq<ValueView>>
    decreases v,
{
    match v {
        ValueView::Nil => Some(Seq::empty()),
        ValueView::Cons(a, d) => match list_items(*d) {
            Some(rest) => Some(seq![*a] + rest),
            None => None,
        },
        _ => None,
    }
}

/// The proper list of the elements `items[from..]`, followed by `tail`.
pub open spec fn list_value(items: Seq<ValueView>, from: int, tail: ValueView) -> ValueView
    decreases items.len() - from,
{
    if from < 0 || from >= items.len() {
        tail
    } else {
        ValueView::Cons(Box::new(items[from]), Box::new(list_value(items, from + 1, tail)))
    }
}

/// The elements of a proper list, or `None` where the value is no proper list.
pub fn list_to_vec(v: &Value) -> (r: Option<Vec<Value>>)
    ensures
        match list_items(v@) {
            Some(items) => r is Some && values_view(r.unwrap()@) == items,
            None => r is None,
        },
{
    let mut out: Vec<Value> = Vec::new();
    let mut cur: &Value = v;
    assert(values_view(out@) =~= Seq::<ValueView>::empty());
    loop
        invariant
            match list_items(cur@) {
                Some(rest) => list_items(v@) == Some(values_view(out@) + rest),
                None => list_items(v@) is None,
            },
        decreases cur,
    {
        match cur {
            Value::Nil => {
                assert(values_view(out@) + Seq::<ValueView>::empty() =~= values_view(out@));
                return Some(out);
            },
            Value::Cons(a, d) => {
                proof {
                    let rest = list_items(d@);
                    if rest is Some {
                        assert(values_view(out@) + (seq![a@] + rest.unwrap()) =~= values_view(
                            out@.push(**a),
                        ) + rest.unwrap());
                    }
                }
                out.push((**a).clone());
                cur = &**d;
            },
            _ => {
                return None;
            },
        }
    }
}

/// The list of `items`, in order, followed by `tail`.
pub fn vec_to_list(items: &Vec<Value>, tail: Value) -> (r: Value)
    ensures
        r@ == list_value(values_view(items@), 0, tail@),
{
    let mut acc = tail;
    let mut i: usize = items.len();
    while i > 0
        invariant
            i <= items.len(),
            acc@ == list_value(values_view(items@), i as int, tail@),
        decreases i,
    {
        i -= 1;
        acc = Value::Cons(Rc::new(items[i].clone()), Rc::new(acc));
    }
    acc
}

} // verus!
