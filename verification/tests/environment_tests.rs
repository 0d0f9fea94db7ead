//! Tests of environments and of the text of values and errors.

use kakei_lisp::{Environment, EvalError, PrimitiveFn, Value};
use std::rc::Rc;

fn cons(a: Value, b: Value) -> Value {
    Value::Cons(Rc::new(a), Rc::new(b))
}

#[test]
fn new_environment_binds_nothing() {
    let env = Environment::new();
    assert_eq!(env.get("x"), None);
    assert_eq!(Environment::default().get(""), None);
}

#[test]
fn define_binds_and_rebinds() {
    let mut env = Environment::new();
    env.define("x".to_string(), Value::Number(1));
    env.define("y".to_string(), Value::Number(2));
    assert_eq!(env.get("x"), Some(Value::Number(1)));
    assert_eq!(env.get("y"), Some(Value::Number(2)));
    env.define("x".to_string(), Value::Number(3));
    assert_eq!(env.get("x"), Some(Value::Number(3)));
    assert_eq!(env.get("y"), Some(Value::Number(2)));
    assert_eq!(env.get("X"), None);
}

#[test]
fn lookup_walks_up_to_the_parents() {
    let mut root = Environment::new();
    root.define("a".to_string(), Value::Number(1));
    root.define("b".to_string(), Value::Number(2));
    let mut middle = Environment::with_parent(Rc::new(root));
    middle.define("b".to_string(), Value::Number(20));
    let mut leaf = Environment::with_parent(Rc::new(middle));
    leaf.define("c".to_string(), Value::Number(300));
    assert_eq!(leaf.get("a"), Some(Value::Number(1)));
    assert_eq!(leaf.get("b"), Some(Value::Number(20)));
    assert_eq!(leaf.get("c"), Some(Value::Number(300)));
    assert_eq!(leaf.get("d"), None);
}

#[test]
fn define_shadows_and_never_changes_a_parent() {
    let mut root = Environment::new();
    root.define("a".to_string(), Value::Number(1));
    let parent = Rc::new(root);
    let mut child = Environment::with_parent(parent.clone());
    child.define("a".to_string(), Value::Number(2));
    assert_eq!(child.get("a"), Some(Value::Number(2)));
    assert_eq!(parent.get("a"), Some(Value::Number(1)));
}

#[test]
fn set_rebinds_in_the_current_frame_only() {
    let mut root = Environment::new();
    root.define("a".to_string(), Value::Number(1));
    assert_eq!(root.set("a", Value::Number(5)), Ok(()));
    assert_eq!(root.get("a"), Some(Value::Number(5)));
    assert_eq!(
        root.set("b", Value::Number(1)),
        Err(EvalError::UndefinedVariable("b".to_string()))
    );
    assert_eq!(root.get("b"), None);

    let parent = Rc::new(root);
    let mut child = Environment::with_parent(parent.clone());
    assert_eq!(
        child.set("a", Value::Number(9)),
        Err(EvalError::UndefinedVariable("a".to_string()))
    );
    assert_eq!(child.get("a"), Some(Value::Number(5)));
    assert_eq!(parent.get("a"), Some(Value::Number(5)));
    child.define("a".to_string(), Value::Number(7));
    assert_eq!(child.set("a", Value::Number(8)), Ok(()));
    assert_eq!(child.get("a"), Some(Value::Number(8)));
    assert_eq!(parent.get("a"), Some(Value::Number(5)));
}

#[test]
fn frames_are_numbered_as_they_are_made() {
    let mut env = Environment::new();
    assert_eq!(env.current_frame(), 0);
    assert!(env.has_frame(0));
    assert!(!env.has_frame(1));
    env.define("a".to_string(), Value::Number(1));
    env.push_frame(0);
    assert_eq!(env.current_frame(), 1);
    env.define("b".to_string(), Value::Number(2));
    env.push_frame(0);
    assert_eq!(env.current_frame(), 2);
    assert_eq!(env.get("a"), Some(Value::Number(1)));
    assert_eq!(env.get("b"), None);
    env.enter(1);
    assert_eq!(env.get("b"), Some(Value::Number(2)));
    env.enter(0);
    env.define("a".to_string(), Value::Number(3));
    env.enter(2);
    assert_eq!(env.get("a"), Some(Value::Number(3)));
    env.enter(9);
    assert_eq!(env.get("a"), None);
    env.define("c".to_string(), Value::Number(4));
    assert_eq!(env.set("a", Value::Number(5)).is_err(), true);
    env.enter(0);
    assert_eq!(env.get("c"), None);
    assert_eq!(env.get("a"), Some(Value::Number(3)));
    let child = Environment::with_parent(Rc::new(env));
    assert_eq!(child.current_frame(), 3);
    assert_eq!(child.get("a"), Some(Value::Number(3)));
}

#[test]
fn clone_of_an_environment_is_a_snapshot() {
    let mut env = Environment::new();
    env.define("a".to_string(), Value::Number(1));
    let copy = env.clone();
    env.define("a".to_string(), Value::Number(2));
    env.define("b".to_string(), Value::Number(3));
    assert_eq!(copy.get("a"), Some(Value::Number(1)));
    assert_eq!(copy.get("b"), None);
    assert_eq!(env.get("a"), Some(Value::Number(2)));
}

#[test]
fn text_of_values() {
    assert_eq!(Value::Nil.to_string(), "()");
    assert_eq!(Value::Bool(true).to_string(), "#t");
    assert_eq!(Value::Bool(false).to_string(), "#f");
    assert_eq!(Value::Number(0).to_string(), "0");
    assert_eq!(Value::Number(60000).to_string(), "60000");
    assert_eq!(Value::Number(-7).to_string(), "-7");
    assert_eq!(Value::Number(i64::MAX).to_string(), "9223372036854775807");
    assert_eq!(Value::Number(i64::MIN).to_string(), "-9223372036854775808");
    assert_eq!(Value::String("a b".to_string()).to_string(), "\"a b\"");
    assert_eq!(Value::String(String::new()).to_string(), "\"\"");
    assert_eq!(Value::Symbol("a-b".to_string()).to_string(), "a-b");
    assert_eq!(
        Value::Primitive(PrimitiveFn::Car).to_string(),
        "#<primitive>"
    );
    let lambda = Value::Lambda {
        params: vec![],
        body: vec![],
        closure: 0,
    };
    assert_eq!(lambda.to_string(), "#<lambda>");
}

#[test]
fn text_of_pairs_and_lists() {
    let one = Value::Number(1);
    let two = Value::Number(2);
    let three = Value::Number(3);
    assert_eq!(cons(one.clone(), two.clone()).to_string(), "(1 . 2)");
    assert_eq!(cons(one.clone(), Value::Nil).to_string(), "(1)");
    assert_eq!(
        cons(one.clone(), cons(two.clone(), Value::Nil)).to_string(),
        "(1 2)"
    );
    assert_eq!(
        cons(one.clone(), cons(two.clone(), three.clone())).to_string(),
        "(1 2 . 3)"
    );
    assert_eq!(
        cons(
            cons(one.clone(), two.clone()),
            cons(Value::Nil, cons(cons(three, Value::Nil), Value::Nil))
        )
        .to_string(),
        "((1 . 2) () (3))"
    );
    assert_eq!(
        cons(Value::Symbol("a".to_string()), Value::String("b".to_string())).to_string(),
        "(a . \"b\")"
    );
}

#[test]
fn text_of_errors() {
    assert_eq!(
        EvalError::UndefinedVariable("x".to_string()).to_string(),
        "Undefined variable: x"
    );
    assert_eq!(
        EvalError::TypeError("car requires a cons cell".to_string()).to_string(),
        "Type error: car requires a cons cell"
    );
    assert_eq!(
        EvalError::ArityError {
            expected: "2".to_string(),
            got: 13
        }
        .to_string(),
        "Arity error: expected 2, got 13"
    );
    assert_eq!(
        EvalError::RuntimeError("stop".to_string()).to_string(),
        "Runtime error: stop"
    );
}

#[test]
fn clone_of_a_value_is_equal() {
    let v = cons(
        Value::Symbol("a".to_string()),
        cons(Value::String("b".to_string()), Value::Bool(true)),
    );
    assert_eq!(v.clone(), v);
}
