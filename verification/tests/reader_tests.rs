//! Tests of the reader's single functions.

use kakei_lisp::{parse_atom, parse_sexpr, parse_toplevel, Atom, Sexpr};

#[test]
fn test_parse_atoms() {
    assert_eq!(parse_atom("123"), Some(("", Atom::Number(123))));
    assert_eq!(
        parse_atom("\"hello\""),
        Some(("", Atom::String("hello".to_string())))
    );
    assert_eq!(
        parse_atom("ID-001"),
        Some(("", Atom::Symbol("ID-001".to_string())))
    );
}

#[test]
fn test_parse_simple_list() {
    let input = "(a 1 \"two\")";
    let expected = Sexpr::List(vec![
        Sexpr::Atom(Atom::Symbol("a".to_string())),
        Sexpr::Atom(Atom::Number(1)),
        Sexpr::Atom(Atom::String("two".to_string())),
    ]);
    assert_eq!(parse_sexpr(input), Some(("", expected)));
}

#[test]
fn test_parse_empty_list() {
    assert_eq!(parse_sexpr("()"), Some(("", Sexpr::Atom(Atom::Nil))));
    // Test with whitespace
    assert_eq!(parse_sexpr("( )"), Some(("", Sexpr::Atom(Atom::Nil))));
}

#[test]
fn test_parse_quoted() {
    let input = "'(a b)";
    let expected = Sexpr::List(vec![
        Sexpr::Atom(Atom::Symbol("quote".to_string())),
        Sexpr::List(vec![
            Sexpr::Atom(Atom::Symbol("a".to_string())),
            Sexpr::Atom(Atom::Symbol("b".to_string())),
        ]),
    ]);
    assert_eq!(parse_sexpr(input), Some(("", expected)));
}

#[test]
fn test_parse_dotted_list() {
    let input = "(a . b)";
    let expected = Sexpr::DottedList(
        vec![Sexpr::Atom(Atom::Symbol("a".to_string()))],
        Box::new(Sexpr::Atom(Atom::Symbol("b".to_string()))),
    );
    assert_eq!(parse_sexpr(input), Some(("", expected)));
}

#[test]
fn test_parse_complex_dotted_list() {
    let input = "(a b c . d)";
    let expected = Sexpr::DottedList(
        vec![
            Sexpr::Atom(Atom::Symbol("a".to_string())),
            Sexpr::Atom(Atom::Symbol("b".to_string())),
            Sexpr::Atom(Atom::Symbol("c".to_string())),
        ],
        Box::new(Sexpr::Atom(Atom::Symbol("d".to_string()))),
    );
    assert_eq!(parse_sexpr(input), Some(("", expected)));
}

#[test]
fn test_parse_comments() {
    let input = r#"
    ; This is a comment
    (a b) ; another comment
    ; (c d)
    "#;
    let expected = Sexpr::List(vec![
        Sexpr::Atom(Atom::Symbol("a".to_string())),
        Sexpr::Atom(Atom::Symbol("b".to_string())),
    ]);
    // parse_toplevel should parse the one valid expression and skip comments
    let result = parse_toplevel(input).1;
    assert_eq!(result.len(), 1);
    assert_eq!(result[0], expected);
}

#[test]
fn test_full_example() {
    let input = r#"
    ; This is the employee table
    (define employee-table
      '( (ID-001 . ((name . "Alice") (dept . "Dev")))
         (ID-002 . ((name . "Bob") (dept . "Sales"))) ))

    ; A proper list
    (a b c)
    "#;

    let (remaining_input, sexprs) = parse_toplevel(input);
    println!("Parsed S-expressions:\n{:#?}", sexprs);
    println!("\nRemaining input:\n'{}'", remaining_input);

    // Check that we parsed 2 top-level expressions
    assert_eq!(sexprs.len(), 2);

    // Check the first expression structure (define ...)
    if let Sexpr::List(define_expr) = &sexprs[0] {
        assert_eq!(define_expr.len(), 3);
        assert_eq!(
            define_expr[0],
            Sexpr::Atom(Atom::Symbol("define".to_string()))
        );
    } else {
        panic!("First expression was not a list");
    }

    // Check that remaining input is empty or just whitespace
    assert!(remaining_input.trim().is_empty());
}
