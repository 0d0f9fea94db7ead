//! Tests of tables on the edges: amounts, row names, errors and shapes.

use kakei_lisp::{
    extract_field, format_amount, format_value, is_grouped_result, parse, transaction_to_value,
    transactions_to_table, transform_table, value_to_display_rows, value_to_display_string,
    value_to_grouped_tables, EvalError, TransactionDetail, TransactionId, TransformError, Value,
};
use std::rc::Rc;

fn cons(a: Value, b: Value) -> Value {
    Value::Cons(Rc::new(a), Rc::new(b))
}

fn list(items: Vec<Value>) -> Value {
    items
        .into_iter()
        .rev()
        .fold(Value::Nil, |acc, item| cons(item, acc))
}

fn string(s: &str) -> Value {
    Value::String(s.to_string())
}

fn symbol(s: &str) -> Value {
    Value::Symbol(s.to_string())
}

fn transaction(amount: i64, category: &str, memo: Option<&str>) -> TransactionDetail {
    TransactionDetail {
        transaction_id: TransactionId(1),
        date: "2025-01-01".to_string(),
        amount,
        memo: memo.map(|m| m.to_string()),
        category_name: category.to_string(),
        account_name: "Cash".to_string(),
    }
}

/// The value that the text of a quoted datum stands for.
fn datum(text: &str) -> Value {
    transform_table(Value::Nil, &format!("'{text}")).unwrap()
}

#[test]
fn amounts_for_display() {
    assert_eq!(format_amount("+5"), "¥5");
    assert_eq!(format_amount("007"), "¥7");
    assert_eq!(format_amount("-0"), "¥0");
    assert_eq!(format_amount("9223372036854775807"), "¥9223372036854775807");
    assert_eq!(format_amount("-9223372036854775808"), "¥-9223372036854775808");
    assert_eq!(format_amount("9223372036854775808"), "9223372036854775808");
    assert_eq!(format_amount("-9223372036854775809"), "-9223372036854775809");
    assert_eq!(format_amount("99999999999999999999999"), "99999999999999999999999");
    assert_eq!(format_amount(""), "");
    assert_eq!(format_amount("-"), "-");
    assert_eq!(format_amount("+"), "+");
    assert_eq!(format_amount("--1"), "--1");
    assert_eq!(format_amount(" 1"), " 1");
    assert_eq!(format_amount("1 "), "1 ");
    assert_eq!(format_amount("1.5"), "1.5");
    assert_eq!(format_amount("12a"), "12a");
    assert_eq!(format_amount("99999999999999999999999a"), "99999999999999999999999a");
    assert_eq!(format_amount("１２"), "１２");
}

#[test]
fn row_names_have_at_least_three_digits() {
    let tx = transaction(1, "Food", None);
    let name = |id: usize| match transaction_to_value(&tx, id) {
        Value::Cons(name, _) => name.to_string(),
        _ => panic!("row is no pair"),
    };
    assert_eq!(name(0), "ID-000");
    assert_eq!(name(1), "ID-001");
    assert_eq!(name(9), "ID-009");
    assert_eq!(name(10), "ID-010");
    assert_eq!(name(99), "ID-099");
    assert_eq!(name(100), "ID-100");
    assert_eq!(name(1000), "ID-1000");
}

#[test]
fn row_of_a_transaction() {
    let row = transaction_to_value(&transaction(-1000, "Food", Some("Lunch")), 7);
    assert_eq!(
        row,
        datum(
            "(ID-007 . ((date . \"2025-01-01\") (amount . x) (category . \"Food\") \
             (account . \"Cash\") (memo . \"Lunch\")))"
        )
        .replace_amount(-1000)
    );
    assert_eq!(
        row.to_string(),
        "(ID-007 (date . \"2025-01-01\") (amount . -1000) (category . \"Food\") \
         (account . \"Cash\") (memo . \"Lunch\"))"
    );
}

trait ReplaceAmount {
    fn replace_amount(self, amount: i64) -> Value;
}

impl ReplaceAmount for Value {
    /// The value with every symbol `x` replaced by the number `amount`.
    fn replace_amount(self, amount: i64) -> Value {
        match self {
            Value::Symbol(s) if s == "x" => Value::Number(amount),
            Value::Cons(a, d) => cons(
                a.as_ref().clone().replace_amount(amount),
                d.as_ref().clone().replace_amount(amount),
            ),
            other => other,
        }
    }
}

#[test]
fn table_numbers_its_rows_from_one() {
    let table = transactions_to_table(&[
        transaction(1, "A", None),
        transaction(2, "B", None),
        transaction(3, "C", None),
    ]);
    let names: Vec<String> = match transform_table(table, "table") {
        Ok(value) => {
            let mut out = Vec::new();
            let mut current = &value;
            while let Value::Cons(row, rest) = current {
                if let Value::Cons(name, _) = row.as_ref() {
                    out.push(name.to_string());
                }
                current = rest.as_ref();
            }
            out
        }
        Err(e) => panic!("{}", e.to_string()),
    };
    assert_eq!(names, vec!["ID-001", "ID-002", "ID-003"]);
}

#[test]
fn program_must_read_to_its_end() {
    assert_eq!(
        transform_table(Value::Nil, "table "),
        Err(TransformError::ParseError("Unparsed input:  ".to_string()))
    );
    assert_eq!(
        transform_table(Value::Nil, "(car table"),
        Err(TransformError::ParseError(
            "Unparsed input: (car table".to_string()
        ))
    );
    assert_eq!(
        transform_table(Value::Nil, "table ) table"),
        Err(TransformError::ParseError(
            "Unparsed input:  ) table".to_string()
        ))
    );
    assert_eq!(transform_table(Value::Number(5), " ; the table\n table"), Ok(Value::Number(5)));
}

#[test]
fn empty_program_gives_nil() {
    assert_eq!(transform_table(Value::Number(5), ""), Ok(Value::Nil));
}

#[test]
fn program_sees_the_table_and_the_builtins() {
    assert_eq!(
        transform_table(list(vec![Value::Number(1)]), "(define t table) (car t)"),
        Ok(Value::Number(1))
    );
    assert_eq!(
        transform_table(Value::Nil, "(define table 1) table"),
        Ok(Value::Number(1))
    );
}

#[test]
fn program_errors_are_evaluation_errors() {
    assert_eq!(
        transform_table(Value::Nil, "(car table)"),
        Err(TransformError::EvalError(EvalError::TypeError(
            "car requires a cons cell".to_string()
        )))
    );
    assert_eq!(
        transform_table(Value::Nil, "1 unbound 2"),
        Err(TransformError::EvalError(EvalError::UndefinedVariable(
            "unbound".to_string()
        )))
    );
    assert_eq!(
        TransformError::from(EvalError::RuntimeError("x".to_string())),
        TransformError::EvalError(EvalError::RuntimeError("x".to_string()))
    );
}

#[test]
fn text_of_transform_errors() {
    assert_eq!(
        TransformError::ParseError("Unparsed input: )".to_string()).to_string(),
        "Parse error: Unparsed input: )"
    );
    assert_eq!(
        TransformError::EvalError(EvalError::UndefinedVariable("x".to_string())).to_string(),
        "Evaluation error: Undefined variable: x"
    );
    assert_eq!(
        TransformError::TransformError("bad".to_string()).to_string(),
        "Transformation error: bad"
    );
}

#[test]
fn field_text_for_display() {
    assert_eq!(value_to_display_string(&Value::Bool(false)), "false");
    assert_eq!(value_to_display_string(&Value::Number(-5)), "-5");
    assert_eq!(
        value_to_display_string(&list(vec![Value::Number(1), string("a")])),
        "(1 \"a\")"
    );
    assert_eq!(
        value_to_display_string(&cons(Value::Number(1), Value::Number(2))),
        "(1 . 2)"
    );
    assert_eq!(format_value(&string("a")), "\"a\"");
    assert_eq!(format_value(&Value::Nil), "()");
}

#[test]
fn fields_of_a_row() {
    let row = datum("(id . ((a . 1) 5 (b) (\"c\" . 2) (c . 3) (a . 4) . 6))");
    assert_eq!(extract_field(&row, "a"), Some("1".to_string()));
    assert_eq!(extract_field(&row, "b"), Some("".to_string()));
    assert_eq!(extract_field(&row, "c"), Some("3".to_string()));
    assert_eq!(extract_field(&row, "d"), None);
    assert_eq!(extract_field(&row, "id"), None);
    assert_eq!(extract_field(&Value::Number(1), "a"), None);
    assert_eq!(extract_field(&datum("(id . 5)"), "a"), None);
}

#[test]
fn rows_with_missing_fields() {
    let rows = value_to_display_rows(&datum("((r (amount . \"12\") (memo . m)) 5 (q))")).unwrap();
    assert_eq!(rows.len(), 3);
    assert_eq!(rows[0].date, "");
    assert_eq!(rows[0].amount, "¥12");
    assert_eq!(rows[0].memo, "m");
    assert_eq!(rows[1].date, "");
    assert_eq!(rows[1].amount, "");
    assert_eq!(rows[2].category, "");
    assert_eq!(rows[2].account, "");
}

#[test]
fn amount_field_that_is_no_number_stays() {
    let rows = value_to_display_rows(&datum("((r (amount . \"n/a\")) (r (amount . ())))")).unwrap();
    assert_eq!(rows[0].amount, "n/a");
    assert_eq!(rows[1].amount, "");
}

#[test]
fn grouped_rows_are_flattened_in_order() {
    let value = datum(
        "((\"G\" (r (memo . a)) (r (memo . b))) (r (memo . c)) (\"H\") (\"I\" (\"J\" (r (memo . d)))))",
    );
    let rows = value_to_display_rows(&value).unwrap();
    let memos: Vec<&str> = rows.iter().map(|r| r.memo.as_str()).collect();
    assert_eq!(memos, vec!["a", "b", "c", "d"]);
}

#[test]
fn rows_of_a_value_that_is_no_list() {
    assert_eq!(
        value_to_display_rows(&Value::Number(5)).err(),
        Some(TransformError::TransformError(
            "Expected a cons cell or nil, but got: 5".to_string()
        ))
    );
    let improper = value_to_display_rows(&datum("((r) . tail)"));
    assert_eq!(
        improper.err(),
        Some(TransformError::TransformError(
            "Expected a cons cell or nil, but got: tail".to_string()
        ))
    );
    let inner = value_to_display_rows(&datum("((\"G\" . 7) (r))"));
    assert_eq!(
        inner.err(),
        Some(TransformError::TransformError(
            "Expected a cons cell or nil, but got: 7".to_string()
        ))
    );
}

#[test]
fn grouped_tables_of_a_value() {
    let value = datum("((\"G\" (r (memo . a))) 5 (sym (r)) (\"H\"))");
    let groups = value_to_grouped_tables(&value).unwrap();
    assert_eq!(groups.len(), 2);
    assert_eq!(groups[0].group_name, "G");
    assert_eq!(groups[0].rows.len(), 1);
    assert_eq!(groups[0].rows[0].memo, "a");
    assert_eq!(groups[1].group_name, "H");
    assert_eq!(groups[1].rows.len(), 0);
    assert_eq!(value_to_grouped_tables(&Value::Nil).unwrap().len(), 0);
}

#[test]
fn grouped_tables_of_a_value_that_is_no_list() {
    let structure = Some(TransformError::TransformError(
        "Unexpected grouped value structure".to_string(),
    ));
    assert_eq!(value_to_grouped_tables(&Value::Number(1)).err(), structure);
    assert_eq!(
        value_to_grouped_tables(&datum("((\"G\") . 1)")).err(),
        structure
    );
    assert_eq!(
        value_to_grouped_tables(&datum("((\"G\" . 1))")).err(),
        Some(TransformError::TransformError(
            "Expected a cons cell or nil, but got: 1".to_string()
        ))
    );
}

#[test]
fn grouped_results() {
    assert!(is_grouped_result(&datum("((\"G\"))")));
    assert!(is_grouped_result(&datum("((\"G\" . 1) . 2)")));
    assert!(!is_grouped_result(&datum("((g))")));
    assert!(!is_grouped_result(&datum("(\"G\")")));
    assert!(!is_grouped_result(&datum("((r) (\"G\"))")));
    assert!(!is_grouped_result(&string("G")));
    assert!(!is_grouped_result(&symbol("G")));
}

#[test]
fn groups_come_in_the_order_of_first_occurrence() {
    let table = transactions_to_table(&[
        transaction(1, "Food", None),
        transaction(2, "Rent", None),
        transaction(3, "Food", None),
        transaction(4, "Fun", None),
    ]);
    let program = "(group-by table (lambda (pair) (cdr (assoc 'category (cdr pair)))))";
    let result = transform_table(table, program).unwrap();
    let groups = value_to_grouped_tables(&result).unwrap();
    let names: Vec<&str> = groups.iter().map(|g| g.group_name.as_str()).collect();
    assert_eq!(names, vec!["Food", "Rent", "Fun"]);
    let amounts: Vec<&str> = groups[0].rows.iter().map(|r| r.amount.as_str()).collect();
    assert_eq!(amounts, vec!["¥1", "¥3"]);
    assert_eq!(parse("x").1.len(), 1);
}

#[test]
fn program_function_sees_what_is_defined_after_it() {
    assert_eq!(
        transform_table(
            Value::Nil,
            "(define f (lambda (x) (cons x y))) (define y 5) (f 1)"
        ),
        Ok(cons(Value::Number(1), Value::Number(5)))
    );
    assert_eq!(
        transform_table(
            list(vec![Value::Number(1), Value::Number(2), Value::Number(3)]),
            "(define count (lambda (l acc) (if (null? l) acc (count (cdr l) (cons 1 acc)))))
             (count table ())"
        ),
        Ok(list(vec![Value::Number(1), Value::Number(1), Value::Number(1)]))
    );
}
