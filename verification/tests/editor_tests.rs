//! Tests of the template for the editor and of the reading of what was
//! written into it.

use kakei_lisp::{generate_template, parse_template, EditorError, EditorTransaction};

#[test]
fn test_parse_template_valid() {
    let content = r#"
# This is a comment
date: 2025-01-15
amount: -1000
currency: JPY
category: Food
account: Cash
memo: Test memo
"#;
    let result = parse_template(content).unwrap();
    assert_eq!(result.date, "2025-01-15");
    assert_eq!(result.amount, "-1000");
    assert_eq!(result.currency, "JPY");
    assert_eq!(result.category, "Food");
    assert_eq!(result.account, "Cash");
    assert_eq!(result.memo, Some("Test memo".to_string()));
}

#[test]
fn test_parse_template_without_memo() {
    let content = r#"
date: 2025-01-15
amount: -1000
currency: JPY
category: Food
account: Cash
"#;
    let result = parse_template(content).unwrap();
    assert_eq!(result.date, "2025-01-15");
    assert_eq!(result.memo, None);
}

#[test]
fn test_parse_template_empty_memo() {
    let content = r#"
date: 2025-01-15
amount: -1000
currency: JPY
category: Food
account: Cash
memo: 
"#;
    let result = parse_template(content).unwrap();
    assert_eq!(result.memo, None);
}

#[test]
fn test_parse_template_missing_required_field() {
    let content = r#"
date: 2025-01-15
amount: -1000
currency: JPY
# Missing category
account: Cash
"#;
    let result = parse_template(content);
    assert!(result.is_err());
    assert!(matches!(result, Err(EditorError::ParseError(_))));
}

#[test]
fn test_parse_template_only_comments() {
    let content = r#"
# Just a comment
# Another comment
"#;
    let result = parse_template(content);
    assert!(result.is_err());
    assert!(matches!(result, Err(EditorError::Cancelled)));
}

#[test]
fn test_parse_template_empty() {
    let content = "";
    let result = parse_template(content);
    assert!(result.is_err());
    assert!(matches!(result, Err(EditorError::Cancelled)));
}

#[test]
fn test_parse_template_with_spaces() {
    let content = r#"
  date  :  2025-01-15  
  amount  :  -1000  
  currency  :  JPY  
  category  :  Food  
  account  :  Cash  
"#;
    let result = parse_template(content).unwrap();
    assert_eq!(result.date, "2025-01-15");
    assert_eq!(result.amount, "-1000");
}

#[test]
fn test_parse_template_unknown_field() {
    let content = r#"
date: 2025-01-15
amount: -1000
currency: JPY
category: Food
account: Cash
unknown: value
"#;
    // Should succeed but ignore unknown field
    let result = parse_template(content);
    assert!(result.is_ok());
}

#[test]
fn test_generate_template() {
    let template = generate_template("USD");
    assert!(template.contains("currency: USD"));
    assert!(template.contains("date: "));
    assert!(template.contains("amount: "));
}

#[test]
fn template_text() {
    let template = generate_template("JPY");
    assert!(template.starts_with("# Enter transaction details below.\n"));
    assert!(template.ends_with("\n\ndate: \namount: \ncurrency: JPY\ncategory: \naccount: \nmemo: \n"));
    assert_eq!(template.lines().count(), 28);
    assert_eq!(generate_template("").lines().nth(24), Some("currency: "));
}

#[test]
fn template_as_it_is_misses_the_date() {
    assert_eq!(
        parse_template(&generate_template("USD")),
        Err(EditorError::ParseError("date is required".to_string()))
    );
}

#[test]
fn filled_template_is_read() {
    let text = generate_template("USD")
        .replace("date: \n", "date: 2025-02-03\n")
        .replace("amount: \n", "amount: 12.50\n")
        .replace("category: \n", "category: Food\n")
        .replace("account: \n", "account: Cash\n");
    assert_eq!(
        parse_template(&text),
        Ok(EditorTransaction {
            date: "2025-02-03".to_string(),
            amount: "12.50".to_string(),
            currency: "USD".to_string(),
            category: "Food".to_string(),
            account: "Cash".to_string(),
            memo: None,
        })
    );
}

fn complete() -> String {
    "date: d\namount: a\ncurrency: c\ncategory: g\naccount: t\n".to_string()
}

#[test]
fn missing_fields_are_named_in_order() {
    let missing = |field: &str| Err(EditorError::ParseError(format!("{field} is required")));
    assert_eq!(parse_template("x"), missing("date"));
    assert_eq!(parse_template("memo: m"), missing("date"));
    assert_eq!(parse_template("date: d"), missing("amount"));
    assert_eq!(parse_template("date: d\naccount: t"), missing("amount"));
    assert_eq!(parse_template("amount: a\ndate: d"), missing("currency"));
    assert_eq!(
        parse_template("date: d\namount: a\ncurrency: c\naccount: t"),
        missing("category")
    );
    assert_eq!(
        parse_template("date: d\namount: a\ncurrency: c\ncategory: g"),
        missing("account")
    );
    assert!(parse_template(&complete()).is_ok());
}

#[test]
fn nothing_but_blanks_and_comments_is_cancelled() {
    assert_eq!(parse_template(""), Err(EditorError::Cancelled));
    assert_eq!(parse_template("\n\n"), Err(EditorError::Cancelled));
    assert_eq!(parse_template("  \t \r\n # date: d\n\u{3000}"), Err(EditorError::Cancelled));
    assert_eq!(parse_template("#"), Err(EditorError::Cancelled));
    assert_ne!(parse_template(":"), Err(EditorError::Cancelled));
    assert_ne!(parse_template("date:"), Err(EditorError::Cancelled));
}

#[test]
fn keys_are_matched_whatever_their_case() {
    let text = "DATE: d\nAmount: a\ncUrReNcY: c\nCATEGORY: g\nAccount: t\nMEMO: m";
    let read = parse_template(text).unwrap();
    assert_eq!(read.date, "d");
    assert_eq!(read.amount, "a");
    assert_eq!(read.currency, "c");
    assert_eq!(read.category, "g");
    assert_eq!(read.account, "t");
    assert_eq!(read.memo, Some("m".to_string()));
}

#[test]
fn values_keep_their_case_and_inner_spaces() {
    let text = format!("{}memo:   Lunch  at: Noon \t", complete());
    assert_eq!(
        parse_template(&text).unwrap().memo,
        Some("Lunch  at: Noon".to_string())
    );
}

#[test]
fn later_lines_replace_earlier_ones_unless_empty() {
    let text = format!("{}date: e\ndate:\ndate:   \nmemo: m\nmemo: n\n", complete());
    let read = parse_template(&text).unwrap();
    assert_eq!(read.date, "e");
    assert_eq!(read.memo, Some("n".to_string()));
}

#[test]
fn lines_end_at_line_feeds() {
    let text = "date: d\r\namount: a\r\ncurrency: c\r\ncategory: g\r\naccount: t\r\n";
    let read = parse_template(text).unwrap();
    assert_eq!(read.date, "d");
    assert_eq!(read.account, "t");
    let text = "date: d\ramount: a\ncurrency: c\ncategory: g\naccount: t";
    let read = parse_template(text);
    assert_eq!(
        read,
        Err(EditorError::ParseError("amount is required".to_string()))
    );
}

#[test]
fn whitespace_of_all_kinds_is_trimmed() {
    let text = format!("{}\u{a0}memo\u{2003}:\u{3000}m\u{85}\n", complete());
    assert_eq!(parse_template(&text).unwrap().memo, Some("m".to_string()));
    let text = format!("{}me mo: m\n", complete());
    assert_eq!(parse_template(&text).unwrap().memo, None);
}

#[test]
fn comment_sign_counts_only_at_the_start() {
    let text = format!("{}memo: #1 # x\n  # memo: y\n", complete());
    assert_eq!(parse_template(&text).unwrap().memo, Some("#1 # x".to_string()));
}

#[test]
fn text_of_editor_errors() {
    assert_eq!(
        EditorError::EditorFailed("no editor".to_string()).to_string(),
        "Editor error: no editor"
    );
    assert_eq!(
        EditorError::ParseError("date is required".to_string()).to_string(),
        "Parse error: date is required"
    );
    assert_eq!(EditorError::Cancelled.to_string(), "Transaction cancelled");
}

#[test]
fn clone_of_a_transaction_is_equal() {
    let read = parse_template(&format!("{}memo: m", complete())).unwrap();
    assert_eq!(read.clone(), read);
}
