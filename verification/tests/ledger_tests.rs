//! Tests of the records of the ledger, of currencies, of the configuration
//! and of the subcommands.

use kakei_lisp::{
    category_type_of, field_named, AccountId, Category, CategoryId, CategoryType, Configuration,
    Currency, Field, MoneyError, SubCommands, TransactionId,
};

#[test]
fn income_categories_by_name() {
    for name in ["Salary", "salary", "SALARY", "Bonus", "bOnUs", "Income", "income"] {
        assert_eq!(category_type_of(name), CategoryType::Income, "{name}");
    }
}

#[test]
fn every_other_category_is_an_expense() {
    for name in [
        "Food", "Transport", "Daily Goods", "Hobby", "", "Salaries", "Salar", " Salary",
        "Salary ", "Incom\u{eb}", "\u{17f}alary", "Bonu\u{17f}", "[onus", "S\u{1}lary", "{onus",
    ] {
        assert_eq!(category_type_of(name), CategoryType::Expense, "{name}");
    }
}

#[test]
fn category_type_names() {
    assert_eq!(CategoryType::Expense.as_str(), "expense");
    assert_eq!(CategoryType::Income.as_str(), "income");
}

#[test]
fn identifiers_are_compared_by_their_numbers() {
    assert_eq!(CategoryId(1), CategoryId(1));
    assert_ne!(AccountId(1), AccountId(2));
    assert_eq!(TransactionId(-5).0, -5);
    let category = Category {
        category_id: CategoryId(3),
        name: "Food".to_string(),
        type_: category_type_of("Food"),
    };
    assert_eq!(category.category_id, CategoryId(3));
    assert_eq!(category.type_, CategoryType::Expense);
}

#[test]
fn currencies_by_code() {
    assert_eq!(Currency::parse("JPY"), Ok(Currency::JPY));
    assert_eq!(Currency::parse("jpy"), Ok(Currency::JPY));
    assert_eq!(Currency::parse("Usd"), Ok(Currency::USD));
    assert_eq!("usD".parse::<Currency>(), Ok(Currency::USD));
    assert_eq!(Currency::parse("u\u{17f}d"), Ok(Currency::USD));
    assert_eq!(
        Currency::parse("eur"),
        Err(MoneyError::InvalidCurrency("eur".to_string()))
    );
    assert_eq!(
        Currency::parse(""),
        Err(MoneyError::InvalidCurrency(String::new()))
    );
    assert_eq!(
        Currency::parse(" JPY"),
        Err(MoneyError::InvalidCurrency(" JPY".to_string()))
    );
}

#[test]
fn currency_of_a_code_in_upper_case() {
    assert_eq!(Currency::from_code("JPY", "x"), Ok(Currency::JPY));
    assert_eq!(Currency::from_code("USD", "x"), Ok(Currency::USD));
    assert_eq!(
        Currency::from_code("usd", "x"),
        Err(MoneyError::InvalidCurrency("x".to_string()))
    );
}

#[test]
fn currency_places_and_codes() {
    assert_eq!(Currency::JPY.decimal_places(), 0);
    assert_eq!(Currency::USD.decimal_places(), 2);
    assert_eq!(Currency::JPY.to_string(), "JPY");
    assert_eq!(Currency::USD.to_string(), "USD");
}

#[test]
fn text_of_money_errors() {
    assert_eq!(
        MoneyError::CurrencyMismatch(Currency::JPY, Currency::USD).to_string(),
        "Currency mismatch: cannot perform operation between JPY and USD"
    );
    assert_eq!(
        MoneyError::InvalidCurrency("eur".to_string()).to_string(),
        "Invalid currency code: eur"
    );
    assert_eq!(
        MoneyError::Overflow.to_string(),
        "Amount overflow: value is too large to fit in i64"
    );
}

#[test]
fn default_configuration() {
    let config = Configuration::default();
    assert_eq!(
        config.default_categories,
        vec!["Food", "Transport", "Daily Goods", "Hobby", "Salary"]
    );
    assert_eq!(config.default_accounts, vec!["Cash", "Bank"]);
    let kinds: Vec<CategoryType> = config
        .default_categories
        .iter()
        .map(|name| category_type_of(name))
        .collect();
    assert_eq!(
        kinds,
        vec![
            CategoryType::Expense,
            CategoryType::Expense,
            CategoryType::Expense,
            CategoryType::Expense,
            CategoryType::Income,
        ]
    );
}

#[test]
fn subcommands_by_word() {
    assert_eq!(SubCommands::parse("set-income"), Ok(SubCommands::SetIncome));
    assert_eq!(SubCommands::parse("set-expense"), Ok(SubCommands::SetExpense));
    assert_eq!(SubCommands::parse("get-balance"), Ok(SubCommands::GetBalance));
    assert_eq!("init".parse::<SubCommands>(), Ok(SubCommands::Initialize));
    assert_eq!(
        SubCommands::parse("Init"),
        Err("Unknown sub command: Init".to_string())
    );
    assert_eq!(
        SubCommands::parse(""),
        Err("Unknown sub command: ".to_string())
    );
}

#[test]
fn fields_by_name() {
    assert_eq!(field_named("date"), Some(Field::Date));
    assert_eq!(field_named("amount"), Some(Field::Amount));
    assert_eq!(field_named("currency"), Some(Field::Currency));
    assert_eq!(field_named("category"), Some(Field::Category));
    assert_eq!(field_named("account"), Some(Field::Account));
    assert_eq!(field_named("memo"), Some(Field::Memo));
    assert_eq!(field_named("Date"), None);
    assert_eq!(field_named(""), None);
    assert_eq!(field_named("dates"), None);
}

#[test]
fn operations_need_one_currency() {
    assert_eq!(Currency::JPY.require_same(Currency::JPY), Ok(()));
    assert_eq!(Currency::USD.require_same(Currency::USD), Ok(()));
    assert_eq!(
        Currency::JPY.require_same(Currency::USD),
        Err(MoneyError::CurrencyMismatch(Currency::JPY, Currency::USD))
    );
    assert_eq!(
        Currency::USD.require_same(Currency::JPY),
        Err(MoneyError::CurrencyMismatch(Currency::USD, Currency::JPY))
    );
}

#[test]
fn category_types_by_stored_name() {
    assert_eq!(CategoryType::from_name("expense"), Some(CategoryType::Expense));
    assert_eq!(CategoryType::from_name("income"), Some(CategoryType::Income));
    assert_eq!(CategoryType::from_name("Income"), None);
    assert_eq!(CategoryType::from_name(""), None);
    for kind in [CategoryType::Expense, CategoryType::Income] {
        assert_eq!(CategoryType::from_name(kind.as_str()), Some(kind));
    }
}
