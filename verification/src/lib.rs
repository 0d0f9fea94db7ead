//! A reader and tree-walking evaluator for a small Lisp dialect, and the
//! household ledger that uses it to transform its tables of transactions.
//!
//! Text is read into [`Sexpr`] syntax trees by [`parse`]; [`eval`] interprets a
//! tree against an [`Environment`] and yields a [`Value`]. The ledger builds a
//! table from its transactions with [`transactions_to_table`], hands it to a
//! program with [`transform_table`], and turns the result into rows for
//! display with [`value_to_display_rows`] and [`value_to_grouped_tables`].
//!
//! Every executable function is verified against a contract over
//! mathematical models: texts are sequences of characters, numbers are
//! integers, and each data type has a view. The grammar of the reader is in
//! [`parser::grammar`], the meaning of expressions in
//! [`evaluator::semantics`]; laws that hold of them are proved in
//! [`parser::laws`] and [`evaluator::laws`].

pub mod text;
pub mod parser;
pub mod evaluator;
pub mod table_transform;
pub mod editor;
pub mod records;
pub mod money;
pub mod configs;
pub mod commands;

pub use editor::{
    field_named, generate_template, parse_template, EditorError, EditorTransaction, Field,
};
pub use evaluator::{
    apply_bounded, apply_function, create_global_env, eval, eval_bounded, values_equal,
    Environment, EvalError, PrimitiveFn, Value, MAX_DEPTH,
};
pub use parser::{parse, parse_atom, parse_sexpr, parse_toplevel, render, ws, Atom, Sexpr};
pub use table_transform::{
    extract_field, format_amount, format_value, is_grouped_result, transaction_to_value,
    transactions_to_table, transform_table, value_to_display_rows, value_to_display_string,
    value_to_grouped_tables, DisplayRow, GroupedTable, TransformError,
};
pub use commands::SubCommands;
pub use configs::Configuration;
pub use money::{Currency, MoneyError};
pub use records::{
    category_type_of, AccountId, Category, CategoryId, CategoryType, TransactionDetail,
    TransactionId,
};
