//! Tables of transactions as Lisp values: building a table from records,
//! transforming it with a Lisp program, and turning the result back into
//! rows for display.

use vstd::prelude::*;
use vstd::string::*;
use std::rc::Rc;
use crate::evaluator::builtins::create_global_env;
use crate::evaluator::eval::{eval_sequence, MAX_DEPTH};
use crate::evaluator::print::value_text;
use crate::evaluator::semantics::{eval_body, global_env};
use crate::evaluator::value::{
    list_value, values_view, vec_to_list, EvalError, EvalErrorView, Value, ValueView,
};
use crate::parser::grammar::{lemma_toplevel_end, spec_toplevel};
use crate::records::{TransactionDetail, TransactionView};
use crate::parser::parse::parse;
use crate::text::{
    all_digits, append_int, append_nat, chars_of, digit_of, digits_value, int_text,
    int_to_string, is_digit, is_digit_char, lemma_digits_prefix, lemma_digits_value_push,
    nat_text,
};

verus! {

/// An error of a table transformation.
#[derive(Debug, PartialEq)]
pub enum TransformError {
    /// The program could not be read to its end.
    ParseError(String),
    /// The program failed while it was evaluated.
    EvalError(EvalError),
    /// The value is not of the shape of a table.
    TransformError(String),
}

/// The model of a [`TransformError`].
pub enum TransformErrorView {
    ParseError(Seq<char>),
    EvalError(EvalErrorView),
    TransformError(Seq<char>),
}

impl View for TransformError {
    type V = TransformErrorView;

    open spec fn view(&self) -> TransformErrorView {
        match self {
            TransformError::ParseError(s) => TransformErrorView::ParseError(s@),
            TransformError::EvalError(e) => TransformErrorView::EvalError(e@),
            TransformError::TransformError(s) => TransformErrorView::TransformError(s@),
        }
    }
}

impl From<EvalError> for TransformError {
    fn from(e: EvalError) -> (r: TransformError) {
        TransformError::EvalError(e)
    }
}

impl vstd::std_specs::convert::FromSpecImpl<EvalError> for TransformError {
    open spec fn obeys_from_spec() -> bool {
        true
    }

    open spec fn from_spec(e: EvalError) -> TransformError {
        TransformError::EvalError(e)
    }
}

impl TransformError {
    /// The message of the error.
    pub fn to_string(&self) -> (r: String)
        ensures
            r@ == transform_error_text(self@),
    {
        let mut out = String::new();
        match self {
            TransformError::ParseError(msg) => {
                out.append("Parse error: ");
                out.append(msg.as_str());
            },
            TransformError::EvalError(e) => {
                out.append("Evaluation error: ");
                let text = e.to_string();
                out.append(text.as_str());
            },
            TransformError::TransformError(msg) => {
                out.append("Transformation error: ");
                out.append(msg.as_str());
            },
        }
        assert(out@ =~= transform_error_text(self@));
        out
    }
}

/// The message of a transformation error.
pub open spec fn transform_error_text(e: TransformErrorView) -> Seq<char> {
    match e {
        TransformErrorView::ParseError(msg) => "Parse error: "@ + msg,
        TransformErrorView::EvalError(e) => "Evaluation error: "@
            + crate::evaluator::print::error_text(e),
        TransformErrorView::TransformError(msg) => "Transformation error: "@ + msg,
    }
}

/// The models of a sequence of transactions, in order.
pub open spec fn transactions_view(v: Seq<TransactionDetail>) -> Seq<TransactionView> {
    Seq::new(v.len(), |i: int| v[i]@)
}

/// A row of a table for display.
#[derive(Debug)]
pub struct DisplayRow {
    pub date: String,
    pub amount: String,
    pub category: String,
    pub account: String,
    pub memo: String,
}

/// The model of a [`DisplayRow`].
pub struct DisplayRowView {
    pub date: Seq<char>,
    pub amount: Seq<char>,
    pub category: Seq<char>,
    pub account: Seq<char>,
    pub memo: Seq<char>,
}

impl View for DisplayRow {
    type V = DisplayRowView;

    open spec fn view(&self) -> DisplayRowView {
        DisplayRowView {
            date: self.date@,
            amount: self.amount@,
            category: self.category@,
            account: self.account@,
            memo: self.memo@,
        }
    }
}

/// The models of a sequence of rows, in order.
pub open spec fn rows_view(v: Seq<DisplayRow>) -> Seq<DisplayRowView> {
    Seq::new(v.len(), |i: int| v[i]@)
}

/// A group of rows under the name of the group.
#[derive(Debug)]
pub struct GroupedTable {
    pub group_name: String,
    pub rows: Vec<DisplayRow>,
}

/// The model of a [`GroupedTable`].
pub struct GroupedTableView {
    pub group_name: Seq<char>,
    pub rows: Seq<DisplayRowView>,
}

impl View for GroupedTable {
    type V = GroupedTableView;

    open spec fn view(&self) -> GroupedTableView {
        GroupedTableView { group_name: self.group_name@, rows: rows_view(self.rows@) }
    }
}

impl Clone for DisplayRow {
    fn clone(&self) -> (r: Self)
        ensures
            r@ == self@,
    {
        DisplayRow {
            date: self.date.clone(),
            amount: self.amount.clone(),
            category: self.category.clone(),
            account: self.account.clone(),
            memo: self.memo.clone(),
        }
    }
}

impl Clone for GroupedTable {
    fn clone(&self) -> (r: Self)
        ensures
            r@ == self@,
    {
        let mut rows: Vec<DisplayRow> = Vec::new();
        let mut i: usize = 0;
        while i < self.rows.len()
            invariant
                i <= self.rows.len(),
                rows.len() == i,
                forall|j: int| 0 <= j < i ==> rows[j]@ == self.rows[j]@,
            decreases self.rows.len() - i,
        {
            rows.push(self.rows[i].clone());
            i += 1;
        }
        assert(rows_view(rows@) =~= rows_view(self.rows@));
        GroupedTable { group_name: self.group_name.clone(), rows }
    }
}

/// The models of a sequence of grouped tables, in order.
pub open spec fn tables_view(v: Seq<GroupedTable>) -> Seq<GroupedTableView> {
    Seq::new(v.len(), |i: int| v[i]@)
}

/// The pair of the symbol `name` and `value`: one field of a row.
pub open spec fn field_value(name: Seq<char>, value: ValueView) -> ValueView {
    ValueView::Cons(Box::new(ValueView::Symbol(name)), Box::new(value))
}

/// The symbol that names the row `id`: `ID-` and the number in at least
/// three digits.
pub open spec fn row_id_text(id: nat) -> Seq<char> {
    if id < 10 {
        "ID-00"@ + nat_text(id)
    } else if id < 100 {
        "ID-0"@ + nat_text(id)
    } else {
        "ID-"@ + nat_text(id)
    }
}

/// The row that stands for a transaction: the pair of the row's name and the
/// association list of its date, amount, category, account and memo. A
/// transaction without a memo has the empty string for it.
pub open spec fn row_value(tx: TransactionView, id: nat) -> ValueView {
    let memo = match tx.memo {
        Some(m) => m,
        None => Seq::empty(),
    };
    let fields = seq![
        field_value("date"@, ValueView::String(tx.date)),
        field_value("amount"@, ValueView::Number(tx.amount)),
        field_value("category"@, ValueView::String(tx.category_name)),
        field_value("account"@, ValueView::String(tx.account_name)),
        field_value("memo"@, ValueView::String(memo)),
    ];
    ValueView::Cons(
        Box::new(ValueView::Symbol(row_id_text(id))),
        Box::new(list_value(fields, 0, ValueView::Nil)),
    )
}

/// The table that stands for a sequence of transactions: the list of their
/// rows, numbered from one.
pub open spec fn table_value(txs: Seq<TransactionView>) -> ValueView {
    list_value(Seq::new(txs.len(), |i: int| row_value(txs[i], (i + 1) as nat)), 0, ValueView::Nil)
}

fn make_field(name: &str, value: Value) -> (r: Value)
    ensures
        r@ == field_value(name@, value@),
{
    let key = Value::Symbol(name.to_owned());
    assert(key@ == ValueView::Symbol(name@));
    Value::Cons(Rc::new(key), Rc::new(value))
}

/// The row that stands for the transaction `tx`, under the number `row_id`.
pub fn transaction_to_value(tx: &TransactionDetail, row_id: usize) -> (r: Value)
    ensures
        r@ == row_value(tx@, row_id as nat),
{
    let memo_val = match &tx.memo {
        Some(m) => Value::String(m.clone()),
        None => Value::String(String::new()),
    };
    let mut fields: Vec<Value> = Vec::new();
    fields.push(make_field("date", Value::String(tx.date.clone())));
    fields.push(make_field("amount", Value::Number(tx.amount)));
    fields.push(make_field("category", Value::String(tx.category_name.clone())));
    fields.push(make_field("account", Value::String(tx.account_name.clone())));
    fields.push(make_field("memo", memo_val));
    let row_data = vec_to_list(&fields, Value::Nil);
    let mut name = if row_id < 10 {
        "ID-00".to_owned()
    } else if row_id < 100 {
        "ID-0".to_owned()
    } else {
        "ID-".to_owned()
    };
    append_nat(&mut name, row_id as u64);
    let id = Value::Symbol(name);
    proof {
        let memo = match tx@.memo {
            Some(m) => m,
            None => Seq::empty(),
        };
        assert(values_view(fields@) =~= seq![
            field_value("date"@, ValueView::String(tx@.date)),
            field_value("amount"@, ValueView::Number(tx@.amount)),
            field_value("category"@, ValueView::String(tx@.category_name)),
            field_value("account"@, ValueView::String(tx@.account_name)),
            field_value("memo"@, ValueView::String(memo)),
        ]);
        assert(id@ == ValueView::Symbol(row_id_text(row_id as nat)));
    }
    Value::Cons(Rc::new(id), Rc::new(row_data))
}

/// The table that stands for `transactions`.
pub fn transactions_to_table(transactions: &[TransactionDetail]) -> (r: Value)
    ensures
        r@ == table_value(transactions_view(transactions@)),
{
    let ghost txs = transactions_view(transactions@);
    let ghost rows = Seq::new(txs.len(), |i: int| row_value(txs[i], (i + 1) as nat));
    let mut table = Value::Nil;
    let mut i: usize = transactions.len();
    while i > 0
        invariant
            i <= transactions.len(),
            txs == transactions_view(transactions@),
            rows == Seq::new(txs.len(), |i: int| row_value(txs[i], (i + 1) as nat)),
            table@ == list_value(rows, i as int, ValueView::Nil),
        decreases i,
    {
        i -= 1;
        let row = transaction_to_value(&transactions[i], i + 1);
        assert(row@ == rows[i as int]);
        table = Value::Cons(Rc::new(row), Rc::new(table));
    }
    table
}

/// What transforming `table` with the program `program` gives: the program
/// must read to its end, whitespace after the last expression included; its
/// expressions are evaluated in order in the global environment with `table`
/// bound to the table; the value of the last one is the result.
pub open spec fn transform_spec(table: ValueView, program: Seq<char>) -> Result<
    ValueView,
    TransformErrorView,
> {
    let read = spec_toplevel(program, 0);
    if read.1 < program.len() {
        Err(TransformErrorView::ParseError("Unparsed input: "@ + program.skip(read.1)))
    } else {
        match eval_body(
            read.0,
            0,
            ValueView::Nil,
            global_env().define("table"@, table),
            MAX_DEPTH as nat,
        ).result {
            Ok(v) => Ok(v),
            Err(e) => Err(TransformErrorView::EvalError(e)),
        }
    }
}

/// The model of the result of a transformation.
pub open spec fn transform_result_view(r: Result<Value, TransformError>) -> Result<
    ValueView,
    TransformErrorView,
> {
    match r {
        Ok(v) => Ok(v@),
        Err(e) => Err(e@),
    }
}

/// Transforms a table with a Lisp program, which sees the table as the
/// variable `table`.
pub fn transform_table(table: Value, lisp_program: &str) -> (r: Result<Value, TransformError>)
    ensures
        transform_result_view(r) == transform_spec(table@, lisp_program@),
{
    let (remaining, sexprs) = parse(lisp_program);
    proof {
        lemma_toplevel_end(lisp_program@, 0);
    }
    if !remaining.is_empty() {
        let mut msg = "Unparsed input: ".to_owned();
        msg.append(remaining);
        return Err(TransformError::ParseError(msg));
    }
    let mut env = create_global_env();
    env.define("table".to_owned(), table);
    match eval_sequence(&sexprs, &mut env, MAX_DEPTH) {
        Ok(v) => Ok(v),
        Err(e) => Err(TransformError::EvalError(e)),
    }
}

/// The text of a value, for display.
pub fn format_value(value: &Value) -> (r: String)
    ensures
        r@ == value_text(value@),
{
    value.to_string()
}

/// The text of a field's value in a row for display: strings and symbols
/// without marks, numbers in decimal, booleans as `true` and `false`, the
/// empty list as nothing, anything else as its text.
pub open spec fn display_text(v: ValueView) -> Seq<char> {
    match v {
        ValueView::String(s) => s,
        ValueView::Number(n) => int_text(n),
        ValueView::Symbol(s) => s,
        ValueView::Bool(b) => if b {
            "true"@
        } else {
            "false"@
        },
        ValueView::Nil => Seq::empty(),
        _ => value_text(v),
    }
}

/// The text of a field's value in a row for display.
pub fn value_to_display_string(value: &Value) -> (r: String)
    ensures
        r@ == display_text(value@),
{
    match value {
        Value::String(s) => s.clone(),
        Value::Number(n) => int_to_string(*n),
        Value::Symbol(s) => s.clone(),
        Value::Bool(b) => if *b {
            "true".to_owned()
        } else {
            "false".to_owned()
        },
        Value::Nil => String::new(),
        _ => value.to_string(),
    }
}

/// The text of the first field named `name` in the association list
/// `data`. Elements that are no pairs are passed over; the search ends
/// where the list does, or at a tail that is no list.
pub open spec fn field_scan(data: ValueView, name: Seq<char>) -> Option<Seq<char>>
    decreases data,
{
    match data {
        ValueView::Cons(pair, rest) => match *pair {
            ValueView::Cons(key, value) => if *key == ValueView::Symbol(name) {
                Some(display_text(*value))
            } else {
                field_scan(*rest, name)
            },
            _ => field_scan(*rest, name),
        },
        _ => None,
    }
}

/// The text of the field `name` of a row, which is the pair of a row name
/// and an association list of fields.
pub open spec fn field_text(row: ValueView, name: Seq<char>) -> Option<Seq<char>> {
    match row {
        ValueView::Cons(_, data) => field_scan(*data, name),
        _ => None,
    }
}

/// The model of an optional string.
pub open spec fn option_text(r: Option<String>) -> Option<Seq<char>> {
    match r {
        Some(s) => Some(s@),
        None => None,
    }
}

/// The text of the field `field_name` of a row, or `None` where the row has
/// no such field.
pub fn extract_field(row: &Value, field_name: &str) -> (r: Option<String>)
    ensures
        option_text(r) == field_text(row@, field_name@),
{
    match row {
        Value::Cons(_, row_data) => {
            let mut current: &Value = &**row_data;
            loop
                invariant
                    field_scan(current@, field_name@) == field_text(row@, field_name@),
                decreases current,
            {
                match current {
                    Value::Cons(pair, rest) => {
                        assert(current@ == ValueView::Cons(Box::new(pair@), Box::new(rest@)));
                        match &**pair {
                            Value::Cons(key, value) => {
                                assert(pair@ == ValueView::Cons(Box::new(key@), Box::new(value@)));
                                assert(key@ is Symbol <==> **key is Symbol);
                                match &**key {
                                    Value::Symbol(key_name) => {
                                        if key_name.as_str().eq(field_name) {
                                            return Some(value_to_display_string(&**value));
                                        }
                                    },
                                    _ => {},
                                }
                            },
                            _ => {},
                        }
                        current = &**rest;
                    },
                    _ => {
                        return None;
                    },
                }
            }
        },
        _ => None,
    }
}

/// The integer that a text writes: an optional sign, `+` or `-`, and one or
/// more decimal digits, with a value that fits a signed 64-bit integer.
pub open spec fn signed_value(s: Seq<char>) -> Option<int> {
    if s.len() == 0 {
        None
    } else {
        let negative = s[0] == '-';
        let digits = if s[0] == '-' || s[0] == '+' {
            s.skip(1)
        } else {
            s
        };
        let magnitude = digits_value(digits);
        if digits.len() == 0 || !all_digits(digits) {
            None
        } else if negative {
            if magnitude <= 9223372036854775808 {
                Some(-magnitude)
            } else {
                None
            }
        } else {
            if magnitude <= 9223372036854775807 {
                Some(magnitude as int)
            } else {
                None
            }
        }
    }
}

/// The number that the digits `chars[start..]` write, where there is at
/// least one character, all are digits, and the number is at most `limit`.
fn parse_digits(chars: &Vec<char>, start: usize, limit: u64) -> (r: Option<u64>)
    requires
        start <= chars.len(),
        9 <= limit,
    ensures
        ({
            let digits = chars@.subrange(start as int, chars.len() as int);
            if digits.len() > 0 && all_digits(digits) && digits_value(digits) <= limit {
                r == Some(digits_value(digits) as u64)
            } else {
                r is None
            }
        }),
{
    let ghost digits = chars@.subrange(start as int, chars.len() as int);
    if start == chars.len() {
        return None;
    }
    let mut i: usize = start;
    while i < chars.len()
        invariant
            start <= i <= chars.len(),
            digits == chars@.subrange(start as int, chars.len() as int),
            forall|j: int| start <= j < i ==> is_digit(#[trigger] chars@[j]),
        decreases chars.len() - i,
    {
        if !is_digit_char(chars[i]) {
            assert(!is_digit(digits[i - start]));
            return None;
        }
        i += 1;
    }
    assert(all_digits(digits)) by {
        assert forall|j: int| 0 <= j < digits.len() implies is_digit(#[trigger] digits[j]) by {
            assert(digits[j] == chars@[j + start]);
        }
    }
    let mut acc: u64 = 0;
    let mut k: usize = start;
    assert(chars@.subrange(start as int, start as int).len() == 0);
    while k < chars.len()
        invariant
            start <= k <= chars.len(),
            9 <= limit,
            digits == chars@.subrange(start as int, chars.len() as int),
            all_digits(digits),
            forall|j: int| start <= j < chars.len() ==> is_digit(#[trigger] chars@[j]),
            acc == digits_value(chars@.subrange(start as int, k as int)),
            acc <= limit,
        decreases chars.len() - k,
    {
        let d = digit_of(chars[k]);
        proof {
            lemma_digits_value_push(chars@.subrange(start as int, k as int), chars@[k as int]);
            assert(chars@.subrange(start as int, k as int).push(chars@[k as int])
                =~= chars@.subrange(start as int, k + 1));
            lemma_digits_prefix(chars@, start as int, k + 1, chars.len() as int);
        }
        if acc > (limit - d) / 10 {
            return None;
        }
        acc = acc * 10 + d;
        k += 1;
    }
    Some(acc)
}

/// The integer that a text writes, or `None` where it writes none.
pub fn parse_signed(text: &str) -> (r: Option<i64>)
    ensures
        match signed_value(text@) {
            Some(v) => r == Some(v as i64) && i64::MIN <= v <= i64::MAX,
            None => r is None,
        },
{
    let chars = chars_of(text);
    if chars.len() == 0 {
        return None;
    }
    let negative = chars[0] == '-';
    let start: usize = if chars[0] == '-' || chars[0] == '+' {
        1
    } else {
        0
    };
    let limit: u64 = if negative {
        9223372036854775808u64
    } else {
        9223372036854775807u64
    };
    proof {
        if start == 1 {
            assert(chars@.skip(1) =~= chars@.subrange(1, chars.len() as int));
        } else {
            assert(chars@ =~= chars@.subrange(0, chars.len() as int));
        }
    }
    match parse_digits(&chars, start, limit) {
        Some(magnitude) => {
            if negative {
                if magnitude == 9223372036854775808u64 {
                    Some(i64::MIN)
                } else {
                    Some(-(magnitude as i64))
                }
            } else {
                Some(magnitude as i64)
            }
        },
        None => None,
    }
}

/// An amount for display: a text that writes an integer becomes the yen
/// sign and the integer in decimal; any other text stays as it is.
pub open spec fn amount_text(s: Seq<char>) -> Seq<char> {
    match signed_value(s) {
        Some(v) => seq!['¥'] + int_text(v),
        None => s,
    }
}

/// An amount for display.
pub fn format_amount(amount_str: &str) -> (r: String)
    ensures
        r@ == amount_text(amount_str@),
{
    match parse_signed(amount_str) {
        Some(amount) => {
            let mut out = String::new();
            out.push('¥');
            append_int(&mut out, amount);
            assert(out@ =~= amount_text(amount_str@));
            out
        },
        None => amount_str.to_owned(),
    }
}

/// The text of an optional field: nothing where the field is missing.
pub open spec fn text_or_empty(t: Option<Seq<char>>) -> Seq<char> {
    match t {
        Some(s) => s,
        None => Seq::empty(),
    }
}

/// The row for display that a row of a table stands for. A missing field is
/// shown as nothing.
pub open spec fn display_row(row: ValueView) -> DisplayRowView {
    DisplayRowView {
        date: text_or_empty(field_text(row, "date"@)),
        amount: match field_text(row, "amount"@) {
            Some(a) => amount_text(a),
            None => Seq::empty(),
        },
        category: text_or_empty(field_text(row, "category"@)),
        account: text_or_empty(field_text(row, "account"@)),
        memo: text_or_empty(field_text(row, "memo"@)),
    }
}

/// Whether a list element is a group: a pair whose first part is a string.
pub open spec fn is_group(v: ValueView) -> bool {
    match v {
        ValueView::Cons(first, _) => *first is String,
        _ => false,
    }
}

/// The error of a table that does not end as a list.
pub open spec fn not_a_table(v: ValueView) -> TransformErrorView {
    TransformErrorView::TransformError("Expected a cons cell or nil, but got: "@ + value_text(v))
}

/// Rows with the rows `acc` put in front.
pub open spec fn prepend_rows(
    acc: Seq<DisplayRowView>,
    rest: Result<Seq<DisplayRowView>, TransformErrorView>,
) -> Result<Seq<DisplayRowView>, TransformErrorView> {
    match rest {
        Ok(rows) => Ok(acc + rows),
        Err(e) => Err(e),
    }
}

/// The rows for display of a table: each element of the list gives one row,
/// but for a group, which gives the rows of its own table. A table that
/// does not end as a list is an error.
pub open spec fn display_rows(v: ValueView) -> Result<Seq<DisplayRowView>, TransformErrorView>
    decreases v,
{
    match v {
        ValueView::Nil => Ok(Seq::empty()),
        ValueView::Cons(row, rest) => {
            let head = match *row {
                ValueView::Cons(first, second) => if *first is String {
                    display_rows(*second)
                } else {
                    Ok(seq![display_row(*row)])
                },
                _ => Ok(seq![display_row(*row)]),
            };
            match head {
                Ok(rows) => prepend_rows(rows, display_rows(*rest)),
                Err(e) => Err(e),
            }
        },
        _ => Err(not_a_table(v)),
    }
}

/// The model of a result of rows.
pub open spec fn rows_result_view(r: Result<Vec<DisplayRow>, TransformError>) -> Result<
    Seq<DisplayRowView>,
    TransformErrorView,
> {
    match r {
        Ok(rows) => Ok(rows_view(rows@)),
        Err(e) => Err(e@),
    }
}

fn text_or_default(t: Option<String>) -> (r: String)
    ensures
        r@ == text_or_empty(option_text(t)),
{
    match t {
        Some(s) => s,
        None => String::new(),
    }
}

/// The row for display that a row of a table stands for.
pub fn row_to_display(row: &Value) -> (r: DisplayRow)
    ensures
        r@ == display_row(row@),
{
    let date = text_or_default(extract_field(row, "date"));
    let amount = match extract_field(row, "amount") {
        Some(a) => format_amount(a.as_str()),
        None => String::new(),
    };
    let category = text_or_default(extract_field(row, "category"));
    let account = text_or_default(extract_field(row, "account"));
    let memo = text_or_default(extract_field(row, "memo"));
    DisplayRow { date, amount, category, account, memo }
}

/// The rows for display of a table, flat or grouped.
pub fn value_to_display_rows(value: &Value) -> (r: Result<Vec<DisplayRow>, TransformError>)
    ensures
        rows_result_view(r) == display_rows(value@),
    decreases value,
{
    let mut rows: Vec<DisplayRow> = Vec::new();
    let mut current: &Value = value;
    proof {
        assert(rows_view(rows@) =~= Seq::<DisplayRowView>::empty());
        let all = display_rows(value@);
        if all is Ok {
            assert(rows_view(rows@) + all->Ok_0 =~= all->Ok_0);
        }
    }
    loop
        invariant
            decreases_to!(value => current) || current == value,
            display_rows(value@) == prepend_rows(rows_view(rows@), display_rows(current@)),
        decreases current,
    {
        match current {
            Value::Nil => {
                assert(rows_view(rows@) + Seq::<DisplayRowView>::empty() =~= rows_view(rows@));
                return Ok(rows);
            },
            Value::Cons(row, rest) => {
                let ghost before = rows_view(rows@);
                let ghost head: Seq<DisplayRowView> = Seq::empty();
                let mut grouped = false;
                assert(current@ == ValueView::Cons(Box::new(row@), Box::new(rest@)));
                match &**row {
                    Value::Cons(first, second) => {
                        assert(row@ == ValueView::Cons(Box::new(first@), Box::new(second@)));
                        assert(first@ is String <==> **first is String);
                        match &**first {
                            Value::String(_) => {
                                grouped = true;
                                match value_to_display_rows(&**second) {
                                    Ok(mut group_rows) => {
                                        proof {
                                            head = rows_view(group_rows@);
                                        }
                                        rows.append(&mut group_rows);
                                        assert(rows_view(rows@) =~= before + head);
                                    },
                                    Err(e) => {
                                        return Err(e);
                                    },
                                }
                            },
                            _ => {},
                        }
                    },
                    _ => {},
                }
                if !grouped {
                    rows.push(row_to_display(&**row));
                    proof {
                        head = seq![display_row(row@)];
                    }
                    assert(rows_view(rows@) =~= before + head);
                }
                proof {
                    let rest_rows = display_rows(rest@);
                    assert(display_rows(current@) == prepend_rows(head, rest_rows));
                    if rest_rows is Ok {
                        assert(before + (head + rest_rows->Ok_0) =~= rows_view(rows@)
                            + rest_rows->Ok_0);
                    }
                }
                current = &**rest;
            },
            _ => {
                let mut msg = "Expected a cons cell or nil, but got: ".to_owned();
                let text = current.to_string();
                msg.append(text.as_str());
                return Err(TransformError::TransformError(msg));
            },
        }
    }
}

/// The error of a grouped value that does not end as a list.
pub open spec fn not_grouped() -> TransformErrorView {
    TransformErrorView::TransformError("Unexpected grouped value structure"@)
}

/// Tables with the tables `acc` put in front.
pub open spec fn prepend_tables(
    acc: Seq<GroupedTableView>,
    rest: Result<Seq<GroupedTableView>, TransformErrorView>,
) -> Result<Seq<GroupedTableView>, TransformErrorView> {
    match rest {
        Ok(tables) => Ok(acc + tables),
        Err(e) => Err(e),
    }
}

/// The grouped tables of a grouped value: each element of the list that is
/// a group gives one table, under the group's name and with the rows of the
/// group's own table; elements that are no groups are passed over. A value
/// that does not end as a list is an error.
pub open spec fn grouped_tables(v: ValueView) -> Result<Seq<GroupedTableView>, TransformErrorView>
    decreases v,
{
    match v {
        ValueView::Nil => Ok(Seq::empty()),
        ValueView::Cons(pair, rest) => {
            let head = match *pair {
                ValueView::Cons(name, rows) => match *name {
                    ValueView::String(group_name) => match display_rows(*rows) {
                        Ok(r) => Ok(seq![GroupedTableView { group_name, rows: r }]),
                        Err(e) => Err(e),
                    },
                    _ => Ok(Seq::empty()),
                },
                _ => Ok(Seq::empty()),
            };
            match head {
                Ok(tables) => prepend_tables(tables, grouped_tables(*rest)),
                Err(e) => Err(e),
            }
        },
        _ => Err(not_grouped()),
    }
}

/// The model of a result of grouped tables.
pub open spec fn tables_result_view(r: Result<Vec<GroupedTable>, TransformError>) -> Result<
    Seq<GroupedTableView>,
    TransformErrorView,
> {
    match r {
        Ok(tables) => Ok(tables_view(tables@)),
        Err(e) => Err(e@),
    }
}

/// The grouped tables of a grouped value, such as `group-by` gives.
pub fn value_to_grouped_tables(value: &Value) -> (r: Result<Vec<GroupedTable>, TransformError>)
    ensures
        tables_result_view(r) == grouped_tables(value@),
{
    let mut groups: Vec<GroupedTable> = Vec::new();
    let mut current: &Value = value;
    proof {
        assert(tables_view(groups@) =~= Seq::<GroupedTableView>::empty());
        let all = grouped_tables(value@);
        if all is Ok {
            assert(tables_view(groups@) + all->Ok_0 =~= all->Ok_0);
        }
    }
    loop
        invariant
            grouped_tables(value@) == prepend_tables(
                tables_view(groups@),
                grouped_tables(current@),
            ),
        decreases current,
    {
        match current {
            Value::Nil => {
                assert(tables_view(groups@) + Seq::<GroupedTableView>::empty() =~= tables_view(
                    groups@,
                ));
                return Ok(groups);
            },
            Value::Cons(group_pair, rest) => {
                let ghost before = tables_view(groups@);
                let ghost head: Seq<GroupedTableView> = Seq::empty();
                assert(current@ == ValueView::Cons(Box::new(group_pair@), Box::new(rest@)));
                match &**group_pair {
                    Value::Cons(group_name_val, rows_val) => {
                        assert(group_pair@ == ValueView::Cons(
                            Box::new(group_name_val@),
                            Box::new(rows_val@),
                        ));
                        assert(group_name_val@ is String <==> **group_name_val is String);
                        match &**group_name_val {
                            Value::String(group_name) => {
                                match value_to_display_rows(&**rows_val) {
                                    Ok(rows) => {
                                        let table = GroupedTable {
                                            group_name: group_name.clone(),
                                            rows,
                                        };
                                        proof {
                                            head = seq![table@];
                                        }
                                        groups.push(table);
                                        assert(tables_view(groups@) =~= before + head);
                                    },
                                    Err(e) => {
                                        return Err(e);
                                    },
                                }
                            },
                            _ => {},
                        }
                    },
                    _ => {},
                }
                proof {
                    let rest_tables = grouped_tables(rest@);
                    assert(tables_view(groups@) =~= before + head);
                    assert(grouped_tables(current@) == prepend_tables(head, rest_tables));
                    if rest_tables is Ok {
                        assert(before + (head + rest_tables->Ok_0) =~= tables_view(groups@)
                            + rest_tables->Ok_0);
                    }
                }
                current = &**rest;
            },
            _ => {
                return Err(
                    TransformError::TransformError(
                        "Unexpected grouped value structure".to_owned(),
                    ),
                );
            },
        }
    }
}

/// Whether a value is a grouped result: a list whose first element is a
/// group.
pub open spec fn grouped_result(v: ValueView) -> bool {
    match v {
        ValueView::Cons(first, _) => is_group(*first),
        _ => false,
    }
}

/// Whether a value is a grouped result, such as `group-by` gives.
pub fn is_grouped_result(value: &Value) -> (b: bool)
    ensures
        b == grouped_result(value@),
{
    match value {
        Value::Cons(first_group, _) => match &**first_group {
            Value::Cons(group_name, _) => {
                assert(group_name@ is String <==> **group_name is String);
                match &**group_name {
                    Value::String(_) => true,
                    _ => false,
                }
            },
            _ => {
                assert(!(first_group@ is Cons));
                false
            },
        },
        _ => false,
    }
}

} // verus!
