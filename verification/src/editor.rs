//! Transactions written as text in an editor: the template that is handed
//! to the editor, and the reading of what comes back.
//!
//! The text is read line by line. A line that is blank or starts with `#` is
//! passed over. Any other line counts as content; where it holds a colon,
//! what stands before the first colon is the name of a field, whatever the
//! case of its letters, and what stands after it is the field's value.
//! Whitespace around the line, the name and the value does not count, and
//! an empty value leaves the field as it was.

use vstd::prelude::*;
use vstd::string::*;
use crate::text::{chars_of, lowercase, lowercase_text, string_of};

verus! {

/// A transaction as it was written in the editor, every field as text.
#[derive(Debug, PartialEq, Eq)]
pub struct EditorTransaction {
    pub date: String,
    pub amount: String,
    pub currency: String,
    pub category: String,
    pub account: String,
    pub memo: Option<String>,
}

/// An error of the input of a transaction through the editor.
#[derive(Debug, PartialEq, Eq)]
pub enum EditorError {
    /// The editor could not be opened or used.
    EditorFailed(String),
    /// A required field is missing from the text.
    ParseError(String),
    /// The text holds nothing but blank lines and comments.
    Cancelled,
}

/// The model of an [`EditorTransaction`].
pub struct EditorTransactionView {
    pub date: Seq<char>,
    pub amount: Seq<char>,
    pub currency: Seq<char>,
    pub category: Seq<char>,
    pub account: Seq<char>,
    pub memo: Option<Seq<char>>,
}

/// The model of an [`EditorError`].
pub enum EditorErrorView {
    EditorFailed(Seq<char>),
    ParseError(Seq<char>),
    Cancelled,
}

/// The model of an optional string.
pub open spec fn text_view(t: Option<String>) -> Option<Seq<char>> {
    match t {
        Some(s) => Some(s@),
        None => None,
    }
}

impl View for EditorTransaction {
    type V = EditorTransactionView;

    open spec fn view(&self) -> EditorTransactionView {
        EditorTransactionView {
            date: self.date@,
            amount: self.amount@,
            currency: self.currency@,
            category: self.category@,
            account: self.account@,
            memo: text_view(self.memo),
        }
    }
}

impl View for EditorError {
    type V = EditorErrorView;

    open spec fn view(&self) -> EditorErrorView {
        match self {
            EditorError::EditorFailed(s) => EditorErrorView::EditorFailed(s@),
            EditorError::ParseError(s) => EditorErrorView::ParseError(s@),
            EditorError::Cancelled => EditorErrorView::Cancelled,
        }
    }
}

impl Clone for EditorTransaction {
    fn clone(&self) -> (r: Self)
        ensures
            r@ == self@,
    {
        EditorTransaction {
            date: self.date.clone(),
            amount: self.amount.clone(),
            currency: self.currency.clone(),
            category: self.category.clone(),
            account: self.account.clone(),
            memo: match &self.memo {
                Some(m) => Some(m.clone()),
                None => None,
            },
        }
    }
}

/// The message of an editor error.
pub open spec fn editor_error_text(e: EditorErrorView) -> Seq<char> {
    match e {
        EditorErrorView::EditorFailed(msg) => "Editor error: "@ + msg,
        EditorErrorView::ParseError(msg) => "Parse error: "@ + msg,
        EditorErrorView::Cancelled => "Transaction cancelled"@,
    }
}

impl EditorError {
    /// The message of the error.
    pub fn to_string(&self) -> (r: String)
        ensures
            r@ == editor_error_text(self@),
    {
        let mut out = String::new();
        match self {
            EditorError::EditorFailed(msg) => {
                out.append("Editor error: ");
                out.append(msg.as_str());
            },
            EditorError::ParseError(msg) => {
                out.append("Parse error: ");
                out.append(msg.as_str());
            },
            EditorError::Cancelled => {
                out.append("Transaction cancelled");
            },
        }
        assert(out@ =~= editor_error_text(self@));
        out
    }
}

/// The text of the template before the currency.
pub open spec fn template_head() -> Seq<char> {
    "# Enter transaction details below.
# Lines starting with '#' are comments and will be ignored.
# Format: key: value
#
# Example expense:
#   date: 2025-01-15
#   amount: -1000
#   currency: JPY
#   category: Food
#   account: Cash
#   memo: Lunch at restaurant
#
# Example income:
#   date: 2025-01-15
#   amount: 50000
#   currency: JPY
#   category: Salary
#   account: Bank
#   memo: Monthly salary
#
# Delete this template and fill in your transaction:

date: 
amount: 
currency: "@
}

/// The text of the template after the currency.
pub open spec fn template_tail() -> Seq<char> {
    "
category: 
account: 
memo: 
"@
}

/// The template for a transaction: an explanation in comments, and the
/// fields to fill in, with the currency filled in already.
pub fn generate_template(currency: &str) -> (r: String)
    ensures
        r@ == template_head() + currency@ + template_tail(),
{
    let mut out = String::new();
    out.append(
        "# Enter transaction details below.
# Lines starting with '#' are comments and will be ignored.
# Format: key: value
#
# Example expense:
#   date: 2025-01-15
#   amount: -1000
#   currency: JPY
#   category: Food
#   account: Cash
#   memo: Lunch at restaurant
#
# Example income:
#   date: 2025-01-15
#   amount: 50000
#   currency: JPY
#   category: Salary
#   account: Bank
#   memo: Monthly salary
#
# Delete this template and fill in your transaction:

date: 
amount: 
currency: ",
    );
    out.append(currency);
    out.append("
category: 
account: 
memo: 
");
    assert(out@ =~= template_head() + currency@ + template_tail());
    out
}

/// The whitespace of Unicode: the characters with the property White_Space.
pub open spec fn is_blank(c: char) -> bool {
    ('\u{9}' <= c && c <= '\u{d}') || c == ' ' || c == '\u{85}' || c == '\u{a0}' || c
        == '\u{1680}' || ('\u{2000}' <= c && c <= '\u{200a}') || c == '\u{2028}' || c
        == '\u{2029}' || c == '\u{202f}' || c == '\u{205f}' || c == '\u{3000}'
}

/// The fields of a transaction.
#[derive(Debug, Clone, Copy, PartialEq, Eq, Structural)]
pub enum Field {
    Date,
    Amount,
    Currency,
    Category,
    Account,
    Memo,
}

/// The field that a name in lower case names.
pub open spec fn field_of_key(key: Seq<char>) -> Option<Field> {
    if key == "date"@ {
        Some(Field::Date)
    } else if key == "amount"@ {
        Some(Field::Amount)
    } else if key == "currency"@ {
        Some(Field::Currency)
    } else if key == "category"@ {
        Some(Field::Category)
    } else if key == "account"@ {
        Some(Field::Account)
    } else if key == "memo"@ {
        Some(Field::Memo)
    } else {
        None
    }
}

/// The field that a name in lower case names: `date`, `amount`, `currency`,
/// `category`, `account` or `memo`. Any other name names no field.
pub fn field_named(key: &str) -> (r: Option<Field>)
    ensures
        r == field_of_key(key@),
{
    if key.eq("date") {
        Some(Field::Date)
    } else if key.eq("amount") {
        Some(Field::Amount)
    } else if key.eq("currency") {
        Some(Field::Currency)
    } else if key.eq("category") {
        Some(Field::Category)
    } else if key.eq("account") {
        Some(Field::Account)
    } else if key.eq("memo") {
        Some(Field::Memo)
    } else {
        None
    }
}

/// The fields read so far, and whether any line of content was met.
pub struct Draft {
    pub date: Option<Seq<char>>,
    pub amount: Option<Seq<char>>,
    pub currency: Option<Seq<char>>,
    pub category: Option<Seq<char>>,
    pub account: Option<Seq<char>>,
    pub memo: Option<Seq<char>>,
    pub has_content: bool,
}

impl Draft {
    /// Nothing read yet.
    pub open spec fn empty() -> Draft {
        Draft {
            date: None,
            amount: None,
            currency: None,
            category: None,
            account: None,
            memo: None,
            has_content: false,
        }
    }

    /// The draft after a line of content.
    pub open spec fn touched(self) -> Draft {
        Draft { has_content: true, ..self }
    }

    /// The draft with `field` set to `value`. An empty value, or no field,
    /// leaves the draft as it is.
    pub open spec fn with_field(self, field: Option<Field>, value: Seq<char>) -> Draft {
        if value.len() == 0 {
            self
        } else {
            match field {
                Some(Field::Date) => Draft { date: Some(value), ..self },
                Some(Field::Amount) => Draft { amount: Some(value), ..self },
                Some(Field::Currency) => Draft { currency: Some(value), ..self },
                Some(Field::Category) => Draft { category: Some(value), ..self },
                Some(Field::Account) => Draft { account: Some(value), ..self },
                Some(Field::Memo) => Draft { memo: Some(value), ..self },
                None => self,
            }
        }
    }
}

/// The first position from `i` on, before `to`, that holds no whitespace;
/// `to` where there is none.
pub open spec fn skip_blanks(s: Seq<char>, i: int, to: int) -> int
    decreases to - i,
{
    if 0 <= i < to <= s.len() && is_blank(s[i]) {
        skip_blanks(s, i + 1, to)
    } else {
        i
    }
}

/// The position after the last character before `j`, from `from` on, that
/// is no whitespace; `from` where there is none.
pub open spec fn drop_blanks(s: Seq<char>, from: int, j: int) -> int
    decreases j - from,
{
    if 0 <= from < j <= s.len() && is_blank(s[j - 1]) {
        drop_blanks(s, from, j - 1)
    } else {
        j
    }
}

/// The first position from `i` on, before `to`, that holds the character
/// `c`; `to` where there is none.
pub open spec fn find_char(s: Seq<char>, i: int, to: int, c: char) -> int
    decreases to - i,
{
    if 0 <= i < to <= s.len() && s[i] != c {
        find_char(s, i + 1, to, c)
    } else {
        i
    }
}

/// The draft after the line `s[from..to]`.
pub open spec fn read_line(s: Seq<char>, from: int, to: int, draft: Draft) -> Draft {
    let lo = skip_blanks(s, from, to);
    let hi = drop_blanks(s, lo, to);
    if lo >= hi || s[lo] == '#' {
        draft
    } else {
        let colon = find_char(s, lo, hi, ':');
        if colon >= hi {
            draft.touched()
        } else {
            let key = lowercase_text(s.subrange(lo, drop_blanks(s, lo, colon)));
            let value = s.subrange(skip_blanks(s, colon + 1, hi), hi);
            draft.touched().with_field(field_of_key(key), value)
        }
    }
}

/// The draft after the lines of `s` from the position `i` on. Lines end at
/// line feeds.
pub open spec fn read_lines(s: Seq<char>, i: int, draft: Draft) -> Draft
    decreases s.len() - i,
{
    let end = find_char(s, i, s.len() as int, '\n');
    let next = read_line(s, i, end, draft);
    if 0 <= i <= end < s.len() {
        read_lines(s, end + 1, next)
    } else {
        next
    }
}

/// The error of a required field that is missing.
pub open spec fn missing(field: Seq<char>) -> EditorErrorView {
    EditorErrorView::ParseError(field + " is required"@)
}

/// The transaction that a draft stands for. A draft without content means
/// that the input was cancelled; date, amount, currency, category and
/// account are required, and the first of them that is missing, in this
/// order, is the error.
pub open spec fn draft_result(d: Draft) -> Result<EditorTransactionView, EditorErrorView> {
    if !d.has_content {
        Err(EditorErrorView::Cancelled)
    } else if d.date is None {
        Err(missing("date"@))
    } else if d.amount is None {
        Err(missing("amount"@))
    } else if d.currency is None {
        Err(missing("currency"@))
    } else if d.category is None {
        Err(missing("category"@))
    } else if d.account is None {
        Err(missing("account"@))
    } else {
        Ok(
            EditorTransactionView {
                date: d.date->Some_0,
                amount: d.amount->Some_0,
                currency: d.currency->Some_0,
                category: d.category->Some_0,
                account: d.account->Some_0,
                memo: d.memo,
            },
        )
    }
}

/// The transaction that a text stands for.
pub open spec fn template_result(content: Seq<char>) -> Result<
    EditorTransactionView,
    EditorErrorView,
> {
    draft_result(read_lines(content, 0, Draft::empty()))
}

fn is_blank_char(c: char) -> (b: bool)
    ensures
        b == is_blank(c),
{
    ('\u{9}' <= c && c <= '\u{d}') || c == ' ' || c == '\u{85}' || c == '\u{a0}' || c
        == '\u{1680}' || ('\u{2000}' <= c && c <= '\u{200a}') || c == '\u{2028}' || c
        == '\u{2029}' || c == '\u{202f}' || c == '\u{205f}' || c == '\u{3000}'
}

fn skip_blanks_in(chars: &Vec<char>, from: usize, to: usize) -> (r: usize)
    requires
        from <= to <= chars.len(),
    ensures
        r == skip_blanks(chars@, from as int, to as int),
        from <= r <= to,
{
    let mut i: usize = from;
    while i < to && is_blank_char(chars[i])
        invariant
            from <= i <= to <= chars.len(),
            skip_blanks(chars@, from as int, to as int) == skip_blanks(chars@, i as int, to as int),
        decreases to - i,
    {
        i += 1;
    }
    i
}

fn drop_blanks_in(chars: &Vec<char>, from: usize, to: usize) -> (r: usize)
    requires
        from <= to <= chars.len(),
    ensures
        r == drop_blanks(chars@, from as int, to as int),
        from <= r <= to,
{
    let mut j: usize = to;
    while from < j && is_blank_char(chars[j - 1])
        invariant
            from <= j <= to <= chars.len(),
            drop_blanks(chars@, from as int, to as int) == drop_blanks(
                chars@,
                from as int,
                j as int,
            ),
        decreases j - from,
    {
        j -= 1;
    }
    j
}

fn find_char_in(chars: &Vec<char>, from: usize, to: usize, c: char) -> (r: usize)
    requires
        from <= to <= chars.len(),
    ensures
        r == find_char(chars@, from as int, to as int, c),
        from <= r <= to,
{
    let mut i: usize = from;
    while i < to && chars[i] != c
        invariant
            from <= i <= to <= chars.len(),
            find_char(chars@, from as int, to as int, c) == find_char(
                chars@,
                i as int,
                to as int,
                c,
            ),
        decreases to - i,
    {
        i += 1;
    }
    i
}

/// The fields read so far, as strings.
struct Fields {
    date: Option<String>,
    amount: Option<String>,
    currency: Option<String>,
    category: Option<String>,
    account: Option<String>,
    memo: Option<String>,
    has_content: bool,
}

impl View for Fields {
    type V = Draft;

    closed spec fn view(&self) -> Draft {
        Draft {
            date: text_view(self.date),
            amount: text_view(self.amount),
            currency: text_view(self.currency),
            category: text_view(self.category),
            account: text_view(self.account),
            memo: text_view(self.memo),
            has_content: self.has_content,
        }
    }
}

/// Sets `field` to `value`, where the value is not empty and there is a
/// field.
fn set_field(fields: Fields, field: Option<Field>, value: String) -> (r: Fields)
    ensures
        r@ == fields@.with_field(field, value@),
{
    let mut fields = fields;
    if value.as_str().is_empty() {
        return fields;
    }
    match field {
        Some(Field::Date) => {
            fields.date = Some(value);
        },
        Some(Field::Amount) => {
            fields.amount = Some(value);
        },
        Some(Field::Currency) => {
            fields.currency = Some(value);
        },
        Some(Field::Category) => {
            fields.category = Some(value);
        },
        Some(Field::Account) => {
            fields.account = Some(value);
        },
        Some(Field::Memo) => {
            fields.memo = Some(value);
        },
        None => {},
    }
    fields
}

/// Reads the line `chars[from..to]`.
fn read_line_in(chars: &Vec<char>, from: usize, to: usize, fields: Fields) -> (r: Fields)
    requires
        from <= to <= chars.len(),
    ensures
        r@ == read_line(chars@, from as int, to as int, fields@),
{
    let lo = skip_blanks_in(chars, from, to);
    let hi = drop_blanks_in(chars, lo, to);
    if lo >= hi || chars[lo] == '#' {
        return fields;
    }
    let mut fields = fields;
    fields.has_content = true;
    let colon = find_char_in(chars, lo, hi, ':');
    if colon >= hi {
        return fields;
    }
    let key_end = drop_blanks_in(chars, lo, colon);
    let key = lowercase(string_of(chars, lo, key_end).as_str());
    let value_start = skip_blanks_in(chars, colon + 1, hi);
    let value = string_of(chars, value_start, hi);
    set_field(fields, field_named(key.as_str()), value)
}

fn missing_field(field: &str) -> (e: EditorError)
    ensures
        e@ == missing(field@),
{
    let mut msg = field.to_owned();
    msg.append(" is required");
    EditorError::ParseError(msg)
}

/// Reads the transaction that was written into the template.
pub fn parse_template(content: &str) -> (r: Result<EditorTransaction, EditorError>)
    ensures
        match template_result(content@) {
            Ok(t) => r is Ok && r->Ok_0@ == t,
            Err(e) => r is Err && r->Err_0@ == e,
        },
{
    let chars = chars_of(content);
    let mut fields = Fields {
        date: None,
        amount: None,
        currency: None,
        category: None,
        account: None,
        memo: None,
        has_content: false,
    };
    let mut i: usize = 0;
    let mut done = false;
    while !done
        invariant
            i <= chars.len(),
            chars@ == content@,
            !done ==> read_lines(chars@, 0, Draft::empty()) == read_lines(
                chars@,
                i as int,
                fields@,
            ),
            done ==> read_lines(chars@, 0, Draft::empty()) == fields@,
        decreases chars.len() - i, if done { 0nat } else { 1nat },
    {
        let end = find_char_in(&chars, i, chars.len(), '\n');
        fields = read_line_in(&chars, i, end, fields);
        if end < chars.len() {
            i = end + 1;
        } else {
            done = true;
        }
    }
    if !fields.has_content {
        return Err(EditorError::Cancelled);
    }
    let date = match fields.date {
        Some(v) => v,
        None => {
            return Err(missing_field("date"));
        },
    };
    let amount = match fields.amount {
        Some(v) => v,
        None => {
            return Err(missing_field("amount"));
        },
    };
    let currency = match fields.currency {
        Some(v) => v,
        None => {
            return Err(missing_field("currency"));
        },
    };
    let category = match fields.category {
        Some(v) => v,
        None => {
            return Err(missing_field("category"));
        },
    };
    let account = match fields.account {
        Some(v) => v,
        None => {
            return Err(missing_field("account"));
        },
    };
    Ok(EditorTransaction { date, amount, currency, category, account, memo: fields.memo })
}

} // verus!
