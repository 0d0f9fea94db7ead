//! The records of the ledger: identifiers, categories, and transactions
//! with the names of their category and account.

use vstd::prelude::*;
use crate::text::chars_of;

verus! {

/// The identifier of a category.
#[derive(Debug, Clone, Copy, PartialEq, Eq, Structural)]
pub struct CategoryId(pub i64);

/// The identifier of an account.
#[derive(Debug, Clone, Copy, PartialEq, Eq, Structural)]
pub struct AccountId(pub i64);

/// The identifier of a transaction.
#[derive(Debug, Clone, Copy, PartialEq, Eq, Structural)]
pub struct TransactionId(pub i64);

/// The kind of a category: money spent or money received.
#[derive(Debug, Clone, Copy, PartialEq, Eq, Structural)]
pub enum CategoryType {
    /// A category of expenses, such as food or transport.
    Expense,
    /// A category of income, such as salary or bonus.
    Income,
}

/// A category.
#[derive(Debug)]
pub struct Category {
    /// The identifier of the category.
    pub category_id: CategoryId,
    /// The name of the category, which no other category has.
    pub name: String,
    /// The kind of the category.
    pub type_: CategoryType,
}

/// A transaction with the names of its category and account: the record
/// that a row of a table is built from. The date is held as its text, the
/// amount in minor units of its currency.
#[derive(Debug)]
pub struct TransactionDetail {
    pub transaction_id: TransactionId,
    pub date: String,
    pub amount: i64,
    pub memo: Option<String>,
    pub category_name: String,
    pub account_name: String,
}

/// The model of a [`TransactionDetail`].
pub struct TransactionView {
    pub id: int,
    pub date: Seq<char>,
    pub amount: int,
    pub memo: Option<Seq<char>>,
    pub category_name: Seq<char>,
    pub account_name: Seq<char>,
}

impl View for TransactionDetail {
    type V = TransactionView;

    open spec fn view(&self) -> TransactionView {
        TransactionView {
            id: self.transaction_id.0 as int,
            date: self.date@,
            amount: self.amount as int,
            memo: match self.memo {
                Some(m) => Some(m@),
                None => None,
            },
            category_name: self.category_name@,
            account_name: self.account_name@,
        }
    }
}

impl CategoryType {
    /// The name of the kind as the ledger stores it.
    pub open spec fn name(self) -> Seq<char> {
        match self {
            CategoryType::Expense => "expense"@,
            CategoryType::Income => "income"@,
        }
    }

    /// The kind that a name, as the ledger stores it, stands for.
    pub open spec fn of_name(name: Seq<char>) -> Option<CategoryType> {
        if name == "expense"@ {
            Some(CategoryType::Expense)
        } else if name == "income"@ {
            Some(CategoryType::Income)
        } else {
            None
        }
    }

    /// The kind that a name, as the ledger stores it, stands for: `expense`
    /// or `income`, in small letters. Any other text stands for none.
    pub fn from_name(name: &str) -> (r: Option<CategoryType>)
        ensures
            r == CategoryType::of_name(name@),
    {
        if name.eq("expense") {
            Some(CategoryType::Expense)
        } else if name.eq("income") {
            Some(CategoryType::Income)
        } else {
            None
        }
    }

    /// The name of the kind as the ledger stores it: `expense` or `income`.
    pub fn as_str(&self) -> (r: &'static str)
        ensures
            r@ == self.name(),
    {
        match self {
            CategoryType::Expense => "expense",
            CategoryType::Income => "income",
        }
    }
}

/// The character with an ASCII capital letter turned into its small letter.
pub open spec fn fold_case(c: char) -> int {
    if 'A' <= c && c <= 'Z' {
        c as int + 32
    } else {
        c as int
    }
}

/// Whether two texts are the same but for the case of their ASCII letters.
pub open spec fn same_but_case(a: Seq<char>, b: Seq<char>) -> bool {
    a.len() == b.len() && forall|i: int| 0 <= i < a.len() ==> fold_case(a[i]) == fold_case(b[i])
}

/// The kind of a category of the name `name`, where nothing else is known
/// of it: `Salary`, `Bonus` and `Income`, in whatever case, are income, and
/// every other name is an expense.
pub open spec fn kind_of_name(name: Seq<char>) -> CategoryType {
    if same_but_case(name, "Salary"@) || same_but_case(name, "Bonus"@) || same_but_case(
        name,
        "Income"@,
    ) {
        CategoryType::Income
    } else {
        CategoryType::Expense
    }
}

fn fold(c: char) -> (r: u32)
    ensures
        r == fold_case(c),
{
    if 'A' <= c && c <= 'Z' {
        c as u32 + 32
    } else {
        c as u32
    }
}

/// Whether two texts are the same but for the case of their ASCII letters.
pub fn eq_ignore_case(a: &Vec<char>, b: &str) -> (r: bool)
    ensures
        r == same_but_case(a@, b@),
{
    let other = chars_of(b);
    if a.len() != other.len() {
        return false;
    }
    let mut i: usize = 0;
    while i < a.len()
        invariant
            i <= a.len(),
            a.len() == other.len(),
            other@ == b@,
            forall|j: int| 0 <= j < i ==> fold_case(a@[j]) == fold_case(other@[j]),
        decreases a.len() - i,
    {
        if fold(a[i]) != fold(other[i]) {
            return false;
        }
        i += 1;
    }
    true
}

/// The kind of a category of the name `name`, where nothing else is known
/// of it.
pub fn category_type_of(name: &str) -> (r: CategoryType)
    ensures
        r == kind_of_name(name@),
{
    let chars = chars_of(name);
    if eq_ignore_case(&chars, "Salary") || eq_ignore_case(&chars, "Bonus") || eq_ignore_case(
        &chars,
        "Income",
    ) {
        CategoryType::Income
    } else {
        CategoryType::Expense
    }
}

} // verus!
