//! The configuration of the ledger.

use vstd::prelude::*;

verus! {

/// The configuration: the categories and accounts that a new ledger starts
/// with.
#[derive(Debug)]
pub struct Configuration {
    /// The categories to create when the ledger is initialized.
    pub default_categories: Vec<String>,
    /// The accounts to create when the ledger is initialized.
    pub default_accounts: Vec<String>,
}

/// The texts of a sequence of strings, in order.
pub open spec fn names_view(v: Seq<String>) -> Seq<Seq<char>> {
    Seq::new(v.len(), |i: int| v[i]@)
}

/// The categories of the default configuration.
pub open spec fn default_category_names() -> Seq<Seq<char>> {
    seq!["Food"@, "Transport"@, "Daily Goods"@, "Hobby"@, "Salary"@]
}

/// The accounts of the default configuration.
pub open spec fn default_account_names() -> Seq<Seq<char>> {
    seq!["Cash"@, "Bank"@]
}

impl Default for Configuration {
    /// The default configuration: four categories of expenses and one of
    /// income, and two accounts.
    fn default() -> (r: Self)
        ensures
            names_view(r.default_categories@) == default_category_names(),
            names_view(r.default_accounts@) == default_account_names(),
    {
        let mut categories: Vec<String> = Vec::new();
        categories.push("Food".to_owned());
        categories.push("Transport".to_owned());
        categories.push("Daily Goods".to_owned());
        categories.push("Hobby".to_owned());
        categories.push("Salary".to_owned());
        let mut accounts: Vec<String> = Vec::new();
        accounts.push("Cash".to_owned());
        accounts.push("Bank".to_owned());
        assert(names_view(categories@) =~= default_category_names());
        assert(names_view(accounts@) =~= default_account_names());
        Configuration { default_categories: categories, default_accounts: accounts }
    }
}

} // verus!
