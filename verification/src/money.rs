//! Currencies and the errors of money.

use vstd::prelude::*;
use vstd::string::*;
use crate::text::{uppercase, uppercase_text};

verus! {

/// The currencies.
#[derive(Debug, Clone, Copy, PartialEq, Eq, Hash, Structural)]
pub enum Currency {
    /// Japanese yen, which has no minor unit.
    JPY,
    /// United States dollar, of a hundred cents.
    USD,
}

/// An error of money.
#[derive(Debug, PartialEq, Eq)]
pub enum MoneyError {
    /// Two amounts of different currencies met in one operation.
    CurrencyMismatch(Currency, Currency),
    /// A text that names no currency.
    InvalidCurrency(String),
    /// An amount too large for its minor units to fit a signed 64-bit integer.
    Overflow,
}

/// The model of a [`MoneyError`].
pub enum MoneyErrorView {
    CurrencyMismatch(Currency, Currency),
    InvalidCurrency(Seq<char>),
    Overflow,
}

impl View for MoneyError {
    type V = MoneyErrorView;

    open spec fn view(&self) -> MoneyErrorView {
        match self {
            MoneyError::CurrencyMismatch(a, b) => MoneyErrorView::CurrencyMismatch(*a, *b),
            MoneyError::InvalidCurrency(s) => MoneyErrorView::InvalidCurrency(s@),
            MoneyError::Overflow => MoneyErrorView::Overflow,
        }
    }
}

/// The currency that a code in upper case names.
pub open spec fn currency_of_code(upper: Seq<char>) -> Option<Currency> {
    if upper == "JPY"@ {
        Some(Currency::JPY)
    } else if upper == "USD"@ {
        Some(Currency::USD)
    } else {
        None
    }
}

/// The currency that a text names, whatever the case of its letters; the
/// error for a text that names none holds the text as it was given.
pub open spec fn currency_of(s: Seq<char>) -> Result<Currency, MoneyErrorView> {
    match currency_of_code(uppercase_text(s)) {
        Some(c) => Ok(c),
        None => Err(MoneyErrorView::InvalidCurrency(s)),
    }
}

/// The model of the result of reading a currency.
pub open spec fn currency_result_view(r: Result<Currency, MoneyError>) -> Result<
    Currency,
    MoneyErrorView,
> {
    match r {
        Ok(c) => Ok(c),
        Err(e) => Err(e@),
    }
}

impl Currency {
    /// The number of decimal places of the currency's minor unit.
    pub open spec fn places(self) -> nat {
        match self {
            Currency::JPY => 0,
            Currency::USD => 2,
        }
    }

    /// The code of the currency.
    pub open spec fn code(self) -> Seq<char> {
        match self {
            Currency::JPY => "JPY"@,
            Currency::USD => "USD"@,
        }
    }

    /// The number of decimal places of the currency's minor unit: none for
    /// the yen, two for the dollar.
    pub fn decimal_places(&self) -> (r: u32)
        ensures
            r == self.places(),
    {
        match self {
            Currency::JPY => 0,
            Currency::USD => 2,
        }
    }

    /// The code of the currency: `JPY` or `USD`.
    pub fn to_string(&self) -> (r: String)
        ensures
            r@ == self.code(),
    {
        match self {
            Currency::JPY => "JPY".to_owned(),
            Currency::USD => "USD".to_owned(),
        }
    }

    /// Whether an operation on two amounts of these currencies can go
    /// ahead: it can where the currencies are the same, and is refused as a
    /// mismatch of the two where they differ.
    pub fn require_same(self, other: Currency) -> (r: Result<(), MoneyError>)
        ensures
            self == other ==> r is Ok,
            self != other ==> r is Err && r->Err_0@ == MoneyErrorView::CurrencyMismatch(
                self,
                other,
            ),
    {
        if self == other {
            Ok(())
        } else {
            Err(MoneyError::CurrencyMismatch(self, other))
        }
    }

    /// The currency that the code `upper` names, where `upper` is `given`
    /// put in upper case; a code that names none is refused with `given`.
    pub fn from_code(upper: &str, given: &str) -> (r: Result<Currency, MoneyError>)
        ensures
            currency_result_view(r) == match currency_of_code(upper@) {
                Some(c) => Ok::<Currency, MoneyErrorView>(c),
                None => Err::<Currency, MoneyErrorView>(
                    MoneyErrorView::InvalidCurrency(given@),
                ),
            },
    {
        if upper.eq("JPY") {
            Ok(Currency::JPY)
        } else if upper.eq("USD") {
            Ok(Currency::USD)
        } else {
            Err(MoneyError::InvalidCurrency(given.to_owned()))
        }
    }

    /// The currency that a text names, whatever the case of its letters.
    pub fn parse(s: &str) -> (r: Result<Currency, MoneyError>)
        ensures
            currency_result_view(r) == currency_of(s@),
    {
        let upper = uppercase(s);
        Currency::from_code(upper.as_str(), s)
    }
}

impl std::str::FromStr for Currency {
    type Err = MoneyError;

    /// The currency that a text names, whatever the case of its letters;
    /// the same as [`Currency::parse`].
    fn from_str(s: &str) -> (r: Result<Currency, MoneyError>)
        ensures
            currency_result_view(r) == currency_of(s@),
    {
        Currency::parse(s)
    }
}

/// The message of an error of money.
pub open spec fn money_error_text(e: MoneyErrorView) -> Seq<char> {
    match e {
        MoneyErrorView::CurrencyMismatch(a, b) =>
            "Currency mismatch: cannot perform operation between "@ + a.code() + " and "@
                + b.code(),
        MoneyErrorView::InvalidCurrency(s) => "Invalid currency code: "@ + s,
        MoneyErrorView::Overflow => "Amount overflow: value is too large to fit in i64"@,
    }
}

impl MoneyError {
    /// The message of the error.
    pub fn to_string(&self) -> (r: String)
        ensures
            r@ == money_error_text(self@),
    {
        let mut out = String::new();
        match self {
            MoneyError::CurrencyMismatch(a, b) => {
                out.append("Currency mismatch: cannot perform operation between ");
                out.append(a.to_string().as_str());
                out.append(" and ");
                out.append(b.to_string().as_str());
            },
            MoneyError::InvalidCurrency(s) => {
                out.append("Invalid currency code: ");
                out.append(s.as_str());
            },
            MoneyError::Overflow => {
                out.append("Amount overflow: value is too large to fit in i64");
            },
        }
        assert(out@ =~= money_error_text(self@));
        out
    }
}

} // verus!
