//! The recurring rules that move money between accounts, and the
//! configuration that holds them.

use crate::amount::Amount;
use crate::date::is_calendar_date;
use crate::date::Date;
use crate::sheet::BalanceSheet;
use crate::sheet::CHARITY_EXPENDITURE;
use crate::sheet::MORTGAGE_INCOME;
use vstd::prelude::*;

verus! {

/// The account that money is moved from or to where a rule names none.
pub const MAIN_ACCOUNT: &'static str = "main";

/// The liability account of the mortgage.
pub const MORTGAGE_ACCOUNT: &'static str = "mortgage";

/// The currency symbol where the configuration names none.
pub const CURRENCY_SYMBOL: &'static str = "£";

/// A rule that fires once a month, on a fixed day of the month.
#[derive(Clone, Debug, PartialEq)]
pub enum Generator {
    /// Pays off a liability: moves up to `deduction_amount` from `from` into
    /// the liability account `to`.
    Mortgage { deduction_amount: Amount, deduction_day: u32, from: String, to: String },
    /// Accrues a month of interest at the annual percentage `rate` on
    /// `account`, against `income_account`.
    Interest { rate: Amount, day: u32, account: String, income_account: String },
    /// Pays `amount` into `to` out of the salary income account.
    Salary { amount: Amount, day: u32, to: String },
    /// Moves `amount` from `from` to `to`.
    Transfer { amount: Amount, day: u32, from: String, to: String },
    /// Moves `percentage` percent of the salary paid since the last tithe from
    /// `from` to `to`.
    Tithe { percentage: Amount, day: u32, from: String, to: String },
}

impl Generator {
    /// The day of the month on which the generator fires.
    pub open spec fn trigger_day(self) -> u32 {
        match self {
            Generator::Mortgage { deduction_day, .. } => deduction_day,
            Generator::Interest { day, .. } => day,
            Generator::Salary { day, .. } => day,
            Generator::Transfer { day, .. } => day,
            Generator::Tithe { day, .. } => day,
        }
    }

    /// Every amount that the generator carries is a decimal.
    pub open spec fn valid(self) -> bool {
        match self {
            Generator::Mortgage { deduction_amount, .. } => deduction_amount.valid(),
            Generator::Interest { rate, .. } => rate.valid(),
            Generator::Salary { amount, .. } => amount.valid(),
            Generator::Transfer { amount, .. } => amount.valid(),
            Generator::Tithe { percentage, .. } => percentage.valid(),
        }
    }
}

/// What a simulation starts from.
#[derive(Clone, Debug, PartialEq)]
pub struct Config {
    /// The generators, in the order in which they are applied within a day.
    pub transactions: Vec<Generator>,
    /// The balances on the start date.
    pub accounts: BalanceSheet,
    /// The symbol that reports put before an amount.
    pub currency_symbol: String,
    /// The day before the first simulated day.
    pub start_date: Date,
}

/// The currency symbol where the configuration names none.
pub fn default_currency_symbol() -> (r: String)
    ensures
        r@ == CURRENCY_SYMBOL@,
{
    CURRENCY_SYMBOL.to_owned()
}

/// The start date where the configuration names none: the first of January
/// 2025.
pub fn default_start_date() -> (r: Date)
    ensures
        r.spec_year() == 2025,
        r.spec_month() == 1,
        r.spec_day() == 1,
{
    assert(is_calendar_date(2025, 1, 1));
    Date::new(2025, 1, 1).unwrap()
}

/// The account that money is moved from or to where a rule names none.
pub fn default_main() -> (r: String)
    ensures
        r@ == MAIN_ACCOUNT@,
{
    MAIN_ACCOUNT.to_owned()
}

/// The liability account where a rule names none.
pub fn default_mortgage() -> (r: String)
    ensures
        r@ == MORTGAGE_ACCOUNT@,
{
    MORTGAGE_ACCOUNT.to_owned()
}

/// The account that interest is booked against where a rule names none.
pub fn default_mortgage_income() -> (r: String)
    ensures
        r@ == MORTGAGE_INCOME@,
{
    MORTGAGE_INCOME.to_owned()
}

/// The account that tithes are paid into where a rule names none.
pub fn default_charity() -> (r: String)
    ensures
        r@ == CHARITY_EXPENDITURE@,
{
    CHARITY_EXPENDITURE.to_owned()
}

} // verus!
