//! The daily step: one calendar day of every generator, in declared order,
//! followed by the double-entry check.

use crate::amount::Amount;
use crate::date::Date;
use crate::generator::Config;
use crate::generator::Generator;
use crate::laws::law_move_posts_between;
use crate::sheet::balance_of;
use crate::sheet::credited;
use crate::sheet::debited;
use crate::sheet::is_balanced;
use crate::sheet::BalanceSheet;
use crate::sheet::Ledger;
use crate::sheet::PostingError;
use crate::sheet::SALARY_INCOME;
use vstd::prelude::*;

verus! {

/// Number of fractional digits that interest and tithes are rounded to.
pub const MONEY_DIGITS: u32 = 2;

/// Months in a year, by which an annual rate is divided.
pub const MONTHS_PER_YEAR: i64 = 12;

/// What a percentage is divided by.
pub const PERCENT: i64 = 100;

/// Why a generator could not be applied.
#[derive(Clone, Copy, Debug, PartialEq)]
pub enum ApplyError {
    /// The generator names an account that the balance sheet does not have.
    MissingAccount,
    /// The liability account of a mortgage has the positive balance `balance`.
    PositiveLiability { balance: Amount },
    /// An amount left the range of a decimal.
    Overflow,
}

/// Why a day could not be simulated.
#[derive(Clone, Debug, PartialEq)]
pub enum StepError {
    /// The generator at `index` could not be applied.
    Generator { index: usize, error: ApplyError },
    /// After all generators, the balances do not add up to exactly zero;
    /// `balances` is what the generators left.
    Unbalanced { balances: BalanceSheet },
}

/// What a `StepError` says: the same, with the content of the balance sheet
/// in place of the balance sheet.
pub enum StepFailure {
    /// The generator at `index` could not be applied.
    Generator { index: usize, error: ApplyError },
    /// After all generators, the balances do not add up to exactly zero.
    Unbalanced { balances: Ledger },
}

impl View for StepError {
    type V = StepFailure;

    open spec fn view(&self) -> StepFailure {
        match self {
            StepError::Generator { index, error } => StepFailure::Generator {
                index: *index,
                error: *error,
            },
            StepError::Unbalanced { balances } => StepFailure::Unbalanced { balances: balances@ },
        }
    }
}

/// The failure of a generator that a failed posting causes.
pub open spec fn posting_failure(e: PostingError) -> ApplyError {
    match e {
        PostingError::MissingAccount => ApplyError::MissingAccount,
        PostingError::Overflow => ApplyError::Overflow,
    }
}

/// What a mortgage deducts: the contractual amount, capped by the remaining
/// liability and by what the paying account holds, and never below zero.
pub open spec fn mortgage_deduction(
    deduction_amount: Amount,
    from_balance: Amount,
    to_balance: Amount,
) -> Amount {
    deduction_amount.smaller(to_balance.negated()).smaller(from_balance).larger(Amount::zero())
}

/// A month of interest on `balance` at the annual percentage `rate`, before
/// it is rounded: `balance * (rate / 12 / 100)` in decimal arithmetic. `None`
/// when an intermediate result overflows.
pub open spec fn monthly_interest_unrounded(balance: Amount, rate: Amount) -> Option<Amount> {
    match rate.quotient(Amount::from_integer(MONTHS_PER_YEAR)) {
        None => None,
        Some(per_month) => match per_month.quotient(Amount::from_integer(PERCENT)) {
            None => None,
            Some(fraction) => balance.product(fraction),
        },
    }
}

/// A month of interest on `balance` at the annual percentage `rate`:
/// `balance * (rate / 12 / 100)`, rounded to two fractional digits. `None`
/// when an intermediate result overflows.
pub open spec fn monthly_interest(balance: Amount, rate: Amount) -> Option<Amount> {
    match monthly_interest_unrounded(balance, rate) {
        None => None,
        Some(exact) => Some(exact.rounded(MONEY_DIGITS)),
    }
}

/// The tithe on the salary accumulated since the last one, before it is
/// rounded: `accumulator * percentage / 100` in decimal arithmetic. `None`
/// when an intermediate result overflows.
pub open spec fn tithe_unrounded(accumulator: Amount, percentage: Amount) -> Option<Amount> {
    match accumulator.product(percentage) {
        None => None,
        Some(scaled) => scaled.quotient(Amount::from_integer(PERCENT)),
    }
}

/// The tithe on the salary accumulated since the last one:
/// `accumulator * percentage / 100`, rounded to two fractional digits. `None`
/// when an intermediate result overflows.
pub open spec fn tithe_amount(accumulator: Amount, percentage: Amount) -> Option<Amount> {
    match tithe_unrounded(accumulator, percentage) {
        None => None,
        Some(exact) => Some(exact.rounded(MONEY_DIGITS)),
    }
}

/// The ledger after `amount` moved from one account to another: the debit
/// first, then the credit on what the debit left.
pub open spec fn moved(l: Ledger, from: Seq<char>, to: Seq<char>, amount: Amount) -> Result<
    Ledger,
    ApplyError,
> {
    match debited(l, from, amount) {
        Err(e) => Err(posting_failure(e)),
        Ok(l1) => match credited(l1, to, amount) {
            Err(e) => Err(posting_failure(e)),
            Ok(l2) => Ok(l2),
        },
    }
}

/// The ledger after `amount` was added to one account and taken from
/// another: the credit first, then the debit on what the credit left.
pub open spec fn accrued(l: Ledger, to: Seq<char>, from: Seq<char>, amount: Amount) -> Result<
    Ledger,
    ApplyError,
> {
    match credited(l, to, amount) {
        Err(e) => Err(posting_failure(e)),
        Ok(l1) => match debited(l1, from, amount) {
            Err(e) => Err(posting_failure(e)),
            Ok(l2) => Ok(l2),
        },
    }
}

/// Whether the generator acts on a day with that day of the month.
pub open spec fn fires(g: Generator, day: u32) -> bool {
    match g {
        Generator::Interest { rate, day: d, .. } => d == day && rate.units() != 0,
        _ => g.trigger_day() == day,
    }
}

/// What a firing mortgage does to the ledger.
pub open spec fn mortgage_applied(
    l: Ledger,
    deduction_amount: Amount,
    from: Seq<char>,
    to: Seq<char>,
) -> Result<Ledger, ApplyError> {
    match balance_of(l, from) {
        None => Err(ApplyError::MissingAccount),
        Some(from_balance) => match balance_of(l, to) {
            None => Err(ApplyError::MissingAccount),
            Some(to_balance) => if to_balance.units() > 0 {
                Err(ApplyError::PositiveLiability { balance: to_balance })
            } else {
                moved(l, from, to, mortgage_deduction(deduction_amount, from_balance, to_balance))
            },
        },
    }
}

/// What firing interest does to the ledger.
pub open spec fn interest_applied(
    l: Ledger,
    rate: Amount,
    account: Seq<char>,
    income_account: Seq<char>,
) -> Result<Ledger, ApplyError> {
    match balance_of(l, account) {
        None => Err(ApplyError::MissingAccount),
        Some(balance) => match monthly_interest(balance, rate) {
            None => Err(ApplyError::Overflow),
            Some(interest) => accrued(l, account, income_account, interest),
        },
    }
}

/// What a firing salary does to the ledger and the accumulator.
pub open spec fn salary_applied(l: Ledger, accumulator: Amount, amount: Amount, to: Seq<char>) -> Result<
    (Ledger, Amount),
    ApplyError,
> {
    match accrued(l, to, SALARY_INCOME@, amount) {
        Err(e) => Err(e),
        Ok(l2) => match accumulator.sum(amount) {
            None => Err(ApplyError::Overflow),
            Some(a) => Ok((l2, a)),
        },
    }
}

/// What a firing tithe does to the ledger and the accumulator.
pub open spec fn tithe_applied(
    l: Ledger,
    accumulator: Amount,
    percentage: Amount,
    from: Seq<char>,
    to: Seq<char>,
) -> Result<(Ledger, Amount), ApplyError> {
    match tithe_amount(accumulator, percentage) {
        None => Err(ApplyError::Overflow),
        Some(tithe) => if tithe.units() > 0 {
            match moved(l, from, to, tithe) {
                Err(e) => Err(e),
                Ok(l2) => Ok((l2, Amount::zero())),
            }
        } else {
            Ok((l, accumulator))
        },
    }
}

/// What one generator does to the ledger and the accumulator on a day with
/// that day of the month.
pub open spec fn applied(g: Generator, l: Ledger, accumulator: Amount, day: u32) -> Result<
    (Ledger, Amount),
    ApplyError,
> {
    if !fires(g, day) {
        Ok((l, accumulator))
    } else {
        match g {
            Generator::Mortgage { deduction_amount, from, to, .. } => match mortgage_applied(
                l,
                deduction_amount,
                from@,
                to@,
            ) {
                Err(e) => Err(e),
                Ok(l2) => Ok((l2, accumulator)),
            },
            Generator::Interest { rate, account, income_account, .. } => match interest_applied(
                l,
                rate,
                account@,
                income_account@,
            ) {
                Err(e) => Err(e),
                Ok(l2) => Ok((l2, accumulator)),
            },
            Generator::Salary { amount, to, .. } => salary_applied(l, accumulator, amount, to@),
            Generator::Transfer { amount, from, to, .. } => match moved(l, from@, to@, amount) {
                Err(e) => Err(e),
                Ok(l2) => Ok((l2, accumulator)),
            },
            Generator::Tithe { percentage, from, to, .. } => tithe_applied(
                l,
                accumulator,
                percentage,
                from@,
                to@,
            ),
        }
    }
}

/// What the generators do, one after the other in declared order, each on
/// what the one before it left.
pub open spec fn applied_all(gs: Seq<Generator>, l: Ledger, accumulator: Amount, day: u32) -> Result<
    (Ledger, Amount),
    StepFailure,
>
    decreases gs.len(),
{
    if gs.len() == 0 {
        Ok((l, accumulator))
    } else {
        match applied_all(gs.drop_last(), l, accumulator, day) {
            Err(e) => Err(e),
            Ok((l1, a1)) => match applied(gs.last(), l1, a1, day) {
                Err(e) => Err(StepFailure::Generator { index: (gs.len() - 1) as usize, error: e }),
                Ok(next) => Ok(next),
            },
        }
    }
}

/// One simulated day: all generators, then the check that the balances add
/// up to exactly zero.
pub open spec fn next_day(gs: Seq<Generator>, l: Ledger, accumulator: Amount, day: u32) -> Result<
    (Ledger, Amount),
    StepFailure,
> {
    match applied_all(gs, l, accumulator, day) {
        Err(e) => Err(e),
        Ok((l2, a2)) => if is_balanced(l2) {
            Ok((l2, a2))
        } else {
            Err(StepFailure::Unbalanced { balances: l2 })
        },
    }
}

/// Whether the result of applying a generator is the one that the model
/// gives: the same error, or a balance sheet with the same content and the
/// same accumulator.
pub open spec fn agrees(
    r: Result<(BalanceSheet, Amount), ApplyError>,
    model: Result<(Ledger, Amount), ApplyError>,
) -> bool {
    match model {
        Ok((l, a)) => r matches Ok((s, b)) && s@ == l && b == a,
        Err(e) => r matches Err(f) && f == e,
    }
}

/// Whether the result of a day is the one that the model gives: an error
/// that says the same, or a balance sheet with the same content and the same
/// accumulator.
pub open spec fn day_agrees(
    r: Result<(BalanceSheet, Amount), StepError>,
    model: Result<(Ledger, Amount), StepFailure>,
) -> bool {
    match model {
        Ok((l, a)) => r matches Ok((s, b)) && s@ == l && b == a,
        Err(e) => r matches Err(f) && f@ == e,
    }
}

/// Whether the balance sheet, or the error, is the one that the model gives.
pub open spec fn sheet_agrees(
    r: Result<BalanceSheet, ApplyError>,
    model: Result<Ledger, ApplyError>,
) -> bool {
    match model {
        Ok(l) => r matches Ok(s) && s@ == l,
        Err(e) => r matches Err(f) && f == e,
    }
}

/// The deduction of a mortgage of `deduction_amount` from an account that
/// holds `from_balance` into a liability account that holds `to_balance`.
pub fn compute_mortgage_deduction(
    deduction_amount: Amount,
    from_balance: Amount,
    to_balance: Amount,
) -> (r: Amount)
    ensures
        r == mortgage_deduction(deduction_amount, from_balance, to_balance),
{
    deduction_amount.min(to_balance.neg()).min(from_balance).max(Amount::zero())
}

/// A month of interest on `balance` at the annual percentage `rate`.
pub fn compute_monthly_interest(balance: Amount, rate: Amount) -> (r: Option<Amount>)
    ensures
        r == monthly_interest(balance, rate),
{
    match rate.checked_div(Amount::from_integer(MONTHS_PER_YEAR)) {
        None => None,
        Some(per_month) => match per_month.checked_div(Amount::from_integer(PERCENT)) {
            None => None,
            Some(fraction) => match balance.checked_mul(fraction) {
                None => None,
                Some(exact) => Some(exact.round_dp(MONEY_DIGITS)),
            },
        },
    }
}

/// The tithe of `percentage` percent on the accumulated salary.
pub fn compute_tithe(accumulator: Amount, percentage: Amount) -> (r: Option<Amount>)
    ensures
        r == tithe_amount(accumulator, percentage),
{
    match accumulator.checked_mul(percentage) {
        None => None,
        Some(scaled) => match scaled.checked_div(Amount::from_integer(PERCENT)) {
            None => None,
            Some(exact) => Some(exact.round_dp(MONEY_DIGITS)),
        },
    }
}

/// What moving `amount` from `from` to `to`, or accruing it to `to` against
/// `from`, leaves on two accounts that are not the same: the balance of
/// `from` less the amount, the balance of `to` plus the amount, and every
/// other balance as it was.
pub open spec fn posted_between(
    before: Ledger,
    after: Ledger,
    from: Seq<char>,
    to: Seq<char>,
    amount: Amount,
) -> bool {
    &&& balance_of(before, from) matches Some(from_balance)
    &&& balance_of(before, to) matches Some(to_balance)
    &&& balance_of(after, from) == from_balance.difference(amount)
    &&& balance_of(after, to) == to_balance.sum(amount)
    &&& balance_of(after, from) is Some
    &&& balance_of(after, to) is Some
    &&& forall|other: Seq<char>|
        other != from && other != to ==> #[trigger] balance_of(after, other) == balance_of(
            before,
            other,
        )
}

/// Whether `amount` can be posted between two accounts: the ledger has
/// both, and neither new balance overflows.
pub open spec fn can_post_between(
    l: Ledger,
    from: Seq<char>,
    to: Seq<char>,
    amount: Amount,
) -> bool {
    &&& balance_of(l, from) matches Some(from_balance)
    &&& balance_of(l, to) matches Some(to_balance)
    &&& from_balance.difference(amount) is Some
    &&& to_balance.sum(amount) is Some
}

/// Moves `amount` from one account to another: the debit first, then the
/// credit.
pub fn transfer(balances: BalanceSheet, from: &str, to: &str, amount: Amount) -> (r: Result<
    BalanceSheet,
    ApplyError,
>)
    ensures
        sheet_agrees(r, moved(balances@, from@, to@, amount)),
        from@ != to@ ==> (r matches Ok(s) ==> posted_between(balances@, s@, from@, to@, amount)),
        from@ != to@ ==> (r is Ok <==> can_post_between(balances@, from@, to@, amount)),
{
    proof {
        use_type_invariant(&balances);
        use_type_invariant(amount);
        balances.lemma_well_formed_content();
        if from@ != to@ {
            law_move_posts_between(balances@, from@, to@, amount);
        }
    }
    match balances.debit(from, amount) {
        Err(PostingError::MissingAccount) => Err(ApplyError::MissingAccount),
        Err(PostingError::Overflow) => Err(ApplyError::Overflow),
        Ok(debited) => match debited.credit(to, amount) {
            Err(PostingError::MissingAccount) => Err(ApplyError::MissingAccount),
            Err(PostingError::Overflow) => Err(ApplyError::Overflow),
            Ok(credited) => Ok(credited),
        },
    }
}

/// Adds `amount` to one account and takes it from another: the credit
/// first, then the debit.
pub fn accrue(balances: BalanceSheet, to: &str, from: &str, amount: Amount) -> (r: Result<
    BalanceSheet,
    ApplyError,
>)
    ensures
        sheet_agrees(r, accrued(balances@, to@, from@, amount)),
        from@ != to@ ==> (r matches Ok(s) ==> posted_between(balances@, s@, from@, to@, amount)),
        from@ != to@ ==> (r is Ok <==> can_post_between(balances@, from@, to@, amount)),
{
    proof {
        use_type_invariant(&balances);
        use_type_invariant(amount);
        balances.lemma_well_formed_content();
        if from@ != to@ {
            law_move_posts_between(balances@, from@, to@, amount);
        }
    }
    match balances.credit(to, amount) {
        Err(PostingError::MissingAccount) => Err(ApplyError::MissingAccount),
        Err(PostingError::Overflow) => Err(ApplyError::Overflow),
        Ok(credited) => match credited.debit(from, amount) {
            Err(PostingError::MissingAccount) => Err(ApplyError::MissingAccount),
            Err(PostingError::Overflow) => Err(ApplyError::Overflow),
            Ok(debited) => Ok(debited),
        },
    }
}

/// Applies a mortgage on its deduction day.
pub fn apply_mortgage(balances: BalanceSheet, deduction_amount: Amount, from: &str, to: &str) -> (r:
    Result<BalanceSheet, ApplyError>)
    ensures
        sheet_agrees(r, mortgage_applied(balances@, deduction_amount, from@, to@)),
{
    match balances.get(from) {
        None => Err(ApplyError::MissingAccount),
        Some(from_balance) => match balances.get(to) {
            None => Err(ApplyError::MissingAccount),
            Some(to_balance) => {
                if to_balance.gt(&Amount::zero()) {
                    Err(ApplyError::PositiveLiability { balance: to_balance })
                } else {
                    let deduction = compute_mortgage_deduction(
                        deduction_amount,
                        from_balance,
                        to_balance,
                    );
                    transfer(balances, from, to, deduction)
                }
            },
        },
    }
}

/// Applies interest on its day, for a rate that is not zero.
pub fn apply_interest(balances: BalanceSheet, rate: Amount, account: &str, income_account: &str) -> (r:
    Result<BalanceSheet, ApplyError>)
    ensures
        sheet_agrees(r, interest_applied(balances@, rate, account@, income_account@)),
{
    match balances.get(account) {
        None => Err(ApplyError::MissingAccount),
        Some(balance) => match compute_monthly_interest(balance, rate) {
            None => Err(ApplyError::Overflow),
            Some(interest) => accrue(balances, account, income_account, interest),
        },
    }
}

/// Applies a salary on its day.
pub fn apply_salary(balances: BalanceSheet, accumulator: Amount, amount: Amount, to: &str) -> (r:
    Result<(BalanceSheet, Amount), ApplyError>)
    ensures
        agrees(r, salary_applied(balances@, accumulator, amount, to@)),
{
    match accrue(balances, to, SALARY_INCOME, amount) {
        Err(e) => Err(e),
        Ok(next) => match accumulator.checked_add(amount) {
            None => Err(ApplyError::Overflow),
            Some(a) => Ok((next, a)),
        },
    }
}

/// Applies a tithe on its day.
pub fn apply_tithe(
    balances: BalanceSheet,
    accumulator: Amount,
    percentage: Amount,
    from: &str,
    to: &str,
) -> (r: Result<(BalanceSheet, Amount), ApplyError>)
    ensures
        agrees(r, tithe_applied(balances@, accumulator, percentage, from@, to@)),
{
    match compute_tithe(accumulator, percentage) {
        None => Err(ApplyError::Overflow),
        Some(tithe) => {
            if tithe.gt(&Amount::zero()) {
                match transfer(balances, from, to, tithe) {
                    Err(e) => Err(e),
                    Ok(next) => Ok((next, Amount::zero())),
                }
            } else {
                Ok((balances, accumulator))
            }
        },
    }
}

/// Applies one generator to the balances and the accumulator of a day with
/// the given day of the month.
pub fn apply_generator(g: &Generator, balances: BalanceSheet, accumulator: Amount, day: u32) -> (r:
    Result<(BalanceSheet, Amount), ApplyError>)
    ensures
        agrees(r, applied(*g, balances@, accumulator, day)),
{
    match g {
        Generator::Mortgage { deduction_amount, deduction_day, from, to } => {
            if day == *deduction_day {
                match apply_mortgage(balances, *deduction_amount, from.as_str(), to.as_str()) {
                    Err(e) => Err(e),
                    Ok(next) => Ok((next, accumulator)),
                }
            } else {
                Ok((balances, accumulator))
            }
        },
        Generator::Interest { rate, day: interest_day, account, income_account } => {
            if day == *interest_day && !rate.is_zero() {
                match apply_interest(balances, *rate, account.as_str(), income_account.as_str()) {
                    Err(e) => Err(e),
                    Ok(next) => Ok((next, accumulator)),
                }
            } else {
                Ok((balances, accumulator))
            }
        },
        Generator::Salary { amount, day: salary_day, to } => {
            if day == *salary_day {
                apply_salary(balances, accumulator, *amount, to.as_str())
            } else {
                Ok((balances, accumulator))
            }
        },
        Generator::Transfer { amount, day: transfer_day, from, to } => {
            if day == *transfer_day {
                match transfer(balances, from.as_str(), to.as_str(), *amount) {
                    Err(e) => Err(e),
                    Ok(next) => Ok((next, accumulator)),
                }
            } else {
                Ok((balances, accumulator))
            }
        },
        Generator::Tithe { percentage, day: tithe_day, from, to } => {
            if day == *tithe_day {
                apply_tithe(balances, accumulator, *percentage, from.as_str(), to.as_str())
            } else {
                Ok((balances, accumulator))
            }
        },
    }
}

/// Applies the generators in declared order to a copy of the balances, each
/// on what the one before it left, without the final check.
pub fn apply_generators(
    generators: &Vec<Generator>,
    balances: &BalanceSheet,
    day: u32,
    accumulator: Amount,
) -> (r: Result<(BalanceSheet, Amount), StepError>)
    ensures
        day_agrees(r, applied_all(generators@, balances@, accumulator, day)),
{
    let mut sheet = balances.clone();
    let mut salary_accumulator = accumulator;
    let mut i: usize = 0;
    while i < generators.len()
        invariant
            i <= generators.len(),
            applied_all(generators@.take(i as int), balances@, accumulator, day) == Ok::<
                (Ledger, Amount),
                StepFailure,
            >((sheet@, salary_accumulator)),
        decreases generators.len() - i,
    {
        let ghost prefix = generators@.take(i as int + 1);
        assert(prefix.drop_last() =~= generators@.take(i as int));
        match apply_generator(&generators[i], sheet, salary_accumulator, day) {
            Err(error) => {
                proof {
                    lemma_failure_is_final(generators@, balances@, accumulator, day, i as int + 1);
                }
                return Err(StepError::Generator { index: i, error });
            },
            Ok((next, a)) => {
                sheet = next;
                salary_accumulator = a;
            },
        }
        i += 1;
    }
    assert(generators@.take(i as int) =~= generators@);
    Ok((sheet, salary_accumulator))
}

/// Advances the balances and the salary accumulator by the day `date`:
/// applies every generator of the configuration that fires on that day of the
/// month, then checks that the balances add up to exactly zero.
pub fn compute_next_day_balances_with_tithe(
    config: &Config,
    balances: &BalanceSheet,
    date: Date,
    total_salary_since_last_tithe: Amount,
) -> (r: Result<(BalanceSheet, Amount), StepError>)
    ensures
        day_agrees(
            r,
            next_day(
                config.transactions@,
                balances@,
                total_salary_since_last_tithe,
                date.spec_day(),
            ),
        ),
        r matches Ok((s, _)) ==> is_balanced(s@),
{
    match apply_generators(
        &config.transactions,
        balances,
        date.day(),
        total_salary_since_last_tithe,
    ) {
        Err(e) => Err(e),
        Ok((next, accumulator)) => {
            if next.is_balanced() {
                Ok((next, accumulator))
            } else {
                Err(StepError::Unbalanced { balances: next })
            }
        },
    }
}

/// Advances the balances by the day `date`, starting from an empty salary
/// accumulator.
pub fn compute_next_day_balances(config: &Config, balances: &BalanceSheet, date: Date) -> (r:
    Result<BalanceSheet, StepError>)
    ensures
        match next_day(config.transactions@, balances@, Amount::zero(), date.spec_day()) {
            Ok((l, _)) => r matches Ok(s) && s@ == l && is_balanced(s@),
            Err(e) => r matches Err(f) && f@ == e,
        },
{
    match compute_next_day_balances_with_tithe(config, balances, date, Amount::zero()) {
        Err(e) => Err(e),
        Ok((next, _)) => Ok(next),
    }
}

/// Once the generators up to some point have failed, the day has failed with
/// that error.
pub proof fn lemma_failure_is_final(
    gs: Seq<Generator>,
    l: Ledger,
    accumulator: Amount,
    day: u32,
    k: int,
)
    requires
        0 <= k <= gs.len(),
        applied_all(gs.take(k), l, accumulator, day) is Err,
    ensures
        applied_all(gs, l, accumulator, day) == applied_all(gs.take(k), l, accumulator, day),
    decreases gs.len() - k,
{
    if k < gs.len() {
        assert(gs.take(k + 1).drop_last() =~= gs.take(k));
        lemma_failure_is_final(gs, l, accumulator, day, k + 1);
    } else {
        assert(gs.take(k) =~= gs);
    }
}

} // verus!
