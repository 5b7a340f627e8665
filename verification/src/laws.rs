//! What holds of every generator and of every simulated day, stated over
//! the model of the daily step and proved from it.

use crate::amount::Amount;
use crate::amount::MAX_SCALE;
use crate::amount::pow10;
use crate::date::Date;
use crate::driver::state_after;
use crate::engine::ApplyError;
use crate::engine::MONEY_DIGITS;
use crate::engine::MONTHS_PER_YEAR;
use crate::engine::PERCENT;
use crate::engine::accrued;
use crate::engine::applied;
use crate::engine::applied_all;
use crate::engine::fires;
use crate::engine::interest_applied;
use crate::engine::monthly_interest;
use crate::engine::monthly_interest_unrounded;
use crate::engine::mortgage_applied;
use crate::engine::mortgage_deduction;
use crate::engine::can_post_between;
use crate::engine::moved;
use crate::engine::posted_between;
use crate::engine::next_day;
use crate::engine::salary_applied;
use crate::engine::tithe_amount;
use crate::engine::tithe_applied;
use crate::engine::tithe_unrounded;
use crate::generator::Generator;
use crate::sheet::Ledger;
use crate::sheet::balance_of;
use crate::sheet::credited;
use crate::sheet::debited;
use crate::sheet::has_account;
use crate::sheet::is_balanced;
use crate::sheet::lemma_posting;
use crate::sheet::position;
use crate::sheet::SALARY_INCOME;
use crate::sheet::well_formed;
use vstd::prelude::*;

verus! {

/// The double-entry invariant holds at the end of every simulated day: the
/// balances that a day ends with add up to exactly zero.
pub proof fn law_zero_sum_after_each_day(
    gs: Seq<Generator>,
    l: Ledger,
    accumulator: Amount,
    day: u32,
)
    ensures
        next_day(gs, l, accumulator, day) matches Ok((l2, _)) ==> is_balanced(l2),
{
}

/// The double-entry invariant holds throughout a simulation: whatever the
/// configuration and the opening balances, the balances at the end of each
/// simulated day add up to exactly zero.
pub proof fn law_zero_sum_throughout(gs: Seq<Generator>, opening: Ledger, start: Date, n: nat)
    requires
        n >= 1,
    ensures
        state_after(gs, opening, start, n) matches Ok((l, _, _)) ==> is_balanced(l),
{
}

/// The deduction of a mortgage is never negative, never above the
/// contractual amount where that is not negative, never above what the
/// paying account holds where that is not negative, and never above the
/// remaining liability.
pub proof fn law_mortgage_deduction_bounds(
    deduction_amount: Amount,
    from_balance: Amount,
    to_balance: Amount,
)
    requires
        to_balance.valid(),
        to_balance.units() <= 0,
    ensures
        mortgage_deduction(deduction_amount, from_balance, to_balance).units() >= 0,
        deduction_amount.units() >= 0 ==> mortgage_deduction(
            deduction_amount,
            from_balance,
            to_balance,
        ).units() <= deduction_amount.units(),
        from_balance.units() >= 0 ==> mortgage_deduction(
            deduction_amount,
            from_balance,
            to_balance,
        ).units() <= from_balance.units(),
        mortgage_deduction(deduction_amount, from_balance, to_balance).units()
            <= -to_balance.units(),
{
    to_balance.lemma_negated();
    Amount::lemma_zero();
}

/// Mortgage clamp, lower bound: where the paying account holds less than the
/// contractual amount, and no more than the remaining liability, the
/// deduction is what the account holds, and the account is left at exactly
/// zero.
pub proof fn law_mortgage_clamped_by_balance(
    l: Ledger,
    deduction_amount: Amount,
    from: Seq<char>,
    to: Seq<char>,
)
    requires
        well_formed(l),
        deduction_amount.valid(),
        has_account(l, from),
        has_account(l, to),
        0 <= balance_of(l, from)->0.units() < deduction_amount.units(),
        balance_of(l, from)->0.units() <= -balance_of(l, to)->0.units(),
    ensures
        mortgage_deduction(
            deduction_amount,
            balance_of(l, from)->0,
            balance_of(l, to)->0,
        ).units() == balance_of(l, from)->0.units(),
        mortgage_applied(l, deduction_amount, from, to) matches Ok(l2) ==> balance_of(l2, from)
            matches Some(b) && b.units() == 0,
{
    let fb = balance_of(l, from)->0;
    let tb = balance_of(l, to)->0;
    tb.lemma_negated();
    Amount::lemma_zero();
    let d = mortgage_deduction(deduction_amount, fb, tb);
    fb.lemma_difference_of_equals(d);
    lemma_posting(l, from, d);
    if let Ok(l1) = debited(l, from, d) {
        lemma_posting(l1, to, d);
        if from == to {
            let v = fb.difference(d)->0;
            v.lemma_sum_with_zero(d);
        }
    }
}

/// Mortgage clamp, upper bound: where the remaining liability is less than
/// the contractual amount, and no more than what the paying account holds,
/// the deduction is the remaining liability, and the liability account is
/// left at exactly zero.
pub proof fn law_mortgage_clamped_by_liability(
    l: Ledger,
    deduction_amount: Amount,
    from: Seq<char>,
    to: Seq<char>,
)
    requires
        well_formed(l),
        deduction_amount.valid(),
        has_account(l, from),
        has_account(l, to),
        0 <= -balance_of(l, to)->0.units() < deduction_amount.units(),
        -balance_of(l, to)->0.units() <= balance_of(l, from)->0.units(),
    ensures
        mortgage_deduction(
            deduction_amount,
            balance_of(l, from)->0,
            balance_of(l, to)->0,
        ).units() == -balance_of(l, to)->0.units(),
        mortgage_applied(l, deduction_amount, from, to) matches Ok(l2) ==> balance_of(l2, to)
            matches Some(b) && b.units() == 0,
{
    let fb = balance_of(l, from)->0;
    let tb = balance_of(l, to)->0;
    tb.lemma_negated();
    Amount::lemma_zero();
    let d = mortgage_deduction(deduction_amount, fb, tb);
    lemma_posting(l, from, d);
    if let Ok(l1) = debited(l, from, d) {
        lemma_posting(l1, to, d);
        if from == to {
            fb.lemma_difference_of_equals(d);
            let v = fb.difference(d)->0;
            v.lemma_sum_with_zero(d);
        } else {
            tb.lemma_sum_of_opposites(d);
        }
    }
}

/// A generator leaves the balances and the accumulator as they are on every
/// day but its own; so does a mortgage on every day of the month but its
/// deduction day.
pub proof fn law_no_effect_on_other_days(g: Generator, l: Ledger, accumulator: Amount, day: u32)
    requires
        g.trigger_day() != day,
    ensures
        applied(g, l, accumulator, day) == Ok::<(Ledger, Amount), ApplyError>((l, accumulator)),
{
}

/// Interest at a rate of zero moves nothing.
pub proof fn law_no_interest_at_zero_rate(g: Generator, l: Ledger, accumulator: Amount, day: u32)
    requires
        g matches Generator::Interest { rate, .. } && rate.units() == 0,
    ensures
        applied(g, l, accumulator, day) == Ok::<(Ledger, Amount), ApplyError>((l, accumulator)),
{
}

/// Interest rounding: a month of interest, where it can be computed, is
/// `balance * (rate / 12 / 100)` rounded to the nearest amount of two
/// fractional digits, a tie going to the even one. It has no more than two
/// fractional digits and is within half a cent of what was rounded.
pub proof fn law_interest_is_rounded(balance: Amount, rate: Amount)
    requires
        balance.valid(),
        rate.valid(),
    ensures
        monthly_interest(balance, rate) matches Some(interest) ==> {
            &&& monthly_interest_unrounded(balance, rate) matches Some(exact)
            &&& interest == exact.rounded(MONEY_DIGITS)
            &&& interest.valid()
            &&& interest.spec_scale() <= MONEY_DIGITS
            &&& 2 * (interest.units() - exact.units()) <= pow10((MAX_SCALE - MONEY_DIGITS) as nat)
            &&& 2 * (exact.units() - interest.units()) <= pow10((MAX_SCALE - MONEY_DIGITS) as nat)
        },
{
    let twelve = Amount::from_integer(MONTHS_PER_YEAR);
    let hundred = Amount::from_integer(PERCENT);
    Amount::lemma_from_integer(MONTHS_PER_YEAR);
    Amount::lemma_from_integer(PERCENT);
    rate.lemma_results_valid(twelve);
    if let Some(per_month) = rate.quotient(twelve) {
        per_month.lemma_results_valid(hundred);
        if let Some(fraction) = per_month.quotient(hundred) {
            balance.lemma_results_valid(fraction);
            if let Some(exact) = balance.product(fraction) {
                exact.lemma_rounded_valid(MONEY_DIGITS);
                exact.lemma_rounded_scale(MONEY_DIGITS);
                exact.lemma_rounded_close(MONEY_DIGITS);
            }
        }
    }
}

/// Interest is booked as one amount, a month of interest on the balance that
/// the account holds, rounded to two fractional digits: it is added to the
/// account and taken from the income account.
pub proof fn law_interest_posting(
    l: Ledger,
    rate: Amount,
    account: Seq<char>,
    income_account: Seq<char>,
)
    requires
        well_formed(l),
        rate.valid(),
        account != income_account,
    ensures
        interest_applied(l, rate, account, income_account) matches Ok(l2) ==> {
            &&& monthly_interest(balance_of(l, account)->0, rate) matches Some(interest)
            &&& interest.spec_scale() <= MONEY_DIGITS
            &&& balance_of(l2, account) == balance_of(l, account)->0.sum(interest)
            &&& balance_of(l2, income_account) == balance_of(l, income_account)->0.difference(
                interest,
            )
        },
{
    if let Ok(l2) = interest_applied(l, rate, account, income_account) {
        let balance = balance_of(l, account)->0;
        let interest = monthly_interest(balance, rate)->0;
        law_interest_is_rounded(balance, rate);
        lemma_posting(l, account, interest);
        let l1 = credited(l, account, interest)->Ok_0;
        lemma_posting(l1, income_account, interest);
    }
}

/// Tithe rounding: a tithe, where it can be computed, is
/// `accumulator * percentage / 100` rounded to the nearest amount of two
/// fractional digits, a tie going to the even one. It has no more than two
/// fractional digits and is within half a cent of what was rounded.
pub proof fn law_tithe_is_rounded(accumulator: Amount, percentage: Amount)
    requires
        accumulator.valid(),
        percentage.valid(),
    ensures
        tithe_amount(accumulator, percentage) matches Some(tithe) ==> {
            &&& tithe_unrounded(accumulator, percentage) matches Some(exact)
            &&& tithe == exact.rounded(MONEY_DIGITS)
            &&& tithe.valid()
            &&& tithe.spec_scale() <= MONEY_DIGITS
            &&& 2 * (tithe.units() - exact.units()) <= pow10((MAX_SCALE - MONEY_DIGITS) as nat)
            &&& 2 * (exact.units() - tithe.units()) <= pow10((MAX_SCALE - MONEY_DIGITS) as nat)
        },
{
    let hundred = Amount::from_integer(PERCENT);
    Amount::lemma_from_integer(PERCENT);
    accumulator.lemma_results_valid(percentage);
    if let Some(scaled) = accumulator.product(percentage) {
        scaled.lemma_results_valid(hundred);
        if let Some(exact) = scaled.quotient(hundred) {
            exact.lemma_rounded_valid(MONEY_DIGITS);
            exact.lemma_rounded_scale(MONEY_DIGITS);
            exact.lemma_rounded_close(MONEY_DIGITS);
        }
    }
}

/// Tithe accumulator reset: a tithe that fires with a positive amount leaves
/// the accumulator at zero, and a salary that follows accumulates from zero,
/// so that the accumulator is then that salary.
pub proof fn law_tithe_resets_accumulator(
    l: Ledger,
    accumulator: Amount,
    percentage: Amount,
    from: Seq<char>,
    to: Seq<char>,
    later: Ledger,
    salary: Amount,
    salary_to: Seq<char>,
)
    requires
        tithe_amount(accumulator, percentage) matches Some(tithe) && tithe.units() > 0,
    ensures
        tithe_applied(l, accumulator, percentage, from, to) matches Ok((_, a)) ==> a.units() == 0
            && (salary_applied(later, a, salary, salary_to) matches Ok((_, a2)) ==> a2 == salary),
{
    Amount::lemma_zero();
    Amount::zero().lemma_sum_with_zero(salary);
}

/// Tithe on an empty accumulator: where no salary has been paid since the
/// last tithe, or ever, a tithe moves nothing and leaves the accumulator as
/// it is.
pub proof fn law_tithe_of_nothing(
    l: Ledger,
    accumulator: Amount,
    percentage: Amount,
    from: Seq<char>,
    to: Seq<char>,
)
    requires
        accumulator.units() == 0,
    ensures
        tithe_applied(l, accumulator, percentage, from, to) == Ok::<(Ledger, Amount), ApplyError>(
            (l, accumulator),
        ),
{
    let hundred = Amount::from_integer(PERCENT);
    Amount::lemma_zero();
    Amount::lemma_from_integer(PERCENT);
    accumulator.lemma_product_with_zero(percentage);
    Amount::zero().lemma_quotient_with_zero(hundred);
    Amount::zero().lemma_rounded_small(MONEY_DIGITS);
}

/// No generator opens or closes an account: after it the balance sheet has
/// the accounts that it had, each with a decimal for a balance.
pub proof fn law_generator_keeps_accounts(
    g: Generator,
    l: Ledger,
    accumulator: Amount,
    day: u32,
    name: Seq<char>,
)
    requires
        well_formed(l),
        g.valid(),
        accumulator.valid(),
    ensures
        applied(g, l, accumulator, day) matches Ok((l2, a2)) ==> well_formed(l2) && a2.valid()
            && has_account(l2, name) == has_account(l, name),
{
    if fires(g, day) {
        match g {
            Generator::Mortgage { deduction_amount, from, to, .. } => {
                if has_account(l, from@) && has_account(l, to@) {
                    let from_balance = balance_of(l, from@)->0;
                    let to_balance = balance_of(l, to@)->0;
                    assert(l[position(l, from@)].1.valid());
                    assert(l[position(l, to@)].1.valid());
                    to_balance.lemma_negated();
                    Amount::lemma_zero();
                    lemma_move_keeps_accounts(
                        l,
                        from@,
                        to@,
                        mortgage_deduction(deduction_amount, from_balance, to_balance),
                        name,
                    );
                }
            },
            Generator::Interest { rate, account, income_account, .. } => {
                if has_account(l, account@) {
                    let balance = balance_of(l, account@)->0;
                    assert(l[position(l, account@)].1.valid());
                    law_interest_is_rounded(balance, rate);
                    if let Some(interest) = monthly_interest(balance, rate) {
                        lemma_move_keeps_accounts(l, income_account@, account@, interest, name);
                    }
                }
            },
            Generator::Salary { amount, to, .. } => {
                lemma_move_keeps_accounts(l, SALARY_INCOME@, to@, amount, name);
                accumulator.lemma_results_valid(amount);
            },
            Generator::Transfer { amount, from, to, .. } => {
                lemma_move_keeps_accounts(l, from@, to@, amount, name);
            },
            Generator::Tithe { percentage, from, to, .. } => {
                law_tithe_is_rounded(accumulator, percentage);
                Amount::lemma_zero();
                if let Some(tithe) = tithe_amount(accumulator, percentage) {
                    lemma_move_keeps_accounts(l, from@, to@, tithe, name);
                }
            },
        }
    }
}

/// No day opens or closes an account: at its end the balance sheet has the
/// accounts that it had at its start.
pub proof fn law_day_keeps_accounts(
    gs: Seq<Generator>,
    l: Ledger,
    accumulator: Amount,
    day: u32,
    name: Seq<char>,
)
    requires
        well_formed(l),
        accumulator.valid(),
        forall|i: int| 0 <= i < gs.len() ==> (#[trigger] gs[i]).valid(),
    ensures
        applied_all(gs, l, accumulator, day) matches Ok((l2, a2)) ==> well_formed(l2) && a2.valid()
            && has_account(l2, name) == has_account(l, name),
    decreases gs.len(),
{
    if gs.len() > 0 {
        let earlier = gs.drop_last();
        assert forall|i: int| 0 <= i < earlier.len() implies (#[trigger] earlier[i]).valid() by {
            assert(earlier[i] == gs[i]);
        }
        law_day_keeps_accounts(earlier, l, accumulator, day, name);
        if let Ok((l1, a1)) = applied_all(earlier, l, accumulator, day) {
            assert(gs.last() == gs[gs.len() - 1]);
            law_generator_keeps_accounts(gs.last(), l1, a1, day, name);
        }
    }
}

/// Moving or accruing an amount keeps the accounts of a well-formed ledger.
pub proof fn lemma_move_keeps_accounts(
    l: Ledger,
    from: Seq<char>,
    to: Seq<char>,
    amount: Amount,
    name: Seq<char>,
)
    requires
        well_formed(l),
        amount.valid(),
    ensures
        moved(l, from, to, amount) matches Ok(l2) ==> well_formed(l2) && has_account(l2, name)
            == has_account(l, name),
        accrued(l, to, from, amount) matches Ok(l2) ==> well_formed(l2) && has_account(l2, name)
            == has_account(l, name),
{
    lemma_posting(l, from, amount);
    lemma_posting(l, to, amount);
    if let Ok(l1) = debited(l, from, amount) {
        lemma_posting(l1, to, amount);
    }
    if let Ok(l1) = credited(l, to, amount) {
        lemma_posting(l1, from, amount);
    }
}

/// Moving an amount between two different accounts of a well-formed ledger
/// takes it from the one, adds it to the other and changes no other account;
/// so does accruing it. Either goes through exactly when the balance sheet
/// has both accounts and neither new balance overflows.
pub proof fn law_move_posts_between(l: Ledger, from: Seq<char>, to: Seq<char>, amount: Amount)
    requires
        well_formed(l),
        amount.valid(),
        from != to,
    ensures
        moved(l, from, to, amount) matches Ok(l2) ==> posted_between(l, l2, from, to, amount),
        accrued(l, to, from, amount) matches Ok(l2) ==> posted_between(l, l2, from, to, amount),
        moved(l, from, to, amount) is Ok <==> can_post_between(l, from, to, amount),
        accrued(l, to, from, amount) is Ok <==> can_post_between(l, from, to, amount),
{
    lemma_posting(l, from, amount);
    lemma_posting(l, to, amount);
    if let Ok(l1) = debited(l, from, amount) {
        lemma_posting(l1, to, amount);
    }
    if let Ok(l1) = credited(l, to, amount) {
        lemma_posting(l1, from, amount);
    }
}

} // verus!
