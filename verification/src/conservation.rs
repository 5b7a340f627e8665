//! Double entry conserves money: as long as no posting is rounded, the
//! numbers on the balance sheet add up to what they added up to before, and
//! books that start at zero pass the check at the end of the day.

use crate::amount::Amount;
use crate::amount::magnitude;
use crate::amount::pow10;
use crate::engine::MONEY_DIGITS;
use crate::engine::StepFailure;
use crate::engine::accrued;
use crate::engine::applied;
use crate::engine::applied_all;
use crate::engine::fires;
use crate::engine::monthly_interest;
use crate::engine::mortgage_deduction;
use crate::engine::moved;
use crate::engine::next_day;
use crate::engine::tithe_amount;
use crate::generator::Generator;
use crate::laws::law_interest_is_rounded;
use crate::laws::law_tithe_is_rounded;
use crate::sheet::Ledger;
use crate::sheet::SALARY_INCOME;
use crate::sheet::adds_up_exactly;
use crate::sheet::balance_of;
use crate::sheet::credited;
use crate::sheet::debited;
use crate::sheet::exact_total;
use crate::sheet::has_account;
use crate::sheet::lemma_exact_posting;
use crate::sheet::lemma_posting;
use crate::sheet::lemma_total_is_exact;
use crate::sheet::well_formed;
use vstd::prelude::*;

verus! {

/// Whether `amount` moves from `from` to `to` with both postings computed
/// without rounding.
pub open spec fn moves_exactly(l: Ledger, from: Seq<char>, to: Seq<char>, amount: Amount) -> bool {
    &&& debited(l, from, amount) matches Ok(l1)
    &&& balance_of(l, from)->0.difference_is_exact(amount)
    &&& has_account(l1, to)
    &&& balance_of(l1, to)->0.sum_is_exact(amount)
}

/// Whether `amount` is added to `to` and taken from `from` with both
/// postings computed without rounding.
pub open spec fn accrues_exactly(l: Ledger, to: Seq<char>, from: Seq<char>, amount: Amount) -> bool {
    &&& credited(l, to, amount) matches Ok(l1)
    &&& balance_of(l, to)->0.sum_is_exact(amount)
    &&& has_account(l1, from)
    &&& balance_of(l1, from)->0.difference_is_exact(amount)
}

/// Whether the generator, where it posts on that day, posts without
/// rounding.
pub open spec fn posts_exactly(g: Generator, l: Ledger, accumulator: Amount, day: u32) -> bool {
    fires(g, day) ==> match g {
        Generator::Mortgage { deduction_amount, from, to, .. } => {
            &&& balance_of(l, from@) matches Some(from_balance)
            &&& balance_of(l, to@) matches Some(to_balance)
            &&& moves_exactly(
                l,
                from@,
                to@,
                mortgage_deduction(deduction_amount, from_balance, to_balance),
            )
        },
        Generator::Interest { rate, account, income_account, .. } => {
            &&& balance_of(l, account@) matches Some(balance)
            &&& monthly_interest(balance, rate) matches Some(interest)
            &&& accrues_exactly(l, account@, income_account@, interest)
        },
        Generator::Salary { amount, to, .. } => accrues_exactly(l, to@, SALARY_INCOME@, amount),
        Generator::Transfer { amount, from, to, .. } => moves_exactly(l, from@, to@, amount),
        Generator::Tithe { percentage, from, to, .. } => {
            &&& tithe_amount(accumulator, percentage) matches Some(tithe)
            &&& tithe.units() > 0 ==> moves_exactly(l, from@, to@, tithe)
        },
    }
}

/// Whether every generator, where it posts on that day, posts without
/// rounding, each on what the generators before it left.
pub open spec fn day_posts_exactly(
    gs: Seq<Generator>,
    l: Ledger,
    accumulator: Amount,
    day: u32,
) -> bool
    decreases gs.len(),
{
    gs.len() == 0 || (day_posts_exactly(gs.drop_last(), l, accumulator, day) && (applied_all(
        gs.drop_last(),
        l,
        accumulator,
        day,
    ) matches Ok((l1, a1)) ==> posts_exactly(gs.last(), l1, a1, day)))
}

/// Double entry: what is taken from one account is added to another, so
/// that the sum of the numbers on the balance sheet stays what it was,
/// wherever the two postings are computed without rounding.
pub proof fn law_move_conserves_total(l: Ledger, from: Seq<char>, to: Seq<char>, amount: Amount)
    requires
        well_formed(l),
        amount.valid(),
        moves_exactly(l, from, to, amount),
    ensures
        moved(l, from, to, amount) matches Ok(l2) && well_formed(l2) && exact_total(l2)
            == exact_total(l),
{
    lemma_posting(l, from, amount);
    lemma_exact_posting(l, from, amount);
    let l1 = debited(l, from, amount)->Ok_0;
    lemma_posting(l1, to, amount);
    lemma_exact_posting(l1, to, amount);
}

/// Double entry, for the generators that credit first: what is added to one
/// account is taken from another, so that the sum of the numbers on the
/// balance sheet stays what it was, wherever the two postings are computed
/// without rounding.
pub proof fn law_accrual_conserves_total(l: Ledger, to: Seq<char>, from: Seq<char>, amount: Amount)
    requires
        well_formed(l),
        amount.valid(),
        accrues_exactly(l, to, from, amount),
    ensures
        accrued(l, to, from, amount) matches Ok(l2) && well_formed(l2) && exact_total(l2)
            == exact_total(l),
{
    lemma_posting(l, to, amount);
    lemma_exact_posting(l, to, amount);
    let l1 = credited(l, to, amount)->Ok_0;
    lemma_posting(l1, from, amount);
    lemma_exact_posting(l1, from, amount);
}

/// Every generator conserves money: where its postings are computed
/// without rounding, the sum of the numbers on the balance sheet after it is
/// what it was before.
pub proof fn law_generator_conserves_total(g: Generator, l: Ledger, accumulator: Amount, day: u32)
    requires
        well_formed(l),
        g.valid(),
        accumulator.valid(),
        posts_exactly(g, l, accumulator, day),
    ensures
        applied(g, l, accumulator, day) matches Ok((l2, a2)) ==> well_formed(l2) && a2.valid()
            && exact_total(l2) == exact_total(l),
{
    if fires(g, day) {
        match g {
            Generator::Mortgage { deduction_amount, from, to, .. } => {
                let from_balance = balance_of(l, from@)->0;
                let to_balance = balance_of(l, to@)->0;
                to_balance.lemma_negated();
                Amount::lemma_zero();
                law_move_conserves_total(
                    l,
                    from@,
                    to@,
                    mortgage_deduction(deduction_amount, from_balance, to_balance),
                );
            },
            Generator::Interest { rate, account, income_account, .. } => {
                let balance = balance_of(l, account@)->0;
                law_interest_is_rounded(balance, rate);
                law_accrual_conserves_total(
                    l,
                    account@,
                    income_account@,
                    monthly_interest(balance, rate)->0,
                );
            },
            Generator::Salary { amount, to, .. } => {
                law_accrual_conserves_total(l, to@, SALARY_INCOME@, amount);
                accumulator.lemma_results_valid(amount);
            },
            Generator::Transfer { amount, from, to, .. } => {
                law_move_conserves_total(l, from@, to@, amount);
            },
            Generator::Tithe { percentage, from, to, .. } => {
                law_tithe_is_rounded(accumulator, percentage);
                Amount::lemma_zero();
                let tithe = tithe_amount(accumulator, percentage)->0;
                if tithe.units() > 0 {
                    law_move_conserves_total(l, from@, to@, tithe);
                }
            },
        }
    }
}

/// A day conserves money: where every posting of the day is computed
/// without rounding, the sum of the numbers on the balance sheet at the end
/// of the day is what it was at its start.
pub proof fn law_day_conserves_total(gs: Seq<Generator>, l: Ledger, accumulator: Amount, day: u32)
    requires
        well_formed(l),
        accumulator.valid(),
        forall|i: int| 0 <= i < gs.len() ==> (#[trigger] gs[i]).valid(),
        day_posts_exactly(gs, l, accumulator, day),
    ensures
        applied_all(gs, l, accumulator, day) matches Ok((l2, a2)) ==> well_formed(l2) && a2.valid()
            && exact_total(l2) == exact_total(l),
    decreases gs.len(),
{
    if gs.len() > 0 {
        let earlier = gs.drop_last();
        assert forall|i: int| 0 <= i < earlier.len() implies (#[trigger] earlier[i]).valid() by {
            assert(earlier[i] == gs[i]);
        }
        law_day_conserves_total(earlier, l, accumulator, day);
        if let Ok((l1, a1)) = applied_all(earlier, l, accumulator, day) {
            law_generator_conserves_total(gs.last(), l1, a1, day);
        }
    }
}

/// The zero-sum invariant is kept: a day that starts from balances whose
/// numbers add up to zero, and on which every posting and the final
/// addition are computed without rounding, does not fail the double-entry
/// check.
pub proof fn law_zero_sum_is_kept(gs: Seq<Generator>, l: Ledger, accumulator: Amount, day: u32)
    requires
        well_formed(l),
        accumulator.valid(),
        forall|i: int| 0 <= i < gs.len() ==> (#[trigger] gs[i]).valid(),
        exact_total(l) == 0,
        day_posts_exactly(gs, l, accumulator, day),
        applied_all(gs, l, accumulator, day) matches Ok((l2, _)) ==> adds_up_exactly(l2),
    ensures
        applied_all(gs, l, accumulator, day) matches Ok((l2, a2)) ==> next_day(
            gs,
            l,
            accumulator,
            day,
        ) == Ok::<(Ledger, Amount), StepFailure>((l2, a2)) && exact_total(l2) == 0,
{
    law_day_conserves_total(gs, l, accumulator, day);
    if let Ok((l2, _)) = applied_all(gs, l, accumulator, day) {
        lemma_total_is_exact(l2);
    }
}

/// The largest mantissa of an amount of money for which postings are known
/// to be exact: 10^26, which is 10^24 units of currency in cents.
pub const MONEY_LIMIT: i128 = 100_000_000_000_000_000_000_000_000;

/// Whether the amount is one of money of moderate size: no more than two
/// fractional digits, and no more than 10^24 units of currency.
pub open spec fn is_money(a: Amount) -> bool {
    a.valid() && a.spec_scale() <= MONEY_DIGITS && magnitude(a.spec_mantissa() as int)
        <= MONEY_LIMIT
}

/// Money moves exactly: between two accounts that hold money of moderate
/// size, an amount of money of moderate size is moved, or accrued, with both
/// postings computed without rounding.
pub proof fn law_money_moves_exactly(l: Ledger, from: Seq<char>, to: Seq<char>, amount: Amount)
    requires
        well_formed(l),
        from != to,
        balance_of(l, from) matches Some(b) && is_money(b),
        balance_of(l, to) matches Some(b) && is_money(b),
        is_money(amount),
    ensures
        moves_exactly(l, from, to, amount),
        accrues_exactly(l, to, from, amount),
{
    let from_balance = balance_of(l, from)->0;
    let to_balance = balance_of(l, to)->0;
    assert(pow10(2) == 100) by {
        reveal_with_fuel(pow10, 3);
    }
    from_balance.lemma_short_amounts_exact(amount, 2);
    to_balance.lemma_short_amounts_exact(amount, 2);
    lemma_posting(l, from, amount);
    lemma_posting(l, to, amount);
}

} // verus!
