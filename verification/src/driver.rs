//! The simulation driver: the daily step repeated over consecutive calendar
//! days, and the history it leaves.

use crate::amount::Amount;
use crate::date::Date;
use crate::engine::compute_next_day_balances_with_tithe;
use crate::engine::next_day;
use crate::engine::StepError;
use crate::engine::StepFailure;
use crate::generator::Config;
use crate::generator::Generator;
use crate::sheet::balance_of;
use crate::sheet::is_balanced;
use crate::sheet::BalanceSheet;
use crate::sheet::Ledger;
use vstd::prelude::*;

verus! {

/// Why a simulation stopped before its last day.
#[derive(Clone, Debug, PartialEq)]
pub enum RunError {
    /// The day `date` could not be simulated.
    Step { date: Date, error: StepError },
    /// The simulation reached the last date of the calendar.
    EndOfCalendar,
}

/// What a `RunError` says: the same, with what the `StepError` says in its
/// place.
pub enum RunFailure {
    /// The day `date` could not be simulated.
    Step { date: Date, error: StepFailure },
    /// The simulation reached the last date of the calendar.
    EndOfCalendar,
}

impl View for RunError {
    type V = RunFailure;

    open spec fn view(&self) -> RunFailure {
        match self {
            RunError::Step { date, error } => RunFailure::Step { date: *date, error: error@ },
            RunError::EndOfCalendar => RunFailure::EndOfCalendar,
        }
    }
}

/// The number of days that a simulation asked to run for `days_to_run` days
/// covers: none where the number is negative.
pub open spec fn days_covered(days_to_run: i32) -> nat {
    if days_to_run < 0 {
        0
    } else {
        days_to_run as nat
    }
}

/// The balances, the salary accumulator and the date at the end of the `n`th
/// simulated day; the opening balances, an empty accumulator and the start
/// date for `n = 0`.
pub open spec fn state_after(gs: Seq<Generator>, opening: Ledger, start: Date, n: nat) -> Result<
    (Ledger, Amount, Date),
    RunFailure,
>
    decreases n,
{
    if n == 0 {
        Ok((opening, Amount::zero(), start))
    } else {
        match state_after(gs, opening, start, (n - 1) as nat) {
            Err(e) => Err(e),
            Ok((l, accumulator, yesterday)) => match yesterday.successor() {
                None => Err(RunFailure::EndOfCalendar),
                Some(date) => match next_day(gs, l, accumulator, date.spec_day()) {
                    Err(error) => Err(RunFailure::Step { date, error }),
                    Ok((l2, a2)) => Ok((l2, a2, date)),
                },
            },
        }
    }
}

/// Whether a history entry records the end of the `n`th simulated day.
pub open spec fn records(
    entry: (Date, BalanceSheet),
    gs: Seq<Generator>,
    opening: Ledger,
    start: Date,
    n: nat,
) -> bool {
    state_after(gs, opening, start, n) matches Ok((l, _, date)) && entry.0 == date && entry.1@ == l
}

/// The dated balances of one account, for the entries of the history in
/// which the balance sheet has that account.
pub open spec fn series_of(history: Seq<(Date, BalanceSheet)>, name: Seq<char>) -> Seq<
    (Date, Amount),
>
    decreases history.len(),
{
    if history.len() == 0 {
        Seq::empty()
    } else {
        let earlier = series_of(history.drop_last(), name);
        match balance_of(history.last().1@, name) {
            Some(balance) => earlier.push((history.last().0, balance)),
            None => earlier,
        }
    }
}

/// Simulates `days_to_run` consecutive days, the first being the day after
/// the start date of the configuration, from the given balances and an empty
/// salary accumulator. Returns the date and the balances at the end of each
/// day, in order, or the first failure.
pub fn run(config: &Config, balances: BalanceSheet, days_to_run: i32) -> (r: Result<
    Vec<(Date, BalanceSheet)>,
    RunError,
>)
    ensures
        match state_after(
            config.transactions@,
            balances@,
            config.start_date,
            days_covered(days_to_run),
        ) {
            Err(e) => r matches Err(f) && f@ == e,
            Ok(_) => r matches Ok(history) && history@.len() == days_covered(days_to_run)
                && forall|i: int|
                0 <= i < history@.len() ==> records(
                    #[trigger] history@[i],
                    config.transactions@,
                    balances@,
                    config.start_date,
                    (i + 1) as nat,
                ),
        },
        r matches Ok(history) ==> forall|i: int|
            0 <= i < history@.len() ==> is_balanced((#[trigger] history@[i]).1@),
{
    let ghost opening = balances@;
    let mut current = balances;
    let mut date = config.start_date;
    let mut history: Vec<(Date, BalanceSheet)> = Vec::new();
    let mut total_salary_since_last_tithe = Amount::zero();
    let mut day: i32 = 0;
    while day < days_to_run
        invariant
            0 <= day,
            day as nat <= days_covered(days_to_run),
            opening == balances@,
            history@.len() == day,
            state_after(config.transactions@, opening, config.start_date, day as nat) == Ok::<
                (Ledger, Amount, Date),
                RunFailure,
            >((current@, total_salary_since_last_tithe, date)),
            forall|i: int|
                0 <= i < history@.len() ==> records(
                    #[trigger] history@[i],
                    config.transactions@,
                    opening,
                    config.start_date,
                    (i + 1) as nat,
                ),
            forall|i: int| 0 <= i < history@.len() ==> is_balanced((#[trigger] history@[i]).1@),
        decreases days_to_run - day,
    {
        let tomorrow = match date.succ() {
            Some(d) => d,
            None => {
                proof {
                    assert(state_after(
                        config.transactions@,
                        opening,
                        config.start_date,
                        (day + 1) as nat,
                    ) is Err);
                    lemma_failure_stays(
                        config.transactions@,
                        opening,
                        config.start_date,
                        (day + 1) as nat,
                        days_covered(days_to_run),
                    );
                }
                return Err(RunError::EndOfCalendar);
            },
        };
        match compute_next_day_balances_with_tithe(
            config,
            &current,
            tomorrow,
            total_salary_since_last_tithe,
        ) {
            Err(error) => {
                proof {
                    assert(state_after(
                        config.transactions@,
                        opening,
                        config.start_date,
                        (day + 1) as nat,
                    ) is Err);
                    lemma_failure_stays(
                        config.transactions@,
                        opening,
                        config.start_date,
                        (day + 1) as nat,
                        days_covered(days_to_run),
                    );
                }
                return Err(RunError::Step { date: tomorrow, error });
            },
            Ok((new_balances, new_total_salary)) => {
                date = tomorrow;
                total_salary_since_last_tithe = new_total_salary;
                let snapshot = new_balances.clone();
                current = new_balances;
                history.push((date, snapshot));
            },
        }
        day += 1;
    }
    Ok(history)
}

/// The dated balances of the account `name`, for the entries of the history
/// in which the balance sheet has that account.
pub fn account_series(history: &Vec<(Date, BalanceSheet)>, name: &str) -> (r: Vec<(Date, Amount)>)
    ensures
        r@ == series_of(history@, name@),
{
    let mut series: Vec<(Date, Amount)> = Vec::new();
    let mut i: usize = 0;
    while i < history.len()
        invariant
            i <= history.len(),
            series@ == series_of(history@.take(i as int), name@),
        decreases history.len() - i,
    {
        let ghost prefix = history@.take(i as int + 1);
        assert(prefix.drop_last() =~= history@.take(i as int));
        match history[i].1.get(name) {
            Some(balance) => {
                series.push((history[i].0, balance));
            },
            None => {},
        }
        i += 1;
    }
    assert(history@.take(i as int) =~= history@);
    series
}

/// A simulation that has failed by the end of some day has failed with that
/// error on every later day.
pub proof fn lemma_failure_stays(gs: Seq<Generator>, opening: Ledger, start: Date, n: nat, m: nat)
    requires
        n <= m,
        state_after(gs, opening, start, n) is Err,
    ensures
        state_after(gs, opening, start, m) == state_after(gs, opening, start, n),
    decreases m - n,
{
    if n < m {
        lemma_failure_stays(gs, opening, start, n, (m - 1) as nat);
    }
}

} // verus!
