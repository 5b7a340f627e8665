//! Setting up the opening balance sheet: the accounts that the generators
//! rely on, and the account that makes the opening balances add up to zero.

use crate::amount::Amount;
use crate::sheet::balance_of;
use crate::sheet::distinct_names;
use crate::sheet::has_account;
use crate::sheet::is_balanced;
use crate::sheet::lemma_push_account;
use crate::sheet::lemma_without_account;
use crate::sheet::with_default_account;
use crate::sheet::with_default_accounts;
use crate::sheet::with_opening_balances;
use crate::sheet::BalanceSheet;
use crate::sheet::Ledger;
use crate::sheet::CHARITY_EXPENDITURE;
use crate::sheet::MORTGAGE_INCOME;
use crate::sheet::OPENING_BALANCES;
use crate::sheet::SALARY_INCOME;
use vstd::prelude::*;

verus! {

/// The balance sheet with the account of that name entered at balance zero,
/// unless it has it.
fn add_default_account(balances: BalanceSheet, name: &str) -> (r: BalanceSheet)
    ensures
        r@ == with_default_account(balances@, name@),
        distinct_names(balances@),
{
    proof {
        use_type_invariant(&balances);
        balances.lemma_well_formed_content();
    }
    let mut balances = balances;
    if !balances.contains_key(name) {
        balances.insert(name.to_owned(), Amount::zero());
    }
    balances
}

/// A copy of the balances with the salary income, mortgage income and
/// charity expenditure accounts entered at balance zero where they were
/// missing. No balance that was there changes.
pub fn add_default_accounts(balances: &BalanceSheet) -> (r: BalanceSheet)
    ensures
        r@ == with_default_accounts(balances@),
        has_account(r@, SALARY_INCOME@),
        has_account(r@, MORTGAGE_INCOME@),
        has_account(r@, CHARITY_EXPENDITURE@),
        forall|name: Seq<char>|
            has_account(balances@, name) ==> #[trigger] balance_of(r@, name) == balance_of(
                balances@,
                name,
            ),
{
    let first = add_default_account(balances.clone(), SALARY_INCOME);
    let ghost with_salary = first@;
    let second = add_default_account(first, MORTGAGE_INCOME);
    let ghost with_mortgage = second@;
    let third = add_default_account(second, CHARITY_EXPENDITURE);
    proof {
        lemma_default_account(balances@, SALARY_INCOME@);
        lemma_default_account(with_salary, MORTGAGE_INCOME@);
        lemma_default_account(with_mortgage, CHARITY_EXPENDITURE@);
        assert forall|name: Seq<char>| has_account(balances@, name) implies #[trigger] balance_of(
            third@,
            name,
        ) == balance_of(balances@, name) by {
            assert(has_account(with_salary, name));
            assert(has_account(with_mortgage, name));
        }
    }
    third
}

/// A copy of the balances with the opening-balances account set to the
/// negated total of all the other accounts, so that the balances add up to
/// exactly zero. `None` when the total of the other accounts overflows.
pub fn add_opening_balances(balances: &BalanceSheet) -> (r: Option<BalanceSheet>)
    ensures
        match with_opening_balances(balances@) {
            Some(l) => r matches Some(s) && s@ == l,
            None => r is None,
        },
        r matches Some(s) ==> is_balanced(s@) && has_account(s@, OPENING_BALANCES@),
        r matches Some(s) ==> forall|name: Seq<char>|
            name != OPENING_BALANCES@ ==> #[trigger] balance_of(s@, name) == balance_of(
                balances@,
                name,
            ),
{
    let others = balances.clone().without(OPENING_BALANCES);
    match others.total() {
        None => None,
        Some(total) => {
            let offset = total.neg();
            let ghost before = others@;
            let mut sheet = others;
            sheet.insert(OPENING_BALANCES.to_owned(), offset);
            proof {
                use_type_invariant(balances);
                balances.lemma_well_formed_content();
                use_type_invariant(&sheet);
                use_type_invariant(total);
                total.lemma_negated();
                total.lemma_sum_of_opposites(offset);
                assert(sheet@.drop_last() =~= before);
                lemma_push_account(before, OPENING_BALANCES@, offset);
                lemma_without_account(balances@, OPENING_BALANCES@);
            }
            Some(sheet)
        },
    }
}

/// Entering a default account adds that account and changes no balance.
pub proof fn lemma_default_account(l: Ledger, name: Seq<char>)
    requires
        distinct_names(l),
    ensures
        distinct_names(with_default_account(l, name)),
        has_account(with_default_account(l, name), name),
        forall|other: Seq<char>|
            has_account(l, other) ==> #[trigger] has_account(with_default_account(l, name), other),
        forall|other: Seq<char>|
            has_account(l, other) ==> #[trigger] balance_of(with_default_account(l, name), other)
                == balance_of(l, other),
{
    if !has_account(l, name) {
        lemma_push_account(l, name, Amount::zero());
    }
}

} // verus!
