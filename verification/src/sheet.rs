//! The balance sheet: named accounts with signed decimal balances.

use crate::amount::Amount;
use vstd::prelude::*;
use vstd::std_specs::cmp::PartialEqSpecImpl;

verus! {

/// Account that salaries are paid out of.
pub const SALARY_INCOME: &'static str = "salary_income";

/// Account that mortgage interest is booked against.
pub const MORTGAGE_INCOME: &'static str = "mortgage_income";

/// Account that tithes are paid into.
pub const CHARITY_EXPENDITURE: &'static str = "charity_expenditure";

/// Account that balances the configured opening balances.
pub const OPENING_BALANCES: &'static str = "opening_balances";

/// What a balance sheet holds: each account's name and balance, in the order
/// in which the accounts were entered.
pub type Ledger = Seq<(Seq<char>, Amount)>;

/// Whether the ledger has an account of that name.
pub open spec fn has_account(l: Ledger, name: Seq<char>) -> bool {
    exists|i: int| 0 <= i < l.len() && (#[trigger] l[i]).0 == name
}

/// Where the account of that name stands in the ledger.
pub open spec fn position(l: Ledger, name: Seq<char>) -> int {
    choose|i: int| 0 <= i < l.len() && (#[trigger] l[i]).0 == name
}

/// The balance of the account of that name.
pub open spec fn balance_of(l: Ledger, name: Seq<char>) -> Option<Amount> {
    if has_account(l, name) {
        Some(l[position(l, name)].1)
    } else {
        None
    }
}

/// The ledger with the balance of an account it has replaced.
pub open spec fn with_balance(l: Ledger, name: Seq<char>, balance: Amount) -> Ledger {
    l.update(position(l, name), (name, balance))
}

/// The ledger with the account set to the balance: replaced where the ledger
/// has it, entered last where it has not.
pub open spec fn with_account(l: Ledger, name: Seq<char>, balance: Amount) -> Ledger {
    if has_account(l, name) {
        with_balance(l, name, balance)
    } else {
        l.push((name, balance))
    }
}

/// The ledger with the account entered at balance zero, unless it has it.
pub open spec fn with_default_account(l: Ledger, name: Seq<char>) -> Ledger {
    if has_account(l, name) {
        l
    } else {
        l.push((name, Amount::zero()))
    }
}

/// The ledger without the account of that name.
pub open spec fn without_account(l: Ledger, name: Seq<char>) -> Ledger {
    if has_account(l, name) {
        l.remove(position(l, name))
    } else {
        l
    }
}

/// No two accounts share a name.
pub open spec fn distinct_names(l: Ledger) -> bool {
    forall|i: int, j: int| 0 <= i < j < l.len() ==> (#[trigger] l[i]).0 != (#[trigger] l[j]).0
}

/// Every balance is a decimal.
pub open spec fn valid_balances(l: Ledger) -> bool {
    forall|i: int| 0 <= i < l.len() ==> (#[trigger] l[i]).1.valid()
}

/// What holds of the content of every balance sheet.
pub open spec fn well_formed(l: Ledger) -> bool {
    distinct_names(l) && valid_balances(l)
}

/// The balances added up in ledger order, starting from zero; `None` when a
/// sum overflows.
pub open spec fn total_of(l: Ledger) -> Option<Amount>
    decreases l.len(),
{
    if l.len() == 0 {
        Some(Amount::zero())
    } else {
        match total_of(l.drop_last()) {
            Some(t) => t.sum(l.last().1),
            None => None,
        }
    }
}

/// The sum of the numbers that the balances denote, in units of 10^-28.
pub open spec fn exact_total(l: Ledger) -> int
    decreases l.len(),
{
    if l.len() == 0 {
        0
    } else {
        exact_total(l.drop_last()) + l.last().1.units()
    }
}

/// Whether the balances add up without rounding: each partial sum is there,
/// and adding the next balance to it is exact.
pub open spec fn adds_up_exactly(l: Ledger) -> bool
    decreases l.len(),
{
    l.len() == 0 || (adds_up_exactly(l.drop_last()) && (total_of(l.drop_last()) matches Some(t)
        && t.sum_is_exact(l.last().1)))
}

/// The double-entry invariant: the balances add up to exactly zero.
pub open spec fn is_balanced(l: Ledger) -> bool {
    total_of(l) matches Some(t) && t.units() == 0
}

/// Whether the two ledgers have as many accounts, and the second has every
/// account of the first with a balance that denotes the same number.
pub open spec fn same_accounts(a: Ledger, b: Ledger) -> bool {
    a.len() == b.len() && forall|i: int|
        0 <= i < a.len() ==> (balance_of(b, (#[trigger] a[i]).0) matches Some(v) && v.units()
            == a[i].1.units())
}

/// Why a posting to an account failed.
#[derive(Clone, Copy, Debug, PartialEq, Eq, Structural)]
pub enum PostingError {
    /// The balance sheet has no account of that name.
    MissingAccount,
    /// The new balance is outside the range of a decimal.
    Overflow,
}

/// The ledger after `amount` was added to the account.
pub open spec fn credited(l: Ledger, name: Seq<char>, amount: Amount) -> Result<
    Ledger,
    PostingError,
> {
    match balance_of(l, name) {
        None => Err(PostingError::MissingAccount),
        Some(b) => match b.sum(amount) {
            None => Err(PostingError::Overflow),
            Some(v) => Ok(with_balance(l, name, v)),
        },
    }
}

/// The ledger after `amount` was taken from the account.
pub open spec fn debited(l: Ledger, name: Seq<char>, amount: Amount) -> Result<
    Ledger,
    PostingError,
> {
    match balance_of(l, name) {
        None => Err(PostingError::MissingAccount),
        Some(b) => match b.difference(amount) {
            None => Err(PostingError::Overflow),
            Some(v) => Ok(with_balance(l, name, v)),
        },
    }
}

/// The ledger with the three accounts that the generators rely on.
pub open spec fn with_default_accounts(l: Ledger) -> Ledger {
    with_default_account(
        with_default_account(with_default_account(l, SALARY_INCOME@), MORTGAGE_INCOME@),
        CHARITY_EXPENDITURE@,
    )
}

/// The ledger with an opening-balances account that offsets all the others;
/// `None` when their total overflows.
pub open spec fn with_opening_balances(l: Ledger) -> Option<Ledger> {
    let others = without_account(l, OPENING_BALANCES@);
    match total_of(others) {
        Some(t) => Some(others.push((OPENING_BALANCES@, t.negated()))),
        None => None,
    }
}

/// The ledger that the two columns of a balance sheet stand for.
spec fn ledger_of(names: Seq<String>, balances: Seq<Amount>) -> Ledger {
    Seq::new(names.len(), |i: int| (names[i]@, balances[i]))
}

/// A mapping from account name to balance.
#[derive(Debug)]
pub struct BalanceSheet {
    names: Vec<String>,
    balances: Vec<Amount>,
}

impl View for BalanceSheet {
    type V = Ledger;

    closed spec fn view(&self) -> Ledger {
        ledger_of(self.names@, self.balances@)
    }
}

impl BalanceSheet {
    /// Names are unique and every balance is a decimal.
    #[verifier::type_invariant]
    pub closed spec fn valid(self) -> bool {
        self.names.len() == self.balances.len() && well_formed(self@)
    }

    /// A balance sheet without accounts.
    pub fn new() -> (r: BalanceSheet)
        ensures
            r@ == Seq::<(Seq<char>, Amount)>::empty(),
    {
        let r = BalanceSheet { names: Vec::new(), balances: Vec::new() };
        r
    }

    /// The content of a balance sheet is well formed.
    pub proof fn lemma_well_formed_content(&self)
        requires
            self.valid(),
        ensures
            well_formed(self@),
    {
    }

    /// The number of accounts.
    pub fn len(&self) -> (r: usize)
        ensures
            r == self@.len(),
    {
        self.names.len()
    }

    /// The name of the account at `index`, counting from zero in the order in
    /// which the accounts were entered; `None` where there are not that many.
    pub fn name_at(&self, index: usize) -> (r: Option<&String>)
        ensures
            r is Some <==> index < self@.len(),
            r matches Some(name) ==> name@ == self@[index as int].0,
    {
        if index < self.names.len() {
            Some(&self.names[index])
        } else {
            None
        }
    }

    /// The balance of the account at `index`, counting from zero in the order
    /// in which the accounts were entered; `None` where there are not that
    /// many.
    pub fn balance_at(&self, index: usize) -> (r: Option<Amount>)
        ensures
            r is Some <==> index < self@.len(),
            r matches Some(balance) ==> balance == self@[index as int].1,
    {
        proof {
            use_type_invariant(self);
        }
        if index < self.balances.len() {
            Some(self.balances[index])
        } else {
            None
        }
    }

    /// Where the account of that name stands.
    pub fn find(&self, name: &str) -> (r: Option<usize>)
        ensures
            r is Some <==> has_account(self@, name@),
            r matches Some(i) ==> i == position(self@, name@) && i < self@.len() && self@[i as int].0
                == name@,
    {
        proof {
            use_type_invariant(self);
        }
        let key: String = name.to_owned();
        let mut i: usize = 0;
        while i < self.names.len()
            invariant
                i <= self.names.len(),
                self.names.len() == self.balances.len(),
                well_formed(self@),
                key@ == name@,
                forall|j: int| 0 <= j < i ==> (#[trigger] self@[j]).0 != name@,
            decreases self.names.len() - i,
        {
            if self.names[i] == key {
                assert(self@[i as int].0 == name@);
                return Some(i);
            }
            i += 1;
        }
        None
    }

    /// Whether the balance sheet has an account of that name.
    pub fn contains_key(&self, name: &str) -> (r: bool)
        ensures
            r == has_account(self@, name@),
    {
        self.find(name).is_some()
    }

    /// The balance of the account of that name.
    pub fn get(&self, name: &str) -> (r: Option<Amount>)
        ensures
            r == balance_of(self@, name@),
    {
        proof {
            use_type_invariant(self);
        }
        match self.find(name) {
            Some(i) => Some(self.balances[i]),
            None => None,
        }
    }

    /// Sets the account to the balance, entering the account where the
    /// balance sheet does not have it. Returns the balance it had.
    pub fn insert(&mut self, name: String, balance: Amount) -> (r: Option<Amount>)
        ensures
            final(self)@ == with_account(old(self)@, name@, balance),
            r == balance_of(old(self)@, name@),
            balance_of(final(self)@, name@) == Some(balance),
            forall|other: Seq<char>|
                other != name@ ==> #[trigger] balance_of(final(self)@, other) == balance_of(
                    old(self)@,
                    other,
                ),
    {
        let mut sheet = BalanceSheet::new();
        std::mem::swap(&mut sheet, self);
        let found = sheet.find(name.as_str());
        proof {
            use_type_invariant(&sheet);
            use_type_invariant(balance);
            if has_account(sheet@, name@) {
                lemma_with_balance(sheet@, name@, balance);
            } else {
                lemma_push_account(sheet@, name@, balance);
            }
        }
        let ghost before = sheet@;
        let BalanceSheet { mut names, mut balances } = sheet;
        match found {
            Some(i) => {
                let had = balances[i];
                balances.set(i, balance);
                proof {
                    let after = ledger_of(names@, balances@);
                    assert(after =~= with_balance(before, name@, balance));
                }
                *self = BalanceSheet { names, balances };
                Some(had)
            },
            None => {
                names.push(name);
                balances.push(balance);
                proof {
                    let after = ledger_of(names@, balances@);
                    assert(after =~= before.push((name@, balance)));
                }
                *self = BalanceSheet { names, balances };
                None
            },
        }
    }

    /// The balance sheet without the account of that name.
    pub fn without(self, name: &str) -> (r: BalanceSheet)
        ensures
            r@ == without_account(self@, name@),
            balance_of(r@, name@) is None,
            forall|other: Seq<char>|
                other != name@ ==> #[trigger] balance_of(r@, other) == balance_of(self@, other),
    {
        proof {
            use_type_invariant(&self);
            lemma_without_account(self@, name@);
        }
        let found = self.find(name);
        let ghost before = self@;
        match found {
            Some(i) => {
                let BalanceSheet { mut names, mut balances } = self;
                names.remove(i);
                balances.remove(i);
                proof {
                    let after = ledger_of(names@, balances@);
                    assert(after =~= before.remove(i as int));
                }
                BalanceSheet { names, balances }
            },
            None => self,
        }
    }

    /// The balance sheet with the balance of the account at `index` replaced.
    fn set_balance(self, index: usize, balance: Amount) -> (r: BalanceSheet)
        requires
            index < self@.len(),
        ensures
            r@ == self@.update(index as int, (self@[index as int].0, balance)),
    {
        proof {
            use_type_invariant(&self);
            use_type_invariant(balance);
        }
        let ghost before = self@;
        let BalanceSheet { names, mut balances } = self;
        balances.set(index, balance);
        proof {
            let after = ledger_of(names@, balances@);
            assert(after =~= before.update(index as int, (before[index as int].0, balance)));
        }
        BalanceSheet { names, balances }
    }

    /// Adds `amount` to the account of that name.
    pub fn credit(self, name: &str, amount: Amount) -> (r: Result<BalanceSheet, PostingError>)
        ensures
            match credited(self@, name@, amount) {
                Ok(l) => r matches Ok(s) && s@ == l,
                Err(e) => r == Err::<BalanceSheet, PostingError>(e),
            },
            r matches Ok(s) ==> balance_of(s@, name@) == balance_of(self@, name@)->0.sum(amount),
            r matches Ok(s) ==> forall|other: Seq<char>|
                other != name@ ==> #[trigger] balance_of(s@, other) == balance_of(self@, other),
    {
        proof {
            use_type_invariant(&self);
            use_type_invariant(amount);
            lemma_posting(self@, name@, amount);
        }
        match self.find(name) {
            None => Err(PostingError::MissingAccount),
            Some(i) => match self.balances[i].checked_add(amount) {
                None => Err(PostingError::Overflow),
                Some(v) => Ok(self.set_balance(i, v)),
            },
        }
    }

    /// Takes `amount` from the account of that name.
    pub fn debit(self, name: &str, amount: Amount) -> (r: Result<BalanceSheet, PostingError>)
        ensures
            match debited(self@, name@, amount) {
                Ok(l) => r matches Ok(s) && s@ == l,
                Err(e) => r == Err::<BalanceSheet, PostingError>(e),
            },
            r matches Ok(s) ==> balance_of(s@, name@) == balance_of(self@, name@)->0.difference(
                amount,
            ),
            r matches Ok(s) ==> forall|other: Seq<char>|
                other != name@ ==> #[trigger] balance_of(s@, other) == balance_of(self@, other),
    {
        proof {
            use_type_invariant(&self);
            use_type_invariant(amount);
            lemma_posting(self@, name@, amount);
        }
        match self.find(name) {
            None => Err(PostingError::MissingAccount),
            Some(i) => match self.balances[i].checked_sub(amount) {
                None => Err(PostingError::Overflow),
                Some(v) => Ok(self.set_balance(i, v)),
            },
        }
    }

    /// The balances added up in the order of the accounts, or `None` when a
    /// sum overflows.
    pub fn total(&self) -> (r: Option<Amount>)
        ensures
            r == total_of(self@),
    {
        proof {
            use_type_invariant(self);
        }
        let mut acc = Amount::zero();
        let mut i: usize = 0;
        while i < self.balances.len()
            invariant
                i <= self.balances.len(),
                self.names.len() == self.balances.len(),
                total_of(self@.take(i as int)) == Some(acc),
            decreases self.balances.len() - i,
        {
            let ghost prefix = self@.take(i as int + 1);
            assert(prefix.drop_last() =~= self@.take(i as int));
            match acc.checked_add(self.balances[i]) {
                Some(t) => {
                    acc = t;
                },
                None => {
                    proof {
                        lemma_total_overflow(self@, i as int + 1);
                    }
                    return None;
                },
            }
            i += 1;
        }
        assert(self@.take(i as int) =~= self@);
        Some(acc)
    }

    /// Whether the balances add up to exactly zero.
    pub fn is_balanced(&self) -> (r: bool)
        ensures
            r == is_balanced(self@),
    {
        match self.total() {
            Some(t) => t.is_zero(),
            None => false,
        }
    }
}

impl PartialEq for BalanceSheet {
    /// Two balance sheets are equal when they have the same accounts with
    /// balances that denote the same numbers, in whatever order.
    fn eq(&self, other: &BalanceSheet) -> (r: bool) {
        proof {
            use_type_invariant(self);
        }
        if self.names.len() != other.names.len() {
            return false;
        }
        let mut i: usize = 0;
        while i < self.names.len()
            invariant
                i <= self.names.len(),
                self.names.len() == self.balances.len(),
                self.names.len() == other.names.len(),
                self@.len() == self.names.len(),
                other@.len() == other.names.len(),
                forall|j: int|
                    0 <= j < i ==> (balance_of(other@, (#[trigger] self@[j]).0) matches Some(v)
                        && v.units() == self@[j].1.units()),
            decreases self.names.len() - i,
        {
            let same = match other.get(self.names[i].as_str()) {
                Some(balance) => balance.same_value(&self.balances[i]),
                None => false,
            };
            if !same {
                assert(!(balance_of(other@, self@[i as int].0) matches Some(v) && v.units()
                    == self@[i as int].1.units()));
                return false;
            }
            i += 1;
        }
        true
    }
}

impl PartialEqSpecImpl for BalanceSheet {
    open spec fn obeys_eq_spec() -> bool {
        true
    }

    open spec fn eq_spec(&self, other: &BalanceSheet) -> bool {
        same_accounts(self@, other@)
    }
}

impl Clone for BalanceSheet {
    fn clone(&self) -> (r: BalanceSheet)
        ensures
            r@ == self@,
    {
        proof {
            use_type_invariant(self);
        }
        let mut names: Vec<String> = Vec::new();
        let mut balances: Vec<Amount> = Vec::new();
        let mut i: usize = 0;
        while i < self.names.len()
            invariant
                i <= self.names.len(),
                self.names.len() == self.balances.len(),
                names@ == self.names@.take(i as int),
                balances@ == self.balances@.take(i as int),
            decreases self.names.len() - i,
        {
            names.push(self.names[i].clone());
            balances.push(self.balances[i]);
            assert(self.names@.take(i as int + 1) =~= self.names@.take(i as int).push(
                self.names[i as int],
            ));
            assert(self.balances@.take(i as int + 1) =~= self.balances@.take(i as int).push(
                self.balances[i as int],
            ));
            i += 1;
        }
        assert(names@ =~= self.names@);
        assert(balances@ =~= self.balances@);
        BalanceSheet { names, balances }
    }
}

/// In a ledger of distinct names, the account of a name is the one found at
/// any position that carries the name.
pub proof fn lemma_position(l: Ledger, index: int)
    requires
        distinct_names(l),
        0 <= index < l.len(),
    ensures
        has_account(l, l[index].0),
        position(l, l[index].0) == index,
        balance_of(l, l[index].0) == Some(l[index].1),
{
    let p = position(l, l[index].0);
    assert(l[p].0 == l[index].0);
}

/// Replacing the balance of an account changes that balance and nothing
/// else.
pub proof fn lemma_with_balance(l: Ledger, name: Seq<char>, balance: Amount)
    requires
        distinct_names(l),
        has_account(l, name),
    ensures
        distinct_names(with_balance(l, name, balance)),
        with_balance(l, name, balance).len() == l.len(),
        balance_of(with_balance(l, name, balance), name) == Some(balance),
        forall|other: Seq<char>|
            other != name ==> #[trigger] balance_of(with_balance(l, name, balance), other)
                == balance_of(l, other),
        forall|other: Seq<char>| #[trigger]
            has_account(with_balance(l, name, balance), other) == has_account(l, other),
{
    let after = with_balance(l, name, balance);
    assert(after[position(l, name)] == (name, balance));
    assert forall|other: Seq<char>| #[trigger]
        has_account(after, other) == has_account(l, other) by {
        if has_account(l, other) {
            assert(after[position(l, other)].0 == other);
        }
        if has_account(after, other) {
            assert(l[position(after, other)].0 == other);
        }
    }
    assert forall|other: Seq<char>| other != name implies #[trigger] balance_of(after, other)
        == balance_of(l, other) by {
        if has_account(l, other) {
            // The account of another name stands where it stood, untouched.
            assert(after[position(l, other)] == l[position(l, other)]);
        }
    }
}

/// Entering an account under a new name adds that account and changes
/// nothing else.
pub proof fn lemma_push_account(l: Ledger, name: Seq<char>, balance: Amount)
    requires
        distinct_names(l),
        !has_account(l, name),
    ensures
        distinct_names(l.push((name, balance))),
        balance_of(l.push((name, balance)), name) == Some(balance),
        forall|other: Seq<char>|
            other != name ==> #[trigger] balance_of(l.push((name, balance)), other) == balance_of(
                l,
                other,
            ),
        forall|other: Seq<char>| #[trigger]
            has_account(l.push((name, balance)), other) == (other == name || has_account(l, other)),
{
    let after = l.push((name, balance));
    lemma_position(after, l.len() as int);
    assert forall|other: Seq<char>| #[trigger]
        has_account(after, other) == (other == name || has_account(l, other)) by {
        if has_account(l, other) {
            assert(after[position(l, other)].0 == other);
        }
        if has_account(after, other) && other != name {
            assert(l[position(after, other)].0 == other);
        }
    }
    assert forall|other: Seq<char>| other != name implies #[trigger] balance_of(after, other)
        == balance_of(l, other) by {
        if has_account(l, other) {
            // The accounts that were there stand where they stood.
            assert(after[position(l, other)] == l[position(l, other)]);
        }
    }
}

/// Where the account at `index` of a ledger stands once the account at
/// `taken` is out.
spec fn shifted(index: int, taken: int) -> int {
    if index < taken {
        index
    } else {
        index - 1
    }
}

/// Where the account at `index` of a ledger stood before the account at
/// `taken` went out.
spec fn unshifted(index: int, taken: int) -> int {
    if index < taken {
        index
    } else {
        index + 1
    }
}

/// Taking an account out changes no other account.
pub proof fn lemma_without_account(l: Ledger, name: Seq<char>)
    requires
        distinct_names(l),
    ensures
        distinct_names(without_account(l, name)),
        !has_account(without_account(l, name), name),
        forall|other: Seq<char>|
            other != name ==> #[trigger] balance_of(without_account(l, name), other) == balance_of(
                l,
                other,
            ),
        forall|other: Seq<char>| #[trigger]
            has_account(without_account(l, name), other) == (other != name && has_account(
                l,
                other,
            )),
{
    if has_account(l, name) {
        let p = position(l, name);
        let after = l.remove(p);
        assert forall|other: Seq<char>| #[trigger]
            has_account(after, other) == (other != name && has_account(l, other)) by {
            if has_account(after, other) {
                let q = position(after, other);
                assert(after[q] == l[unshifted(q, p)]);
            }
            if other != name && has_account(l, other) {
                let q = position(l, other);
                assert(after[shifted(q, p)] == l[q]);
            }
        }
        assert forall|other: Seq<char>| other != name implies #[trigger] balance_of(after, other)
            == balance_of(l, other) by {
            if has_account(l, other) {
                let q = position(l, other);
                assert(after[shifted(q, p)] == l[q]);
            }
        }
    }
}

/// Where the balances add up without rounding, their total denotes the sum
/// of the numbers that they denote.
pub proof fn lemma_total_is_exact(l: Ledger)
    requires
        valid_balances(l),
        adds_up_exactly(l),
    ensures
        total_of(l) matches Some(t) && t.valid() && t.units() == exact_total(l),
    decreases l.len(),
{
    if l.len() == 0 {
        Amount::lemma_zero();
    } else {
        let earlier = l.drop_last();
        lemma_total_is_exact(earlier);
        let t = total_of(earlier)->0;
        t.lemma_sum_exact(l.last().1);
    }
}

/// Replacing an account changes the sum of the numbers by the difference
/// between the new balance and the old.
pub proof fn lemma_exact_total_update(l: Ledger, index: int, entry: (Seq<char>, Amount))
    requires
        0 <= index < l.len(),
    ensures
        exact_total(l.update(index, entry)) == exact_total(l) - l[index].1.units()
            + entry.1.units(),
    decreases l.len(),
{
    let after = l.update(index, entry);
    if index == l.len() - 1 {
        assert(after.drop_last() =~= l.drop_last());
    } else {
        assert(after.drop_last() =~= l.drop_last().update(index, entry));
        lemma_exact_total_update(l.drop_last(), index, entry);
    }
}

/// A posting to an account of a well-formed ledger leaves a well-formed
/// ledger with the same accounts, in which only that account has changed.
pub proof fn lemma_posting(l: Ledger, name: Seq<char>, amount: Amount)
    requires
        well_formed(l),
        amount.valid(),
    ensures
        credited(l, name, amount) matches Ok(l2) ==> well_formed(l2) && balance_of(l2, name)
            == balance_of(l, name)->0.sum(amount),
        debited(l, name, amount) matches Ok(l2) ==> well_formed(l2) && balance_of(l2, name)
            == balance_of(l, name)->0.difference(amount),
        forall|other: Seq<char>|
            credited(l, name, amount) is Ok ==> #[trigger] has_account(
                credited(l, name, amount)->Ok_0,
                other,
            ) == has_account(l, other),
        forall|other: Seq<char>|
            debited(l, name, amount) is Ok ==> #[trigger] has_account(
                debited(l, name, amount)->Ok_0,
                other,
            ) == has_account(l, other),
        forall|other: Seq<char>|
            other != name && credited(l, name, amount) is Ok ==> #[trigger] balance_of(
                credited(l, name, amount)->Ok_0,
                other,
            ) == balance_of(l, other),
        forall|other: Seq<char>|
            other != name && debited(l, name, amount) is Ok ==> #[trigger] balance_of(
                debited(l, name, amount)->Ok_0,
                other,
            ) == balance_of(l, other),
{
    if has_account(l, name) {
        let b = balance_of(l, name)->0;
        assert(l[position(l, name)].1.valid());
        b.lemma_results_valid(amount);
        if let Some(v) = b.sum(amount) {
            lemma_with_balance(l, name, v);
        }
        if let Some(v) = b.difference(amount) {
            lemma_with_balance(l, name, v);
        }
    }
}

/// A posting that is computed without rounding changes the sum of the
/// numbers on the balance sheet by the amount posted.
pub proof fn lemma_exact_posting(l: Ledger, name: Seq<char>, amount: Amount)
    requires
        well_formed(l),
        amount.valid(),
        has_account(l, name),
    ensures
        balance_of(l, name)->0.sum_is_exact(amount) ==> (credited(l, name, amount) matches Ok(l2)
            && exact_total(l2) == exact_total(l) + amount.units()),
        balance_of(l, name)->0.difference_is_exact(amount) ==> (debited(l, name, amount) matches Ok(
            l2,
        ) && exact_total(l2) == exact_total(l) - amount.units()),
{
    let b = balance_of(l, name)->0;
    let p = position(l, name);
    if b.sum_is_exact(amount) {
        b.lemma_sum_exact(amount);
        lemma_exact_total_update(l, p, (name, b.sum(amount)->0));
    }
    if b.difference_is_exact(amount) {
        b.lemma_difference_exact(amount);
        lemma_exact_total_update(l, p, (name, b.difference(amount)->0));
    }
}

/// Once a prefix of the ledger overflows, so does the whole.
pub proof fn lemma_total_overflow(l: Ledger, k: int)
    requires
        0 <= k <= l.len(),
        total_of(l.take(k)) is None,
    ensures
        total_of(l) is None,
    decreases l.len() - k,
{
    if k < l.len() {
        assert(l.take(k + 1).drop_last() =~= l.take(k));
        lemma_total_overflow(l, k + 1);
    } else {
        assert(l.take(k) =~= l);
    }
}

} // verus!
