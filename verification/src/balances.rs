//! The balance ledger: what each account holds, and the total supply that
//! always equals the sum of those holdings.

use crate::error::Error;
use crate::sum::{amount_of, lemma_sum_of_bounds_one, lemma_sum_of_empty, lemma_sum_of_insert, sum_of};
use crate::table::Table;
use ink_env::AccountId;
use vstd::prelude::*;

verus! {

/// The balances of all accounts together with the supply in circulation.
pub struct BalanceState {
    /// The balance of each account that has an entry; every other account
    /// holds zero.
    pub held: Map<AccountId, nat>,
    /// The number of units in circulation.
    pub total_supply: nat,
}

impl BalanceState {
    /// The state in which nobody holds anything.
    pub open spec fn empty() -> BalanceState {
        BalanceState { held: Map::empty(), total_supply: 0 }
    }

    /// The supply equals the sum of all balances and fits a 128-bit amount.
    pub open spec fn inv(self) -> bool {
        &&& self.held.dom().finite()
        &&& self.total_supply == sum_of(self.held)
        &&& self.total_supply <= u128::MAX
    }

    /// What `account` holds.
    pub open spec fn balance_of(self, account: AccountId) -> nat {
        amount_of(self.held, account)
    }

    /// Adds `amount` to the balance of `account` and to the supply, unless
    /// the supply would leave the range of a 128-bit amount.
    pub open spec fn credit(self, account: AccountId, amount: nat) -> Result<BalanceState, Error> {
        if self.total_supply + amount > u128::MAX {
            Err(Error::Overflow)
        } else {
            Ok(
                BalanceState {
                    held: self.held.insert(account, self.balance_of(account) + amount),
                    total_supply: self.total_supply + amount,
                },
            )
        }
    }

    /// Takes `amount` from the balance of `account` and from the supply,
    /// unless `account` holds less than `amount`.
    pub open spec fn debit(self, account: AccountId, amount: nat) -> Result<BalanceState, Error> {
        if self.balance_of(account) < amount {
            Err(Error::InsufficientBalance)
        } else {
            Ok(
                BalanceState {
                    held: self.held.insert(account, (self.balance_of(account) - amount) as nat),
                    total_supply: (self.total_supply - amount) as nat,
                },
            )
        }
    }

    /// Debits `from`, then credits `to`.
    pub open spec fn move_value(self, from: AccountId, to: AccountId, amount: nat) -> Result<
        BalanceState,
        Error,
    > {
        match self.debit(from, amount) {
            Ok(debited) => debited.credit(to, amount),
            Err(e) => Err(e),
        }
    }

    /// A credit that succeeds keeps the supply equal to the sum of balances,
    /// raises the balance of `account` by `amount` and touches no other.
    pub proof fn lemma_credit(self, account: AccountId, amount: nat)
        requires
            self.inv(),
        ensures
            self.credit(account, amount) is Ok <==> self.total_supply + amount <= u128::MAX,
            self.credit(account, amount) matches Ok(next) ==> {
                &&& next.inv()
                &&& next.total_supply == self.total_supply + amount
                &&& next.balance_of(account) == self.balance_of(account) + amount
                &&& forall|other: AccountId|
                    other != account ==> next.balance_of(other) == self.balance_of(other)
            },
    {
        lemma_sum_of_insert(self.held, account, self.balance_of(account) + amount);
    }

    /// A debit succeeds exactly when the balance suffices; it then keeps the
    /// supply equal to the sum of balances, lowers the balance of `account`
    /// by `amount` and touches no other.
    pub proof fn lemma_debit(self, account: AccountId, amount: nat)
        requires
            self.inv(),
        ensures
            self.debit(account, amount) is Ok <==> self.balance_of(account) >= amount,
            self.debit(account, amount) matches Ok(next) ==> {
                &&& next.inv()
                &&& next.total_supply == self.total_supply - amount
                &&& next.balance_of(account) == self.balance_of(account) - amount
                &&& forall|other: AccountId|
                    other != account ==> next.balance_of(other) == self.balance_of(other)
            },
    {
        if self.balance_of(account) >= amount {
            lemma_sum_of_bounds_one(self.held, account);
            lemma_sum_of_insert(self.held, account, (self.balance_of(account) - amount) as nat);
        }
    }

    /// Moving value fails only for want of balance, never by overflow; where
    /// it succeeds the supply is unchanged, and so is every balance but
    /// those of `from` and `to`.
    pub proof fn lemma_move_value(self, from: AccountId, to: AccountId, amount: nat)
        requires
            self.inv(),
        ensures
            self.balance_of(from) >= amount ==> self.move_value(from, to, amount) is Ok,
            self.balance_of(from) < amount ==> self.move_value(from, to, amount) == Err::<
                BalanceState,
                Error,
            >(Error::InsufficientBalance),
            self.move_value(from, to, amount) matches Ok(next) ==> {
                &&& next.inv()
                &&& next.total_supply == self.total_supply
                &&& from != to ==> next.balance_of(from) == self.balance_of(from) - amount
                &&& from != to ==> next.balance_of(to) == self.balance_of(to) + amount
                &&& from == to ==> next.balance_of(from) == self.balance_of(from)
                &&& forall|other: AccountId|
                    other != from && other != to ==> next.balance_of(other) == self.balance_of(
                        other,
                    )
            },
    {
        self.lemma_debit(from, amount);
        if let Ok(debited) = self.debit(from, amount) {
            debited.lemma_credit(to, amount);
        }
    }
}

/// The balances of all accounts and the supply in circulation.
pub struct BalanceLedger {
    balances: Table<AccountId>,
    total_supply: u128,
}

impl View for BalanceLedger {
    type V = BalanceState;

    closed spec fn view(&self) -> BalanceState {
        BalanceState { held: self.balances@, total_supply: self.total_supply as nat }
    }
}

impl BalanceLedger {
    /// The representation is sound.
    pub closed spec fn table_wf(&self) -> bool {
        self.balances.wf()
    }

    /// The ledger's invariant: a sound representation whose supply equals
    /// the sum of all balances.
    pub open spec fn wf(&self) -> bool {
        self.table_wf() && self@.inv()
    }

    /// A ledger in which nobody holds anything.
    pub fn new() -> (ledger: Self)
        ensures
            ledger.wf(),
            ledger@ == BalanceState::empty(),
    {
        proof {
            lemma_sum_of_empty::<AccountId>();
        }
        BalanceLedger { balances: Table::new(), total_supply: 0 }
    }

    /// The number of units in circulation.
    pub fn total_supply(&self) -> (supply: u128)
        ensures
            supply == self@.total_supply,
    {
        self.total_supply
    }

    /// What `account` holds; zero where it was never credited.
    pub fn balance_of(&self, account: AccountId) -> (balance: u128)
        requires
            self.wf(),
        ensures
            balance == self@.balance_of(account),
    {
        self.balances.get(&account)
    }

    /// Adds `amount` to the balance of `account` and to the supply. Fails
    /// with `Overflow`, changing nothing, where the supply would leave the
    /// range of a 128-bit amount.
    pub fn credit(&mut self, account: AccountId, amount: u128) -> (result: Result<(), Error>)
        requires
            old(self).wf(),
        ensures
            final(self).wf(),
            result is Ok <==> old(self)@.total_supply + amount <= u128::MAX,
            match old(self)@.credit(account, amount as nat) {
                Ok(next) => result is Ok && final(self)@ == next,
                Err(e) => result == Err::<(), Error>(e) && final(self)@ == old(self)@,
            },
    {
        proof {
            self@.lemma_credit(account, amount as nat);
            lemma_sum_of_bounds_one(self.balances@, account);
        }
        if amount > u128::MAX - self.total_supply {
            return Err(Error::Overflow);
        }
        let balance = self.balances.get(&account);
        self.balances.set(account, balance + amount);
        self.total_supply = self.total_supply + amount;
        Ok(())
    }

    /// Takes `amount` from the balance of `account` and from the supply.
    /// Fails with `InsufficientBalance`, changing nothing, where `account`
    /// holds less than `amount`.
    pub fn debit(&mut self, account: AccountId, amount: u128) -> (result: Result<(), Error>)
        requires
            old(self).wf(),
        ensures
            final(self).wf(),
            result is Ok <==> old(self)@.balance_of(account) >= amount,
            match old(self)@.debit(account, amount as nat) {
                Ok(next) => result is Ok && final(self)@ == next,
                Err(e) => result == Err::<(), Error>(e) && final(self)@ == old(self)@,
            },
    {
        proof {
            self@.lemma_debit(account, amount as nat);
            lemma_sum_of_bounds_one(self.balances@, account);
        }
        let balance = self.balances.get(&account);
        if balance < amount {
            return Err(Error::InsufficientBalance);
        }
        self.balances.set(account, balance - amount);
        self.total_supply = self.total_supply - amount;
        Ok(())
    }

    /// Moves `amount` from `from` to `to`: a debit followed by a credit, so
    /// a transfer to oneself succeeds and changes nothing. Fails with
    /// `InsufficientBalance`, changing nothing, where `from` holds less than
    /// `amount`; it cannot overflow.
    pub fn move_value(&mut self, from: AccountId, to: AccountId, amount: u128) -> (result: Result<
        (),
        Error,
    >)
        requires
            old(self).wf(),
        ensures
            final(self).wf(),
            result is Ok <==> old(self)@.balance_of(from) >= amount,
            final(self)@.total_supply == old(self)@.total_supply,
            match old(self)@.move_value(from, to, amount as nat) {
                Ok(next) => result is Ok && final(self)@ == next,
                Err(e) => result == Err::<(), Error>(e) && final(self)@ == old(self)@,
            },
    {
        proof {
            self@.lemma_move_value(from, to, amount as nat);
        }
        match self.debit(from, amount) {
            Ok(()) => self.credit(to, amount),
            Err(e) => Err(e),
        }
    }
}

} // verus!
