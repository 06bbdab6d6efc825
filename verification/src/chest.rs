//! The ledger itself: the single entry point that composes the balance
//! ledger, the allowance registry and the collateral pool.

use crate::allowances::{AllowanceRegistry, AllowanceState};
use crate::balances::{BalanceLedger, BalanceState};
use crate::collateral::{collateral_for, CollateralPool, CollateralState};
use crate::error::Error;
use crate::events::{Approval, Minted, Redeemed, Transfer};
use ink_env::AccountId;
use vstd::prelude::*;

verus! {

/// Everything a ledger records, as mathematical values.
pub struct ChestState {
    /// The token's display name.
    pub name: Seq<char>,
    /// The token's ticker symbol.
    pub symbol: Seq<char>,
    /// The number of decimal places that amounts are displayed with.
    pub decimals: u8,
    /// Who holds what, and the supply in circulation.
    pub balances: BalanceState,
    /// Who may spend how much on whose behalf.
    pub allowances: AllowanceState,
    /// The collateral that backs the supply.
    pub collateral: CollateralState,
}

impl ChestState {
    /// A newly created ledger: no supply, no balances, no allowances and an
    /// empty pool.
    pub open spec fn init(
        name: Seq<char>,
        symbol: Seq<char>,
        decimals: u8,
        collateral_address: AccountId,
        collateral_price: nat,
    ) -> ChestState {
        ChestState {
            name,
            symbol,
            decimals,
            balances: BalanceState::empty(),
            allowances: AllowanceState::empty(),
            collateral: CollateralState::empty(collateral_address, collateral_price),
        }
    }

    /// What holds of a ledger after every completed call: the supply equals
    /// the sum of all balances, and every recorded amount fits 128 bits.
    pub open spec fn inv(self) -> bool {
        &&& self.balances.inv()
        &&& self.allowances.inv()
        &&& self.collateral.inv()
    }

    /// The number of units in circulation.
    pub open spec fn total_supply(self) -> nat {
        self.balances.total_supply
    }

    /// What `owner` holds.
    pub open spec fn balance_of(self, owner: AccountId) -> nat {
        self.balances.balance_of(owner)
    }

    /// What `spender` may still move on behalf of `owner`.
    pub open spec fn allowance(self, owner: AccountId, spender: AccountId) -> nat {
        self.allowances.allowance(owner, spender)
    }

    /// The collateral accounted for.
    pub open spec fn collateral_pool(self) -> nat {
        self.collateral.pool
    }

    /// The collateral that minting or redeeming `amount` units moves.
    pub open spec fn required_collateral(self, amount: nat) -> nat {
        self.collateral.required(amount)
    }

    /// `caller` sets the allowance of `spender` to `amount`.
    pub open spec fn approve(self, caller: AccountId, spender: AccountId, amount: nat)
        -> ChestState {
        ChestState { allowances: self.allowances.approve(caller, spender, amount), ..self }
    }

    /// `caller` moves `amount` of its own balance to `to`.
    pub open spec fn transfer(self, caller: AccountId, to: AccountId, amount: nat) -> Result<
        ChestState,
        Error,
    > {
        match self.balances.move_value(caller, to, amount) {
            Ok(balances) => Ok(ChestState { balances, ..self }),
            Err(e) => Err(e),
        }
    }

    /// `caller` moves `amount` from `from` to `to` against its allowance on
    /// `from`. The allowance is checked, and consumed, before the balance.
    pub open spec fn transfer_from(
        self,
        caller: AccountId,
        from: AccountId,
        to: AccountId,
        amount: nat,
    ) -> Result<ChestState, Error> {
        match self.allowances.consume(from, caller, amount) {
            Ok(allowances) => match self.balances.move_value(from, to, amount) {
                Ok(balances) => Ok(ChestState { balances, allowances, ..self }),
                Err(e) => Err(e),
            },
            Err(e) => Err(e),
        }
    }

    /// `caller` issues `amount` units to itself: the backing collateral is
    /// deposited, the pool must then hold something, and the units are
    /// credited.
    pub open spec fn mint(self, caller: AccountId, amount: nat) -> Result<ChestState, Error> {
        match self.collateral.deposit(self.required_collateral(amount)) {
            Ok(collateral) => if collateral.pool == 0 {
                Err(Error::CollateralPoolEmpty)
            } else {
                match self.balances.credit(caller, amount) {
                    Ok(balances) => Ok(ChestState { balances, collateral, ..self }),
                    Err(e) => Err(e),
                }
            },
            Err(e) => Err(e),
        }
    }

    /// `caller` retires `amount` units of its own: the units are debited,
    /// then the backing collateral is released. The balance is checked
    /// before the pool.
    pub open spec fn redeem(self, caller: AccountId, amount: nat) -> Result<ChestState, Error> {
        match self.balances.debit(caller, amount) {
            Ok(balances) => match self.collateral.withdraw(self.required_collateral(amount)) {
                Ok(collateral) => Ok(ChestState { balances, collateral, ..self }),
                Err(e) => Err(e),
            },
            Err(e) => Err(e),
        }
    }
}

/// A collateral-backed token ledger.
///
/// The ledger is viewed as a `ChestState`, and every operation performs the
/// transition of that state that bears its name.
pub struct Chest {
    name: String,
    symbol: String,
    decimals: u8,
    balances: BalanceLedger,
    allowed: AllowanceRegistry,
    collateral: CollateralPool,
}

impl View for Chest {
    type V = ChestState;

    closed spec fn view(&self) -> ChestState {
        ChestState {
            name: self.name@,
            symbol: self.symbol@,
            decimals: self.decimals,
            balances: self.balances@,
            allowances: self.allowed@,
            collateral: self.collateral@,
        }
    }
}

impl Chest {
    /// The parts of the ledger are soundly represented.
    pub closed spec fn parts_wf(&self) -> bool {
        self.balances.wf() && self.allowed.wf()
    }

    /// The ledger's invariant: a sound representation of a state in which
    /// the supply equals the sum of all balances.
    pub open spec fn wf(&self) -> bool {
        self.parts_wf() && self@.inv()
    }

    /// Creates a ledger with no supply and an empty pool.
    pub fn new(
        name: String,
        symbol: String,
        decimals: u8,
        collateral_address: AccountId,
        collateral_price: u128,
    ) -> (chest: Self)
        ensures
            chest.wf(),
            chest@ == ChestState::init(
                name@,
                symbol@,
                decimals,
                collateral_address,
                collateral_price as nat,
            ),
            chest@.total_supply() == 0,
            chest@.collateral_pool() == 0,
            forall|owner: AccountId| chest@.balance_of(owner) == 0,
            forall|owner: AccountId, spender: AccountId| chest@.allowance(owner, spender) == 0,
    {
        let chest = Chest {
            name,
            symbol,
            decimals,
            balances: BalanceLedger::new(),
            allowed: AllowanceRegistry::new(),
            collateral: CollateralPool::new(collateral_address, collateral_price),
        };
        proof {
            chest.allowed.lemma_view_inv();
            chest.collateral.lemma_view_inv();
        }
        chest
    }

    /// The token's display name.
    pub fn name(&self) -> (name: String)
        ensures
            name@ == self@.name,
    {
        self.name.clone()
    }

    /// The token's ticker symbol.
    pub fn symbol(&self) -> (symbol: String)
        ensures
            symbol@ == self@.symbol,
    {
        self.symbol.clone()
    }

    /// The number of decimal places that amounts are displayed with.
    pub fn decimals(&self) -> (decimals: u8)
        ensures
            decimals == self@.decimals,
    {
        self.decimals
    }

    /// The number of units in circulation.
    pub fn total_supply(&self) -> (supply: u128)
        ensures
            supply == self@.total_supply(),
    {
        self.balances.total_supply()
    }

    /// What `owner` holds; zero where it never received anything.
    pub fn balance_of(&self, owner: AccountId) -> (balance: u128)
        requires
            self.wf(),
        ensures
            balance == self@.balance_of(owner),
    {
        self.balances.balance_of(owner)
    }

    /// What `spender` may still move on behalf of `owner`; zero where
    /// nothing was ever granted.
    pub fn allowance(&self, owner: AccountId, spender: AccountId) -> (amount: u128)
        requires
            self.wf(),
        ensures
            amount == self@.allowance(owner, spender),
    {
        self.allowed.allowance(owner, spender)
    }

    /// The collateral accounted for.
    pub fn collateral_pool(&self) -> (pool: u128)
        ensures
            pool == self@.collateral_pool(),
    {
        self.collateral.pool()
    }

    /// Collateral units required per hundred units minted.
    pub fn collateral_price(&self) -> (price: u128)
        ensures
            price == self@.collateral.price,
    {
        self.collateral.price()
    }

    /// The account of the collateral asset.
    pub fn collateral_address(&self) -> (address: AccountId)
        ensures
            address == self@.collateral.address,
    {
        self.collateral.address()
    }

    /// `caller` sets the allowance of `spender` to `amount`, replacing any
    /// earlier grant. Never fails; nothing else changes.
    pub fn approve(&mut self, caller: AccountId, spender: AccountId, amount: u128) -> (event:
        Approval)
        requires
            old(self).wf(),
        ensures
            final(self).wf(),
            final(self)@ == old(self)@.approve(caller, spender, amount as nat),
            final(self)@.allowance(caller, spender) == amount,
            forall|owner: AccountId, other: AccountId|
                (owner, other) != (caller, spender) ==> final(self)@.allowance(owner, other) == old(
                    self,
                )@.allowance(owner, other),
            event == (Approval { owner: caller, spender, amount }),
    {
        let event = self.allowed.approve(caller, spender, amount);
        proof {
            self.allowed.lemma_view_inv();
        }
        event
    }

    /// `caller` moves `amount` of its own balance to `to`. Fails with
    /// `InsufficientBalance`, changing nothing, where `caller` holds less
    /// than `amount`. Supply, allowances and pool stay as they are.
    pub fn transfer(&mut self, caller: AccountId, to: AccountId, amount: u128) -> (result: Result<
        Transfer,
        Error,
    >)
        requires
            old(self).wf(),
        ensures
            final(self).wf(),
            result is Ok <==> old(self)@.balance_of(caller) >= amount,
            match old(self)@.transfer(caller, to, amount as nat) {
                Ok(next) => final(self)@ == next && result == Ok::<Transfer, Error>(
                    Transfer { from: caller, to, amount },
                ),
                Err(e) => final(self)@ == old(self)@ && result == Err::<Transfer, Error>(e),
            },
            final(self)@.total_supply() == old(self)@.total_supply(),
            final(self)@.allowances == old(self)@.allowances,
            final(self)@.collateral == old(self)@.collateral,
    {
        self.transfer_from_to(caller, to, amount)
    }

    /// `caller` moves `amount` from `from` to `to` against the allowance
    /// that `from` granted it. Fails with `InsufficientAllowance` where the
    /// allowance is less than `amount`, else with `InsufficientBalance`
    /// where `from` holds less than `amount`; a failure changes nothing. On
    /// success the allowance shrinks by `amount`.
    pub fn transfer_from(
        &mut self,
        caller: AccountId,
        from: AccountId,
        to: AccountId,
        amount: u128,
    ) -> (result: Result<Transfer, Error>)
        requires
            old(self).wf(),
        ensures
            final(self).wf(),
            result is Ok <==> old(self)@.allowance(from, caller) >= amount && old(
                self,
            )@.balance_of(from) >= amount,
            old(self)@.allowance(from, caller) < amount ==> result == Err::<Transfer, Error>(
                Error::InsufficientAllowance,
            ),
            match old(self)@.transfer_from(caller, from, to, amount as nat) {
                Ok(next) => final(self)@ == next && result == Ok::<Transfer, Error>(
                    Transfer { from, to, amount },
                ),
                Err(e) => final(self)@ == old(self)@ && result == Err::<Transfer, Error>(e),
            },
            result is Ok ==> final(self)@.allowance(from, caller) == old(self)@.allowance(
                from,
                caller,
            ) - amount,
            final(self)@.total_supply() == old(self)@.total_supply(),
            final(self)@.collateral == old(self)@.collateral,
    {
        proof {
            self@.balances.lemma_move_value(from, to, amount as nat);
        }
        if self.allowed.allowance(from, caller) < amount {
            return Err(Error::InsufficientAllowance);
        }
        if self.balances.balance_of(from) < amount {
            return Err(Error::InsufficientBalance);
        }
        match self.allowed.consume(from, caller, amount) {
            Ok(()) => {},
            Err(e) => { return Err(e); },
        }
        proof {
            self.allowed.lemma_view_inv();
        }
        self.transfer_from_to(from, to, amount)
    }

    /// Moves `amount` from `from` to `to` and reports the transfer.
    fn transfer_from_to(&mut self, from: AccountId, to: AccountId, amount: u128) -> (result:
        Result<Transfer, Error>)
        requires
            old(self).wf(),
        ensures
            final(self).wf(),
            result is Ok <==> old(self)@.balance_of(from) >= amount,
            match old(self)@.balances.move_value(from, to, amount as nat) {
                Ok(balances) => final(self)@ == (ChestState { balances, ..old(self)@ }) && result
                    == Ok::<Transfer, Error>(Transfer { from, to, amount }),
                Err(e) => final(self)@ == old(self)@ && result == Err::<Transfer, Error>(e),
            },
            final(self)@.total_supply() == old(self)@.total_supply(),
    {
        match self.balances.move_value(from, to, amount) {
            Ok(()) => Ok(Transfer { from, to, amount }),
            Err(e) => Err(e),
        }
    }

    /// `caller` issues `amount` units to itself against collateral. The pool
    /// grows by `amount * price / 100`, rounded down, and the balance of
    /// `caller` and the supply grow by `amount`. Fails with `Overflow`
    /// where the pool would leave the range of a 128-bit amount, else with
    /// `CollateralPoolEmpty` where the pool would still be empty, else with
    /// `Overflow` where the supply would leave that range; a failure
    /// changes nothing.
    pub fn mint(&mut self, caller: AccountId, amount: u128) -> (result: Result<Minted, Error>)
        requires
            old(self).wf(),
        ensures
            final(self).wf(),
            result is Ok <==> {
                &&& 0 < old(self)@.collateral_pool() + old(self)@.required_collateral(amount as nat)
                    <= u128::MAX
                &&& old(self)@.total_supply() + amount <= u128::MAX
            },
            match old(self)@.mint(caller, amount as nat) {
                Ok(next) => final(self)@ == next && result == Ok::<Minted, Error>(
                    Minted { from: caller, to: caller, amount },
                ),
                Err(e) => final(self)@ == old(self)@ && result == Err::<Minted, Error>(e),
            },
            result is Ok ==> {
                &&& final(self)@.collateral_pool() == old(self)@.collateral_pool() + collateral_for(
                    amount as nat,
                    old(self)@.collateral.price,
                )
                &&& final(self)@.total_supply() == old(self)@.total_supply() + amount
                &&& final(self)@.balance_of(caller) == old(self)@.balance_of(caller) + amount
            },
            final(self)@.allowances == old(self)@.allowances,
    {
        proof {
            self@.balances.lemma_credit(caller, amount as nat);
        }
        let required: u128 = match self.collateral.required_collateral(amount) {
            Some(required) => required,
            None => { return Err(Error::Overflow); },
        };
        let pool: u128 = self.collateral.pool();
        if required > u128::MAX - pool {
            return Err(Error::Overflow);
        }
        if pool + required == 0 {
            return Err(Error::CollateralPoolEmpty);
        }
        match self.balances.credit(caller, amount) {
            Ok(()) => {},
            Err(e) => { return Err(e); },
        }
        match self.collateral.deposit(required) {
            Ok(()) => Ok(Minted { from: caller, to: caller, amount }),
            Err(e) => Err(e),
        }
    }

    /// `caller` retires `amount` units of its own and releases their
    /// collateral. The balance of `caller` and the supply shrink by
    /// `amount`, the pool by `amount * price / 100`, rounded down. Fails
    /// with `InsufficientBalance` where `caller` holds less than `amount`,
    /// else with `InsufficientCollateral` where the pool holds less than
    /// is to be released; a failure changes nothing.
    pub fn redeem(&mut self, caller: AccountId, amount: u128) -> (result: Result<Redeemed, Error>)
        requires
            old(self).wf(),
        ensures
            final(self).wf(),
            result is Ok <==> {
                &&& old(self)@.balance_of(caller) >= amount
                &&& old(self)@.collateral_pool() >= old(self)@.required_collateral(amount as nat)
            },
            old(self)@.balance_of(caller) < amount ==> result == Err::<Redeemed, Error>(
                Error::InsufficientBalance,
            ),
            match old(self)@.redeem(caller, amount as nat) {
                Ok(next) => final(self)@ == next && result == Ok::<Redeemed, Error>(
                    Redeemed { from: caller, to: caller, amount },
                ),
                Err(e) => final(self)@ == old(self)@ && result == Err::<Redeemed, Error>(e),
            },
            result is Ok ==> {
                &&& final(self)@.collateral_pool() == old(self)@.collateral_pool() - collateral_for(
                    amount as nat,
                    old(self)@.collateral.price,
                )
                &&& final(self)@.total_supply() == old(self)@.total_supply() - amount
                &&& final(self)@.balance_of(caller) == old(self)@.balance_of(caller) - amount
            },
            final(self)@.allowances == old(self)@.allowances,
    {
        proof {
            self@.balances.lemma_debit(caller, amount as nat);
        }
        if self.balances.balance_of(caller) < amount {
            return Err(Error::InsufficientBalance);
        }
        let required: u128 = match self.collateral.required_collateral(amount) {
            Some(required) => required,
            None => { return Err(Error::InsufficientCollateral); },
        };
        if self.collateral.pool() < required {
            return Err(Error::InsufficientCollateral);
        }
        match self.balances.debit(caller, amount) {
            Ok(()) => {},
            Err(e) => { return Err(e); },
        }
        match self.collateral.withdraw(required) {
            Ok(()) => Ok(Redeemed { from: caller, to: caller, amount }),
            Err(e) => Err(e),
        }
    }
}

} // verus!
