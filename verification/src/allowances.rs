//! The allowance registry: how much each spender may still move on behalf
//! of each owner.

use crate::error::Error;
use crate::events::Approval;
use crate::sum::amount_of;
use crate::table::Table;
use ink_env::AccountId;
use vstd::prelude::*;

verus! {

/// The allowances granted by owners to spenders.
pub struct AllowanceState {
    /// The allowance of each pair of owner and spender that has an entry;
    /// every other pair has none.
    pub granted: Map<(AccountId, AccountId), nat>,
}

impl AllowanceState {
    /// The state in which nobody has granted anything.
    pub open spec fn empty() -> AllowanceState {
        AllowanceState { granted: Map::empty() }
    }

    /// Finitely many allowances are recorded, each a 128-bit amount.
    pub open spec fn inv(self) -> bool {
        &&& self.granted.dom().finite()
        &&& forall|pair: (AccountId, AccountId)|
            self.granted.dom().contains(pair) ==> #[trigger] self.granted[pair] <= u128::MAX
    }

    /// What `spender` may still move on behalf of `owner`.
    pub open spec fn allowance(self, owner: AccountId, spender: AccountId) -> nat {
        amount_of(self.granted, (owner, spender))
    }

    /// Sets the allowance of `spender` on `owner` to `amount`, whatever it
    /// was before.
    pub open spec fn approve(self, owner: AccountId, spender: AccountId, amount: nat)
        -> AllowanceState {
        AllowanceState { granted: self.granted.insert((owner, spender), amount) }
    }

    /// Takes `amount` from the allowance of `spender` on `owner`, unless
    /// less than `amount` is left of it.
    pub open spec fn consume(self, owner: AccountId, spender: AccountId, amount: nat) -> Result<
        AllowanceState,
        Error,
    > {
        if self.allowance(owner, spender) < amount {
            Err(Error::InsufficientAllowance)
        } else {
            Ok(self.approve(owner, spender, (self.allowance(owner, spender) - amount) as nat))
        }
    }
}

/// The allowances granted by owners to spenders.
pub struct AllowanceRegistry {
    allowed: Table<(AccountId, AccountId)>,
}

impl View for AllowanceRegistry {
    type V = AllowanceState;

    closed spec fn view(&self) -> AllowanceState {
        AllowanceState { granted: self.allowed@ }
    }
}

impl AllowanceRegistry {
    /// The registry's invariant: a sound representation.
    pub closed spec fn wf(&self) -> bool {
        self.allowed.wf()
    }

    /// Every well-formed registry holds finitely many 128-bit allowances.
    pub proof fn lemma_view_inv(&self)
        requires
            self.wf(),
        ensures
            self@.inv(),
    {
        self.allowed.lemma_view_bounded();
    }

    /// A registry in which nobody has granted anything.
    pub fn new() -> (registry: Self)
        ensures
            registry.wf(),
            registry@ == AllowanceState::empty(),
    {
        AllowanceRegistry { allowed: Table::new() }
    }

    /// What `spender` may still move on behalf of `owner`; zero where
    /// nothing was ever granted.
    pub fn allowance(&self, owner: AccountId, spender: AccountId) -> (amount: u128)
        requires
            self.wf(),
        ensures
            amount == self@.allowance(owner, spender),
    {
        self.allowed.get(&(owner, spender))
    }

    /// Sets the allowance of `spender` on `owner` to `amount`, replacing
    /// any earlier grant, and reports the grant.
    pub fn approve(&mut self, owner: AccountId, spender: AccountId, amount: u128) -> (event:
        Approval)
        requires
            old(self).wf(),
        ensures
            final(self).wf(),
            final(self)@ == old(self)@.approve(owner, spender, amount as nat),
            final(self)@.allowance(owner, spender) == amount,
            event == (Approval { owner, spender, amount }),
    {
        self.allowed.set((owner, spender), amount);
        Approval { owner, spender, amount }
    }

    /// Takes `amount` from the allowance of `spender` on `owner`. Fails
    /// with `InsufficientAllowance`, changing nothing, where less than
    /// `amount` is left of it.
    pub fn consume(&mut self, owner: AccountId, spender: AccountId, amount: u128) -> (result:
        Result<(), Error>)
        requires
            old(self).wf(),
        ensures
            final(self).wf(),
            result is Ok <==> old(self)@.allowance(owner, spender) >= amount,
            match old(self)@.consume(owner, spender, amount as nat) {
                Ok(next) => result is Ok && final(self)@ == next,
                Err(e) => result == Err::<(), Error>(e) && final(self)@ == old(self)@,
            },
    {
        let allowance = self.allowed.get(&(owner, spender));
        if allowance < amount {
            return Err(Error::InsufficientAllowance);
        }
        self.allowed.set((owner, spender), allowance - amount);
        Ok(())
    }
}

} // verus!
