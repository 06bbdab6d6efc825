//! Laws of the ledger: what holds of every state that a sequence of calls
//! can reach, and how calls relate to one another.

use crate::chest::ChestState;
use crate::collateral::collateral_for;
use crate::sum::{lemma_sum_of_empty, lemma_sum_of_is_sum_over, sum_of, sum_over};
use ink_env::AccountId;
use vstd::prelude::*;

verus! {

/// One call of a mutating operation, with the account that makes it.
pub enum Call {
    /// `caller` sets the allowance of `spender` to `amount`.
    Approve { caller: AccountId, spender: AccountId, amount: u128 },
    /// `caller` moves `amount` of its own to `to`.
    Transfer { caller: AccountId, to: AccountId, amount: u128 },
    /// `caller` moves `amount` from `from` to `to` against its allowance.
    TransferFrom { caller: AccountId, from: AccountId, to: AccountId, amount: u128 },
    /// `caller` issues `amount` units to itself.
    Mint { caller: AccountId, amount: u128 },
    /// `caller` retires `amount` units of its own.
    Redeem { caller: AccountId, amount: u128 },
}

/// The state that `call` leaves behind when made in `state`: the state that
/// the operation yields where it succeeds, and `state` itself where it
/// fails.
pub open spec fn after(state: ChestState, call: Call) -> ChestState {
    match call {
        Call::Approve { caller, spender, amount } => state.approve(caller, spender, amount as nat),
        Call::Transfer { caller, to, amount } => match state.transfer(caller, to, amount as nat) {
            Ok(next) => next,
            Err(_) => state,
        },
        Call::TransferFrom { caller, from, to, amount } => match state.transfer_from(
            caller,
            from,
            to,
            amount as nat,
        ) {
            Ok(next) => next,
            Err(_) => state,
        },
        Call::Mint { caller, amount } => match state.mint(caller, amount as nat) {
            Ok(next) => next,
            Err(_) => state,
        },
        Call::Redeem { caller, amount } => match state.redeem(caller, amount as nat) {
            Ok(next) => next,
            Err(_) => state,
        },
    }
}

/// The state that the calls of `calls`, made one after the other, leave
/// behind when the first is made in `state`.
pub open spec fn after_all(state: ChestState, calls: Seq<Call>) -> ChestState
    decreases calls.len(),
{
    if calls.len() == 0 {
        state
    } else {
        after(after_all(state, calls.drop_last()), calls.last())
    }
}

/// A newly created ledger has no supply, an empty pool, no balance and no
/// allowance for anyone, and satisfies the ledger's invariant.
pub proof fn lemma_new_ledger_is_empty(
    name: Seq<char>,
    symbol: Seq<char>,
    decimals: u8,
    collateral_address: AccountId,
    collateral_price: u128,
)
    ensures
        ({
            let start = ChestState::init(
                name,
                symbol,
                decimals,
                collateral_address,
                collateral_price as nat,
            );
            &&& start.inv()
            &&& start.total_supply() == 0
            &&& start.collateral_pool() == 0
            &&& forall|owner: AccountId| start.balance_of(owner) == 0
            &&& forall|owner: AccountId, spender: AccountId| start.allowance(owner, spender) == 0
        }),
{
    lemma_sum_of_empty::<AccountId>();
}

/// Whether `call` names `account`: as its caller, or as the owner, the
/// spender or the receiver that it is about.
pub open spec fn names(call: Call, account: AccountId) -> bool {
    match call {
        Call::Approve { caller, spender, .. } => account == caller || account == spender,
        Call::Transfer { caller, to, .. } => account == caller || account == to,
        Call::TransferFrom { caller, from, to, .. } => account == caller || account == from
            || account == to,
        Call::Mint { caller, .. } => account == caller,
        Call::Redeem { caller, .. } => account == caller,
    }
}

/// A call changes neither the balance of an account that it does not name
/// nor any allowance that such an account has granted or received.
pub proof fn lemma_call_spares_other_accounts(state: ChestState, call: Call, account: AccountId)
    requires
        state.inv(),
        !names(call, account),
    ensures
        after(state, call).balance_of(account) == state.balance_of(account),
        forall|other: AccountId|
            after(state, call).allowance(account, other) == state.allowance(account, other),
        forall|other: AccountId|
            after(state, call).allowance(other, account) == state.allowance(other, account),
{
    match call {
        Call::Approve { caller, spender, amount } => {},
        Call::Transfer { caller, to, amount } => {
            state.balances.lemma_move_value(caller, to, amount as nat);
        },
        Call::TransferFrom { caller, from, to, amount } => {
            state.balances.lemma_move_value(from, to, amount as nat);
        },
        Call::Mint { caller, amount } => {
            state.balances.lemma_credit(caller, amount as nat);
        },
        Call::Redeem { caller, amount } => {
            state.balances.lemma_debit(caller, amount as nat);
        },
    }
}

/// An account that no call has named since the ledger was created holds
/// nothing, and has neither granted nor received any allowance.
pub proof fn lemma_untouched_account_holds_nothing(
    name: Seq<char>,
    symbol: Seq<char>,
    decimals: u8,
    collateral_address: AccountId,
    collateral_price: u128,
    calls: Seq<Call>,
    account: AccountId,
)
    requires
        forall|i: int| 0 <= i < calls.len() ==> !names(#[trigger] calls[i], account),
    ensures
        ({
            let start = ChestState::init(
                name,
                symbol,
                decimals,
                collateral_address,
                collateral_price as nat,
            );
            let end = after_all(start, calls);
            &&& end.balance_of(account) == 0
            &&& forall|other: AccountId| end.allowance(account, other) == 0
            &&& forall|other: AccountId| end.allowance(other, account) == 0
        }),
    decreases calls.len(),
{
    let start = ChestState::init(name, symbol, decimals, collateral_address, collateral_price as nat);
    lemma_new_ledger_is_empty(name, symbol, decimals, collateral_address, collateral_price);
    if calls.len() != 0 {
        let earlier = calls.drop_last();
        assert forall|i: int| 0 <= i < earlier.len() implies !names(
            #[trigger] earlier[i],
            account,
        ) by {
            assert(earlier[i] == calls[i]);
        }
        lemma_untouched_account_holds_nothing(
            name,
            symbol,
            decimals,
            collateral_address,
            collateral_price,
            earlier,
            account,
        );
        lemma_supply_is_sum_of_balances(start, earlier);
        let before = after_all(start, earlier);
        let end = after_all(start, calls);
        assert(end == after(before, calls.last()));
        assert(!names(calls[calls.len() - 1], account));
        lemma_call_spares_other_accounts(before, calls.last(), account);
        assert forall|other: AccountId| end.allowance(account, other) == 0 by {
            assert(before.allowance(account, other) == 0);
        }
        assert forall|other: AccountId| end.allowance(other, account) == 0 by {
            assert(before.allowance(other, account) == 0);
        }
    }
}

/// Every call keeps the ledger's invariant, whether it succeeds or fails.
pub proof fn lemma_call_keeps_invariant(state: ChestState, call: Call)
    requires
        state.inv(),
    ensures
        after(state, call).inv(),
{
    match call {
        Call::Approve { caller, spender, amount } => {
            let next = state.approve(caller, spender, amount as nat);
            assert(next.allowances.granted.dom() =~= state.allowances.granted.dom().insert(
                (caller, spender),
            ));
        },
        Call::Transfer { caller, to, amount } => {
            state.balances.lemma_move_value(caller, to, amount as nat);
        },
        Call::TransferFrom { caller, from, to, amount } => {
            state.balances.lemma_move_value(from, to, amount as nat);
            if let Ok(allowances) = state.allowances.consume(from, caller, amount as nat) {
                assert(allowances.granted.dom() =~= state.allowances.granted.dom().insert(
                    (from, caller),
                ));
            }
        },
        Call::Mint { caller, amount } => {
            state.balances.lemma_credit(caller, amount as nat);
        },
        Call::Redeem { caller, amount } => {
            state.balances.lemma_debit(caller, amount as nat);
        },
    }
}

/// After any sequence of calls on a ledger that satisfied its invariant,
/// the total supply equals the sum of all balances.
pub proof fn lemma_supply_is_sum_of_balances(start: ChestState, calls: Seq<Call>)
    requires
        start.inv(),
    ensures
        after_all(start, calls).inv(),
        after_all(start, calls).total_supply() == sum_of(after_all(start, calls).balances.held),
    decreases calls.len(),
{
    if calls.len() != 0 {
        lemma_supply_is_sum_of_balances(start, calls.drop_last());
        lemma_call_keeps_invariant(after_all(start, calls.drop_last()), calls.last());
    }
}

/// In a ledger that satisfies its invariant, the total supply is the sum of
/// `balance_of` over any list of accounts that names no account twice and
/// names every account with a balance above zero.
pub proof fn lemma_supply_is_sum_over_accounts(state: ChestState, accounts: Seq<AccountId>)
    requires
        state.inv(),
        accounts.no_duplicates(),
        forall|owner: AccountId| state.balance_of(owner) > 0 ==> accounts.contains(owner),
    ensures
        state.total_supply() == sum_over(accounts, state.balances.held),
{
    lemma_sum_of_is_sum_over(state.balances.held, accounts);
}

/// The pool changes only in a mint or a redeem that succeeds, and then by
/// exactly `amount * price / 100`, rounded down: up in a mint, down in a
/// redeem. The price never changes.
pub proof fn lemma_pool_moves_only_with_supply(state: ChestState, call: Call)
    requires
        state.inv(),
    ensures
        after(state, call).collateral.price == state.collateral.price,
        after(state, call).collateral.address == state.collateral.address,
        match call {
            Call::Mint { caller, amount } => after(state, call).collateral_pool() == (if state.mint(
                caller,
                amount as nat,
            ) is Ok {
                state.collateral_pool() + collateral_for(amount as nat, state.collateral.price)
            } else {
                state.collateral_pool()
            }),
            Call::Redeem { caller, amount } => after(state, call).collateral_pool() == (
            if state.redeem(caller, amount as nat) is Ok {
                state.collateral_pool() - collateral_for(amount as nat, state.collateral.price)
            } else {
                state.collateral_pool() as int
            }),
            _ => after(state, call).collateral_pool() == state.collateral_pool(),
        },
{
}

/// An approval overwrites: whatever was granted before, the allowance is
/// the amount approved last, and no other allowance changes.
pub proof fn lemma_approve_overwrites(
    state: ChestState,
    caller: AccountId,
    spender: AccountId,
    earlier: u128,
    amount: u128,
)
    ensures
        state.approve(caller, spender, amount as nat).allowance(caller, spender) == amount,
        state.approve(caller, spender, earlier as nat).approve(caller, spender, amount as nat)
            == state.approve(caller, spender, amount as nat),
        forall|owner: AccountId, other: AccountId|
            (owner, other) != (caller, spender) ==> state.approve(
                caller,
                spender,
                amount as nat,
            ).allowance(owner, other) == state.allowance(owner, other),
{
    let once = state.approve(caller, spender, amount as nat);
    let twice = state.approve(caller, spender, earlier as nat).approve(
        caller,
        spender,
        amount as nat,
    );
    assert(twice.allowances.granted =~= once.allowances.granted);
}

/// An approval is idempotent: making the same approval again changes
/// nothing.
pub proof fn lemma_approve_is_idempotent(
    state: ChestState,
    caller: AccountId,
    spender: AccountId,
    amount: u128,
)
    ensures
        state.approve(caller, spender, amount as nat).approve(caller, spender, amount as nat)
            == state.approve(caller, spender, amount as nat),
{
    lemma_approve_overwrites(state, caller, spender, amount, amount);
}

/// A transfer followed by a transfer of the same amount back restores every
/// balance: the transfer back always succeeds, and afterwards each account
/// holds what it held at first, with supply, allowances and pool untouched.
pub proof fn lemma_transfer_round_trip(
    state: ChestState,
    sender: AccountId,
    receiver: AccountId,
    amount: u128,
)
    requires
        state.inv(),
        state.transfer(sender, receiver, amount as nat) is Ok,
    ensures
        ({
            let there = state.transfer(sender, receiver, amount as nat)->Ok_0;
            &&& there.transfer(receiver, sender, amount as nat) is Ok
            &&& ({
                let back = there.transfer(receiver, sender, amount as nat)->Ok_0;
                &&& forall|owner: AccountId| back.balance_of(owner) == state.balance_of(owner)
                &&& back.total_supply() == state.total_supply()
                &&& back.allowances == state.allowances
                &&& back.collateral == state.collateral
            })
        }),
{
    state.balances.lemma_move_value(sender, receiver, amount as nat);
    let there = state.transfer(sender, receiver, amount as nat)->Ok_0;
    there.balances.lemma_move_value(receiver, sender, amount as nat);
}

} // verus!
