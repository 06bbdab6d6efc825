//! The collateral pool: a counter of the collateral that backs the supply,
//! and the fixed price that converts an amount of tokens into collateral.

use crate::error::Error;
use ink_env::AccountId;
use vstd::prelude::*;

verus! {

/// The collateral that backs `amount` units at `price` collateral units per
/// hundred: `amount * price / 100`, rounded down.
pub open spec fn collateral_for(amount: nat, price: nat) -> nat {
    amount * price / 100
}

/// The pool counter with the price and the collateral asset it refers to.
pub struct CollateralState {
    /// The collateral accounted for.
    pub pool: nat,
    /// Collateral units required per hundred units minted.
    pub price: nat,
    /// The account of the collateral asset. It is recorded, never used.
    pub address: AccountId,
}

impl CollateralState {
    /// An empty pool.
    pub open spec fn empty(address: AccountId, price: nat) -> CollateralState {
        CollateralState { pool: 0, price, address }
    }

    /// Pool and price are 128-bit amounts.
    pub open spec fn inv(self) -> bool {
        self.pool <= u128::MAX && self.price <= u128::MAX
    }

    /// The collateral that backs `amount` units at this pool's price.
    pub open spec fn required(self, amount: nat) -> nat {
        collateral_for(amount, self.price)
    }

    /// Adds `collateral` to the pool, unless the pool would leave the range
    /// of a 128-bit amount.
    pub open spec fn deposit(self, collateral: nat) -> Result<CollateralState, Error> {
        if self.pool + collateral > u128::MAX {
            Err(Error::Overflow)
        } else {
            Ok(CollateralState { pool: self.pool + collateral, ..self })
        }
    }

    /// Takes `collateral` from the pool, unless the pool holds less.
    pub open spec fn withdraw(self, collateral: nat) -> Result<CollateralState, Error> {
        if self.pool < collateral {
            Err(Error::InsufficientCollateral)
        } else {
            Ok(CollateralState { pool: (self.pool - collateral) as nat, ..self })
        }
    }
}

/// With both factors split into hundreds and a rest, the rounded-down
/// hundredth of their product is a sum of four terms.
proof fn lemma_collateral_split(qa: nat, ra: nat, qp: nat, rp: nat)
    ensures
        collateral_for(100 * qa + ra, 100 * qp + rp) == 100 * (qa * qp) + qa * rp + ra * qp + (ra
            * rp) / 100,
{
    let whole = 100 * (qa * qp) + qa * rp + ra * qp;
    let rest = ra * rp;
    assert((100 * qa + ra) * (100 * qp + rp) == 100 * whole + rest) by (nonlinear_arith)
        requires
            whole == 100 * (qa * qp) + qa * rp + ra * qp,
            rest == ra * rp,
    ;
    assert((100 * whole + rest) / 100 == whole + rest / 100) by (nonlinear_arith);
}

/// The collateral that backs `amount` units at `price` per hundred, or
/// `None` where it exceeds every 128-bit amount. The product is never formed
/// in 128 bits, so the result is exact even where the product would not fit.
pub fn required_collateral(amount: u128, price: u128) -> (required: Option<u128>)
    ensures
        required == if collateral_for(amount as nat, price as nat) <= u128::MAX {
            Some(collateral_for(amount as nat, price as nat) as u128)
        } else {
            None::<u128>
        },
{
    let qa: u128 = amount / 100;
    let ra: u128 = amount % 100;
    let qp: u128 = price / 100;
    let rp: u128 = price % 100;
    proof {
        lemma_collateral_split(qa as nat, ra as nat, qp as nat, rp as nat);
        assert(qa * rp <= u128::MAX && ra * qp <= u128::MAX && ra * rp < 10000
            && 0 <= qa * qp) by (nonlinear_arith)
            requires
                qa <= u128::MAX / 100,
                qp <= u128::MAX / 100,
                ra < 100,
                rp < 100,
        ;
    }
    let hundreds: u128 = match qa.checked_mul(qp) {
        Some(product) => match product.checked_mul(100) {
            Some(scaled) => scaled,
            None => { return None; },
        },
        None => { return None; },
    };
    let with_rest_of_price: u128 = match hundreds.checked_add(qa * rp) {
        Some(sum) => sum,
        None => { return None; },
    };
    let with_rest_of_amount: u128 = match with_rest_of_price.checked_add(ra * qp) {
        Some(sum) => sum,
        None => { return None; },
    };
    with_rest_of_amount.checked_add(ra * rp / 100)
}

/// The collateral pool of one ledger.
pub struct CollateralPool {
    pool: u128,
    price: u128,
    address: AccountId,
}

impl View for CollateralPool {
    type V = CollateralState;

    closed spec fn view(&self) -> CollateralState {
        CollateralState { pool: self.pool as nat, price: self.price as nat, address: self.address }
    }
}

impl CollateralPool {
    /// Every pool holds 128-bit amounts.
    pub proof fn lemma_view_inv(&self)
        ensures
            self@.inv(),
    {
    }

    /// An empty pool for the collateral asset at `address`, at `price`
    /// collateral units per hundred units minted.
    pub fn new(address: AccountId, price: u128) -> (pool: Self)
        ensures
            pool@ == CollateralState::empty(address, price as nat),
    {
        CollateralPool { pool: 0, price, address }
    }

    /// The collateral accounted for.
    pub fn pool(&self) -> (pool: u128)
        ensures
            pool == self@.pool,
    {
        self.pool
    }

    /// Collateral units required per hundred units minted.
    pub fn price(&self) -> (price: u128)
        ensures
            price == self@.price,
    {
        self.price
    }

    /// The account of the collateral asset.
    pub fn address(&self) -> (address: AccountId)
        ensures
            address == self@.address,
    {
        self.address
    }

    /// The collateral that backs `amount` units at this pool's price, or
    /// `None` where it exceeds every 128-bit amount.
    pub fn required_collateral(&self, amount: u128) -> (required: Option<u128>)
        ensures
            required == if self@.required(amount as nat) <= u128::MAX {
                Some(self@.required(amount as nat) as u128)
            } else {
                None::<u128>
            },
    {
        required_collateral(amount, self.price)
    }

    /// Adds `collateral` to the pool. Fails with `Overflow`, changing
    /// nothing, where the pool would leave the range of a 128-bit amount.
    pub fn deposit(&mut self, collateral: u128) -> (result: Result<(), Error>)
        ensures
            result is Ok <==> old(self)@.pool + collateral <= u128::MAX,
            match old(self)@.deposit(collateral as nat) {
                Ok(next) => result is Ok && final(self)@ == next,
                Err(e) => result == Err::<(), Error>(e) && final(self)@ == old(self)@,
            },
    {
        if collateral > u128::MAX - self.pool {
            return Err(Error::Overflow);
        }
        self.pool = self.pool + collateral;
        Ok(())
    }

    /// Takes `collateral` from the pool. Fails with
    /// `InsufficientCollateral`, changing nothing, where the pool holds
    /// less.
    pub fn withdraw(&mut self, collateral: u128) -> (result: Result<(), Error>)
        ensures
            result is Ok <==> old(self)@.pool >= collateral,
            match old(self)@.withdraw(collateral as nat) {
                Ok(next) => result is Ok && final(self)@ == next,
                Err(e) => result == Err::<(), Error>(e) && final(self)@ == old(self)@,
            },
    {
        if self.pool < collateral {
            return Err(Error::InsufficientCollateral);
        }
        self.pool = self.pool - collateral;
        Ok(())
    }
}

} // verus!
