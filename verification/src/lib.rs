//! A collateral-backed fungible-token ledger.
//!
//! The ledger tracks balances and allowances per account, issues and retires
//! supply against a collateral pool, and proves that the total supply always
//! equals the sum of all balances.

pub mod account;
pub mod allowances;
pub mod balances;
pub mod chest;
pub mod collateral;
pub mod error;
pub mod events;
pub mod laws;
pub mod sum;
pub mod table;

pub use crate::allowances::AllowanceRegistry;
pub use crate::balances::BalanceLedger;
pub use crate::chest::Chest;
pub use crate::collateral::{required_collateral, CollateralPool};
pub use crate::error::Error;
pub use crate::events::{Approval, Minted, Redeemed, Transfer};
