//! Account identifiers, and how the ledger's tables compare them.

use crate::table::Key;
use ink_env::AccountId;
use vstd::prelude::*;

verus! {

/// `ink_env::AccountId`, the 32-byte account identifier of the default
/// environment. Its bytes are not visible to the verifier; the ledger only
/// carries such values around and compares them.
#[verifier::external_type_specification]
#[verifier::external_body]
pub struct ExAccountId(AccountId);

/// Calls the `PartialEq` implementation that `ink_env` derives for
/// `AccountId`. The contract claims that it returns `true` exactly when both
/// identifiers are the same value, which is what a derived comparison of the
/// 32 bytes gives.
#[verifier::external_body]
fn same_account(a: &AccountId, b: &AccountId) -> (same: bool)
    ensures
        same == (*a == *b),
{
    a.eq(b)
}

impl Key for AccountId {
    fn same(&self, other: &Self) -> (same: bool) {
        same_account(self, other)
    }
}

impl Key for (AccountId, AccountId) {
    fn same(&self, other: &Self) -> (same: bool) {
        same_account(&self.0, &other.0) && same_account(&self.1, &other.1)
    }
}

} // verus!
