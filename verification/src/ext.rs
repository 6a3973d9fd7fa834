//! Units of the hosting chain: gas budgets for cross-contract calls and the
//! token amount that guards privileged calls.

use vstd::prelude::*;
use crate::account::AccountId;

verus! {

/// Number of a list of voters kept by an outside authority.
pub type ListId = u64;

/// An account whose registration on a list is asked after.
pub type RegistrantId = AccountId;

/// Deposit attached to the cross-contract calls this library asks for.
pub const NO_DEPOSIT: u128 = 0;

/// Execution budget of the callback that resumes a vote, in teragas.
pub const XCC_SUCCESS: u64 = 1;

/// Execution budget of the membership query, in teragas.
pub const LIST_QUERY_TGAS: u64 = 5;

/// Gas units in one teragas.
pub open spec fn gas_per_tgas() -> int {
    1_000_000_000_000
}

/// Yocto units in one whole token.
pub open spec fn yocto_per_near() -> int {
    1_000_000_000_000_000_000_000_000
}

/// `near_sdk::Gas::from_tgas` followed by `as_gas`: the number of gas units in
/// `tgas` teragas. The multiplication by 10^12 is trusted, not proved; inputs
/// on which it would leave `u64` are excluded.
#[verifier::external_body]
pub(crate) fn tgas_to_gas(tgas: u64) -> (gas: u64)
    requires
        tgas * gas_per_tgas() <= u64::MAX,
    ensures
        gas == tgas * gas_per_tgas(),
{
    near_sdk::Gas::from_tgas(tgas).as_gas()
}

/// `near_sdk::NearToken::from_near` followed by `as_yoctonear`: the number of
/// yocto units in `near` whole tokens. The multiplication by 10^24 is trusted,
/// not proved; inputs on which it would leave `u128` are excluded.
#[verifier::external_body]
pub(crate) fn near_to_yocto(near: u128) -> (yocto: u128)
    requires
        near * yocto_per_near() <= u128::MAX,
    ensures
        yocto == near * yocto_per_near(),
{
    near_sdk::NearToken::from_near(near).as_yoctonear()
}

/// Gas units granted to the membership query.
pub fn list_query_gas() -> (gas: u64)
    ensures
        gas == 5 * gas_per_tgas(),
{
    tgas_to_gas(LIST_QUERY_TGAS)
}

/// Gas units granted to the callback that resumes a vote.
pub fn callback_gas() -> (gas: u64)
    ensures
        gas == gas_per_tgas(),
{
    tgas_to_gas(XCC_SUCCESS)
}

/// The smallest deposit that a privileged call must carry, in yocto units.
pub fn minimum_deposit() -> (yocto: u128)
    ensures
        yocto == yocto_per_near(),
{
    near_to_yocto(1)
}

} // verus!
